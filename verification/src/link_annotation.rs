//! Link annotations: visual attributes, actions with deferred page
//! resolution, and the document-scoped registry that names them.
//!
//! Building an annotation is a pure value construction with no identities
//! in it. Only at encode time does a caller-supplied resolution context
//! map each referenced logical page index to its concrete object identity;
//! an index the context does not know is reported as an error rather than
//! encoded as a dangling reference.

use std::collections::HashMap;

use vstd::prelude::*;

use crate::decimal::{dec_str, lemma_dec_str_injective, push_decimal};
use crate::object_model::{lemma_array_obj, lemma_dict_obj, ObjectId, PdfObject, Real, SpecObject};

verus! {

broadcast use vstd::std_specs::hash::group_hash_axioms;

/// The encoded form of one real number.
pub open spec fn real_obj(r: Real) -> SpecObject {
    SpecObject::Real(r)
}

/// The encoded form of an optional real: the value itself, or the null
/// marker meaning "leave the current viewer value unchanged". An absent
/// value is never collapsed to a numeric zero.
pub open spec fn opt_real_obj(o: Option<Real>) -> SpecObject {
    match o {
        Option::Some(r) => SpecObject::Real(r),
        Option::None => SpecObject::Null,
    }
}

/// A point in document user space.
#[derive(Clone, Copy, Debug, PartialEq, Eq, Structural)]
pub struct Point {
    pub x: Real,
    pub y: Real,
}

/// A rectangular region: lower-left and upper-right corners. The corners
/// are caller-supplied and not reordered or clamped here.
#[derive(Clone, Copy, Debug, PartialEq, Eq, Structural)]
pub struct Rect {
    pub ll: Point,
    pub ur: Point,
}

/// The encoded form of a rectangle: the four corner coordinates in
/// lower-left x, lower-left y, upper-right x, upper-right y order.
pub open spec fn rect_obj(rect: Rect) -> SpecObject {
    SpecObject::Array(
        seq![real_obj(rect.ll.x), real_obj(rect.ll.y), real_obj(rect.ur.x), real_obj(rect.ur.y)],
    )
}

/// A logical page index, resolved to an object identity only at encode
/// time.
#[derive(Clone, Copy, Debug, PartialEq, Eq, Structural)]
pub struct PdfPageIndex(pub usize);

/// The border style of a link annotation: a solid border with a color
/// triple, or a dashed border with a color triple and a dash pattern.
#[derive(Clone, Debug)]
pub enum BorderArray {
    Solid(Real, Real, Real),
    Dashed(Real, Real, Real, DashPhase),
}

/// A dash pattern: the ordered dash magnitudes and the phase.
#[derive(Clone, Debug)]
pub struct DashPhase {
    pub dash_array: Vec<Real>,
    pub phase: Real,
}

/// An annotation color, one variant per color-space arity: no components,
/// gray, red-green-blue, or cyan-magenta-yellow-black.
#[derive(Clone, Copy, Debug)]
pub enum ColorArray {
    Transparent,
    Gray(Real),
    RGB(Real, Real, Real),
    CMYK(Real, Real, Real, Real),
}

/// How the viewer highlights a link while it is activated.
#[derive(Clone, Copy, Debug, PartialEq, Eq, Structural)]
pub enum HighlightingMode {
    NoHighlight,
    Invert,
    Outline,
    Push,
}

impl BorderArray {
    /// The encoded border array. A solid border encodes as the three
    /// color components in order. A dashed border appends the dash phase
    /// as a fourth element; the dash magnitudes are not embedded in this
    /// form (the standalone `DashPhase` encoding carries them).
    pub open spec fn encoding(self) -> SpecObject {
        match self {
            BorderArray::Solid(r, g, b) => SpecObject::Array(
                seq![real_obj(r), real_obj(g), real_obj(b)],
            ),
            BorderArray::Dashed(r, g, b, dash) => SpecObject::Array(
                seq![real_obj(r), real_obj(g), real_obj(b), real_obj(dash.phase)],
            ),
        }
    }

    /// Encodes the border style into the object model.
    pub fn into_object(self) -> (o: PdfObject)
        ensures
            o@ == self.encoding(),
    {
        let ghost this = self;
        let mut items: Vec<PdfObject> = Vec::new();
        match self {
            BorderArray::Solid(r, g, b) => {
                items.push(PdfObject::Real(r));
                items.push(PdfObject::Real(g));
                items.push(PdfObject::Real(b));
            },
            BorderArray::Dashed(r, g, b, dash) => {
                items.push(PdfObject::Real(r));
                items.push(PdfObject::Real(g));
                items.push(PdfObject::Real(b));
                items.push(PdfObject::Real(dash.phase));
            },
        }
        let o = PdfObject::Array(items);
        proof {
            match this {
                BorderArray::Solid(r, g, b) => {
                    lemma_array_obj(o, seq![real_obj(r), real_obj(g), real_obj(b)]);
                },
                BorderArray::Dashed(r, g, b, dash) => {
                    lemma_array_obj(
                        o,
                        seq![real_obj(r), real_obj(g), real_obj(b), real_obj(dash.phase)],
                    );
                },
            }
        }
        o
    }
}

/// The encoded border of a dashed style never depends on the dash
/// magnitudes, only on the color components and the phase.
pub proof fn lemma_dashed_border_ignores_magnitudes(
    r: Real,
    g: Real,
    b: Real,
    d1: DashPhase,
    d2: DashPhase,
)
    requires
        d1.phase == d2.phase,
    ensures
        BorderArray::Dashed(r, g, b, d1).encoding() == BorderArray::Dashed(r, g, b, d2).encoding(),
{
}

impl Default for BorderArray {
    /// The default border: solid, with the blue-ish color triple whose
    /// components are zero, zero and one.
    fn default() -> (r: BorderArray)
        ensures
            r == BorderArray::Solid(
                Real { bits: REAL_ZERO_BITS },
                Real { bits: REAL_ZERO_BITS },
                Real { bits: REAL_ONE_BITS },
            ),
    {
        BorderArray::Solid(
            Real { bits: REAL_ZERO_BITS },
            Real { bits: REAL_ZERO_BITS },
            Real { bits: REAL_ONE_BITS },
        )
    }
}

/// The single-precision bit pattern of the real number zero.
pub const REAL_ZERO_BITS: u32 = 0x0000_0000;

/// The single-precision bit pattern of the real number one.
pub const REAL_ONE_BITS: u32 = 0x3F80_0000;

impl DashPhase {
    /// The standalone encoding of a dash pattern: a two-element array
    /// holding the array of dash magnitudes and then the phase. Unlike
    /// the embedded form inside a border array, this form carries the
    /// magnitudes.
    pub open spec fn encoding(self) -> SpecObject {
        SpecObject::Array(
            seq![
                SpecObject::Array(Seq::new(self.dash_array@.len(), |i: int| if 0 <= i
                    < self.dash_array@.len() {
                    real_obj(self.dash_array@[i])
                } else {
                    SpecObject::Null
                })),
                real_obj(self.phase),
            ],
        )
    }

    /// Encodes the dash pattern standalone into the object model.
    pub fn into_object(self) -> (o: PdfObject)
        ensures
            o@ == self.encoding(),
    {
        let mut magnitudes: Vec<PdfObject> = Vec::new();
        let mut i: usize = 0;
        while i < self.dash_array.len()
            invariant
                i <= self.dash_array@.len(),
                magnitudes@.len() == i,
                forall|k: int|
                    0 <= k < i ==> magnitudes@[k] == PdfObject::Real(self.dash_array@[k]),
            decreases self.dash_array@.len() - i,
        {
            magnitudes.push(PdfObject::Real(self.dash_array[i]));
            i += 1;
        }
        let ghost inner = PdfObject::Array(magnitudes);
        let ghost gmagnitudes = magnitudes@;
        let mut items: Vec<PdfObject> = Vec::new();
        items.push(PdfObject::Array(magnitudes));
        items.push(PdfObject::Real(self.phase));
        let o = PdfObject::Array(items);
        proof {
            let melems = Seq::new(
                self.dash_array@.len(),
                |i: int|
                    if 0 <= i < self.dash_array@.len() {
                        real_obj(self.dash_array@[i])
                    } else {
                        SpecObject::Null
                    },
            );
            lemma_array_obj(inner, melems);
            lemma_array_obj(o, seq![SpecObject::Array(melems), real_obj(self.phase)]);
        }
        o
    }
}

impl ColorArray {
    /// How many components the variant declares: none, gray, three color
    /// components, or four.
    pub open spec fn component_count(self) -> nat {
        match self {
            ColorArray::Transparent => 0,
            ColorArray::Gray(..) => 1,
            ColorArray::RGB(..) => 3,
            ColorArray::CMYK(..) => 4,
        }
    }

    /// The encoded color array: the declared components in declared
    /// order, and nothing else.
    pub open spec fn encoding(self) -> SpecObject {
        match self {
            ColorArray::Transparent => SpecObject::Array(Seq::empty()),
            ColorArray::Gray(g) => SpecObject::Array(seq![real_obj(g)]),
            ColorArray::RGB(r, g, b) => SpecObject::Array(
                seq![real_obj(r), real_obj(g), real_obj(b)],
            ),
            ColorArray::CMYK(c, m, y, k) => SpecObject::Array(
                seq![real_obj(c), real_obj(m), real_obj(y), real_obj(k)],
            ),
        }
    }

    /// Encodes the color into the object model.
    pub fn into_object(self) -> (o: PdfObject)
        ensures
            o@ == self.encoding(),
    {
        let ghost this = self;
        let mut items: Vec<PdfObject> = Vec::new();
        match self {
            ColorArray::Transparent => {},
            ColorArray::Gray(g) => {
                items.push(PdfObject::Real(g));
            },
            ColorArray::RGB(r, g, b) => {
                items.push(PdfObject::Real(r));
                items.push(PdfObject::Real(g));
                items.push(PdfObject::Real(b));
            },
            ColorArray::CMYK(c, m, y, k) => {
                items.push(PdfObject::Real(c));
                items.push(PdfObject::Real(m));
                items.push(PdfObject::Real(y));
                items.push(PdfObject::Real(k));
            },
        }
        let o = PdfObject::Array(items);
        proof {
            match this {
                ColorArray::Transparent => {
                    lemma_array_obj(o, Seq::empty());
                },
                ColorArray::Gray(g) => {
                    lemma_array_obj(o, seq![real_obj(g)]);
                },
                ColorArray::RGB(r, g, b) => {
                    lemma_array_obj(o, seq![real_obj(r), real_obj(g), real_obj(b)]);
                },
                ColorArray::CMYK(c, m, y, k) => {
                    lemma_array_obj(
                        o,
                        seq![real_obj(c), real_obj(m), real_obj(y), real_obj(k)],
                    );
                },
            }
        }
        o
    }
}

/// Every color variant encodes to an array of exactly as many elements as
/// its declared component arity.
pub proof fn lemma_color_component_count(c: ColorArray)
    ensures
        c.encoding() matches SpecObject::Array(els) && els.len() == c.component_count(),
{
}

impl Default for ColorArray {
    /// The default color: three components, zero, one and one.
    fn default() -> (r: ColorArray)
        ensures
            r == ColorArray::RGB(
                Real { bits: REAL_ZERO_BITS },
                Real { bits: REAL_ONE_BITS },
                Real { bits: REAL_ONE_BITS },
            ),
    {
        ColorArray::RGB(
            Real { bits: REAL_ZERO_BITS },
            Real { bits: REAL_ONE_BITS },
            Real { bits: REAL_ONE_BITS },
        )
    }
}

impl HighlightingMode {
    /// The single-character symbolic name of each mode.
    pub open spec fn symbol(self) -> char {
        match self {
            HighlightingMode::NoHighlight => 'N',
            HighlightingMode::Invert => 'I',
            HighlightingMode::Outline => 'O',
            HighlightingMode::Push => 'P',
        }
    }

    /// The mode a symbol denotes, if any: the inverse of `symbol`.
    pub open spec fn from_symbol(c: char) -> Option<HighlightingMode> {
        if c == 'N' {
            Option::Some(HighlightingMode::NoHighlight)
        } else if c == 'I' {
            Option::Some(HighlightingMode::Invert)
        } else if c == 'O' {
            Option::Some(HighlightingMode::Outline)
        } else if c == 'P' {
            Option::Some(HighlightingMode::Push)
        } else {
            Option::None
        }
    }

    /// The encoded highlighting mode: the name holding its symbol.
    pub open spec fn encoding(self) -> SpecObject {
        SpecObject::Name(seq![self.symbol()])
    }

    /// Encodes the highlighting mode into the object model.
    pub fn into_object(self) -> (o: PdfObject)
        ensures
            o@ == self.encoding(),
    {
        let symbol: &str = match self {
            HighlightingMode::NoHighlight => "N",
            HighlightingMode::Invert => "I",
            HighlightingMode::Outline => "O",
            HighlightingMode::Push => "P",
        };
        proof {
            reveal_strlit("N");
            reveal_strlit("I");
            reveal_strlit("O");
            reveal_strlit("P");
            assert(symbol@ =~= seq![self.symbol()]);
        }
        PdfObject::Name(String::from_str(symbol))
    }
}

/// Every mode comes back from its own symbol: the four fixed symbols
/// round-trip, and `from_symbol` accepts no fifth symbol.
pub proof fn lemma_highlighting_mode_round_trip(h: HighlightingMode)
    ensures
        HighlightingMode::from_symbol(h.symbol()) == Option::Some(h),
        forall|c: char|
            #[trigger] HighlightingMode::from_symbol(c) matches Option::Some(m) ==> m.symbol()
                == c,
{
}

impl Default for HighlightingMode {
    /// The default highlighting mode: invert the link region.
    fn default() -> (r: HighlightingMode)
        ensures
            r == HighlightingMode::Invert,
    {
        HighlightingMode::Invert
    }
}

/// The resolution context of one encode pass: a borrowed mapping from
/// logical page index to the page's concrete object identity in the
/// emitted document. It is read only and not retained past the pass.
#[derive(Clone, Copy, Debug)]
pub struct AnnotationContext<'a> {
    pub page_id_to_obj: &'a HashMap<usize, ObjectId>,
}

impl<'a> AnnotationContext<'a> {
    /// The page mapping this context supplies.
    pub open spec fn pages(self) -> Map<usize, ObjectId> {
        self.page_id_to_obj@
    }
}

/// The error of an encode pass: the action referenced a logical page
/// index that the resolution context has no entry for. This is a caller
/// contract violation surfaced as a hard failure; no partial object is
/// emitted for the annotation.
#[derive(Clone, Copy, Debug, PartialEq, Eq, Structural)]
pub enum EncodeError {
    UnresolvedPage(usize),
}

/// A navigation target within the document, with viewport hints.
///
/// A `None` hint means "leave the current viewer value unchanged"; this
/// is distinct from any numeric value, including zero, and is preserved
/// through encoding as the null marker.
#[derive(Clone, Copy, Debug)]
#[non_exhaustive]
pub enum Destination {
    XYZ { page: PdfPageIndex, left: Option<Real>, top: Option<Real>, zoom: Option<Real> },
}

impl Destination {
    /// The logical page index the destination targets.
    pub open spec fn page_index(self) -> usize {
        match self {
            Destination::XYZ { page, .. } => page.0,
        }
    }

    /// Whether the context can resolve the targeted page.
    pub open spec fn resolvable(self, pages: Map<usize, ObjectId>) -> bool {
        pages.contains_key(self.page_index())
    }

    /// The encoded destination array under a context that resolves the
    /// page: the resolved page reference, the position tag, then the
    /// left, top and zoom hints, each a real or the null marker.
    pub open spec fn encoding(self, pages: Map<usize, ObjectId>) -> SpecObject
        recommends
            self.resolvable(pages),
    {
        match self {
            Destination::XYZ { page, left, top, zoom } => SpecObject::Array(
                seq![
                    SpecObject::Reference(pages[page.0]),
                    SpecObject::Name("XYZ"@),
                    opt_real_obj(left),
                    opt_real_obj(top),
                    opt_real_obj(zoom),
                ],
            ),
        }
    }

    /// Encodes the destination, resolving its page index through the
    /// context; fails with the missing index if the context has no entry
    /// for it.
    pub fn into_object(self, ctx: AnnotationContext<'_>) -> (r: Result<PdfObject, EncodeError>)
        ensures
            self.resolvable(ctx.pages()) ==> (r matches Ok(o) && o@ == self.encoding(ctx.pages())),
            !self.resolvable(ctx.pages()) ==> r == Err::<PdfObject, EncodeError>(
                EncodeError::UnresolvedPage(self.page_index()),
            ),
    {
        match self {
            Destination::XYZ { page, left, top, zoom } => {
                let id = match ctx.page_id_to_obj.get(&page.0) {
                    Some(id) => *id,
                    None => {
                        return Err(EncodeError::UnresolvedPage(page.0));
                    },
                };
                let mut items: Vec<PdfObject> = Vec::new();
                items.push(PdfObject::Reference(id));
                items.push(PdfObject::Name(String::from_str("XYZ")));
                items.push(opt_real_into_object(left));
                items.push(opt_real_into_object(top));
                items.push(opt_real_into_object(zoom));
                let o = PdfObject::Array(items);
                proof {
                    lemma_array_obj(
                        o,
                        seq![
                            SpecObject::Reference(ctx.pages()[page.0]),
                            SpecObject::Name("XYZ"@),
                            opt_real_obj(left),
                            opt_real_obj(top),
                            opt_real_obj(zoom),
                        ],
                    );
                }
                Ok(o)
            },
        }
    }
}

/// Encodes an optional real as itself or the null marker.
pub fn opt_real_into_object(o: Option<Real>) -> (r: PdfObject)
    ensures
        r@ == opt_real_obj(o),
{
    match o {
        Some(v) => PdfObject::Real(v),
        None => PdfObject::Null,
    }
}


/// What activating a link does: jump to a destination inside the
/// document, or open an external resource.
#[derive(Clone, Debug)]
pub enum Actions {
    GoTo(Destination),
    URI(String),
}

impl Actions {
    /// An internal navigation action.
    pub fn go_to(destination: Destination) -> (r: Self)
        ensures
            r == Actions::GoTo(destination),
    {
        Self::GoTo(destination)
    }

    /// An external navigation action.
    pub fn uri(uri: String) -> (r: Self)
        ensures
            r == Actions::URI(uri),
    {
        Self::URI(uri)
    }

    /// Whether the context resolves every page the action references;
    /// an external action references none.
    pub open spec fn resolvable(self, pages: Map<usize, ObjectId>) -> bool {
        match self {
            Actions::GoTo(destination) => destination.resolvable(pages),
            Actions::URI(_) => true,
        }
    }

    /// The encoded action dictionary under a resolving context. An
    /// internal action carries the tag "GoTo" and the destination array;
    /// an external one carries the tag "URI" and the literal resource
    /// text, byte for byte.
    pub open spec fn encoding(self, pages: Map<usize, ObjectId>) -> SpecObject
        recommends
            self.resolvable(pages),
    {
        match self {
            Actions::GoTo(destination) => SpecObject::Dictionary(
                seq![
                    ("S"@, SpecObject::Name("GoTo"@)),
                    ("D"@, destination.encoding(pages)),
                ],
            ),
            Actions::URI(uri) => SpecObject::Dictionary(
                seq![
                    ("S"@, SpecObject::Name("URI"@)),
                    ("URI"@, SpecObject::LiteralString(uri@)),
                ],
            ),
        }
    }

    /// Encodes the action, resolving referenced pages through the
    /// context; fails with the missing page index if one cannot be
    /// resolved, emitting nothing for the action.
    pub fn into_object(self, ctx: AnnotationContext<'_>) -> (r: Result<PdfObject, EncodeError>)
        ensures
            self.resolvable(ctx.pages()) ==> (r matches Ok(o) && o@ == self.encoding(ctx.pages())),
            !self.resolvable(ctx.pages()) ==> (self matches Actions::GoTo(destination) && r
                == Err::<PdfObject, EncodeError>(
                EncodeError::UnresolvedPage(destination.page_index()),
            )),
    {
        let ghost this = self;
        let mut entries: Vec<(String, PdfObject)> = Vec::new();
        match self {
            Actions::GoTo(destination) => {
                let dest_obj = match destination.into_object(ctx) {
                    Ok(o) => o,
                    Err(e) => {
                        return Err(e);
                    },
                };
                entries.push((String::from_str("S"), PdfObject::Name(String::from_str("GoTo"))));
                entries.push((String::from_str("D"), dest_obj));
                let o = PdfObject::Dictionary(entries);
                proof {
                    lemma_dict_obj(
                        o,
                        seq![
                            ("S"@, SpecObject::Name("GoTo"@)),
                            ("D"@, destination.encoding(ctx.pages())),
                        ],
                    );
                }
                Ok(o)
            },
            Actions::URI(uri) => {
                entries.push((String::from_str("S"), PdfObject::Name(String::from_str("URI"))));
                entries.push((String::from_str("URI"), PdfObject::LiteralString(uri)));
                let o = PdfObject::Dictionary(entries);
                proof {
                    lemma_dict_obj(
                        o,
                        seq![
                            ("S"@, SpecObject::Name("URI"@)),
                            ("URI"@, SpecObject::LiteralString(this->URI_0@)),
                        ],
                    );
                }
                Ok(o)
            },
        }
    }
}


/// A link annotation: a rectangular region, visual attributes, an action
/// and a highlighting mode. A value is pure — it carries logical page
/// indices, never resolved identities.
#[derive(Clone, Debug)]
pub struct LinkAnnotation {
    pub rect: Rect,
    pub border: BorderArray,
    pub c: ColorArray,
    pub a: Actions,
    pub h: HighlightingMode,
}

impl LinkAnnotation {
    /// Builds an annotation; an omitted border, color or highlighting
    /// mode takes its default.
    pub fn new(
        rect: Rect,
        border: Option<BorderArray>,
        c: Option<ColorArray>,
        a: Actions,
        h: Option<HighlightingMode>,
    ) -> (r: Self)
        ensures
            r.rect == rect,
            r.a == a,
            r.border == match border {
                Option::Some(b) => b,
                Option::None => BorderArray::Solid(
                    Real { bits: REAL_ZERO_BITS },
                    Real { bits: REAL_ZERO_BITS },
                    Real { bits: REAL_ONE_BITS },
                ),
            },
            r.c == match c {
                Option::Some(cv) => cv,
                Option::None => ColorArray::RGB(
                    Real { bits: REAL_ZERO_BITS },
                    Real { bits: REAL_ONE_BITS },
                    Real { bits: REAL_ONE_BITS },
                ),
            },
            r.h == match h {
                Option::Some(hv) => hv,
                Option::None => HighlightingMode::Invert,
            },
    {
        Self {
            rect,
            border: match border {
                Some(b) => b,
                None => BorderArray::default(),
            },
            c: match c {
                Some(cv) => cv,
                None => ColorArray::default(),
            },
            a,
            h: match h {
                Some(hv) => hv,
                None => HighlightingMode::default(),
            },
        }
    }

    /// The encoded annotation dictionary under a resolving context: the
    /// fixed type and subtype tags, the rectangle, the action, the
    /// border, the color and the highlighting symbol, each exactly once.
    pub open spec fn encoding(self, pages: Map<usize, ObjectId>) -> SpecObject
        recommends
            self.a.resolvable(pages),
    {
        SpecObject::Dictionary(
            seq![
                ("Type"@, SpecObject::Name("Annot"@)),
                ("Subtype"@, SpecObject::Name("Link"@)),
                ("Rect"@, rect_obj(self.rect)),
                ("A"@, self.a.encoding(pages)),
                ("Border"@, self.border.encoding()),
                ("C"@, self.c.encoding()),
                ("H"@, self.h.encoding()),
            ],
        )
    }

    /// Encodes the annotation, resolving its action through the context;
    /// fails with the missing page index if the action references a page
    /// the context does not know, emitting nothing for the annotation.
    pub fn into_object(self, ctx: AnnotationContext<'_>) -> (r: Result<PdfObject, EncodeError>)
        ensures
            self.a.resolvable(ctx.pages()) ==> (r matches Ok(o) && o@ == self.encoding(
                ctx.pages(),
            )),
            !self.a.resolvable(ctx.pages()) ==> (self.a matches Actions::GoTo(destination) && r
                == Err::<PdfObject, EncodeError>(
                EncodeError::UnresolvedPage(destination.page_index()),
            )),
    {
        let ghost this = self;
        let action_obj = match self.a.into_object(ctx) {
            Ok(o) => o,
            Err(e) => {
                return Err(e);
            },
        };
        let mut rect_items: Vec<PdfObject> = Vec::new();
        rect_items.push(PdfObject::Real(self.rect.ll.x));
        rect_items.push(PdfObject::Real(self.rect.ll.y));
        rect_items.push(PdfObject::Real(self.rect.ur.x));
        rect_items.push(PdfObject::Real(self.rect.ur.y));
        let rect_arr = PdfObject::Array(rect_items);
        proof {
            lemma_array_obj(
                rect_arr,
                seq![
                    real_obj(this.rect.ll.x),
                    real_obj(this.rect.ll.y),
                    real_obj(this.rect.ur.x),
                    real_obj(this.rect.ur.y),
                ],
            );
        }
        let mut entries: Vec<(String, PdfObject)> = Vec::new();
        entries.push((String::from_str("Type"), PdfObject::Name(String::from_str("Annot"))));
        entries.push((String::from_str("Subtype"), PdfObject::Name(String::from_str("Link"))));
        entries.push((String::from_str("Rect"), rect_arr));
        entries.push((String::from_str("A"), action_obj));
        entries.push((String::from_str("Border"), self.border.into_object()));
        entries.push((String::from_str("C"), self.c.into_object()));
        entries.push((String::from_str("H"), self.h.into_object()));
        let o = PdfObject::Dictionary(entries);
        proof {
            lemma_dict_obj(
                o,
                seq![
                    ("Type"@, SpecObject::Name("Annot"@)),
                    ("Subtype"@, SpecObject::Name("Link"@)),
                    ("Rect"@, rect_obj(this.rect)),
                    ("A"@, this.a.encoding(ctx.pages())),
                    ("Border"@, this.border.encoding()),
                    ("C"@, this.c.encoding()),
                    ("H"@, this.h.encoding()),
                ],
            );
        }
        Ok(o)
    }
}


/// The handle name issued for registration index `i`: "PT" followed by
/// the index in decimal.
pub open spec fn handle_name(i: nat) -> Seq<char> {
    seq!['P', 'T'] + dec_str(i)
}

/// Distinct registration indices are issued distinct handle names.
pub proof fn lemma_handle_names_distinct(i: nat, j: nat)
    ensures
        i != j ==> handle_name(i) != handle_name(j),
{
    if i != j && handle_name(i) == handle_name(j) {
        assert(handle_name(i).skip(2) =~= dec_str(i));
        assert(handle_name(j).skip(2) =~= dec_str(j));
        lemma_dec_str_injective(i, j);
    }
}

/// A registry-issued handle: a lightweight name identifying one
/// registered annotation. A handle owns nothing; it is the key under
/// which the annotation's encoded dictionary is emitted.
#[derive(Debug)]
pub struct LinkAnnotationRef {
    pub(crate) name: String,
}

impl View for LinkAnnotationRef {
    type V = Seq<char>;

    closed spec fn view(&self) -> Seq<char> {
        self.name@
    }
}

impl LinkAnnotationRef {
    /// Builds the handle for registration index `index`.
    pub fn new(index: usize) -> (r: Self)
        ensures
            r@ == handle_name(index as nat),
    {
        let mut name = String::from_str("PT");
        proof {
            reveal_strlit("PT");
            assert(name@ =~= seq!['P', 'T']);
        }
        push_decimal(&mut name, index);
        Self { name }
    }

    /// The handle's name.
    pub fn name(&self) -> (r: &String)
        ensures
            r@ == self@,
    {
        &self.name
    }
}

/// The document-scoped annotation registry. Registration stores the
/// annotation and issues the next sequential handle; every registered
/// annotation is kept, in registration order, until the registry is
/// consumed by an encode pass. Handle names are never reused.
#[derive(Clone, Debug)]
pub struct LinkAnnotationList {
    link_annotations: Vec<LinkAnnotation>,
}

impl View for LinkAnnotationList {
    type V = Seq<LinkAnnotation>;

    closed spec fn view(&self) -> Seq<LinkAnnotation> {
        self.link_annotations@
    }
}

impl Default for LinkAnnotationList {
    /// An empty registry.
    fn default() -> (r: LinkAnnotationList)
        ensures
            r@ == Seq::<LinkAnnotation>::empty(),
    {
        LinkAnnotationList::new()
    }
}

impl LinkAnnotationList {
    /// Creates an empty registry.
    pub fn new() -> (r: Self)
        ensures
            r@ == Seq::<LinkAnnotation>::empty(),
    {
        Self { link_annotations: Vec::new() }
    }

    /// Registers an annotation: stores it and issues the handle named
    /// after the current registration count. Always succeeds.
    pub fn add_link_annotation(&mut self, link_annotation: LinkAnnotation) -> (r: LinkAnnotationRef)
        ensures
            final(self)@ == old(self)@.push(link_annotation),
            r@ == handle_name(old(self)@.len()),
    {
        let link_annotation_ref = LinkAnnotationRef::new(self.link_annotations.len());
        self.link_annotations.push(link_annotation);
        link_annotation_ref
    }

    /// Encodes every registered annotation under the given context,
    /// pairing each encoded dictionary with its handle name, in
    /// registration order. The pass fails on the first annotation whose
    /// action references a page the context cannot resolve, and then
    /// emits nothing at all.
    pub fn encode_all(self, ctx: AnnotationContext<'_>) -> (r: Result<
        Vec<(String, PdfObject)>,
        EncodeError,
    >)
        ensures
            (forall|i: int|
                0 <= i < self@.len() ==> (#[trigger] self@[i]).a.resolvable(ctx.pages())) ==> r
                is Ok,
            r matches Ok(out) ==> {
                &&& forall|i: int|
                    0 <= i < self@.len() ==> (#[trigger] self@[i]).a.resolvable(ctx.pages())
                &&& out@.len() == self@.len()
                &&& forall|i: int|
                    0 <= i < self@.len() ==> (#[trigger] out@[i]).0@ == handle_name(i as nat)
                &&& forall|i: int|
                    0 <= i < self@.len() ==> (#[trigger] out@[i]).1@ == self@[i].encoding(
                        ctx.pages(),
                    )
            },
            r matches Err(e) ==> exists|j: int|
                {
                    &&& 0 <= j < self@.len()
                    &&& !(#[trigger] self@[j]).a.resolvable(ctx.pages())
                    &&& forall|k: int|
                        0 <= k < j ==> (#[trigger] self@[k]).a.resolvable(ctx.pages())
                    &&& self@[j].a matches Actions::GoTo(destination) && e
                        == EncodeError::UnresolvedPage(destination.page_index())
                },
    {
        let ghost all = self@;
        let mut remaining = self.link_annotations;
        let mut out: Vec<(String, PdfObject)> = Vec::new();
        #[verifier::loop_isolation(false)]
        while remaining.len() > 0
            invariant
                out@.len() + remaining@.len() == all.len(),
                remaining@ == all.skip(out@.len() as int),
                forall|k: int|
                    0 <= k < out@.len() ==> (#[trigger] all[k]).a.resolvable(ctx.pages()),
                forall|i: int|
                    0 <= i < out@.len() ==> (#[trigger] out@[i]).0@ == handle_name(i as nat),
                forall|i: int|
                    0 <= i < out@.len() ==> (#[trigger] out@[i]).1@ == all[i].encoding(
                        ctx.pages(),
                    ),
            decreases remaining@.len(),
        {
            let idx = out.len();
            let annotation = remaining.remove(0);
            proof {
                assert(annotation == all[idx as int]);
                assert(remaining@ =~= all.skip(idx as int + 1));
            }
            let handle = LinkAnnotationRef::new(idx);
            match annotation.into_object(ctx) {
                Ok(o) => {
                    out.push((handle.name, o));
                },
                Err(e) => {
                    proof {
                        let j = idx as int;
                        assert(0 <= j < all.len());
                        assert(!all[j].a.resolvable(ctx.pages()));
                        assert(all[j].a matches Actions::GoTo(destination) && e
                            == EncodeError::UnresolvedPage(destination.page_index()));
                        assert(forall|k: int|
                            0 <= k < j ==> (#[trigger] all[k]).a.resolvable(ctx.pages()));
                    }
                    return Err(e);
                },
            }
        }
        Ok(out)
    }

    /// The degraded, legacy collection-level encoding: one shared
    /// dictionary that honors only the rectangle of the first-registered
    /// annotation and drops everything else, or an empty dictionary when
    /// the registry is empty. Per-annotation encoding through
    /// `encode_all` is the primary output; this collapsed form exists
    /// only for compatibility with consumers of the old shared
    /// dictionary.
    pub fn collapsed_dictionary(&self) -> (r: PdfObject)
        ensures
            self@.len() == 0 ==> r@ == SpecObject::Dictionary(
                Seq::<(Seq<char>, SpecObject)>::empty(),
            ),
            self@.len() > 0 ==> r@ == SpecObject::Dictionary(
                seq![
                    ("Type"@, SpecObject::Name("Annot"@)),
                    ("Subtype"@, SpecObject::Name("Link"@)),
                    ("Rect"@, rect_obj(self@[0].rect)),
                ],
            ),
    {
        if self.link_annotations.len() == 0 {
            let entries: Vec<(String, PdfObject)> = Vec::new();
            let o = PdfObject::Dictionary(entries);
            proof {
                lemma_dict_obj(o, Seq::empty());
            }
            return o;
        }
        let first_rect = self.link_annotations[0].rect;
        let mut rect_items: Vec<PdfObject> = Vec::new();
        rect_items.push(PdfObject::Real(first_rect.ll.x));
        rect_items.push(PdfObject::Real(first_rect.ll.y));
        rect_items.push(PdfObject::Real(first_rect.ur.x));
        rect_items.push(PdfObject::Real(first_rect.ur.y));
        let rect_arr = PdfObject::Array(rect_items);
        proof {
            lemma_array_obj(
                rect_arr,
                seq![
                    real_obj(first_rect.ll.x),
                    real_obj(first_rect.ll.y),
                    real_obj(first_rect.ur.x),
                    real_obj(first_rect.ur.y),
                ],
            );
        }
        let mut entries: Vec<(String, PdfObject)> = Vec::new();
        entries.push((String::from_str("Type"), PdfObject::Name(String::from_str("Annot"))));
        entries.push((String::from_str("Subtype"), PdfObject::Name(String::from_str("Link"))));
        entries.push((String::from_str("Rect"), rect_arr));
        let o = PdfObject::Dictionary(entries);
        proof {
            lemma_dict_obj(
                o,
                seq![
                    ("Type"@, SpecObject::Name("Annot"@)),
                    ("Subtype"@, SpecObject::Name("Link"@)),
                    ("Rect"@, rect_obj(self@[0].rect)),
                ],
            );
        }
        o
    }
}


} // verus!
