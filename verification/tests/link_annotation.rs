use std::collections::HashMap;

use pdf_link_annotations::{
    Actions, AnnotationContext, BorderArray, ColorArray, DashPhase, Destination, EncodeError,
    HighlightingMode, LinkAnnotation, LinkAnnotationList, ObjectId, PdfObject, PdfPageIndex,
    Point, Real, Rect,
};

fn r32(x: f32) -> Real {
    Real::from_bits(x.to_bits())
}

fn rect(llx: f32, lly: f32, urx: f32, ury: f32) -> Rect {
    Rect {
        ll: Point { x: r32(llx), y: r32(lly) },
        ur: Point { x: r32(urx), y: r32(ury) },
    }
}

fn name(s: &str) -> PdfObject {
    PdfObject::Name(s.to_string())
}

fn reals(xs: &[f32]) -> Vec<PdfObject> {
    xs.iter().map(|x| PdfObject::Real(r32(*x))).collect()
}

#[test]
fn solid_border_encodes_color_triple_in_order() {
    let b = BorderArray::Solid(r32(0.25), r32(0.5), r32(0.75));
    let o = b.into_object();
    assert_eq!(o, PdfObject::Array(reals(&[0.25, 0.5, 0.75])));
}

#[test]
fn dashed_border_appends_phase_only() {
    let dash = DashPhase { dash_array: vec![r32(3.0), r32(2.0)], phase: r32(1.5) };
    let b = BorderArray::Dashed(r32(0.0), r32(0.0), r32(1.0), dash);
    let o = b.into_object();
    // Four elements: the color triple then the phase; the dash magnitudes
    // themselves never appear in this form.
    assert_eq!(o, PdfObject::Array(reals(&[0.0, 0.0, 1.0, 1.5])));
}

#[test]
fn dash_phase_standalone_encoding_carries_magnitudes() {
    let dash = DashPhase { dash_array: vec![r32(3.0), r32(2.0)], phase: r32(1.5) };
    let o = dash.into_object();
    assert_eq!(
        o,
        PdfObject::Array(vec![
            PdfObject::Array(reals(&[3.0, 2.0])),
            PdfObject::Real(r32(1.5)),
        ])
    );
}

#[test]
fn color_arity_transparent() {
    let o = ColorArray::Transparent.into_object();
    assert_eq!(o, PdfObject::Array(vec![]));
}

#[test]
fn color_arity_gray() {
    let o = ColorArray::Gray(r32(0.5)).into_object();
    assert_eq!(o, PdfObject::Array(reals(&[0.5])));
}

#[test]
fn color_arity_rgb() {
    let o = ColorArray::RGB(r32(0.1), r32(0.2), r32(0.3)).into_object();
    assert_eq!(o, PdfObject::Array(reals(&[0.1, 0.2, 0.3])));
}

#[test]
fn color_arity_cmyk() {
    let o = ColorArray::CMYK(r32(0.1), r32(0.2), r32(0.3), r32(0.4)).into_object();
    assert_eq!(o, PdfObject::Array(reals(&[0.1, 0.2, 0.3, 0.4])));
}

#[test]
fn highlighting_mode_four_symbols_round_trip() {
    let modes = [
        (HighlightingMode::NoHighlight, "N"),
        (HighlightingMode::Invert, "I"),
        (HighlightingMode::Outline, "O"),
        (HighlightingMode::Push, "P"),
    ];
    for (mode, symbol) in modes {
        let o = mode.into_object();
        assert_eq!(o, name(symbol));
        // Map the symbol back and check it lands on the same mode.
        let back = match symbol {
            "N" => HighlightingMode::NoHighlight,
            "I" => HighlightingMode::Invert,
            "O" => HighlightingMode::Outline,
            "P" => HighlightingMode::Push,
            _ => unreachable!(),
        };
        assert_eq!(back, mode);
    }
    // The four symbols are pairwise distinct.
    let symbols: Vec<PdfObject> = modes.iter().map(|(m, _)| m.into_object()).collect();
    for i in 0..symbols.len() {
        for j in 0..symbols.len() {
            if i != j {
                assert_ne!(symbols[i], symbols[j]);
            }
        }
    }
}

fn plain_annotation(uri: &str) -> LinkAnnotation {
    LinkAnnotation::new(
        rect(0.0, 0.0, 10.0, 10.0),
        None,
        None,
        Actions::uri(uri.to_string()),
        None,
    )
}

#[test]
fn register_yields_sequential_distinct_handles() {
    let mut list = LinkAnnotationList::new();
    let mut names: Vec<String> = Vec::new();
    for i in 0..12 {
        let handle = list.add_link_annotation(plain_annotation(&format!("https://example.com/{i}")));
        names.push(handle.name().clone());
    }
    let expected: Vec<String> = (0..12).map(|i| format!("PT{i}")).collect();
    assert_eq!(names, expected);
    for i in 0..names.len() {
        for j in 0..names.len() {
            if i != j {
                assert_ne!(names[i], names[j]);
            }
        }
    }
}

#[test]
fn goto_without_hints_encodes_null_markers_not_zero() {
    let mut pages: HashMap<usize, ObjectId> = HashMap::new();
    pages.insert(3, ObjectId::new(9, 0));
    let ctx = AnnotationContext { page_id_to_obj: &pages };
    let action = Actions::go_to(Destination::XYZ {
        page: PdfPageIndex(3),
        left: None,
        top: None,
        zoom: None,
    });
    let o = action.into_object(ctx).expect("page 3 resolves");
    let expected = PdfObject::Dictionary(vec![
        ("S".to_string(), name("GoTo")),
        (
            "D".to_string(),
            PdfObject::Array(vec![
                PdfObject::Reference(ObjectId::new(9, 0)),
                name("XYZ"),
                PdfObject::Null,
                PdfObject::Null,
                PdfObject::Null,
            ]),
        ),
    ]);
    assert_eq!(o, expected);
    // The null marker is not the numeric zero.
    assert_ne!(PdfObject::Null, PdfObject::Real(r32(0.0)));
}

#[test]
fn goto_unresolvable_page_fails_with_missing_index() {
    let pages: HashMap<usize, ObjectId> = HashMap::new();
    let ctx = AnnotationContext { page_id_to_obj: &pages };
    let action = Actions::go_to(Destination::XYZ {
        page: PdfPageIndex(7),
        left: None,
        top: None,
        zoom: None,
    });
    let r = action.into_object(ctx);
    assert_eq!(r, Err(EncodeError::UnresolvedPage(7)));
}

#[test]
fn encode_all_propagates_first_failure_and_emits_nothing() {
    let mut list = LinkAnnotationList::new();
    list.add_link_annotation(LinkAnnotation::new(
        rect(0.0, 0.0, 1.0, 1.0),
        None,
        None,
        Actions::go_to(Destination::XYZ {
            page: PdfPageIndex(5),
            left: None,
            top: None,
            zoom: None,
        }),
        None,
    ));
    let pages: HashMap<usize, ObjectId> = HashMap::new();
    let ctx = AnnotationContext { page_id_to_obj: &pages };
    let r = list.encode_all(ctx);
    assert_eq!(r, Err(EncodeError::UnresolvedPage(5)));
}

#[test]
fn open_uri_encodes_literal_text_exactly() {
    let pages: HashMap<usize, ObjectId> = HashMap::new();
    let ctx = AnnotationContext { page_id_to_obj: &pages };
    let action = Actions::uri("https://example.com".to_string());
    let o = action.into_object(ctx).expect("external actions always encode");
    let expected = PdfObject::Dictionary(vec![
        ("S".to_string(), name("URI")),
        (
            "URI".to_string(),
            PdfObject::LiteralString("https://example.com".to_string()),
        ),
    ]);
    assert_eq!(o, expected);
}

#[test]
fn registered_rgb_invert_goto_annotation_encodes_fully() {
    let mut list = LinkAnnotationList::new();
    let annotation = LinkAnnotation::new(
        rect(0.0, 0.0, 100.0, 50.0),
        Some(BorderArray::Solid(r32(0.0), r32(0.0), r32(1.0))),
        Some(ColorArray::RGB(r32(0.0), r32(1.0), r32(1.0))),
        Actions::go_to(Destination::XYZ {
            page: PdfPageIndex(0),
            left: None,
            top: Some(r32(792.0)),
            zoom: None,
        }),
        Some(HighlightingMode::Invert),
    );
    let handle = list.add_link_annotation(annotation);
    assert_eq!(handle.name().as_str(), "PT0");

    let mut pages: HashMap<usize, ObjectId> = HashMap::new();
    pages.insert(0, ObjectId::new(5, 0));
    let ctx = AnnotationContext { page_id_to_obj: &pages };
    let out = list.encode_all(ctx).expect("page 0 resolves");
    assert_eq!(out.len(), 1);
    assert_eq!(out[0].0, "PT0");

    let expected = PdfObject::Dictionary(vec![
        ("Type".to_string(), name("Annot")),
        ("Subtype".to_string(), name("Link")),
        ("Rect".to_string(), PdfObject::Array(reals(&[0.0, 0.0, 100.0, 50.0]))),
        (
            "A".to_string(),
            PdfObject::Dictionary(vec![
                ("S".to_string(), name("GoTo")),
                (
                    "D".to_string(),
                    PdfObject::Array(vec![
                        PdfObject::Reference(ObjectId::new(5, 0)),
                        name("XYZ"),
                        PdfObject::Null,
                        PdfObject::Real(r32(792.0)),
                        PdfObject::Null,
                    ]),
                ),
            ]),
        ),
        ("Border".to_string(), PdfObject::Array(reals(&[0.0, 0.0, 1.0]))),
        ("C".to_string(), PdfObject::Array(reals(&[0.0, 1.0, 1.0]))),
        ("H".to_string(), name("I")),
    ]);
    assert_eq!(out.into_iter().next().unwrap().1, expected);
}

#[test]
fn new_applies_documented_defaults() {
    let a = plain_annotation("https://example.com");
    assert_eq!(a.border.into_object(), PdfObject::Array(reals(&[0.0, 0.0, 1.0])));
    assert_eq!(a.c.into_object(), PdfObject::Array(reals(&[0.0, 1.0, 1.0])));
    assert_eq!(a.h, HighlightingMode::Invert);
}

#[test]
fn collapsed_dictionary_honors_only_first_rectangle() {
    let empty = LinkAnnotationList::new();
    assert_eq!(empty.collapsed_dictionary(), PdfObject::Dictionary(vec![]));

    let mut list = LinkAnnotationList::new();
    let mut first = plain_annotation("https://example.com/a");
    first = LinkAnnotation::new(
        rect(1.0, 2.0, 3.0, 4.0),
        None,
        None,
        first.a,
        None,
    );
    list.add_link_annotation(first);
    let mut second = plain_annotation("https://example.com/b");
    second = LinkAnnotation::new(
        rect(9.0, 9.0, 9.0, 9.0),
        None,
        None,
        second.a,
        None,
    );
    list.add_link_annotation(second);

    let expected = PdfObject::Dictionary(vec![
        ("Type".to_string(), name("Annot")),
        ("Subtype".to_string(), name("Link")),
        ("Rect".to_string(), PdfObject::Array(reals(&[1.0, 2.0, 3.0, 4.0]))),
    ]);
    assert_eq!(list.collapsed_dictionary(), expected);
}

#[test]
fn handle_names_pass_the_two_digit_boundary() {
    for (i, expected) in [(0, "PT0"), (9, "PT9"), (10, "PT10"), (120, "PT120")] {
        let handle = pdf_link_annotations::LinkAnnotationRef::new(i);
        assert_eq!(handle.name().as_str(), expected);
    }
}

#[test]
fn encode_all_keeps_registration_order_and_names() {
    let mut list = LinkAnnotationList::new();
    list.add_link_annotation(plain_annotation("https://example.com/first"));
    list.add_link_annotation(LinkAnnotation::new(
        rect(0.0, 0.0, 2.0, 2.0),
        Some(BorderArray::Dashed(
            r32(0.0),
            r32(0.0),
            r32(1.0),
            DashPhase { dash_array: vec![r32(4.0)], phase: r32(0.5) },
        )),
        Some(ColorArray::Gray(r32(0.5))),
        Actions::go_to(Destination::XYZ {
            page: PdfPageIndex(1),
            left: Some(r32(10.0)),
            top: None,
            zoom: None,
        }),
        Some(HighlightingMode::Push),
    ));
    let mut pages: HashMap<usize, ObjectId> = HashMap::new();
    pages.insert(1, ObjectId::new(7, 0));
    let ctx = AnnotationContext { page_id_to_obj: &pages };
    let out = list.encode_all(ctx).expect("every referenced page resolves");
    assert_eq!(out.len(), 2);
    assert_eq!(out[0].0, "PT0");
    assert_eq!(out[1].0, "PT1");

    let expected_second = PdfObject::Dictionary(vec![
        ("Type".to_string(), name("Annot")),
        ("Subtype".to_string(), name("Link")),
        ("Rect".to_string(), PdfObject::Array(reals(&[0.0, 0.0, 2.0, 2.0]))),
        (
            "A".to_string(),
            PdfObject::Dictionary(vec![
                ("S".to_string(), name("GoTo")),
                (
                    "D".to_string(),
                    PdfObject::Array(vec![
                        PdfObject::Reference(ObjectId::new(7, 0)),
                        name("XYZ"),
                        PdfObject::Real(r32(10.0)),
                        PdfObject::Null,
                        PdfObject::Null,
                    ]),
                ),
            ]),
        ),
        ("Border".to_string(), PdfObject::Array(reals(&[0.0, 0.0, 1.0, 0.5]))),
        ("C".to_string(), PdfObject::Array(reals(&[0.5]))),
        ("H".to_string(), name("P")),
    ]);
    assert_eq!(out[1].1, expected_second);
}
