//! The slice of the low-level document object model that link annotations
//! are encoded into: reals, names, literal strings, arrays, dictionaries,
//! indirect references and the null marker.
//!
//! A real number is carried opaquely as its single-precision bit pattern:
//! the encoders never interpret it numerically, they only move it into
//! place, so the model keeps it as a plain 32-bit value.

use vstd::prelude::*;

verus! {

broadcast use vstd::std_specs::vec::axiom_vec_index_decreases;

/// An opaque real number, carried as its single-precision bit pattern.
///
/// The encoders treat reals as opaque document-space values: they are
/// stored and emitted verbatim, never compared or computed with.
#[derive(Clone, Copy, Debug, PartialEq, Eq, Structural)]
pub struct Real {
    pub bits: u32,
}

impl Real {
    /// Wraps a single-precision bit pattern.
    pub fn from_bits(bits: u32) -> (r: Real)
        ensures
            r.bits == bits,
    {
        Real { bits }
    }
}

/// A concrete object identity in the emitted document: the object number
/// and generation number of an indirect object.
#[derive(Clone, Copy, Debug, PartialEq, Eq, Structural)]
pub struct ObjectId {
    pub number: u32,
    pub generation: u16,
}

impl ObjectId {
    /// Builds an object identity from its object and generation numbers.
    pub fn new(number: u32, generation: u16) -> (r: ObjectId)
        ensures
            r.number == number,
            r.generation == generation,
    {
        ObjectId { number, generation }
    }
}

/// The mathematical model of an encoded object: the same tree, with
/// sequences in place of vectors and character sequences in place of
/// strings.
#[verifier::ext_equal]
pub enum SpecObject {
    Null,
    Real(Real),
    Name(Seq<char>),
    LiteralString(Seq<char>),
    Reference(ObjectId),
    Array(Seq<SpecObject>),
    Dictionary(Seq<(Seq<char>, SpecObject)>),
}

/// An encoded object: one node of the low-level object tree handed to the
/// document writer.
#[derive(Debug, PartialEq)]
pub enum PdfObject {
    /// The format's null/absent marker.
    Null,
    /// A real number.
    Real(Real),
    /// A symbolic name.
    Name(String),
    /// A literal (byte-for-byte) string.
    LiteralString(String),
    /// An indirect reference to another object by its identity.
    Reference(ObjectId),
    /// An ordered array of objects.
    Array(Vec<PdfObject>),
    /// A string-keyed dictionary; entry order is kept as built.
    Dictionary(Vec<(String, PdfObject)>),
}

/// The mathematical value of an encoded object.
pub open spec fn obj_model(o: PdfObject) -> SpecObject
    decreases o,
{
    match o {
        PdfObject::Null => SpecObject::Null,
        PdfObject::Real(r) => SpecObject::Real(r),
        PdfObject::Name(s) => SpecObject::Name(s@),
        PdfObject::LiteralString(s) => SpecObject::LiteralString(s@),
        PdfObject::Reference(id) => SpecObject::Reference(id),
        PdfObject::Array(items) => SpecObject::Array(
            Seq::new(items@.len(), |i: int| if 0 <= i < items@.len() {
                obj_model(items[i])
            } else {
                SpecObject::Null
            }),
        ),
        PdfObject::Dictionary(entries) => SpecObject::Dictionary(
            Seq::new(entries@.len(), |i: int| if 0 <= i < entries@.len() {
                (entries[i].0@, obj_model(entries[i].1))
            } else {
                (Seq::empty(), SpecObject::Null)
            }),
        ),
    }
}

impl View for PdfObject {
    type V = SpecObject;

    open spec fn view(&self) -> SpecObject {
        obj_model(*self)
    }
}

/// An array object's model is the sequence of its elements' models.
pub proof fn lemma_array_obj(o: PdfObject, s: Seq<SpecObject>)
    requires
        o matches PdfObject::Array(items) && s.len() == items@.len() && (forall|i: int|
            0 <= i < s.len() ==> s[i] == obj_model(#[trigger] items@[i])),
    ensures
        obj_model(o) == SpecObject::Array(s),
{
    let t = obj_model(o)->Array_0;
    assert(obj_model(o) == SpecObject::Array(t));
    assert(s =~= t);
}

/// A dictionary object's model is the sequence of its entries' models,
/// key views paired with value models, in entry order.
pub proof fn lemma_dict_obj(o: PdfObject, s: Seq<(Seq<char>, SpecObject)>)
    requires
        o matches PdfObject::Dictionary(entries) && s.len() == entries@.len() && (forall|i: int|
            0 <= i < s.len() ==> s[i].0 == (#[trigger] entries@[i]).0@ && s[i].1 == obj_model(
                entries@[i].1,
            )),
    ensures
        obj_model(o) == SpecObject::Dictionary(s),
{
    let t = obj_model(o)->Dictionary_0;
    assert(obj_model(o) == SpecObject::Dictionary(t));
    assert(s =~= t);
}

} // verus!
