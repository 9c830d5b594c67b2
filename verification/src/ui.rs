//! The polymorphic primary-key value and the lightweight identifier
//! projection ("who, what, where") used to show an entity in a user
//! interface without materializing the full record.

use vstd::prelude::*;

verus! {

/// The `PK` enum captures the various shapes a primary key might take,
/// with text and 32-bit integers being the most common by far.
/// The set of variants is fixed and closed: every variant carries both
/// the value and its shape, so a key round-trips through the crate's
/// serialized form without external type metadata (see `codec`).
pub enum PK {
    /// For things that have a textual natural key.
    Text(String),
    Int16(i16),
    /// For most things.
    Int32(i32),
    Int64(i64),
    /// For subdomains etc.
    Tup2(i32, i32),
    /// For urls etc.
    Tup3(i32, i32, i32),
    /// For addresses.
    ISIO(i32, String, i32, Option<String>),
}

/// The mathematical value of a `PK`: the same closed set of shapes, with
/// every piece of text abstracted to its character sequence.
pub enum PKView {
    Text(Seq<char>),
    Int16(i16),
    Int32(i32),
    Int64(i64),
    Tup2(i32, i32),
    Tup3(i32, i32, i32),
    ISIO(i32, Seq<char>, i32, Option<Seq<char>>),
}

impl View for PK {
    type V = PKView;

    open spec fn view(&self) -> PKView {
        match self {
            PK::Text(s) => PKView::Text(s@),
            PK::Int16(v) => PKView::Int16(*v),
            PK::Int32(v) => PKView::Int32(*v),
            PK::Int64(v) => PKView::Int64(*v),
            PK::Tup2(a, b) => PKView::Tup2(*a, *b),
            PK::Tup3(a, b, c) => PKView::Tup3(*a, *b, *c),
            PK::ISIO(a, s, b, o) => PKView::ISIO(
                *a,
                s@,
                *b,
                match o {
                    Option::Some(t) => Option::Some(t@),
                    Option::None => Option::None,
                },
            ),
        }
    }
}

/// The `DisplayUI` trait identifies the 'who, what, where' of an object,
/// which allows the object to be displayed in a user interface.
pub trait DisplayUI {
    /// The name of this object, i.e. "Chicago" or "Cool Blue Inc.".
    fn name(&self) -> String;

    /// The primary key of this object.
    fn pk(&self) -> PK;

    /// A static string reflecting the 'data type'.
    fn data_type() -> &'static str;

    /// Optional subtype; by default an object has none.
    fn sub_type(&self) -> (r: Option<&'static str>)
        ensures
            r is None,
    {
        None
    }
}

/// Many structs have an `i32` primary key; this trait exposes it.
pub trait PK32 {
    fn pk_32(&self) -> i32;
}

/// When autocompleting, one often wants just the name and the primary key
/// of an entity rather than the entity itself. `Identifier` captures that:
/// a minimal, serializable reference sufficient for display and selection.
pub struct Identifier {
    pub data_type: &'static str,
    pub name: String,
    pub pk: PK,
}

} // verus!
