//! The structured report of validation failures.
//!
//! A report mirrors the shape of the domain value being validated: an
//! [`Error`] is a single [`ErrorEntry`] at a leaf, a map of field names to
//! sub-reports for a record, or a map of indices to sub-reports for a
//! sequence.  A node exists at a position only when validation failed at or
//! below that position.

use vstd::prelude::*;

use crate::value::{obj_view, SpecValue, Value};

verus! {

/// The closed set of failure kinds a validation rule can report.
#[derive(Debug, Clone, Copy, PartialEq, Eq, Structural)]
pub enum ErrorCode {
    /// A value was absent where one is required.
    MissingField,
    /// A value was present but of the wrong shape or kind.
    WrongType,
    /// A number was present and correctly typed but outside its allowed
    /// domain.
    OutOfRange,
    /// A value was of the correct primitive type but failed a semantic
    /// check.
    InvalidFormat,
}

impl ErrorCode {
    /// The wire identifier of this failure kind.
    pub fn text(&self) -> (r: String)
        ensures
            r@ == self.spec_text(),
    {
        match self {
            ErrorCode::MissingField => "missing_field".to_owned(),
            ErrorCode::WrongType => "wrong_type".to_owned(),
            ErrorCode::OutOfRange => "out_of_range".to_owned(),
            ErrorCode::InvalidFormat => "invalid_format".to_owned(),
        }
    }

    /// The wire identifier of this failure kind.
    pub open spec fn spec_text(&self) -> Seq<char> {
        match self {
            ErrorCode::MissingField => "missing_field"@,
            ErrorCode::WrongType => "wrong_type"@,
            ErrorCode::OutOfRange => "out_of_range"@,
            ErrorCode::InvalidFormat => "invalid_format"@,
        }
    }
}

/// The model of an [`ErrorEntry`]: a failure kind with its diagnostic
/// parameters.
pub struct SpecErrorEntry {
    pub code: ErrorCode,
    pub params: Seq<(Seq<char>, SpecValue)>,
}

/// The model of an [`Error`] report tree.
pub enum SpecError {
    Struct(Seq<(Seq<char>, SpecError)>),
    List(Seq<(int, SpecError)>),
    Entry(SpecErrorEntry),
}

/// One concrete validation failure: a failure kind plus free-form
/// diagnostic parameters.
#[derive(Debug, PartialEq)]
pub struct ErrorEntry {
    pub code: ErrorCode,
    pub params: Vec<(String, Value)>,
}

impl ErrorEntry {
    /// An entry of the given kind with no parameters.
    pub fn new(code: ErrorCode) -> (r: Self)
        ensures
            r.deep_view() == (SpecErrorEntry { code, params: Seq::<(Seq<char>, SpecValue)>::empty() }),
    {
        let r = Self { code, params: Vec::new() };
        proof {
            assert(r.params@ =~= Seq::<(String, Value)>::empty());
            assert(obj_view(r.params@) =~= Seq::<(Seq<char>, SpecValue)>::empty());
        }
        r
    }
}

impl DeepView for ErrorEntry {
    type V = SpecErrorEntry;

    open spec fn deep_view(&self) -> SpecErrorEntry {
        SpecErrorEntry { code: self.code, params: obj_view(self.params@) }
    }
}

/// A report of every failure found while validating one value, mirroring
/// the shape of the domain type.
#[derive(Debug, PartialEq)]
pub enum Error {
    /// Per-field reports of a record; only failed fields are present.
    Struct(Vec<(String, Error)>),
    /// Per-index reports of a sequence; only failed indices are present.
    List(Vec<(usize, Error)>),
    /// A single failure at this position.
    Entry(ErrorEntry),
}

impl DeepView for Error {
    type V = SpecError;

    open spec fn deep_view(&self) -> SpecError
        decreases self,
    {
        match self {
            Error::Struct(fields) => SpecError::Struct(error_fields_view(fields@)),
            Error::List(items) => SpecError::List(error_items_view(items@)),
            Error::Entry(e) => SpecError::Entry(e.deep_view()),
        }
    }
}

/// The models of the per-field reports of a record, in order.
pub open spec fn error_fields_view(fields: Seq<(String, Error)>) -> Seq<(Seq<char>, SpecError)>
    decreases fields,
{
    if fields.len() == 0 {
        Seq::empty()
    } else {
        seq![(fields[0].0@, fields[0].1.deep_view())] + error_fields_view(fields.drop_first())
    }
}

/// The models of the per-index reports of a sequence, in order.
pub open spec fn error_items_view(items: Seq<(usize, Error)>) -> Seq<(int, SpecError)>
    decreases items,
{
    if items.len() == 0 {
        Seq::empty()
    } else {
        seq![(items[0].0 as int, items[0].1.deep_view())] + error_items_view(items.drop_first())
    }
}

/// The length and entries of `error_fields_view`, stated pointwise.
pub proof fn lemma_error_fields_view_index(fields: Seq<(String, Error)>)
    ensures
        error_fields_view(fields).len() == fields.len(),
        forall|i: int|
            0 <= i < fields.len() ==> error_fields_view(fields)[i] == (
                fields[i].0@,
                fields[i].1.deep_view(),
            ),
    decreases fields,
{
    if fields.len() > 0 {
        lemma_error_fields_view_index(fields.drop_first());
        assert(error_fields_view(fields) == seq![(fields[0].0@, fields[0].1.deep_view())]
            + error_fields_view(fields.drop_first()));
        assert forall|i: int| 0 <= i < fields.len() implies error_fields_view(fields)[i] == (
            fields[i].0@,
            fields[i].1.deep_view(),
        ) by {
            if i > 0 {
                assert(error_fields_view(fields)[i] == error_fields_view(fields.drop_first())[i
                    - 1]);
                assert(fields.drop_first()[i - 1] == fields[i]);
            }
        }
    }
}

/// The length and entries of `error_items_view`, stated pointwise.
pub proof fn lemma_error_items_view_index(items: Seq<(usize, Error)>)
    ensures
        error_items_view(items).len() == items.len(),
        forall|i: int|
            0 <= i < items.len() ==> error_items_view(items)[i] == (
                items[i].0 as int,
                items[i].1.deep_view(),
            ),
    decreases items,
{
    if items.len() > 0 {
        lemma_error_items_view_index(items.drop_first());
        assert(error_items_view(items) == seq![(items[0].0 as int, items[0].1.deep_view())]
            + error_items_view(items.drop_first()));
        assert forall|i: int| 0 <= i < items.len() implies error_items_view(items)[i] == (
            items[i].0 as int,
            items[i].1.deep_view(),
        ) by {
            if i > 0 {
                assert(error_items_view(items)[i] == error_items_view(items.drop_first())[i - 1]);
                assert(items.drop_first()[i - 1] == items[i]);
            }
        }
    }
}

impl Error {
    /// A leaf report holding one entry of the given kind.
    pub fn entry(code: ErrorCode) -> (r: Self)
        ensures
            r.deep_view() == spec_entry(code),
    {
        Error::Entry(ErrorEntry::new(code))
    }
}

/// The model of a leaf report of the given kind with no parameters.
pub open spec fn spec_entry(code: ErrorCode) -> SpecError {
    SpecError::Entry(
        SpecErrorEntry { code, params: Seq::<(Seq<char>, SpecValue)>::empty() },
    )
}

/// A top-level mapping of field names to reports.
#[derive(Debug, PartialEq)]
pub struct ErrorMap(pub Vec<(String, Error)>);

impl DeepView for ErrorMap {
    type V = Seq<(Seq<char>, SpecError)>;

    open spec fn deep_view(&self) -> Seq<(Seq<char>, SpecError)> {
        error_fields_view(self.0@)
    }
}

impl Default for ErrorMap {
    /// An empty mapping.
    fn default() -> (r: Self)
        ensures
            r.deep_view() == Seq::<(Seq<char>, SpecError)>::empty(),
    {
        let r = ErrorMap(Vec::new());
        proof {
            assert(r.0@ =~= Seq::<(String, Error)>::empty());
            assert(error_fields_view(r.0@) =~= Seq::<(Seq<char>, SpecError)>::empty());
        }
        r
    }
}

} // verus!
