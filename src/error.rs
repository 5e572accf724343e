use vstd::prelude::*;
use crate::text::IntErrorKind;

verus! {

/// The underlying reason a streamed conversion failed.
#[derive(Debug)]
pub enum Cause {
    /// The bytes are not UTF-8; the longest valid prefix has this length.
    Utf8 { valid_up_to: usize },
    /// The text is not an integer of the wanted type.
    Integer(IntErrorKind),
    /// The text is neither `true` nor `false`.
    Boolean,
    /// The text is not one character: it is empty, or it has more.
    Character { empty: bool },
    /// An outside parser's own description of the failure.
    Message(String),
}

pub enum CauseView {
    Utf8(usize),
    Integer(IntErrorKind),
    Boolean,
    Character(bool),
    Message(Seq<char>),
}

impl View for Cause {
    type V = CauseView;

    open spec fn view(&self) -> CauseView {
        match self {
            Cause::Utf8 { valid_up_to } => CauseView::Utf8(*valid_up_to),
            Cause::Integer(k) => CauseView::Integer(*k),
            Cause::Boolean => CauseView::Boolean,
            Cause::Character { empty } => CauseView::Character(*empty),
            Cause::Message(m) => CauseView::Message(m@),
        }
    }
}

pub open spec fn cause_view(c: Option<Cause>) -> Option<CauseView> {
    match c {
        Some(c) => Some(c@),
        None => None,
    }
}

/// Why a submission could not be turned into a record.
#[derive(Debug)]
pub enum TypedMultipartError {
    /// The field's payload could not be read as the wanted type; a streamed
    /// conversion says why.
    WrongFieldType { field_name: String, wanted_type: String, cause: Option<Cause> },
    /// A required field never arrived.
    MissingField { field_name: String },
    /// A single-valued field arrived twice while duplicates are rejected.
    DuplicateField { field_name: String },
    /// A part names no declared field while unknown fields are rejected.
    UnknownField { field_name: String },
    /// The environment failed (storage or transport), not the input.
    Other { message: String },
}

/// What an error says, as plain values.
pub enum ErrorView {
    WrongFieldType(Seq<char>, Seq<char>, Option<CauseView>),
    MissingField(Seq<char>),
    DuplicateField(Seq<char>),
    UnknownField(Seq<char>),
    Other(Seq<char>),
}

impl View for TypedMultipartError {
    type V = ErrorView;

    open spec fn view(&self) -> ErrorView {
        match self {
            TypedMultipartError::WrongFieldType {
                field_name,
                wanted_type,
                cause,
            } => ErrorView::WrongFieldType(field_name@, wanted_type@, cause_view(*cause)),
            TypedMultipartError::MissingField { field_name } => ErrorView::MissingField(field_name@),
            TypedMultipartError::DuplicateField { field_name } => ErrorView::DuplicateField(
                field_name@,
            ),
            TypedMultipartError::UnknownField { field_name } => ErrorView::UnknownField(field_name@),
            TypedMultipartError::Other { message } => ErrorView::Other(message@),
        }
    }
}

/// A wrong-type error for field `field_name` naming the type `wanted_type`.
pub fn wrong_type(field_name: String, wanted_type: &str, cause: Option<Cause>) -> (r:
    TypedMultipartError)
    ensures
        r@ == ErrorView::WrongFieldType(field_name@, wanted_type@, cause_view(cause)),
{
    TypedMultipartError::WrongFieldType {
        field_name,
        wanted_type: String::from_str(wanted_type),
        cause,
    }
}

/// The same error as a scalar conversion reports it: a wrong-type error
/// without its cause; any other error unchanged.
pub open spec fn without_cause(e: ErrorView) -> ErrorView {
    match e {
        ErrorView::WrongFieldType(n, t, _) => ErrorView::WrongFieldType(n, t, None),
        _ => e,
    }
}

/// Drops the cause of a wrong-type error.
pub fn drop_cause(e: TypedMultipartError) -> (r: TypedMultipartError)
    ensures
        r@ == without_cause(e@),
{
    match e {
        TypedMultipartError::WrongFieldType { field_name, wanted_type, cause: _ } => {
            TypedMultipartError::WrongFieldType { field_name, wanted_type, cause: None }
        },
        other => other,
    }
}

} // verus!
