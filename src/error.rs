use vstd::prelude::*;

use crate::text::{chars_of, string_of};

verus! {

/// The two kinds of failure.
#[derive(Copy, Clone, Debug, PartialEq, Eq, Structural)]
pub enum ErrorKind {
    /// The input text is malformed.
    Parse,
    /// A value does not fit into the target width.
    Overflow,
}

/// The error of every fallible conversion of this library.
#[derive(Debug)]
pub enum ToleranceError {
    ParseError(String),
    Overflow(String),
}

impl View for ToleranceError {
    type V = (ErrorKind, Seq<char>);

    open spec fn view(&self) -> (ErrorKind, Seq<char>) {
        match self {
            ToleranceError::ParseError(m) => (ErrorKind::Parse, m@),
            ToleranceError::Overflow(m) => (ErrorKind::Overflow, m@),
        }
    }
}

impl PartialEq for ToleranceError {
    fn eq(&self, other: &ToleranceError) -> (r: bool)
        ensures
            r == (self@ == other@),
    {
        match (self, other) {
            (ToleranceError::ParseError(a), ToleranceError::ParseError(b)) => a.eq(b),
            (ToleranceError::Overflow(a), ToleranceError::Overflow(b)) => a.eq(b),
            _ => false,
        }
    }
}

impl vstd::std_specs::cmp::PartialEqSpecImpl for ToleranceError {
    open spec fn obeys_eq_spec() -> bool {
        true
    }

    open spec fn eq_spec(&self, other: &ToleranceError) -> bool {
        self@ == other@
    }
}

impl Eq for ToleranceError {
}

/// Whether `r` is the error that `e` describes.
pub open spec fn is_error<T>(r: Result<T, ToleranceError>, e: (ErrorKind, Seq<char>)) -> bool {
    r is Err && r->Err_0@ == e
}

impl ToleranceError {
    /// A `ParseError` carrying `text`.
    pub fn parse_err<R>(text: &str) -> (r: Result<R, ToleranceError>)
        ensures
            is_error(r, (ErrorKind::Parse, text@)),
    {
        let v = chars_of(text);
        Err(ToleranceError::ParseError(string_of(&v)))
    }

    /// The kind of this error.
    pub fn kind(&self) -> (r: ErrorKind)
        ensures
            r == self@.0,
    {
        match self {
            ToleranceError::ParseError(_) => ErrorKind::Parse,
            ToleranceError::Overflow(_) => ErrorKind::Overflow,
        }
    }

    /// The text that describes this error.
    pub fn message(&self) -> (r: String)
        ensures
            r@ == self@.1,
    {
        match self {
            ToleranceError::ParseError(m) => m.clone(),
            ToleranceError::Overflow(m) => m.clone(),
        }
    }
}

/// The text of a failed narrowing of an integer.
pub open spec fn out_of_range_msg() -> Seq<char> {
    "out of range integral type conversion attempted"@
}

/// The `Overflow` of a failed narrowing of an integer.
pub fn out_of_range_error() -> (r: ToleranceError)
    ensures
        r@ == (ErrorKind::Overflow, out_of_range_msg()),
{
    let v = chars_of("out of range integral type conversion attempted");
    ToleranceError::Overflow(string_of(&v))
}

} // verus!
