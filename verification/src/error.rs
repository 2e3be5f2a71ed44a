use vstd::prelude::*;
use vstd::string::StringExecFns;

verus! {

/// Why a page or a row could not be read.
#[derive(Debug, Clone, Copy, PartialEq, Eq)]
pub enum CrackmeError {
    /// The source ended before the named field was read, or held nothing
    /// for it.
    NotFound(&'static str),
    /// The named field was there and could not be read as its type.
    DetailParse(&'static str),
    /// Something followed the named field, which is the last one.
    Leftover(&'static str),
}

pub type CrackmeResult<T> = Result<T, CrackmeError>;

impl CrackmeError {
    /// The field that the error is about.
    pub open spec fn field(self) -> Seq<char> {
        match self {
            CrackmeError::NotFound(f) => f@,
            CrackmeError::DetailParse(f) => f@,
            CrackmeError::Leftover(f) => f@,
        }
    }

    /// The sentence that reports the error.
    pub open spec fn message_text(self) -> Seq<char> {
        match self {
            CrackmeError::NotFound(f) => "No value found for "@ + f@ + "!"@,
            CrackmeError::DetailParse(f) => "Failed to parse "@ + f@ + "!"@,
            CrackmeError::Leftover(f) => "Unexpected value after "@ + f@ + "!"@,
        }
    }

    /// The sentence that reports the error.
    pub fn message(&self) -> (r: String)
        ensures
            r@ == self.message_text(),
    {
        let (head, field) = match self {
            CrackmeError::NotFound(f) => ("No value found for ", *f),
            CrackmeError::DetailParse(f) => ("Failed to parse ", *f),
            CrackmeError::Leftover(f) => ("Unexpected value after ", *f),
        };
        let mut out = String::from_str(head);
        out.append(field);
        out.append("!");
        out
    }
}

} // verus!
