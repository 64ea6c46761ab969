//! What a refused operation answers.

use vstd::prelude::*;

verus! {

/// Why an operation was refused. Most variants carry the sentence shown to the
/// caller.
#[derive(Debug, PartialEq, Eq)]
pub enum Error {
    /// The request itself breaks a rule.
    Validation(String),
    /// The request names a record that does not exist.
    NotFound(String),
    /// The request collides with a record that already exists.
    Conflict(String),
    /// The caller may not do this.
    Forbidden,
    /// The stored data or the calling code is inconsistent.
    Internal(String),
    /// An amount left the range of a decimal number.
    Overflow,
}

/// What an [`Error`] says: its kind and its sentence.
pub enum Refusal {
    Validation(Seq<char>),
    NotFound(Seq<char>),
    Conflict(Seq<char>),
    Forbidden,
    Internal(Seq<char>),
    Overflow,
}

impl View for Error {
    type V = Refusal;

    open spec fn view(&self) -> Refusal {
        match self {
            Error::Validation(m) => Refusal::Validation(m@),
            Error::NotFound(m) => Refusal::NotFound(m@),
            Error::Conflict(m) => Refusal::Conflict(m@),
            Error::Forbidden => Refusal::Forbidden,
            Error::Internal(m) => Refusal::Internal(m@),
            Error::Overflow => Refusal::Overflow,
        }
    }
}

impl Error {
    /// The sentence the error is shown with.
    pub fn message(&self) -> (r: String)
        ensures
            r@ == (match self@ {
                Refusal::Validation(m) => m,
                Refusal::NotFound(m) => m,
                Refusal::Conflict(m) => m,
                Refusal::Forbidden => "forbidden"@,
                Refusal::Internal(m) => m,
                Refusal::Overflow => "amount out of range"@,
            }),
    {
        match self {
            Error::Validation(m) => m.clone(),
            Error::NotFound(m) => m.clone(),
            Error::Conflict(m) => m.clone(),
            Error::Forbidden => "forbidden".to_owned(),
            Error::Internal(m) => m.clone(),
            Error::Overflow => "amount out of range".to_owned(),
        }
    }
}

impl Error {
    /// Another error that says the same.
    pub fn copy(&self) -> (r: Error)
        ensures
            r@ == self@,
    {
        match self {
            Error::Validation(m) => Error::Validation(m.clone()),
            Error::NotFound(m) => Error::NotFound(m.clone()),
            Error::Conflict(m) => Error::Conflict(m.clone()),
            Error::Forbidden => Error::Forbidden,
            Error::Internal(m) => Error::Internal(m.clone()),
            Error::Overflow => Error::Overflow,
        }
    }
}

/// Why a result is a refusal, where it is one.
pub open spec fn refusal<T>(r: Result<T, Error>) -> Option<Refusal> {
    match r {
        Ok(_) => None,
        Err(e) => Some(e@),
    }
}

/// `Some` where a computation stayed in range, the overflow error otherwise.
pub fn in_range<T>(value: Option<T>) -> (r: Result<T, Error>)
    ensures
        match value {
            Some(v) => r == Ok::<T, Error>(v),
            None => r is Err && r->Err_0@ == Refusal::Overflow,
        },
{
    match value {
        Some(v) => Ok(v),
        None => Err(Error::Overflow),
    }
}

/// The first refusal of two.
pub open spec fn either(a: Option<Refusal>, b: Option<Refusal>) -> Option<Refusal> {
    match a {
        Some(r) => Some(r),
        None => b,
    }
}

} // verus!
