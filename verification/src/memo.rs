//! A value that is either not yet computed or computed.

use vstd::prelude::*;

verus! {

/// A lazily filled value.
#[derive(PartialEq, Eq)]
pub enum Memo<T> {
    Uninitialised,
    Value(T),
}

impl<T> Memo<T> {
    pub fn is_uninitialised(&self) -> (r: bool)
        ensures
            r == (*self is Uninitialised),
    {
        matches!(self, Memo::Uninitialised)
    }

    pub fn is_initialised(&self) -> (r: bool)
        ensures
            r == (*self is Value),
    {
        !matches!(self, Memo::Uninitialised)
    }

    /// The held value; the memo must be initialised.
    pub fn unwrap(&self) -> (r: &T)
        requires
            *self is Value,
        ensures
            *r == self->Value_0,
    {
        match self {
            Memo::Value(value) => value,
            Memo::Uninitialised => vstd::pervasive::unreached(),
        }
    }
}

} // verus!
