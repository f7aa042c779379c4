//! What can go wrong when an offset is followed into a pile.

use crate::offset::Offset;
use crate::validptr::FatPtr;
use vstd::prelude::*;
use vstd::std_specs::convert::FromSpecImpl;

verus! {

/// The identity of a pile: where its bytes are mapped, and how many there
/// are.
#[derive(Clone, Copy, Debug, PartialEq, Eq, Structural)]
pub struct Pile {
    pub mapping: usize,
    pub len: usize,
}

/// An attempt to dereference a pile offset failed.
#[derive(Debug, PartialEq, Eq, Structural)]
pub struct OffsetError {
    pub pile: Pile,
    pub offset: Offset,
}

impl OffsetError {
    /// The error of following `ptr` into `pile`.
    pub fn new<M>(pile: &Pile, ptr: &FatPtr<Offset, M>) -> (r: Self)
        ensures
            r.pile == *pile,
            r.offset == ptr.raw,
    {
        Self { pile: *pile, offset: ptr.raw }
    }
}

/// Why a pointer into a pile could not be dereferenced: the offset is no
/// good, or the value there is not valid, for the reason `err`.
#[derive(Debug)]
pub enum DerefError<E> {
    Offset(OffsetError),
    Value { pile: Pile, offset: Offset, err: E },
}

/// Why the bytes at an offset did not validate.
#[derive(Debug)]
pub enum ValidatorError<E> {
    Offset { offset: Offset },
    Value { offset: Offset, err: E },
    Padding { offset: Offset },
}

/// A `DerefError` in the form in which it can leave the pile's lifetime
/// behind: the pile is named by its mapping.
#[derive(Debug)]
pub enum DerefErrorPayload<E> {
    Offset { mapping: usize, offset: Offset },
    Value { mapping: usize, offset: Offset, err: E },
}

impl<E> From<OffsetError> for DerefError<E> {
    fn from(err: OffsetError) -> (r: Self) {
        DerefError::Offset(err)
    }
}

impl<E> FromSpecImpl<OffsetError> for DerefError<E> {
    open spec fn obeys_from_spec() -> bool {
        true
    }

    open spec fn from_spec(err: OffsetError) -> Self {
        DerefError::Offset(err)
    }
}

impl<E> From<OffsetError> for DerefErrorPayload<E> {
    fn from(err: OffsetError) -> (r: Self) {
        DerefErrorPayload::Offset { mapping: err.pile.mapping, offset: err.offset.to_static() }
    }
}

impl<E> FromSpecImpl<OffsetError> for DerefErrorPayload<E> {
    open spec fn obeys_from_spec() -> bool {
        true
    }

    /// The mapping and the offset are kept.
    open spec fn from_spec(err: OffsetError) -> Self {
        DerefErrorPayload::Offset { mapping: err.pile.mapping, offset: err.offset }
    }
}

impl<E> From<DerefError<E>> for DerefErrorPayload<E> {
    fn from(err: DerefError<E>) -> (r: Self) {
        match err {
            DerefError::Offset(err) => DerefErrorPayload::from(err),
            DerefError::Value { pile, offset, err } => {
                DerefErrorPayload::Value { mapping: pile.mapping, offset: offset.to_static(), err }
            },
        }
    }
}

impl<E> FromSpecImpl<DerefError<E>> for DerefErrorPayload<E> {
    open spec fn obeys_from_spec() -> bool {
        true
    }

    /// The mapping, the offset and the cause are kept.
    open spec fn from_spec(err: DerefError<E>) -> Self {
        match err {
            DerefError::Offset(err) => DerefErrorPayload::Offset {
                mapping: err.pile.mapping,
                offset: err.offset,
            },
            DerefError::Value { pile, offset, err } => DerefErrorPayload::Value {
                mapping: pile.mapping,
                offset,
                err,
            },
        }
    }
}

} // verus!
