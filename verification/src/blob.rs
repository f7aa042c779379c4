//! Blobs: the bytes of one value, in three stages of trust.
//!
//! A `Blob` is untrusted bytes of the right size. A `ValidBlob` has had its
//! own bytes checked. A `FullyValidBlob` has, besides, had the pointers in
//! it validated. All three are views of the same bytes.

use crate::marshal::Load;
use crate::validptr::ValidateChildren;
use core::marker::PhantomData;
use vstd::prelude::*;

verus! {

/// Untrusted bytes of the size of a `T`.
pub struct Blob<'a, T: Load> {
    bytes: &'a [u8],
    marker: PhantomData<T>,
}

/// Bytes that are the encoding of a `T`; where a `T` holds pointers, their
/// targets have not been looked at.
pub struct ValidBlob<'a, T: Load> {
    bytes: &'a [u8],
    marker: PhantomData<T>,
}

/// Bytes that are the encoding of a `T`, all of whose pointers have been
/// validated.
pub struct FullyValidBlob<'a, T: Load> {
    bytes: &'a [u8],
    marker: PhantomData<T>,
}

impl<'a, T: Load> View for Blob<'a, T> {
    type V = Seq<u8>;

    closed spec fn view(&self) -> Seq<u8> {
        self.bytes@
    }
}

impl<'a, T: Load> View for ValidBlob<'a, T> {
    type V = Seq<u8>;

    closed spec fn view(&self) -> Seq<u8> {
        self.bytes@
    }
}

impl<'a, T: Load> View for FullyValidBlob<'a, T> {
    type V = Seq<u8>;

    closed spec fn view(&self) -> Seq<u8> {
        self.bytes@
    }
}

impl<'a, T: Load> Blob<'a, T> {
    #[verifier::type_invariant]
    spec fn inv(self) -> bool {
        self.bytes@.len() == T::layout().size
    }

    /// Takes bytes for a blob of `T` if they have the size of one.
    pub fn new(bytes: &'a [u8]) -> (r: Option<Self>)
        requires
            T::layout().size <= usize::MAX,
        ensures
            r is Some <==> bytes@.len() == T::layout().size,
            r matches Some(blob) ==> blob@ == bytes@,
    {
        if bytes.len() == T::blob_layout().size() {
            Some(Blob { bytes, marker: PhantomData })
        } else {
            None
        }
    }

    /// The bytes.
    pub fn as_bytes(&self) -> (r: &'a [u8])
        ensures
            r@ == self@,
            r@.len() == T::layout().size,
    {
        proof {
            use_type_invariant(self);
        }
        self.bytes
    }

    /// Checks the bytes against the rules of `T`. Nothing is changed, so
    /// after a failure the bytes can be looked at again.
    pub fn validate(self) -> (r: Result<ValidBlob<'a, T>, T::Error>)
        ensures
            r is Ok <==> T::valid(self@),
            r matches Ok(valid) ==> valid@ == self@,
    {
        proof {
            use_type_invariant(&self);
        }
        match T::validate_blob(self.bytes) {
            Ok(_) => Ok(ValidBlob { bytes: self.bytes, marker: PhantomData }),
            Err(e) => Err(e),
        }
    }
}

impl<'a, T: Load> ValidBlob<'a, T> {
    #[verifier::type_invariant]
    spec fn inv(self) -> bool {
        self.bytes@.len() == T::layout().size && T::valid(self.bytes@)
    }

    /// The bytes.
    pub fn as_bytes(&self) -> (r: &'a [u8])
        ensures
            r@ == self@,
            r@.len() == T::layout().size,
            T::valid(r@),
    {
        proof {
            use_type_invariant(self);
        }
        self.bytes
    }

    /// Takes the blob for fully valid on the strength of `children`, the
    /// validation of its pointers, which must have been driven to its end.
    pub fn into_fully_valid<V, E, C: ValidateChildren<V, E>>(self, children: &C) -> (r:
        FullyValidBlob<'a, T>)
        requires
            children.is_done(),
        ensures
            r@ == self@,
    {
        proof {
            use_type_invariant(&self);
        }
        FullyValidBlob { bytes: self.bytes, marker: PhantomData }
    }
}

impl<'a, T: Load> FullyValidBlob<'a, T> {
    #[verifier::type_invariant]
    spec fn inv(self) -> bool {
        self.bytes@.len() == T::layout().size && T::valid(self.bytes@)
    }

    /// The bytes.
    pub fn as_bytes(&self) -> (r: &'a [u8])
        ensures
            r@ == self@,
            r@.len() == T::layout().size,
            T::valid(r@),
    {
        proof {
            use_type_invariant(self);
        }
        self.bytes
    }

    /// The value that the blob encodes.
    pub fn decode(&self) -> (r: T)
        ensures
            r == T::decoded(self@),
            r.wf(),
    {
        proof {
            use_type_invariant(self);
        }
        T::decode_blob(self.bytes)
    }
}

/// Reads a value without pointers from untrusted bytes: there is none where
/// the bytes have not the size of a `T`; else the bytes are validated, and
/// decoded where they are valid.
pub fn load<T: Load>(bytes: &[u8]) -> (r: Option<Result<T, T::Error>>)
    requires
        T::layout().size <= usize::MAX,
    ensures
        r is Some <==> bytes@.len() == T::layout().size,
        r matches Some(outcome) ==> (outcome is Ok <==> T::valid(bytes@)),
        r matches Some(Ok(value)) ==> value == T::decoded(bytes@) && value.wf(),
{
    match Blob::<T>::new(bytes) {
        None => None,
        Some(blob) => match blob.validate() {
            Err(e) => Some(Err(e)),
            Ok(valid) => {
                let children = ();
                let full = valid.into_fully_valid::<(), (), ()>(&children);
                Some(Ok(full.decode()))
            },
        },
    }
}

} // verus!
