//! Pointers known to be valid, and the state machine that validates what a
//! pointer refers to without the whole graph being resident.

use crate::layout::{BlobLayout, Layout};
use crate::marshal::{Load, Primitive};
use crate::offset::{Kind, Offset, OffsetMut};
use crate::writer::WriteBlob;
use vstd::prelude::*;
use vstd::slice::slice_subrange;

verus! {

/// A pointer together with the metadata of what it points to, such as the
/// length of a slice.
pub struct FatPtr<P, M> {
    pub raw: P,
    pub metadata: M,
}

/// Why a blob is not a fat pointer: its pointer or its metadata is not
/// valid.
#[derive(Debug)]
pub enum ValidateError<P, M> {
    Ptr(P),
    Metadata(M),
}

impl<P: Primitive, M: Primitive> Primitive for FatPtr<P, M> {
    /// The pointer followed by the metadata.
    open spec fn layout() -> Layout {
        P::layout().extend(M::layout())
    }

    open spec fn wf(&self) -> bool {
        self.raw.wf() && self.metadata.wf()
    }

    /// The pointer's bytes, then those of the metadata.
    open spec fn bytes(&self) -> Seq<u8> {
        self.raw.bytes() + self.metadata.bytes()
    }

    proof fn lemma_size(&self) {
        self.raw.lemma_size();
        self.metadata.lemma_size();
    }

    fn blob_layout() -> (r: BlobLayout) {
        P::blob_layout().extend(M::blob_layout())
    }

    fn encode_blob<W: WriteBlob>(&self, dst: W) -> (r: Result<W, W::Error>) {
        proof {
            self.raw.lemma_size();
            self.metadata.lemma_size();
        }
        let dst1 = crate::marshal::write(dst, &self.raw)?;
        let dst2 = crate::marshal::write(dst1, &self.metadata)?;
        assert(dst.written() + self.raw.bytes() + self.metadata.bytes() =~= dst.written() + (
        self.raw.bytes() + self.metadata.bytes()));
        Ok(dst2)
    }
}

impl<P: Load, M: Load> Load for FatPtr<P, M> {
    type Error = ValidateError<P::Error, M::Error>;

    /// Both parts are valid.
    open spec fn valid(blob: Seq<u8>) -> bool {
        &&& P::valid(blob.subrange(0, P::layout().size as int))
        &&& M::valid(blob.subrange(P::layout().size as int, blob.len() as int))
    }

    open spec fn decoded(blob: Seq<u8>) -> Self {
        FatPtr {
            raw: P::decoded(blob.subrange(0, P::layout().size as int)),
            metadata: M::decoded(blob.subrange(P::layout().size as int, blob.len() as int)),
        }
    }

    proof fn lemma_round_trip(&self) {
        self.raw.lemma_size();
        self.metadata.lemma_size();
        self.raw.lemma_round_trip();
        self.metadata.lemma_round_trip();
        let blob = self.bytes();
        assert(blob.subrange(0, P::layout().size as int) =~= self.raw.bytes());
        assert(blob.subrange(P::layout().size as int, blob.len() as int)
            =~= self.metadata.bytes());
    }

    /// The pointer is checked first: where both parts are bad, the error
    /// is the pointer's.
    fn validate_blob(blob: &[u8]) -> (r: Result<(), Self::Error>)
        ensures
            r matches Err(ValidateError::Ptr(_)) ==> !P::valid(
                blob@.subrange(0, P::layout().size as int),
            ),
            r matches Err(ValidateError::Metadata(_)) ==> P::valid(
                blob@.subrange(0, P::layout().size as int),
            ),
    {
        let len: usize = blob.len();
        let split: usize = P::blob_layout().size();
        let head = slice_subrange(blob, 0, split);
        let tail = slice_subrange(blob, split, len);
        match P::validate_blob(head) {
            Err(e) => Err(ValidateError::Ptr(e)),
            Ok(_) => match M::validate_blob(tail) {
                Err(e) => Err(ValidateError::Metadata(e)),
                Ok(_) => Ok(()),
            },
        }
    }

    fn decode_blob(blob: &[u8]) -> (r: Self) {
        let len: usize = blob.len();
        let split: usize = P::blob_layout().size();
        let head = slice_subrange(blob, 0, split);
        let tail = slice_subrange(blob, split, len);
        FatPtr { raw: P::decode_blob(head), metadata: M::decode_blob(tail) }
    }
}

/// A `FatPtr` whose target is known to be valid. The wrapper owns that
/// claim, not the memory.
pub struct ValidPtr<P, M> {
    ptr: FatPtr<P, M>,
}

impl<P, M> View for ValidPtr<P, M> {
    type V = FatPtr<P, M>;

    /// The wrapped pointer.
    closed spec fn view(&self) -> FatPtr<P, M> {
        self.ptr
    }
}

impl<P, M> ValidPtr<P, M> {
    /// Wraps a `FatPtr`; the caller vouches for its target.
    pub fn new_unchecked(ptr: FatPtr<P, M>) -> (r: Self)
        ensures
            r@ == ptr,
    {
        Self { ptr }
    }

    /// Read access to the wrapped pointer.
    pub fn deref(&self) -> (r: &FatPtr<P, M>)
        ensures
            *r == self@,
    {
        &self.ptr
    }

    /// Mutable access to the raw pointer; the caller vouches for whatever it
    /// is changed to. The metadata stays.
    pub fn raw_mut(&mut self) -> (r: &mut P)
        ensures
            *r == old(self)@.raw,
            final(self)@ == (FatPtr { raw: *final(r), metadata: old(self)@.metadata }),
    {
        &mut self.ptr.raw
    }

    /// Checks that a blob is the encoding of a fat pointer in persisted
    /// form. Where the pointer leads is not followed here.
    pub fn validate(blob: &[u8]) -> (r: Result<(), ValidateError<P::Error, M::Error>>) where
        P: Load,
        M: Load,

        requires
            blob@.len() == FatPtr::<P, M>::layout().size,
        ensures
            r is Ok <==> FatPtr::<P, M>::valid(blob@),
    {
        FatPtr::<P, M>::validate_blob(blob)
    }

    /// Unwraps the pointer.
    pub fn into_inner(self) -> (r: FatPtr<P, M>)
        ensures
            r == self@,
    {
        self.ptr
    }
}

impl<M: Copy> ValidPtr<OffsetMut, M> {
    /// What is left to validate behind the pointer: nothing where it is
    /// dirty, as a live value is valid by construction; else the persisted
    /// pointer is pending.
    pub fn validate_children<C>(&self) -> (r: ValidateState<Offset, M, C>)
        ensures
            match r {
                ValidateState::FatPtr(ptr) => self@.raw.is_clean() && ptr.raw.word()
                    == self@.raw.word() && ptr.metadata == self@.metadata,
                ValidateState::Value(_) => false,
                ValidateState::Done => self@.raw.is_dirty(),
            },
    {
        match self.ptr.raw.kind() {
            Kind::Offset(offset) => ValidateState::FatPtr(
                FatPtr { raw: offset, metadata: self.ptr.metadata },
            ),
            Kind::Ptr(_) => ValidateState::Done,
        }
    }
}

/// Resolves persisted pointers for a validation under way.
///
/// For a pointer it answers that nothing further needs checking, or with
/// the pending validation of the value that the pointer refers to, or that
/// the pointer cannot be followed.
pub trait PtrValidator<P, M, C> {
    /// Why a pointer could not be followed.
    type Error;

    /// Whether `answer` is one that this validator may give for `ptr`.
    spec fn answers(&self, ptr: &FatPtr<P, M>, answer: Result<Option<C>, Self::Error>) -> bool;

    fn validate_ptr(&self, ptr: &FatPtr<P, M>) -> (r: Result<Option<C>, Self::Error>)
        ensures
            self.answers(ptr, r),
    ;
}

/// The pending validation of the pointers within a value, driven forward by
/// polling with a validator `V` whose failures are of type `E`.
pub trait ValidateChildren<V, E>: Sized {
    /// Nothing is left to validate.
    spec fn is_done(&self) -> bool;

    /// Whether one poll with the validator `v` may take this state to
    /// `after` and return `r`.
    spec fn polled(&self, after: &Self, v: &V, r: Result<(), E>) -> bool;

    /// Drives the validation forward. It succeeds only when nothing is left,
    /// and where nothing was left it changes nothing.
    fn poll(&mut self, ptr_validator: &V) -> (r: Result<(), E>)
        ensures
            r is Ok ==> final(self).is_done(),
            old(self).is_done() ==> r is Ok && *final(self) == *old(self),
            old(self).polled(final(self), ptr_validator, r),
    ;
}

impl<V, E> ValidateChildren<V, E> for () {
    /// A value without pointers has nothing to validate.
    open spec fn is_done(&self) -> bool {
        true
    }

    open spec fn polled(&self, after: &(), v: &V, r: Result<(), E>) -> bool {
        r is Ok
    }

    fn poll(&mut self, ptr_validator: &V) -> (r: Result<(), E>) {
        Ok(())
    }
}

/// How far the validation of one pointer has come.
pub enum ValidateState<P, M, C> {
    /// The pointer has not been resolved yet.
    FatPtr(FatPtr<P, M>),
    /// The pointer is resolved; the value behind it is being validated.
    Value(C),
    /// The pointer and all behind it are valid.
    Done,
}

impl<P, M, C> ValidateState<P, M, C> {
    /// The position of the state in the order in which states are passed
    /// through.
    pub open spec fn rank(&self) -> nat {
        match self {
            ValidateState::FatPtr(_) => 0,
            ValidateState::Value(_) => 1,
            ValidateState::Done => 2,
        }
    }

    /// The state that follows `FatPtr` once the validator has answered.
    pub open spec fn resolved(answer: Option<C>) -> Self {
        match answer {
            Some(children) => ValidateState::Value(children),
            None => ValidateState::Done,
        }
    }

    /// Takes the validator's answer for the pending pointer.
    pub fn resolve(answer: Option<C>) -> (r: Self)
        ensures
            r == Self::resolved(answer),
            r.rank() >= 1,
    {
        match answer {
            Some(children) => ValidateState::Value(children),
            None => ValidateState::Done,
        }
    }
}

impl<P, M, C> ValidateState<P, M, C> {
    /// Whether a poll that finds the value behind the pointer in the state
    /// `child` may end in `after` with the result `r`: the value is polled;
    /// on success the state is `Done`, on failure the value stays as the
    /// poll left it.
    pub open spec fn polled_value<V>(child: C, after: &Self, v: &V, r: Result<(), V::Error>) -> bool where
        V: PtrValidator<P, M, C>,
        C: ValidateChildren<V, V::Error>,
     {
        exists|end: C|
            {
                &&& #[trigger] child.polled(&end, v, r)
                &&& r is Ok ==> *after is Done
                &&& r is Err ==> *after == ValidateState::<P, M, C>::Value(end)
            }
    }

    /// Whether a poll that gets `answer` for the pending pointer `ptr` may
    /// end in `after` with the result `r`: on the validator's error the
    /// pointer stays pending and the error is returned; without a value to
    /// validate the state is `Done`; else the value is polled.
    pub open spec fn polled_answer<V>(
        ptr: FatPtr<P, M>,
        answer: Result<Option<C>, V::Error>,
        after: &Self,
        v: &V,
        r: Result<(), V::Error>,
    ) -> bool where V: PtrValidator<P, M, C>, C: ValidateChildren<V, V::Error> {
        match answer {
            Err(e) => r == Err::<(), V::Error>(e) && *after == ValidateState::<P, M, C>::FatPtr(ptr),
            Ok(None) => r is Ok && *after is Done,
            Ok(Some(child)) => Self::polled_value(child, after, v, r),
        }
    }
}

impl<P, M, C, V> ValidateChildren<V, V::Error> for ValidateState<P, M, C> where
    V: PtrValidator<P, M, C>,
    C: ValidateChildren<V, V::Error>,
 {
    open spec fn is_done(&self) -> bool {
        self is Done
    }

    /// A pending pointer is resolved by one answer of the validator, and a
    /// value is polled once.
    open spec fn polled(&self, after: &Self, v: &V, r: Result<(), V::Error>) -> bool {
        match *self {
            ValidateState::Done => r is Ok && *after is Done,
            ValidateState::FatPtr(ptr) => exists|answer: Result<Option<C>, V::Error>|
                #[trigger] v.answers(&ptr, answer) && Self::polled_answer(ptr, answer, after, v, r),
            ValidateState::Value(child) => Self::polled_value(child, after, v, r),
        }
    }

    /// Polls until the state is `Done` or the validator fails. The state
    /// only ever moves forward, from `FatPtr` over `Value` to `Done`; on
    /// failure it stays where the failure occurred.
    fn poll(&mut self, ptr_validator: &V) -> (r: Result<(), V::Error>)
        ensures
            r is Ok <==> *final(self) is Done,
            final(self).rank() >= old(self).rank(),
            *final(self) is FatPtr ==> *final(self) == *old(self),
    {
        loop
            invariant
                self.rank() >= old(self).rank(),
                *self is FatPtr ==> *self == *old(self),
                *old(self) is Done ==> *self == *old(self),
                *self == *old(self) || (*old(self) is FatPtr && exists|answer: Option<C>|
                    {
                        &&& #[trigger] ptr_validator.answers(
                            &old(self)->FatPtr_0,
                            Ok::<Option<C>, V::Error>(answer),
                        )
                        &&& *self == Self::resolved(answer)
                    }) || (*self is Done && old(self).polled(self, ptr_validator, Ok::<(), V::Error>(())
                )),
            decreases 2 - self.rank(),
        {
            match self {
                ValidateState::Done => {
                    return Ok(());
                },
                ValidateState::FatPtr(fatptr) => {
                    let answer = ptr_validator.validate_ptr(fatptr)?;
                    *self = Self::resolve(answer);
                },
                ValidateState::Value(value) => {
                    value.poll(ptr_validator)?;
                    *self = ValidateState::Done;
                },
            }
        }
    }
}

} // verus!
