//! Conversions between types that stand for the same data: checked ones,
//! which may fail with a typed error, and those that cannot fail.

use crate::offset::{Offset, OffsetMut};
use core::convert::Infallible;
use vstd::pervasive::unreached;
use vstd::prelude::*;

verus! {

/// A checked conversion of a reference.
pub trait TryCastRef<T>: Sized {
    /// Why a value has no counterpart in `T`.
    type Error;

    /// The counterpart of this value in `T`, or why there is none.
    spec fn try_cast_spec(&self) -> Result<T, Self::Error>;

    fn try_cast_ref(&self) -> (r: Result<&T, Self::Error>)
        ensures
            match r {
                Ok(target) => self.try_cast_spec() == Ok::<T, Self::Error>(*target),
                Err(e) => self.try_cast_spec() == Err::<T, Self::Error>(e),
            },
    ;
}

/// A checked conversion of a mutable reference: what is done to the target
/// is done to the source.
pub trait TryCastMut<T>: TryCastRef<T> {
    fn try_cast_mut(&mut self) -> (r: Result<&mut T, Self::Error>)
        ensures
            match r {
                Ok(target) => old(self).try_cast_spec() == Ok::<T, Self::Error>(*target)
                    && final(self).try_cast_spec() == Ok::<T, Self::Error>(*final(target)),
                Err(e) => old(self).try_cast_spec() == Err::<T, Self::Error>(e) && *final(self)
                    == *old(self),
            },
    ;
}

/// A checked conversion of a value. The source is used up: what it owned
/// belongs to the result.
pub trait TryCast<T>: TryCastRef<T> {
    fn try_cast(self) -> (r: Result<T, Self::Error>)
        ensures
            r == self.try_cast_spec(),
    ;
}

/// A checked conversion that succeeds on every value.
pub trait AlwaysCast<T>: TryCastRef<T> {
    proof fn lemma_always_cast(&self)
        ensures
            self.try_cast_spec() is Ok,
    ;
}

/// A conversion of a reference that cannot fail.
pub trait CastRef<T>: Sized {
    /// The counterpart of this value in `T`.
    spec fn cast_spec(&self) -> T;

    fn as_cast_ref(&self) -> (r: &T)
        ensures
            *r == self.cast_spec(),
    ;
}

/// A conversion of a mutable reference that cannot fail.
pub trait CastMut<T>: CastRef<T> {
    fn as_cast_mut(&mut self) -> (r: &mut T)
        ensures
            *r == old(self).cast_spec(),
            final(self).cast_spec() == *final(r),
    ;
}

/// A conversion of a value that cannot fail.
pub trait Cast<T>: CastRef<T> {
    fn cast(self) -> (r: T)
        ensures
            r == self.cast_spec(),
    ;
}

impl<T, U> CastRef<U> for T where T: AlwaysCast<U> {
    open spec fn cast_spec(&self) -> U {
        self.try_cast_spec()->Ok_0
    }

    fn as_cast_ref(&self) -> (r: &U) {
        proof {
            self.lemma_always_cast();
        }
        match self.try_cast_ref() {
            Ok(r) => r,
            Err(_) => unreached(),
        }
    }
}

impl<T, U> CastMut<U> for T where T: TryCastMut<U> + AlwaysCast<U> {
    fn as_cast_mut(&mut self) -> (r: &mut U) {
        proof {
            self.lemma_always_cast();
        }
        match self.try_cast_mut() {
            Ok(r) => r,
            Err(_) => unreached(),
        }
    }
}

impl<T, U> Cast<U> for T where T: TryCast<U> + AlwaysCast<U> {
    fn cast(self) -> (r: U) {
        proof {
            self.lemma_always_cast();
        }
        match self.try_cast() {
            Ok(r) => r,
            Err(_) => unreached(),
        }
    }
}

impl TryCastRef<OffsetMut> for Offset {
    type Error = Infallible;

    /// An offset is a clean pointer.
    open spec fn try_cast_spec(&self) -> Result<OffsetMut, Infallible> {
        Ok(self.as_mut())
    }

    fn try_cast_ref(&self) -> (r: Result<&OffsetMut, Infallible>) {
        Ok(self.as_ref())
    }
}

impl TryCast<OffsetMut> for Offset {
    fn try_cast(self) -> (r: Result<OffsetMut, Infallible>) {
        Ok(OffsetMut::from_offset(self))
    }
}

impl AlwaysCast<OffsetMut> for Offset {
    proof fn lemma_always_cast(&self) {
    }
}

} // verus!
