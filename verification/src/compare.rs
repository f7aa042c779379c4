//! Offsets compared with plain byte positions, and turned into them.

use crate::offset::{Offset, OffsetMut};
use vstd::prelude::*;
use vstd::std_specs::cmp::PartialEqSpecImpl;
use vstd::std_specs::convert::FromSpecImpl;

verus! {

impl PartialEq<usize> for Offset {
    fn eq(&self, other: &usize) -> (r: bool) {
        self.get() == *other
    }
}

impl PartialEqSpecImpl<usize> for Offset {
    open spec fn obeys_eq_spec() -> bool {
        true
    }

    /// An offset equals the byte position that it stands for.
    open spec fn eq_spec(&self, other: &usize) -> bool {
        self@ == *other
    }
}

impl PartialEq<Offset> for usize {
    fn eq(&self, other: &Offset) -> (r: bool) {
        *self == other.get()
    }
}

impl PartialEqSpecImpl<Offset> for usize {
    open spec fn obeys_eq_spec() -> bool {
        true
    }

    open spec fn eq_spec(&self, other: &Offset) -> bool {
        *self == other@
    }
}

impl From<Offset> for usize {
    fn from(offset: Offset) -> (r: usize) {
        offset.get()
    }
}

impl FromSpecImpl<Offset> for usize {
    open spec fn obeys_from_spec() -> bool {
        true
    }

    /// The byte position that the offset stands for.
    open spec fn from_spec(offset: Offset) -> usize {
        offset.position()
    }
}

impl From<Offset> for OffsetMut {
    fn from(inner: Offset) -> (r: OffsetMut) {
        OffsetMut::from_offset(inner)
    }
}

impl FromSpecImpl<Offset> for OffsetMut {
    open spec fn obeys_from_spec() -> bool {
        true
    }

    /// The clean pointer to the offset.
    open spec fn from_spec(inner: Offset) -> OffsetMut {
        inner.as_mut()
    }
}

} // verus!
