//! What can be done with a pointer whatever its kind: an `Offset` is always
//! clean, an `OffsetMut` is clean or dirty.
//!
//! The operations marked unchecked take the caller's word for the type of
//! the pointee: a dirty pointer must be the address of a live value of that
//! type.

use crate::heap::Heap;
use crate::offset::{Kind, Offset, OffsetMut};
use crate::validptr::FatPtr;
use vstd::prelude::*;

verus! {

impl Offset {
    /// Releases what the pointer owns: nothing, as a position in a pile is
    /// not memory of its own.
    pub fn dealloc<T, H: Heap<T>>(&self, heap: &mut H)
        ensures
            *final(heap) == *old(heap),
    {
    }

    /// A pointer to a copy of the target: the persisted bytes are shared,
    /// so it is the same offset.
    pub fn clone_unchecked_with<M, F>(&self, metadata: M, f: F) -> (r: FatPtr<Offset, M>)
        ensures
            r.raw == *self,
            r.metadata == metadata,
    {
        FatPtr { raw: *self, metadata }
    }

    /// There is no live value behind an offset: fails with the offset.
    pub fn try_get_dirty_unchecked<T>(&self) -> (r: Result<&T, Offset>)
        ensures
            r == Err::<&T, Offset>(*self),
    {
        Err(self.cast())
    }

    /// There is no live value behind an offset: fails with the offset.
    pub fn try_take_dirty_unchecked<T>(self) -> (r: Result<T, Offset>)
        ensures
            r == Err::<T, Offset>(self),
    {
        Err(self.cast())
    }
}

impl OffsetMut {
    /// The address that a dirty pointer holds.
    pub open spec fn addr(self) -> usize {
        self.word() as usize
    }

    /// Whether the pointer can be followed in `heap`: a dirty pointer must
    /// be the address of a live value.
    pub open spec fn is_live_in<T, H: Heap<T>>(self, heap: &H) -> bool {
        heap.wf() && (self.is_dirty() ==> heap.live().dom().contains(self.addr()))
    }

    /// Moves `src` to the heap and returns a dirty pointer to it.
    pub fn allocate<T, H: Heap<T>>(heap: &mut H, src: T) -> (r: Self)
        requires
            old(heap).wf(),
            old(heap).can_alloc(),
        ensures
            r.is_dirty(),
            !r.is_clean(),
            final(heap).wf(),
            !old(heap).live().dom().contains(r.addr()),
            final(heap).live() == old(heap).live().insert(r.addr(), src),
    {
        let addr: usize = heap.allocate(src);
        OffsetMut::from_ptr(addr)
    }

    /// Moves `src` to the heap if it has room, and returns a dirty pointer
    /// to it; else hands `src` back and leaves the heap as it was.
    pub fn try_allocate<T, H: Heap<T>>(heap: &mut H, src: T) -> (r: Result<Self, T>)
        requires
            old(heap).wf(),
        ensures
            final(heap).wf(),
            match r {
                Ok(ptr) => {
                    &&& old(heap).can_alloc()
                    &&& ptr.is_dirty()
                    &&& !old(heap).live().dom().contains(ptr.addr())
                    &&& final(heap).live() == old(heap).live().insert(ptr.addr(), src)
                },
                Err(back) => !old(heap).can_alloc() && back == src && *final(heap) == *old(heap),
            },
    {
        if heap.has_room() {
            Ok(OffsetMut::allocate(heap, src))
        } else {
            Err(src)
        }
    }

    /// Releases what the pointer owns: the place of the value where the
    /// pointer is dirty, nothing where it is clean.
    pub fn dealloc<T, H: Heap<T>>(&self, heap: &mut H)
        requires
            self.is_live_in(old(heap)),
        ensures
            final(heap).wf(),
            self.is_clean() ==> final(heap).live() == old(heap).live(),
            self.is_dirty() ==> final(heap).live() == old(heap).live().remove(self.addr()),
    {
        match self.kind() {
            Kind::Offset(_) => {},
            Kind::Ptr(addr) => heap.dealloc(addr),
        }
    }

    /// Borrows the value if the pointer is dirty, else fails with the
    /// offset at which the value is persisted.
    pub fn try_get_dirty_unchecked<'a, T, H: Heap<T>>(&self, heap: &'a H) -> (r: Result<
        &'a T,
        Offset,
    >)
        requires
            self.is_live_in(heap),
        ensures
            match r {
                Ok(value) => self.is_dirty() && *value == heap.live()[self.addr()],
                Err(offset) => self.is_clean() && offset.word() == self.word(),
            },
    {
        match self.kind() {
            Kind::Ptr(addr) => Ok(heap.get(addr)),
            Kind::Offset(offset) => Err(offset.cast()),
        }
    }

    /// Takes the value out of the heap if the pointer is dirty, else fails
    /// with the offset at which the value is persisted.
    pub fn try_take_dirty_unchecked<T, H: Heap<T>>(self, heap: &mut H) -> (r: Result<T, Offset>)
        requires
            self.is_live_in(old(heap)),
        ensures
            final(heap).wf(),
            match r {
                Ok(value) => self.is_dirty() && value == old(heap).live()[self.addr()]
                    && final(heap).live() == old(heap).live().remove(self.addr()),
                Err(offset) => self.is_clean() && offset.word() == self.word()
                    && final(heap).live() == old(heap).live(),
            },
    {
        match self.kind() {
            Kind::Offset(offset) => Err(offset.cast()),
            Kind::Ptr(addr) => Ok(heap.take(addr)),
        }
    }

    /// A pointer to a copy of the target. Where the pointer is clean the
    /// persisted bytes are shared: the copy is the same offset. Where it is
    /// dirty, `f` makes a duplicate of the value, which is moved to the heap.
    pub fn clone_unchecked_with<T, M, H: Heap<T>, F: FnOnce(&T) -> T>(
        &self,
        heap: &mut H,
        metadata: M,
        f: F,
    ) -> (r: FatPtr<OffsetMut, M>)
        requires
            self.is_live_in(old(heap)),
            self.is_dirty() ==> old(heap).can_alloc() && f.requires(
                (&old(heap).live()[self.addr()],),
            ),
        ensures
            r.metadata == metadata,
            final(heap).wf(),
            self.is_clean() ==> r.raw == *self && final(heap).live() == old(heap).live(),
            self.is_dirty() ==> {
                &&& r.raw.is_dirty()
                &&& !old(heap).live().dom().contains(r.raw.addr())
                &&& final(heap).live().dom() == old(heap).live().dom().insert(r.raw.addr())
                &&& f.ensures((&old(heap).live()[self.addr()],), final(heap).live()[r.raw.addr()])
                &&& forall|a: usize|
                    old(heap).live().dom().contains(a) ==> #[trigger] final(heap).live()[a]
                        == old(heap).live()[a]
            },
    {
        match self.kind() {
            Kind::Offset(_) => FatPtr { raw: *self, metadata },
            Kind::Ptr(addr) => {
                let value = heap.get(addr);
                let copy = f(value);
                let raw = OffsetMut::allocate(heap, copy);
                FatPtr { raw, metadata }
            },
        }
    }
}

} // verus!
