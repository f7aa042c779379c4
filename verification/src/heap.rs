//! Where live values are kept: the allocator that dirty pointers refer to.

use vstd::prelude::*;

verus! {

/// An allocator that hands out even, non-null addresses.
pub trait Heap<T>: Sized {
    /// The heap is in a consistent state.
    spec fn wf(&self) -> bool;

    /// The values that are live, by address.
    spec fn live(&self) -> Map<usize, T>;

    /// Whether one more value can be allocated.
    spec fn can_alloc(&self) -> bool;

    /// Tells whether one more value can be allocated.
    fn has_room(&self) -> (r: bool)
        requires
            self.wf(),
        ensures
            r == self.can_alloc(),
    ;

    /// Moves `value` to the heap and returns its address, which was not in
    /// use; its low bit is clear.
    fn allocate(&mut self, value: T) -> (addr: usize)
        requires
            old(self).wf(),
            old(self).can_alloc(),
        ensures
            final(self).wf(),
            addr != 0,
            addr % 2 == 0,
            !old(self).live().dom().contains(addr),
            final(self).live() == old(self).live().insert(addr, value),
    ;

    /// The live value at `addr`.
    fn get(&self, addr: usize) -> (r: &T)
        requires
            self.wf(),
            self.live().dom().contains(addr),
        ensures
            *r == self.live()[addr],
    ;

    /// Moves the live value at `addr` out of the heap and frees its place.
    fn take(&mut self, addr: usize) -> (r: T)
        requires
            old(self).wf(),
            old(self).live().dom().contains(addr),
        ensures
            final(self).wf(),
            r == old(self).live()[addr],
            final(self).live() == old(self).live().remove(addr),
    ;

    /// Frees the place of the live value at `addr`.
    fn dealloc(&mut self, addr: usize)
        requires
            old(self).wf(),
            old(self).live().dom().contains(addr),
        ensures
            final(self).wf(),
            final(self).live() == old(self).live().remove(addr),
    ;
}

/// A heap that keeps its values in numbered slots; slot `i` has the address
/// `2 * (i + 1)`. Freed slots are not used again.
pub struct Arena<T> {
    slots: Vec<Option<T>>,
}

impl<T> Arena<T> {
    /// The slots, in order; a freed slot holds nothing.
    pub closed spec fn slots(&self) -> Seq<Option<T>> {
        self.slots@
    }

    /// Whether `addr` is the address of a slot.
    pub open spec fn is_slot(&self, addr: usize) -> bool {
        addr % 2 == 0 && 2 <= addr && addr / 2 - 1 < self.slots().len()
    }

    /// The slot with the address `addr`.
    pub open spec fn slot(&self, addr: usize) -> Option<T> {
        self.slots()[addr / 2 - 1]
    }

    /// An empty heap.
    pub fn new() -> (r: Self)
        ensures
            r.wf(),
            r.slots().len() == 0,
            r.live() == Map::<usize, T>::empty(),
            r.can_alloc(),
    {
        let r = Self { slots: Vec::new() };
        assert(r.live() =~= Map::<usize, T>::empty());
        r
    }
}

impl<T> Heap<T> for Arena<T> {
    open spec fn wf(&self) -> bool {
        2 * self.slots().len() + 2 <= usize::MAX
    }

    open spec fn live(&self) -> Map<usize, T> {
        Map::new(
            |addr: usize| self.is_slot(addr) && self.slot(addr) is Some,
            |addr: usize| self.slot(addr)->Some_0,
        )
    }

    open spec fn can_alloc(&self) -> bool {
        2 * self.slots().len() + 4 <= usize::MAX
    }

    fn has_room(&self) -> (r: bool) {
        self.slots.len() <= (usize::MAX - 4) / 2
    }

    fn allocate(&mut self, value: T) -> (addr: usize)
        ensures
            addr == 2 * (old(self).slots().len() + 1),
            final(self).slots() == old(self).slots().push(Some(value)),
    {
        self.slots.push(Some(value));
        let addr: usize = 2 * self.slots.len();
        assert(self.live() =~= old(self).live().insert(addr, value));
        addr
    }

    fn get(&self, addr: usize) -> (r: &T) {
        let index: usize = addr / 2 - 1;
        self.slots[index].as_ref().unwrap()
    }

    fn take(&mut self, addr: usize) -> (r: T)
        ensures
            final(self).slots() == old(self).slots().update(addr / 2 - 1, None),
    {
        let index: usize = addr / 2 - 1;
        self.slots.push(None);
        let taken = self.slots.swap_remove(index);
        assert(self.slots@ =~= old(self).slots@.update(index as int, None));
        assert(self.live() =~= old(self).live().remove(addr));
        taken.unwrap()
    }

    fn dealloc(&mut self, addr: usize)
        ensures
            final(self).slots() == old(self).slots().update(addr / 2 - 1, None),
    {
        let index: usize = addr / 2 - 1;
        self.slots.set(index, None);
        assert(self.live() =~= old(self).live().remove(addr));
    }
}

} // verus!
