//! The dumper: it persists values into one growing buffer and assigns each
//! the offset at which its blob begins.

use crate::offset::{max_offset, offset_to_word, Kind, Offset, OffsetMut};
use crate::save::Save;
use vstd::pervasive::unreached;
use vstd::prelude::*;

verus! {

/// A dumper that appends blobs to a buffer whose first byte lies at
/// `initial_offset` within the pile.
///
/// Values are not compared: what is saved twice is written twice, each time
/// at an offset of its own.
#[derive(Debug)]
pub struct ShallowDumper {
    written: Vec<u8>,
    initial_offset: usize,
}

impl Default for ShallowDumper {
    fn default() -> (r: Self)
        ensures
            r.written() == Seq::<u8>::empty(),
            r.initial_offset() == 0,
    {
        ShallowDumper::new(0)
    }
}

impl ShallowDumper {
    /// The bytes persisted so far.
    pub closed spec fn written(&self) -> Seq<u8> {
        self.written@
    }

    /// The position in the pile of the first byte of the buffer.
    pub closed spec fn initial_offset(&self) -> nat {
        self.initial_offset as nat
    }

    /// The offset that the next value will be persisted at: the current
    /// write position, counted from the initial offset.
    pub open spec fn next_offset(&self) -> nat {
        self.initial_offset() + self.written().len()
    }

    /// Whether the next value can be given an offset, and a blob of `size`
    /// bytes still fits the buffer.
    pub open spec fn can_save(&self, size: nat) -> bool {
        &&& self.next_offset() <= max_offset()
        &&& self.next_offset() <= usize::MAX
        &&& self.written().len() + size <= usize::MAX
    }

    /// Whether `size` more bytes can be saved, in one blob or in several,
    /// and a blob after them still be given an offset.
    pub open spec fn can_save_all(&self, size: nat) -> bool {
        &&& self.next_offset() + size <= max_offset()
        &&& self.next_offset() + size <= usize::MAX
    }

    /// A dumper with nothing written yet.
    pub fn new(initial_offset: usize) -> (r: Self)
        ensures
            r.written() == Seq::<u8>::empty(),
            r.initial_offset() == initial_offset,
    {
        Self { written: Vec::new(), initial_offset }
    }

    /// Tells whether a value whose blob has `size` bytes can be saved next.
    pub fn has_room_for(&self, size: usize) -> (r: bool)
        ensures
            r == self.can_save(size as nat),
    {
        let len: usize = self.written.len();
        if self.initial_offset > usize::MAX - len || size > usize::MAX - len {
            false
        } else {
            let position: u64 = (self.initial_offset + len) as u64;
            position <= Offset::MAX
        }
    }

    /// Tells whether `size` more bytes can be saved, in one blob or in
    /// several, and a blob after them still be given an offset.
    pub fn has_room_for_all(&self, size: usize) -> (r: bool)
        ensures
            r == self.can_save_all(size as nat),
    {
        let len: usize = self.written.len();
        if self.initial_offset > usize::MAX - len || size > usize::MAX - len
            || self.initial_offset > usize::MAX - len - size {
            false
        } else {
            let end: u64 = (self.initial_offset + len + size) as u64;
            end <= Offset::MAX
        }
    }

    /// Tells whether the target of `ptr` is persisted already: a clean
    /// pointer gives its offset, a dirty one the address of the value that
    /// has yet to be saved. Nothing is written.
    pub fn try_save_ptr(&self, ptr: &OffsetMut) -> (r: Result<Offset, usize>)
        ensures
            match r {
                Ok(offset) => ptr.is_clean() && offset.word() == ptr.word(),
                Err(addr) => ptr.is_dirty() && addr == ptr.word(),
            },
    {
        match ptr.kind() {
            Kind::Offset(offset) => Ok(offset.cast()),
            Kind::Ptr(addr) => Err(addr),
        }
    }

    /// Persists the blob of `value`, whose children are saved, at the end
    /// of the buffer, and returns the dumper together with the offset at
    /// which the blob begins.
    pub fn save_ptr<T: Save>(self, value: &T, state: &T::State) -> (r: (Self, Offset))
        requires
            value.saved(state),
            self.can_save(T::blob_size()),
        ensures
            r.0.written() == self.written() + value.blob(state),
            r.0.initial_offset() == self.initial_offset(),
            r.1@ == self.next_offset(),
            r.1.word() == offset_to_word(self.next_offset()),
    {
        let position: usize = self.initial_offset + self.written.len();
        let initial_offset: usize = self.initial_offset;
        match Offset::new(position) {
            Some(offset) => {
                let written = value.save_blob(state, self.written);
                (Self { written, initial_offset }, offset)
            },
            None => unreached(),
        }
    }

    /// Gives up the buffer.
    pub fn into_written(self) -> (r: Vec<u8>)
        ensures
            r@ == self.written(),
    {
        self.written
    }

    /// Persists `value` with all that it refers to: first its children,
    /// then its own blob. Returns the buffer with the offset that the value
    /// was given.
    pub fn save<T: Save>(self, value: &T) -> (r: (Vec<u8>, Offset))
        requires
            value.can_reach(),
            self.can_save_all(value.children_bytes(self.next_offset()).len()),
            self.written().len() + value.children_bytes(self.next_offset()).len() + T::blob_size()
                <= usize::MAX,
        ensures
            r.0@ == self.written() + value.children_bytes(self.next_offset()) + value.blob(
                &value.children_state(self.next_offset()),
            ),
            r.1@ == self.next_offset() + value.children_bytes(self.next_offset()).len(),
    {
        proof {
            value.lemma_saved(self.next_offset(), &value.children_state(self.next_offset()));
        }
        let mut state = value.init_save_state();
        let this = value.save_poll(&mut state, self);
        let (this, offset) = this.save_ptr(value, &state);
        (this.written, offset)
    }
}

} // verus!
