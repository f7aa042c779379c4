//! Saving in two phases: first the children of a value are persisted,
//! which gives them their offsets; then the value's own blob is written,
//! with those offsets in place of the pointers.

use crate::dumper::ShallowDumper;
use crate::heap::Heap;
use crate::marshal::Primitive;
use crate::offset::{
    is_offset_word, is_ptr_word, lemma_offset_round_trip, max_offset, offset_to_word, Offset,
    OffsetMut,
};
use crate::writer::{VecWriter, WriteBlob};
use vstd::pervasive::unreached;
use vstd::prelude::*;

verus! {

/// A value that a dumper can persist.
pub trait Save: Sized {
    /// What is kept between the two phases: what the children were saved
    /// as.
    type State;

    /// The value and all that it refers to can be reached.
    spec fn can_reach(&self) -> bool;

    /// The size of the value's own blob.
    spec fn blob_size() -> nat;

    /// The state before anything is saved.
    spec fn initial_state(&self) -> Self::State;

    /// The bytes by which saving the children extends the buffer of a
    /// dumper whose next offset is `start`.
    spec fn children_bytes(&self, start: nat) -> Seq<u8>;

    /// The state once the children are saved by a dumper whose next offset
    /// was `start`.
    spec fn children_state(&self, start: nat) -> Self::State;

    /// Whether `state` is one in which the children are saved.
    spec fn saved(&self, state: &Self::State) -> bool;

    /// The value's own blob, given what its children were saved as.
    spec fn blob(&self, state: &Self::State) -> Seq<u8>;

    /// Once the children are saved the state says so, and a blob written
    /// then has the size that the type declares.
    proof fn lemma_saved(&self, start: nat, state: &Self::State)
        ensures
            self.saved(&self.children_state(start)),
            self.saved(state) ==> self.blob(state).len() == Self::blob_size(),
    ;

    /// The state to begin with.
    fn init_save_state(&self) -> (r: Self::State)
        ensures
            r == self.initial_state(),
    ;

    /// The first phase: persists the children, in order, each child's own
    /// children before the child.
    fn save_poll(&self, state: &mut Self::State, dumper: ShallowDumper) -> (r: ShallowDumper)
        requires
            self.can_reach(),
            dumper.can_save_all(self.children_bytes(dumper.next_offset()).len()),
        ensures
            r.initial_offset() == dumper.initial_offset(),
            r.written() == dumper.written() + self.children_bytes(dumper.next_offset()),
            *final(state) == self.children_state(dumper.next_offset()),
    ;

    /// The second phase: appends the value's own blob to `dst`.
    fn save_blob(&self, state: &Self::State, dst: Vec<u8>) -> (r: Vec<u8>)
        requires
            self.saved(state),
            dst@.len() + Self::blob_size() <= usize::MAX,
        ensures
            r@ == dst@ + self.blob(state),
    ;
}

impl<T: Primitive> Save for T {
    /// A value without pointers has no children to keep track of.
    type State = ();

    open spec fn can_reach(&self) -> bool {
        true
    }

    open spec fn blob_size() -> nat {
        T::layout().size
    }

    open spec fn initial_state(&self) -> () {
        ()
    }

    open spec fn children_bytes(&self, start: nat) -> Seq<u8> {
        Seq::empty()
    }

    open spec fn children_state(&self, start: nat) -> () {
        ()
    }

    open spec fn saved(&self, state: &()) -> bool {
        true
    }

    open spec fn blob(&self, state: &()) -> Seq<u8> {
        self.bytes()
    }

    proof fn lemma_saved(&self, start: nat, state: &()) {
        self.lemma_size();
    }

    fn init_save_state(&self) -> (r: ()) {
        ()
    }

    fn save_poll(&self, state: &mut (), dumper: ShallowDumper) -> (r: ShallowDumper) {
        assert(dumper.written() + Seq::<u8>::empty() =~= dumper.written());
        dumper
    }

    fn save_blob(&self, state: &(), dst: Vec<u8>) -> (r: Vec<u8>) {
        let sink = VecWriter::new(dst);
        match crate::marshal::write(sink, self) {
            Ok(sink) => match sink.finish() {
                Ok(written) => written,
                Err(_) => unreached(),
            },
            Err(_) => unreached(),
        }
    }
}

/// A pointer together with the heap in which its target lives while it is
/// dirty.
pub struct Own<'a, T, H> {
    pub ptr: OffsetMut,
    pub heap: &'a H,
    pub marker: core::marker::PhantomData<T>,
}

impl<'a, T: Save, H: Heap<T>> Own<'a, T, H> {
    /// Puts a pointer together with the heap that it may point into.
    pub fn new(ptr: OffsetMut, heap: &'a H) -> (r: Self)
        ensures
            r.ptr == ptr,
            r.heap == heap,
    {
        Own { ptr, heap, marker: core::marker::PhantomData }
    }

    /// The live value behind a dirty pointer.
    pub open spec fn target(&self) -> T {
        self.heap.live()[self.ptr.addr()]
    }

    /// The offset that the target is persisted at, when the dumper's next
    /// offset is `start`: that of a clean pointer; else the position after
    /// the target's own children.
    pub open spec fn target_offset(&self, start: nat) -> Offset {
        if self.ptr.is_dirty() {
            Offset::of_word(offset_to_word(start + self.target().children_bytes(start).len()))
        } else {
            Offset::of_word(self.ptr.word())
        }
    }
}

/// What a dumper leaves of a dirty pointer is clean: the state after the
/// first phase holds an offset, the one at which the target was persisted,
/// and the word of an offset is never that of a live address.
pub proof fn lemma_dumped_is_clean<'a, T: Save, H: Heap<T>>(own: Own<'a, T, H>, start: nat)
    requires
        own.ptr.is_dirty(),
        start + own.target().children_bytes(start).len() <= max_offset(),
    ensures
        own.children_state(start) == Some(own.target_offset(start)),
        is_offset_word(own.target_offset(start).word()),
        !is_ptr_word(own.target_offset(start).word()),
        own.target_offset(start)@ == start + own.target().children_bytes(start).len(),
{
    let at = start + own.target().children_bytes(start).len();
    Offset::lemma_word_of(offset_to_word(at));
    lemma_offset_round_trip(at);
}

impl<'a, T: Save, H: Heap<T>> Save for Own<'a, T, H> {
    /// The offset of the target, once it is known.
    type State = Option<Offset>;

    open spec fn can_reach(&self) -> bool {
        &&& self.ptr.is_live_in(self.heap)
        &&& self.ptr.is_dirty() ==> self.target().can_reach()
    }

    /// A pointer is persisted as an offset.
    open spec fn blob_size() -> nat {
        8
    }

    open spec fn initial_state(&self) -> Option<Offset> {
        None
    }

    /// A dirty pointer's target is persisted after the target's own
    /// children; a clean pointer's target is persisted already.
    open spec fn children_bytes(&self, start: nat) -> Seq<u8> {
        if self.ptr.is_dirty() {
            self.target().children_bytes(start) + self.target().blob(
                &self.target().children_state(start),
            )
        } else {
            Seq::empty()
        }
    }

    open spec fn children_state(&self, start: nat) -> Option<Offset> {
        Some(self.target_offset(start))
    }

    open spec fn saved(&self, state: &Option<Offset>) -> bool {
        state is Some
    }

    /// The word of the target's offset, little-endian.
    open spec fn blob(&self, state: &Option<Offset>) -> Seq<u8> {
        state->Some_0.bytes()
    }

    proof fn lemma_saved(&self, start: nat, state: &Option<Offset>) {
        if state is Some {
            state->Some_0.lemma_size();
        }
    }

    fn init_save_state(&self) -> (r: Option<Offset>) {
        None
    }

    fn save_poll(&self, state: &mut Option<Offset>, dumper: ShallowDumper) -> (r: ShallowDumper) {
        match dumper.try_save_ptr(&self.ptr) {
            Ok(offset) => {
                proof {
                    offset.lemma_of_word();
                }
                assert(dumper.written() + Seq::<u8>::empty() =~= dumper.written());
                *state = Some(offset);
                dumper
            },
            Err(addr) => {
                let value = self.heap.get(addr);
                let ghost start = dumper.next_offset();
                proof {
                    value.lemma_saved(start, &value.children_state(start));
                }
                let mut value_state = value.init_save_state();
                let dumper1 = value.save_poll(&mut value_state, dumper);
                let (dumper2, offset) = dumper1.save_ptr(value, &value_state);
                proof {
                    offset.lemma_of_word();
                    assert(dumper2.written() =~= dumper.written() + self.children_bytes(start));
                }
                *state = Some(offset);
                dumper2
            },
        }
    }

    fn save_blob(&self, state: &Option<Offset>, dst: Vec<u8>) -> (r: Vec<u8>) {
        match state {
            Some(offset) => offset.save_blob(&(), dst),
            None => unreached(),
        }
    }
}

} // verus!
