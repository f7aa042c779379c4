//! Persistent pointers: a 64-bit word that holds either a byte offset into a
//! pile, tagged by a set low bit, or the even address of a live value.

use crate::layout::{BlobLayout, Layout};
use crate::marshal::{Load, Primitive};
use crate::scalar::{le_bytes, le_value, lemma_le_bytes_len, lemma_le_round_trip, pow256, read_le, write_le};
use crate::writer::WriteBlob;
use vstd::prelude::*;

verus! {

/// The largest offset a word has room for: `2^62 - 1`.
pub open spec fn max_offset() -> nat {
    0x3fff_ffff_ffff_ffff
}

/// The largest offset that this machine can address.
pub open spec fn dangling_offset() -> nat {
    if usize::MAX <= max_offset() {
        usize::MAX as nat
    } else {
        max_offset()
    }
}

/// The word that stands for offset `x`: the offset in bits 1 to 62, bit 0 set.
pub open spec fn offset_to_word(x: nat) -> u64
    recommends
        x <= max_offset(),
{
    (2 * x + 1) as u64
}

/// The offset that a word stands for: `word >> 1`.
pub open spec fn word_to_offset(word: u64) -> nat {
    (word / 2) as nat
}

/// Whether a word is the encoding of an offset: bit 0 set, bit 63 clear.
pub open spec fn is_offset_word(word: u64) -> bool {
    word % 2 == 1 && word <= 0x7fff_ffff_ffff_ffff
}

/// Whether a word is a live address: not null, and even, so that it can
/// never be taken for an offset.
pub open spec fn is_ptr_word(word: u64) -> bool {
    word % 2 == 0 && word != 0
}

/// Every offset up to the maximum survives the way into a word and back, and
/// its word is recognised as an offset.
pub proof fn lemma_offset_round_trip(x: nat)
    requires
        x <= max_offset(),
    ensures
        is_offset_word(offset_to_word(x)),
        !is_ptr_word(offset_to_word(x)),
        word_to_offset(offset_to_word(x)) == x,
{
}

/// Every offset word is the word of the offset it stands for.
pub proof fn lemma_word_round_trip(word: u64)
    requires
        is_offset_word(word),
    ensures
        word_to_offset(word) <= max_offset(),
        offset_to_word(word_to_offset(word)) == word,
{
}

/// A byte position within a pile: a pointer that is always clean.
#[derive(Clone, Copy, Debug, PartialEq, Eq, Structural)]
pub struct Offset {
    inner: OffsetMut,
}

impl View for Offset {
    type V = nat;

    /// The byte position.
    open spec fn view(&self) -> nat {
        word_to_offset(self.word())
    }
}

impl Offset {
    /// The largest offset: `2^62 - 1`.
    pub const MAX: u64 = 0x3fff_ffff_ffff_ffff;

    #[verifier::type_invariant]
    spec fn inv(self) -> bool {
        is_offset_word(self.inner.raw) && word_to_offset(self.inner.raw) <= usize::MAX
    }

    /// The 64-bit word that is persisted for this offset.
    pub closed spec fn word(self) -> u64 {
        self.inner.raw
    }

    /// The offset that is persisted as `word`.
    pub closed spec fn of_word(word: u64) -> Offset {
        Offset { inner: OffsetMut { raw: word } }
    }

    /// The byte position as a machine word.
    pub open spec fn position(self) -> usize {
        self@ as usize
    }

    /// The offset as a pointer that could also be dirty.
    pub closed spec fn as_mut(self) -> OffsetMut {
        self.inner
    }

    /// As a pointer the offset is clean, and has the same word.
    pub proof fn lemma_as_mut(self)
        ensures
            self.as_mut().word() == self.word(),
            self.as_mut() == OffsetMut::of_word(self.word()),
    {
    }

    /// An offset is known by its word.
    pub proof fn lemma_of_word(self)
        ensures
            Offset::of_word(self.word()) == self,
    {
    }

    /// The word of the offset persisted as `word` is `word`.
    pub proof fn lemma_word_of(word: u64)
        ensures
            Offset::of_word(word).word() == word,
    {
    }

    /// Makes an offset; there is none above `MAX`.
    pub fn new(offset: usize) -> (r: Option<Self>)
        ensures
            match r {
                Some(o) => offset <= max_offset() && o.word() == offset_to_word(offset as nat)
                    && o@ == offset,
                None => offset > max_offset(),
            },
    {
        let word: u64 = offset as u64;
        if word > 0x3fff_ffff_ffff_ffff {
            None
        } else {
            let raw: u64 = (word << 1) | 1;
            assert(raw == 2 * word + 1) by (bit_vector)
                requires
                    word <= 0x3fff_ffff_ffff_ffff,
                    raw == (word << 1) | 1,
            ;
            Some(Self { inner: OffsetMut { raw } })
        }
    }

    /// Reads an offset back from its persisted word; there is none where
    /// the word is not that of an offset, or the offset is beyond what this
    /// machine can address.
    pub fn from_word(word: u64) -> (r: Option<Self>)
        ensures
            match r {
                Some(o) => is_offset_word(word) && word_to_offset(word) <= usize::MAX && o
                    == Offset::of_word(word) && o.word() == word,
                None => !is_offset_word(word) || word_to_offset(word) > usize::MAX,
            },
    {
        if word % 2 == 1 && word <= 0x7fff_ffff_ffff_ffff && word / 2 <= usize::MAX as u64 {
            Some(Self { inner: OffsetMut { raw: word } })
        } else {
            None
        }
    }

    /// The persisted word.
    pub fn to_word(&self) -> (r: u64)
        ensures
            r == self.word(),
            is_offset_word(r),
    {
        proof {
            use_type_invariant(self);
        }
        self.inner.raw
    }

    /// The same position, free of any tie to a particular pile.
    pub fn cast(&self) -> (r: Offset)
        ensures
            r == *self,
    {
        *self
    }

    /// The byte position.
    pub fn get(&self) -> (r: usize)
        ensures
            r == self@,
            r == self.position(),
            r <= max_offset(),
    {
        proof {
            use_type_invariant(self);
        }
        let raw: u64 = self.inner.raw;
        assert(raw >> 1 == raw / 2) by (bit_vector);
        (raw >> 1) as usize
    }

    /// The largest offset that this machine can address, for use as a
    /// placeholder: `MAX` where a `usize` has 64 bits.
    pub fn dangling() -> (r: Self)
        ensures
            r@ == dangling_offset(),
            r.word() == offset_to_word(dangling_offset()),
    {
        let top: u64 = usize::MAX as u64;
        if top > Self::MAX {
            Self { inner: OffsetMut { raw: 0x7fff_ffff_ffff_ffff } }
        } else {
            Self { inner: OffsetMut { raw: 2 * top + 1 } }
        }
    }

    /// The same position with the longest lifetime.
    pub fn to_static(&self) -> (r: Offset)
        ensures
            r == *self,
    {
        *self
    }

    /// A second handle on the same position.
    pub fn duplicate(&self) -> (r: Self)
        ensures
            r == *self,
    {
        *self
    }

    /// The offset seen as a pointer that could also be dirty; it is clean.
    pub fn as_ref(&self) -> (r: &OffsetMut)
        ensures
            *r == self.as_mut(),
            r.word() == self.word(),
            r.is_clean(),
    {
        proof {
            use_type_invariant(self);
        }
        &self.inner
    }

    /// The offset seen as a pointer that could also be dirty; it is clean.
    pub fn borrow(&self) -> (r: &OffsetMut)
        ensures
            *r == self.as_mut(),
            r.word() == self.word(),
            r.is_clean(),
    {
        self.as_ref()
    }

    /// Whether the offset is at byte position `other`.
    pub fn eq_usize(&self, other: usize) -> (r: bool)
        ensures
            r == (self@ == other),
    {
        self.get() == other
    }
}

/// The bytes of a blob are not those of an offset.
#[derive(Debug)]
pub struct ValidateBlobOffsetError;

impl Primitive for Offset {
    /// Eight bytes that are never all zero.
    open spec fn layout() -> Layout {
        Layout::nonzero(8)
    }

    /// The word is that of an offset that this machine can address.
    open spec fn wf(&self) -> bool {
        is_offset_word(self.word()) && word_to_offset(self.word()) <= usize::MAX
    }

    /// The word, little-endian.
    open spec fn bytes(&self) -> Seq<u8> {
        le_bytes(self.word() as nat, 8)
    }

    proof fn lemma_size(&self) {
        lemma_le_bytes_len(self.word() as nat, 8);
    }

    fn blob_layout() -> (r: BlobLayout) {
        BlobLayout::new_nonzero(8)
    }

    fn encode_blob<W: WriteBlob>(&self, dst: W) -> (r: Result<W, W::Error>) {
        write_le(dst, self.inner.raw as u128, 8)
    }
}

impl Load for Offset {
    type Error = ValidateBlobOffsetError;

    /// A blob is an offset where its word has the tag bit set and the top
    /// bit clear, and the offset is one that this machine can address.
    /// Whether the offset lies within a particular pile is not asked here.
    open spec fn valid(blob: Seq<u8>) -> bool {
        &&& is_offset_word(le_value(blob) as u64)
        &&& word_to_offset(le_value(blob) as u64) <= usize::MAX
    }

    open spec fn decoded(blob: Seq<u8>) -> Self {
        Offset::of_word(le_value(blob) as u64)
    }

    proof fn lemma_round_trip(&self) {
        reveal_with_fuel(pow256, 9);
        lemma_le_round_trip(self.word() as nat, 8);
    }

    fn validate_blob(blob: &[u8]) -> (r: Result<(), ValidateBlobOffsetError>) {
        proof {
            reveal_with_fuel(pow256, 9);
        }
        let word: u64 = read_le(blob) as u64;
        match Offset::from_word(word) {
            Some(_) => Ok(()),
            None => Err(ValidateBlobOffsetError),
        }
    }

    fn decode_blob(blob: &[u8]) -> (r: Self) {
        proof {
            reveal_with_fuel(pow256, 9);
        }
        let word: u64 = read_le(blob) as u64;
        Offset { inner: OffsetMut { raw: word } }
    }
}

/// What an `OffsetMut` holds.
#[derive(Debug)]
pub enum Kind {
    /// Clean: the target is persisted at this offset.
    Offset(Offset),
    /// Dirty: the target is live at this address.
    Ptr(usize),
}

/// A pointer that is either clean, an offset into a pile, or dirty, the
/// address of a live value; the low bit of its word tells which.
#[derive(Clone, Copy, Debug, PartialEq, Eq, Structural)]
pub struct OffsetMut {
    raw: u64,
}

impl OffsetMut {
    #[verifier::type_invariant]
    spec fn inv(self) -> bool {
        if self.raw % 2 == 1 {
            is_offset_word(self.raw) && word_to_offset(self.raw) <= usize::MAX
        } else {
            is_ptr_word(self.raw) && self.raw <= usize::MAX
        }
    }

    /// The pointer's 64-bit word.
    pub closed spec fn word(self) -> u64 {
        self.raw
    }

    /// The pointer whose word is `word`.
    pub closed spec fn of_word(word: u64) -> OffsetMut {
        OffsetMut { raw: word }
    }

    /// A pointer is known by its word.
    pub proof fn lemma_of_word(self)
        ensures
            OffsetMut::of_word(self.word()) == self,
    {
    }

    /// The word of the pointer whose word is `word` is `word`.
    pub proof fn lemma_word_of(word: u64)
        ensures
            OffsetMut::of_word(word).word() == word,
    {
    }

    /// Whether the pointer is clean.
    pub open spec fn is_clean(self) -> bool {
        is_offset_word(self.word())
    }

    /// Whether the pointer is dirty.
    pub open spec fn is_dirty(self) -> bool {
        is_ptr_word(self.word())
    }

    /// A clean pointer to a persisted position.
    pub fn from_offset(offset: Offset) -> (r: Self)
        ensures
            r == offset.as_mut(),
            r.word() == offset.word(),
            r.is_clean(),
    {
        proof {
            use_type_invariant(&offset);
        }
        offset.inner
    }

    /// A dirty pointer to the live value at `addr`, which must be even and
    /// not null.
    pub fn from_ptr(addr: usize) -> (r: Self)
        requires
            addr != 0,
            addr % 2 == 0,
        ensures
            r.word() == addr,
            r.is_dirty(),
    {
        Self { raw: addr as u64 }
    }

    /// Tells a clean pointer from a dirty one by the tag bit.
    pub fn kind(&self) -> (r: Kind)
        ensures
            self.is_clean() != self.is_dirty(),
            match r {
                Kind::Offset(offset) => self.is_clean() && offset.word() == self.word(),
                Kind::Ptr(addr) => self.is_dirty() && addr == self.word(),
            },
    {
        proof {
            use_type_invariant(self);
        }
        let raw: u64 = self.raw;
        assert(raw & 1 == raw % 2) by (bit_vector);
        if raw & 1 == 1 {
            Kind::Offset(Offset { inner: *self })
        } else {
            Kind::Ptr(raw as usize)
        }
    }

    /// The offset, if the pointer is clean.
    pub fn get_offset(&self) -> (r: Option<Offset>)
        ensures
            match r {
                Some(offset) => self.is_clean() && offset.word() == self.word(),
                None => self.is_dirty(),
            },
    {
        match self.kind() {
            Kind::Offset(offset) => Some(offset),
            Kind::Ptr(_) => None,
        }
    }

    /// The address, if the pointer is dirty.
    pub fn get_ptr(&self) -> (r: Option<usize>)
        ensures
            match r {
                Some(addr) => self.is_dirty() && addr == self.word(),
                None => self.is_clean(),
            },
    {
        match self.kind() {
            Kind::Ptr(addr) => Some(addr),
            Kind::Offset(_) => None,
        }
    }

    /// A second handle on the same target; the target is not copied.
    pub fn duplicate(&self) -> (r: Self)
        ensures
            r == *self,
    {
        *self
    }
}

impl Default for OffsetMut {
    /// The clean pointer to the dangling offset.
    fn default() -> (r: Self)
        ensures
            r.is_clean(),
            r.word() == offset_to_word(dangling_offset()),
    {
        OffsetMut::from_offset(Offset::dangling())
    }
}

} // verus!
