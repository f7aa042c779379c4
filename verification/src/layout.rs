//! The layout algebra: byte size and niche of a value's encoding.

use core::ops::Range;
use vstd::prelude::*;

verus! {

/// What a blob layout is, mathematically: a size in bytes, the byte range of
/// the niche (empty when `niche_start == niche_end`), and whether the type is
/// inhabited at all.
pub struct Layout {
    pub size: nat,
    pub niche_start: nat,
    pub niche_end: nat,
    pub inhabited: bool,
}

impl Layout {
    /// The niche lies within the blob.
    pub open spec fn wf(self) -> bool {
        self.niche_start <= self.niche_end <= self.size
    }

    /// Length of the niche in bytes; zero when there is none.
    pub open spec fn niche_len(self) -> nat {
        (self.niche_end - self.niche_start) as nat
    }

    /// A layout of `size` bytes without a niche.
    pub open spec fn plain(size: nat) -> Layout {
        Layout { size, niche_start: 0, niche_end: 0, inhabited: true }
    }

    /// A layout of `size` bytes all of which form the niche.
    pub open spec fn nonzero(size: nat) -> Layout {
        Layout { size, niche_start: 0, niche_end: size, inhabited: true }
    }

    /// The layout of a type without values.
    pub open spec fn never() -> Layout {
        Layout { size: 0, niche_start: 0, niche_end: 0, inhabited: false }
    }

    /// Whether `next`'s niche is the one an extension of `self` by `next`
    /// keeps: it must be non-empty, and `self`'s niche must be empty or
    /// strictly longer.
    pub open spec fn prefers(self, next: Layout) -> bool {
        next.niche_len() != 0 && (self.niche_len() == 0 || next.niche_len() < self.niche_len())
    }

    /// `self` followed by `next`.
    pub open spec fn extend(self, next: Layout) -> Layout {
        Layout {
            size: self.size + next.size,
            niche_start: if self.prefers(next) {
                self.size + next.niche_start
            } else {
                self.niche_start
            },
            niche_end: if self.prefers(next) {
                self.size + next.niche_end
            } else {
                self.niche_end
            },
            inhabited: self.inhabited && next.inhabited,
        }
    }

    /// A niche is on offer only for an inhabited type with a non-empty range.
    pub open spec fn has_niche(self) -> bool {
        self.inhabited && self.niche_start != self.niche_end
    }

    /// The niche on offer, as `(start, end)`.
    pub open spec fn niche(self) -> Option<(nat, nat)> {
        if self.has_niche() {
            Some((self.niche_start, self.niche_end))
        } else {
            None
        }
    }
}

/// Encoding of a fixed-size value in a pile.
#[derive(Clone, Copy, Debug, PartialEq, Eq, Hash, Structural)]
pub struct BlobLayout {
    size: usize,
    niche_start: usize,
    niche_end: usize,
    inhabited: bool,
}

impl View for BlobLayout {
    type V = Layout;

    closed spec fn view(&self) -> Layout {
        Layout {
            size: self.size as nat,
            niche_start: self.niche_start as nat,
            niche_end: self.niche_end as nat,
            inhabited: self.inhabited,
        }
    }
}

impl Default for BlobLayout {
    fn default() -> (r: Self)
        ensures
            r@ == Layout::never(),
    {
        BlobLayout::never()
    }
}

impl BlobLayout {
    #[verifier::type_invariant]
    spec fn inv(self) -> bool {
        self.niche_start <= self.niche_end <= self.size
    }

    /// Creates a layout with a given length and no niche.
    pub fn new(size: usize) -> (r: Self)
        ensures
            r@ == Layout::plain(size as nat),
    {
        Self { size, niche_start: 0, niche_end: 0, inhabited: true }
    }

    /// Creates a non-zero layout: the entire length is the niche.
    pub fn new_nonzero(size: usize) -> (r: Self)
        ensures
            r@ == Layout::nonzero(size as nat),
    {
        Self { size, niche_start: 0, niche_end: size, inhabited: true }
    }

    /// The layout of a type that has no values.
    pub fn never() -> (r: Self)
        ensures
            r@ == Layout::never(),
    {
        Self { size: 0, niche_start: 0, niche_end: 0, inhabited: false }
    }

    /// Creates a layout with the niche `niche`, which must be a non-empty
    /// range within the blob.
    pub fn with_niche(size: usize, niche: Range<usize>) -> (r: Self)
        requires
            niche.start < niche.end <= size,
        ensures
            r@ == (Layout {
                size: size as nat,
                niche_start: niche.start as nat,
                niche_end: niche.end as nat,
                inhabited: true,
            }),
    {
        Self { size, niche_start: niche.start, niche_end: niche.end, inhabited: true }
    }

    /// Gets the size in bytes.
    pub fn size(self) -> (r: usize)
        ensures
            r == self@.size,
    {
        self.size
    }

    /// Whether the type has any value.
    pub fn inhabited(self) -> (r: bool)
        ensures
            r == self@.inhabited,
    {
        self.inhabited
    }

    /// Creates a layout describing `self` followed by `next`.
    ///
    /// Of the two niches the non-empty one of the shorter length is kept; if
    /// the lengths are the same the first is.
    pub fn extend(self, next: BlobLayout) -> (r: Self)
        requires
            self@.size + next@.size <= usize::MAX,
        ensures
            r@ == self@.extend(next@),
            self@.wf(),
            next@.wf(),
            r@.wf(),
    {
        proof {
            use_type_invariant(&self);
            use_type_invariant(&next);
        }
        let size: usize = self.size + next.size;
        let len1: usize = self.niche_end - self.niche_start;
        let len2: usize = next.niche_end - next.niche_start;
        if len2 != 0 && (len1 == 0 || len2 < len1) {
            Self {
                size,
                niche_start: self.size + next.niche_start,
                niche_end: self.size + next.niche_end,
                inhabited: self.inhabited && next.inhabited,
            }
        } else {
            Self {
                size,
                niche_start: self.niche_start,
                niche_end: self.niche_end,
                inhabited: self.inhabited && next.inhabited,
            }
        }
    }

    /// Whether a niche is on offer.
    pub fn has_niche(self) -> (r: bool)
        ensures
            r == self@.has_niche(),
    {
        self.inhabited && self.niche_start != self.niche_end
    }

    /// Gets the non-zero niche, if present.
    pub fn niche(self) -> (r: Option<Range<usize>>)
        ensures
            self@.wf(),
            match r {
                Some(range) => self@.niche() == Some((range.start as nat, range.end as nat)),
                None => self@.niche().is_none(),
            },
    {
        proof {
            use_type_invariant(&self);
        }
        if self.has_niche() {
            Some(self.niche_start..self.niche_end)
        } else {
            None
        }
    }
}

/// Sizes add under extension.
pub proof fn lemma_extend_size(a: Layout, b: Layout)
    ensures
        a.extend(b).size == a.size + b.size,
{
}

/// Extension keeps layouts well formed.
pub proof fn lemma_extend_wf(a: Layout, b: Layout)
    requires
        a.wf(),
        b.wf(),
    ensures
        a.extend(b).wf(),
{
}

/// When both niches are non-empty, the extension keeps the shorter one,
/// `b`'s shifted by `a`'s size; when they are equally long it keeps `a`'s
/// unchanged.
pub proof fn lemma_extend_niche(a: Layout, b: Layout)
    requires
        a.wf(),
        b.wf(),
        a.niche_len() != 0,
        b.niche_len() != 0,
    ensures
        b.niche_len() < a.niche_len() ==> {
            &&& a.extend(b).niche_start == a.size + b.niche_start
            &&& a.extend(b).niche_end == a.size + b.niche_end
            &&& a.extend(b).niche_len() == b.niche_len()
        },
        b.niche_len() >= a.niche_len() ==> {
            &&& a.extend(b).niche_start == a.niche_start
            &&& a.extend(b).niche_end == a.niche_end
        },
{
}

/// A non-zero layout offers all its bytes as niche (none if it is empty); a
/// plain layout offers none.
pub proof fn lemma_constructor_niches(n: nat)
    ensures
        n > 0 ==> Layout::nonzero(n).niche() == Some((0nat, n)),
        Layout::nonzero(0).niche().is_none(),
        Layout::plain(n).niche().is_none(),
{
}

} // verus!
