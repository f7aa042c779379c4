//! The write protocol: byte sinks that take the encoding of a value under an
//! exact byte count.

use core::convert::Infallible;
use vstd::prelude::*;

verus! {

/// `len` padding bytes: all zero.
pub open spec fn zeros(len: nat) -> Seq<u8> {
    Seq::new(len, |i: int| 0u8)
}

/// An append-only byte sink.
///
/// Each write consumes the sink and returns the sink to continue with.
pub trait WriteBlob: Sized {
    /// What finishing yields.
    type Ok;

    /// How the sink can fail.
    type Error;

    /// The sink is in a consistent state.
    spec fn wf(&self) -> bool;

    /// Every byte the sink has taken, in order.
    spec fn written(&self) -> Seq<u8>;

    /// How many more bytes the sink has room for.
    spec fn room(&self) -> nat;

    /// The byte counts still outstanding for the values under way, innermost
    /// last: each must reach zero, exactly, before its value is finished.
    spec fn owed(&self) -> Seq<nat>;

    /// What holds of the result of finishing this sink.
    spec fn finished(&self, ok: &Self::Ok) -> bool;

    /// Whether sinks of this type never fail.
    spec fn infallible() -> bool;

    /// Writes bytes to the blob.
    ///
    /// There must be room for them, and no value under way may get more
    /// bytes than its declared size. The bytes are appended to what was
    /// written; the room and every outstanding count shrink by their number.
    fn write_bytes(self, src: &[u8]) -> (r: Result<Self, Self::Error>)
        requires
            self.wf(),
            src@.len() <= self.room(),
            forall|i: int| 0 <= i < self.owed().len() ==> src@.len() <= #[trigger] self.owed()[i],
        ensures
            Self::infallible() ==> r is Ok,
            r matches Ok(w) ==> {
                &&& w.wf()
                &&& w.written() == self.written() + src@
                &&& w.room() == self.room() - src@.len()
                &&& w.owed().len() == self.owed().len()
                &&& forall|i: int|
                    0 <= i < self.owed().len() ==> #[trigger] w.owed()[i] == self.owed()[i]
                        - src@.len()
            },
    ;

    /// Writes `len` zero bytes of padding to the blob.
    fn write_padding(self, len: usize) -> (r: Result<Self, Self::Error>)
        requires
            self.wf(),
            len <= self.room(),
            forall|i: int| 0 <= i < self.owed().len() ==> len <= #[trigger] self.owed()[i],
        ensures
            Self::infallible() ==> r is Ok,
            r matches Ok(w) ==> {
                &&& w.wf()
                &&& w.written() == self.written() + zeros(len as nat)
                &&& w.room() == self.room() - len
                &&& w.owed().len() == self.owed().len()
                &&& forall|i: int|
                    0 <= i < self.owed().len() ==> #[trigger] w.owed()[i] == self.owed()[i] - len
            },
    {
        let mut w = self;
        let mut i: usize = 0;
        let zero: [u8; 1] = [0u8];
        assert(w.written() + zeros(0) =~= w.written());
        while i < len
            invariant
                i <= len,
                len <= self.room(),
                forall|k: int| 0 <= k < self.owed().len() ==> len <= #[trigger] self.owed()[k],
                w.wf(),
                w.written() == self.written() + zeros(i as nat),
                w.room() == self.room() - i,
                w.owed().len() == self.owed().len(),
                forall|k: int|
                    0 <= k < self.owed().len() ==> #[trigger] w.owed()[k] == self.owed()[k] - i,
                zero@ =~= seq![0u8],
            decreases len - i,
        {
            let next = w.write_bytes(zero.as_slice())?;
            w = next;
            i = i + 1;
            assert(self.written() + zeros((i - 1) as nat) + seq![0u8] =~= self.written() + zeros(
                i as nat,
            ));
        }
        Ok(w)
    }

    /// Finishes writing the blob.
    ///
    /// The value under way, if any, must have had all its bytes.
    fn finish(self) -> (r: Result<Self::Ok, Self::Error>)
        requires
            self.wf(),
            self.owed().len() > 0 ==> self.owed().last() == 0,
        ensures
            Self::infallible() ==> r is Ok,
            r matches Ok(ok) ==> self.finished(&ok),
    ;
}

/// Whether `w` may take `n` more bytes: there is room for them, and no value
/// under way would get more bytes than its declared size.
pub open spec fn can_write<W: WriteBlob>(w: &W, n: nat) -> bool {
    &&& w.wf()
    &&& n <= w.room()
    &&& forall|i: int| 0 <= i < w.owed().len() ==> n <= #[trigger] w.owed()[i]
}

/// Whether `after` is `before` once it has taken `bytes`: they are appended
/// to what was written, and the room and every outstanding count shrink by
/// their number.
pub open spec fn wrote<W: WriteBlob>(before: &W, after: &W, bytes: Seq<u8>) -> bool {
    &&& after.wf()
    &&& after.written() == before.written() + bytes
    &&& after.room() == before.room() - bytes.len()
    &&& after.owed().len() == before.owed().len()
    &&& forall|i: int|
        0 <= i < before.owed().len() ==> #[trigger] after.owed()[i] == before.owed()[i]
            - bytes.len()
}

/// Whether `w` may be finished: the value under way, if any, has had all its
/// bytes.
pub open spec fn can_finish<W: WriteBlob>(w: &W) -> bool {
    &&& w.wf()
    &&& w.owed().len() > 0 ==> w.owed().last() == 0
}

/// A sink that holds another to the declared size of one value: exactly that
/// many bytes pass through it before it is finished.
pub struct ValueWriter<W> {
    inner: W,
    remaining: usize,
}

impl<W> ValueWriter<W> {
    /// The sink that the bytes go to.
    pub closed spec fn inner(&self) -> W {
        self.inner
    }

    /// How many bytes the value still has to get.
    pub closed spec fn remaining(&self) -> nat {
        self.remaining as nat
    }

    /// Holds `inner` to a value of `size` bytes.
    pub fn new(inner: W, size: usize) -> (r: Self)
        ensures
            r.inner() == inner,
            r.remaining() == size,
    {
        Self { inner, remaining: size }
    }

    /// How many bytes the value still has to get.
    pub fn remaining_len(&self) -> (r: usize)
        ensures
            r == self.remaining(),
    {
        self.remaining
    }
}

impl<W: WriteBlob> WriteBlob for ValueWriter<W> {
    type Ok = W;

    type Error = W::Error;

    open spec fn wf(&self) -> bool {
        self.inner().wf()
    }

    open spec fn written(&self) -> Seq<u8> {
        self.inner().written()
    }

    open spec fn room(&self) -> nat {
        self.inner().room()
    }

    open spec fn owed(&self) -> Seq<nat> {
        self.inner().owed().push(self.remaining())
    }

    /// Finishing hands the inner sink back as it is.
    open spec fn finished(&self, ok: &W) -> bool {
        *ok == self.inner()
    }

    open spec fn infallible() -> bool {
        W::infallible()
    }

    fn write_bytes(self, src: &[u8]) -> (r: Result<Self, Self::Error>)
        ensures
            r matches Ok(w) ==> w.remaining() == self.remaining() - src@.len() && wrote(
                &self.inner(),
                &w.inner(),
                src@,
            ),
    {
        assert(self.owed().last() == self.remaining());
        assert forall|i: int| 0 <= i < self.inner().owed().len() implies src@.len()
            <= #[trigger] self.inner().owed()[i] by {
            assert(self.owed()[i] == self.inner().owed()[i]);
        }
        let remaining: usize = self.remaining - src.len();
        let inner = self.inner.write_bytes(src)?;
        let w = Self::new(inner, remaining);
        assert forall|i: int| 0 <= i < self.owed().len() implies #[trigger] w.owed()[i]
            == self.owed()[i] - src@.len() by {
            if i < self.inner().owed().len() {
                assert(self.owed()[i] == self.inner().owed()[i]);
                assert(w.owed()[i] == w.inner().owed()[i]);
            }
        }
        Ok(w)
    }

    fn write_padding(self, len: usize) -> (r: Result<Self, Self::Error>)
        ensures
            r matches Ok(w) ==> w.remaining() == self.remaining() - len && wrote(
                &self.inner(),
                &w.inner(),
                zeros(len as nat),
            ),
    {
        assert(self.owed().last() == self.remaining());
        assert forall|i: int| 0 <= i < self.inner().owed().len() implies len
            <= #[trigger] self.inner().owed()[i] by {
            assert(self.owed()[i] == self.inner().owed()[i]);
        }
        let remaining: usize = self.remaining - len;
        let inner = self.inner.write_padding(len)?;
        let w = Self::new(inner, remaining);
        assert forall|i: int| 0 <= i < self.owed().len() implies #[trigger] w.owed()[i]
            == self.owed()[i] - len by {
            if i < self.inner().owed().len() {
                assert(self.owed()[i] == self.inner().owed()[i]);
                assert(w.owed()[i] == w.inner().owed()[i]);
            }
        }
        Ok(w)
    }

    fn finish(self) -> (r: Result<W, Self::Error>)
        ensures
            r == Ok::<W, Self::Error>(self.inner()),
    {
        Ok(self.inner)
    }
}

/// The exact count: a value writer takes no more bytes than its value has
/// left, and can be finished exactly when the value has had all of them.
pub proof fn lemma_value_writer_exact<W: WriteBlob>(w: ValueWriter<W>, n: nat)
    ensures
        can_write(&w, n) <==> can_write(&w.inner(), n) && n <= w.remaining(),
        can_finish(&w) <==> w.inner().wf() && w.remaining() == 0,
{
    assert(w.owed().last() == w.remaining());
    if can_write(&w, n) {
        assert forall|i: int| 0 <= i < w.inner().owed().len() implies n
            <= #[trigger] w.inner().owed()[i] by {
            assert(w.owed()[i] == w.inner().owed()[i]);
        }
    }
    if can_write(&w.inner(), n) && n <= w.remaining() {
        assert forall|i: int| 0 <= i < w.owed().len() implies n <= #[trigger] w.owed()[i] by {
            if i < w.inner().owed().len() {
                assert(w.owed()[i] == w.inner().owed()[i]);
            }
        }
    }
}

/// A sink over a borrowed buffer of fixed length: it is filled from the
/// front, and can be finished only when it is full.
pub struct SliceWriter<'a> {
    /// The whole buffer: what was written, then what is still to be
    /// overwritten.
    pub buf: &'a mut [u8],
    /// How many bytes of the buffer have been written.
    pub pos: usize,
}

impl<'a> SliceWriter<'a> {
    /// The buffer as it is now.
    pub open spec fn buffer(&self) -> Seq<u8> {
        self.buf@
    }

    /// A sink that overwrites `buf` from its start.
    pub fn new(buf: &'a mut [u8]) -> (r: Self)
        ensures
            r.wf(),
            r.buffer() == old(buf)@,
            r.pos == 0,
            final(r.buf)@ == final(buf)@,
    {
        Self { buf, pos: 0 }
    }

    /// How many bytes of the buffer are still to be written.
    pub fn remaining_len(&self) -> (r: usize)
        requires
            self.wf(),
        ensures
            r == self.room(),
    {
        self.buf.len() - self.pos
    }
}

impl<'a> WriteBlob for SliceWriter<'a> {
    /// Nothing: the bytes are in the borrowed buffer.
    type Ok = ();

    type Error = Infallible;

    open spec fn wf(&self) -> bool {
        self.pos <= self.buf@.len()
    }

    open spec fn written(&self) -> Seq<u8> {
        self.buf@.subrange(0, self.pos as int)
    }

    open spec fn room(&self) -> nat {
        (self.buf@.len() - self.pos) as nat
    }

    open spec fn owed(&self) -> Seq<nat> {
        seq![self.room()]
    }

    open spec fn finished(&self, ok: &()) -> bool {
        true
    }

    open spec fn infallible() -> bool {
        true
    }

    /// The bytes are written over the front of what was left of the
    /// buffer; the rest of it stays as it is.
    fn write_bytes(self, src: &[u8]) -> (r: Result<Self, Infallible>)
        ensures
            r matches Ok(w) ==> {
                &&& w.pos == self.pos + src@.len()
                &&& w.buffer().len() == self.buffer().len()
                &&& w.buffer().subrange(w.pos as int, w.buffer().len() as int)
                    == self.buffer().subrange(w.pos as int, self.buffer().len() as int)
                &&& final(w.buf)@ == final(self.buf)@
            },
    {
        let mut w = self;
        let mut i: usize = 0;
        while i < src.len()
            invariant
                i <= src@.len(),
                self.wf(),
                self.pos + src@.len() <= self.buf@.len(),
                w.pos == self.pos + i,
                w.buf@.len() == self.buf@.len(),
                final(w.buf)@ == final(self.buf)@,
                forall|k: int| 0 <= k < self.pos ==> w.buf@[k] == self.buf@[k],
                forall|k: int| 0 <= k < i ==> w.buf@[self.pos + k] == src@[k],
                forall|k: int| w.pos <= k < w.buf@.len() ==> w.buf@[k] == self.buf@[k],
            decreases src@.len() - i,
        {
            let at: usize = w.pos;
            let len: usize = w.buf.len();
            w.buf[at] = src[i];
            w.pos = at + 1;
            i = i + 1;
        }
        assert(w.written() =~= self.written() + src@);
        assert(w.buf@.subrange(w.pos as int, w.buf@.len() as int) =~= self.buf@.subrange(
            w.pos as int,
            self.buf@.len() as int,
        ));
        assert(w.owed()[0] == w.room());
        assert(self.owed()[0] == self.room());
        Ok(w)
    }

    /// The borrowed buffer is left holding what was written.
    fn finish(self) -> (r: Result<(), Infallible>)
        ensures
            final(self.buf)@ == self.written(),
    {
        assert(self.owed().last() == self.room());
        assert(self.buf@.subrange(0, self.pos as int) =~= self.buf@);
        Ok(())
    }
}

/// A sink that grows: it appends to a buffer and can be finished at any
/// time.
pub struct VecWriter {
    buf: Vec<u8>,
}

impl VecWriter {
    /// The buffer.
    pub closed spec fn buffer(&self) -> Seq<u8> {
        self.buf@
    }

    /// A sink that appends to `buf`.
    pub fn new(buf: Vec<u8>) -> (r: Self)
        ensures
            r.wf(),
            r.buffer() == buf@,
    {
        Self { buf }
    }
}

impl WriteBlob for VecWriter {
    /// The buffer with everything that was appended.
    type Ok = Vec<u8>;

    type Error = Infallible;

    open spec fn wf(&self) -> bool {
        true
    }

    open spec fn written(&self) -> Seq<u8> {
        self.buffer()
    }

    /// A buffer holds `usize::MAX` bytes at most.
    open spec fn room(&self) -> nat {
        if self.buffer().len() <= usize::MAX {
            (usize::MAX - self.buffer().len()) as nat
        } else {
            0
        }
    }

    open spec fn owed(&self) -> Seq<nat> {
        Seq::empty()
    }

    open spec fn finished(&self, ok: &Vec<u8>) -> bool {
        ok@ == self.written()
    }

    open spec fn infallible() -> bool {
        true
    }

    fn write_bytes(self, src: &[u8]) -> (r: Result<Self, Infallible>) {
        let mut w = self;
        let mut i: usize = 0;
        while i < src.len()
            invariant
                i <= src@.len(),
                w.buf@ == self.buf@ + src@.subrange(0, i as int),
            decreases src@.len() - i,
        {
            w.buf.push(src[i]);
            i = i + 1;
            assert(src@.subrange(0, i as int) =~= src@.subrange(0, i - 1).push(src@[i - 1]));
            assert(w.buf@ =~= self.buf@ + src@.subrange(0, i as int));
        }
        assert(src@.subrange(0, i as int) =~= src@);
        Ok(w)
    }

    fn finish(self) -> (r: Result<Vec<u8>, Infallible>) {
        Ok(self.buf)
    }
}

} // verus!
