//! What it takes for a value to be persisted as a blob, and to be read back
//! from one.

use crate::layout::{BlobLayout, Layout};
use crate::writer::{
    can_write, lemma_value_writer_exact, wrote, ValueWriter, VecWriter, WriteBlob,
};
use vstd::pervasive::unreached;
use vstd::prelude::*;

verus! {

/// A value with an encoding of fixed size that holds no pointer to follow.
pub trait Primitive: Sized {
    /// The layout of the encoding.
    spec fn layout() -> Layout;

    /// Whether this is a value as it exists at run time. Values only
    /// spoken of in proofs need not be.
    spec fn wf(&self) -> bool;

    /// The encoding of this value.
    spec fn bytes(&self) -> Seq<u8>;

    /// The encoding is exactly as long as the layout says.
    proof fn lemma_size(&self)
        ensures
            self.bytes().len() == Self::layout().size,
    ;

    /// The layout of the encoding.
    fn blob_layout() -> (r: BlobLayout)
        requires
            Self::layout().size <= usize::MAX,
        ensures
            r@ == Self::layout(),
    ;

    /// Writes the encoding to `dst`, which must be able to take it.
    fn encode_blob<W: WriteBlob>(&self, dst: W) -> (r: Result<W, W::Error>)
        requires
            can_write(&dst, Self::layout().size),
            Self::layout().size <= usize::MAX,
        ensures
            W::infallible() ==> r is Ok,
            r matches Ok(w) ==> wrote(&dst, &w, self.bytes()),
    ;
}

/// A value that can be read back from its encoding.
pub trait Load: Primitive {
    /// Why a blob is not the encoding of any value.
    type Error;

    /// Whether a blob of the right size is the encoding of a value.
    spec fn valid(blob: Seq<u8>) -> bool;

    /// The value that a valid blob encodes.
    spec fn decoded(blob: Seq<u8>) -> Self;

    /// Every value's encoding is valid and decodes to the value.
    proof fn lemma_round_trip(&self)
        requires
            self.wf(),
        ensures
            Self::valid(self.bytes()),
            Self::decoded(self.bytes()) == *self,
    ;

    /// Checks the bytes of a blob; nothing is changed.
    fn validate_blob(blob: &[u8]) -> (r: Result<(), Self::Error>)
        requires
            blob@.len() == Self::layout().size,
        ensures
            r is Ok <==> Self::valid(blob@),
    ;

    /// Decodes a blob that has been validated.
    fn decode_blob(blob: &[u8]) -> (r: Self)
        requires
            blob@.len() == Self::layout().size,
            Self::valid(blob@),
        ensures
            r == Self::decoded(blob@),
            r.wf(),
    ;
}

/// Decoding what was encoded gives the value back, and the encoding has the
/// size of the value's layout.
pub proof fn lemma_decode_encode<T: Load>(value: T)
    requires
        value.wf(),
    ensures
        value.bytes().len() == T::layout().size,
        T::valid(value.bytes()),
        T::decoded(value.bytes()) == value,
{
    value.lemma_size();
    value.lemma_round_trip();
}

/// Writes a value to `dst` under the exact byte count of its layout.
pub fn write<W: WriteBlob, T: Primitive>(dst: W, value: &T) -> (r: Result<W, W::Error>)
    requires
        can_write(&dst, T::layout().size),
        T::layout().size <= usize::MAX,
    ensures
        W::infallible() ==> r is Ok,
        r matches Ok(w) ==> wrote(&dst, &w, value.bytes()),
{
    let size: usize = T::blob_layout().size();
    let value_writer = ValueWriter::new(dst, size);
    proof {
        value.lemma_size();
        lemma_value_writer_exact(value_writer, size as nat);
    }
    let done = value.encode_blob(value_writer)?;
    proof {
        // the value has had all its bytes, and each count in the sink
        // below has shrunk as the count of the value has
        let depth = dst.owed().len() as int;
        assert(done.owed()[depth] == value_writer.owed()[depth] - size);
        assert forall|i: int| 0 <= i < depth implies #[trigger] done.inner().owed()[i]
            == dst.owed()[i] - size by {
            assert(done.owed()[i] == done.inner().owed()[i]);
            assert(value_writer.owed()[i] == dst.owed()[i]);
        }
    }
    done.finish()
}

/// The encoding of a value.
pub fn encode<T: Primitive>(value: T) -> (r: Vec<u8>)
    requires
        T::layout().size <= usize::MAX,
    ensures
        r@ == value.bytes(),
{
    let dst = VecWriter::new(Vec::new());
    match write(dst, &value) {
        Ok(w) => match w.finish() {
            Ok(buf) => {
                assert(buf@ =~= value.bytes());
                buf
            },
            Err(_) => unreached(),
        },
        Err(_) => unreached(),
    }
}

} // verus!
