//! The encodings of the scalar types: integers are stored little-endian,
//! signed ones in two's complement.

use crate::layout::{BlobLayout, Layout};
use crate::marshal::{Load, Primitive};
use crate::writer::{can_write, wrote, WriteBlob};
use core::convert::Infallible;
use vstd::prelude::*;

verus! {

/// `256^n`: the number of values that `n` bytes can tell apart.
pub open spec fn pow256(n: nat) -> nat
    decreases n,
{
    if n == 0 {
        1
    } else {
        256 * pow256((n - 1) as nat)
    }
}

/// The `n` low bytes of `x`, least significant first.
pub open spec fn le_bytes(x: nat, n: nat) -> Seq<u8>
    decreases n,
{
    if n == 0 {
        Seq::empty()
    } else {
        seq![(x % 256) as u8] + le_bytes(x / 256, (n - 1) as nat)
    }
}

/// The number whose little-endian bytes are `bytes`.
pub open spec fn le_value(bytes: Seq<u8>) -> nat
    decreases bytes.len(),
{
    if bytes.len() == 0 {
        0
    } else {
        bytes[0] as nat + 256 * le_value(bytes.drop_first())
    }
}

/// The number that stands for `x` in two's complement of `n` bytes.
pub open spec fn unsigned_of(x: int, n: nat) -> nat {
    if x >= 0 {
        x as nat
    } else {
        (x + pow256(n)) as nat
    }
}

/// The number that `u` stands for in two's complement of `n` bytes.
pub open spec fn signed_of(u: nat, n: nat) -> int {
    if 2 * u < pow256(n) {
        u as int
    } else {
        u - pow256(n)
    }
}

/// `n` bytes are written for a number, whatever it is.
pub proof fn lemma_le_bytes_len(x: nat, n: nat)
    ensures
        le_bytes(x, n).len() == n,
    decreases n,
{
    if n > 0 {
        lemma_le_bytes_len(x / 256, (n - 1) as nat);
    }
}

/// What `n` bytes stand for is below `256^n`.
pub proof fn lemma_le_value_bound(bytes: Seq<u8>)
    ensures
        le_value(bytes) < pow256(bytes.len()),
    decreases bytes.len(),
{
    if bytes.len() > 0 {
        lemma_le_value_bound(bytes.drop_first());
    }
}

/// A number below `256^n` is read back from its `n` bytes.
pub proof fn lemma_le_round_trip(x: nat, n: nat)
    requires
        x < pow256(n),
    ensures
        le_value(le_bytes(x, n)) == x,
    decreases n,
{
    if n > 0 {
        let rest = le_bytes(x / 256, (n - 1) as nat);
        lemma_le_bytes_len(x, n);
        lemma_le_round_trip(x / 256, (n - 1) as nat);
        assert(le_bytes(x, n).drop_first() =~= rest);
        assert(le_bytes(x, n)[0] == (x % 256) as u8);
    }
}

/// Bytes are written back from the number they stand for.
pub proof fn lemma_le_bytes_of_value(bytes: Seq<u8>)
    ensures
        le_bytes(le_value(bytes), bytes.len()) == bytes,
    decreases bytes.len(),
{
    if bytes.len() > 0 {
        let rest = bytes.drop_first();
        lemma_le_bytes_of_value(rest);
        let v = le_value(bytes);
        assert(v % 256 == bytes[0] as nat);
        assert(v / 256 == le_value(rest));
        assert(le_bytes(v, bytes.len()) =~= bytes);
    } else {
        assert(le_bytes(le_value(bytes), 0) =~= bytes);
    }
}

/// Two's complement loses nothing: a number within the signed range of `n`
/// bytes is read back from the number that stands for it.
pub proof fn lemma_signed_round_trip(x: int, n: nat)
    requires
        -(pow256(n) as int) <= 2 * x < pow256(n),
    ensures
        unsigned_of(x, n) < pow256(n),
        signed_of(unsigned_of(x, n), n) == x,
{
}

proof fn lemma_pow256_values()
    ensures
        pow256(0) == 1,
        pow256(1) == 0x100,
        pow256(2) == 0x1_0000,
        pow256(4) == 0x1_0000_0000,
        pow256(8) == 0x1_0000_0000_0000_0000,
        pow256(16) == 0x1_0000_0000_0000_0000_0000_0000_0000_0000,
{
    reveal_with_fuel(pow256, 5);
    assert(pow256(4) == 0x1_0000_0000);
    assert(pow256(8) == pow256(4) * pow256(4)) by {
        assert(pow256(8) == 0x1_0000_0000 * pow256(4));
    }
    assert(pow256(12) == 0x1_0000_0000 * pow256(8));
    assert(pow256(16) == 0x1_0000_0000 * pow256(12));
}

proof fn lemma_pow256_monotonic(a: nat, b: nat)
    requires
        a <= b,
    ensures
        pow256(a) <= pow256(b),
        pow256(a) >= 1,
    decreases b,
{
    if a < b {
        lemma_pow256_monotonic(a, (b - 1) as nat);
    } else if a > 0 {
        lemma_pow256_monotonic((a - 1) as nat, (a - 1) as nat);
    }
}

/// Writes the `size` low bytes of `value` to `dst`, least significant first.
pub fn write_le<W: WriteBlob>(dst: W, value: u128, size: usize) -> (r: Result<W, W::Error>)
    requires
        can_write(&dst, size as nat),
    ensures
        W::infallible() ==> r is Ok,
        r matches Ok(w) ==> wrote(&dst, &w, le_bytes(value as nat, size as nat)),
{
    let mut buf: Vec<u8> = Vec::new();
    let mut rest: u128 = value;
    let mut i: usize = 0;
    while i < size
        invariant
            i <= size,
            buf@.len() == i,
            buf@ + le_bytes(rest as nat, (size - i) as nat) == le_bytes(value as nat, size as nat),
        decreases size - i,
    {
        let ghost before = buf@;
        let ghost tail = le_bytes(rest as nat, (size - i) as nat);
        let low: u8 = (rest % 256) as u8;
        buf.push(low);
        rest = rest / 256;
        i = i + 1;
        assert(buf@ + le_bytes(rest as nat, (size - i) as nat) =~= before + tail);
    }
    assert(buf@ =~= le_bytes(value as nat, size as nat));
    dst.write_bytes(buf.as_slice())
}

/// Reads the number whose little-endian bytes are `blob`, of 16 bytes at
/// most.
pub fn read_le(blob: &[u8]) -> (r: u128)
    requires
        blob@.len() <= 16,
    ensures
        r == le_value(blob@),
        r < pow256(blob@.len()),
{
    let n: usize = blob.len();
    let mut acc: u128 = 0;
    let mut i: usize = n;
    assert(blob@.subrange(n as int, n as int) =~= Seq::<u8>::empty());
    while i > 0
        invariant
            i <= n,
            n == blob@.len(),
            n <= 16,
            acc == le_value(blob@.subrange(i as int, n as int)),
            acc < pow256((n - i) as nat),
        decreases i,
    {
        proof {
            lemma_pow256_monotonic((n - i + 1) as nat, 16);
            lemma_pow256_values();
            let longer = blob@.subrange(i - 1, n as int);
            assert(longer.drop_first() =~= blob@.subrange(i as int, n as int));
            assert(longer[0] == blob@[i - 1]);
        }
        i = i - 1;
        acc = acc * 256 + blob[i] as u128;
    }
    assert(blob@.subrange(0, n as int) =~= blob@);
    acc
}

impl Primitive for () {
    open spec fn layout() -> Layout {
        Layout::plain(0)
    }

    open spec fn wf(&self) -> bool {
        true
    }

    /// The unit value takes no bytes.
    open spec fn bytes(&self) -> Seq<u8> {
        Seq::empty()
    }

    proof fn lemma_size(&self) {
    }

    fn blob_layout() -> (r: BlobLayout) {
        BlobLayout::new(0)
    }

    fn encode_blob<W: WriteBlob>(&self, dst: W) -> (r: Result<W, W::Error>) {
        assert(dst.written() + Seq::<u8>::empty() =~= dst.written());
        Ok(dst)
    }
}

impl Load for () {
    type Error = Infallible;

    open spec fn valid(blob: Seq<u8>) -> bool {
        true
    }

    open spec fn decoded(blob: Seq<u8>) -> Self {
        ()
    }

    proof fn lemma_round_trip(&self) {
    }

    fn validate_blob(blob: &[u8]) -> (r: Result<(), Infallible>) {
        Ok(())
    }

    fn decode_blob(blob: &[u8]) -> (r: Self) {
        ()
    }
}

impl Primitive for u8 {
    open spec fn layout() -> Layout {
        Layout::plain(1)
    }

    open spec fn wf(&self) -> bool {
        true
    }

    /// The 1 little-endian byte of the number.
    open spec fn bytes(&self) -> Seq<u8> {
        le_bytes(*self as nat, 1)
    }

    proof fn lemma_size(&self) {
        lemma_le_bytes_len(*self as nat, 1);
    }

    fn blob_layout() -> (r: BlobLayout) {
        BlobLayout::new(1)
    }

    fn encode_blob<W: WriteBlob>(&self, dst: W) -> (r: Result<W, W::Error>) {
        write_le(dst, *self as u128, 1)
    }
}

impl Load for u8 {
    /// Every blob of 1 byte is a number.
    type Error = Infallible;

    open spec fn valid(blob: Seq<u8>) -> bool {
        true
    }

    open spec fn decoded(blob: Seq<u8>) -> Self {
        le_value(blob) as u8
    }

    proof fn lemma_round_trip(&self) {
        lemma_pow256_values();
        lemma_le_round_trip(*self as nat, 1);
    }

    fn validate_blob(blob: &[u8]) -> (r: Result<(), Infallible>) {
        Ok(())
    }

    fn decode_blob(blob: &[u8]) -> (r: Self) {
        proof {
            lemma_pow256_values();
        }
        read_le(blob) as u8
    }
}

impl Primitive for u16 {
    open spec fn layout() -> Layout {
        Layout::plain(2)
    }

    open spec fn wf(&self) -> bool {
        true
    }

    /// The 2 little-endian bytes of the number.
    open spec fn bytes(&self) -> Seq<u8> {
        le_bytes(*self as nat, 2)
    }

    proof fn lemma_size(&self) {
        lemma_le_bytes_len(*self as nat, 2);
    }

    fn blob_layout() -> (r: BlobLayout) {
        BlobLayout::new(2)
    }

    fn encode_blob<W: WriteBlob>(&self, dst: W) -> (r: Result<W, W::Error>) {
        write_le(dst, *self as u128, 2)
    }
}

impl Load for u16 {
    /// Every blob of 2 bytes is a number.
    type Error = Infallible;

    open spec fn valid(blob: Seq<u8>) -> bool {
        true
    }

    open spec fn decoded(blob: Seq<u8>) -> Self {
        le_value(blob) as u16
    }

    proof fn lemma_round_trip(&self) {
        lemma_pow256_values();
        lemma_le_round_trip(*self as nat, 2);
    }

    fn validate_blob(blob: &[u8]) -> (r: Result<(), Infallible>) {
        Ok(())
    }

    fn decode_blob(blob: &[u8]) -> (r: Self) {
        proof {
            lemma_pow256_values();
        }
        read_le(blob) as u16
    }
}

impl Primitive for u32 {
    open spec fn layout() -> Layout {
        Layout::plain(4)
    }

    open spec fn wf(&self) -> bool {
        true
    }

    /// The 4 little-endian bytes of the number.
    open spec fn bytes(&self) -> Seq<u8> {
        le_bytes(*self as nat, 4)
    }

    proof fn lemma_size(&self) {
        lemma_le_bytes_len(*self as nat, 4);
    }

    fn blob_layout() -> (r: BlobLayout) {
        BlobLayout::new(4)
    }

    fn encode_blob<W: WriteBlob>(&self, dst: W) -> (r: Result<W, W::Error>) {
        write_le(dst, *self as u128, 4)
    }
}

impl Load for u32 {
    /// Every blob of 4 bytes is a number.
    type Error = Infallible;

    open spec fn valid(blob: Seq<u8>) -> bool {
        true
    }

    open spec fn decoded(blob: Seq<u8>) -> Self {
        le_value(blob) as u32
    }

    proof fn lemma_round_trip(&self) {
        lemma_pow256_values();
        lemma_le_round_trip(*self as nat, 4);
    }

    fn validate_blob(blob: &[u8]) -> (r: Result<(), Infallible>) {
        Ok(())
    }

    fn decode_blob(blob: &[u8]) -> (r: Self) {
        proof {
            lemma_pow256_values();
        }
        read_le(blob) as u32
    }
}

impl Primitive for u64 {
    open spec fn layout() -> Layout {
        Layout::plain(8)
    }

    open spec fn wf(&self) -> bool {
        true
    }

    /// The 8 little-endian bytes of the number.
    open spec fn bytes(&self) -> Seq<u8> {
        le_bytes(*self as nat, 8)
    }

    proof fn lemma_size(&self) {
        lemma_le_bytes_len(*self as nat, 8);
    }

    fn blob_layout() -> (r: BlobLayout) {
        BlobLayout::new(8)
    }

    fn encode_blob<W: WriteBlob>(&self, dst: W) -> (r: Result<W, W::Error>) {
        write_le(dst, *self as u128, 8)
    }
}

impl Load for u64 {
    /// Every blob of 8 bytes is a number.
    type Error = Infallible;

    open spec fn valid(blob: Seq<u8>) -> bool {
        true
    }

    open spec fn decoded(blob: Seq<u8>) -> Self {
        le_value(blob) as u64
    }

    proof fn lemma_round_trip(&self) {
        lemma_pow256_values();
        lemma_le_round_trip(*self as nat, 8);
    }

    fn validate_blob(blob: &[u8]) -> (r: Result<(), Infallible>) {
        Ok(())
    }

    fn decode_blob(blob: &[u8]) -> (r: Self) {
        proof {
            lemma_pow256_values();
        }
        read_le(blob) as u64
    }
}

impl Primitive for u128 {
    open spec fn layout() -> Layout {
        Layout::plain(16)
    }

    open spec fn wf(&self) -> bool {
        true
    }

    /// The 16 little-endian bytes of the number.
    open spec fn bytes(&self) -> Seq<u8> {
        le_bytes(*self as nat, 16)
    }

    proof fn lemma_size(&self) {
        lemma_le_bytes_len(*self as nat, 16);
    }

    fn blob_layout() -> (r: BlobLayout) {
        BlobLayout::new(16)
    }

    fn encode_blob<W: WriteBlob>(&self, dst: W) -> (r: Result<W, W::Error>) {
        write_le(dst, *self as u128, 16)
    }
}

impl Load for u128 {
    /// Every blob of 16 bytes is a number.
    type Error = Infallible;

    open spec fn valid(blob: Seq<u8>) -> bool {
        true
    }

    open spec fn decoded(blob: Seq<u8>) -> Self {
        le_value(blob) as u128
    }

    proof fn lemma_round_trip(&self) {
        lemma_pow256_values();
        lemma_le_round_trip(*self as nat, 16);
    }

    fn validate_blob(blob: &[u8]) -> (r: Result<(), Infallible>) {
        Ok(())
    }

    fn decode_blob(blob: &[u8]) -> (r: Self) {
        proof {
            lemma_pow256_values();
        }
        read_le(blob) as u128
    }
}

impl Primitive for i8 {
    open spec fn layout() -> Layout {
        Layout::plain(1)
    }

    open spec fn wf(&self) -> bool {
        true
    }

    /// The 1 little-endian byte of the number in two's complement.
    open spec fn bytes(&self) -> Seq<u8> {
        le_bytes(unsigned_of(*self as int, 1), 1)
    }

    proof fn lemma_size(&self) {
        lemma_le_bytes_len(unsigned_of(*self as int, 1), 1);
    }

    fn blob_layout() -> (r: BlobLayout) {
        BlobLayout::new(1)
    }

    fn encode_blob<W: WriteBlob>(&self, dst: W) -> (r: Result<W, W::Error>) {
        proof {
            lemma_pow256_values();
        }
        let word: u128 = if *self >= 0 {
            *self as u128
        } else {
            (*self as i128 + 0x100) as u128
        };
        write_le(dst, word, 1)
    }
}

impl Load for i8 {
    /// Every blob of 1 byte is a number.
    type Error = Infallible;

    open spec fn valid(blob: Seq<u8>) -> bool {
        true
    }

    open spec fn decoded(blob: Seq<u8>) -> Self {
        signed_of(le_value(blob), 1) as i8
    }

    proof fn lemma_round_trip(&self) {
        lemma_pow256_values();
        lemma_signed_round_trip(*self as int, 1);
        lemma_le_round_trip(unsigned_of(*self as int, 1), 1);
    }

    fn validate_blob(blob: &[u8]) -> (r: Result<(), Infallible>) {
        Ok(())
    }

    fn decode_blob(blob: &[u8]) -> (r: Self) {
        proof {
            lemma_pow256_values();
        }
        let word: u128 = read_le(blob);
        if word < 0x80 {
            word as i8
        } else {
            (word as i128 - 0x100) as i8
        }
    }
}

impl Primitive for i16 {
    open spec fn layout() -> Layout {
        Layout::plain(2)
    }

    open spec fn wf(&self) -> bool {
        true
    }

    /// The 2 little-endian bytes of the number in two's complement.
    open spec fn bytes(&self) -> Seq<u8> {
        le_bytes(unsigned_of(*self as int, 2), 2)
    }

    proof fn lemma_size(&self) {
        lemma_le_bytes_len(unsigned_of(*self as int, 2), 2);
    }

    fn blob_layout() -> (r: BlobLayout) {
        BlobLayout::new(2)
    }

    fn encode_blob<W: WriteBlob>(&self, dst: W) -> (r: Result<W, W::Error>) {
        proof {
            lemma_pow256_values();
        }
        let word: u128 = if *self >= 0 {
            *self as u128
        } else {
            (*self as i128 + 0x10000) as u128
        };
        write_le(dst, word, 2)
    }
}

impl Load for i16 {
    /// Every blob of 2 bytes is a number.
    type Error = Infallible;

    open spec fn valid(blob: Seq<u8>) -> bool {
        true
    }

    open spec fn decoded(blob: Seq<u8>) -> Self {
        signed_of(le_value(blob), 2) as i16
    }

    proof fn lemma_round_trip(&self) {
        lemma_pow256_values();
        lemma_signed_round_trip(*self as int, 2);
        lemma_le_round_trip(unsigned_of(*self as int, 2), 2);
    }

    fn validate_blob(blob: &[u8]) -> (r: Result<(), Infallible>) {
        Ok(())
    }

    fn decode_blob(blob: &[u8]) -> (r: Self) {
        proof {
            lemma_pow256_values();
        }
        let word: u128 = read_le(blob);
        if word < 0x8000 {
            word as i16
        } else {
            (word as i128 - 0x10000) as i16
        }
    }
}

impl Primitive for i32 {
    open spec fn layout() -> Layout {
        Layout::plain(4)
    }

    open spec fn wf(&self) -> bool {
        true
    }

    /// The 4 little-endian bytes of the number in two's complement.
    open spec fn bytes(&self) -> Seq<u8> {
        le_bytes(unsigned_of(*self as int, 4), 4)
    }

    proof fn lemma_size(&self) {
        lemma_le_bytes_len(unsigned_of(*self as int, 4), 4);
    }

    fn blob_layout() -> (r: BlobLayout) {
        BlobLayout::new(4)
    }

    fn encode_blob<W: WriteBlob>(&self, dst: W) -> (r: Result<W, W::Error>) {
        proof {
            lemma_pow256_values();
        }
        let word: u128 = if *self >= 0 {
            *self as u128
        } else {
            (*self as i128 + 0x100000000) as u128
        };
        write_le(dst, word, 4)
    }
}

impl Load for i32 {
    /// Every blob of 4 bytes is a number.
    type Error = Infallible;

    open spec fn valid(blob: Seq<u8>) -> bool {
        true
    }

    open spec fn decoded(blob: Seq<u8>) -> Self {
        signed_of(le_value(blob), 4) as i32
    }

    proof fn lemma_round_trip(&self) {
        lemma_pow256_values();
        lemma_signed_round_trip(*self as int, 4);
        lemma_le_round_trip(unsigned_of(*self as int, 4), 4);
    }

    fn validate_blob(blob: &[u8]) -> (r: Result<(), Infallible>) {
        Ok(())
    }

    fn decode_blob(blob: &[u8]) -> (r: Self) {
        proof {
            lemma_pow256_values();
        }
        let word: u128 = read_le(blob);
        if word < 0x80000000 {
            word as i32
        } else {
            (word as i128 - 0x100000000) as i32
        }
    }
}

impl Primitive for i64 {
    open spec fn layout() -> Layout {
        Layout::plain(8)
    }

    open spec fn wf(&self) -> bool {
        true
    }

    /// The 8 little-endian bytes of the number in two's complement.
    open spec fn bytes(&self) -> Seq<u8> {
        le_bytes(unsigned_of(*self as int, 8), 8)
    }

    proof fn lemma_size(&self) {
        lemma_le_bytes_len(unsigned_of(*self as int, 8), 8);
    }

    fn blob_layout() -> (r: BlobLayout) {
        BlobLayout::new(8)
    }

    fn encode_blob<W: WriteBlob>(&self, dst: W) -> (r: Result<W, W::Error>) {
        proof {
            lemma_pow256_values();
        }
        let word: u128 = if *self >= 0 {
            *self as u128
        } else {
            (*self as i128 + 0x10000000000000000) as u128
        };
        write_le(dst, word, 8)
    }
}

impl Load for i64 {
    /// Every blob of 8 bytes is a number.
    type Error = Infallible;

    open spec fn valid(blob: Seq<u8>) -> bool {
        true
    }

    open spec fn decoded(blob: Seq<u8>) -> Self {
        signed_of(le_value(blob), 8) as i64
    }

    proof fn lemma_round_trip(&self) {
        lemma_pow256_values();
        lemma_signed_round_trip(*self as int, 8);
        lemma_le_round_trip(unsigned_of(*self as int, 8), 8);
    }

    fn validate_blob(blob: &[u8]) -> (r: Result<(), Infallible>) {
        Ok(())
    }

    fn decode_blob(blob: &[u8]) -> (r: Self) {
        proof {
            lemma_pow256_values();
        }
        let word: u128 = read_le(blob);
        if word < 0x8000000000000000 {
            word as i64
        } else {
            (word as i128 - 0x10000000000000000) as i64
        }
    }
}

impl Primitive for i128 {
    open spec fn layout() -> Layout {
        Layout::plain(16)
    }

    open spec fn wf(&self) -> bool {
        true
    }

    /// The 16 little-endian bytes of the number in two's complement.
    open spec fn bytes(&self) -> Seq<u8> {
        le_bytes(unsigned_of(*self as int, 16), 16)
    }

    proof fn lemma_size(&self) {
        lemma_le_bytes_len(unsigned_of(*self as int, 16), 16);
    }

    fn blob_layout() -> (r: BlobLayout) {
        BlobLayout::new(16)
    }

    fn encode_blob<W: WriteBlob>(&self, dst: W) -> (r: Result<W, W::Error>) {
        proof {
            lemma_pow256_values();
        }
        let word: u128 = if *self >= 0 {
            *self as u128
        } else {
            ((*self + i128::MAX) + 1) as u128 + 0x80000000000000000000000000000000
        };
        write_le(dst, word, 16)
    }
}

impl Load for i128 {
    /// Every blob of 16 bytes is a number.
    type Error = Infallible;

    open spec fn valid(blob: Seq<u8>) -> bool {
        true
    }

    open spec fn decoded(blob: Seq<u8>) -> Self {
        signed_of(le_value(blob), 16) as i128
    }

    proof fn lemma_round_trip(&self) {
        lemma_pow256_values();
        lemma_signed_round_trip(*self as int, 16);
        lemma_le_round_trip(unsigned_of(*self as int, 16), 16);
    }

    fn validate_blob(blob: &[u8]) -> (r: Result<(), Infallible>) {
        Ok(())
    }

    fn decode_blob(blob: &[u8]) -> (r: Self) {
        proof {
            lemma_pow256_values();
        }
        let word: u128 = read_le(blob);
        if word < 0x80000000000000000000000000000000 {
            word as i128
        } else {
            ((word - 0x80000000000000000000000000000000) as i128 - i128::MAX) - 1
        }
    }
}

} // verus!
