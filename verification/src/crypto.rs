//! Hash codes and their canonical bytes.

use vstd::prelude::*;

verus! {

/// The four bytes of `x`, least significant first.
pub open spec fn spec_u32_le(x: u32) -> Seq<u8> {
    seq![
        (x % 256) as u8,
        ((x / 0x100) % 256) as u8,
        ((x / 0x1_0000) % 256) as u8,
        (x / 0x100_0000) as u8,
    ]
}

/// The integer whose least significant byte is `a` and whose most significant is `d`.
pub open spec fn spec_u32_from_le(a: u8, b: u8, c: u8, d: u8) -> u32 {
    (a + b * 0x100 + c * 0x1_0000 + d * 0x100_0000) as u32
}

/// The little-endian form loses nothing, in either direction.
pub proof fn lemma_u32_le_roundtrip(x: u32, a: u8, b: u8, c: u8, d: u8)
    ensures
        spec_u32_from_le(
            spec_u32_le(x)[0],
            spec_u32_le(x)[1],
            spec_u32_le(x)[2],
            spec_u32_le(x)[3],
        ) == x,
        spec_u32_le(spec_u32_from_le(a, b, c, d)) == seq![a, b, c, d],
{
    assert((x % 256) + ((x / 0x100) % 256) * 0x100 + ((x / 0x1_0000) % 256) * 0x1_0000 + (x
        / 0x100_0000) * 0x100_0000 == x) by (bit_vector);
    assert(x / 0x100_0000 < 256) by (bit_vector);
    let v: u32 = spec_u32_from_le(a, b, c, d);
    assert(v == a + b * 0x100 + c * 0x1_0000 + d * 0x100_0000);
    assert(v % 256 == a && (v / 0x100) % 256 == b && (v / 0x1_0000) % 256 == c && v / 0x100_0000
        == d) by (bit_vector)
        requires
            v == a + b * 0x100 + c * 0x1_0000 + d * 0x100_0000,
    ;
    assert(spec_u32_le(v) =~= seq![a, b, c, d]);
}

/// How many bytes the canonical form of a hash code has.
pub const HASH_CODE_LEN: usize = 64;

/// A hash code of 512 bits, held as 16 words of 32 bits.
#[derive(Clone, Copy, Debug, Eq, Hash, PartialEq)]
pub struct HashCode {
    pub bits: [u32; 16],
}

/// The canonical bytes of the first `n` words of `bits`: word after word, each
/// with its least significant byte first.
pub open spec fn spec_words_le(bits: Seq<u32>, n: int) -> Seq<u8>
    decreases n,
{
    if n <= 0 {
        Seq::empty()
    } else {
        spec_words_le(bits, n - 1) + spec_u32_le(bits[n - 1])
    }
}

/// The words that the first `4 * n` bytes of `bytes` stand for.
pub open spec fn spec_words_from_le(bytes: Seq<u8>, n: int) -> Seq<u32>
    decreases n,
{
    if n <= 0 {
        Seq::empty()
    } else {
        spec_words_from_le(bytes, n - 1).push(
            spec_u32_from_le(
                bytes[4 * (n - 1)],
                bytes[4 * (n - 1) + 1],
                bytes[4 * (n - 1) + 2],
                bytes[4 * (n - 1) + 3],
            ),
        )
    }
}

/// The bytes of `n` words are `4 * n` bytes, and byte `4 * i + j` is byte `j` of word `i`.
pub proof fn lemma_words_le(bits: Seq<u32>, n: int)
    requires
        0 <= n <= bits.len(),
    ensures
        spec_words_le(bits, n).len() == 4 * n,
        forall|i: int, j: int|
            0 <= i < n && 0 <= j < 4 ==> #[trigger] spec_words_le(bits, n)[4 * i + j]
                == spec_u32_le(bits[i])[j],
    decreases n,
{
    if n > 0 {
        lemma_words_le(bits, n - 1);
        assert forall|i: int, j: int| 0 <= i < n && 0 <= j < 4 implies #[trigger] spec_words_le(
            bits,
            n,
        )[4 * i + j] == spec_u32_le(bits[i])[j] by {
            if i < n - 1 {
                assert(spec_words_le(bits, n)[4 * i + j] == spec_words_le(bits, n - 1)[4 * i
                    + j]);
            } else {
                assert(spec_words_le(bits, n)[4 * i + j] == spec_u32_le(bits[n - 1])[j]);
            }
        }
    }
}

pub proof fn lemma_words_from_le(bytes: Seq<u8>, n: int)
    requires
        0 <= n,
    ensures
        spec_words_from_le(bytes, n).len() == n,
        forall|i: int|
            0 <= i < n ==> #[trigger] spec_words_from_le(bytes, n)[i] == spec_u32_from_le(
                bytes[4 * i],
                bytes[4 * i + 1],
                bytes[4 * i + 2],
                bytes[4 * i + 3],
            ),
    decreases n,
{
    if n > 0 {
        lemma_words_from_le(bytes, n - 1);
    }
}

impl HashCode {
    /// The canonical form: 64 bytes.
    pub open spec fn spec_to_bytes(self) -> Seq<u8> {
        spec_words_le(self.bits@, 16)
    }

    /// The hash code whose every bit is zero.
    pub fn new() -> (h: Self)
        ensures
            forall|i: int| 0 <= i < 16 ==> h.bits@[i] == 0,
    {
        HashCode { bits: [0, 0, 0, 0, 0, 0, 0, 0, 0, 0, 0, 0, 0, 0, 0, 0] }
    }

    pub fn from_inner(bits: [u32; 16]) -> (h: Self)
        ensures
            h.bits == bits,
    {
        HashCode { bits }
    }

    pub fn raw_data(&self) -> (bits: &[u32; 16])
        ensures
            *bits == self.bits,
    {
        &self.bits
    }

    pub fn raw_data_mut(&mut self) -> (bits: &mut [u32; 16])
        ensures
            *bits == old(self).bits,
            final(self).bits == *final(bits),
    {
        &mut self.bits
    }

    /// The canonical bytes of the hash code.
    pub fn to_bytes(&self) -> (out: Vec<u8>)
        ensures
            out@ == self.spec_to_bytes(),
            out@.len() == HASH_CODE_LEN,
    {
        let mut out: Vec<u8> = Vec::new();
        let mut i: usize = 0;
        while i < 16
            invariant
                i <= 16,
                out@ == spec_words_le(self.bits@, i as int),
            decreases 16 - i,
        {
            let x: u32 = self.bits[i];
            out.push((x % 256) as u8);
            out.push(((x / 0x100) % 256) as u8);
            out.push(((x / 0x1_0000) % 256) as u8);
            out.push((x / 0x100_0000) as u8);
            i += 1;
            assert(out@ =~= spec_words_le(self.bits@, i - 1) + spec_u32_le(x));
        }
        proof {
            lemma_words_le(self.bits@, 16);
        }
        out
    }

    /// Reads a hash code from the first 64 bytes of `bytes`; what follows them
    /// is ignored. There is none where `bytes` is shorter.
    pub fn from_bytes(bytes: &[u8]) -> (r: Option<Self>)
        ensures
            r is Some <==> bytes@.len() >= HASH_CODE_LEN,
            r matches Some(h) ==> h.bits@ == spec_words_from_le(bytes@, 16),
    {
        if bytes.len() < HASH_CODE_LEN {
            return None;
        }
        let mut bits: [u32; 16] = [0, 0, 0, 0, 0, 0, 0, 0, 0, 0, 0, 0, 0, 0, 0, 0];
        let mut i: usize = 0;
        while i < 16
            invariant
                i <= 16,
                bytes@.len() >= 64,
                bits@.take(i as int) == spec_words_from_le(bytes@, i as int),
            decreases 16 - i,
        {
            let word: u32 = (bytes[4 * i] as u32) + (bytes[4 * i + 1] as u32) * 0x100 + (bytes[4
                * i + 2] as u32) * 0x1_0000 + (bytes[4 * i + 3] as u32) * 0x100_0000;
            bits[i] = word;
            i += 1;
            assert(bits@.take(i as int) =~= bits@.take(i - 1).push(word));
        }
        assert(bits@.take(16) =~= bits@);
        Some(HashCode { bits })
    }
}

/// A hash code that went to bytes comes back from them unchanged, whatever
/// follows the bytes; and the bytes are 64.
pub proof fn lemma_hash_code_roundtrip(h: HashCode, rest: Seq<u8>)
    ensures
        h.spec_to_bytes().len() == HASH_CODE_LEN,
        spec_words_from_le(h.spec_to_bytes() + rest, 16) == h.bits@,
{
    let b = h.spec_to_bytes();
    lemma_words_le(h.bits@, 16);
    lemma_words_from_le(b + rest, 16);
    assert forall|i: int| 0 <= i < 16 implies spec_words_from_le(b + rest, 16)[i]
        == h.bits@[i] by {
        let x = h.bits@[i];
        lemma_u32_le_roundtrip(x, 0, 0, 0, 0);
        assert((b + rest)[4 * i + 0] == b[4 * i + 0]);
        assert((b + rest)[4 * i + 1] == b[4 * i + 1]);
        assert((b + rest)[4 * i + 2] == b[4 * i + 2]);
        assert((b + rest)[4 * i + 3] == b[4 * i + 3]);
        assert(b[4 * i + 0] == spec_u32_le(x)[0]);
        assert(b[4 * i + 1] == spec_u32_le(x)[1]);
        assert(b[4 * i + 2] == spec_u32_le(x)[2]);
        assert(b[4 * i + 3] == spec_u32_le(x)[3]);
    }
    assert(spec_words_from_le(b + rest, 16) =~= h.bits@);
}

} // verus!
