//! Signed 16-bit PCM samples and their little-endian byte form.
use vstd::prelude::*;

verus! {

/// The unsigned 16-bit pattern (two's complement) of a sample.
pub open spec fn sample_bits(x: i16) -> int {
    if x < 0 {
        x + 65536
    } else {
        x as int
    }
}

/// Byte `k` (0 = low, 1 = high) of a sample in little-endian order.
pub open spec fn sample_byte(x: i16, k: int) -> u8 {
    if k == 0 {
        (sample_bits(x) % 256) as u8
    } else {
        (sample_bits(x) / 256) as u8
    }
}

/// The sample whose little-endian bytes are `lo`, `hi`.
pub open spec fn sample_value(lo: u8, hi: u8) -> int {
    let u = lo + 256 * hi;
    if u >= 32768 {
        u - 65536
    } else {
        u
    }
}

/// Samples written out as consecutive little-endian byte pairs.
pub open spec fn pcm_bytes(s: Seq<i16>) -> Seq<u8> {
    Seq::new((2 * s.len()) as nat, |j: int| sample_byte(s[j / 2], j % 2))
}

/// Samples read back from consecutive little-endian byte pairs; a trailing odd
/// byte is dropped.
pub open spec fn le_samples(b: Seq<u8>) -> Seq<i16> {
    Seq::new((b.len() / 2) as nat, |k: int| sample_value(b[2 * k], b[2 * k + 1]) as i16)
}

/// Samples read back from bytes, whole stereo pairs (four bytes) only:
/// a trailing partial pair is dropped.
pub open spec fn pcm_samples(b: Seq<u8>) -> Seq<i16> {
    Seq::new((b.len() / 4 * 2) as nat, |k: int| sample_value(b[2 * k], b[2 * k + 1]) as i16)
}

/// Reading a sample back from its two bytes gives the sample.
pub proof fn lemma_sample_bytes_round_trip(x: i16)
    ensures
        sample_value(sample_byte(x, 0), sample_byte(x, 1)) == x as int,
        sample_value(sample_byte(x, 0), sample_byte(x, 1)) as i16 == x,
{
    let u = sample_bits(x);
    assert(0 <= u < 65536);
    vstd::arithmetic::div_mod::lemma_fundamental_div_mod(u, 256);
    assert(0 <= u % 256 < 256);
    assert(0 <= u / 256 < 256);
}

/// Bytes of a run of whole stereo pairs read back as the same samples.
pub proof fn lemma_pcm_round_trip(s: Seq<i16>)
    requires
        s.len() % 2 == 0,
    ensures
        pcm_samples(pcm_bytes(s)) == s,
{
    let b = pcm_bytes(s);
    assert(b.len() / 4 * 2 == s.len());
    assert forall|k: int| 0 <= k < s.len() implies #[trigger] pcm_samples(b)[k] == s[k] by {
        assert((2 * k) / 2 == k && (2 * k) % 2 == 0);
        assert((2 * k + 1) / 2 == k && (2 * k + 1) % 2 == 1);
        lemma_sample_bytes_round_trip(s[k]);
    }
    assert(pcm_samples(b) =~= s);
}

/// Writing out the sample read from two bytes gives back those bytes.
pub proof fn lemma_bytes_sample_round_trip(lo: u8, hi: u8)
    ensures
        sample_byte(sample_value(lo, hi) as i16, 0) == lo,
        sample_byte(sample_value(lo, hi) as i16, 1) == hi,
{
    let u: int = lo + 256 * hi;
    let x = sample_value(lo, hi) as i16;
    assert(sample_bits(x) == u);
    assert(u % 256 == lo as int && u / 256 == hi as int) by {
        vstd::arithmetic::div_mod::lemma_fundamental_div_mod_converse(u, 256, hi as int, lo as int);
    }
}

/// Whole stereo pairs read from bytes and written back give the same bytes.
pub proof fn lemma_pcm_bytes_round_trip(b: Seq<u8>)
    requires
        b.len() % 4 == 0,
    ensures
        pcm_bytes(pcm_samples(b)) == b,
{
    let s = pcm_samples(b);
    assert(s.len() * 2 == b.len());
    assert forall|j: int| 0 <= j < b.len() implies #[trigger] pcm_bytes(s)[j] == b[j] by {
        let k = j / 2;
        lemma_bytes_sample_round_trip(b[2 * k], b[2 * k + 1]);
        if j % 2 == 0 {
            assert(j == 2 * k);
        } else {
            assert(j == 2 * k + 1);
        }
    }
    assert(pcm_bytes(s) =~= b);
}

/// Bytes of any run of samples read back pair by pair as the same samples.
pub proof fn lemma_le_samples_round_trip(s: Seq<i16>)
    ensures
        le_samples(pcm_bytes(s)) == s,
{
    let b = pcm_bytes(s);
    assert forall|k: int| 0 <= k < s.len() implies #[trigger] le_samples(b)[k] == s[k] by {
        assert((2 * k) / 2 == k && (2 * k) % 2 == 0);
        assert((2 * k + 1) / 2 == k && (2 * k + 1) % 2 == 1);
        lemma_sample_bytes_round_trip(s[k]);
    }
    assert(le_samples(b) =~= s);
}

/// The little-endian bytes of each sample, in order.
pub fn samples_to_bytes(samples: &Vec<i16>) -> (r: Vec<u8>)
    requires
        samples@.len() <= usize::MAX / 2,
    ensures
        r@ == pcm_bytes(samples@),
{
    let mut out: Vec<u8> = Vec::new();
    let mut i: usize = 0;
    while i < samples.len()
        invariant
            i <= samples@.len() <= usize::MAX / 2,
            out@.len() == 2 * i,
            forall|j: int| 0 <= j < 2 * i ==> out@[j] == sample_byte(samples@[j / 2], j % 2),
        decreases samples@.len() - i,
    {
        let x: i16 = samples[i];
        let u: u32 = if x < 0 {
            (x as i32 + 65536) as u32
        } else {
            x as u32
        };
        out.push((u % 256) as u8);
        out.push((u / 256) as u8);
        proof {
            assert forall|j: int| 0 <= j < 2 * i + 2 implies out@[j] == sample_byte(
                samples@[j / 2],
                j % 2,
            ) by {
                if j >= 2 * i {
                    assert(j / 2 == i as int);
                }
            }
        }
        i = i + 1;
    }
    assert(out@ =~= pcm_bytes(samples@));
    out
}

/// The `count` samples stored as little-endian byte pairs from offset `start`.
pub fn decode_samples(bytes: &Vec<u8>, start: usize, count: usize) -> (r: Vec<i16>)
    requires
        start + 2 * count <= bytes@.len(),
    ensures
        r@ == le_samples(bytes@.subrange(start as int, start + 2 * count)),
{
    let len: usize = bytes.len();
    let mut out: Vec<i16> = Vec::new();
    let mut k: usize = 0;
    while k < count
        invariant
            start + 2 * count <= bytes@.len() == len,
            k <= count,
            out@.len() == k,
            forall|j: int|
                0 <= j < k ==> out@[j] == #[trigger] le_samples(
                    bytes@.subrange(start as int, start + 2 * count),
                )[j],
        decreases count - k,
    {
        let lo: u8 = bytes[start + 2 * k];
        let hi: u8 = bytes[start + 2 * k + 1];
        let u: i32 = lo as i32 + 256 * hi as i32;
        let x: i16 = if u >= 32768 {
            (u - 65536) as i16
        } else {
            u as i16
        };
        out.push(x);
        k = k + 1;
    }
    assert(out@ =~= le_samples(bytes@.subrange(start as int, start + 2 * count)));
    out
}

/// The samples held in `bytes`, read as whole stereo pairs.
pub fn bytes_to_samples(bytes: &Vec<u8>) -> (r: Vec<i16>)
    ensures
        r@ == pcm_samples(bytes@),
{
    let n: usize = bytes.len() / 4 * 2;
    assert(2 * n <= bytes@.len()) by (nonlinear_arith)
        requires
            n == bytes@.len() / 4 * 2,
    ;
    let out = decode_samples(bytes, 0, n);
    assert(out@ =~= pcm_samples(bytes@));
    out
}

} // verus!
