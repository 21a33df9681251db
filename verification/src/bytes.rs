//! Numbers and audio samples as bytes.
use vstd::prelude::*;

verus! {

/// The four bytes of `x`, least significant first.
#[verifier::opaque]
pub open spec fn le32(x: u32) -> Seq<u8> {
    seq![
        (x % 256) as u8,
        (x / 256 % 256) as u8,
        (x / 65536 % 256) as u8,
        (x / 16777216) as u8,
    ]
}

/// The number whose four bytes, least significant first, stand in `b`.
#[verifier::opaque]
pub open spec fn le32_value(b: Seq<u8>) -> u32
    recommends
        b.len() == 4,
{
    (b[0] + 256 * b[1] + 65536 * b[2] + 16777216 * b[3]) as u32
}

/// Audio on the wire: each sample's four bytes, one sample behind the other.
#[verifier::opaque]
pub open spec fn samples_bytes(samples: Seq<u32>) -> Seq<u8> {
    Seq::new(4 * samples.len(), |i: int| le32(samples[i / 4])[i % 4])
}

/// The samples whose bytes stand in `b`.
#[verifier::opaque]
pub open spec fn samples_of(b: Seq<u8>) -> Seq<u32> {
    Seq::new(b.len() / 4, |i: int| le32_value(b.subrange(4 * i, 4 * i + 4)))
}

/// A number takes four bytes.
pub broadcast proof fn lemma_le32_len(x: u32)
    ensures
        (#[trigger] le32(x)).len() == 4,
{
    reveal(le32);
}

/// Samples take four bytes each.
pub broadcast proof fn lemma_samples_len(samples: Seq<u32>)
    ensures
        (#[trigger] samples_bytes(samples)).len() == 4 * samples.len(),
{
    reveal(samples_bytes);
}

/// A number is found again in its four bytes.
pub proof fn lemma_le32_value_le32(x: u32)
    ensures
        le32_value(le32(x)) == x,
{
    reveal(le32);
    reveal(le32_value);
}

/// Samples are found again in their bytes.
pub proof fn lemma_samples_of_bytes(samples: Seq<u32>)
    ensures
        samples_of(samples_bytes(samples)) == samples,
{
    reveal(samples_bytes);
    reveal(samples_of);
    let b = samples_bytes(samples);
    assert forall|i: int| 0 <= i < samples.len() implies samples_of(b)[i] == samples[i] by {
        lemma_le32_value_le32(samples[i]);
        lemma_le32_len(samples[i]);
        assert(b.subrange(4 * i, 4 * i + 4) =~= le32(samples[i]));
    }
    assert(samples_of(b) =~= samples);
}

} // verus!
