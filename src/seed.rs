use vstd::prelude::*;

verus! {

/// The seed from noise samples: each sample shifts the seed left by four bits
/// and fills them with its own low four bits, so the most recent sample ends in
/// the lowest nibble and the oldest bits fall off the top.
pub open spec fn seed_of(samples: Seq<u16>) -> u64
    decreases samples.len(),
{
    if samples.len() == 0 {
        0
    } else {
        (seed_of(samples.drop_last()) << 4u64) | (samples.last() as u64 & 0xfu64)
    }
}

/// A random seed from the low bits of analog noise samples (a floating input
/// read by the ADC).
pub fn seed(samples: &[u16]) -> (r: u64)
    ensures
        r == seed_of(samples@),
{
    let mut acc: u64 = 0;
    let mut i: usize = 0;
    while i < samples.len()
        invariant
            i <= samples@.len(),
            acc == seed_of(samples@.take(i as int)),
        decreases samples@.len() - i,
    {
        proof {
            assert(samples@.take(i + 1).drop_last() =~= samples@.take(i as int));
        }
        acc = (acc << 4u64) | (samples[i] as u64 & 0xfu64);
        i = i + 1;
    }
    assert(samples@.take(i as int) =~= samples@);
    acc
}

} // verus!
