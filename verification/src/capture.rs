//! Choice of the microphone configuration. The protocol's audio is 16 kHz
//! mono; the clients capture at a rate that is a whole multiple of it and
//! convert themselves (downmix, then average groups of samples).

use vstd::prelude::*;

verus! {

/// Sample rate of the protocol's audio (Hz).
pub const TARGET_RATE: u32 = 16000;

/// Capture rates tried, in order of preference.
pub open spec fn preferred_rates() -> Seq<u32> {
    seq![16000u32, 32000u32, 48000u32, 96000u32]
}

/// Whether the rate range `r` (inclusive bounds) allows `rate`.
pub open spec fn allows(r: (u32, u32), rate: u32) -> bool {
    r.0 <= rate <= r.1
}

/// Some range of `ranges` allows `rate`.
pub open spec fn some_allows(ranges: Seq<(u32, u32)>, rate: u32) -> bool {
    exists|k: int| 0 <= k < ranges.len() && allows(#[trigger] ranges[k], rate)
}

fn first_allowing(ranges: &[(u32, u32)], rate: u32) -> (k: Option<usize>)
    ensures
        k is None ==> !some_allows(ranges@, rate),
        k matches Some(i) ==> i < ranges@.len() && allows(ranges@[i as int], rate) && forall|j: int|
            0 <= j < i ==> !allows(#[trigger] ranges@[j], rate),
{
    let mut i: usize = 0;
    while i < ranges.len()
        invariant
            i <= ranges@.len(),
            forall|j: int| 0 <= j < i ==> !allows(#[trigger] ranges@[j], rate),
        decreases ranges@.len() - i,
    {
        let (lo, hi) = ranges[i];
        if lo <= rate && rate <= hi {
            return Some(i);
        }
        i = i + 1;
    }
    None
}

/// The capture configuration among `ranges` (the rate ranges of the
/// device's 32-bit float configurations, in the device's order): the first
/// preferred rate that some configuration allows, with the first such
/// configuration. `None` when no preferred rate is allowed (the device's
/// default configuration is then used).
pub fn choose_input(ranges: &[(u32, u32)]) -> (c: Option<(usize, u32)>)
    ensures
        c is None ==> forall|p: int|
            0 <= p < 4 ==> !some_allows(ranges@, #[trigger] preferred_rates()[p]),
        c matches Some((i, rate)) ==> exists|p: int|
            0 <= p < 4 && preferred_rates()[p] == rate && (forall|q: int|
                0 <= q < p ==> !some_allows(ranges@, #[trigger] preferred_rates()[q]))
                && i < ranges@.len() && allows(ranges@[i as int], rate) && (forall|j: int|
                0 <= j < i ==> !allows(#[trigger] ranges@[j], rate)),
{
    let rates: [u32; 4] = [16000, 32000, 48000, 96000];
    let mut p: usize = 0;
    while p < 4
        invariant
            p <= 4,
            rates@ == preferred_rates(),
            forall|q: int| 0 <= q < p ==> !some_allows(ranges@, #[trigger] preferred_rates()[q]),
        decreases 4 - p,
    {
        let rate = rates[p];
        match first_allowing(ranges, rate) {
            Some(i) => {
                assert(preferred_rates()[p as int] == rate);
                return Some((i, rate));
            },
            None => {},
        }
        p = p + 1;
    }
    None
}

/// How many captured frames make one 16 kHz sample: `None` when the
/// capture rate is not a whole multiple of 16 kHz.
pub fn decimation_factor(rate: u32) -> (f: Option<usize>)
    ensures
        rate % TARGET_RATE == 0 ==> f == Some((rate / TARGET_RATE) as usize),
        rate % TARGET_RATE != 0 ==> f is None,
{
    if rate % TARGET_RATE == 0 {
        Some((rate / TARGET_RATE) as usize)
    } else {
        None
    }
}

} // verus!
