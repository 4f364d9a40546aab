//! Laws of the derivation, proved once and for all inputs.

use vstd::prelude::*;

use crate::net::{
    lemma_host_count_shift, lemma_popcount_even, lemma_popcount_low_ones, lemma_popcount_of_mask,
    popcount, spec_broadcast, spec_derive, spec_mask_of_prefix, NetworkAnalyze,
};
use vstd::arithmetic::power2::{lemma2_to64, pow2};

verus! {

/// The mask derived from a prefix length carries exactly that many
/// 1-bits, so the prefix length can be read back off the descriptor.
pub proof fn lemma_mask_popcount_is_prefix(ip: u32, p: u32)
    requires
        p <= 32,
    ensures
        popcount(spec_derive(ip, spec_mask_of_prefix(p), p).mask as nat) == p,
{
    lemma_popcount_of_mask(p);
}

/// The network address of every derived descriptor has no bit outside
/// its mask: it is a multiple of the block size.
pub proof fn lemma_network_aligned(ip: u32, mask: u32, p: u32)
    ensures
        spec_derive(ip, mask, p).network & !spec_derive(ip, mask, p).mask == 0,
{
    assert((ip & mask) & !mask == 0u32) by (bit_vector);
}

/// For a block wider than two addresses (prefix length below 31) the
/// usable range runs from the address after the network to the address
/// before the broadcast, whatever the shape of the mask: the mask has
/// fewer than 31 of the 32 bits set, so the network address is not
/// all ones and the broadcast address is not zero, and neither bound
/// wraps around.
pub proof fn lemma_host_range_bounds(ip: u32, mask: u32, p: u32)
    requires
        popcount(mask as nat) == p,
        p < 31,
    ensures
        spec_derive(ip, mask, p).min_host == spec_derive(ip, mask, p).network + 1,
        spec_derive(ip, mask, p).max_host == spec_broadcast(ip, mask) - 1,
{
    lemma_host_count_shift(p);
    lemma_popcount_of_mask(32);
    assert(0xFFFF_FFFFu32 << 0u32 == 0xFFFF_FFFFu32) by (bit_vector);
    assert(mask != 0xFFFF_FFFFu32 ==> (ip & mask) != 0xFFFF_FFFFu32) by (bit_vector);
    assert(mask != 0xFFFF_FFFFu32 ==> ((ip & mask) | !mask) != 0) by (bit_vector);
}

/// For a block wider than two addresses (prefix length below 31) and
/// the contiguous mask of that prefix, the usable range runs from the
/// address after the network to the address before the broadcast, and
/// the host count is exactly the size of that range.
///
/// The last clause holds for contiguous masks only: a mask whose
/// 1-bits have gaps, as the classic form accepts, makes the block
/// size and the bit count of the mask two different things.
pub proof fn lemma_host_range(ip: u32, p: u32)
    requires
        p < 31,
    ensures
        spec_derive(ip, spec_mask_of_prefix(p), p).min_host == spec_derive(
            ip,
            spec_mask_of_prefix(p),
            p,
        ).network + 1,
        spec_derive(ip, spec_mask_of_prefix(p), p).max_host == spec_broadcast(
            ip,
            spec_mask_of_prefix(p),
        ) - 1,
        spec_derive(ip, spec_mask_of_prefix(p), p).host_count == spec_derive(
            ip,
            spec_mask_of_prefix(p),
            p,
        ).max_host - spec_derive(ip, spec_mask_of_prefix(p), p).min_host + 1,
{
    let mask = spec_mask_of_prefix(p);
    lemma_host_count_shift(p);
    assert((ip & mask) < 0xFFFF_FFFFu32 && ((ip & mask) | !mask) >= 1 && (((ip & mask) | !mask) - 1)
        - ((ip & mask) + 1) + 1 == (1u64 << ((32 - p) as u64)) - 2) by (bit_vector)
        requires
            p < 31,
            mask == (if p == 0 {
                0u32
            } else {
                0xFFFF_FFFFu32 << ((32 - p) as u32)
            }),
    ;
}

/// Whenever a block has usable hosts, its usable range is non-empty:
/// the first usable address lies at or before the last one. This holds
/// for every mask with fewer than 31 bits set, contiguous or not,
/// because such a mask leaves the complement at least two 1-bits, so
/// the broadcast address lies at least two above the network address.
pub proof fn lemma_usable_range_ordered(ip: u32, mask: u32, p: u32)
    requires
        popcount(mask as nat) == p,
        p < 31,
    ensures
        spec_derive(ip, mask, p).host_count > 0,
        spec_derive(ip, mask, p).min_host <= spec_derive(ip, mask, p).max_host,
{
    lemma_host_count_shift(p);
    // The only masks whose complement is below two carry 31 or 32 bits.
    lemma_popcount_of_mask(32);
    assert(0xFFFF_FFFFu32 << 0u32 == 0xFFFF_FFFFu32) by (bit_vector);
    lemma_popcount_low_ones(31);
    lemma2_to64();
    lemma_popcount_even((pow2(31) - 1) as nat);
    assert(popcount(0xFFFF_FFFEu32 as nat) == 31);
    assert((mask != 0xFFFF_FFFFu32 && mask != 0xFFFF_FFFEu32) ==> (ip & mask) < 0xFFFF_FFFFu32
        && ((ip & mask) | !mask) >= 1 && ((ip & mask) + 1) <= ((ip & mask) | !mask) - 1) by (bit_vector);
}

/// A `/31` or `/32` block has no usable hosts at all: the host count
/// is zero and the range collapses onto the network address.
pub proof fn lemma_degenerate_prefix(ip: u32, mask: u32, p: u32)
    requires
        31 <= p,
    ensures
        spec_derive(ip, mask, p).host_count == 0,
        spec_derive(ip, mask, p).max_host == spec_derive(ip, mask, p).network,
{
}

/// Deriving twice from the same normalized inputs yields identical
/// descriptors: the derivation is a pure function of its three inputs.
pub proof fn lemma_derivation_deterministic(
    d1: NetworkAnalyze,
    d2: NetworkAnalyze,
    ip: u32,
    mask: u32,
    p: u32,
)
    requires
        d1 == spec_derive(ip, mask, p),
        d2 == spec_derive(ip, mask, p),
    ensures
        d1 == d2,
{
}

} // verus!
