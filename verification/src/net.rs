//! The subnet descriptor and the derivation of its fields.
//!
//! Given a 32-bit address, a 32-bit mask and the prefix length (the number
//! of 1-bits of the mask), `derive_subnet` computes the network address,
//! the usable host range, the gateway and the host count. The derivation
//! is a pure function; its value is pinned down by `spec_derive`.

use vstd::prelude::*;
use vstd::arithmetic::mul::lemma_mul_is_distributive_sub_other_way;
use vstd::arithmetic::power2::{
    lemma2_to64, lemma_pow2_adds, lemma_pow2_pos, lemma_pow2_strictly_increases,
    lemma_pow2_unfold, pow2,
};
use vstd::bits::{
    lemma_u32_pow2_no_overflow, lemma_u32_shl_is_mul, lemma_u32_shr_is_div, lemma_u64_shl_is_mul,
};

use crate::error::NetError;

verus! {

/// The number of 1-bits in the binary representation of `x`.
pub open spec fn popcount(x: nat) -> nat
    decreases x,
{
    if x == 0 {
        0
    } else {
        popcount(x / 2) + x % 2
    }
}

/// The mask whose top `p` bits are set: `0` for `p == 0`, otherwise
/// `0xFFFF_FFFF` shifted left by `32 - p`.
pub open spec fn spec_mask_of_prefix(p: u32) -> u32 {
    if p == 0 {
        0u32
    } else {
        0xFFFF_FFFFu32 << (32 - p) as u32
    }
}

/// The network address: the given address with all host bits cleared.
pub open spec fn spec_network(ip: u32, mask: u32) -> u32 {
    ip & mask
}

/// The broadcast address: the network address with all host bits set.
pub open spec fn spec_broadcast(ip: u32, mask: u32) -> u32 {
    (ip & mask) | !mask
}

/// The number of usable host addresses of a block with prefix length `p`:
/// all `2^(32 - p)` addresses of the block except the network and the
/// broadcast address, and none at all for the degenerate `/31` and `/32`.
pub open spec fn spec_host_count(p: u32) -> u64
    recommends
        p <= 32,
{
    if p < 31 {
        (pow2((32 - p) as nat) - 2) as u64
    } else {
        0u64
    }
}

/// A fully derived subnet descriptor.
///
/// All fields are computed as a unit from `(ip, mask, prefix_len)` by
/// `derive_subnet` and never patched individually; a descriptor `d`
/// produced there satisfies `d == spec_derive(d.ip, d.mask, d.prefix_len)`.
#[derive(Clone, Copy, Debug, PartialEq, Eq, Structural)]
pub struct NetworkAnalyze {
    /// The address exactly as the user gave it (any host of the block).
    pub ip: u32,
    /// The subnet mask.
    pub mask: u32,
    /// The network address, `ip & mask`.
    pub network: u32,
    /// The first usable host address, `network + 1`.
    pub min_host: u32,
    /// The last usable host address, `broadcast - 1`; equal to `network`
    /// for the degenerate `/31` and `/32` blocks.
    pub max_host: u32,
    /// The default gateway; by convention the first usable host address.
    pub gateway: u32,
    /// The number of 1-bits of the mask.
    pub prefix_len: u32,
    /// The number of usable host addresses.
    pub host_count: u64,
}

/// The descriptor that `derive_subnet` returns on success, as a value.
pub open spec fn spec_derive(ip: u32, mask: u32, prefix_len: u32) -> NetworkAnalyze {
    let network = ip & mask;
    let broadcast = network | !mask;
    let host_count = spec_host_count(prefix_len);
    NetworkAnalyze {
        ip: ip,
        mask: mask,
        network: network,
        min_host: (network + 1) as u32,
        max_host: if host_count > 0 {
            (broadcast - 1) as u32
        } else {
            network
        },
        gateway: (network + 1) as u32,
        prefix_len: prefix_len,
        host_count: host_count,
    }
}

impl NetworkAnalyze {
    /// Packs already-derived values into a descriptor, field by field.
    pub fn new(
        ip: u32,
        mask: u32,
        network: u32,
        min_host: u32,
        max_host: u32,
        gateway: u32,
        prefix_len: u32,
        host_count: u64,
    ) -> (r: Self)
        ensures
            r == (NetworkAnalyze {
                ip,
                mask,
                network,
                min_host,
                max_host,
                gateway,
                prefix_len,
                host_count,
            }),
    {
        Self { ip, mask, network, min_host, max_host, gateway, prefix_len, host_count }
    }

    /// Which of network address, prefix length and host count differ
    /// between two descriptors, in that order.
    pub fn compare_fields(&self, other: &NetworkAnalyze) -> (r: (bool, bool, bool))
        ensures
            r.0 == (self.network != other.network),
            r.1 == (self.prefix_len != other.prefix_len),
            r.2 == (self.host_count != other.host_count),
    {
        (
            self.network != other.network,
            self.prefix_len != other.prefix_len,
            self.host_count != other.host_count,
        )
    }
}

/// `popcount` of an `n`-bit value is at most `n`.
proof fn lemma_popcount_bound(x: nat, n: nat)
    requires
        x < pow2(n),
    ensures
        popcount(x) <= n,
    decreases n,
{
    if n == 0 {
        lemma2_to64();
    } else {
        lemma_pow2_unfold(n);
        lemma_popcount_bound(x / 2, (n - 1) as nat);
    }
}

/// A 32-bit value has at most 32 one-bits.
pub proof fn lemma_popcount_u32(x: u32)
    ensures
        popcount(x as nat) <= 32,
{
    lemma2_to64();
    lemma_popcount_bound(x as nat, 32);
}

/// Doubling a value does not change its number of 1-bits.
pub(crate) proof fn lemma_popcount_even(y: nat)
    ensures
        popcount(2 * y) == popcount(y),
{
    if y != 0 {
        assert((2 * y) / 2 == y);
        assert((2 * y) % 2 == 0);
    }
}

/// Doubling a value and setting the low bit adds one 1-bit.
proof fn lemma_popcount_odd(y: nat)
    ensures
        popcount(2 * y + 1) == popcount(y) + 1,
{
    assert((2 * y + 1) / 2 == y);
    assert((2 * y + 1) % 2 == 1);
}

/// A block of `k` low 1-bits has exactly `k` 1-bits.
pub(crate) proof fn lemma_popcount_low_ones(k: nat)
    ensures
        popcount((pow2(k) - 1) as nat) == k,
    decreases k,
{
    lemma_pow2_pos(k);
    if k == 0 {
        lemma2_to64();
    } else {
        lemma_pow2_unfold(k);
        lemma_pow2_pos((k - 1) as nat);
        let y = (pow2((k - 1) as nat) - 1) as nat;
        assert(pow2(k) - 1 == 2 * y + 1);
        lemma_popcount_odd(y);
        lemma_popcount_low_ones((k - 1) as nat);
    }
}

/// Shifting a value up by `j` bits does not change its number of 1-bits.
proof fn lemma_popcount_times_pow2(m: nat, j: nat)
    ensures
        popcount(m * pow2(j)) == popcount(m),
    decreases j,
{
    if j == 0 {
        lemma2_to64();
    } else {
        lemma_pow2_unfold(j);
        assert(m * pow2(j) == 2 * (m * pow2((j - 1) as nat))) by (nonlinear_arith)
            requires
                pow2(j) == 2 * pow2((j - 1) as nat),
        ;
        lemma_popcount_even(m * pow2((j - 1) as nat));
        lemma_popcount_times_pow2(m, (j - 1) as nat);
    }
}

/// The number of 1-bits of the mask with the top `p` bits set is `p`.
pub proof fn lemma_popcount_of_mask(p: u32)
    requires
        p <= 32,
    ensures
        popcount(spec_mask_of_prefix(p) as nat) == p,
{
    if p == 0 {
        assert(popcount(0nat) == 0);
    } else {
        let j = (32 - p) as u32;
        lemma_u32_pow2_no_overflow(j as nat);
        lemma_u32_shl_is_mul(1u32, j);
        assert(0xFFFF_FFFFu32 << j == 0xFFFF_FFFFu32 - ((1u32 << j) - 1)) by (bit_vector)
            requires
                j < 32,
        ;
        lemma_pow2_adds(p as nat, j as nat);
        lemma2_to64();
        let ones = (pow2(p as nat) - 1) as nat;
        assert(ones * pow2(j as nat) == pow2(p as nat) * pow2(j as nat) - pow2(j as nat)) by {
            lemma_mul_is_distributive_sub_other_way(
                pow2(j as nat) as int,
                pow2(p as nat) as int,
                1int,
            );
        }
        assert(spec_mask_of_prefix(p) as nat == ones * pow2(j as nat));
        lemma_popcount_times_pow2(ones, j as nat);
        lemma_popcount_low_ones(p as nat);
    }
}

/// Counts the 1-bits of `x`.
pub fn popcount_u32(x: u32) -> (r: u32)
    ensures
        r as nat == popcount(x as nat),
        r <= 32,
{
    let mut v: u32 = x;
    let mut count: u32 = 0;
    proof {
        lemma_popcount_u32(x);
    }
    while v != 0
        invariant
            count as nat + popcount(v as nat) == popcount(x as nat),
            popcount(x as nat) <= 32,
        decreases v,
    {
        proof {
            lemma_u32_shr_is_div(v, 1);
            lemma2_to64();
            assert((v & 1) == v % 2) by (bit_vector);
        }
        count = count + (v & 1);
        v = v >> 1;
    }
    count
}

/// The mask whose top `prefix_len` bits are set.
pub fn mask_from_prefix(prefix_len: u32) -> (r: u32)
    requires
        prefix_len <= 32,
    ensures
        r == spec_mask_of_prefix(prefix_len),
        popcount(r as nat) == prefix_len,
{
    proof {
        lemma_popcount_of_mask(prefix_len);
    }
    if prefix_len == 0 {
        0
    } else {
        0xFFFF_FFFFu32 << (32 - prefix_len)
    }
}

/// For a prefix shorter than 31 bits the host count is the value of the
/// mask's complement minus one, expressed with a machine shift.
pub(crate) proof fn lemma_host_count_shift(p: u32)
    requires
        p < 31,
    ensures
        spec_host_count(p) == (1u64 << (32 - p) as u64) - 2,
        spec_host_count(p) >= 2,
{
    let k = (32 - p) as u64;
    lemma_pow2_pos(k as nat);
    lemma2_to64();
    lemma_u64_shl_is_mul(1u64, k);
    if k > 2 {
        lemma_pow2_strictly_increases(2, k as nat);
    }
}

/// Derives every descriptor field from the address, the mask and the
/// prefix length (the number of 1-bits of the mask, as the normalizer
/// hands it over). The only failure is the one arithmetic edge case:
/// when `ip & mask` is the all-ones address, `network + 1` has no 32-bit
/// value, and the derivation reports `ArithmeticOverflow` instead of
/// wrapping around.
pub fn derive_subnet(ip: u32, mask: u32, prefix_len: u32) -> (r: Result<NetworkAnalyze, NetError>)
    requires
        popcount(mask as nat) == prefix_len,
    ensures
        r == if ip & mask == u32::MAX {
            Err::<NetworkAnalyze, NetError>(NetError::ArithmeticOverflow)
        } else {
            Ok::<NetworkAnalyze, NetError>(spec_derive(ip, mask, prefix_len))
        },
{
    proof {
        lemma_popcount_u32(mask);
    }
    let network: u32 = ip & mask;
    if network == u32::MAX {
        return Err(NetError::ArithmeticOverflow);
    }
    let broadcast: u32 = network | !mask;
    let host_count: u64 = if prefix_len < 31 {
        proof {
            lemma_host_count_shift(prefix_len);
        }
        (1u64 << (32 - prefix_len) as u64) - 2
    } else {
        0
    };
    let min_host: u32 = network + 1;
    let max_host: u32 = if host_count > 0 {
        proof {
            // A prefix shorter than 31 bits leaves the mask short of all
            // ones, so the broadcast address has at least one bit set.
            lemma_popcount_of_mask(32);
            assert(0xFFFF_FFFFu32 << 0u32 == 0xFFFF_FFFFu32) by (bit_vector);
            assert(mask != 0xFFFF_FFFFu32 ==> ((ip & mask) | !mask) != 0) by (bit_vector);
        }
        broadcast - 1
    } else {
        network
    };
    let gateway: u32 = min_host;
    Ok(NetworkAnalyze {
        ip,
        mask,
        network,
        min_host,
        max_host,
        gateway,
        prefix_len,
        host_count,
    })
}

} // verus!
