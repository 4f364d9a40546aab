//! The input normalizer and the top-level calculator.
//!
//! One line of text names a subnet either as `address/prefix` (CIDR
//! notation) or as a dotted-quad address with a separate dotted-quad
//! mask. `normalize` reduces both syntaxes to an `(address, mask,
//! prefix length)` triple or rejects the input with the exact error of
//! its first failing check; `analyze` derives the full descriptor from
//! the triple.

use vstd::prelude::*;
use vstd::string::StringSliceAdditionalSpecFns;

use crate::error::NetError;
use crate::net::{
    derive_subnet, mask_from_prefix, popcount, popcount_u32, spec_derive, spec_mask_of_prefix,
    NetworkAnalyze,
};
use crate::parse::{
    dec_val, find_byte, ipv4_val, is_decimal, parse_decimal, parse_ipv4_bytes, valid_ipv4,
};
use vstd::slice::slice_subrange;

verus! {

/// Whether `s` holds at least one `/` (byte 47).
pub open spec fn has_slash(s: Seq<u8>) -> bool {
    exists|j: int| 0 <= j < s.len() && s[j] == 47
}

/// Whether the `/` at `d` is the only one of `s`.
pub open spec fn cidr_split(s: Seq<u8>, d: int) -> bool {
    &&& 0 <= d < s.len()
    &&& s[d] == 47
    &&& forall|j: int| 0 <= j < s.len() && j != d ==> s[j] != 47
}

/// The position of the separator of a string with exactly one `/`.
pub open spec fn slash_pos(s: Seq<u8>) -> int {
    choose|d: int| cidr_split(s, d)
}

/// Whether `s` is a prefix length: a decimal number of at most 32.
pub open spec fn valid_prefix(s: Seq<u8>) -> bool {
    is_decimal(s) && dec_val(s) <= 32
}

/// The byte sequences of an optional second input line.
pub open spec fn opt_bytes(m: Option<&str>) -> Option<Seq<u8>> {
    match m {
        Some(t) => Some(t.spec_bytes()),
        None => None,
    }
}

/// The normalized `(address, mask, prefix length)` of the raw input.
///
/// An input with a `/` is CIDR notation and the second line is ignored:
/// more than one `/` is `InvalidFormat`, then the left side must be a
/// dotted quad (`InvalidAddress`) and the right side a decimal number
/// of at most 32 (`InvalidPrefix`); the mask has the top `prefix` bits
/// set. An input without a `/` is a dotted-quad address
/// (`InvalidAddress`) and the second line must hold a dotted-quad mask
/// (`InvalidMask`, also when no second line was given); the prefix
/// length is the number of 1-bits of the mask, whether or not they are
/// contiguous.
pub open spec fn spec_normalize(input: Seq<u8>, mask_input: Option<Seq<u8>>) -> Result<
    (u32, u32, u32),
    NetError,
> {
    if has_slash(input) {
        if !(exists|d: int| cidr_split(input, d)) {
            Err(NetError::InvalidFormat)
        } else {
            let d = slash_pos(input);
            let addr = input.subrange(0, d);
            let pfx = input.subrange(d + 1, input.len() as int);
            if !valid_ipv4(addr) {
                Err(NetError::InvalidAddress)
            } else if !valid_prefix(pfx) {
                Err(NetError::InvalidPrefix)
            } else {
                let p = dec_val(pfx) as u32;
                Ok((ipv4_val(addr) as u32, spec_mask_of_prefix(p), p))
            }
        }
    } else {
        if !valid_ipv4(input) {
            Err(NetError::InvalidAddress)
        } else {
            match mask_input {
                None => Err(NetError::InvalidMask),
                Some(m) => if !valid_ipv4(m) {
                    Err(NetError::InvalidMask)
                } else {
                    Ok(
                        (
                            ipv4_val(input) as u32,
                            ipv4_val(m) as u32,
                            popcount(ipv4_val(m)) as u32,
                        ),
                    )
                },
            }
        }
    }
}

/// The descriptor of the raw input, or the error that rejects it: the
/// normalized triple run through the derivation, where the one failure
/// left is the all-ones network address, whose host range would
/// overflow.
pub open spec fn spec_analyze(input: Seq<u8>, mask_input: Option<Seq<u8>>) -> Result<
    NetworkAnalyze,
    NetError,
> {
    match spec_normalize(input, mask_input) {
        Err(e) => Err(e),
        Ok((ip, mask, p)) => if ip & mask == u32::MAX {
            Err(NetError::ArithmeticOverflow)
        } else {
            Ok(spec_derive(ip, mask, p))
        },
    }
}

/// At most one position can be the only slash.
proof fn lemma_cidr_split_unique(s: Seq<u8>, a: int, b: int)
    requires
        cidr_split(s, a),
        cidr_split(s, b),
    ensures
        a == b,
{
    if a != b {
        assert(s[b] != 47);
    }
}

/// Whether the line uses CIDR notation, so that no separate mask input
/// is wanted.
pub fn is_cidr_input(input: &str) -> (r: bool)
    ensures
        r == has_slash(input.spec_bytes()),
{
    let bytes = input.as_bytes();
    match find_byte(bytes, 0, 47) {
        Some(d) => {
            proof {
                assert(has_slash(bytes@));
            }
            true
        },
        None => {
            proof {
                if has_slash(bytes@) {
                    let j = choose|j: int| 0 <= j < bytes@.len() && bytes@[j] == 47;
                    assert(bytes@[j] != 47);
                }
            }
            false
        },
    }
}

/// Reduces the raw input to the `(address, mask, prefix length)`
/// triple that the derivation takes, or rejects it. The prefix length
/// of the triple is always the number of 1-bits of its mask.
pub fn normalize(input: &str, mask_input: Option<&str>) -> (r: Result<(u32, u32, u32), NetError>)
    ensures
        r == spec_normalize(input.spec_bytes(), opt_bytes(mask_input)),
        (r matches Ok(t) ==> popcount(t.1 as nat) == t.2),
{
    let bytes = input.as_bytes();
    let n = bytes.len();
    match find_byte(bytes, 0, 47) {
        Some(d) => {
            proof {
                assert(has_slash(bytes@));
            }
            match find_byte(bytes, d + 1, 47) {
                Some(e) => {
                    proof {
                        assert forall|dd: int| !cidr_split(bytes@, dd) by {
                            if cidr_split(bytes@, dd) {
                                if dd == d as int {
                                    assert(bytes@[e as int] != 47);
                                } else {
                                    assert(bytes@[d as int] != 47);
                                }
                            }
                        }
                    }
                    Err(NetError::InvalidFormat)
                },
                None => {
                    proof {
                        assert(cidr_split(bytes@, d as int));
                        lemma_cidr_split_unique(bytes@, slash_pos(bytes@), d as int);
                    }
                    let addr_part = slice_subrange(bytes, 0, d);
                    let pfx_part = slice_subrange(bytes, d + 1, n);
                    match parse_ipv4_bytes(addr_part) {
                        None => Err(NetError::InvalidAddress),
                        Some(ip) => {
                            match parse_decimal(pfx_part, 32) {
                                None => Err(NetError::InvalidPrefix),
                                Some(p) => {
                                    let mask = mask_from_prefix(p);
                                    Ok((ip, mask, p))
                                },
                            }
                        },
                    }
                },
            }
        },
        None => {
            proof {
                if has_slash(bytes@) {
                    let j = choose|j: int| 0 <= j < bytes@.len() && bytes@[j] == 47;
                    assert(bytes@[j] != 47);
                }
            }
            match parse_ipv4_bytes(bytes) {
                None => Err(NetError::InvalidAddress),
                Some(ip) => {
                    match mask_input {
                        None => Err(NetError::InvalidMask),
                        Some(mask_str) => {
                            let mask_bytes = mask_str.as_bytes();
                            match parse_ipv4_bytes(mask_bytes) {
                                None => Err(NetError::InvalidMask),
                                Some(mask) => {
                                    let p = popcount_u32(mask);
                                    Ok((ip, mask, p))
                                },
                            }
                        },
                    }
                },
            }
        },
    }
}

/// Computes the full subnet descriptor of one or two lines of input:
/// either `address/prefix` in the first line, or an address in the
/// first and a mask in the second.
pub fn analyze(input: &str, mask_input: Option<&str>) -> (r: Result<NetworkAnalyze, NetError>)
    ensures
        r == spec_analyze(input.spec_bytes(), opt_bytes(mask_input)),
{
    match normalize(input, mask_input) {
        Err(e) => Err(e),
        Ok((ip, mask, p)) => derive_subnet(ip, mask, p),
    }
}

} // verus!
