//! Parsing of dotted-quad addresses and decimal numbers.
//!
//! The grammar is stated over the UTF-8 bytes of the input: a decimal
//! number is a non-empty run of ASCII digits, and a dotted quad is four
//! decimal numbers in `0..=255` separated by exactly three `.` bytes.
//! Because an octet consists of digits only, a valid quad has a unique
//! split into its four octets, and the value of the whole string is
//! well defined.

use vstd::prelude::*;
use vstd::slice::slice_subrange;
use vstd::string::StringSliceAdditionalSpecFns;

verus! {

/// Whether `b` is an ASCII decimal digit (`'0'..='9'`, bytes 48 to 57).
pub open spec fn is_digit(b: u8) -> bool {
    48 <= b <= 57
}

/// The numeric value of the digit byte `b`.
pub open spec fn digit_val(b: u8) -> nat {
    (b - 48) as nat
}

/// Whether every byte of `s` is an ASCII digit.
pub open spec fn all_digits(s: Seq<u8>) -> bool {
    forall|i: int| 0 <= i < s.len() ==> is_digit(#[trigger] s[i])
}

/// Whether `s` is a decimal number: non-empty and digits only.
pub open spec fn is_decimal(s: Seq<u8>) -> bool {
    s.len() > 0 && all_digits(s)
}

/// The value of `s` read as a base-10 number.
pub open spec fn dec_val(s: Seq<u8>) -> nat
    decreases s.len(),
{
    if s.len() == 0 {
        0
    } else {
        dec_val(s.drop_last()) * 10 + digit_val(s.last())
    }
}

/// Whether `s` is the decimal form of an octet, a value in `0..=255`.
pub open spec fn is_octet(s: Seq<u8>) -> bool {
    is_decimal(s) && dec_val(s) <= 255
}

/// Whether the dots at `d1 < d2 < d3` split `s` into four octets.
/// `46` is the byte of `.`.
pub open spec fn ipv4_split(s: Seq<u8>, d1: int, d2: int, d3: int) -> bool {
    &&& 0 <= d1 < d2 < d3 < s.len()
    &&& s[d1] == 46
    &&& s[d2] == 46
    &&& s[d3] == 46
    &&& is_octet(s.subrange(0, d1))
    &&& is_octet(s.subrange(d1 + 1, d2))
    &&& is_octet(s.subrange(d2 + 1, d3))
    &&& is_octet(s.subrange(d3 + 1, s.len() as int))
}

/// Whether `s` is a dotted-quad IPv4 address.
pub open spec fn valid_ipv4(s: Seq<u8>) -> bool {
    exists|d1: int, d2: int, d3: int| ipv4_split(s, d1, d2, d3)
}

/// The 32-bit value of the quad split at the dots `d1 < d2 < d3`.
pub open spec fn ipv4_val_at(s: Seq<u8>, d1: int, d2: int, d3: int) -> nat {
    dec_val(s.subrange(0, d1)) * 0x1000000 + dec_val(s.subrange(d1 + 1, d2)) * 0x10000 + dec_val(
        s.subrange(d2 + 1, d3),
    ) * 0x100 + dec_val(s.subrange(d3 + 1, s.len() as int))
}

/// The 32-bit value of a valid dotted-quad address. The split into
/// octets is unique (`lemma_ipv4_split_unique`), so the value is too.
pub open spec fn ipv4_val(s: Seq<u8>) -> nat {
    let (d1, d2, d3) = choose|d1: int, d2: int, d3: int| ipv4_split(s, d1, d2, d3);
    ipv4_val_at(s, d1, d2, d3)
}

/// Reading one more digit multiplies the value so far by ten.
proof fn lemma_dec_val_take_step(s: Seq<u8>, k: int)
    requires
        0 <= k < s.len(),
    ensures
        dec_val(s.take(k + 1)) == dec_val(s.take(k)) * 10 + digit_val(s[k]),
{
    assert(s.take(k + 1).drop_last() =~= s.take(k));
    assert(s.take(k + 1).last() == s[k]);
}

/// The value of a prefix of a decimal string never exceeds the value of
/// the whole string.
proof fn lemma_dec_val_take_le(s: Seq<u8>, i: int)
    requires
        0 <= i <= s.len(),
    ensures
        dec_val(s.take(i)) <= dec_val(s),
    decreases s.len() - i,
{
    if i == s.len() {
        assert(s.take(i) =~= s);
    } else {
        lemma_dec_val_take_step(s, i);
        lemma_dec_val_take_le(s, i + 1);
    }
}

/// Between and around the three dots of a split everything is a digit.
proof fn lemma_split_region_digits(s: Seq<u8>, d1: int, d2: int, d3: int)
    requires
        ipv4_split(s, d1, d2, d3),
    ensures
        forall|j: int| 0 <= j < d1 ==> is_digit(#[trigger] s[j]),
        forall|j: int| d1 < j < d2 ==> is_digit(#[trigger] s[j]),
        forall|j: int| d2 < j < d3 ==> is_digit(#[trigger] s[j]),
        forall|j: int| d3 < j < s.len() ==> is_digit(#[trigger] s[j]),
{
    assert forall|j: int| 0 <= j < d1 implies is_digit(#[trigger] s[j]) by {
        assert(is_digit(s.subrange(0, d1)[j]));
    }
    assert forall|j: int| d1 < j < d2 implies is_digit(#[trigger] s[j]) by {
        assert(is_digit(s.subrange(d1 + 1, d2)[j - (d1 + 1)]));
    }
    assert forall|j: int| d2 < j < d3 implies is_digit(#[trigger] s[j]) by {
        assert(is_digit(s.subrange(d2 + 1, d3)[j - (d2 + 1)]));
    }
    assert forall|j: int| d3 < j < s.len() implies is_digit(#[trigger] s[j]) by {
        assert(is_digit(s.subrange(d3 + 1, s.len() as int)[j - (d3 + 1)]));
    }
}

/// A dotted quad splits into octets in exactly one way: octets hold
/// digits only, so the three dots of any split are the only dots of the
/// string.
pub proof fn lemma_ipv4_split_unique(
    s: Seq<u8>,
    a1: int,
    a2: int,
    a3: int,
    b1: int,
    b2: int,
    b3: int,
)
    requires
        ipv4_split(s, a1, a2, a3),
        ipv4_split(s, b1, b2, b3),
    ensures
        a1 == b1,
        a2 == b2,
        a3 == b3,
{
    lemma_split_region_digits(s, a1, a2, a3);
    lemma_split_region_digits(s, b1, b2, b3);
    assert(!is_digit(46));
}

/// Looks for the first occurrence of `target` at or after `from`.
pub(crate) fn find_byte(s: &[u8], from: usize, target: u8) -> (r: Option<usize>)
    requires
        from <= s@.len(),
    ensures
        match r {
            Some(i) => from <= i < s@.len() && s@[i as int] == target && forall|j: int|
                from <= j < i ==> s@[j] != target,
            None => forall|j: int| from <= j < s@.len() ==> s@[j] != target,
        },
{
    let mut k: usize = from;
    while k < s.len()
        invariant
            from <= k <= s@.len(),
            forall|j: int| from <= j < k ==> s@[j] != target,
        decreases s@.len() - k,
    {
        if s[k] == target {
            return Some(k);
        }
        k = k + 1;
    }
    None
}

/// Reads `s` as a decimal number of at most `cap`. Returns `None` when
/// `s` is empty, holds a non-digit, or names a value above `cap`.
pub(crate) fn parse_decimal(s: &[u8], cap: u32) -> (r: Option<u32>)
    requires
        cap <= 0xFFFF,
    ensures
        match r {
            Some(v) => is_decimal(s@) && v as nat == dec_val(s@) && v <= cap,
            None => !(is_decimal(s@) && dec_val(s@) <= cap as nat),
        },
{
    if s.len() == 0 {
        return None;
    }
    let mut acc: u32 = 0;
    let mut k: usize = 0;
    while k < s.len()
        invariant
            0 <= k <= s@.len(),
            cap <= 0xFFFF,
            acc <= cap,
            all_digits(s@.take(k as int)),
            acc as nat == dec_val(s@.take(k as int)),
        decreases s@.len() - k,
    {
        let b = s[k];
        if b < 48 || b > 57 {
            assert(!is_digit(s@[k as int]));
            return None;
        }
        let d: u32 = (b - 48) as u32;
        proof {
            lemma_dec_val_take_step(s@, k as int);
        }
        let next: u32 = acc * 10 + d;
        if next > cap {
            proof {
                lemma_dec_val_take_le(s@, k as int + 1);
            }
            return None;
        }
        acc = next;
        k = k + 1;
    }
    proof {
        assert(s@.take(s@.len() as int) =~= s@);
    }
    Some(acc)
}

/// Reads the UTF-8 bytes of a dotted-quad IPv4 address.
pub fn parse_ipv4_bytes(s: &[u8]) -> (r: Option<u32>)
    ensures
        match r {
            Some(v) => valid_ipv4(s@) && v as nat == ipv4_val(s@),
            None => !valid_ipv4(s@),
        },
{
    let n: usize = s.len();
    let i1 = match find_byte(s, 0, 46) {
        Some(i) => i,
        None => {
            proof {
                lemma_no_split_without_dot(s@);
            }
            return None;
        },
    };
    let o1 = match parse_decimal(slice_subrange(s, 0, i1), 255) {
        Some(v) => v,
        None => {
            proof {
                lemma_no_split_here(s@, i1 as int, -1, -1);
            }
            return None;
        },
    };
    let i2 = match find_byte(s, i1 + 1, 46) {
        Some(i) => i,
        None => {
            proof {
                lemma_no_split_here(s@, i1 as int, -1, -1);
            }
            return None;
        },
    };
    let o2 = match parse_decimal(slice_subrange(s, i1 + 1, i2), 255) {
        Some(v) => v,
        None => {
            proof {
                lemma_no_split_here(s@, i1 as int, i2 as int, -1);
            }
            return None;
        },
    };
    let i3 = match find_byte(s, i2 + 1, 46) {
        Some(i) => i,
        None => {
            proof {
                lemma_no_split_here(s@, i1 as int, i2 as int, -1);
            }
            return None;
        },
    };
    let o3 = match parse_decimal(slice_subrange(s, i2 + 1, i3), 255) {
        Some(v) => v,
        None => {
            proof {
                lemma_no_split_here(s@, i1 as int, i2 as int, i3 as int);
            }
            return None;
        },
    };
    let o4 = match parse_decimal(slice_subrange(s, i3 + 1, n), 255) {
        Some(v) => v,
        None => {
            proof {
                lemma_no_split_here(s@, i1 as int, i2 as int, i3 as int);
            }
            return None;
        },
    };
    proof {
        assert(ipv4_split(s@, i1 as int, i2 as int, i3 as int));
        let (d1, d2, d3) = choose|d1: int, d2: int, d3: int| ipv4_split(s@, d1, d2, d3);
        lemma_ipv4_split_unique(s@, d1, d2, d3, i1 as int, i2 as int, i3 as int);
    }
    Some(o1 * 0x1000000 + o2 * 0x10000 + o3 * 0x100 + o4)
}

/// A string without a dot has no octet split.
proof fn lemma_no_split_without_dot(s: Seq<u8>)
    requires
        forall|j: int| 0 <= j < s.len() ==> s[j] != 46,
    ensures
        !valid_ipv4(s),
{
    if valid_ipv4(s) {
        let (d1, d2, d3) = choose|d1: int, d2: int, d3: int| ipv4_split(s, d1, d2, d3);
        assert(s[d1] == 46);
    }
}

/// Pins the dots of any split of `s` against the dots that a left-to-
/// right scan finds, and is called exactly where the scan or an octet
/// parse has failed: the hypotheses of the failed step contradict the
/// existence of a split, so `s` is not a dotted quad.
proof fn lemma_no_split_here(s: Seq<u8>, i1: int, i2: int, i3: int)
    requires
        0 <= i1 < s.len(),
        s[i1] == 46,
        forall|j: int| 0 <= j < i1 ==> s[j] != 46,
        i2 >= 0 ==> i1 < i2 < s.len() && s[i2] == 46 && (forall|j: int|
            i1 < j < i2 ==> s[j] != 46),
        i3 >= 0 ==> i2 >= 0 && i2 < i3 < s.len() && s[i3] == 46 && (forall|j: int|
            i2 < j < i3 ==> s[j] != 46),
        (!(is_octet(s.subrange(0, i1)))
            || (i2 < 0 && (forall|j: int| i1 < j < s.len() ==> s[j] != 46))
            || (i2 >= 0 && !(is_octet(s.subrange(i1 + 1, i2))))
            || (i2 >= 0 && i3 < 0 && (forall|j: int| i2 < j < s.len() ==> s[j] != 46))
            || (i3 >= 0 && !(is_octet(s.subrange(i2 + 1, i3))))
            || (i3 >= 0 && !(is_octet(s.subrange(i3 + 1, s.len() as int))))),
    ensures
        !valid_ipv4(s),
{
    if valid_ipv4(s) {
        let (d1, d2, d3) = choose|d1: int, d2: int, d3: int| ipv4_split(s, d1, d2, d3);
        lemma_split_region_digits(s, d1, d2, d3);
        assert(!is_digit(46));
        // The first dot of the split is the first dot of the string.
        assert(d1 == i1);
        if i2 >= 0 {
            // The second dot of the split is the next dot after it.
            assert(d2 == i2);
            if i3 >= 0 {
                assert(d3 == i3);
            }
        }
    }
}

/// Reads a dotted-quad IPv4 address such as `192.168.0.1`.
pub fn parse_ipv4(s: &str) -> (r: Option<u32>)
    ensures
        match r {
            Some(v) => valid_ipv4(s.spec_bytes()) && v as nat == ipv4_val(s.spec_bytes()),
            None => !valid_ipv4(s.spec_bytes()),
        },
{
    parse_ipv4_bytes(s.as_bytes())
}

} // verus!
