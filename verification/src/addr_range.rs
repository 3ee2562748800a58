//! Parsing of the optional `start..end` address filter given as two hex
//! strings.

use vstd::prelude::*;
use vstd::slice::slice_subrange;
use vstd::string::StringSliceAdditionalSpecFns;

verus! {

/// Error for the address range arguments.
#[derive(Debug, PartialEq, Eq, Clone, Copy)]
pub enum RangeError {
    /// The start of the range is not a hex address
    InvalidStart,
    /// The end of the range is not a hex address
    InvalidEnd,
    /// Only one of the two bounds was given
    HalfRange,
}

/// The value of a hex digit, or 16 for a byte that is no hex digit.
pub open spec fn hex_digit(b: u8) -> int {
    if 0x30 <= b <= 0x39 {
        b - 0x30
    } else if 0x61 <= b <= 0x66 {
        b - 0x61 + 10
    } else if 0x41 <= b <= 0x46 {
        b - 0x41 + 10
    } else {
        16
    }
}

/// The bytes with an optional leading `0x` removed.
pub open spec fn strip_hex_prefix(s: Seq<u8>) -> Seq<u8> {
    if s.len() >= 2 && s[0] == 0x30 && s[1] == 0x78 {
        s.skip(2)
    } else {
        s
    }
}

/// True if `s` is 1 to 16 hex digits.
pub open spec fn is_hex(s: Seq<u8>) -> bool {
    1 <= s.len() <= 16 && forall|i: int| 0 <= i < s.len() ==> hex_digit(#[trigger] s[i]) < 16
}

/// The value of a sequence of hex digits, most significant first.
pub open spec fn hex_val(s: Seq<u8>) -> int
    decreases s.len(),
{
    if s.len() == 0 {
        0
    } else {
        hex_val(s.drop_last()) * 16 + hex_digit(s.last())
    }
}

/// The value of a hex digit byte, or 16 when the byte is no hex digit.
fn hex_digit_of(b: u8) -> (r: u8)
    ensures
        r == hex_digit(b),
{
    if 0x30 <= b && b <= 0x39 {
        b - 0x30
    } else if 0x61 <= b && b <= 0x66 {
        b - 0x61 + 10
    } else if 0x41 <= b && b <= 0x46 {
        b - 0x41 + 10
    } else {
        16
    }
}

/// A sequence of at most `n` hex digits stays below `2^(4n)`.
proof fn lemma_hex_val_bound(s: Seq<u8>, n: nat)
    requires
        s.len() <= n,
        forall|i: int| 0 <= i < s.len() ==> hex_digit(#[trigger] s[i]) < 16,
    ensures
        0 <= hex_val(s) < vstd::arithmetic::power2::pow2(4 * n),
    decreases n,
{
    vstd::arithmetic::power2::lemma2_to64();
    vstd::arithmetic::power2::lemma_pow2_pos(4 * n);
    if s.len() == 0 {
    } else {
        lemma_hex_val_bound(s.drop_last(), (n - 1) as nat);
        let p = vstd::arithmetic::power2::pow2((4 * (n - 1)) as nat);
        assert(vstd::arithmetic::power2::pow2(4 * n) == 16 * p) by {
            vstd::arithmetic::power2::lemma_pow2_adds(4, (4 * (n - 1)) as nat);
        }
        assert(hex_val(s.drop_last()) * 16 + hex_digit(s.last()) < 16 * p) by (nonlinear_arith)
            requires
                hex_val(s.drop_last()) < p,
                hex_digit(s.last()) < 16,
                p >= 1,
        ;
    }
}

/// Parse 1 to 16 hex digits as a `u64`.
fn parse_hex(bytes: &[u8]) -> (r: Option<u64>)
    ensures
        is_hex(bytes@) <==> r is Some,
        r matches Some(v) ==> v == hex_val(bytes@),
{
    proof {
        crate::decoder::lemma_slice_len_fits(bytes);
    }
    if bytes.len() < 1 || bytes.len() > 16 {
        return None;
    }
    let mut val: u64 = 0;
    let mut i: usize = 0;
    while i < bytes.len()
        invariant
            i <= bytes@.len() <= 16,
            val == hex_val(bytes@.take(i as int)),
            forall|j: int| 0 <= j < i ==> hex_digit(#[trigger] bytes@[j]) < 16,
        decreases bytes@.len() - i,
    {
        let d = hex_digit_of(bytes[i]);
        if d >= 16 {
            return None;
        }
        proof {
            lemma_hex_val_bound(bytes@.take(i as int), 15);
            vstd::arithmetic::power2::lemma2_to64_rest();
            assert(bytes@.take(i + 1).drop_last() =~= bytes@.take(i as int));
            assert(bytes@.take(i + 1).last() == bytes@[i as int]);
        }
        val = val * 16 + (d as u64);
        i = i + 1;
    }
    proof {
        assert(bytes@.take(bytes@.len() as int) =~= bytes@);
    }
    Some(val)
}

/// Strip an optional `0x` prefix from the bytes of a hex address.
fn strip_prefix_bytes<'a>(bytes: &'a [u8]) -> (r: &'a [u8])
    ensures
        r@ == strip_hex_prefix(bytes@),
{
    if bytes.len() >= 2 && bytes[0] == 0x30 && bytes[1] == 0x78 {
        let stripped = slice_subrange(bytes, 2, bytes.len());
        proof {
            assert(stripped@ =~= bytes@.skip(2));
        }
        stripped
    } else {
        bytes
    }
}

/// Parse the optional `--range-start`/`--range-end` pair of hex addresses
/// into a filter range. Both bounds must be given together; each is 1 to
/// 16 hex digits with an optional `0x` prefix.
pub fn extract_range(range_start: Option<&str>, range_end: Option<&str>) -> (r: Result<
    Option<[(u64, u64); 1]>,
    RangeError,
>)
    ensures
        match (range_start, range_end) {
            (Some(start), Some(end)) => {
                let sb = strip_hex_prefix(start.spec_bytes());
                let eb = strip_hex_prefix(end.spec_bytes());
                {
                    &&& (!is_hex(sb) ==> r == Result::<Option<[(u64, u64); 1]>, RangeError>::Err(
                        RangeError::InvalidStart,
                    ))
                    &&& (is_hex(sb) && !is_hex(eb) ==> r == Result::<
                        Option<[(u64, u64); 1]>,
                        RangeError,
                    >::Err(RangeError::InvalidEnd))
                    &&& (is_hex(sb) && is_hex(eb) ==> (r matches Ok(Some(range)) && range[0].0
                        == hex_val(sb) && range[0].1 == hex_val(eb)))
                }
            },
            (None, None) => r == Result::<Option<[(u64, u64); 1]>, RangeError>::Ok(None),
            _ => r == Result::<Option<[(u64, u64); 1]>, RangeError>::Err(RangeError::HalfRange),
        },
{
    match (range_start, range_end) {
        (Some(start), Some(end)) => {
            let sb = strip_prefix_bytes(start.as_bytes());
            let start_val = match parse_hex(sb) {
                Some(v) => v,
                None => {
                    return Err(RangeError::InvalidStart);
                },
            };
            let eb = strip_prefix_bytes(end.as_bytes());
            let end_val = match parse_hex(eb) {
                Some(v) => v,
                None => {
                    return Err(RangeError::InvalidEnd);
                },
            };
            Ok(Some([(start_val, end_val)]))
        },
        (None, None) => Ok(None),
        _ => Err(RangeError::HalfRange),
    }
}

} // verus!
