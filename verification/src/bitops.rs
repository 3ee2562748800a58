//! Bit-level model shared by the packet decoder and the TNT buffer.
//!
//! TNT bit sequences are modelled as `Seq<bool>`; a 64-bit container holds
//! its occupied bits at the top, most significant first.

use vstd::prelude::*;

verus! {

/// True if bit `i` of `v` is set (`i` in `0..64`).
pub open spec fn bit64(v: u64, i: u64) -> bool {
    (v >> i) & 1 == 1
}

/// The top `n` bits of `v`, most significant first.
pub open spec fn high_bits(v: u64, n: nat) -> Seq<bool> {
    Seq::new(n, |i: int| bit64(v, (63 - i) as u64))
}

/// The low `c` bits of `g`, most significant first.
pub open spec fn low_bits(g: u64, c: nat) -> Seq<bool> {
    Seq::new(c, |i: int| bit64(g, (c - 1 - i) as u64))
}

/// All bits of `v` below bit `n` are clear.
pub open spec fn low_clear(v: u64, n: u64) -> bool {
    forall|i: u64| i < n ==> !bit64(v, i)
}

/// Zero has no set bits.
pub proof fn lemma_zero_clear(n: u64)
    ensures
        low_clear(0u64, n),
{
    assert forall|i: u64| i < n implies !bit64(0u64, i) by {
        assert((0u64 >> i) & 1 == 0) by (bit_vector);
    }
}

/// Index of the highest set bit of `v` (meaningful for `v >= 1`).
pub open spec fn top_bit(v: u64) -> nat
    decreases v,
{
    if v <= 1 {
        0
    } else {
        top_bit(v / 2) + 1
    }
}

/// `top_bit` is bounded by the bit width of the value.
pub proof fn lemma_top_bit_lt(v: u64, k: nat)
    requires
        1 <= v,
        v < vstd::arithmetic::power2::pow2(k),
    ensures
        top_bit(v) < k,
    decreases k,
{
    vstd::arithmetic::power2::lemma2_to64();
    if v <= 1 {
        assert(vstd::arithmetic::power2::pow2(0) == 1);
        if k == 0 {
            assert(v < 1);
        }
    } else {
        vstd::arithmetic::power2::lemma_pow2_unfold(k);
        lemma_top_bit_lt(v / 2, (k - 1) as nat);
    }
}

/// Exec computation of `top_bit`.
pub fn top_bit_index(v: u64) -> (r: u32)
    requires
        v >= 1,
    ensures
        r == top_bit(v),
        r <= 63,
{
    proof {
        vstd::arithmetic::power2::lemma2_to64_rest();
        assert(v < vstd::arithmetic::power2::pow2(64));
        lemma_top_bit_lt(v, 64);
    }
    let mut x: u64 = v;
    let mut r: u32 = 0;
    while x > 1
        invariant
            1 <= x,
            top_bit(v) == r + top_bit(x),
            top_bit(v) <= 63,
        decreases x,
    {
        x = x / 2;
        r = r + 1;
    }
    r
}

/// Appending `c` bits (the low bits of `g`) after the `n` occupied top
/// bits of `v`, when everything fits in 64 bits.
pub proof fn lemma_push_bits(v: u64, n: u32, g: u64, c: u32)
    requires
        n + c <= 64,
        1 <= c <= 63,
        g < (1u64 << (c as u64)),
        low_clear(v, (64 - n) as u64),
    ensures
        high_bits(v | (g << ((64 - n - c) as u64)), (n + c) as nat)
            =~= high_bits(v, n as nat) + low_bits(g, c as nat),
        low_clear(v | (g << ((64 - n - c) as u64)), (64 - n - c) as u64),
{
    let nn = n as u64;
    let cc = c as u64;
    let s = (64 - n - c) as u64;
    let w = v | (g << s);
    assert forall|i: int| 0 <= i < n + c implies high_bits(w, (n + c) as nat)[i] == (high_bits(
        v,
        n as nat,
    ) + low_bits(g, c as nat))[i] by {
        let j = (63 - i) as u64;
        if i < n {
            assert((w >> j) & 1 == (v >> j) & 1) by (bit_vector)
                requires
                    w == v | (g << s),
                    g < (1u64 << cc),
                    cc <= 63,
                    s == 64 - nn - cc,
                    nn + cc <= 64,
                    j < 64,
                    j >= s + cc,
            ;
        } else {
            assert(!bit64(v, j));
            let t = (j - s) as u64;
            assert((w >> j) & 1 == (g >> t) & 1) by (bit_vector)
                requires
                    w == v | (g << s),
                    (v >> j) & 1 != 1,
                    s <= j < s + cc,
                    cc <= 63,
                    s == 64 - nn - cc,
                    nn + cc <= 64,
                    t == j - s,
            ;
            assert(t == c - 1 - (i - n));
        }
    }
    assert forall|i: u64| i < s implies !bit64(w, i) by {
        assert(!bit64(v, i));
        assert((w >> i) & 1 == 0) by (bit_vector)
            requires
                w == v | (g << s),
                (v >> i) & 1 != 1,
                i < s,
                s < 64,
        ;
    }
}

/// Appending `c` bits (the low bits of `g`) after the `n` occupied top bits
/// of `v` when the total reaches or passes 64: the first 64 bits fill the
/// container, the remaining `n + c - 64` bits start a fresh one.
pub proof fn lemma_push_bits_full(v: u64, n: u32, g: u64, c: u32, tail: u64)
    requires
        64 <= n + c,
        n <= 64,
        1 <= c <= 63,
        g < (1u64 << (c as u64)),
        low_clear(v, (64 - n) as u64),
        tail == if n + c == 64 {
            0u64
        } else {
            g << ((128 - n - c) as u64)
        },
    ensures
        high_bits(v | (g >> ((n + c - 64) as u64)), 64) =~= (high_bits(v, n as nat) + low_bits(
            g,
            c as nat,
        )).take(64),
        high_bits(tail, (n + c - 64) as nat) =~= (high_bits(v, n as nat) + low_bits(
            g,
            c as nat,
        )).skip(64),
        low_clear(tail, (128 - n - c) as u64),
{
    let nn = n as u64;
    let cc = c as u64;
    let rem = (n + c - 64) as u64;
    let w = v | (g >> rem);
    let comb = high_bits(v, n as nat) + low_bits(g, c as nat);
    assert forall|i: int| 0 <= i < 64 implies high_bits(w, 64)[i] == comb[i] by {
        let j = (63 - i) as u64;
        if i < n {
            assert((w >> j) & 1 == (v >> j) & 1) by (bit_vector)
                requires
                    w == v | (g >> rem),
                    g < (1u64 << cc),
                    cc <= 63,
                    rem == nn + cc - 64,
                    nn <= 64,
                    64 <= nn + cc,
                    j < 64,
                    j >= 64 - nn,
            ;
        } else {
            assert(!bit64(v, j));
            let t = (j + rem) as u64;
            assert((w >> j) & 1 == (g >> t) & 1) by (bit_vector)
                requires
                    w == v | (g >> rem),
                    (v >> j) & 1 != 1,
                    j < 64 - nn,
                    rem == nn + cc - 64,
                    nn <= 64,
                    64 <= nn + cc,
                    cc <= 63,
                    t == j + rem,
            ;
            assert(t == c - 1 - (i - n));
        }
    }
    assert forall|i: int| 0 <= i < rem implies high_bits(tail, rem as nat)[i] == comb[64 + i] by {
        let j = (63 - i) as u64;
        let sh = (128 - n - c) as u64;
        let t = (rem - 1 - i) as u64;
        assert((((g << sh) >> j) & 1) == (g >> t) & 1) by (bit_vector)
            requires
                1 <= rem <= 63,
                sh == 128 - nn - cc,
                rem == nn + cc - 64,
                nn <= 64,
                cc <= 63,
                j == 63 - (rem - 1 - t),
                t < rem,
        ;
        assert(t == c - 1 - (64 + i - n));
    }
    assert forall|i: u64| i < (128 - n - c) as u64 implies !(#[trigger] bit64(tail, i)) by {
        if n + c > 64 {
            let sh = (128 - n - c) as u64;
            assert(((g << sh) >> i) & 1 == 0) by (bit_vector)
                requires
                    i < sh,
                    sh < 64,
            ;
        } else {
            assert((0u64 >> i) & 1 == 0) by (bit_vector);
        }
    }
}

/// Dropping the first `k` of the `n` occupied bits is a left shift.
pub proof fn lemma_shl_skip(v: u64, n: u32, k: u32)
    requires
        k <= n <= 64,
        k <= 63,
        low_clear(v, (64 - n) as u64),
    ensures
        high_bits(v << (k as u64), (n - k) as nat) =~= high_bits(v, n as nat).skip(k as int),
        low_clear(v << (k as u64), (64 - n + k) as u64),
{
    let kk = k as u64;
    let nn = n as u64;
    assert forall|i: int| 0 <= i < n - k implies high_bits(v << kk, (n - k) as nat)[i] == high_bits(
        v,
        n as nat,
    ).skip(k as int)[i] by {
        let j = (63 - i) as u64;
        assert(((v << kk) >> j) & 1 == (v >> ((j - kk) as u64)) & 1) by (bit_vector)
            requires
                kk <= 63,
                kk <= j < 64,
        ;
    }
    assert forall|i: u64| i < (64 - n + k) as u64 implies !bit64(v << kk, i) by {
        if i >= kk {
            assert(!bit64(v, (i - kk) as u64));
        }
        assert(((v << kk) >> i) & 1 == 0) by (bit_vector)
            requires
                kk <= 63,
                i < 64,
                i >= kk ==> (v >> ((i - kk) as u64)) & 1 != 1,
        ;
    }
}

/// Prepending the `b` occupied top bits of `w` before the `n` occupied top
/// bits of `v` (used when re-injecting an unprocessed TNT tail).
pub proof fn lemma_prepend_bits(v: u64, n: u32, w: u64, b: u32, shifted: u64)
    requires
        n + b <= 64,
        low_clear(v, (64 - n) as u64),
        low_clear(w, (64 - b) as u64),
        b < 64 ==> shifted == v >> (b as u64),
        b >= 64 ==> shifted == 0,
    ensures
        high_bits(shifted | w, (b + n) as nat) =~= high_bits(w, b as nat) + high_bits(
            v,
            n as nat,
        ),
        low_clear(shifted | w, (64 - n - b) as u64),
{
    let bb = b as u64;
    let nn = n as u64;
    let u = shifted | w;
    assert forall|i: int| 0 <= i < b + n implies high_bits(u, (b + n) as nat)[i] == (high_bits(
        w,
        b as nat,
    ) + high_bits(v, n as nat))[i] by {
        let j = (63 - i) as u64;
        if i < b {
            assert((u >> j) & 1 == (w >> j) & 1) by (bit_vector)
                requires
                    u == shifted | w,
                    bb <= 64,
                    bb < 64 ==> shifted == v >> bb,
                    bb >= 64 ==> shifted == 0,
                    j < 64,
                    j >= 64 - bb,
            ;
        } else {
            assert(!bit64(w, j));
            let t = (j + bb) as u64;
            assert((u >> j) & 1 == (v >> t) & 1) by (bit_vector)
                requires
                    u == shifted | w,
                    shifted == v >> bb,
                    bb < 64,
                    (w >> j) & 1 != 1,
                    j < 64 - bb,
                    bb + nn <= 64,
                    t == j + bb,
            ;
            assert(t == 63 - (i - b));
        }
    }
    assert forall|i: u64| i < (64 - n - b) as u64 implies !bit64(u, i) by {
        assert(!bit64(w, i));
        assert(!bit64(v, ((i + bb)) as u64));
        assert((u >> i) & 1 == 0) by (bit_vector)
            requires
                u == shifted | w,
                shifted == v >> bb,
                bb < 64,
                (w >> i) & 1 != 1,
                (v >> ((i + bb) as u64)) & 1 != 1,
                i + bb < 64,
        ;
    }
}

/// Number of TNT bits carried by a short TNT packet byte (`p >= 2`).
pub open spec fn short_tnt_count(p: u8) -> nat {
    if p >= 2 {
        (top_bit(p as u64) - 1) as nat
    } else {
        0
    }
}

/// The TNT bits of a short TNT packet byte, in the order they are consumed:
/// the bits below the highest set bit, down to bit 1 (bit 0 is the stop bit).
pub open spec fn short_tnt_view(p: u8) -> Seq<bool> {
    low_bits((p as u64) >> 1, short_tnt_count(p))
}

/// Number of TNT bits carried by a long TNT payload (`1 <= p < 2^48`).
pub open spec fn long_tnt_count(p: u64) -> nat {
    top_bit(p)
}

/// The TNT bits of a long TNT payload: the bits below the highest set bit,
/// down to bit 0.
pub open spec fn long_tnt_view(p: u64) -> Seq<bool> {
    low_bits(p, long_tnt_count(p))
}

/// The value of the `n` little-endian bytes of `s` at `pos`.
pub open spec fn le_val(s: Seq<u8>, pos: int, n: nat) -> nat
    decreases n,
{
    if n == 0 {
        0
    } else {
        (s[pos] + 256 * le_val(s, pos + 1, (n - 1) as nat)) as nat
    }
}

} // verus!
