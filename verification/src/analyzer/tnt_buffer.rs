//! TNT buffer: accumulates Taken/Not-Taken bits from short and long TNT
//! packets, most significant bit first, and hands out full 64-bit chunks.

use vstd::prelude::*;

use crate::analyzer::error::AnalyzerError;
use crate::bitops::{
    bit64, high_bits, lemma_prepend_bits, lemma_push_bits, lemma_push_bits_full, lemma_shl_skip,
    lemma_top_bit_lt, long_tnt_count, long_tnt_view, low_bits, low_clear, short_tnt_count,
    short_tnt_view, top_bit_index,
};

verus! {

/// A buffer of up to 64 TNT bits.
///
/// The bits occupy the top of `value`, first-received bit highest; the
/// unoccupied low bits are always clear. Values of this type are only
/// handed out by a [`TntBufferManager`].
#[derive(Clone, Copy)]
pub struct TntBuffer {
    /// 64 bits container
    value: u64,
    /// Number of used bits, at most 64
    bits: u32,
}

impl View for TntBuffer {
    type V = Seq<bool>;

    /// The occupied bits, in the order they were received.
    closed spec fn view(&self) -> Seq<bool> {
        high_bits(self.value, self.bits as nat)
    }
}

/// The view padded with `false` up to the container width of 64 bits.
pub open spec fn pad_false(s: Seq<bool>) -> Seq<bool> {
    s + Seq::new((64 - s.len()) as nat, |i: int| false)
}

/// Byte `k` of the little-endian representation of `v`.
fn byte_of(v: u64, k: u32) -> (b: u8)
    requires
        k < 8,
    ensures
        forall|j: u64|
            j < 8 ==> (#[trigger] bit64(b as u64, j)) == bit64(v, (8 * (k as u64) + j) as u64),
{
    let b = ((v >> (8 * k) as u64) & 0xFF) as u8;
    proof {
        let kk = k as u64;
        assert forall|j: u64| j < 8 implies (#[trigger] bit64(b as u64, j)) == bit64(
            v,
            (8 * kk + j) as u64,
        ) by {
            assert((b as u64 >> j) & 1 == (v >> ((8 * kk + j) as u64)) & 1) by (bit_vector)
                requires
                    kk < 8,
                    j < 8,
                    b == ((v >> ((8 * kk) as u64)) & 0xFF) as u8,
            ;
        }
    }
    b
}

impl TntBuffer {
    #[verifier::type_invariant]
    spec fn wf(self) -> bool {
        self.bits <= 64 && low_clear(self.value, (64 - self.bits) as u64)
    }

    /// The whole container as little-endian bytes; byte `k` holds the padded
    /// view's bits `64 - 8*(k+1) .. 64 - 8*k`, most significant first.
    pub fn get_array_qword(&self) -> (r: [u8; 8])
        ensures
            forall|k: int, j: int|
                0 <= k < 8 && 0 <= j < 8 ==> #[trigger] bit64(r[k] as u64, j as u64) == pad_false(
                    self@,
                )[64 - 8 * k - 1 - j],
    {
        proof {
            use_type_invariant(self);
        }
        let v = self.value;
        let r: [u8; 8] = [
            byte_of(v, 0),
            byte_of(v, 1),
            byte_of(v, 2),
            byte_of(v, 3),
            byte_of(v, 4),
            byte_of(v, 5),
            byte_of(v, 6),
            byte_of(v, 7),
        ];
        proof {
            assert forall|k: int, j: int| 0 <= k < 8 && 0 <= j < 8 implies #[trigger] bit64(
                r[k] as u64,
                j as u64,
            ) == pad_false(self@)[64 - 8 * k - 1 - j] by {
                let jj = j as u64;
                if k == 0 {
                    assert(bit64(r[0] as u64, jj) == bit64(v, (8 * 0 + jj) as u64));
                } else if k == 1 {
                    assert(bit64(r[1] as u64, jj) == bit64(v, (8 * 1 + jj) as u64));
                } else if k == 2 {
                    assert(bit64(r[2] as u64, jj) == bit64(v, (8 * 2 + jj) as u64));
                } else if k == 3 {
                    assert(bit64(r[3] as u64, jj) == bit64(v, (8 * 3 + jj) as u64));
                } else if k == 4 {
                    assert(bit64(r[4] as u64, jj) == bit64(v, (8 * 4 + jj) as u64));
                } else if k == 5 {
                    assert(bit64(r[5] as u64, jj) == bit64(v, (8 * 5 + jj) as u64));
                } else if k == 6 {
                    assert(bit64(r[6] as u64, jj) == bit64(v, (8 * 6 + jj) as u64));
                } else {
                    assert(bit64(r[7] as u64, jj) == bit64(v, (8 * 7 + jj) as u64));
                }
                let idx = 64 - 8 * k - 1 - j;
                if idx < self.bits {
                    assert(pad_false(self@)[idx] == bit64(v, (63 - idx) as u64));
                } else {
                    assert(!bit64(v, (63 - idx) as u64));
                    assert(pad_false(self@)[idx] == false);
                }
                assert(63 - idx == 8 * k + j);
            }
        }
        r
    }

    /// Get current bits count; it is never greater than 64.
    pub fn bits(&self) -> (r: u32)
        ensures
            r == self@.len(),
            r <= 64,
    {
        proof {
            use_type_invariant(self);
        }
        self.bits
    }

    /// Remove the first `n` bits, equivalent to a logical shift left.
    pub fn remove_first_n_bits(self, n: u32) -> (r: Self)
        ensures
            r@ == if n <= self@.len() {
                self@.skip(n as int)
            } else {
                Seq::<bool>::empty()
            },
    {
        proof {
            use_type_invariant(self);
        }
        let value = if n >= 64 {
            0u64
        } else {
            self.value << n
        };
        let bits = if n >= self.bits {
            0u32
        } else {
            self.bits - n
        };
        proof {
            if n < self.bits {
                lemma_shl_skip(self.value, self.bits, n);
            } else if n >= 64 {
                crate::bitops::lemma_zero_clear(64);
            } else {
                let v = self.value;
                let nn = n as u64;
                assert forall|i: u64| i < 64 implies !(#[trigger] bit64(v << nn, i)) by {
                    if i >= n {
                        assert(!bit64(v, (i - n) as u64));
                    }
                    assert(((v << nn) >> i) & 1 == 0) by (bit_vector)
                        requires
                            nn < 64,
                            i < 64,
                            i >= nn ==> (v >> ((i - nn) as u64)) & 1 != 1,
                    ;
                }
            }
        }
        let r = TntBuffer { value, bits };
        proof {
            if n < self.bits {
            } else {
                assert(r@ =~= Seq::<bool>::empty());
                if n <= self@.len() {
                    assert(self@.skip(n as int) =~= Seq::<bool>::empty());
                }
            }
        }
        r
    }
}

/// Manager for TNT buffers.
pub struct TntBufferManager {
    /// The internal buffer
    buf: TntBuffer,
}

impl View for TntBufferManager {
    type V = Seq<bool>;

    /// The TNT bits currently buffered, oldest first.
    closed spec fn view(&self) -> Seq<bool> {
        self.buf@
    }
}

impl Default for TntBufferManager {
    fn default() -> (r: Self)
        ensures
            r@ == Seq::<bool>::empty(),
    {
        proof {
            crate::bitops::lemma_zero_clear(64);
        }
        let r = TntBufferManager { buf: TntBuffer { value: 0, bits: 0 } };
        proof {
            assert(r@ =~= Seq::<bool>::empty());
        }
        r
    }
}

impl TntBufferManager {
    /// Create a new TNT buffer manager.
    pub fn new() -> (r: Self)
        ensures
            r@ == Seq::<bool>::empty(),
    {
        Self::default()
    }

    /// Clear the current TNT buffer.
    pub fn clear(&mut self)
        ensures
            final(self)@ == Seq::<bool>::empty(),
    {
        proof {
            crate::bitops::lemma_zero_clear(64);
        }
        self.buf = TntBuffer { value: 0, bits: 0 };
        proof {
            assert(self@ =~= Seq::<bool>::empty());
        }
    }

    /// Append the low `count` bits of `group` (most significant first).
    /// Returns the filled 64-bit buffer if the insertion reaches 64 bits;
    /// the overflow starts a fresh buffer.
    fn push_group(&mut self, group: u64, count: u32) -> (r: Option<TntBuffer>)
        requires
            1 <= count <= 47,
            group < (1u64 << (count as u64)),
        ensures
            ({
                let comb = old(self)@ + low_bits(group, count as nat);
                if comb.len() < 64 {
                    r is None && final(self)@ == comb
                } else {
                    r matches Some(f) && f@ == comb.take(64) && final(self)@ == comb.skip(64)
                }
            }),
    {
        proof {
            use_type_invariant(&self.buf);
        }
        let ghost comb = self@ + low_bits(group, count as nat);
        if count + self.buf.bits < 64 {
            let new_bits = self.buf.bits + count;
            let new_value = self.buf.value | (group << ((64 - new_bits) as u64));
            proof {
                lemma_push_bits(self.buf.value, self.buf.bits, group, count);
            }
            self.buf = TntBuffer { value: new_value, bits: new_bits };
            assert(self@ =~= comb);
            None
        } else {
            let remain_count = count + self.buf.bits - 64;
            let full_value = self.buf.value | (group >> (remain_count as u64));
            let tail_value = if remain_count == 0 {
                0u64
            } else {
                group << ((64 - remain_count) as u64)
            };
            proof {
                lemma_push_bits_full(self.buf.value, self.buf.bits, group, count, tail_value);
            }
            let full = TntBuffer { value: full_value, bits: 64 };
            self.buf = TntBuffer { value: tail_value, bits: remain_count };
            assert(full@ =~= comb.take(64));
            assert(self@ =~= comb.skip(64));
            Some(full)
        }
    }

    /// Insert the TNT bits of a short TNT packet into the TNT buffer.
    ///
    /// Returns a full 64-bit TNT buffer if the buffer is full after the
    /// insertion. `short_tnt_packet` must be a short TNT format packet:
    /// at least one bit above the stop bit is set.
    #[must_use]
    pub fn extend_with_short_tnt(&mut self, short_tnt_packet: u8) -> (r: Option<TntBuffer>)
        requires
            short_tnt_packet >= 2,
        ensures
            short_tnt_count(short_tnt_packet) == 0 ==> r is None && final(self)@ == old(self)@,
            ({
                let comb = old(self)@ + short_tnt_view(short_tnt_packet);
                short_tnt_count(short_tnt_packet) > 0 ==> if comb.len() < 64 {
                    r is None && final(self)@ == comb
                } else {
                    r matches Some(f) && f@ == comb.take(64) && final(self)@ == comb.skip(64)
                }
            }),
    {
        let top: u32 = top_bit_index(short_tnt_packet as u64);
        proof {
            vstd::arithmetic::power2::lemma2_to64();
            lemma_top_bit_lt(short_tnt_packet as u64, 8);
        }
        let highest_bit = top - 1;
        if highest_bit == 0 {
            return None;
        }
        proof {
            let hb = highest_bit as u64;
            assert(1u64 << hb >= 1) by (bit_vector)
                requires
                    hb <= 6,
            ;
        }
        let group = ((short_tnt_packet as u64) >> 1) & ((1u64 << (highest_bit as u64)) - 1);
        proof {
            let p = short_tnt_packet as u64;
            let hb = highest_bit as u64;
            assert(group < (1u64 << hb) && forall|j: u64|
                j < hb ==> (#[trigger] (group >> j)) & 1 == ((p >> 1) >> j) & 1) by (bit_vector)
                requires
                    group == (p >> 1) & (((1u64 << hb) - 1) as u64),
                    1 <= hb <= 6,
            ;
            assert(low_bits(group, highest_bit as nat) =~= short_tnt_view(short_tnt_packet));
        }
        self.push_group(group, highest_bit)
    }

    /// Insert the TNT bits of a long TNT packet into the TNT buffer.
    ///
    /// Returns a full 64-bit TNT buffer if the buffer is full after the
    /// insertion. The first two (header) bytes must already be stripped, as
    /// done by the decoder, so the top 16 bits of `long_tnt_packet` are
    /// clear; at least one bit must be set.
    #[must_use]
    pub fn extend_with_long_tnt(&mut self, long_tnt_packet: u64) -> (r: Option<TntBuffer>)
        requires
            1 <= long_tnt_packet < 0x1_0000_0000_0000,
        ensures
            long_tnt_count(long_tnt_packet) == 0 ==> r is None && final(self)@ == old(self)@,
            ({
                let comb = old(self)@ + long_tnt_view(long_tnt_packet);
                long_tnt_count(long_tnt_packet) > 0 ==> if comb.len() < 64 {
                    r is None && final(self)@ == comb
                } else {
                    r matches Some(f) && f@ == comb.take(64) && final(self)@ == comb.skip(64)
                }
            }),
    {
        let top: u32 = top_bit_index(long_tnt_packet);
        proof {
            vstd::arithmetic::power2::lemma2_to64_rest();
            lemma_top_bit_lt(long_tnt_packet, 48);
        }
        if top == 0 {
            return None;
        }
        proof {
            let c = top as u64;
            assert(1u64 << c >= 1) by (bit_vector)
                requires
                    c <= 47,
            ;
        }
        let group = long_tnt_packet & ((1u64 << (top as u64)) - 1);
        proof {
            let p = long_tnt_packet;
            let c = top as u64;
            assert(group < (1u64 << c) && forall|j: u64|
                j < c ==> (#[trigger] (group >> j)) & 1 == (p >> j) & 1) by (bit_vector)
                requires
                    group == p & (((1u64 << c) - 1) as u64),
                    1 <= c <= 47,
            ;
            assert(low_bits(group, top as nat) =~= long_tnt_view(long_tnt_packet));
        }
        self.push_group(group, top)
    }

    /// Prepend the given buffer to the internal TNT buffer, restoring bits
    /// that were taken out but not consumed.
    ///
    /// Fails with [`AnalyzerError::ExceededTntBuffer`] if the combined
    /// occupancy would exceed 64 bits; the buffer is then left unchanged.
    pub fn prepend_buf<HE, RE>(&mut self, buf: TntBuffer) -> (r: Result<(), AnalyzerError<HE, RE>>)
        ensures
            buf@.len() + old(self)@.len() <= 64 ==> r is Ok && final(self)@ == buf@ + old(self)@,
            buf@.len() + old(self)@.len() > 64 ==> r == Result::<(), AnalyzerError<HE, RE>>::Err(
                AnalyzerError::ExceededTntBuffer,
            ) && final(self)@ == old(self)@,
    {
        proof {
            use_type_invariant(&self.buf);
            use_type_invariant(&buf);
        }
        let b = buf.bits();
        if self.buf.bits + b > 64 {
            return Err(AnalyzerError::ExceededTntBuffer);
        }
        let shifted = if b >= 64 {
            0u64
        } else {
            self.buf.value >> (b as u64)
        };
        let new_value = shifted | buf.value;
        let new_bits = self.buf.bits + b;
        proof {
            lemma_prepend_bits(self.buf.value, self.buf.bits, buf.value, buf.bits, shifted);
        }
        self.buf = TntBuffer { value: new_value, bits: new_bits };
        assert(self@ =~= buf@ + old(self)@);
        Ok(())
    }

    /// The current, possibly partial, buffer.
    pub fn buffer(&self) -> (r: TntBuffer)
        ensures
            r@ == self@,
    {
        self.buf
    }

    /// Take the current TNT buffer out of the manager, leaving a cleared
    /// buffer in place.
    pub fn take(&mut self) -> (r: TntBuffer)
        ensures
            r@ == old(self)@,
            final(self)@ == Seq::<bool>::empty(),
    {
        let buf = self.buf;
        self.clear();
        buf
    }
}

/// Counting law: every insertion concatenates the packet's TNT bits after
/// the buffered ones, so across any sequence of short and long TNT packets
/// the total number of bits held (buffered plus handed out in full
/// chunks) is the sum of the packets' TNT bit counts. This reads together
/// with the contracts of [`TntBufferManager::extend_with_short_tnt`] and
/// [`TntBufferManager::extend_with_long_tnt`], whose combined view is
/// exactly `before + packet bits`.
pub proof fn lemma_extend_counts(before: Seq<bool>, packet_bits: Seq<bool>)
    ensures
        (before + packet_bits).len() == before.len() + packet_bits.len(),
{
}

/// Round-trip law: consuming the first `k` TNT bits of a buffer and
/// re-injecting the remainder yields the original bit order. The first `k`
/// bits followed by the bits that [`TntBuffer::remove_first_n_bits`] keeps
/// (and that [`TntBufferManager::prepend_buf`] then restores) are exactly
/// the bits that were buffered.
pub proof fn lemma_split_round_trip(s: Seq<bool>, k: int)
    requires
        0 <= k <= s.len(),
    ensures
        s.take(k) + s.skip(k) == s,
{
    assert(s.take(k) + s.skip(k) =~= s);
}

} // verus!
