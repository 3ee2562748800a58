//! Two-level byte-dispatched decoder for Intel PT packet streams.
//!
//! [`decode`] scans the AUX byte stream, optionally synchronizing on the
//! first PSB marker, and dispatches one typed callback per packet to a
//! [`HandlePacket`] implementation.

pub mod combined;
pub mod error;
pub mod level1;
pub mod level2;
pub mod packet_counter;
pub mod utils;

use vstd::prelude::*;

use crate::bitops::{le_val, long_tnt_count, short_tnt_count};
use crate::decoder::error::DecoderError;
use crate::decoder::level1::IpReconstructionPattern;
use crate::decoder::level2::PtwPayload;

verus! {

/// One callback the decoder dispatched, with the payload it handed over
/// (ghost record used by the contracts: every `handle_*_packet` states
/// which event it appends for which input bytes).
pub enum PacketEvent {
    /// `on_short_tnt_packet(byte, highest_bit)`
    ShortTnt(u8, u32),
    /// `on_long_tnt_packet(payload, highest_bit)`
    LongTnt(u64, u32),
    /// `on_tip_packet(pattern)`
    Tip(IpReconstructionPattern),
    /// `on_tip_pgd_packet(pattern)`
    TipPgd(IpReconstructionPattern),
    /// `on_tip_pge_packet(pattern)`
    TipPge(IpReconstructionPattern),
    /// `on_fup_packet(pattern)`
    Fup(IpReconstructionPattern),
    /// `on_pad_packet()`
    Pad,
    /// `on_cyc_packet(bytes)`
    Cyc(Seq<u8>),
    /// `on_mode_packet(leaf_id, mode)`
    Mode(u8, u8),
    /// `on_mtc_packet(ctc)`
    Mtc(u8),
    /// `on_tsc_packet(tsc)`
    Tsc(u64),
    /// `on_cbr_packet(ratio)`
    Cbr(u8),
    /// `on_tma_packet(ctc, fast_counter, fc8)`
    Tma(u16, u8, bool),
    /// `on_vmcs_packet(pointer)`
    Vmcs(u64),
    /// `on_ovf_packet()`
    Ovf,
    /// `on_psb_packet()`
    Psb,
    /// `on_psbend_packet()`
    Psbend,
    /// `on_trace_stop_packet()`
    TraceStop,
    /// `on_pip_packet(cr3, rsvd_nr)`
    Pip(u64, bool),
    /// `on_mnt_packet(payload)`
    Mnt(u64),
    /// `on_ptw_packet(ip_bit, payload)`
    Ptw(bool, PtwPayload),
    /// `on_exstop_packet(ip_bit)`
    Exstop(bool),
    /// `on_mwait_packet(hints, ext)`
    Mwait(u8, u8),
    /// `on_pwre_packet(hw, c_state, sub_c_state)`
    Pwre(bool, u8, u8),
    /// `on_pwrx_packet(last, deepest, wake_reason)`
    Pwrx(u8, u8, u8),
    /// `on_evd_packet(event_type, payload)`
    Evd(u8, u64),
    /// `on_cfe_packet(ip_bit, event_type, vector)`
    Cfe(bool, u8, u8),
}

/// Execution mode of the tracee.
#[derive(Clone, Copy, Debug, PartialEq, Eq, Structural)]
pub enum TraceeMode {
    /// 16-bit mode
    Mode16,
    /// 32-bit mode
    Mode32,
    /// 64-bit mode
    Mode64,
}

impl TraceeMode {
    /// The bitness of this tracee mode.
    pub open spec fn spec_bitness(&self) -> u32 {
        match self {
            TraceeMode::Mode16 => 16,
            TraceeMode::Mode32 => 32,
            TraceeMode::Mode64 => 64,
        }
    }

    /// Get the bitness of the current tracee mode.
    #[must_use]
    pub fn bitness(&self) -> (r: u32)
        ensures
            r == self.spec_bitness(),
    {
        match self {
            TraceeMode::Mode16 => 16,
            TraceeMode::Mode32 => 32,
            TraceeMode::Mode64 => 64,
        }
    }
}

/// Decoder context during decoding.
pub struct DecoderContext {
    /// Next position in the target buffer
    pos: usize,
    /// Current tracee mode (modified by MODE.exec packets)
    tracee_mode: TraceeMode,
    /// Every callback dispatched so far (ghost)
    events: Ghost<Seq<PacketEvent>>,
}

impl DecoderContext {
    /// A context whose cursor stands at `pos` in `tracee_mode`, with no
    /// callback dispatched yet.
    #[must_use]
    pub fn new(pos: usize, tracee_mode: TraceeMode) -> (r: Self)
        ensures
            r.spec_pos() == pos,
            r.spec_mode() == tracee_mode,
            r.spec_events() == Seq::<PacketEvent>::empty(),
    {
        DecoderContext { pos, tracee_mode, events: Ghost(Seq::empty()) }
    }

    /// The read cursor: a byte offset into the input buffer.
    pub closed spec fn spec_pos(&self) -> int {
        self.pos as int
    }

    /// The current tracee mode.
    pub closed spec fn spec_mode(&self) -> TraceeMode {
        self.tracee_mode
    }

    /// The callbacks dispatched so far, in order, with their payloads.
    pub closed spec fn spec_events(&self) -> Seq<PacketEvent> {
        self.events@
    }

    /// Get the current tracee mode.
    #[must_use]
    pub fn tracee_mode(&self) -> (r: TraceeMode)
        ensures
            r == self.spec_mode(),
    {
        self.tracee_mode
    }

    /// The current cursor.
    pub(crate) fn pos(&self) -> (r: usize)
        ensures
            r == self.spec_pos(),
    {
        self.pos
    }

    /// Advance the cursor by `k` bytes.
    pub(crate) fn advance(&mut self, k: usize)
        requires
            old(self).spec_pos() + k <= usize::MAX,
        ensures
            final(self).spec_pos() == old(self).spec_pos() + k,
            final(self).spec_mode() == old(self).spec_mode(),
            final(self).spec_events() == old(self).spec_events(),
    {
        self.pos = self.pos + k;
    }

    /// Move the cursor to `p`.
    pub(crate) fn set_pos(&mut self, p: usize)
        ensures
            final(self).spec_pos() == p,
            final(self).spec_mode() == old(self).spec_mode(),
            final(self).spec_events() == old(self).spec_events(),
    {
        self.pos = p;
    }

    /// Switch the tracee mode (a MODE.exec payload).
    pub(crate) fn set_mode(&mut self, m: TraceeMode)
        ensures
            final(self).spec_mode() == m,
            final(self).spec_pos() == old(self).spec_pos(),
            final(self).spec_events() == old(self).spec_events(),
    {
        self.tracee_mode = m;
    }

    /// Record a dispatched callback in the ghost event log.
    pub(crate) fn log(&mut self, e: Ghost<PacketEvent>)
        ensures
            final(self).spec_events() == old(self).spec_events().push(e@),
            final(self).spec_pos() == old(self).spec_pos(),
            final(self).spec_mode() == old(self).spec_mode(),
    {
        proof {
            self.events@ = self.events@.push(e@);
        }
    }
}

/// Options for [`decode`].
#[derive(Clone, Copy)]
pub struct DecodeOptions {
    tracee_mode: TraceeMode,
    no_sync: bool,
}

impl DecodeOptions {
    /// The initial tracee mode.
    pub closed spec fn spec_tracee_mode(&self) -> TraceeMode {
        self.tracee_mode
    }

    /// True if decoding starts at offset 0 instead of the first PSB.
    pub closed spec fn spec_no_sync(&self) -> bool {
        self.no_sync
    }

    /// Set the mode of the tracee before any valid MODE.exec packet.
    ///
    /// Default is [`TraceeMode::Mode64`].
    pub fn tracee_mode(&mut self, tracee_mode: TraceeMode)
        ensures
            final(self).spec_tracee_mode() == tracee_mode,
            final(self).spec_no_sync() == old(self).spec_no_sync(),
    {
        self.tracee_mode = tracee_mode;
    }

    /// Set whether the decoder first syncs forward to a PSB packet instead
    /// of decoding at offset 0.
    ///
    /// Default is `true`.
    pub fn sync(&mut self, sync: bool)
        ensures
            final(self).spec_no_sync() == !sync,
            final(self).spec_tracee_mode() == old(self).spec_tracee_mode(),
    {
        self.no_sync = !sync;
    }
}

impl Default for DecodeOptions {
    fn default() -> (r: Self)
        ensures
            r.spec_tracee_mode() == TraceeMode::Mode64,
            !r.spec_no_sync(),
    {
        DecodeOptions { tracee_mode: TraceeMode::Mode64, no_sync: false }
    }
}

/// Packet handler trait.
///
/// The default implementation of every packet handler is a no-op. The
/// `requires` clauses state what the decoder guarantees about each payload.
pub trait HandlePacket: Sized {
    /// Custom error type
    type Error;

    /// Callback at the beginning of a decode run, so one handler can be
    /// reused across several streams.
    fn at_decode_begin(&mut self) -> (r: Result<(), Self::Error>) {
        Ok(())
    }

    /// Handle short TNT packet.
    ///
    /// `packet_byte` is the whole byte of the short TNT packet;
    /// `highest_bit` is the index of the highest bit that holds a valid
    /// Taken/Not-taken bit, in range 0..=6. A `highest_bit` of 0 means the
    /// packet carries no Taken/Not-taken bits.
    fn on_short_tnt_packet(
        &mut self,
        context: &DecoderContext,
        packet_byte: u8,
        highest_bit: u32,
    ) -> (r: Result<(), Self::Error>)
        requires
            packet_byte >= 2,
            highest_bit == short_tnt_count(packet_byte),
            highest_bit <= 6,
    {
        Ok(())
    }

    /// Handle long TNT packet.
    ///
    /// `packet_bytes` holds the 6 payload bytes of the long TNT packet; the
    /// upper 2 bytes are cleared. `highest_bit` is the index of the highest
    /// valid Taken/Not-taken bit, in range 0..=46, or `u32::MAX` when the
    /// packet carries no Taken/Not-taken bits.
    fn on_long_tnt_packet(
        &mut self,
        context: &DecoderContext,
        packet_bytes: u64,
        highest_bit: u32,
    ) -> (r: Result<(), Self::Error>)
        requires
            1 <= packet_bytes < 0x1_0000_0000_0000,
            long_tnt_count(packet_bytes) == 0 ==> highest_bit == u32::MAX,
            long_tnt_count(packet_bytes) > 0 ==> highest_bit == long_tnt_count(packet_bytes) - 1,
    {
        Ok(())
    }

    /// Handle TIP packet.
    fn on_tip_packet(
        &mut self,
        context: &DecoderContext,
        ip_reconstruction_pattern: IpReconstructionPattern,
    ) -> (r: Result<(), Self::Error>)
        requires
            ip_reconstruction_pattern.wf(),
    {
        Ok(())
    }

    /// Handle TIP.PGD packet.
    fn on_tip_pgd_packet(
        &mut self,
        context: &DecoderContext,
        ip_reconstruction_pattern: IpReconstructionPattern,
    ) -> (r: Result<(), Self::Error>)
        requires
            ip_reconstruction_pattern.wf(),
    {
        Ok(())
    }

    /// Handle TIP.PGE packet.
    fn on_tip_pge_packet(
        &mut self,
        context: &DecoderContext,
        ip_reconstruction_pattern: IpReconstructionPattern,
    ) -> (r: Result<(), Self::Error>)
        requires
            ip_reconstruction_pattern.wf(),
    {
        Ok(())
    }

    /// Handle FUP packet.
    fn on_fup_packet(
        &mut self,
        context: &DecoderContext,
        ip_reconstruction_pattern: IpReconstructionPattern,
    ) -> (r: Result<(), Self::Error>)
        requires
            ip_reconstruction_pattern.wf(),
    {
        Ok(())
    }

    /// Handle PAD packet.
    fn on_pad_packet(&mut self, context: &DecoderContext) -> (r: Result<(), Self::Error>) {
        Ok(())
    }

    /// Handle CYC packet.
    ///
    /// `cyc_packet` is the total content of the CYC packet.
    fn on_cyc_packet(&mut self, context: &DecoderContext, cyc_packet: &[u8]) -> (r: Result<
        (),
        Self::Error,
    >)
        requires
            cyc_packet@.len() >= 1,
    {
        Ok(())
    }

    /// Handle MODE packet.
    ///
    /// `leaf_id` and `mode` are the leaf ID and mode of the MODE packet.
    fn on_mode_packet(&mut self, context: &DecoderContext, leaf_id: u8, mode: u8) -> (r: Result<
        (),
        Self::Error,
    >)
        requires
            leaf_id <= 7,
            mode <= 31,
    {
        Ok(())
    }

    /// Handle MTC packet.
    ///
    /// `ctc_payload` is the 8-bit CTC payload value.
    fn on_mtc_packet(&mut self, context: &DecoderContext, ctc_payload: u8) -> (r: Result<
        (),
        Self::Error,
    >) {
        Ok(())
    }

    /// Handle TSC packet.
    ///
    /// `tsc_value` is the lower 7 bytes of the current TSC value.
    fn on_tsc_packet(&mut self, context: &DecoderContext, tsc_value: u64) -> (r: Result<
        (),
        Self::Error,
    >)
        requires
            tsc_value < 0x100_0000_0000_0000,
    {
        Ok(())
    }

    /// Handle CBR packet.
    ///
    /// `core_bus_ratio` is the Core:Bus ratio.
    fn on_cbr_packet(&mut self, context: &DecoderContext, core_bus_ratio: u8) -> (r: Result<
        (),
        Self::Error,
    >) {
        Ok(())
    }

    /// Handle TMA packet.
    ///
    /// `ctc` is CTC[15:0], `fast_counter` is FastCounter[7:0], `fc8` is FC[8].
    fn on_tma_packet(
        &mut self,
        context: &DecoderContext,
        ctc: u16,
        fast_counter: u8,
        fc8: bool,
    ) -> (r: Result<(), Self::Error>) {
        Ok(())
    }

    /// Handle VMCS packet.
    ///
    /// Bits 12..=51 of `vmcs_pointer` hold the VMCS pointer [51:12]; the
    /// other bits are cleared.
    fn on_vmcs_packet(&mut self, context: &DecoderContext, vmcs_pointer: u64) -> (r: Result<
        (),
        Self::Error,
    >)
        requires
            vmcs_pointer % 0x1000 == 0,
            vmcs_pointer < 0x10_0000_0000_0000,
    {
        Ok(())
    }

    /// Handle OVF packet.
    fn on_ovf_packet(&mut self, context: &DecoderContext) -> (r: Result<(), Self::Error>) {
        Ok(())
    }

    /// Handle PSB packet.
    fn on_psb_packet(&mut self, context: &DecoderContext) -> (r: Result<(), Self::Error>) {
        Ok(())
    }

    /// Handle PSBEND packet.
    fn on_psbend_packet(&mut self, context: &DecoderContext) -> (r: Result<(), Self::Error>) {
        Ok(())
    }

    /// Handle TraceStop packet.
    fn on_trace_stop_packet(&mut self, context: &DecoderContext) -> (r: Result<(), Self::Error>) {
        Ok(())
    }

    /// Handle PIP packet.
    ///
    /// Bits 5..=51 of `cr3` hold CR3[51:5]; the other bits are cleared.
    /// `rsvd_nr` is RSVD/NR.
    fn on_pip_packet(&mut self, context: &DecoderContext, cr3: u64, rsvd_nr: bool) -> (r: Result<
        (),
        Self::Error,
    >)
        requires
            cr3 % 32 == 0,
            cr3 < 0x20_0000_0000_0000,
    {
        Ok(())
    }

    /// Handle MNT packet.
    ///
    /// `payload` is Payload[63:0].
    fn on_mnt_packet(&mut self, context: &DecoderContext, payload: u64) -> (r: Result<
        (),
        Self::Error,
    >) {
        Ok(())
    }

    /// Handle PTW packet.
    ///
    /// `ip_bit` is the IP bit; `payload` is either 4 bytes or 8 bytes.
    fn on_ptw_packet(&mut self, context: &DecoderContext, ip_bit: bool, payload: PtwPayload) -> (r:
        Result<(), Self::Error>) {
        Ok(())
    }

    /// Handle EXSTOP packet.
    ///
    /// `ip_bit` is the IP bit.
    fn on_exstop_packet(&mut self, context: &DecoderContext, ip_bit: bool) -> (r: Result<
        (),
        Self::Error,
    >) {
        Ok(())
    }

    /// Handle MWAIT packet.
    ///
    /// `mwait_hints` is MWAIT Hints[7:0]; `ext` is EXT[1:0] (the upper 6
    /// bits are cleared).
    fn on_mwait_packet(&mut self, context: &DecoderContext, mwait_hints: u8, ext: u8) -> (r:
        Result<(), Self::Error>)
        requires
            ext <= 3,
    {
        Ok(())
    }

    /// Handle PWRE packet.
    ///
    /// `hw` is HW; `resolved_thread_c_state` and `resolved_thread_sub_c_state`
    /// have their upper 4 bits cleared.
    fn on_pwre_packet(
        &mut self,
        context: &DecoderContext,
        hw: bool,
        resolved_thread_c_state: u8,
        resolved_thread_sub_c_state: u8,
    ) -> (r: Result<(), Self::Error>)
        requires
            resolved_thread_c_state <= 15,
            resolved_thread_sub_c_state <= 15,
    {
        Ok(())
    }

    /// Handle PWRX packet.
    ///
    /// `last_core_c_state`, `deepest_core_c_state` and `wake_reason` have
    /// their upper 4 bits cleared.
    fn on_pwrx_packet(
        &mut self,
        context: &DecoderContext,
        last_core_c_state: u8,
        deepest_core_c_state: u8,
        wake_reason: u8,
    ) -> (r: Result<(), Self::Error>)
        requires
            last_core_c_state <= 15,
            deepest_core_c_state <= 15,
            wake_reason <= 15,
    {
        Ok(())
    }

    /// Handle EVD packet.
    ///
    /// `event_type` is Type[5:0] (the upper 2 bits are cleared); `payload`
    /// is Payload[63:0].
    fn on_evd_packet(&mut self, context: &DecoderContext, event_type: u8, payload: u64) -> (r:
        Result<(), Self::Error>)
        requires
            event_type <= 63,
    {
        Ok(())
    }

    /// Handle CFE packet.
    ///
    /// `ip_bit` is the IP bit; `event_type` is Type[4:0] (the upper 3 bits
    /// are cleared); `vector` is Vector[7:0].
    fn on_cfe_packet(
        &mut self,
        context: &DecoderContext,
        ip_bit: bool,
        event_type: u8,
        vector: u8,
    ) -> (r: Result<(), Self::Error>)
        requires
            event_type <= 31,
    {
        Ok(())
    }
}

/// The same decoding error, carried over to another handler error type
/// (never applied to a handler error itself).
pub open spec fn lift_err<E>(k: DecoderError<()>) -> DecoderError<E> {
    match k {
        DecoderError::PacketHandler(_) => DecoderError::Unexpected,
        DecoderError::InvalidPacket => DecoderError::InvalidPacket,
        DecoderError::NoPsb => DecoderError::NoPsb,
        DecoderError::UnexpectedEOF => DecoderError::UnexpectedEOF,
        DecoderError::Unimplemented => DecoderError::Unimplemented,
        DecoderError::Unexpected => DecoderError::Unexpected,
    }
}

/// The canonical 16-byte PSB marker.
pub open spec fn psb_seq() -> Seq<u8> {
    seq![
        0x02u8,
        0x82u8,
        0x02u8,
        0x82u8,
        0x02u8,
        0x82u8,
        0x02u8,
        0x82u8,
        0x02u8,
        0x82u8,
        0x02u8,
        0x82u8,
        0x02u8,
        0x82u8,
        0x02u8,
        0x82u8,
    ]
}

/// True if the canonical PSB marker occurs at offset `i` of `s`.
pub open spec fn is_psb_at(s: Seq<u8>, i: int) -> bool {
    0 <= i && i + 16 <= s.len() && s.subrange(i, i + 16) == psb_seq()
}

/// Relies on `memchr::memmem::find`: it returns the index of the first
/// occurrence of the needle (here the 16-byte PSB marker) in the haystack,
/// or `None` if the needle does not occur.
#[verifier::external_body]
fn find_psb(haystack: &[u8]) -> (r: Option<usize>)
    ensures
        match r {
            Some(i) => is_psb_at(haystack@, i as int) && forall|j: int|
                0 <= j < i ==> !is_psb_at(haystack@, j),
            None => forall|j: int| !is_psb_at(haystack@, j),
        },
{
    let needle: [u8; 16] = [
        0x02, 0x82, 0x02, 0x82, 0x02, 0x82, 0x02, 0x82, 0x02, 0x82, 0x02, 0x82, 0x02, 0x82, 0x02,
        0x82,
    ];
    memchr::memmem::find(haystack, &needle)
}

/// `le_val` fits in `8 * n` bits.
pub proof fn lemma_le_val_lt(s: Seq<u8>, pos: int, n: nat)
    ensures
        le_val(s, pos, n) < vstd::arithmetic::power2::pow2(8 * n),
    decreases n,
{
    vstd::arithmetic::power2::lemma2_to64();
    if n == 0 {
    } else {
        lemma_le_val_lt(s, pos + 1, (n - 1) as nat);
        let tail = le_val(s, pos + 1, (n - 1) as nat);
        let p = vstd::arithmetic::power2::pow2(8 * (n - 1) as nat);
        assert(vstd::arithmetic::power2::pow2(8 * n) == 256 * p) by {
            vstd::arithmetic::power2::lemma_pow2_adds(8, 8 * (n - 1) as nat);
            vstd::arithmetic::power2::lemma2_to64();
        }
        assert(le_val(s, pos, n) == s[pos] + 256 * tail);
        assert(s[pos] + 256 * tail < 256 + 256 * tail);
        assert(256 + 256 * tail <= 256 * p) by (nonlinear_arith)
            requires
                tail < p,
        ;
    }
}

/// Prefixes compose.
pub proof fn lemma_prefix_trans<T>(a: Seq<T>, b: Seq<T>, c: Seq<T>)
    requires
        a.is_prefix_of(b),
        b.is_prefix_of(c),
    ensures
        a.is_prefix_of(c),
{
    assert(b.take(a.len() as int) =~= a);
    assert(c.take(a.len() as int) =~= a);
}

/// A slice's length fits in `usize`.
pub proof fn lemma_slice_len_fits<T>(s: &[T])
    ensures
        s@.len() <= usize::MAX,
{
    broadcast use vstd::slice::axiom_spec_len;

    assert(vstd::slice::spec_slice_len(s) == s@.len());
}

/// `le_val` of up to 8 bytes fits the matching power-of-two bound.
pub proof fn lemma_le_val_fits(s: Seq<u8>, pos: int, n: nat)
    requires
        n <= 8,
    ensures
        n >= 2 ==> le_val(s, pos, n) < 0x1_0000_0000_0000_0000,
        n <= 2 ==> le_val(s, pos, n) < 0x1_0000,
        n <= 4 ==> le_val(s, pos, n) < 0x1_0000_0000,
        n <= 5 ==> le_val(s, pos, n) < 0x100_0000_0000,
        n <= 6 ==> le_val(s, pos, n) < 0x1_0000_0000_0000,
        n <= 7 ==> le_val(s, pos, n) < 0x100_0000_0000_0000,
{
    vstd::arithmetic::power2::lemma2_to64();
    vstd::arithmetic::power2::lemma2_to64_rest();
    lemma_le_val_lt(s, pos, n);
    if n < 8 {
        vstd::arithmetic::power2::lemma_pow2_strictly_increases(8 * n, 64);
    }
    if n < 2 {
        vstd::arithmetic::power2::lemma_pow2_strictly_increases(8 * n, 16);
    }
    if n < 4 {
        vstd::arithmetic::power2::lemma_pow2_strictly_increases(8 * n, 32);
    }
    if n < 5 {
        vstd::arithmetic::power2::lemma_pow2_strictly_increases(8 * n, 40);
    }
    if n < 6 {
        vstd::arithmetic::power2::lemma_pow2_strictly_increases(8 * n, 48);
    }
    if n < 7 {
        vstd::arithmetic::power2::lemma_pow2_strictly_increases(8 * n, 56);
    }
}

/// Read the `n` little-endian bytes at `pos` as an integer (`n <= 8`).
pub(crate) fn read_le(buf: &[u8], pos: usize, n: usize) -> (r: Option<u64>)
    requires
        1 <= n <= 8,
    ensures
        buf@.len() <= usize::MAX,
        pos + n <= buf@.len() ==> (r matches Some(v) && v == le_val(buf@, pos as int, n as nat)),
        pos + n > buf@.len() ==> r is None,
{

    if buf.len() < n || pos > buf.len() - n {
        return None;
    }
    let mut val: u64 = 0;
    let mut i: usize = n;
    proof {
        vstd::arithmetic::power2::lemma2_to64();
        vstd::arithmetic::power2::lemma2_to64_rest();
    }
    while i > 0
        invariant
            i <= n <= 8,
            pos + n <= buf@.len(),
            val == le_val(buf@, pos + i, (n - i) as nat),
            val < vstd::arithmetic::power2::pow2((8 * (n - i)) as nat),
            vstd::arithmetic::power2::pow2(64) == 0x1_0000_0000_0000_0000,
            buf@.len() <= usize::MAX,
        decreases i,
    {
        i = i - 1;
        let b = buf[pos + i];
        proof {
            lemma_le_val_lt(buf@, pos + i as int, (n - i) as nat);
            let tail = le_val(buf@, pos + i + 1, (n - i - 1) as nat);
            let p = vstd::arithmetic::power2::pow2((8 * (n - i - 1)) as nat);
            assert(vstd::arithmetic::power2::pow2((8 * (n - i)) as nat) == 256 * p) by {
                vstd::arithmetic::power2::lemma_pow2_adds(8, (8 * (n - i - 1)) as nat);
                vstd::arithmetic::power2::lemma2_to64();
            }
            assert(256 + 256 * tail <= 256 * p) by (nonlinear_arith)
                requires
                    tail < p,
            ;
            if 8 * (n - i) < 64 {
                vstd::arithmetic::power2::lemma_pow2_strictly_increases((8 * (n - i)) as nat, 64);
            }
        }
        val = val * 256 + (b as u64);
    }
    Some(val)
}

/// The offset where decoding starts: 0 when synchronization is disabled,
/// else the first PSB marker.
pub open spec fn spec_sync_start(s: Seq<u8>, options: DecodeOptions, start: int) -> bool {
    if options.spec_no_sync() {
        start == 0
    } else {
        &&& 0 <= start
        &&& is_psb_at(s, start)
        &&& forall|j: int| 0 <= j < start ==> !is_psb_at(s, j)
    }
}

/// Decode the given Intel PT buffer.
///
/// Unless `options` disables synchronization, decoding starts at the first
/// PSB marker; if none occurs the decode fails with
/// [`DecoderError::NoPsb`]. Decoding then dispatches one callback per
/// packet until the end of the buffer, and stops at the first error.
pub fn decode<H: HandlePacket>(
    buf: &[u8],
    options: DecodeOptions,
    packet_handler: &mut H,
) -> (r: Result<(), DecoderError<H::Error>>)
    ensures
        !options.spec_no_sync() && (forall|j: int| !is_psb_at(buf@, j)) <==> r == Result::<
            (),
            DecoderError<H::Error>,
        >::Err(DecoderError::NoPsb),
        options.spec_no_sync() && buf@.len() == 0 ==> r is Ok || r matches Err(
            DecoderError::PacketHandler(_),
        ),
        forall|start: int|
            spec_sync_start(buf@, options, start) ==> {
                let p = level1::spec_packets(buf@, start, options.spec_tracee_mode());
                &&& (r is Ok ==> p.error is None)
                &&& (p.error is None ==> r is Ok || r matches Err(DecoderError::PacketHandler(_)))
                &&& (r is Err && !(r matches Err(DecoderError::PacketHandler(_))) ==> ((
                p.error matches Some(k) && r == Result::<(), DecoderError<H::Error>>::Err(
                    lift_err::<H::Error>(k),
                ))))
            },
{
    let start_pos: usize = if options.no_sync {
        0
    } else {
        match find_psb(buf) {
            Some(start_pos) => start_pos,
            None => {
                return Err(DecoderError::NoPsb);
            },
        }
    };
    if let Err(e) = packet_handler.at_decode_begin() {
        return Err(DecoderError::PacketHandler(e));
    }
    let mut context = DecoderContext {
        pos: start_pos,
        tracee_mode: options.tracee_mode,
        events: Ghost(Seq::empty()),
    };
    let r = level1::decode(buf, &mut context, packet_handler);
    proof {
        if !options.spec_no_sync() {
            assert(is_psb_at(buf@, start_pos as int));
        }
        assert forall|start: int| spec_sync_start(buf@, options, start) implies start == start_pos
            as int by {
            if !options.spec_no_sync() {
                if start < start_pos as int {
                    assert(!is_psb_at(buf@, start));
                } else if start > start_pos as int {
                    assert(!is_psb_at(buf@, start_pos as int));
                }
            }
        }
    }
    match r {
        Ok(()) => Ok(()),
        Err(e) => Err(e),
    }
}

} // verus!
