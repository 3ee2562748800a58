//! Handler for combining two sub handlers.
//!
//! In every packet handler method the first handler runs before the second,
//! and an error from the first handler returns without running the second.

use vstd::prelude::*;

use crate::decoder::level1::IpReconstructionPattern;
use crate::decoder::level2::PtwPayload;
use crate::decoder::{DecoderContext, HandlePacket};

verus! {

/// A [`HandlePacket`] instance that combines two sub handlers with static
/// dispatch.
pub struct CombinedPacketHandler<H1, H2> {
    handler1: H1,
    handler2: H2,
}

/// Error for [`CombinedPacketHandler`]: the failing sub handler's error.
#[derive(Debug, Clone, Copy, PartialEq, Eq)]
pub enum CombinedError<E1, E2> {
    /// Error of the first handler
    H1Error(E1),
    /// Error of the second handler
    H2Error(E2),
}

impl<H1, H2> CombinedPacketHandler<H1, H2> {
    /// The first sub handler.
    pub closed spec fn spec_handler1(&self) -> H1 {
        self.handler1
    }

    /// The second sub handler.
    pub closed spec fn spec_handler2(&self) -> H2 {
        self.handler2
    }

    /// Create a new [`CombinedPacketHandler`].
    #[must_use]
    pub fn new(handler1: H1, handler2: H2) -> (r: Self)
        ensures
            r.spec_handler1() == handler1,
            r.spec_handler2() == handler2,
    {
        CombinedPacketHandler { handler1, handler2 }
    }

    /// Consume the handler and return the original two handlers.
    pub fn into_inner(self) -> (r: (H1, H2))
        ensures
            r.0 == self.spec_handler1(),
            r.1 == self.spec_handler2(),
    {
        (self.handler1, self.handler2)
    }

    /// Get a shared reference to handler1.
    pub fn handler1(&self) -> (r: &H1)
        ensures
            *r == self.spec_handler1(),
    {
        &self.handler1
    }

    /// Get a shared reference to handler2.
    pub fn handler2(&self) -> (r: &H2)
        ensures
            *r == self.spec_handler2(),
    {
        &self.handler2
    }
}

impl<H1: HandlePacket, H2: HandlePacket> HandlePacket for CombinedPacketHandler<H1, H2> {
    type Error = CombinedError<H1::Error, H2::Error>;

    fn at_decode_begin(&mut self) -> (r: Result<(), Self::Error>) {
        if let Err(e) = self.handler1.at_decode_begin() {
            return Err(CombinedError::H1Error(e));
        }
        if let Err(e) = self.handler2.at_decode_begin() {
            return Err(CombinedError::H2Error(e));
        }
        Ok(())
    }

    fn on_short_tnt_packet(&mut self, context: &DecoderContext, packet_byte: u8, highest_bit: u32) -> (r: Result<(), Self::Error>) {
        if let Err(e) = self.handler1.on_short_tnt_packet(context, packet_byte, highest_bit) {
            return Err(CombinedError::H1Error(e));
        }
        if let Err(e) = self.handler2.on_short_tnt_packet(context, packet_byte, highest_bit) {
            return Err(CombinedError::H2Error(e));
        }
        Ok(())
    }

    fn on_long_tnt_packet(&mut self, context: &DecoderContext, packet_bytes: u64, highest_bit: u32) -> (r: Result<(), Self::Error>) {
        if let Err(e) = self.handler1.on_long_tnt_packet(context, packet_bytes, highest_bit) {
            return Err(CombinedError::H1Error(e));
        }
        if let Err(e) = self.handler2.on_long_tnt_packet(context, packet_bytes, highest_bit) {
            return Err(CombinedError::H2Error(e));
        }
        Ok(())
    }

    fn on_tip_packet(&mut self, context: &DecoderContext, ip_reconstruction_pattern: IpReconstructionPattern) -> (r: Result<(), Self::Error>) {
        if let Err(e) = self.handler1.on_tip_packet(context, ip_reconstruction_pattern) {
            return Err(CombinedError::H1Error(e));
        }
        if let Err(e) = self.handler2.on_tip_packet(context, ip_reconstruction_pattern) {
            return Err(CombinedError::H2Error(e));
        }
        Ok(())
    }

    fn on_tip_pgd_packet(&mut self, context: &DecoderContext, ip_reconstruction_pattern: IpReconstructionPattern) -> (r: Result<(), Self::Error>) {
        if let Err(e) = self.handler1.on_tip_pgd_packet(context, ip_reconstruction_pattern) {
            return Err(CombinedError::H1Error(e));
        }
        if let Err(e) = self.handler2.on_tip_pgd_packet(context, ip_reconstruction_pattern) {
            return Err(CombinedError::H2Error(e));
        }
        Ok(())
    }

    fn on_tip_pge_packet(&mut self, context: &DecoderContext, ip_reconstruction_pattern: IpReconstructionPattern) -> (r: Result<(), Self::Error>) {
        if let Err(e) = self.handler1.on_tip_pge_packet(context, ip_reconstruction_pattern) {
            return Err(CombinedError::H1Error(e));
        }
        if let Err(e) = self.handler2.on_tip_pge_packet(context, ip_reconstruction_pattern) {
            return Err(CombinedError::H2Error(e));
        }
        Ok(())
    }

    fn on_fup_packet(&mut self, context: &DecoderContext, ip_reconstruction_pattern: IpReconstructionPattern) -> (r: Result<(), Self::Error>) {
        if let Err(e) = self.handler1.on_fup_packet(context, ip_reconstruction_pattern) {
            return Err(CombinedError::H1Error(e));
        }
        if let Err(e) = self.handler2.on_fup_packet(context, ip_reconstruction_pattern) {
            return Err(CombinedError::H2Error(e));
        }
        Ok(())
    }

    fn on_pad_packet(&mut self, context: &DecoderContext) -> (r: Result<(), Self::Error>) {
        if let Err(e) = self.handler1.on_pad_packet(context) {
            return Err(CombinedError::H1Error(e));
        }
        if let Err(e) = self.handler2.on_pad_packet(context) {
            return Err(CombinedError::H2Error(e));
        }
        Ok(())
    }

    fn on_cyc_packet(&mut self, context: &DecoderContext, cyc_packet: &[u8]) -> (r: Result<(), Self::Error>) {
        if let Err(e) = self.handler1.on_cyc_packet(context, cyc_packet) {
            return Err(CombinedError::H1Error(e));
        }
        if let Err(e) = self.handler2.on_cyc_packet(context, cyc_packet) {
            return Err(CombinedError::H2Error(e));
        }
        Ok(())
    }

    fn on_mode_packet(&mut self, context: &DecoderContext, leaf_id: u8, mode: u8) -> (r: Result<(), Self::Error>) {
        if let Err(e) = self.handler1.on_mode_packet(context, leaf_id, mode) {
            return Err(CombinedError::H1Error(e));
        }
        if let Err(e) = self.handler2.on_mode_packet(context, leaf_id, mode) {
            return Err(CombinedError::H2Error(e));
        }
        Ok(())
    }

    fn on_mtc_packet(&mut self, context: &DecoderContext, ctc_payload: u8) -> (r: Result<(), Self::Error>) {
        if let Err(e) = self.handler1.on_mtc_packet(context, ctc_payload) {
            return Err(CombinedError::H1Error(e));
        }
        if let Err(e) = self.handler2.on_mtc_packet(context, ctc_payload) {
            return Err(CombinedError::H2Error(e));
        }
        Ok(())
    }

    fn on_tsc_packet(&mut self, context: &DecoderContext, tsc_value: u64) -> (r: Result<(), Self::Error>) {
        if let Err(e) = self.handler1.on_tsc_packet(context, tsc_value) {
            return Err(CombinedError::H1Error(e));
        }
        if let Err(e) = self.handler2.on_tsc_packet(context, tsc_value) {
            return Err(CombinedError::H2Error(e));
        }
        Ok(())
    }

    fn on_cbr_packet(&mut self, context: &DecoderContext, core_bus_ratio: u8) -> (r: Result<(), Self::Error>) {
        if let Err(e) = self.handler1.on_cbr_packet(context, core_bus_ratio) {
            return Err(CombinedError::H1Error(e));
        }
        if let Err(e) = self.handler2.on_cbr_packet(context, core_bus_ratio) {
            return Err(CombinedError::H2Error(e));
        }
        Ok(())
    }

    fn on_tma_packet(&mut self, context: &DecoderContext, ctc: u16, fast_counter: u8, fc8: bool) -> (r: Result<(), Self::Error>) {
        if let Err(e) = self.handler1.on_tma_packet(context, ctc, fast_counter, fc8) {
            return Err(CombinedError::H1Error(e));
        }
        if let Err(e) = self.handler2.on_tma_packet(context, ctc, fast_counter, fc8) {
            return Err(CombinedError::H2Error(e));
        }
        Ok(())
    }

    fn on_vmcs_packet(&mut self, context: &DecoderContext, vmcs_pointer: u64) -> (r: Result<(), Self::Error>) {
        if let Err(e) = self.handler1.on_vmcs_packet(context, vmcs_pointer) {
            return Err(CombinedError::H1Error(e));
        }
        if let Err(e) = self.handler2.on_vmcs_packet(context, vmcs_pointer) {
            return Err(CombinedError::H2Error(e));
        }
        Ok(())
    }

    fn on_ovf_packet(&mut self, context: &DecoderContext) -> (r: Result<(), Self::Error>) {
        if let Err(e) = self.handler1.on_ovf_packet(context) {
            return Err(CombinedError::H1Error(e));
        }
        if let Err(e) = self.handler2.on_ovf_packet(context) {
            return Err(CombinedError::H2Error(e));
        }
        Ok(())
    }

    fn on_psb_packet(&mut self, context: &DecoderContext) -> (r: Result<(), Self::Error>) {
        if let Err(e) = self.handler1.on_psb_packet(context) {
            return Err(CombinedError::H1Error(e));
        }
        if let Err(e) = self.handler2.on_psb_packet(context) {
            return Err(CombinedError::H2Error(e));
        }
        Ok(())
    }

    fn on_psbend_packet(&mut self, context: &DecoderContext) -> (r: Result<(), Self::Error>) {
        if let Err(e) = self.handler1.on_psbend_packet(context) {
            return Err(CombinedError::H1Error(e));
        }
        if let Err(e) = self.handler2.on_psbend_packet(context) {
            return Err(CombinedError::H2Error(e));
        }
        Ok(())
    }

    fn on_trace_stop_packet(&mut self, context: &DecoderContext) -> (r: Result<(), Self::Error>) {
        if let Err(e) = self.handler1.on_trace_stop_packet(context) {
            return Err(CombinedError::H1Error(e));
        }
        if let Err(e) = self.handler2.on_trace_stop_packet(context) {
            return Err(CombinedError::H2Error(e));
        }
        Ok(())
    }

    fn on_pip_packet(&mut self, context: &DecoderContext, cr3: u64, rsvd_nr: bool) -> (r: Result<(), Self::Error>) {
        if let Err(e) = self.handler1.on_pip_packet(context, cr3, rsvd_nr) {
            return Err(CombinedError::H1Error(e));
        }
        if let Err(e) = self.handler2.on_pip_packet(context, cr3, rsvd_nr) {
            return Err(CombinedError::H2Error(e));
        }
        Ok(())
    }

    fn on_mnt_packet(&mut self, context: &DecoderContext, payload: u64) -> (r: Result<(), Self::Error>) {
        if let Err(e) = self.handler1.on_mnt_packet(context, payload) {
            return Err(CombinedError::H1Error(e));
        }
        if let Err(e) = self.handler2.on_mnt_packet(context, payload) {
            return Err(CombinedError::H2Error(e));
        }
        Ok(())
    }

    fn on_ptw_packet(&mut self, context: &DecoderContext, ip_bit: bool, payload: PtwPayload) -> (r: Result<(), Self::Error>) {
        if let Err(e) = self.handler1.on_ptw_packet(context, ip_bit, payload) {
            return Err(CombinedError::H1Error(e));
        }
        if let Err(e) = self.handler2.on_ptw_packet(context, ip_bit, payload) {
            return Err(CombinedError::H2Error(e));
        }
        Ok(())
    }

    fn on_exstop_packet(&mut self, context: &DecoderContext, ip_bit: bool) -> (r: Result<(), Self::Error>) {
        if let Err(e) = self.handler1.on_exstop_packet(context, ip_bit) {
            return Err(CombinedError::H1Error(e));
        }
        if let Err(e) = self.handler2.on_exstop_packet(context, ip_bit) {
            return Err(CombinedError::H2Error(e));
        }
        Ok(())
    }

    fn on_mwait_packet(&mut self, context: &DecoderContext, mwait_hints: u8, ext: u8) -> (r: Result<(), Self::Error>) {
        if let Err(e) = self.handler1.on_mwait_packet(context, mwait_hints, ext) {
            return Err(CombinedError::H1Error(e));
        }
        if let Err(e) = self.handler2.on_mwait_packet(context, mwait_hints, ext) {
            return Err(CombinedError::H2Error(e));
        }
        Ok(())
    }

    fn on_pwre_packet(&mut self, context: &DecoderContext, hw: bool, resolved_thread_c_state: u8, resolved_thread_sub_c_state: u8) -> (r: Result<(), Self::Error>) {
        if let Err(e) = self.handler1.on_pwre_packet(context, hw, resolved_thread_c_state, resolved_thread_sub_c_state) {
            return Err(CombinedError::H1Error(e));
        }
        if let Err(e) = self.handler2.on_pwre_packet(context, hw, resolved_thread_c_state, resolved_thread_sub_c_state) {
            return Err(CombinedError::H2Error(e));
        }
        Ok(())
    }

    fn on_pwrx_packet(&mut self, context: &DecoderContext, last_core_c_state: u8, deepest_core_c_state: u8, wake_reason: u8) -> (r: Result<(), Self::Error>) {
        if let Err(e) = self.handler1.on_pwrx_packet(context, last_core_c_state, deepest_core_c_state, wake_reason) {
            return Err(CombinedError::H1Error(e));
        }
        if let Err(e) = self.handler2.on_pwrx_packet(context, last_core_c_state, deepest_core_c_state, wake_reason) {
            return Err(CombinedError::H2Error(e));
        }
        Ok(())
    }

    fn on_evd_packet(&mut self, context: &DecoderContext, event_type: u8, payload: u64) -> (r: Result<(), Self::Error>) {
        if let Err(e) = self.handler1.on_evd_packet(context, event_type, payload) {
            return Err(CombinedError::H1Error(e));
        }
        if let Err(e) = self.handler2.on_evd_packet(context, event_type, payload) {
            return Err(CombinedError::H2Error(e));
        }
        Ok(())
    }

    fn on_cfe_packet(&mut self, context: &DecoderContext, ip_bit: bool, event_type: u8, vector: u8) -> (r: Result<(), Self::Error>) {
        if let Err(e) = self.handler1.on_cfe_packet(context, ip_bit, event_type, vector) {
            return Err(CombinedError::H1Error(e));
        }
        if let Err(e) = self.handler2.on_cfe_packet(context, ip_bit, event_type, vector) {
            return Err(CombinedError::H2Error(e));
        }
        Ok(())
    }

}

} // verus!
