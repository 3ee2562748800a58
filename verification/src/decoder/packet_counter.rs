//! Handler for counting total packets.

use vstd::prelude::*;

use crate::decoder::level1::IpReconstructionPattern;
use crate::decoder::level2::PtwPayload;
use crate::decoder::{DecoderContext, HandlePacket};

verus! {

/// A [`HandlePacket`] instance that counts Intel PT packets.
pub struct PacketCounter {
    packet_count: usize,
}

/// `n` bumped by one, staying within `usize`.
pub open spec fn counted_one(old_count: usize, new_count: usize) -> bool {
    new_count == if old_count < usize::MAX {
        old_count + 1
    } else {
        old_count as int
    }
}

impl PacketCounter {
    /// The number of packets seen so far.
    pub closed spec fn spec_count(&self) -> usize {
        self.packet_count
    }

    /// Create a new [`PacketCounter`].
    #[must_use]
    pub fn new() -> (r: Self)
        ensures
            r.spec_count() == 0,
    {
        PacketCounter { packet_count: 0 }
    }

    /// Get the total packet count.
    #[must_use]
    pub fn packet_count(&self) -> (r: usize)
        ensures
            r == self.spec_count(),
    {
        self.packet_count
    }

    /// Count one more packet, saturating at the `usize` limit.
    fn bump(&mut self)
        ensures
            counted_one(old(self).spec_count(), final(self).spec_count()),
    {
        if self.packet_count < usize::MAX {
            self.packet_count = self.packet_count + 1;
        }
    }
}

impl Default for PacketCounter {
    fn default() -> (r: Self)
        ensures
            r.spec_count() == 0,
    {
        PacketCounter { packet_count: 0 }
    }
}

impl HandlePacket for PacketCounter {
    // Will never fail
    type Error = ();

    fn at_decode_begin(&mut self) -> (r: Result<(), Self::Error>)
        ensures
            final(self).spec_count() == 0,
    {
        self.packet_count = 0;
        Ok(())
    }

    fn on_short_tnt_packet(
        &mut self,
        context: &DecoderContext,
        packet_byte: u8,
        highest_bit: u32,
    ) -> (r: Result<(), Self::Error>)
        ensures
            counted_one(old(self).spec_count(), final(self).spec_count()),
            r is Ok,
    {
        self.bump();
        Ok(())
    }

    fn on_long_tnt_packet(
        &mut self,
        context: &DecoderContext,
        packet_bytes: u64,
        highest_bit: u32,
    ) -> (r: Result<(), Self::Error>)
        ensures
            counted_one(old(self).spec_count(), final(self).spec_count()),
            r is Ok,
    {
        self.bump();
        Ok(())
    }

    fn on_tip_packet(
        &mut self,
        context: &DecoderContext,
        ip_reconstruction_pattern: IpReconstructionPattern,
    ) -> (r: Result<(), Self::Error>)
        ensures
            counted_one(old(self).spec_count(), final(self).spec_count()),
            r is Ok,
    {
        self.bump();
        Ok(())
    }

    fn on_tip_pgd_packet(
        &mut self,
        context: &DecoderContext,
        ip_reconstruction_pattern: IpReconstructionPattern,
    ) -> (r: Result<(), Self::Error>)
        ensures
            counted_one(old(self).spec_count(), final(self).spec_count()),
            r is Ok,
    {
        self.bump();
        Ok(())
    }

    fn on_tip_pge_packet(
        &mut self,
        context: &DecoderContext,
        ip_reconstruction_pattern: IpReconstructionPattern,
    ) -> (r: Result<(), Self::Error>)
        ensures
            counted_one(old(self).spec_count(), final(self).spec_count()),
            r is Ok,
    {
        self.bump();
        Ok(())
    }

    fn on_fup_packet(
        &mut self,
        context: &DecoderContext,
        ip_reconstruction_pattern: IpReconstructionPattern,
    ) -> (r: Result<(), Self::Error>)
        ensures
            counted_one(old(self).spec_count(), final(self).spec_count()),
            r is Ok,
    {
        self.bump();
        Ok(())
    }

    fn on_pad_packet(&mut self, context: &DecoderContext) -> (r: Result<(), Self::Error>)
        ensures
            counted_one(old(self).spec_count(), final(self).spec_count()),
            r is Ok,
    {
        self.bump();
        Ok(())
    }

    fn on_cyc_packet(&mut self, context: &DecoderContext, cyc_packet: &[u8]) -> (r: Result<
        (),
        Self::Error,
    >)
        ensures
            counted_one(old(self).spec_count(), final(self).spec_count()),
            r is Ok,
    {
        self.bump();
        Ok(())
    }

    fn on_mode_packet(&mut self, context: &DecoderContext, leaf_id: u8, mode: u8) -> (r: Result<
        (),
        Self::Error,
    >)
        ensures
            counted_one(old(self).spec_count(), final(self).spec_count()),
            r is Ok,
    {
        self.bump();
        Ok(())
    }

    fn on_mtc_packet(&mut self, context: &DecoderContext, ctc_payload: u8) -> (r: Result<
        (),
        Self::Error,
    >)
        ensures
            counted_one(old(self).spec_count(), final(self).spec_count()),
            r is Ok,
    {
        self.bump();
        Ok(())
    }

    fn on_tsc_packet(&mut self, context: &DecoderContext, tsc_value: u64) -> (r: Result<
        (),
        Self::Error,
    >)
        ensures
            counted_one(old(self).spec_count(), final(self).spec_count()),
            r is Ok,
    {
        self.bump();
        Ok(())
    }

    fn on_cbr_packet(&mut self, context: &DecoderContext, core_bus_ratio: u8) -> (r: Result<
        (),
        Self::Error,
    >)
        ensures
            counted_one(old(self).spec_count(), final(self).spec_count()),
            r is Ok,
    {
        self.bump();
        Ok(())
    }

    fn on_tma_packet(
        &mut self,
        context: &DecoderContext,
        ctc: u16,
        fast_counter: u8,
        fc8: bool,
    ) -> (r: Result<(), Self::Error>)
        ensures
            counted_one(old(self).spec_count(), final(self).spec_count()),
            r is Ok,
    {
        self.bump();
        Ok(())
    }

    fn on_vmcs_packet(&mut self, context: &DecoderContext, vmcs_pointer: u64) -> (r: Result<
        (),
        Self::Error,
    >)
        ensures
            counted_one(old(self).spec_count(), final(self).spec_count()),
            r is Ok,
    {
        self.bump();
        Ok(())
    }

    fn on_ovf_packet(&mut self, context: &DecoderContext) -> (r: Result<(), Self::Error>)
        ensures
            counted_one(old(self).spec_count(), final(self).spec_count()),
            r is Ok,
    {
        self.bump();
        Ok(())
    }

    fn on_psb_packet(&mut self, context: &DecoderContext) -> (r: Result<(), Self::Error>)
        ensures
            counted_one(old(self).spec_count(), final(self).spec_count()),
            r is Ok,
    {
        self.bump();
        Ok(())
    }

    fn on_psbend_packet(&mut self, context: &DecoderContext) -> (r: Result<(), Self::Error>)
        ensures
            counted_one(old(self).spec_count(), final(self).spec_count()),
            r is Ok,
    {
        self.bump();
        Ok(())
    }

    fn on_trace_stop_packet(&mut self, context: &DecoderContext) -> (r: Result<(), Self::Error>)
        ensures
            counted_one(old(self).spec_count(), final(self).spec_count()),
            r is Ok,
    {
        self.bump();
        Ok(())
    }

    fn on_pip_packet(&mut self, context: &DecoderContext, cr3: u64, rsvd_nr: bool) -> (r: Result<
        (),
        Self::Error,
    >)
        ensures
            counted_one(old(self).spec_count(), final(self).spec_count()),
            r is Ok,
    {
        self.bump();
        Ok(())
    }

    fn on_mnt_packet(&mut self, context: &DecoderContext, payload: u64) -> (r: Result<
        (),
        Self::Error,
    >)
        ensures
            counted_one(old(self).spec_count(), final(self).spec_count()),
            r is Ok,
    {
        self.bump();
        Ok(())
    }

    fn on_ptw_packet(&mut self, context: &DecoderContext, ip_bit: bool, payload: PtwPayload) -> (r:
        Result<(), Self::Error>)
        ensures
            counted_one(old(self).spec_count(), final(self).spec_count()),
            r is Ok,
    {
        self.bump();
        Ok(())
    }

    fn on_exstop_packet(&mut self, context: &DecoderContext, ip_bit: bool) -> (r: Result<
        (),
        Self::Error,
    >)
        ensures
            counted_one(old(self).spec_count(), final(self).spec_count()),
            r is Ok,
    {
        self.bump();
        Ok(())
    }

    fn on_mwait_packet(&mut self, context: &DecoderContext, mwait_hints: u8, ext: u8) -> (r:
        Result<(), Self::Error>)
        ensures
            counted_one(old(self).spec_count(), final(self).spec_count()),
            r is Ok,
    {
        self.bump();
        Ok(())
    }

    fn on_pwre_packet(
        &mut self,
        context: &DecoderContext,
        hw: bool,
        resolved_thread_c_state: u8,
        resolved_thread_sub_c_state: u8,
    ) -> (r: Result<(), Self::Error>)
        ensures
            counted_one(old(self).spec_count(), final(self).spec_count()),
            r is Ok,
    {
        self.bump();
        Ok(())
    }

    fn on_pwrx_packet(
        &mut self,
        context: &DecoderContext,
        last_core_c_state: u8,
        deepest_core_c_state: u8,
        wake_reason: u8,
    ) -> (r: Result<(), Self::Error>)
        ensures
            counted_one(old(self).spec_count(), final(self).spec_count()),
            r is Ok,
    {
        self.bump();
        Ok(())
    }

    fn on_evd_packet(&mut self, context: &DecoderContext, event_type: u8, payload: u64) -> (r:
        Result<(), Self::Error>)
        ensures
            counted_one(old(self).spec_count(), final(self).spec_count()),
            r is Ok,
    {
        self.bump();
        Ok(())
    }

    fn on_cfe_packet(
        &mut self,
        context: &DecoderContext,
        ip_bit: bool,
        event_type: u8,
        vector: u8,
    ) -> (r: Result<(), Self::Error>)
        ensures
            counted_one(old(self).spec_count(), final(self).spec_count()),
            r is Ok,
    {
        self.bump();
        Ok(())
    }
}

} // verus!
