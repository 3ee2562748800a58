//! Tests for the packet decoder: end-to-end packet streams against a
//! recording handler.

use iptr::decoder::error::DecoderError;
use iptr::decoder::level1::IpReconstructionPattern;
use iptr::decoder::packet_counter::PacketCounter;
use iptr::decoder::utils::reconstruct_ip_and_update_last;
use iptr::decoder::{decode, DecodeOptions, DecoderContext, HandlePacket, TraceeMode};

#[derive(Debug, PartialEq, Eq, Clone, Copy)]
enum Event {
    Psb,
    Psbend,
    Pad,
    ShortTnt(u8, u32),
    LongTnt(u64, u32),
    Tip(IpReconstructionPattern),
    Cbr(u8),
    Cfe(bool, u8, u8),
    Mode(u8, u8, u32),
}

struct Recorder {
    events: Vec<Event>,
}

impl Recorder {
    fn new() -> Self {
        Recorder { events: Vec::new() }
    }
}

impl HandlePacket for Recorder {
    type Error = ();

    fn on_psb_packet(&mut self, _context: &DecoderContext) -> Result<(), ()> {
        self.events.push(Event::Psb);
        Ok(())
    }

    fn on_psbend_packet(&mut self, _context: &DecoderContext) -> Result<(), ()> {
        self.events.push(Event::Psbend);
        Ok(())
    }

    fn on_pad_packet(&mut self, _context: &DecoderContext) -> Result<(), ()> {
        self.events.push(Event::Pad);
        Ok(())
    }

    fn on_short_tnt_packet(
        &mut self,
        _context: &DecoderContext,
        packet_byte: u8,
        highest_bit: u32,
    ) -> Result<(), ()> {
        self.events.push(Event::ShortTnt(packet_byte, highest_bit));
        Ok(())
    }

    fn on_long_tnt_packet(
        &mut self,
        _context: &DecoderContext,
        packet_bytes: u64,
        highest_bit: u32,
    ) -> Result<(), ()> {
        self.events.push(Event::LongTnt(packet_bytes, highest_bit));
        Ok(())
    }

    fn on_tip_packet(
        &mut self,
        _context: &DecoderContext,
        ip_reconstruction_pattern: IpReconstructionPattern,
    ) -> Result<(), ()> {
        self.events.push(Event::Tip(ip_reconstruction_pattern));
        Ok(())
    }

    fn on_cbr_packet(&mut self, _context: &DecoderContext, core_bus_ratio: u8) -> Result<(), ()> {
        self.events.push(Event::Cbr(core_bus_ratio));
        Ok(())
    }

    fn on_cfe_packet(
        &mut self,
        _context: &DecoderContext,
        ip_bit: bool,
        event_type: u8,
        vector: u8,
    ) -> Result<(), ()> {
        self.events.push(Event::Cfe(ip_bit, event_type, vector));
        Ok(())
    }

    fn on_mode_packet(&mut self, context: &DecoderContext, leaf_id: u8, mode: u8) -> Result<(), ()> {
        self.events
            .push(Event::Mode(leaf_id, mode, context.tracee_mode().bitness()));
        Ok(())
    }
}

fn psb_bytes() -> Vec<u8> {
    let mut v = Vec::new();
    for _ in 0..8 {
        v.push(0x02);
        v.push(0x82);
    }
    v
}

fn run(stream: &[u8]) -> Result<Vec<Event>, DecoderError<()>> {
    let mut recorder = Recorder::new();
    decode(stream, DecodeOptions::default(), &mut recorder)?;
    Ok(recorder.events)
}

#[test]
fn psb_pads_psbend() {
    let mut stream = psb_bytes();
    stream.extend_from_slice(&[0x00, 0x00, 0x00, 0x02, 0x23]);
    let events = run(&stream).unwrap();
    assert_eq!(
        events,
        vec![Event::Psb, Event::Pad, Event::Pad, Event::Pad, Event::Psbend]
    );
}

#[test]
fn short_tnt_packet() {
    let mut stream = psb_bytes();
    stream.extend_from_slice(&[0b0110_1010, 0x02, 0x23]);
    let events = run(&stream).unwrap();
    assert_eq!(
        events,
        vec![Event::Psb, Event::ShortTnt(0x6A, 5), Event::Psbend]
    );
}

#[test]
fn tip_two_bytes_with_last_ip() {
    let mut stream = psb_bytes();
    // TIP header with IPBytes = 0b001, then the 2-byte IP payload
    stream.extend_from_slice(&[0x2D, 0xCD, 0xAB, 0x02, 0x23]);
    let events = run(&stream).unwrap();
    assert_eq!(
        events,
        vec![
            Event::Psb,
            Event::Tip(IpReconstructionPattern::TwoBytesWithLastIp(0xABCD)),
            Event::Psbend
        ]
    );
}

#[test]
fn long_tnt_single_stop_bit() {
    let mut stream = psb_bytes();
    stream.extend_from_slice(&[0x02, 0xA3, 0x01, 0x00, 0x00, 0x00, 0x00, 0x00, 0x02, 0x23]);
    let events = run(&stream).unwrap();
    // The payload is only the stop bit: no valid TNT bits
    assert_eq!(
        events,
        vec![Event::Psb, Event::LongTnt(0x1, u32::MAX), Event::Psbend]
    );
}

#[test]
fn long_tnt_topmost_valid_bit() {
    let mut stream = psb_bytes();
    // Payload with the stop marker at bit 47: the top valid bit is 46
    stream.extend_from_slice(&[0x02, 0xA3, 0x01, 0x00, 0x00, 0x00, 0x00, 0x80, 0x02, 0x23]);
    let events = run(&stream).unwrap();
    assert_eq!(
        events,
        vec![Event::Psb, Event::LongTnt(0x8000_0000_0001, 46), Event::Psbend]
    );
}

#[test]
fn long_tnt_without_stop_bit_is_invalid() {
    let mut stream = psb_bytes();
    stream.extend_from_slice(&[0x02, 0xA3, 0x00, 0x00, 0x00, 0x00, 0x00, 0x00]);
    assert_eq!(run(&stream), Err(DecoderError::InvalidPacket));
}

#[test]
fn cbr_packet() {
    let mut stream = psb_bytes();
    stream.extend_from_slice(&[0x02, 0x03, 0x07, 0x00, 0x02, 0x23]);
    let events = run(&stream).unwrap();
    assert_eq!(events, vec![Event::Psb, Event::Cbr(7), Event::Psbend]);
}

#[test]
fn cfe_packet() {
    let mut stream = psb_bytes();
    stream.extend_from_slice(&[0x02, 0x13, 0x87, 0x42, 0x02, 0x23]);
    let events = run(&stream).unwrap();
    assert_eq!(
        events,
        vec![Event::Psb, Event::Cfe(true, 7, 0x42), Event::Psbend]
    );
}

#[test]
fn no_psb_is_reported() {
    let stream = [0xAA, 0xBB, 0xCC];
    assert_eq!(run(&stream), Err(DecoderError::NoPsb));
}

#[test]
fn psb_with_corrupt_payload_is_invalid() {
    // Decodes as a PSB packet but the 16 bytes differ from the canonical
    // marker: sync is disabled so decoding starts right at it
    let mut stream = psb_bytes();
    stream[15] = 0x83;
    let mut recorder = Recorder::new();
    let mut options = DecodeOptions::default();
    options.sync(false);
    let res = decode(&stream, options, &mut recorder);
    assert_eq!(res, Err(DecoderError::InvalidPacket));
}

#[test]
fn truncated_tsc_is_eof() {
    let mut stream = psb_bytes();
    stream.extend_from_slice(&[0x19, 0x01, 0x02]);
    assert_eq!(run(&stream), Err(DecoderError::UnexpectedEOF));
}

#[test]
fn mnt_with_wrong_third_byte_is_invalid() {
    let mut stream = psb_bytes();
    stream.extend_from_slice(&[0x02, 0xC3, 0x77, 0, 0, 0, 0, 0, 0, 0, 0]);
    assert_eq!(run(&stream), Err(DecoderError::InvalidPacket));
}

#[test]
fn mode_exec_switches_bitness() {
    let mut stream = psb_bytes();
    // MODE.exec selecting 32-bit, then another MODE packet that records the
    // context's (already switched) bitness
    stream.extend_from_slice(&[0x99, 0b0000_0010, 0x99, 0b0000_0010, 0x02, 0x23]);
    let events = run(&stream).unwrap();
    assert_eq!(
        events,
        vec![
            Event::Psb,
            Event::Mode(0, 2, 32),
            Event::Mode(0, 2, 32),
            Event::Psbend
        ]
    );
}

#[test]
fn six_byte_ip_rejected_outside_64_bit_mode() {
    let mut stream = psb_bytes();
    // Switch to 32-bit mode, then a TIP with a six-byte payload
    stream.extend_from_slice(&[0x99, 0b0000_0010, 0x6D, 1, 2, 3, 4, 5, 6]);
    assert_eq!(run(&stream), Err(DecoderError::InvalidPacket));
}

#[test]
fn packet_counter_counts_packets() {
    let mut stream = psb_bytes();
    stream.extend_from_slice(&[0x00, 0x00, 0x00, 0x02, 0x23]);
    let mut counter = PacketCounter::new();
    decode(&stream, DecodeOptions::default(), &mut counter).unwrap();
    assert_eq!(counter.packet_count(), 5);
}

#[test]
fn ip_reconstruction_updates_last_ip() {
    let mut last_ip: u64 = 0x1122_3344_5566_7788;
    // Out of context: untouched
    assert!(!reconstruct_ip_and_update_last(
        &mut last_ip,
        IpReconstructionPattern::OutOfContext
    ));
    assert_eq!(last_ip, 0x1122_3344_5566_7788);
    // Two bytes: only the low 16 bits are replaced
    assert!(reconstruct_ip_and_update_last(
        &mut last_ip,
        IpReconstructionPattern::TwoBytesWithLastIp(0xABCD)
    ));
    assert_eq!(last_ip, 0x1122_3344_5566_ABCD);
    // Eight bytes replace the IP entirely
    assert!(reconstruct_ip_and_update_last(
        &mut last_ip,
        IpReconstructionPattern::EightBytes(0xDEAD_BEEF)
    ));
    assert_eq!(last_ip, 0xDEAD_BEEF);
    // Six bytes with the top payload bit set are sign-extended
    assert!(reconstruct_ip_and_update_last(
        &mut last_ip,
        IpReconstructionPattern::SixBytesExtended(0x8000_0000_1234)
    ));
    assert_eq!(last_ip, 0xFFFF_8000_0000_1234);
}

#[test]
fn default_options_use_64_bit_mode() {
    let mut options = DecodeOptions::default();
    options.tracee_mode(TraceeMode::Mode16);
    options.tracee_mode(TraceeMode::Mode64);
    options.sync(true);
    assert_eq!(TraceeMode::Mode64.bitness(), 64);
    assert_eq!(TraceeMode::Mode32.bitness(), 32);
    assert_eq!(TraceeMode::Mode16.bitness(), 16);
}

#[test]
fn test_decoder_context_new_starts_fresh() {
    let context = iptr::decoder::DecoderContext::new(3, iptr::decoder::TraceeMode::Mode32);
    assert!(matches!(
        context.tracee_mode(),
        iptr::decoder::TraceeMode::Mode32
    ));
}

#[test]
fn test_level1_decode_counts_pad_run() {
    let buf = [0u8, 0, 0, 0];
    let mut context = iptr::decoder::DecoderContext::new(0, iptr::decoder::TraceeMode::Mode64);
    let mut counter = PacketCounter::new();
    let res = iptr::decoder::level1::decode(&buf, &mut context, &mut counter);
    assert!(res.is_ok());
    assert_eq!(counter.packet_count(), 4);
}
