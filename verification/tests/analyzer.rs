//! Tests for the edge analyzer: control flow reconstruction over a small
//! in-memory image, TNT replay caching, and return-compression rejection.

use iptr::analyzer::error::AnalyzerError;
use iptr::analyzer::fuzz_bitmap::FuzzBitmapControlFlowHandler;
use iptr::analyzer::handler::{ControlFlowTransitionKind, HandleControlFlow};
use iptr::analyzer::memory_reader::BufferMemoryReader;
use iptr::analyzer::EdgeAnalyzer;
use iptr::decoder::error::DecoderError;
use iptr::decoder::{decode, DecodeOptions};

#[derive(Debug, PartialEq, Eq, Clone, Copy)]
enum CfEvent {
    Block(u64, ControlFlowTransitionKind),
    Reused(u64),
}

struct CfRecorder {
    events: Vec<CfEvent>,
    caching: bool,
    next_key: u32,
}

impl CfRecorder {
    fn new(caching: bool) -> Self {
        CfRecorder {
            events: Vec::new(),
            caching,
            next_key: 0,
        }
    }
}

impl HandleControlFlow for CfRecorder {
    type Error = ();
    type CachedKey = u32;

    fn at_decode_begin(&mut self) -> Result<(), ()> {
        Ok(())
    }

    fn on_new_block(
        &mut self,
        block_addr: u64,
        transition_kind: ControlFlowTransitionKind,
        _cache: bool,
    ) -> Result<(), ()> {
        self.events.push(CfEvent::Block(block_addr, transition_kind));
        Ok(())
    }

    fn cache_prev_cached_key(&mut self, _cached_key: u32) -> Result<(), ()> {
        Ok(())
    }

    fn take_cache(&mut self) -> Result<Option<u32>, ()> {
        if self.caching {
            self.next_key += 1;
            Ok(Some(self.next_key))
        } else {
            Ok(None)
        }
    }

    fn clear_current_cache(&mut self) -> Result<(), ()> {
        Ok(())
    }

    fn on_reused_cache(&mut self, _cached_key: &u32, new_bb: u64) -> Result<(), ()> {
        self.events.push(CfEvent::Reused(new_bb));
        Ok(())
    }

    fn should_clear_all_cache(&mut self) -> Result<bool, ()> {
        Ok(false)
    }
}

fn psb_bytes() -> Vec<u8> {
    let mut v = Vec::new();
    for _ in 0..8 {
        v.push(0x02);
        v.push(0x82);
    }
    v
}

/// TIP packet with an eight-byte IP payload.
fn tip_bytes(ip: u64) -> Vec<u8> {
    let mut v = vec![0xCD];
    v.extend_from_slice(&ip.to_le_bytes());
    v
}

/// An image mapped at `base` where every address in `branch_sites` holds a
/// `je` (0F 84) to the address 0x100 further on; everything else is NOP.
fn branchy_image(base: u64, size: usize, branch_sites: &[u64]) -> Vec<u8> {
    let mut content = vec![0x90u8; size];
    for &site in branch_sites {
        let off = (site - base) as usize;
        let rel: i32 = 0x100 - 6;
        content[off] = 0x0F;
        content[off + 1] = 0x84;
        content[off + 2..off + 6].copy_from_slice(&rel.to_le_bytes());
    }
    content
}

#[test]
fn tip_and_short_tnt_walk_branches() {
    // Blocks at 0x500 and 0x600 each start with a conditional branch to
    // the block 0x100 further on
    let image = branchy_image(0x400, 0x2000, &[0x500, 0x600]);
    let reader = BufferMemoryReader::new(0x400, image);
    let handler = CfRecorder::new(false);
    let mut analyzer = EdgeAnalyzer::new(handler, reader);

    let mut stream = psb_bytes();
    stream.extend_from_slice(&tip_bytes(0x500));
    // Short TNT with two taken bits
    stream.push(0b0000_1110);
    // A final TIP flushes the pending TNT bits
    stream.extend_from_slice(&tip_bytes(0x500));
    decode(&stream, DecodeOptions::default(), &mut analyzer).unwrap();

    let (handler, _reader) = analyzer.into_inner();
    assert_eq!(
        handler.events,
        vec![
            CfEvent::Block(0x500, ControlFlowTransitionKind::NewBlock),
            CfEvent::Block(0x600, ControlFlowTransitionKind::ConditionalBranch),
            CfEvent::Block(0x700, ControlFlowTransitionKind::ConditionalBranch),
            CfEvent::Block(0x500, ControlFlowTransitionKind::NewBlock),
        ]
    );
}

#[test]
fn not_taken_bit_follows_fall_through() {
    let image = branchy_image(0x400, 0x2000, &[0x500]);
    let reader = BufferMemoryReader::new(0x400, image);
    let handler = CfRecorder::new(false);
    let mut analyzer = EdgeAnalyzer::new(handler, reader);

    let mut stream = psb_bytes();
    stream.extend_from_slice(&tip_bytes(0x500));
    // Short TNT with one not-taken bit
    stream.push(0b0000_0100);
    stream.extend_from_slice(&tip_bytes(0x500));
    decode(&stream, DecodeOptions::default(), &mut analyzer).unwrap();

    let (handler, _reader) = analyzer.into_inner();
    // The fall-through of the 6-byte branch at 0x500 is 0x506
    assert_eq!(
        handler.events,
        vec![
            CfEvent::Block(0x500, ControlFlowTransitionKind::NewBlock),
            CfEvent::Block(0x506, ControlFlowTransitionKind::ConditionalBranch),
            CfEvent::Block(0x500, ControlFlowTransitionKind::NewBlock),
        ]
    );
}

#[test]
fn replayed_tnt_chunk_reuses_cache() {
    // Five branch blocks; the same (start, bits) run is replayed twice
    let image = branchy_image(0x400, 0x2000, &[0x500, 0x600, 0x700, 0x800, 0x900]);
    let reader = BufferMemoryReader::new(0x400, image);
    let handler = CfRecorder::new(true);
    let mut analyzer = EdgeAnalyzer::new(handler, reader);

    let mut stream = psb_bytes();
    stream.extend_from_slice(&tip_bytes(0x500));
    stream.push(0b0111_1110); // five taken bits
    stream.extend_from_slice(&tip_bytes(0x500));
    stream.push(0b0111_1110); // the same five bits from the same block
    stream.extend_from_slice(&tip_bytes(0x500));
    decode(&stream, DecodeOptions::default(), &mut analyzer).unwrap();

    let (handler, _reader) = analyzer.into_inner();
    let blocks: Vec<&CfEvent> = handler
        .events
        .iter()
        .filter(|e| matches!(e, CfEvent::Block(_, ControlFlowTransitionKind::ConditionalBranch)))
        .collect();
    let reused: Vec<&CfEvent> = handler
        .events
        .iter()
        .filter(|e| matches!(e, CfEvent::Reused(_)))
        .collect();
    // The first replay walks the five branches; the second replay emits no
    // block and reuses the cache exactly once, ending at the same block
    assert_eq!(blocks.len(), 5);
    assert_eq!(reused, vec![&CfEvent::Reused(0xA00)]);
    let last_events = &handler.events[handler.events.len() - 2..];
    assert_eq!(
        last_events,
        &[
            CfEvent::Reused(0xA00),
            CfEvent::Block(0x500, ControlFlowTransitionKind::NewBlock)
        ]
    );
}

#[test]
fn ret_with_taken_bit_is_unsupported_return_compression() {
    // A branch at 0x500 whose taken target 0x600 is a near RET: the second
    // TNT bit is consumed at the RET
    let mut image = branchy_image(0x400, 0x2000, &[0x500]);
    image[0x200] = 0xC3;
    let reader = BufferMemoryReader::new(0x400, image);
    let handler = CfRecorder::new(false);
    let mut analyzer = EdgeAnalyzer::new(handler, reader);

    let mut stream = psb_bytes();
    stream.extend_from_slice(&tip_bytes(0x500));
    stream.push(0b0000_1110); // two taken bits
    stream.extend_from_slice(&tip_bytes(0x500));
    let res = decode(&stream, DecodeOptions::default(), &mut analyzer);
    assert_eq!(
        res,
        Err(DecoderError::PacketHandler(
            AnalyzerError::UnsupportedReturnCompression
        ))
    );
}

#[test]
fn ret_with_not_taken_bit_is_invalid_packet() {
    // A branch at 0x500 whose fall-through 0x506 is a near RET: the second
    // TNT bit (not taken) is consumed at the RET
    let mut image = branchy_image(0x400, 0x2000, &[0x500]);
    image[0x106] = 0xC3;
    let reader = BufferMemoryReader::new(0x400, image);
    let handler = CfRecorder::new(false);
    let mut analyzer = EdgeAnalyzer::new(handler, reader);

    let mut stream = psb_bytes();
    stream.extend_from_slice(&tip_bytes(0x500));
    stream.push(0b0000_1000); // two not-taken bits
    stream.extend_from_slice(&tip_bytes(0x500));
    let res = decode(&stream, DecodeOptions::default(), &mut analyzer);
    assert_eq!(
        res,
        Err(DecoderError::PacketHandler(AnalyzerError::InvalidPacket))
    );
}

#[test]
fn direct_jump_chain_is_walked_to_the_indirect_target() {
    // 0x500: jmp 0x600 (direct); 0x600: jmp [rax]-style indirect
    let mut content = vec![0x90u8; 0x400];
    // jmp rel32 to 0x600 from 0x500: E9 FB 00 00 00
    content[0x100] = 0xE9;
    content[0x101..0x105].copy_from_slice(&(0xFBi32).to_le_bytes());
    // jmp [rax]: FF 20
    content[0x200] = 0xFF;
    content[0x201] = 0x20;
    let reader = BufferMemoryReader::new(0x400, content);
    let handler = CfRecorder::new(false);
    let mut analyzer = EdgeAnalyzer::new(handler, reader);

    let mut stream = psb_bytes();
    stream.extend_from_slice(&tip_bytes(0x500));
    stream.push(0b0000_0110); // one taken bit: walks 0x500 -> 0x600, defers
    stream.extend_from_slice(&tip_bytes(0x900));
    decode(&stream, DecodeOptions::default(), &mut analyzer).unwrap();

    let (handler, _reader) = analyzer.into_inner();
    assert_eq!(
        handler.events,
        vec![
            CfEvent::Block(0x500, ControlFlowTransitionKind::NewBlock),
            CfEvent::Block(0x600, ControlFlowTransitionKind::DirectJump),
            CfEvent::Block(0x900, ControlFlowTransitionKind::IndirectJump),
        ]
    );
}

/// A memory reader over two adjacent regions, so one instruction can
/// cross the boundary between two reads.
struct SegmentedReader {
    parts: Vec<(u64, Vec<u8>)>,
}

impl iptr::analyzer::memory_reader::ReadMemory for SegmentedReader {
    type Error = u64;

    fn at_decode_begin(&mut self) -> Result<(), u64> {
        Ok(())
    }

    fn read_memory(&mut self, address: u64, size: usize) -> Result<Vec<u8>, u64> {
        for (base, content) in &self.parts {
            if address >= *base && address < *base + content.len() as u64 {
                let off = (address - *base) as usize;
                let end = content.len().min(off + size);
                return Ok(content[off..end].to_vec());
            }
        }
        Err(address)
    }
}

#[test]
fn full_64_bit_chunk_replay_hits_dword_cache() {
    // 65 consecutive branch blocks; thirteen short TNT packets fill the
    // 64-bit buffer, whose replay is served from the 32-bit cache
    let sites: Vec<u64> = (0..65).map(|k| 0x500 + 0x100 * k).collect();
    let image = branchy_image(0x400, 0x5000, &sites);
    let reader = BufferMemoryReader::new(0x400, image);
    let handler = CfRecorder::new(true);
    let mut analyzer = EdgeAnalyzer::new(handler, reader);

    let mut stream = psb_bytes();
    stream.extend_from_slice(&tip_bytes(0x500));
    for _ in 0..13 {
        stream.push(0b0111_1110); // five taken bits each
    }
    stream.extend_from_slice(&tip_bytes(0x500));
    for _ in 0..13 {
        stream.push(0b0111_1110);
    }
    stream.extend_from_slice(&tip_bytes(0x500));
    decode(&stream, DecodeOptions::default(), &mut analyzer).unwrap();

    let (handler, _reader) = analyzer.into_inner();
    let branches = handler
        .events
        .iter()
        .filter(|e| matches!(e, CfEvent::Block(_, ControlFlowTransitionKind::ConditionalBranch)))
        .count();
    let reused: Vec<&CfEvent> = handler
        .events
        .iter()
        .filter(|e| matches!(e, CfEvent::Reused(_)))
        .collect();
    // The first round walks 64 + 1 branches; the second round reuses the
    // two 32-bit entries and the trailing-bit entry without re-walking
    assert_eq!(branches, 65);
    assert_eq!(
        reused,
        vec![
            &CfEvent::Reused(0x2500),
            &CfEvent::Reused(0x4500),
            &CfEvent::Reused(0x4600)
        ]
    );
}

#[test]
fn instruction_crossing_window_boundary_is_spliced() {
    // The branch at 0x1000 is split between two read regions; the block at
    // 0x500 is NOPs up to it
    let mut first = vec![0x90u8; 0xB03];
    first[0xB00] = 0x0F;
    first[0xB01] = 0x84;
    first[0xB02] = 0xFA;
    let second = vec![0x00u8, 0x00, 0x00, 0x90, 0x90, 0x90];
    let reader = SegmentedReader {
        parts: vec![(0x500, first), (0x1003, second)],
    };
    let handler = CfRecorder::new(false);
    let mut analyzer = EdgeAnalyzer::new(handler, reader);

    let mut stream = psb_bytes();
    stream.extend_from_slice(&tip_bytes(0x500));
    stream.push(0b0000_0110); // one taken bit
    stream.extend_from_slice(&tip_bytes(0x2000));
    decode(&stream, DecodeOptions::default(), &mut analyzer).unwrap();

    let (handler, _reader) = analyzer.into_inner();
    // The spliced branch at 0x1000 targets 0x1100
    assert_eq!(
        handler.events[0..2],
        [
            CfEvent::Block(0x500, ControlFlowTransitionKind::NewBlock),
            CfEvent::Block(0x1100, ControlFlowTransitionKind::ConditionalBranch),
        ]
    );
}

#[test]
fn fup_then_tip_drops_pending_tnt() {
    // A FUP reports an asynchronous IP; the TNT bits gathered until the
    // following TIP carry no control flow and are dropped
    let image = branchy_image(0x400, 0x2000, &[0x500, 0x600]);
    let reader = BufferMemoryReader::new(0x400, image);
    let handler = CfRecorder::new(false);
    let mut analyzer = EdgeAnalyzer::new(handler, reader);

    let mut stream = psb_bytes();
    stream.extend_from_slice(&tip_bytes(0x500));
    let mut fup = vec![0xDD];
    fup.extend_from_slice(&0x700u64.to_le_bytes());
    stream.extend_from_slice(&fup);
    stream.push(0b0000_1110); // two bits that the FUP protocol discards
    stream.extend_from_slice(&tip_bytes(0x500));
    stream.extend_from_slice(&tip_bytes(0x500));
    decode(&stream, DecodeOptions::default(), &mut analyzer).unwrap();

    let (handler, _reader) = analyzer.into_inner();
    // No conditional branch is walked: the bits between FUP and TIP are gone
    assert_eq!(
        handler.events,
        vec![
            CfEvent::Block(0x500, ControlFlowTransitionKind::NewBlock),
            CfEvent::Block(0x500, ControlFlowTransitionKind::NewBlock),
        ]
    );
}

#[test]
fn ovf_requires_fup_or_tip_pge() {
    let image = branchy_image(0x400, 0x2000, &[0x500]);
    let reader = BufferMemoryReader::new(0x400, image);
    let handler = CfRecorder::new(false);
    let mut analyzer = EdgeAnalyzer::new(handler, reader);

    // OVF followed by TIP.PGE resumes with a new block
    let mut stream = psb_bytes();
    stream.extend_from_slice(&[0x02, 0xF3]); // OVF
    let mut pge = vec![0xD1]; // TIP.PGE with an eight-byte payload
    pge.extend_from_slice(&0x500u64.to_le_bytes());
    stream.extend_from_slice(&pge);
    decode(&stream, DecodeOptions::default(), &mut analyzer).unwrap();
    let (handler, reader) = analyzer.into_inner();
    assert_eq!(
        handler.events,
        vec![CfEvent::Block(0x500, ControlFlowTransitionKind::NewBlock)]
    );

    // OVF followed by a plain TIP instead is a semantic error
    let handler = CfRecorder::new(false);
    let mut analyzer = EdgeAnalyzer::new(handler, reader);
    let mut stream = psb_bytes();
    stream.extend_from_slice(&[0x02, 0xF3]); // OVF
    stream.extend_from_slice(&tip_bytes(0x500));
    let res = decode(&stream, DecodeOptions::default(), &mut analyzer);
    assert_eq!(
        res,
        Err(DecoderError::PacketHandler(AnalyzerError::InvalidPacket))
    );
}

#[test]
fn fuzz_bitmap_handler_records_transitions() {
    let image = branchy_image(0x400, 0x2000, &[0x500]);
    let reader = BufferMemoryReader::new(0x400, image);
    let handler = FuzzBitmapControlFlowHandler::new(vec![0u8; 0x1000]);
    let mut analyzer = EdgeAnalyzer::new(handler, reader);

    let mut stream = psb_bytes();
    stream.extend_from_slice(&tip_bytes(0x500));
    stream.push(0b0000_0110); // one taken bit
    stream.extend_from_slice(&tip_bytes(0x500));
    decode(&stream, DecodeOptions::default(), &mut analyzer).unwrap();

    let (handler, _reader) = analyzer.into_inner();
    let bitmap = handler.into_bitmap();
    let total: u64 = bitmap.iter().map(|&b| b as u64).sum();
    // Exactly one conditional-branch transition was recorded
    assert_eq!(total, 1);
}

#[test]
fn test_select_entry_picks_last_start_at_or_below() {
    let starts: Vec<u64> = vec![0x1000, 0x2000, 0x3000];
    assert_eq!(iptr::analyzer::memory_reader::select_entry(&starts, 0xfff), None);
    assert_eq!(iptr::analyzer::memory_reader::select_entry(&starts, 0x1000), Some(0));
    assert_eq!(iptr::analyzer::memory_reader::select_entry(&starts, 0x2fff), Some(1));
    assert_eq!(iptr::analyzer::memory_reader::select_entry(&starts, 0x3000), Some(2));
    assert_eq!(iptr::analyzer::memory_reader::select_entry(&starts, u64::MAX), Some(2));
    let empty: Vec<u64> = Vec::new();
    assert_eq!(iptr::analyzer::memory_reader::select_entry(&empty, 0), None);
}
