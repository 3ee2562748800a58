//! Level-2 packet dispatch: two-byte opcodes behind the `0x02` escape.

use vstd::prelude::*;

use crate::bitops::{le_val, long_tnt_count};
use crate::decoder::error::DecoderError;
use crate::decoder::{is_psb_at, lift_err, psb_seq, read_le, DecoderContext, HandlePacket, PacketEvent};

verus! {

/// Payload of a PTW packet.
#[derive(Debug, Clone, Copy, PartialEq, Eq, Structural)]
pub enum PtwPayload {
    /// A 4-byte payload
    FourBytes(u32),
    /// An 8-byte payload
    EightBytes(u64),
}

/// The advance and error conditions shared by the fixed-length level-2
/// packets: total length `len_p`, cursor at `pos`.
pub open spec fn fixed_len_post<E>(
    s: Seq<u8>,
    pos: int,
    len_p: int,
    new_pos: int,
    r: Result<(), DecoderError<E>>,
) -> bool {
    &&& (pos + len_p > s.len() <==> r == Result::<(), DecoderError<E>>::Err(
        DecoderError::UnexpectedEOF,
    ))
    &&& (r is Ok ==> new_pos == pos + len_p)
    &&& (r is Err ==> (r matches Err(DecoderError::UnexpectedEOF) || r matches Err(
        DecoderError::PacketHandler(_),
    )) && new_pos == pos)
}

/// The level-2 packet whose header starts at `pos`: the callback event it
/// dispatches and the cursor position after it, or the decoding error.
pub open spec fn spec_l2_event(s: Seq<u8>, pos: int) -> Result<
    (PacketEvent, int),
    DecoderError<()>,
> {
    let b2 = s[pos + 1];
    if pos + 2 > s.len() {
        Err(DecoderError::UnexpectedEOF)
    } else if b2 == 0x03 {
        if pos + 4 > s.len() {
            Err(DecoderError::UnexpectedEOF)
        } else {
            Ok((PacketEvent::Cbr(s[pos + 2]), pos + 4))
        }
    } else if b2 == 0x12 || b2 == 0x92 {
        if pos + 6 > s.len() {
            Err(DecoderError::UnexpectedEOF)
        } else {
            Ok(
                (
                    PacketEvent::Ptw(
                        (b2 & 0b1000_0000) != 0,
                        PtwPayload::FourBytes(le_val(s, pos + 2, 4) as u32),
                    ),
                    pos + 6,
                ),
            )
        }
    } else if b2 == 0x32 || b2 == 0xB2 {
        if pos + 10 > s.len() {
            Err(DecoderError::UnexpectedEOF)
        } else {
            Ok(
                (
                    PacketEvent::Ptw(
                        (b2 & 0b1000_0000) != 0,
                        PtwPayload::EightBytes(le_val(s, pos + 2, 8) as u64),
                    ),
                    pos + 10,
                ),
            )
        }
    } else if b2 == 0x52 || b2 == 0xD2 || b2 == 0x72 || b2 == 0xF2 {
        Err(DecoderError::InvalidPacket)
    } else if b2 == 0x13 {
        if pos + 4 > s.len() {
            Err(DecoderError::UnexpectedEOF)
        } else {
            Ok(
                (
                    PacketEvent::Cfe(
                        (s[pos + 2] & 0b1000_0000) != 0,
                        s[pos + 2] & 0b0001_1111,
                        s[pos + 3],
                    ),
                    pos + 4,
                ),
            )
        }
    } else if b2 == 0x22 {
        if pos + 4 > s.len() {
            Err(DecoderError::UnexpectedEOF)
        } else {
            Ok(
                (
                    PacketEvent::Pwre(
                        (s[pos + 2] & 0b1000_0000) != 0,
                        (s[pos + 3] & 0b1111_0000) >> 4,
                        s[pos + 3] & 0b0000_1111,
                    ),
                    pos + 4,
                ),
            )
        }
    } else if b2 == 0x23 {
        if pos + 2 > s.len() {
            Err(DecoderError::UnexpectedEOF)
        } else {
            Ok((PacketEvent::Psbend, pos + 2))
        }
    } else if b2 == 0x33 || b2 == 0xB3 || b2 == 0x63 {
        Err(DecoderError::Unimplemented)
    } else if b2 == 0x43 {
        if pos + 8 > s.len() {
            Err(DecoderError::UnexpectedEOF)
        } else {
            Ok(
                (
                    PacketEvent::Pip(
                        (((le_val(s, pos + 2, 6) as u64) & 0xFFFF_FFFF_FFFE) * 32) as u64,
                        s[pos + 2] % 2 != 0,
                    ),
                    pos + 8,
                ),
            )
        }
    } else if b2 == 0x53 {
        if pos + 11 > s.len() {
            Err(DecoderError::UnexpectedEOF)
        } else {
            Ok(
                (
                    PacketEvent::Evd(s[pos + 2] & 0b0011_1111, le_val(s, pos + 3, 8) as u64),
                    pos + 11,
                ),
            )
        }
    } else if b2 == 0x62 || b2 == 0xE2 {
        if pos + 2 > s.len() {
            Err(DecoderError::UnexpectedEOF)
        } else {
            Ok((PacketEvent::Exstop((b2 & 0b1000_0000) != 0), pos + 2))
        }
    } else if b2 == 0x73 {
        if pos + 7 > s.len() {
            Err(DecoderError::UnexpectedEOF)
        } else {
            Ok(
                (
                    PacketEvent::Tma(
                        le_val(s, pos + 2, 2) as u16,
                        s[pos + 5],
                        s[pos + 6] % 2 != 0,
                    ),
                    pos + 7,
                ),
            )
        }
    } else if b2 == 0x82 {
        if pos + 16 > s.len() {
            Err(DecoderError::UnexpectedEOF)
        } else if !is_psb_at(s, pos) {
            Err(DecoderError::InvalidPacket)
        } else {
            Ok((PacketEvent::Psb, pos + 16))
        }
    } else if b2 == 0x83 {
        if pos + 2 > s.len() {
            Err(DecoderError::UnexpectedEOF)
        } else {
            Ok((PacketEvent::TraceStop, pos + 2))
        }
    } else if b2 == 0xA2 {
        if pos + 7 > s.len() {
            Err(DecoderError::UnexpectedEOF)
        } else {
            Ok(
                (
                    PacketEvent::Pwrx(
                        (s[pos + 2] & 0b1111_0000) >> 4,
                        s[pos + 2] & 0b0000_1111,
                        s[pos + 3] & 0b0000_1111,
                    ),
                    pos + 7,
                ),
            )
        }
    } else if b2 == 0xA3 {
        if pos + 8 > s.len() {
            Err(DecoderError::UnexpectedEOF)
        } else if le_val(s, pos + 2, 6) == 0 {
            Err(DecoderError::InvalidPacket)
        } else {
            Ok(
                (
                    PacketEvent::LongTnt(
                        le_val(s, pos + 2, 6) as u64,
                        (if long_tnt_count(le_val(s, pos + 2, 6) as u64) == 0 {
                            u32::MAX as int
                        } else {
                            long_tnt_count(le_val(s, pos + 2, 6) as u64) - 1
                        }) as u32,
                    ),
                    pos + 8,
                ),
            )
        }
    } else if b2 == 0xC2 {
        if pos + 10 > s.len() {
            Err(DecoderError::UnexpectedEOF)
        } else {
            Ok((PacketEvent::Mwait(s[pos + 2], s[pos + 2] & 0b0000_0011), pos + 10))
        }
    } else if b2 == 0xC8 {
        if pos + 7 > s.len() {
            Err(DecoderError::UnexpectedEOF)
        } else {
            Ok((PacketEvent::Vmcs((le_val(s, pos + 2, 5) * 0x1000) as u64), pos + 7))
        }
    } else if b2 == 0xF3 {
        if pos + 2 > s.len() {
            Err(DecoderError::UnexpectedEOF)
        } else {
            Ok((PacketEvent::Ovf, pos + 2))
        }
    } else if b2 == 0xC3 {
        if pos + 11 > s.len() {
            Err(DecoderError::UnexpectedEOF)
        } else if s[pos + 2] != 0x88 {
            Err(DecoderError::InvalidPacket)
        } else {
            Ok((PacketEvent::Mnt(le_val(s, pos + 3, 8) as u64), pos + 11))
        }
    } else {
        Err(DecoderError::InvalidPacket)
    }
}

/// A successfully parsed level-2 packet advances the cursor by 2 to 16
/// bytes.
pub proof fn lemma_l2_event_next(s: Seq<u8>, pos: int)
    ensures
        spec_l2_event(s, pos) matches Ok((e, n)) ==> pos + 2 <= n <= pos + 16 && n <= s.len(),
{
}

/// The total length of the level-2 packet whose header starts at `pos`
/// (the second byte selects it; a PTW packet's size bits select 6 or 10).
pub open spec fn level2_total_len(s: Seq<u8>, pos: int) -> int {
    let b = s[pos + 1];
    if b == 0x03 || b == 0x13 || b == 0x22 {
        4
    } else if b == 0x12 || b == 0x92 {
        6
    } else if b == 0x32 || b == 0xB2 || b == 0xC2 {
        10
    } else if b == 0x23 || b == 0x83 || b == 0x33 || b == 0xB3 || b == 0x62 || b == 0xE2 || b
        == 0xF3 {
        2
    } else if b == 0x43 {
        8
    } else if b == 0x53 || b == 0xC3 {
        11
    } else if b == 0x63 {
        3
    } else if b == 0x73 || b == 0xA2 || b == 0xC8 {
        7
    } else if b == 0x82 {
        16
    } else if b == 0xA3 {
        8
    } else {
        0
    }
}

/// Handle a CBR packet (4 bytes).
pub fn handle_cbr_packet<H: HandlePacket>(
    buf: &[u8],
    byte: u8,
    context: &mut DecoderContext,
    packet_handler: &mut H,
) -> (r: Result<(), DecoderError<H::Error>>)
    requires
        old(context).spec_pos() + 2 <= buf@.len(),
    ensures
        final(context).spec_mode() == old(context).spec_mode(),
        final(context).spec_pos() <= buf@.len(),
        fixed_len_post(buf@, old(context).spec_pos(), 4, final(context).spec_pos(), r),
        (r is Ok || r matches Err(DecoderError::PacketHandler(_))) ==> final(context).spec_events() == old(context).spec_events().push(PacketEvent::Cbr(buf@[old(context).spec_pos() + 2])),
        !(r is Ok || r matches Err(DecoderError::PacketHandler(_))) ==> final(context).spec_events() == old(context).spec_events(),
{
    if buf.len() - context.pos() < 4 {
        return Err(DecoderError::UnexpectedEOF);
    }
    let core_bus_ratio = buf[context.pos() + 2];
    let res = packet_handler.on_cbr_packet(context, core_bus_ratio);
    context.log(Ghost(PacketEvent::Cbr(core_bus_ratio)));
    if let Err(e) = res {
        return Err(DecoderError::PacketHandler(e));
    }
    context.advance(4);
    Ok(())
}

/// Handle a PIP packet (8 bytes).
pub fn handle_pip_packet<H: HandlePacket>(
    buf: &[u8],
    byte: u8,
    context: &mut DecoderContext,
    packet_handler: &mut H,
) -> (r: Result<(), DecoderError<H::Error>>)
    requires
        old(context).spec_pos() + 2 <= buf@.len(),
    ensures
        final(context).spec_mode() == old(context).spec_mode(),
        final(context).spec_pos() <= buf@.len(),
        fixed_len_post(buf@, old(context).spec_pos(), 8, final(context).spec_pos(), r),
        (r is Ok || r matches Err(DecoderError::PacketHandler(_))) ==> final(context).spec_events() == old(context).spec_events().push(PacketEvent::Pip((((le_val(buf@, old(context).spec_pos() + 2, 6) as u64) & 0xFFFF_FFFF_FFFE) * 32) as u64, buf@[old(context).spec_pos() + 2] % 2 != 0)),
        !(r is Ok || r matches Err(DecoderError::PacketHandler(_))) ==> final(context).spec_events() == old(context).spec_events(),
{
    if buf.len() - context.pos() < 8 {
        return Err(DecoderError::UnexpectedEOF);
    }
    let byte2 = buf[context.pos() + 2];
    let rsvd_nr = (byte2 % 2) != 0;
    let payload = match read_le(buf, context.pos() + 2, 6) {
        Some(v) => v,
        None => {
            return Err(DecoderError::Unexpected);
        },
    };
    proof {
        crate::decoder::lemma_le_val_fits(buf@, context.spec_pos() + 2, 6);
    }
    // Clear the lowest (RSVD/NR) bit, then shift into CR3[51:5]
    let cleared = payload & 0xFFFF_FFFF_FFFE;
    proof {
        let p = payload;
        assert(p < 0x1_0000_0000_0000 ==> (p & 0xFFFF_FFFF_FFFE) % 2 == 0 && (p
            & 0xFFFF_FFFF_FFFE) < 0x1_0000_0000_0000) by (bit_vector);
        let c = cleared;
        assert(c % 2 == 0 && c < 0x1_0000_0000_0000 ==> (c * 32) % 32 == 0 && c * 32
            < 0x20_0000_0000_0000) by (nonlinear_arith);
    }
    let cr3 = cleared * 32;
    proof {
        assert(cr3 % 32 == 0 && cr3 < 0x20_0000_0000_0000) by (nonlinear_arith)
            requires
                cr3 == cleared * 32,
                cleared < 0x1_0000_0000_0000,
        ;
    }
    let res = packet_handler.on_pip_packet(context, cr3, rsvd_nr);
    context.log(Ghost(PacketEvent::Pip(cr3, rsvd_nr)));
    if let Err(e) = res {
        return Err(DecoderError::PacketHandler(e));
    }
    context.advance(8);
    Ok(())
}

/// Handle a PSB packet (16 bytes): the payload must equal the canonical
/// 16-byte PSB marker, else the packet is invalid.
pub fn handle_psb_packet<H: HandlePacket>(
    buf: &[u8],
    byte: u8,
    context: &mut DecoderContext,
    packet_handler: &mut H,
) -> (r: Result<(), DecoderError<H::Error>>)
    requires
        old(context).spec_pos() + 2 <= buf@.len(),
    ensures
        final(context).spec_mode() == old(context).spec_mode(),
        final(context).spec_pos() <= buf@.len(),
        old(context).spec_pos() + 16 > buf@.len() <==> r == Result::<(), DecoderError<
            H::Error,
        >>::Err(DecoderError::UnexpectedEOF),
        old(context).spec_pos() + 16 <= buf@.len() && !is_psb_at(buf@, old(context).spec_pos())
            <==> r == Result::<(), DecoderError<H::Error>>::Err(DecoderError::InvalidPacket),
        r is Ok ==> is_psb_at(buf@, old(context).spec_pos()) && final(context).spec_pos() == old(context).spec_pos() + 16,
        r is Err ==> final(context).spec_pos() == old(context).spec_pos() && (r matches Err(
            DecoderError::UnexpectedEOF,
        ) || r matches Err(DecoderError::InvalidPacket) || r matches Err(
            DecoderError::PacketHandler(_),
        )),
        (r is Ok || r matches Err(DecoderError::PacketHandler(_))) ==> final(context).spec_events() == old(context).spec_events().push(PacketEvent::Psb),
        !(r is Ok || r matches Err(DecoderError::PacketHandler(_))) ==> final(context).spec_events() == old(context).spec_events(),
{
    if buf.len() - context.pos() < 16 {
        return Err(DecoderError::UnexpectedEOF);
    }
    let psb: [u8; 16] = [
        0x02,
        0x82,
        0x02,
        0x82,
        0x02,
        0x82,
        0x02,
        0x82,
        0x02,
        0x82,
        0x02,
        0x82,
        0x02,
        0x82,
        0x02,
        0x82,
    ];
    let mut i: usize = 0;
    while i < 16
        invariant
            i <= 16,
            buf@.len() <= usize::MAX,
            context.spec_pos() == old(context).spec_pos(),
            context.spec_mode() == old(context).spec_mode(),
            context.spec_pos() + 16 <= buf@.len(),
            forall|k: int| 0 <= k < i ==> buf@[context.spec_pos() + k] == psb_seq()[k],
        decreases 16 - i,
    {
        let expected: u8 = if i % 2 == 0 {
            0x02
        } else {
            0x82
        };
        proof {
            assert(psb_seq()[i as int] == expected);
        }
        if buf[context.pos() + i] != expected {
            proof {
                assert(buf@.subrange(
                    context.spec_pos(),
                    context.spec_pos() + 16,
                )[i as int] != psb_seq()[i as int]);
            }
            return Err(DecoderError::InvalidPacket);
        }
        i = i + 1;
    }
    proof {
        assert(buf@.subrange(context.spec_pos(), context.spec_pos() + 16) =~= psb_seq());
    }
    let res = packet_handler.on_psb_packet(context);
    context.log(Ghost(PacketEvent::Psb));
    if let Err(e) = res {
        return Err(DecoderError::PacketHandler(e));
    }
    context.advance(16);
    Ok(())
}

/// Handle a PSBEND packet (2 bytes).
pub fn handle_psbend_packet<H: HandlePacket>(
    buf: &[u8],
    byte: u8,
    context: &mut DecoderContext,
    packet_handler: &mut H,
) -> (r: Result<(), DecoderError<H::Error>>)
    requires
        old(context).spec_pos() + 2 <= buf@.len(),
    ensures
        final(context).spec_mode() == old(context).spec_mode(),
        final(context).spec_pos() <= buf@.len(),
        fixed_len_post(buf@, old(context).spec_pos(), 2, final(context).spec_pos(), r),
        (r is Ok || r matches Err(DecoderError::PacketHandler(_))) ==> final(context).spec_events() == old(context).spec_events().push(PacketEvent::Psbend),
        !(r is Ok || r matches Err(DecoderError::PacketHandler(_))) ==> final(context).spec_events() == old(context).spec_events(),
{
    proof {
        crate::decoder::lemma_slice_len_fits(buf);
    }
    let res = packet_handler.on_psbend_packet(context);
    context.log(Ghost(PacketEvent::Psbend));
    if let Err(e) = res {
        return Err(DecoderError::PacketHandler(e));
    }
    context.advance(2);
    Ok(())
}

/// Handle a TraceStop packet (2 bytes).
pub fn handle_trace_stop_packet<H: HandlePacket>(
    buf: &[u8],
    byte: u8,
    context: &mut DecoderContext,
    packet_handler: &mut H,
) -> (r: Result<(), DecoderError<H::Error>>)
    requires
        old(context).spec_pos() + 2 <= buf@.len(),
    ensures
        final(context).spec_mode() == old(context).spec_mode(),
        final(context).spec_pos() <= buf@.len(),
        fixed_len_post(buf@, old(context).spec_pos(), 2, final(context).spec_pos(), r),
        (r is Ok || r matches Err(DecoderError::PacketHandler(_))) ==> final(context).spec_events() == old(context).spec_events().push(PacketEvent::TraceStop),
        !(r is Ok || r matches Err(DecoderError::PacketHandler(_))) ==> final(context).spec_events() == old(context).spec_events(),
{
    proof {
        crate::decoder::lemma_slice_len_fits(buf);
    }
    let res = packet_handler.on_trace_stop_packet(context);
    context.log(Ghost(PacketEvent::TraceStop));
    if let Err(e) = res {
        return Err(DecoderError::PacketHandler(e));
    }
    context.advance(2);
    Ok(())
}

/// Handle a long TNT packet (8 bytes: the 2 header bytes carry 47 possible
/// TNT bits in the remaining 6 little-endian bytes).
pub fn handle_long_tnt_packet<H: HandlePacket>(
    buf: &[u8],
    byte: u8,
    context: &mut DecoderContext,
    packet_handler: &mut H,
) -> (r: Result<(), DecoderError<H::Error>>)
    requires
        old(context).spec_pos() + 2 <= buf@.len(),
    ensures
        final(context).spec_mode() == old(context).spec_mode(),
        final(context).spec_pos() <= buf@.len(),
        old(context).spec_pos() + 8 > buf@.len() <==> r == Result::<(), DecoderError<
            H::Error,
        >>::Err(DecoderError::UnexpectedEOF),
        old(context).spec_pos() + 8 <= buf@.len() && le_val(buf@, old(context).spec_pos() + 2, 6)
            == 0 <==> r == Result::<(), DecoderError<H::Error>>::Err(DecoderError::InvalidPacket),
        r is Ok ==> final(context).spec_pos() == old(context).spec_pos() + 8,
        r is Err ==> final(context).spec_pos() == old(context).spec_pos() && (r matches Err(
            DecoderError::UnexpectedEOF,
        ) || r matches Err(DecoderError::InvalidPacket) || r matches Err(
            DecoderError::PacketHandler(_),
        )),
        (r is Ok || r matches Err(DecoderError::PacketHandler(_))) ==> final(context).spec_events() == old(context).spec_events().push(PacketEvent::LongTnt(le_val(buf@, old(context).spec_pos() + 2, 6) as u64, (if long_tnt_count(le_val(buf@, old(context).spec_pos() + 2, 6) as u64) == 0 { u32::MAX as int } else { long_tnt_count(le_val(buf@, old(context).spec_pos() + 2, 6) as u64) - 1 }) as u32)),
        !(r is Ok || r matches Err(DecoderError::PacketHandler(_))) ==> final(context).spec_events() == old(context).spec_events(),
{
    if buf.len() - context.pos() < 8 {
        return Err(DecoderError::UnexpectedEOF);
    }
    let packet_bytes = match read_le(buf, context.pos() + 2, 6) {
        Some(v) => v,
        None => {
            return Err(DecoderError::Unexpected);
        },
    };
    if packet_bytes == 0 {
        // There is no trailing 1
        return Err(DecoderError::InvalidPacket);
    }
    proof {
        crate::decoder::lemma_le_val_fits(buf@, context.spec_pos() + 2, 6);
        vstd::arithmetic::power2::lemma2_to64();
        vstd::arithmetic::power2::lemma2_to64_rest();
        crate::bitops::lemma_top_bit_lt(packet_bytes, 48);
    }
    let top = crate::bitops::top_bit_index(packet_bytes);
    let highest_bit: u32 = if top == 0 {
        u32::MAX
    } else {
        top - 1
    };
    let res = packet_handler.on_long_tnt_packet(context, packet_bytes, highest_bit);
    context.log(Ghost(PacketEvent::LongTnt(packet_bytes, highest_bit)));
    if let Err(e) = res {
        return Err(DecoderError::PacketHandler(e));
    }
    context.advance(8);
    Ok(())
}

/// Handle a VMCS packet (7 bytes).
pub fn handle_vmcs_packet<H: HandlePacket>(
    buf: &[u8],
    byte: u8,
    context: &mut DecoderContext,
    packet_handler: &mut H,
) -> (r: Result<(), DecoderError<H::Error>>)
    requires
        old(context).spec_pos() + 2 <= buf@.len(),
    ensures
        final(context).spec_mode() == old(context).spec_mode(),
        final(context).spec_pos() <= buf@.len(),
        fixed_len_post(buf@, old(context).spec_pos(), 7, final(context).spec_pos(), r),
        (r is Ok || r matches Err(DecoderError::PacketHandler(_))) ==> final(context).spec_events() == old(context).spec_events().push(PacketEvent::Vmcs((le_val(buf@, old(context).spec_pos() + 2, 5) * 0x1000) as u64)),
        !(r is Ok || r matches Err(DecoderError::PacketHandler(_))) ==> final(context).spec_events() == old(context).spec_events(),
{
    if buf.len() - context.pos() < 7 {
        return Err(DecoderError::UnexpectedEOF);
    }
    let payload = match read_le(buf, context.pos() + 2, 5) {
        Some(v) => v,
        None => {
            return Err(DecoderError::Unexpected);
        },
    };
    proof {
        crate::decoder::lemma_le_val_fits(buf@, context.spec_pos() + 2, 5);
    }
    let vmcs_pointer = payload * 0x1000;
    proof {
        assert(vmcs_pointer % 0x1000 == 0 && vmcs_pointer < 0x10_0000_0000_0000) by (
        nonlinear_arith)
            requires
                vmcs_pointer == payload * 0x1000,
                payload < 0x100_0000_0000,
        ;
    }
    let res = packet_handler.on_vmcs_packet(context, vmcs_pointer);
    context.log(Ghost(PacketEvent::Vmcs(vmcs_pointer)));
    if let Err(e) = res {
        return Err(DecoderError::PacketHandler(e));
    }
    context.advance(7);
    Ok(())
}

/// Handle an OVF packet (2 bytes).
pub fn handle_ovf_packet<H: HandlePacket>(
    buf: &[u8],
    byte: u8,
    context: &mut DecoderContext,
    packet_handler: &mut H,
) -> (r: Result<(), DecoderError<H::Error>>)
    requires
        old(context).spec_pos() + 2 <= buf@.len(),
    ensures
        final(context).spec_mode() == old(context).spec_mode(),
        final(context).spec_pos() <= buf@.len(),
        fixed_len_post(buf@, old(context).spec_pos(), 2, final(context).spec_pos(), r),
        (r is Ok || r matches Err(DecoderError::PacketHandler(_))) ==> final(context).spec_events() == old(context).spec_events().push(PacketEvent::Ovf),
        !(r is Ok || r matches Err(DecoderError::PacketHandler(_))) ==> final(context).spec_events() == old(context).spec_events(),
{
    proof {
        crate::decoder::lemma_slice_len_fits(buf);
    }
    let res = packet_handler.on_ovf_packet(context);
    context.log(Ghost(PacketEvent::Ovf));
    if let Err(e) = res {
        return Err(DecoderError::PacketHandler(e));
    }
    context.advance(2);
    Ok(())
}

/// Handle an MNT packet (11 bytes); the third byte must be `0x88`.
pub fn handle_mnt_packet<H: HandlePacket>(
    buf: &[u8],
    byte: u8,
    context: &mut DecoderContext,
    packet_handler: &mut H,
) -> (r: Result<(), DecoderError<H::Error>>)
    requires
        old(context).spec_pos() + 2 <= buf@.len(),
    ensures
        final(context).spec_mode() == old(context).spec_mode(),
        final(context).spec_pos() <= buf@.len(),
        old(context).spec_pos() + 11 > buf@.len() <==> r == Result::<(), DecoderError<
            H::Error,
        >>::Err(DecoderError::UnexpectedEOF),
        old(context).spec_pos() + 11 <= buf@.len() && buf@[old(context).spec_pos() + 2] != 0x88
            <==> r == Result::<(), DecoderError<H::Error>>::Err(DecoderError::InvalidPacket),
        r is Ok ==> final(context).spec_pos() == old(context).spec_pos() + 11,
        r is Err ==> final(context).spec_pos() == old(context).spec_pos() && (r matches Err(
            DecoderError::UnexpectedEOF,
        ) || r matches Err(DecoderError::InvalidPacket) || r matches Err(
            DecoderError::PacketHandler(_),
        )),
        (r is Ok || r matches Err(DecoderError::PacketHandler(_))) ==> final(context).spec_events() == old(context).spec_events().push(PacketEvent::Mnt(le_val(buf@, old(context).spec_pos() + 3, 8) as u64)),
        !(r is Ok || r matches Err(DecoderError::PacketHandler(_))) ==> final(context).spec_events() == old(context).spec_events(),
{
    if buf.len() - context.pos() < 11 {
        return Err(DecoderError::UnexpectedEOF);
    }
    if buf[context.pos() + 2] != 0b1000_1000 {
        return Err(DecoderError::InvalidPacket);
    }
    let payload = match read_le(buf, context.pos() + 3, 8) {
        Some(v) => v,
        None => {
            return Err(DecoderError::Unexpected);
        },
    };
    let res = packet_handler.on_mnt_packet(context, payload);
    context.log(Ghost(PacketEvent::Mnt(payload)));
    if let Err(e) = res {
        return Err(DecoderError::PacketHandler(e));
    }
    context.advance(11);
    Ok(())
}

/// Handle a TMA packet (7 bytes).
pub fn handle_tma_packet<H: HandlePacket>(
    buf: &[u8],
    byte: u8,
    context: &mut DecoderContext,
    packet_handler: &mut H,
) -> (r: Result<(), DecoderError<H::Error>>)
    requires
        old(context).spec_pos() + 2 <= buf@.len(),
    ensures
        final(context).spec_mode() == old(context).spec_mode(),
        final(context).spec_pos() <= buf@.len(),
        fixed_len_post(buf@, old(context).spec_pos(), 7, final(context).spec_pos(), r),
        (r is Ok || r matches Err(DecoderError::PacketHandler(_))) ==> final(context).spec_events() == old(context).spec_events().push(PacketEvent::Tma(le_val(buf@, old(context).spec_pos() + 2, 2) as u16, buf@[old(context).spec_pos() + 5], buf@[old(context).spec_pos() + 6] % 2 != 0)),
        !(r is Ok || r matches Err(DecoderError::PacketHandler(_))) ==> final(context).spec_events() == old(context).spec_events(),
{
    if buf.len() - context.pos() < 7 {
        return Err(DecoderError::UnexpectedEOF);
    }
    let ctc_wide = match read_le(buf, context.pos() + 2, 2) {
        Some(v) => v,
        None => {
            return Err(DecoderError::Unexpected);
        },
    };
    proof {
        crate::decoder::lemma_le_val_fits(buf@, context.spec_pos() + 2, 2);
    }
    let ctc: u16 = ctc_wide as u16;
    let fast_counter = buf[context.pos() + 5];
    let fc8 = buf[context.pos() + 6] % 2 != 0;
    let res = packet_handler.on_tma_packet(context, ctc, fast_counter, fc8);
    context.log(Ghost(PacketEvent::Tma(ctc, fast_counter, fc8)));
    if let Err(e) = res {
        return Err(DecoderError::PacketHandler(e));
    }
    context.advance(7);
    Ok(())
}

/// Handle a PTW packet (6 or 10 bytes, selected by the payload-size bits).
pub fn handle_ptw_packet<H: HandlePacket>(
    buf: &[u8],
    byte: u8,
    context: &mut DecoderContext,
    packet_handler: &mut H,
) -> (r: Result<(), DecoderError<H::Error>>)
    requires
        old(context).spec_pos() + 2 <= buf@.len(),
        byte == buf@[old(context).spec_pos() + 1],
    ensures
        final(context).spec_mode() == old(context).spec_mode(),
        final(context).spec_pos() <= buf@.len(),
        r is Ok ==> old(context).spec_pos() < final(context).spec_pos(),
        !(r matches Err(DecoderError::NoPsb)),
        ({
            let size_bits = (byte & 0b0110_0000) >> 5;
            &&& (size_bits == 2 || size_bits == 3 <==> r == Result::<(), DecoderError<
                H::Error,
            >>::Err(DecoderError::InvalidPacket))
            &&& (size_bits == 2 || size_bits == 3 ==> final(context).spec_pos() == old(
                context,
            ).spec_pos())
            &&& (size_bits == 0 ==> fixed_len_post(
                buf@,
                old(context).spec_pos(),
                6,
                final(context).spec_pos(),
                r,
            ))
            &&& (size_bits == 1 ==> fixed_len_post(
                buf@,
                old(context).spec_pos(),
                10,
                final(context).spec_pos(),
                r,
            ))
            &&& ((r is Ok || r matches Err(DecoderError::PacketHandler(_))) ==> final(context).spec_events() == old(context).spec_events().push(
                PacketEvent::Ptw(
                    (byte & 0b1000_0000) != 0,
                    if size_bits == 0 {
                        PtwPayload::FourBytes(le_val(buf@, old(context).spec_pos() + 2, 4) as u32)
                    } else {
                        PtwPayload::EightBytes(le_val(buf@, old(context).spec_pos() + 2, 8) as u64)
                    },
                ),
            ))
            &&& (!(r is Ok || r matches Err(DecoderError::PacketHandler(_))) ==> final(context).spec_events() == old(context).spec_events())
        }),
{
    let ip_bit = (byte & 0b1000_0000) != 0;
    let payload_bytes = (byte & 0b0110_0000) >> 5;
    proof {
        assert((byte & 0b0110_0000) >> 5 <= 3) by (bit_vector);
    }
    let packet_length: usize;
    let payload = if payload_bytes == 0b00 {
        packet_length = 6;
        if buf.len() - context.pos() < 6 {
            return Err(DecoderError::UnexpectedEOF);
        }
        let v = match read_le(buf, context.pos() + 2, 4) {
            Some(v) => v,
            None => {
                return Err(DecoderError::Unexpected);
            },
        };
        proof {
            crate::decoder::lemma_le_val_lt(buf@, context.spec_pos() + 2, 4);
            vstd::arithmetic::power2::lemma2_to64();
        }
        PtwPayload::FourBytes(v as u32)
    } else if payload_bytes == 0b01 {
        packet_length = 10;
        if buf.len() - context.pos() < 10 {
            return Err(DecoderError::UnexpectedEOF);
        }
        let v = match read_le(buf, context.pos() + 2, 8) {
            Some(v) => v,
            None => {
                return Err(DecoderError::Unexpected);
            },
        };
        PtwPayload::EightBytes(v)
    } else {
        return Err(DecoderError::InvalidPacket);
    };
    let res = packet_handler.on_ptw_packet(context, ip_bit, payload);
    context.log(Ghost(PacketEvent::Ptw(ip_bit, payload)));
    if let Err(e) = res {
        return Err(DecoderError::PacketHandler(e));
    }
    context.advance(packet_length);
    Ok(())
}

/// Handle an EXSTOP packet (2 bytes).
pub fn handle_exstop_packet<H: HandlePacket>(
    buf: &[u8],
    byte: u8,
    context: &mut DecoderContext,
    packet_handler: &mut H,
) -> (r: Result<(), DecoderError<H::Error>>)
    requires
        old(context).spec_pos() + 2 <= buf@.len(),
    ensures
        final(context).spec_mode() == old(context).spec_mode(),
        final(context).spec_pos() <= buf@.len(),
        fixed_len_post(buf@, old(context).spec_pos(), 2, final(context).spec_pos(), r),
        (r is Ok || r matches Err(DecoderError::PacketHandler(_))) ==> final(context).spec_events() == old(context).spec_events().push(PacketEvent::Exstop((byte & 0b1000_0000) != 0)),
        !(r is Ok || r matches Err(DecoderError::PacketHandler(_))) ==> final(context).spec_events() == old(context).spec_events(),
{
    proof {
        crate::decoder::lemma_slice_len_fits(buf);
    }
    let ip_bit = (byte & 0b1000_0000) != 0;
    let res = packet_handler.on_exstop_packet(context, ip_bit);
    context.log(Ghost(PacketEvent::Exstop(ip_bit)));
    if let Err(e) = res {
        return Err(DecoderError::PacketHandler(e));
    }
    context.advance(2);
    Ok(())
}

/// Handle an MWAIT packet (10 bytes).
pub fn handle_mwait_packet<H: HandlePacket>(
    buf: &[u8],
    byte: u8,
    context: &mut DecoderContext,
    packet_handler: &mut H,
) -> (r: Result<(), DecoderError<H::Error>>)
    requires
        old(context).spec_pos() + 2 <= buf@.len(),
    ensures
        final(context).spec_mode() == old(context).spec_mode(),
        final(context).spec_pos() <= buf@.len(),
        fixed_len_post(buf@, old(context).spec_pos(), 10, final(context).spec_pos(), r),
        (r is Ok || r matches Err(DecoderError::PacketHandler(_))) ==> final(context).spec_events() == old(context).spec_events().push(PacketEvent::Mwait(buf@[old(context).spec_pos() + 2], buf@[old(context).spec_pos() + 2] & 0b0000_0011)),
        !(r is Ok || r matches Err(DecoderError::PacketHandler(_))) ==> final(context).spec_events() == old(context).spec_events(),
{
    if buf.len() - context.pos() < 10 {
        return Err(DecoderError::UnexpectedEOF);
    }
    let mwait_hints = buf[context.pos() + 2];
    let ext = buf[context.pos() + 2] & 0b0000_0011;
    proof {
        let b = buf@[context.spec_pos() + 2];
        assert(b & 0b0000_0011 <= 3) by (bit_vector);
    }
    let res = packet_handler.on_mwait_packet(context, mwait_hints, ext);
    context.log(Ghost(PacketEvent::Mwait(mwait_hints, ext)));
    if let Err(e) = res {
        return Err(DecoderError::PacketHandler(e));
    }
    context.advance(10);
    Ok(())
}

/// Handle a PWRE packet (4 bytes).
pub fn handle_pwre_packet<H: HandlePacket>(
    buf: &[u8],
    byte: u8,
    context: &mut DecoderContext,
    packet_handler: &mut H,
) -> (r: Result<(), DecoderError<H::Error>>)
    requires
        old(context).spec_pos() + 2 <= buf@.len(),
    ensures
        final(context).spec_mode() == old(context).spec_mode(),
        final(context).spec_pos() <= buf@.len(),
        fixed_len_post(buf@, old(context).spec_pos(), 4, final(context).spec_pos(), r),
        (r is Ok || r matches Err(DecoderError::PacketHandler(_))) ==> final(context).spec_events() == old(context).spec_events().push(PacketEvent::Pwre((buf@[old(context).spec_pos() + 2] & 0b1000_0000) != 0, (buf@[old(context).spec_pos() + 3] & 0b1111_0000) >> 4, buf@[old(context).spec_pos() + 3] & 0b0000_1111)),
        !(r is Ok || r matches Err(DecoderError::PacketHandler(_))) ==> final(context).spec_events() == old(context).spec_events(),
{
    if buf.len() - context.pos() < 4 {
        return Err(DecoderError::UnexpectedEOF);
    }
    let byte2 = buf[context.pos() + 2];
    let byte3 = buf[context.pos() + 3];
    let hw = (byte2 & 0b1000_0000) != 0;
    let resolved_thread_c_state = (byte3 & 0b1111_0000) >> 4;
    let resolved_thread_sub_c_state = byte3 & 0b0000_1111;
    proof {
        let b = byte3;
        assert((b & 0b1111_0000) >> 4 <= 15 && b & 0b0000_1111 <= 15) by (bit_vector);
    }
    let res = packet_handler.on_pwre_packet(
        context,
        hw,
        resolved_thread_c_state,
        resolved_thread_sub_c_state,
    );
    context.log(Ghost(PacketEvent::Pwre(hw, resolved_thread_c_state, resolved_thread_sub_c_state)));
    if let Err(e) = res {
        return Err(DecoderError::PacketHandler(e));
    }
    context.advance(4);
    Ok(())
}

/// Handle a PWRX packet (7 bytes).
pub fn handle_pwrx_packet<H: HandlePacket>(
    buf: &[u8],
    byte: u8,
    context: &mut DecoderContext,
    packet_handler: &mut H,
) -> (r: Result<(), DecoderError<H::Error>>)
    requires
        old(context).spec_pos() + 2 <= buf@.len(),
    ensures
        final(context).spec_mode() == old(context).spec_mode(),
        final(context).spec_pos() <= buf@.len(),
        fixed_len_post(buf@, old(context).spec_pos(), 7, final(context).spec_pos(), r),
        (r is Ok || r matches Err(DecoderError::PacketHandler(_))) ==> final(context).spec_events() == old(context).spec_events().push(PacketEvent::Pwrx((buf@[old(context).spec_pos() + 2] & 0b1111_0000) >> 4, buf@[old(context).spec_pos() + 2] & 0b0000_1111, buf@[old(context).spec_pos() + 3] & 0b0000_1111)),
        !(r is Ok || r matches Err(DecoderError::PacketHandler(_))) ==> final(context).spec_events() == old(context).spec_events(),
{
    if buf.len() - context.pos() < 7 {
        return Err(DecoderError::UnexpectedEOF);
    }
    let byte2 = buf[context.pos() + 2];
    let byte3 = buf[context.pos() + 3];
    let last_core_c_state = (byte2 & 0b1111_0000) >> 4;
    let deepest_core_c_state = byte2 & 0b0000_1111;
    let wake_reason = byte3 & 0b0000_1111;
    proof {
        let b2 = byte2;
        let b3 = byte3;
        assert((b2 & 0b1111_0000) >> 4 <= 15 && b2 & 0b0000_1111 <= 15 && b3 & 0b0000_1111 <= 15)
            by (bit_vector);
    }
    let res = packet_handler.on_pwrx_packet(
        context,
        last_core_c_state,
        deepest_core_c_state,
        wake_reason,
    );
    context.log(Ghost(PacketEvent::Pwrx(last_core_c_state, deepest_core_c_state, wake_reason)));
    if let Err(e) = res {
        return Err(DecoderError::PacketHandler(e));
    }
    context.advance(7);
    Ok(())
}

/// Handle a BBP packet: not supported by this decoder.
///
/// A block begin packet opens a group of block items whose end is only
/// found by walking the items, so it cannot be skipped by a fixed
/// length; the decode stops with [`DecoderError::Unimplemented`] instead
/// of guessing at the payload.
pub fn handle_bbp_packet<H: HandlePacket>(
    buf: &[u8],
    byte: u8,
    context: &mut DecoderContext,
    packet_handler: &mut H,
) -> (r: Result<(), DecoderError<H::Error>>)
    ensures
        r == Result::<(), DecoderError<H::Error>>::Err(DecoderError::Unimplemented),
        *final(context) == *old(context),
{
    Err(DecoderError::Unimplemented)
}

/// Handle a BEP packet: not supported by this decoder.
///
/// A block end packet closes a group opened by a block begin packet;
/// since those groups are not decoded, the decode stops with
/// [`DecoderError::Unimplemented`].
pub fn handle_bep_packet<H: HandlePacket>(
    buf: &[u8],
    byte: u8,
    context: &mut DecoderContext,
    packet_handler: &mut H,
) -> (r: Result<(), DecoderError<H::Error>>)
    ensures
        r == Result::<(), DecoderError<H::Error>>::Err(DecoderError::Unimplemented),
        *final(context) == *old(context),
{
    Err(DecoderError::Unimplemented)
}

/// Handle a CFE packet (4 bytes).
pub fn handle_cfe_packet<H: HandlePacket>(
    buf: &[u8],
    byte: u8,
    context: &mut DecoderContext,
    packet_handler: &mut H,
) -> (r: Result<(), DecoderError<H::Error>>)
    requires
        old(context).spec_pos() + 2 <= buf@.len(),
    ensures
        final(context).spec_mode() == old(context).spec_mode(),
        final(context).spec_pos() <= buf@.len(),
        fixed_len_post(buf@, old(context).spec_pos(), 4, final(context).spec_pos(), r),
        (r is Ok || r matches Err(DecoderError::PacketHandler(_))) ==> final(context).spec_events() == old(context).spec_events().push(PacketEvent::Cfe((buf@[old(context).spec_pos() + 2] & 0b1000_0000) != 0, buf@[old(context).spec_pos() + 2] & 0b0001_1111, buf@[old(context).spec_pos() + 3])),
        !(r is Ok || r matches Err(DecoderError::PacketHandler(_))) ==> final(context).spec_events() == old(context).spec_events(),
{
    if buf.len() - context.pos() < 4 {
        return Err(DecoderError::UnexpectedEOF);
    }
    let byte2 = buf[context.pos() + 2];
    let ip_bit = (byte2 & 0b1000_0000) != 0;
    let event_type = byte2 & 0b0001_1111;
    let vector = buf[context.pos() + 3];
    proof {
        let b = byte2;
        assert(b & 0b0001_1111 <= 31) by (bit_vector);
    }
    let res = packet_handler.on_cfe_packet(context, ip_bit, event_type, vector);
    context.log(Ghost(PacketEvent::Cfe(ip_bit, event_type, vector)));
    if let Err(e) = res {
        return Err(DecoderError::PacketHandler(e));
    }
    context.advance(4);
    Ok(())
}

/// Handle an EVD packet (11 bytes).
pub fn handle_evd_packet<H: HandlePacket>(
    buf: &[u8],
    byte: u8,
    context: &mut DecoderContext,
    packet_handler: &mut H,
) -> (r: Result<(), DecoderError<H::Error>>)
    requires
        old(context).spec_pos() + 2 <= buf@.len(),
    ensures
        final(context).spec_mode() == old(context).spec_mode(),
        final(context).spec_pos() <= buf@.len(),
        fixed_len_post(buf@, old(context).spec_pos(), 11, final(context).spec_pos(), r),
        (r is Ok || r matches Err(DecoderError::PacketHandler(_))) ==> final(context).spec_events() == old(context).spec_events().push(PacketEvent::Evd(buf@[old(context).spec_pos() + 2] & 0b0011_1111, le_val(buf@, old(context).spec_pos() + 3, 8) as u64)),
        !(r is Ok || r matches Err(DecoderError::PacketHandler(_))) ==> final(context).spec_events() == old(context).spec_events(),
{
    if buf.len() - context.pos() < 11 {
        return Err(DecoderError::UnexpectedEOF);
    }
    let event_type = buf[context.pos() + 2] & 0b0011_1111;
    proof {
        let b = buf@[context.spec_pos() + 2];
        assert(b & 0b0011_1111 <= 63) by (bit_vector);
    }
    let payload = match read_le(buf, context.pos() + 3, 8) {
        Some(v) => v,
        None => {
            return Err(DecoderError::Unexpected);
        },
    };
    let res = packet_handler.on_evd_packet(context, event_type, payload);
    context.log(Ghost(PacketEvent::Evd(event_type, payload)));
    if let Err(e) = res {
        return Err(DecoderError::PacketHandler(e));
    }
    context.advance(11);
    Ok(())
}

/// Decode one level-2 packet: dispatch on the byte after the `0x02` escape
/// and advance the cursor by the packet's total length.
pub fn decode<H: HandlePacket>(
    buf: &[u8],
    context: &mut DecoderContext,
    packet_handler: &mut H,
) -> (r: Result<(), DecoderError<H::Error>>)
    requires
        old(context).spec_pos() < buf@.len(),
        buf@[old(context).spec_pos()] == 2,
    ensures
        final(context).spec_pos() <= buf@.len(),
        final(context).spec_mode() == old(context).spec_mode(),
        r is Ok ==> old(context).spec_pos() < final(context).spec_pos(),
        r is Ok ==> final(context).spec_pos() == old(context).spec_pos() + level2_total_len(
            buf@,
            old(context).spec_pos(),
        ),
        r is Ok ==> final(context).spec_events().len() == old(context).spec_events().len() + 1,
        !(r matches Err(DecoderError::NoPsb)),
        old(context).spec_events().is_prefix_of(final(context).spec_events()),
        (match spec_l2_event(buf@, old(context).spec_pos()) {
            Ok((e, n)) => {
                &&& (r is Ok ==> final(context).spec_events() == old(context).spec_events().push(
                    e,
                ) && final(context).spec_pos() == n)
                &&& (r is Err ==> (r matches Err(DecoderError::PacketHandler(_)) && final(context).spec_events() == old(context).spec_events().push(e) && final(context).spec_pos()
                    == old(context).spec_pos()))
            },
            Err(k) => r == Result::<(), DecoderError<H::Error>>::Err(lift_err::<H::Error>(k))
                && final(context).spec_events() == old(context).spec_events() && final(context).spec_pos() == old(context).spec_pos(),
        }),
{
    proof {
        assert(old(context).spec_events().take(old(context).spec_events().len() as int) =~= old(context).spec_events());
    }
    if buf.len() - context.pos() < 2 {
        return Err(DecoderError::UnexpectedEOF);
    }
    let byte = buf[context.pos() + 1];
    proof {
        assert((0x12u8 & 0b0110_0000) >> 5 == 0 && (0x92u8 & 0b0110_0000) >> 5 == 0 && (0x32u8
            & 0b0110_0000) >> 5 == 1 && (0xB2u8 & 0b0110_0000) >> 5 == 1 && (0x52u8 & 0b0110_0000)
            >> 5 == 2 && (0xD2u8 & 0b0110_0000) >> 5 == 2 && (0x72u8 & 0b0110_0000) >> 5 == 3 && (
        0xF2u8 & 0b0110_0000) >> 5 == 3) by (bit_vector);
    }
    match byte {
        0b0000_0011 => handle_cbr_packet(buf, byte, context, packet_handler),
        0b0001_0010 | 0b0011_0010 | 0b0101_0010 | 0b0111_0010 | 0b1001_0010 | 0b1011_0010
        | 0b1101_0010 | 0b1111_0010 => {
            // xxx10010
            handle_ptw_packet(buf, byte, context, packet_handler)
        },
        0b0001_0011 => handle_cfe_packet(buf, byte, context, packet_handler),
        0b0010_0010 => handle_pwre_packet(buf, byte, context, packet_handler),
        0b0010_0011 => handle_psbend_packet(buf, byte, context, packet_handler),
        0b0011_0011 | 0b1011_0011 => {
            // x0110011
            handle_bep_packet(buf, byte, context, packet_handler)
        },
        0b0100_0011 => handle_pip_packet(buf, byte, context, packet_handler),
        0b0101_0011 => handle_evd_packet(buf, byte, context, packet_handler),
        0b0110_0010 | 0b1110_0010 => {
            // x1100010
            handle_exstop_packet(buf, byte, context, packet_handler)
        },
        0b0110_0011 => handle_bbp_packet(buf, byte, context, packet_handler),
        0b0111_0011 => handle_tma_packet(buf, byte, context, packet_handler),
        0b1000_0010 => handle_psb_packet(buf, byte, context, packet_handler),
        0b1000_0011 => handle_trace_stop_packet(buf, byte, context, packet_handler),
        0b1010_0010 => handle_pwrx_packet(buf, byte, context, packet_handler),
        0b1010_0011 => handle_long_tnt_packet(buf, byte, context, packet_handler),
        0b1100_0010 => handle_mwait_packet(buf, byte, context, packet_handler),
        0b1100_1000 => handle_vmcs_packet(buf, byte, context, packet_handler),
        0b1111_0011 => handle_ovf_packet(buf, byte, context, packet_handler),
        0b1100_0011 => handle_mnt_packet(buf, byte, context, packet_handler),
        _ => Err(DecoderError::InvalidPacket),
    }
}

} // verus!
