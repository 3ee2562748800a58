//! Level-1 packet dispatch: one-byte opcodes and the variable-length IP
//! payloads of TIP/FUP packets.

use vstd::prelude::*;
use vstd::slice::slice_subrange;

use crate::bitops::{le_val, short_tnt_count};
use crate::decoder::error::DecoderError;
use crate::decoder::{read_le, DecoderContext, HandlePacket, PacketEvent, TraceeMode};

verus! {

/// Pattern for IP reconstruction.
#[derive(Debug, Clone, Copy, PartialEq, Eq, Structural)]
pub enum IpReconstructionPattern {
    /// None, IP is out of context
    OutOfContext,
    /// IP Payload[15:0]
    TwoBytesWithLastIp(u16),
    /// IP Payload[31:0]
    FourBytesWithLastIp(u32),
    /// IP Payload[47:0], sign-extended; the upper 2 bytes are cleared
    SixBytesExtended(u64),
    /// IP Payload[47:0]; the upper 2 bytes are cleared
    SixBytesWithLastIp(u64),
    /// IP Payload[63:0]
    EightBytes(u64),
}

impl IpReconstructionPattern {
    /// The six-byte payload variants carry 48 significant bits.
    pub open spec fn wf(self) -> bool {
        match self {
            IpReconstructionPattern::SixBytesExtended(p) => p < 0x1_0000_0000_0000,
            IpReconstructionPattern::SixBytesWithLastIp(p) => p < 0x1_0000_0000_0000,
            _ => true,
        }
    }
}

/// Number of IP payload bytes selected by the `IPBytes` header field, or
/// `None` if the combination is invalid in the current mode.
pub open spec fn ip_payload_len(ip_bytes: u8, mode: TraceeMode) -> Option<nat> {
    if ip_bytes == 0 {
        Some(0nat)
    } else if ip_bytes == 1 {
        Some(2nat)
    } else if ip_bytes == 2 {
        Some(4nat)
    } else if (ip_bytes == 3 || ip_bytes == 4) && mode == TraceeMode::Mode64 {
        Some(6nat)
    } else if ip_bytes == 6 && mode == TraceeMode::Mode64 {
        Some(8nat)
    } else {
        None
    }
}

/// The IP reconstruction pattern encoded at `pos` (the first payload byte)
/// for a valid `ip_bytes` selector.
pub open spec fn spec_ip_pattern(
    s: Seq<u8>,
    pos: int,
    ip_bytes: u8,
    mode: TraceeMode,
) -> IpReconstructionPattern {
    if ip_bytes == 0 {
        IpReconstructionPattern::OutOfContext
    } else if ip_bytes == 1 {
        IpReconstructionPattern::TwoBytesWithLastIp(le_val(s, pos, 2) as u16)
    } else if ip_bytes == 2 {
        IpReconstructionPattern::FourBytesWithLastIp(le_val(s, pos, 4) as u32)
    } else if ip_bytes == 3 {
        IpReconstructionPattern::SixBytesExtended(le_val(s, pos, 6) as u64)
    } else if ip_bytes == 4 {
        IpReconstructionPattern::SixBytesWithLastIp(le_val(s, pos, 6) as u64)
    } else {
        IpReconstructionPattern::EightBytes(le_val(s, pos, 8) as u64)
    }
}

/// Parse the IP payload of a TIP/TIP.PGD/TIP.PGE/FUP packet.
///
/// `pos` must already be advanced past the one-byte header.
fn ip_reconstruction<E>(buf: &[u8], ip_bytes: u8, context: &mut DecoderContext) -> (r: Result<
    IpReconstructionPattern,
    DecoderError<E>,
>)
    requires
        ip_bytes <= 7,
        old(context).spec_pos() <= buf@.len(),
    ensures
        final(context).spec_mode() == old(context).spec_mode(),
        final(context).spec_events() == old(context).spec_events(),
        match ip_payload_len(ip_bytes, old(context).spec_mode()) {
            Some(l) => {
                if old(context).spec_pos() + l <= buf@.len() {
                    &&& r == Result::<IpReconstructionPattern, DecoderError<E>>::Ok(
                        spec_ip_pattern(
                            buf@,
                            old(context).spec_pos(),
                            ip_bytes,
                            old(context).spec_mode(),
                        ),
                    )
                    &&& final(context).spec_pos() == old(context).spec_pos() + l
                    &&& (r matches Ok(p) && p.wf())
                } else {
                    r == Result::<IpReconstructionPattern, DecoderError<E>>::Err(
                        DecoderError::UnexpectedEOF,
                    ) && final(context).spec_pos() == old(context).spec_pos()
                }
            },
            None => r == Result::<IpReconstructionPattern, DecoderError<E>>::Err(
                DecoderError::InvalidPacket,
            ) && final(context).spec_pos() == old(context).spec_pos(),
        },
{
    let mode64 = matches!(context.tracee_mode(), TraceeMode::Mode64);
    if ip_bytes == 0 {
        Ok(IpReconstructionPattern::OutOfContext)
    } else if ip_bytes == 1 {
        match read_le(buf, context.pos(), 2) {
            Some(v) => {
                proof {
                    crate::decoder::lemma_le_val_fits(buf@, context.spec_pos(), 2);
                }
                context.advance(2);
                Ok(IpReconstructionPattern::TwoBytesWithLastIp(v as u16))
            },
            None => Err(DecoderError::UnexpectedEOF),
        }
    } else if ip_bytes == 2 {
        match read_le(buf, context.pos(), 4) {
            Some(v) => {
                proof {
                    crate::decoder::lemma_le_val_fits(buf@, context.spec_pos(), 4);
                }
                context.advance(4);
                Ok(IpReconstructionPattern::FourBytesWithLastIp(v as u32))
            },
            None => Err(DecoderError::UnexpectedEOF),
        }
    } else if ip_bytes == 3 && mode64 {
        match read_le(buf, context.pos(), 6) {
            Some(v) => {
                proof {
                    crate::decoder::lemma_le_val_fits(buf@, context.spec_pos(), 6);
                }
                context.advance(6);
                Ok(IpReconstructionPattern::SixBytesExtended(v))
            },
            None => Err(DecoderError::UnexpectedEOF),
        }
    } else if ip_bytes == 4 && mode64 {
        match read_le(buf, context.pos(), 6) {
            Some(v) => {
                proof {
                    crate::decoder::lemma_le_val_fits(buf@, context.spec_pos(), 6);
                }
                context.advance(6);
                Ok(IpReconstructionPattern::SixBytesWithLastIp(v))
            },
            None => Err(DecoderError::UnexpectedEOF),
        }
    } else if ip_bytes == 6 && mode64 {
        match read_le(buf, context.pos(), 8) {
            Some(v) => {
                context.advance(8);
                Ok(IpReconstructionPattern::EightBytes(v))
            },
            None => Err(DecoderError::UnexpectedEOF),
        }
    } else {
        Err(DecoderError::InvalidPacket)
    }
}

/// Handle one or more consecutive PAD packets.
pub fn handle_pad_packet<H: HandlePacket>(
    buf: &[u8],
    byte: u8,
    context: &mut DecoderContext,
    packet_handler: &mut H,
) -> (r: Result<(), DecoderError<H::Error>>)
    requires
        old(context).spec_pos() < buf@.len(),
        buf@[old(context).spec_pos()] == 0,
    ensures
        final(context).spec_mode() == old(context).spec_mode(),
        old(context).spec_pos() <= final(context).spec_pos() <= buf@.len(),
        r is Ok ==> old(context).spec_pos() < final(context).spec_pos() && (final(context).spec_pos() == buf@.len() || buf@[final(context).spec_pos()] != 0),
        r is Ok ==> final(context).spec_events() == old(context).spec_events() + Seq::new(
            (final(context).spec_pos() - old(context).spec_pos()) as nat,
            |i: int| PacketEvent::Pad,
        ),
        r is Err ==> r matches Err(DecoderError::PacketHandler(_)),
        r is Ok ==> forall|i: int|
            old(context).spec_pos() <= i < final(context).spec_pos() ==> buf@[i] == 0,
        old(context).spec_events().is_prefix_of(final(context).spec_events()),
{
    proof {
        crate::decoder::lemma_slice_len_fits(buf);
    }
    loop
        invariant_except_break
            context.spec_pos() < buf@.len(),
            buf@[context.spec_pos()] == 0,
        invariant
            buf@.len() <= usize::MAX,
            context.spec_mode() == old(context).spec_mode(),
            old(context).spec_pos() <= context.spec_pos() <= buf@.len(),
            forall|i: int| old(context).spec_pos() <= i < context.spec_pos() ==> buf@[i] == 0,
            context.spec_events() == old(context).spec_events() + Seq::new(
                (context.spec_pos() - old(context).spec_pos()) as nat,
                |i: int| PacketEvent::Pad,
            ),
        ensures
            context.spec_mode() == old(context).spec_mode(),
            old(context).spec_pos() < context.spec_pos() <= buf@.len(),
            context.spec_pos() == buf@.len() || buf@[context.spec_pos()] != 0,
            forall|i: int| old(context).spec_pos() <= i < context.spec_pos() ==> buf@[i] == 0,
            context.spec_events() == old(context).spec_events() + Seq::new(
                (context.spec_pos() - old(context).spec_pos()) as nat,
                |i: int| PacketEvent::Pad,
            ),
        decreases buf@.len() - context.spec_pos(),
    {
        let res = packet_handler.on_pad_packet(context);
        context.log(Ghost(PacketEvent::Pad));
        proof {
            assert(context.spec_events() =~= old(context).spec_events() + Seq::new(
                (context.spec_pos() + 1 - old(context).spec_pos()) as nat,
                |i: int| PacketEvent::Pad,
            ));
            assert(context.spec_events().take(old(context).spec_events().len() as int)
                =~= old(context).spec_events());
        }
        if let Err(e) = res {
            return Err(DecoderError::PacketHandler(e));
        }
        context.advance(1);
        if context.pos() >= buf.len() {
            break;
        }
        if buf[context.pos()] != 0 {
            break;
        }
    }
    Ok(())
}

/// Handle a short TNT packet: a single even byte that is neither PAD nor
/// the level-2 escape.
pub fn handle_short_tnt_packet<H: HandlePacket>(
    buf: &[u8],
    byte: u8,
    context: &mut DecoderContext,
    packet_handler: &mut H,
) -> (r: Result<(), DecoderError<H::Error>>)
    requires
        old(context).spec_pos() < buf@.len(),
        byte == buf@[old(context).spec_pos()],
        byte != 0,
        byte != 2,
        byte & 1 == 0,
    ensures
        final(context).spec_mode() == old(context).spec_mode(),
        r is Ok ==> final(context).spec_pos() == old(context).spec_pos() + 1,
        r is Err ==> (r matches Err(DecoderError::PacketHandler(_)) && final(context).spec_pos()
            == old(context).spec_pos()),
        final(context).spec_events() == old(context).spec_events().push(
            PacketEvent::ShortTnt(byte, short_tnt_count(byte) as u32),
        ),
{
    proof {
        assert(byte >= 4) by (bit_vector)
            requires
                byte != 0,
                byte != 2,
                byte & 1 == 0,
        ;
        vstd::arithmetic::power2::lemma2_to64();
        crate::bitops::lemma_top_bit_lt(byte as u64, 8);
    }
    proof {
        crate::decoder::lemma_slice_len_fits(buf);
    }
    let highest_bit = crate::bitops::top_bit_index(byte as u64) - 1;
    let res = packet_handler.on_short_tnt_packet(context, byte, highest_bit);
    context.log(Ghost(PacketEvent::ShortTnt(byte, highest_bit)));
    if let Err(e) = res {
        return Err(DecoderError::PacketHandler(e));
    }
    context.advance(1);
    Ok(())
}

/// The result of a TIP-class packet at `pos`: the exact advance and error
/// conditions shared by TIP, TIP.PGD, TIP.PGE and FUP.
pub open spec fn tip_like_post<E>(
    s: Seq<u8>,
    pos: int,
    mode: TraceeMode,
    new_pos: int,
    r: Result<(), DecoderError<E>>,
) -> bool {
    match ip_payload_len((s[pos] >> 5) as u8, mode) {
        Some(l) => {
            &&& (pos + 1 + l > s.len() <==> r == Result::<(), DecoderError<E>>::Err(
                DecoderError::UnexpectedEOF,
            ))
            &&& (r is Ok ==> pos + 1 + l <= s.len() && new_pos == pos + 1 + l)
            &&& (r is Err ==> r matches Err(DecoderError::UnexpectedEOF) || r matches Err(
                DecoderError::PacketHandler(_),
            ))
        },
        None => r == Result::<(), DecoderError<E>>::Err(DecoderError::InvalidPacket),
    }
}

/// Handle a TIP packet.
pub fn handle_tip_packet<H: HandlePacket>(
    buf: &[u8],
    byte: u8,
    context: &mut DecoderContext,
    packet_handler: &mut H,
) -> (r: Result<(), DecoderError<H::Error>>)
    requires
        old(context).spec_pos() < buf@.len(),
        byte == buf@[old(context).spec_pos()],
    ensures
        final(context).spec_mode() == old(context).spec_mode(),
        final(context).spec_pos() <= buf@.len(),
        tip_like_post(
            buf@,
            old(context).spec_pos(),
            old(context).spec_mode(),
            final(context).spec_pos(),
            r,
        ),
        (r is Ok || r matches Err(DecoderError::PacketHandler(_))) ==> final(context).spec_events() == old(context).spec_events().push(
            PacketEvent::Tip(
                spec_ip_pattern(
                    buf@,
                    old(context).spec_pos() + 1,
                    (byte >> 5) as u8,
                    old(context).spec_mode(),
                ),
            ),
        ),
        !(r is Ok || r matches Err(DecoderError::PacketHandler(_))) ==> final(context).spec_events() == old(context).spec_events(),
{
    proof {
        crate::decoder::lemma_slice_len_fits(buf);
    }
    context.advance(1);
    let ip_bytes = byte >> 5;
    proof {
        assert(byte >> 5 <= 7) by (bit_vector);
    }
    let pattern = match ip_reconstruction::<H::Error>(buf, ip_bytes, context) {
        Ok(p) => p,
        Err(e) => {
            return Err(e);
        },
    };
    let res = packet_handler.on_tip_packet(context, pattern);
    context.log(Ghost(PacketEvent::Tip(pattern)));
    if let Err(e) = res {
        return Err(DecoderError::PacketHandler(e));
    }
    Ok(())
}

/// Handle a TIP.PGD packet.
pub fn handle_tip_pgd_packet<H: HandlePacket>(
    buf: &[u8],
    byte: u8,
    context: &mut DecoderContext,
    packet_handler: &mut H,
) -> (r: Result<(), DecoderError<H::Error>>)
    requires
        old(context).spec_pos() < buf@.len(),
        byte == buf@[old(context).spec_pos()],
    ensures
        final(context).spec_mode() == old(context).spec_mode(),
        final(context).spec_pos() <= buf@.len(),
        tip_like_post(
            buf@,
            old(context).spec_pos(),
            old(context).spec_mode(),
            final(context).spec_pos(),
            r,
        ),
        (r is Ok || r matches Err(DecoderError::PacketHandler(_))) ==> final(context).spec_events() == old(context).spec_events().push(
            PacketEvent::TipPgd(
                spec_ip_pattern(
                    buf@,
                    old(context).spec_pos() + 1,
                    (byte >> 5) as u8,
                    old(context).spec_mode(),
                ),
            ),
        ),
        !(r is Ok || r matches Err(DecoderError::PacketHandler(_))) ==> final(context).spec_events() == old(context).spec_events(),
{
    proof {
        crate::decoder::lemma_slice_len_fits(buf);
    }
    context.advance(1);
    let ip_bytes = byte >> 5;
    proof {
        assert(byte >> 5 <= 7) by (bit_vector);
    }
    let pattern = match ip_reconstruction::<H::Error>(buf, ip_bytes, context) {
        Ok(p) => p,
        Err(e) => {
            return Err(e);
        },
    };
    let res = packet_handler.on_tip_pgd_packet(context, pattern);
    context.log(Ghost(PacketEvent::TipPgd(pattern)));
    if let Err(e) = res {
        return Err(DecoderError::PacketHandler(e));
    }
    Ok(())
}

/// Handle a TIP.PGE packet.
pub fn handle_tip_pge_packet<H: HandlePacket>(
    buf: &[u8],
    byte: u8,
    context: &mut DecoderContext,
    packet_handler: &mut H,
) -> (r: Result<(), DecoderError<H::Error>>)
    requires
        old(context).spec_pos() < buf@.len(),
        byte == buf@[old(context).spec_pos()],
    ensures
        final(context).spec_mode() == old(context).spec_mode(),
        final(context).spec_pos() <= buf@.len(),
        tip_like_post(
            buf@,
            old(context).spec_pos(),
            old(context).spec_mode(),
            final(context).spec_pos(),
            r,
        ),
        (r is Ok || r matches Err(DecoderError::PacketHandler(_))) ==> final(context).spec_events() == old(context).spec_events().push(
            PacketEvent::TipPge(
                spec_ip_pattern(
                    buf@,
                    old(context).spec_pos() + 1,
                    (byte >> 5) as u8,
                    old(context).spec_mode(),
                ),
            ),
        ),
        !(r is Ok || r matches Err(DecoderError::PacketHandler(_))) ==> final(context).spec_events() == old(context).spec_events(),
{
    proof {
        crate::decoder::lemma_slice_len_fits(buf);
    }
    context.advance(1);
    let ip_bytes = byte >> 5;
    proof {
        assert(byte >> 5 <= 7) by (bit_vector);
    }
    let pattern = match ip_reconstruction::<H::Error>(buf, ip_bytes, context) {
        Ok(p) => p,
        Err(e) => {
            return Err(e);
        },
    };
    let res = packet_handler.on_tip_pge_packet(context, pattern);
    context.log(Ghost(PacketEvent::TipPge(pattern)));
    if let Err(e) = res {
        return Err(DecoderError::PacketHandler(e));
    }
    Ok(())
}

/// Handle a FUP packet.
pub fn handle_fup_packet<H: HandlePacket>(
    buf: &[u8],
    byte: u8,
    context: &mut DecoderContext,
    packet_handler: &mut H,
) -> (r: Result<(), DecoderError<H::Error>>)
    requires
        old(context).spec_pos() < buf@.len(),
        byte == buf@[old(context).spec_pos()],
    ensures
        final(context).spec_mode() == old(context).spec_mode(),
        final(context).spec_pos() <= buf@.len(),
        tip_like_post(
            buf@,
            old(context).spec_pos(),
            old(context).spec_mode(),
            final(context).spec_pos(),
            r,
        ),
        (r is Ok || r matches Err(DecoderError::PacketHandler(_))) ==> final(context).spec_events() == old(context).spec_events().push(
            PacketEvent::Fup(
                spec_ip_pattern(
                    buf@,
                    old(context).spec_pos() + 1,
                    (byte >> 5) as u8,
                    old(context).spec_mode(),
                ),
            ),
        ),
        !(r is Ok || r matches Err(DecoderError::PacketHandler(_))) ==> final(context).spec_events() == old(context).spec_events(),
{
    proof {
        crate::decoder::lemma_slice_len_fits(buf);
    }
    context.advance(1);
    let ip_bytes = byte >> 5;
    proof {
        assert(byte >> 5 <= 7) by (bit_vector);
    }
    let pattern = match ip_reconstruction::<H::Error>(buf, ip_bytes, context) {
        Ok(p) => p,
        Err(e) => {
            return Err(e);
        },
    };
    let res = packet_handler.on_fup_packet(context, pattern);
    context.log(Ghost(PacketEvent::Fup(pattern)));
    if let Err(e) = res {
        return Err(DecoderError::PacketHandler(e));
    }
    Ok(())
}

/// The end of a CYC packet whose continuation state is `exp` at `p`, or
/// `None` if the stream ends inside the packet.
pub open spec fn cyc_end(s: Seq<u8>, p: int, exp: bool) -> Option<int>
    decreases s.len() - p,
{
    if !exp {
        Some(p)
    } else if p >= s.len() || p < 0 {
        None
    } else {
        cyc_end(s, p + 1, s[p] % 2 != 0)
    }
}

/// Handle a CYC packet: consumes bytes while the continuation bit of each
/// added byte is set.
pub fn handle_cyc_packet<H: HandlePacket>(
    buf: &[u8],
    byte: u8,
    context: &mut DecoderContext,
    packet_handler: &mut H,
) -> (r: Result<(), DecoderError<H::Error>>)
    requires
        old(context).spec_pos() < buf@.len(),
        byte == buf@[old(context).spec_pos()],
    ensures
        final(context).spec_mode() == old(context).spec_mode(),
        final(context).spec_pos() <= buf@.len(),
        r is Ok ==> final(context).spec_pos() > old(context).spec_pos(),
        ({
            let e = cyc_end(buf@, old(context).spec_pos() + 1, (byte & 0b0000_0100) != 0);
            match e {
                Some(end) => {
                    &&& (r is Ok ==> final(context).spec_pos() == end)
                    &&& (r is Err ==> (r matches Err(DecoderError::PacketHandler(_)) && final(context).spec_pos() == old(context).spec_pos()))
                    &&& final(context).spec_events() == old(context).spec_events().push(
                        PacketEvent::Cyc(buf@.subrange(old(context).spec_pos(), end)),
                    )
                },
                None => r == Result::<(), DecoderError<H::Error>>::Err(
                    DecoderError::UnexpectedEOF,
                ) && final(context).spec_pos() == old(context).spec_pos() && final(context).spec_events() == old(context).spec_events(),
            }
        }),
{
    proof {
        crate::decoder::lemma_slice_len_fits(buf);
    }
    let mut exp = (byte & 0b0000_0100) != 0;
    let mut end_pos = context.pos() + 1;
    let ghost start_exp = exp;
    while exp
        invariant
            old(context).spec_pos() < end_pos <= buf@.len(),
            buf@.len() <= usize::MAX,
            context.spec_pos() == old(context).spec_pos(),
            context.spec_mode() == old(context).spec_mode(),
            start_exp == ((byte & 0b0000_0100) != 0),
            cyc_end(buf@, old(context).spec_pos() + 1, start_exp) == cyc_end(
                buf@,
                end_pos as int,
                exp,
            ),
        decreases buf@.len() - end_pos + 1,
    {
        if end_pos >= buf.len() {
            return Err(DecoderError::UnexpectedEOF);
        }
        let b = buf[end_pos];
        exp = b % 2 != 0;
        end_pos = end_pos + 1;
    }
    let cyc = slice_subrange(buf, context.pos(), end_pos);
    let res = packet_handler.on_cyc_packet(context, cyc);
    context.log(Ghost(PacketEvent::Cyc(cyc@)));
    if let Err(e) = res {
        return Err(DecoderError::PacketHandler(e));
    }
    context.set_pos(end_pos);
    Ok(())
}

/// Handle a TSC packet: the header byte plus 7 timestamp bytes.
pub fn handle_tsc_packet<H: HandlePacket>(
    buf: &[u8],
    byte: u8,
    context: &mut DecoderContext,
    packet_handler: &mut H,
) -> (r: Result<(), DecoderError<H::Error>>)
    requires
        old(context).spec_pos() < buf@.len(),
    ensures
        final(context).spec_mode() == old(context).spec_mode(),
        final(context).spec_pos() <= buf@.len(),
        old(context).spec_pos() + 8 > buf@.len() <==> r == Result::<(), DecoderError<
            H::Error,
        >>::Err(DecoderError::UnexpectedEOF),
        r is Ok ==> final(context).spec_pos() == old(context).spec_pos() + 8,
        r is Err ==> (r matches Err(DecoderError::UnexpectedEOF) || r matches Err(
            DecoderError::PacketHandler(_),
        )) && final(context).spec_pos() == old(context).spec_pos(),
        (r is Ok || r matches Err(DecoderError::PacketHandler(_))) ==> final(context).spec_events() == old(context).spec_events().push(
            PacketEvent::Tsc(le_val(buf@, old(context).spec_pos() + 1, 7) as u64),
        ),
        !(r is Ok || r matches Err(DecoderError::PacketHandler(_))) ==> final(context).spec_events() == old(context).spec_events(),
{
    proof {
        crate::decoder::lemma_slice_len_fits(buf);
    }
    let tsc_value = match read_le(buf, context.pos() + 1, 7) {
        Some(v) => v,
        None => {
            return Err(DecoderError::UnexpectedEOF);
        },
    };
    proof {
        crate::decoder::lemma_le_val_fits(buf@, context.spec_pos() + 1, 7);
    }
    let res = packet_handler.on_tsc_packet(context, tsc_value);
    context.log(Ghost(PacketEvent::Tsc(tsc_value)));
    if let Err(e) = res {
        return Err(DecoderError::PacketHandler(e));
    }
    context.advance(8);
    Ok(())
}

/// Handle an MTC packet: the header byte plus the CTC payload byte.
pub fn handle_mtc_packet<H: HandlePacket>(
    buf: &[u8],
    byte: u8,
    context: &mut DecoderContext,
    packet_handler: &mut H,
) -> (r: Result<(), DecoderError<H::Error>>)
    requires
        old(context).spec_pos() < buf@.len(),
    ensures
        final(context).spec_mode() == old(context).spec_mode(),
        final(context).spec_pos() <= buf@.len(),
        old(context).spec_pos() + 2 > buf@.len() <==> r == Result::<(), DecoderError<
            H::Error,
        >>::Err(DecoderError::UnexpectedEOF),
        r is Ok ==> final(context).spec_pos() == old(context).spec_pos() + 2,
        r is Err ==> (r matches Err(DecoderError::UnexpectedEOF) || r matches Err(
            DecoderError::PacketHandler(_),
        )) && final(context).spec_pos() == old(context).spec_pos(),
        (r is Ok || r matches Err(DecoderError::PacketHandler(_))) ==> final(context).spec_events() == old(context).spec_events().push(
            PacketEvent::Mtc(buf@[old(context).spec_pos() + 1]),
        ),
        !(r is Ok || r matches Err(DecoderError::PacketHandler(_))) ==> final(context).spec_events() == old(context).spec_events(),
{
    if buf.len() - context.pos() < 2 {
        return Err(DecoderError::UnexpectedEOF);
    }
    let ctc_payload = buf[context.pos() + 1];
    let res = packet_handler.on_mtc_packet(context, ctc_payload);
    context.log(Ghost(PacketEvent::Mtc(ctc_payload)));
    if let Err(e) = res {
        return Err(DecoderError::PacketHandler(e));
    }
    context.advance(2);
    Ok(())
}

/// Handle a MODE packet; a MODE.exec payload switches the tracee mode.
pub fn handle_mode_packet<H: HandlePacket>(
    buf: &[u8],
    byte: u8,
    context: &mut DecoderContext,
    packet_handler: &mut H,
) -> (r: Result<(), DecoderError<H::Error>>)
    requires
        old(context).spec_pos() < buf@.len(),
    ensures
        final(context).spec_pos() <= buf@.len(),
        old(context).spec_pos() + 2 > buf@.len() <==> r == Result::<(), DecoderError<
            H::Error,
        >>::Err(DecoderError::UnexpectedEOF),
        r is Ok ==> final(context).spec_pos() == old(context).spec_pos() + 2,
        r is Err ==> (r matches Err(DecoderError::UnexpectedEOF) || r matches Err(
            DecoderError::PacketHandler(_),
        )) && final(context).spec_pos() == old(context).spec_pos(),
        ({
            let b = buf@[old(context).spec_pos() + 1];
            let leaf_id = (b & 0b1110_0000) >> 5;
            let m = b & 0b0001_1111;
            &&& (!(r matches Err(DecoderError::UnexpectedEOF)) && leaf_id == 0 ==> final(context).spec_mode() == (if m & 3 == 0 {
                TraceeMode::Mode16
            } else if m & 3 == 1 {
                TraceeMode::Mode64
            } else if m & 3 == 2 {
                TraceeMode::Mode32
            } else {
                old(context).spec_mode()
            }))
            &&& (r matches Err(DecoderError::UnexpectedEOF) || leaf_id != 0 ==> final(context).spec_mode() == old(context).spec_mode())
            &&& ((r is Ok || r matches Err(DecoderError::PacketHandler(_))) ==> final(context).spec_events() == old(context).spec_events().push(PacketEvent::Mode(leaf_id, m)))
            &&& (!(r is Ok || r matches Err(DecoderError::PacketHandler(_))) ==> final(context).spec_events() == old(context).spec_events())
        }),
{
    if buf.len() - context.pos() < 2 {
        return Err(DecoderError::UnexpectedEOF);
    }
    let b = buf[context.pos() + 1];
    let leaf_id = (b & 0b1110_0000) >> 5;
    let mode = b & 0b0001_1111;
    proof {
        assert((b & 0b1110_0000) >> 5 <= 7 && b & 0b0001_1111 <= 31 && ((b & 0b0001_1111) & 3)
            == ((b & 0b0001_1111) % 4)) by (bit_vector);
    }
    if leaf_id == 0 {
        // MODE.exec packet
        match mode & 0b0000_0011 {
            0b00 => {
                context.set_mode(TraceeMode::Mode16);
            },
            0b01 => {
                context.set_mode(TraceeMode::Mode64);
            },
            0b10 => {
                context.set_mode(TraceeMode::Mode32);
            },
            _ => {},
        }
    }
    let res = packet_handler.on_mode_packet(context, leaf_id, mode);
    context.log(Ghost(PacketEvent::Mode(leaf_id, mode)));
    if let Err(e) = res {
        return Err(DecoderError::PacketHandler(e));
    }
    context.advance(2);
    Ok(())
}

/// The parse of a packet stream: the callback events it dispatches in
/// order, the tracee mode once it stops, and the error that stopped it,
/// if any.  The events before a failing packet are kept.
pub struct ParseResult {
    pub events: Seq<PacketEvent>,
    pub mode: TraceeMode,
    pub error: Option<DecoderError<()>>,
}

/// A parse that stops at the current packet with error `k`.
pub open spec fn parse_fail(mode: TraceeMode, k: DecoderError<()>) -> ParseResult {
    ParseResult { events: Seq::empty(), mode, error: Some(k) }
}

/// A parse whose first packet dispatches `e` and continues as `rest`.
pub open spec fn parse_cons(e: PacketEvent, rest: ParseResult) -> ParseResult {
    ParseResult { events: seq![e] + rest.events, mode: rest.mode, error: rest.error }
}

/// A CYC packet's end position lies between its start and the end of the
/// stream.
pub proof fn lemma_cyc_end_bounds(s: Seq<u8>, p: int, exp: bool)
    requires
        0 <= p <= s.len(),
    ensures
        cyc_end(s, p, exp) matches Some(e) ==> p <= e <= s.len(),
    decreases s.len() - p,
{
    if exp && p < s.len() {
        lemma_cyc_end_bounds(s, p + 1, s[p] % 2 != 0);
    }
}

/// The parse of the packet stream of `s` from `pos` in `mode`: one step
/// per packet, in the order the dispatcher tries the opcode patterns.
pub open spec fn spec_packets(s: Seq<u8>, pos: int, mode: TraceeMode) -> ParseResult
    decreases s.len() - pos,
        when 0 <= pos <= s.len()
        via spec_packets_dec
{
    if pos == s.len() {
        ParseResult { events: Seq::empty(), mode, error: None }
    } else {
        let byte = s[pos];
        if byte == 0 {
            parse_cons(PacketEvent::Pad, spec_packets(s, pos + 1, mode))
        } else if byte & 0b0001_1111 == 0b0000_0001 {
            match ip_payload_len((byte >> 5) as u8, mode) {
                Some(l) => if pos + 1 + l > s.len() {
                    parse_fail(mode, DecoderError::UnexpectedEOF)
                } else {
                    parse_cons(
                        PacketEvent::TipPgd(spec_ip_pattern(s, pos + 1, (byte >> 5) as u8, mode)),
                        spec_packets(s, pos + 1 + l, mode),
                    )
                },
                None => parse_fail(mode, DecoderError::InvalidPacket),
            }
        } else if byte == 0b0000_0010 {
            match crate::decoder::level2::spec_l2_event(s, pos) {
                Ok((e, n)) => parse_cons(e, spec_packets(s, n, mode)),
                Err(k) => parse_fail(mode, k),
            }
        } else if byte & 0b0000_0011 == 0b0000_0011 {
            match cyc_end(s, pos + 1, (byte & 0b0000_0100) != 0) {
                Some(end) => parse_cons(
                    PacketEvent::Cyc(s.subrange(pos, end)),
                    spec_packets(s, end, mode),
                ),
                None => parse_fail(mode, DecoderError::UnexpectedEOF),
            }
        } else if byte & 0b0000_0001 == 0b0000_0000 {
            parse_cons(
                PacketEvent::ShortTnt(byte, short_tnt_count(byte) as u32),
                spec_packets(s, pos + 1, mode),
            )
        } else if byte & 0b0001_1111 == 0b0000_1101 {
            match ip_payload_len((byte >> 5) as u8, mode) {
                Some(l) => if pos + 1 + l > s.len() {
                    parse_fail(mode, DecoderError::UnexpectedEOF)
                } else {
                    parse_cons(
                        PacketEvent::Tip(spec_ip_pattern(s, pos + 1, (byte >> 5) as u8, mode)),
                        spec_packets(s, pos + 1 + l, mode),
                    )
                },
                None => parse_fail(mode, DecoderError::InvalidPacket),
            }
        } else if byte & 0b0001_1111 == 0b0001_0001 {
            match ip_payload_len((byte >> 5) as u8, mode) {
                Some(l) => if pos + 1 + l > s.len() {
                    parse_fail(mode, DecoderError::UnexpectedEOF)
                } else {
                    parse_cons(
                        PacketEvent::TipPge(spec_ip_pattern(s, pos + 1, (byte >> 5) as u8, mode)),
                        spec_packets(s, pos + 1 + l, mode),
                    )
                },
                None => parse_fail(mode, DecoderError::InvalidPacket),
            }
        } else if byte == 0b0001_1001 {
            if pos + 8 > s.len() {
                parse_fail(mode, DecoderError::UnexpectedEOF)
            } else {
                parse_cons(
                    PacketEvent::Tsc(le_val(s, pos + 1, 7) as u64),
                    spec_packets(s, pos + 8, mode),
                )
            }
        } else if byte & 0b0001_1111 == 0b0001_1101 {
            match ip_payload_len((byte >> 5) as u8, mode) {
                Some(l) => if pos + 1 + l > s.len() {
                    parse_fail(mode, DecoderError::UnexpectedEOF)
                } else {
                    parse_cons(
                        PacketEvent::Fup(spec_ip_pattern(s, pos + 1, (byte >> 5) as u8, mode)),
                        spec_packets(s, pos + 1 + l, mode),
                    )
                },
                None => parse_fail(mode, DecoderError::InvalidPacket),
            }
        } else if byte == 0b0101_1001 {
            if pos + 2 > s.len() {
                parse_fail(mode, DecoderError::UnexpectedEOF)
            } else {
                parse_cons(PacketEvent::Mtc(s[pos + 1]), spec_packets(s, pos + 2, mode))
            }
        } else if byte == 0b1001_1001 {
            if pos + 2 > s.len() {
                parse_fail(mode, DecoderError::UnexpectedEOF)
            } else {
                let b = s[pos + 1];
                let leaf_id = (b & 0b1110_0000) >> 5;
                let m = b & 0b0001_1111;
                let new_mode = if leaf_id != 0 {
                    mode
                } else if m & 3 == 0 {
                    TraceeMode::Mode16
                } else if m & 3 == 1 {
                    TraceeMode::Mode64
                } else if m & 3 == 2 {
                    TraceeMode::Mode32
                } else {
                    mode
                };
                parse_cons(PacketEvent::Mode(leaf_id, m), spec_packets(s, pos + 2, new_mode))
            }
        } else {
            parse_fail(mode, DecoderError::InvalidPacket)
        }
    }
}

#[via_fn]
proof fn spec_packets_dec(s: Seq<u8>, pos: int, mode: TraceeMode) {
    if pos < s.len() {
        crate::decoder::level2::lemma_l2_event_next(s, pos);
        lemma_cyc_end_bounds(s, pos + 1, (s[pos] & 0b0000_0100) != 0);
    }
}

/// A run of PAD bytes parses to as many `Pad` events followed by the
/// parse of the rest of the stream.
pub proof fn lemma_pad_run(s: Seq<u8>, pos: int, end: int, mode: TraceeMode)
    requires
        0 <= pos <= end <= s.len(),
        forall|i: int| pos <= i < end ==> s[i] == 0,
    ensures
        spec_packets(s, pos, mode).error == spec_packets(s, end, mode).error,
        spec_packets(s, pos, mode).mode == spec_packets(s, end, mode).mode,
        spec_packets(s, pos, mode).events == Seq::new(
            (end - pos) as nat,
            |i: int| PacketEvent::Pad,
        ) + spec_packets(s, end, mode).events,
    decreases end - pos,
{
    if pos == end {
        assert(spec_packets(s, pos, mode).events =~= Seq::new(0nat, |i: int| PacketEvent::Pad)
            + spec_packets(s, end, mode).events);
    } else {
        lemma_pad_run(s, pos + 1, end, mode);
        assert(seq![PacketEvent::Pad] + (Seq::new(
            (end - pos - 1) as nat,
            |i: int| PacketEvent::Pad,
        ) + spec_packets(s, end, mode).events) =~= Seq::new(
            (end - pos) as nat,
            |i: int| PacketEvent::Pad,
        ) + spec_packets(s, end, mode).events);
    }
}

/// Decode packets from the cursor position to the end of the buffer,
/// dispatching one handler callback per packet.
#[verifier::rlimit(100)]
#[verifier::spinoff_prover]
pub fn decode<H: HandlePacket>(
    buf: &[u8],
    context: &mut DecoderContext,
    packet_handler: &mut H,
) -> (r: Result<(), DecoderError<H::Error>>)
    requires
        old(context).spec_pos() <= buf@.len(),
    ensures
        final(context).spec_pos() <= buf@.len(),
        r is Ok ==> final(context).spec_pos() == buf@.len(),
        old(context).spec_pos() == buf@.len() ==> r is Ok && final(context).spec_events() == old(context).spec_events(),
        !(r matches Err(DecoderError::NoPsb)),
        old(context).spec_events().is_prefix_of(final(context).spec_events()),
        ({
            let p = spec_packets(buf@, old(context).spec_pos(), old(context).spec_mode());
            &&& (r is Ok ==> p.error is None && final(context).spec_events() == old(context).spec_events() + p.events && final(context).spec_mode() == p.mode)
            &&& (r is Err && !(r matches Err(DecoderError::PacketHandler(_))) ==> ((
            p.error matches Some(k) && r == Result::<(), DecoderError<H::Error>>::Err(
                crate::decoder::lift_err::<H::Error>(k),
            )) && final(context).spec_events() == old(context).spec_events() + p.events && final(context).spec_mode() == p.mode))
        }),
{
    proof {
        assert(old(context).spec_events().take(old(context).spec_events().len() as int) =~= old(context).spec_events());
    }
    while context.pos() < buf.len()
        invariant
            context.spec_pos() <= buf@.len(),
            old(context).spec_pos() <= context.spec_pos(),
            old(context).spec_events().is_prefix_of(context.spec_events()),
            old(context).spec_pos() == buf@.len() ==> context.spec_events() == old(context).spec_events(),
            ({
                let p0 = spec_packets(buf@, old(context).spec_pos(), old(context).spec_mode());
                let pc = spec_packets(buf@, context.spec_pos(), context.spec_mode());
                &&& p0.error == pc.error
                &&& p0.mode == pc.mode
                &&& old(context).spec_events() + p0.events == context.spec_events() + pc.events
            }),
        decreases buf@.len() - context.spec_pos(),
    {
        let byte = buf[context.pos()];
        let ghost pre = context.spec_events();
        let ghost pre_pos = context.spec_pos();
        let ghost pre_mode = context.spec_mode();
        // The cursor is not advanced before the dispatched call
        let res = if byte == 0b0000_0000 {
            handle_pad_packet(buf, byte, context, packet_handler)
        } else if byte & 0b0001_1111 == 0b0000_0001 {
            handle_tip_pgd_packet(buf, byte, context, packet_handler)
        } else if byte == 0b0000_0010 {
            crate::decoder::level2::decode(buf, context, packet_handler)
        } else if byte & 0b0000_0011 == 0b0000_0011 {
            handle_cyc_packet(buf, byte, context, packet_handler)
        } else if byte & 0b0000_0001 == 0b0000_0000 {
            handle_short_tnt_packet(buf, byte, context, packet_handler)
        } else if byte & 0b0001_1111 == 0b0000_1101 {
            handle_tip_packet(buf, byte, context, packet_handler)
        } else if byte & 0b0001_1111 == 0b0001_0001 {
            handle_tip_pge_packet(buf, byte, context, packet_handler)
        } else if byte == 0b0001_1001 {
            handle_tsc_packet(buf, byte, context, packet_handler)
        } else if byte & 0b0001_1111 == 0b0001_1101 {
            handle_fup_packet(buf, byte, context, packet_handler)
        } else if byte == 0b0101_1001 {
            handle_mtc_packet(buf, byte, context, packet_handler)
        } else if byte == 0b1001_1001 {
            handle_mode_packet(buf, byte, context, packet_handler)
        } else {
            proof {
                let pc = spec_packets(buf@, context.spec_pos(), context.spec_mode());
                assert(pc.error == Some(DecoderError::<()>::InvalidPacket));
                assert(context.spec_events() + pc.events =~= context.spec_events());
            }
            return Err(DecoderError::InvalidPacket);
        };
        proof {
            assert(context.spec_events().take(pre.len() as int) =~= pre);
            crate::decoder::lemma_prefix_trans(
                old(context).spec_events(),
                pre,
                context.spec_events(),
            );
            let pc = spec_packets(buf@, pre_pos, pre_mode);
            if !(res matches Err(DecoderError::PacketHandler(_))) {
                if byte == 0b0000_0000 {
                    lemma_pad_run(buf@, pre_pos, context.spec_pos(), pre_mode);
                    assert(pre + (Seq::new(
                        (context.spec_pos() - pre_pos) as nat,
                        |i: int| PacketEvent::Pad,
                    ) + spec_packets(buf@, context.spec_pos(), pre_mode).events) =~= (pre
                        + Seq::new(
                        (context.spec_pos() - pre_pos) as nat,
                        |i: int| PacketEvent::Pad,
                    )) + spec_packets(buf@, context.spec_pos(), pre_mode).events);
                } else if byte & 0b0001_1111 == 0b0000_0001 || byte & 0b0001_1111 == 0b0000_1101
                    || byte & 0b0001_1111 == 0b0001_0001 || byte & 0b0001_1111 == 0b0001_1101 {
                    if res is Ok {
                        let e = pc.events[0];
                        assert(pre.push(e) + spec_packets(
                            buf@,
                            context.spec_pos(),
                            pre_mode,
                        ).events =~= pre + (seq![e] + spec_packets(
                            buf@,
                            context.spec_pos(),
                            pre_mode,
                        ).events));
                    } else {
                        assert(pre + pc.events =~= pre);
                    }
                } else if byte == 0b0000_0010 {
                    if res is Ok {
                        let e = pc.events[0];
                        assert(pre.push(e) + spec_packets(
                            buf@,
                            context.spec_pos(),
                            pre_mode,
                        ).events =~= pre + (seq![e] + spec_packets(
                            buf@,
                            context.spec_pos(),
                            pre_mode,
                        ).events));
                    } else {
                        assert(pre + pc.events =~= pre);
                    }
                } else if byte & 0b0000_0011 == 0b0000_0011 {
                    if res is Ok {
                        let e = pc.events[0];
                        assert(pre.push(e) + spec_packets(
                            buf@,
                            context.spec_pos(),
                            pre_mode,
                        ).events =~= pre + (seq![e] + spec_packets(
                            buf@,
                            context.spec_pos(),
                            pre_mode,
                        ).events));
                    } else {
                        assert(pre + pc.events =~= pre);
                    }
                } else if byte & 0b0000_0001 == 0b0000_0000 || byte == 0b0001_1001 || byte
                    == 0b0101_1001 {
                    if res is Ok {
                        let e = pc.events[0];
                        assert(pre.push(e) + spec_packets(
                            buf@,
                            context.spec_pos(),
                            pre_mode,
                        ).events =~= pre + (seq![e] + spec_packets(
                            buf@,
                            context.spec_pos(),
                            pre_mode,
                        ).events));
                    } else {
                        assert(pre + pc.events =~= pre);
                    }
                } else {
                    if res is Ok {
                        let e = pc.events[0];
                        assert(pre.push(e) + spec_packets(
                            buf@,
                            context.spec_pos(),
                            context.spec_mode(),
                        ).events =~= pre + (seq![e] + spec_packets(
                            buf@,
                            context.spec_pos(),
                            context.spec_mode(),
                        ).events));
                    } else {
                        assert(pre + pc.events =~= pre);
                    }
                }
            }
        }
        if let Err(e) = res {
            return Err(e);
        }
    }
    proof {
        assert(context.spec_events() + spec_packets(
            buf@,
            context.spec_pos(),
            context.spec_mode(),
        ).events =~= context.spec_events());
    }
    Ok(())
}

} // verus!
