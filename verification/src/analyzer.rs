//! Edge analysis over decoded Intel PT packets: TNT bit buffering, a lazily
//! built control-flow graph, and caches that accelerate TNT replay.
//!
//! [`EdgeAnalyzer`] implements [`HandlePacket`]: fed to the packet decoder,
//! it reconstructs basic-block transitions and reports them to a
//! [`HandleControlFlow`] sink.

pub mod cache;
pub mod combined;
pub mod error;
pub mod fuzz_bitmap;
pub mod handler;
pub mod memory_reader;
pub mod static_analyzer;
pub mod tnt_buffer;

use vstd::prelude::*;

use crate::analyzer::cache::{CachableInformation, ControlFlowCacheManager, TrailingBits};
use crate::analyzer::error::AnalyzerError;
use crate::analyzer::handler::{ControlFlowTransitionKind, HandleControlFlow};
use crate::analyzer::memory_reader::ReadMemory;
use crate::analyzer::static_analyzer::{CfgNode, CfgTerminator, StaticControlFlowAnalyzer};
use crate::analyzer::tnt_buffer::{TntBuffer, TntBufferManager};
use crate::decoder::level1::IpReconstructionPattern;
use crate::decoder::utils::spec_reconstruct_ip;
use crate::decoder::{DecoderContext, HandlePacket};

verus! {

/// TNT bits processing status.
#[derive(Clone, Copy, Debug, PartialEq, Eq, Structural)]
enum TntProceed {
    /// No deferred TIP was detected while processing the current TNT bits
    Continue,
    /// A deferred TIP was detected
    Break {
        /// Number of TNT bits processed before the deferred TIP
        processed_bit_count: u32,
        /// Reason for the deferred TIP
        pre_tip_status: PreTipStatus,
    },
}

/// Status that decides the meaning of the next TIP packet.
#[derive(Clone, Copy, Debug, PartialEq, Eq, Structural)]
pub enum PreTipStatus {
    /// Nothing relates to the next TIP packet yet
    Normal,
    /// The current CFG node is a RET; with return compression disabled the
    /// next TIP carries the return address
    PendingReturn,
    /// The current CFG node is an indirect JMP
    PendingIndirectGoto,
    /// The current CFG node is an indirect CALL
    PendingIndirectCall,
    /// The current CFG node is a far transfer such as SYSCALL
    PendingFarTransfer,
    /// A FUP packet arrived; a TIP or TIP.PGD must follow
    PendingFup,
    /// An OVF packet arrived; a FUP or TIP.PGE must follow
    PendingOvf,
}

/// One callback the analyzer made into its control-flow handler (ghost
/// record used by the contracts).
#[derive(Clone, Copy, Debug, PartialEq, Eq, Structural)]
pub enum Emit {
    /// `on_new_block(addr, kind, ..)` was invoked
    Block(u64, ControlFlowTransitionKind),
    /// `on_reused_cache(.., new_bb)` was invoked
    Reused(u64),
}

/// The successor a conditional branch hands control to for a given
/// Taken/Not-Taken bit.
pub open spec fn spec_branch_target(t: CfgTerminator, taken: bool) -> u64 {
    match t {
        CfgTerminator::Branch { true_target, false_low32 } => if taken {
            true_target
        } else {
            t.spec_false_target()
        },
        _ => 0,
    }
}

/// The CFG edge relation: `to` is reachable from `from` by the terminator
/// of `from` with the given transition kind.
pub open spec fn edge_ok(
    cfg: Map<u64, CfgNode>,
    from: u64,
    to: u64,
    k: ControlFlowTransitionKind,
) -> bool {
    cfg.contains_key(from) && match cfg[from].terminator {
        CfgTerminator::Branch { true_target, false_low32 } => k
            == ControlFlowTransitionKind::ConditionalBranch && (to == true_target || to
            == cfg[from].terminator.spec_false_target()),
        CfgTerminator::DirectGoto { target } => k == ControlFlowTransitionKind::DirectJump && to
            == target,
        CfgTerminator::DirectCall { target } => k == ControlFlowTransitionKind::DirectCall && to
            == target,
        _ => false,
    }
}

/// The emissions `ems` form a valid walk of `cfg` from `cur` to `end`:
/// every reported block is directly reachable from its predecessor.
pub open spec fn chain_ok(cfg: Map<u64, CfgNode>, cur: u64, ems: Seq<Emit>, end: u64) -> bool
    decreases ems.len(),
{
    if ems.len() <= 0 {
        end == cur
    } else {
        match ems[0] {
            Emit::Block(a, k) => edge_ok(cfg, cur, a, k) && chain_ok(cfg, a, ems.skip(1), end),
            Emit::Reused(_) => false,
        }
    }
}

/// The top `n` bits of `b`, most significant first: the order TNT bits
/// are consumed in.
pub open spec fn spec_top_bits(b: u8, n: nat) -> Seq<bool> {
    Seq::new(n, |i: int| crate::bitops::bit64(b as u64, (7 - i) as u64))
}

/// The emissions `ems` form a walk of `cfg` from `cur` to `end` that
/// consumes exactly the TNT bits `bits`, in order: a conditional branch
/// consumes the next bit and goes to the side it selects, a direct jump
/// or call consumes nothing, and nothing else is walked through.
pub open spec fn bits_walk(
    cfg: Map<u64, CfgNode>,
    cur: u64,
    bits: Seq<bool>,
    ems: Seq<Emit>,
    end: u64,
) -> bool
    decreases ems.len(),
{
    if ems.len() <= 0 {
        end == cur && bits.len() == 0
    } else {
        match ems[0] {
            Emit::Block(a, k) => cfg.contains_key(cur) && (match cfg[cur].terminator {
                CfgTerminator::Branch { .. } => bits.len() > 0 && k
                    == ControlFlowTransitionKind::ConditionalBranch && a == spec_branch_target(
                    cfg[cur].terminator,
                    bits[0],
                ) && bits_walk(cfg, a, bits.skip(1), ems.skip(1), end),
                CfgTerminator::DirectGoto { target } => k
                    == ControlFlowTransitionKind::DirectJump && a == target && bits_walk(
                    cfg,
                    a,
                    bits,
                    ems.skip(1),
                    end,
                ),
                CfgTerminator::DirectCall { target } => k
                    == ControlFlowTransitionKind::DirectCall && a == target && bits_walk(
                    cfg,
                    a,
                    bits,
                    ems.skip(1),
                    end,
                ),
                _ => false,
            }),
            Emit::Reused(_) => false,
        }
    }
}

/// A bit walk stays valid when the CFG grows.
pub proof fn lemma_bits_walk_mono(
    cfg1: Map<u64, CfgNode>,
    cfg2: Map<u64, CfgNode>,
    cur: u64,
    bits: Seq<bool>,
    ems: Seq<Emit>,
    end: u64,
)
    requires
        bits_walk(cfg1, cur, bits, ems, end),
        cfg_extends(cfg1, cfg2),
    ensures
        bits_walk(cfg2, cur, bits, ems, end),
    decreases ems.len(),
{
    if ems.len() > 0 {
        match ems[0] {
            Emit::Block(a, k) => {
                match cfg1[cur].terminator {
                    CfgTerminator::Branch { .. } => {
                        lemma_bits_walk_mono(cfg1, cfg2, a, bits.skip(1), ems.skip(1), end);
                    },
                    CfgTerminator::DirectGoto { .. } => {
                        lemma_bits_walk_mono(cfg1, cfg2, a, bits, ems.skip(1), end);
                    },
                    CfgTerminator::DirectCall { .. } => {
                        lemma_bits_walk_mono(cfg1, cfg2, a, bits, ems.skip(1), end);
                    },
                    _ => {},
                }
            },
            Emit::Reused(_) => {},
        }
    }
}

/// Appending a direct step to a bit walk keeps it valid and consumes no
/// bit.
pub proof fn lemma_bits_walk_snoc_direct(
    cfg: Map<u64, CfgNode>,
    cur: u64,
    bits: Seq<bool>,
    ems: Seq<Emit>,
    mid: u64,
    a: u64,
    k: ControlFlowTransitionKind,
)
    requires
        bits_walk(cfg, cur, bits, ems, mid),
        cfg.contains_key(mid),
        (match cfg[mid].terminator {
            CfgTerminator::DirectGoto { target } => k == ControlFlowTransitionKind::DirectJump
                && a == target,
            CfgTerminator::DirectCall { target } => k == ControlFlowTransitionKind::DirectCall
                && a == target,
            _ => false,
        }),
    ensures
        bits_walk(cfg, cur, bits, ems.push(Emit::Block(a, k)), a),
    decreases ems.len(),
{
    if ems.len() <= 0 {
        assert(ems.push(Emit::Block(a, k))[0] == Emit::Block(a, k));
        assert(ems.push(Emit::Block(a, k)).skip(1) =~= Seq::<Emit>::empty());
        assert(bits_walk(cfg, a, bits, ems.push(Emit::Block(a, k)).skip(1), a));
    } else {
        match ems[0] {
            Emit::Block(b, kb) => {
                assert(ems.push(Emit::Block(a, k))[0] == ems[0]);
                assert(ems.push(Emit::Block(a, k)).skip(1) =~= ems.skip(1).push(
                    Emit::Block(a, k),
                ));
                match cfg[cur].terminator {
                    CfgTerminator::Branch { .. } => {
                        lemma_bits_walk_snoc_direct(cfg, b, bits.skip(1), ems.skip(1), mid, a, k);
                    },
                    CfgTerminator::DirectGoto { .. } => {
                        lemma_bits_walk_snoc_direct(cfg, b, bits, ems.skip(1), mid, a, k);
                    },
                    CfgTerminator::DirectCall { .. } => {
                        lemma_bits_walk_snoc_direct(cfg, b, bits, ems.skip(1), mid, a, k);
                    },
                    _ => {},
                }
            },
            Emit::Reused(_) => {},
        }
    }
}

/// Appending a conditional-branch step to a bit walk consumes the bit it
/// takes.
pub proof fn lemma_bits_walk_snoc_branch(
    cfg: Map<u64, CfgNode>,
    cur: u64,
    bits: Seq<bool>,
    ems: Seq<Emit>,
    mid: u64,
    a: u64,
    b: bool,
)
    requires
        bits_walk(cfg, cur, bits, ems, mid),
        cfg.contains_key(mid),
        cfg[mid].terminator matches CfgTerminator::Branch { .. },
        a == spec_branch_target(cfg[mid].terminator, b),
    ensures
        bits_walk(
            cfg,
            cur,
            bits.push(b),
            ems.push(Emit::Block(a, ControlFlowTransitionKind::ConditionalBranch)),
            a,
        ),
    decreases ems.len(),
{
    let e = Emit::Block(a, ControlFlowTransitionKind::ConditionalBranch);
    if ems.len() <= 0 {
        assert(ems.push(e)[0] == e);
        assert(ems.push(e).skip(1) =~= Seq::<Emit>::empty());
        assert(bits.push(b)[0] == b);
        assert(bits.push(b).skip(1) =~= Seq::<bool>::empty());
        assert(bits_walk(cfg, a, bits.push(b).skip(1), ems.push(e).skip(1), a));
    } else {
        match ems[0] {
            Emit::Block(c, kc) => {
                assert(ems.push(e)[0] == ems[0]);
                assert(ems.push(e).skip(1) =~= ems.skip(1).push(e));
                match cfg[cur].terminator {
                    CfgTerminator::Branch { .. } => {
                        lemma_bits_walk_snoc_branch(cfg, c, bits.skip(1), ems.skip(1), mid, a, b);
                        assert(bits.push(b)[0] == bits[0]);
                        assert(bits.push(b).skip(1) =~= bits.skip(1).push(b));
                    },
                    CfgTerminator::DirectGoto { .. } => {
                        lemma_bits_walk_snoc_branch(cfg, c, bits, ems.skip(1), mid, a, b);
                    },
                    CfgTerminator::DirectCall { .. } => {
                        lemma_bits_walk_snoc_branch(cfg, c, bits, ems.skip(1), mid, a, b);
                    },
                    _ => {},
                }
            },
            Emit::Reused(_) => {},
        }
    }
}

/// Two bit walks compose.
pub proof fn lemma_bits_walk_append(
    cfg: Map<u64, CfgNode>,
    cur: u64,
    b1: Seq<bool>,
    e1: Seq<Emit>,
    mid: u64,
    b2: Seq<bool>,
    e2: Seq<Emit>,
    end: u64,
)
    requires
        bits_walk(cfg, cur, b1, e1, mid),
        bits_walk(cfg, mid, b2, e2, end),
    ensures
        bits_walk(cfg, cur, b1 + b2, e1 + e2, end),
    decreases e1.len(),
{
    if e1.len() <= 0 {
        assert(b1 + b2 =~= b2);
        assert(e1 + e2 =~= e2);
    } else {
        match e1[0] {
            Emit::Block(a, k) => {
                assert((e1 + e2)[0] == e1[0]);
                assert((e1 + e2).skip(1) =~= e1.skip(1) + e2);
                match cfg[cur].terminator {
                    CfgTerminator::Branch { .. } => {
                        lemma_bits_walk_append(cfg, a, b1.skip(1), e1.skip(1), mid, b2, e2, end);
                        assert((b1 + b2)[0] == b1[0]);
                        assert((b1 + b2).skip(1) =~= b1.skip(1) + b2);
                    },
                    CfgTerminator::DirectGoto { .. } => {
                        lemma_bits_walk_append(cfg, a, b1, e1.skip(1), mid, b2, e2, end);
                    },
                    CfgTerminator::DirectCall { .. } => {
                        lemma_bits_walk_append(cfg, a, b1, e1.skip(1), mid, b2, e2, end);
                    },
                    _ => {},
                }
            },
            Emit::Reused(_) => {},
        }
    }
}

/// A pending status is justified by the CFG: some resolved node ends in
/// the terminator that the status stands for.
pub open spec fn status_justified(cfg: Map<u64, CfgNode>, st: PreTipStatus) -> bool {
    st == PreTipStatus::Normal || (exists|bb: u64|
        (#[trigger] cfg.contains_key(bb)) && (match cfg[bb].terminator {
            CfgTerminator::IndirectGoto => st == PreTipStatus::PendingIndirectGoto,
            CfgTerminator::IndirectCall => st == PreTipStatus::PendingIndirectCall,
            CfgTerminator::NearRet => st == PreTipStatus::PendingReturn,
            CfgTerminator::FarTransfer { .. } => st == PreTipStatus::PendingFarTransfer,
            _ => false,
        }))
}

/// The transition kind that a TIP destination is reported with under a
/// pre-TIP status.
pub open spec fn spec_tip_kind(st: PreTipStatus) -> ControlFlowTransitionKind {
    match st {
        PreTipStatus::PendingReturn => ControlFlowTransitionKind::Return,
        PreTipStatus::PendingIndirectGoto => ControlFlowTransitionKind::IndirectJump,
        PreTipStatus::PendingIndirectCall => ControlFlowTransitionKind::IndirectCall,
        _ => ControlFlowTransitionKind::NewBlock,
    }
}

/// A justified status stays justified when the CFG grows.
pub proof fn lemma_status_justified_mono(
    cfg1: Map<u64, CfgNode>,
    cfg2: Map<u64, CfgNode>,
    st: PreTipStatus,
)
    requires
        status_justified(cfg1, st),
        cfg_extends(cfg1, cfg2),
    ensures
        status_justified(cfg2, st),
{
    if st != PreTipStatus::Normal {
        let bb = choose|bb: u64|
            (#[trigger] cfg1.contains_key(bb)) && (match cfg1[bb].terminator {
                CfgTerminator::IndirectGoto => st == PreTipStatus::PendingIndirectGoto,
                CfgTerminator::IndirectCall => st == PreTipStatus::PendingIndirectCall,
                CfgTerminator::NearRet => st == PreTipStatus::PendingReturn,
                CfgTerminator::FarTransfer { .. } => st == PreTipStatus::PendingFarTransfer,
                _ => false,
            });
        assert(cfg2.contains_key(bb));
    }
}

/// `new_cfg` extends `old_cfg`: every resolved node is kept unchanged.
pub open spec fn cfg_extends(old_cfg: Map<u64, CfgNode>, new_cfg: Map<u64, CfgNode>) -> bool {
    forall|k: u64|
        #[trigger] old_cfg.contains_key(k) ==> new_cfg.contains_key(k) && new_cfg[k] == old_cfg[k]
}

/// A valid walk stays valid when the CFG grows.
pub proof fn lemma_chain_mono(
    cfg1: Map<u64, CfgNode>,
    cfg2: Map<u64, CfgNode>,
    cur: u64,
    ems: Seq<Emit>,
    end: u64,
)
    requires
        chain_ok(cfg1, cur, ems, end),
        cfg_extends(cfg1, cfg2),
    ensures
        chain_ok(cfg2, cur, ems, end),
    decreases ems.len(),
{
    if ems.len() > 0 {
        match ems[0] {
            Emit::Block(a, k) => {
                assert(cfg1.contains_key(cur));
                assert(cfg2.contains_key(cur) && cfg2[cur] == cfg1[cur]);
                lemma_chain_mono(cfg1, cfg2, a, ems.skip(1), end);
            },
            Emit::Reused(_) => {},
        }
    }
}

/// Extending a valid walk by one valid edge keeps it valid.
pub proof fn lemma_chain_snoc(
    cfg: Map<u64, CfgNode>,
    cur: u64,
    ems: Seq<Emit>,
    mid: u64,
    a: u64,
    k: ControlFlowTransitionKind,
)
    requires
        chain_ok(cfg, cur, ems, mid),
        edge_ok(cfg, mid, a, k),
    ensures
        chain_ok(cfg, cur, ems.push(Emit::Block(a, k)), a),
    decreases ems.len(),
{
    if ems.len() <= 0 {
        assert(ems.push(Emit::Block(a, k))[0] == Emit::Block(a, k));
        assert(ems.push(Emit::Block(a, k)).skip(1) =~= Seq::<Emit>::empty());
        assert(chain_ok(cfg, a, ems.push(Emit::Block(a, k)).skip(1), a));
    } else {
        match ems[0] {
            Emit::Block(b, kb) => {
                lemma_chain_snoc(cfg, b, ems.skip(1), mid, a, k);
                assert(ems.push(Emit::Block(a, k))[0] == ems[0]);
                assert(ems.push(Emit::Block(a, k)).skip(1) =~= ems.skip(1).push(
                    Emit::Block(a, k),
                ));
                assert(chain_ok(cfg, b, ems.push(Emit::Block(a, k)).skip(1), a));
            },
            Emit::Reused(_) => {},
        }
    }
}

/// Two valid walks compose.
pub proof fn lemma_chain_append(
    cfg: Map<u64, CfgNode>,
    cur: u64,
    e1: Seq<Emit>,
    mid: u64,
    e2: Seq<Emit>,
    end: u64,
)
    requires
        chain_ok(cfg, cur, e1, mid),
        chain_ok(cfg, mid, e2, end),
    ensures
        chain_ok(cfg, cur, e1 + e2, end),
    decreases e1.len(),
{
    if e1.len() <= 0 {
        assert(e1 + e2 =~= e2);
    } else {
        match e1[0] {
            Emit::Block(a, k) => {
                lemma_chain_append(cfg, a, e1.skip(1), mid, e2, end);
                assert((e1 + e2).skip(1) =~= e1.skip(1) + e2);
            },
            Emit::Reused(_) => {},
        }
    }
}

/// A guard against unbounded chains of direct jumps in a malformed binary.
const WALK_GUARD: u32 = 0x1_0000;

/// An edge analyzer that implements the [`HandlePacket`] trait.
///
/// The analyzer traces the control flow described by the Intel PT packets
/// and invokes the callbacks of the given control flow handler.
pub struct EdgeAnalyzer<H: HandleControlFlow, R: ReadMemory> {
    /// IP-reconstruction state: the retained last IP
    last_ip: u64,
    /// Address of the next basic block to process; never zero
    last_bb: Option<u64>,
    /// Status of the next TIP packet
    pre_tip_status: PreTipStatus,
    /// Buffered TNT bits
    tnt_buffer_manager: TntBufferManager,
    /// Caches used to replay TNT bits without walking the CFG
    cache_manager: ControlFlowCacheManager<Option<H::CachedKey>>,
    /// CFG node maintainer
    static_analyzer: StaticControlFlowAnalyzer,
    /// The control flow handler
    handler: H,
    /// The memory reader
    reader: R,
    /// Every handler callback made so far (ghost)
    emits: Ghost<Seq<Emit>>,
}

impl<H: HandleControlFlow, R: ReadMemory> EdgeAnalyzer<H, R> {
    /// The retained last IP.
    pub closed spec fn spec_last_ip(&self) -> u64 {
        self.last_ip
    }

    /// The next basic block to process.
    pub closed spec fn spec_last_bb(&self) -> Option<u64> {
        self.last_bb
    }

    /// The status of the next TIP packet.
    pub closed spec fn spec_status(&self) -> PreTipStatus {
        self.pre_tip_status
    }

    /// The buffered TNT bits.
    pub closed spec fn spec_tnt(&self) -> Seq<bool> {
        self.tnt_buffer_manager@
    }

    /// The control-flow cache.
    pub closed spec fn spec_cache(&self) -> ControlFlowCacheManager<Option<H::CachedKey>> {
        self.cache_manager
    }

    /// The resolved CFG.
    pub closed spec fn spec_cfg(&self) -> Map<u64, CfgNode> {
        self.static_analyzer.spec_cfg()
    }

    /// The handler callbacks made so far.
    pub closed spec fn spec_emits(&self) -> Seq<Emit> {
        self.emits@
    }

    /// Create a new edge analyzer around a handler and a memory reader.
    #[must_use]
    pub fn new(handler: H, reader: R) -> (r: Self)
        ensures
            r.spec_last_ip() == 0,
            r.spec_last_bb() is None,
            r.spec_status() == PreTipStatus::Normal,
            r.spec_tnt() == Seq::<bool>::empty(),
            r.spec_emits() == Seq::<Emit>::empty(),
            forall|s: u64, b: u8| #[trigger] r.spec_cache().spec_get8(s, b) is None,
            forall|s: u64, d: u32| #[trigger] r.spec_cache().spec_get32(s, d) is None,
            forall|s: u64, t: u16| #[trigger] r.spec_cache().spec_get_trailing(s, t) is None,
    {
        EdgeAnalyzer {
            last_ip: 0,
            last_bb: None,
            pre_tip_status: PreTipStatus::Normal,
            tnt_buffer_manager: TntBufferManager::new(),
            cache_manager: ControlFlowCacheManager::new(),
            static_analyzer: StaticControlFlowAnalyzer::new(),
            handler,
            reader,
            emits: Ghost(Seq::empty()),
        }
    }

    /// The control flow handler.
    pub fn handler(&self) -> &H {
        &self.handler
    }

    /// Consume the analyzer and return the handler and the reader.
    pub fn into_inner(self) -> (H, R) {
        (self.handler, self.reader)
    }

    /// Perform IP reconstruction and update the retained last IP; returns
    /// the full-width IP address.
    fn reconstruct_ip_and_update_last(
        &mut self,
        ip_reconstruction_pattern: IpReconstructionPattern,
    ) -> (r: Option<u64>)
        ensures
            final(self).spec_last_bb() == old(self).spec_last_bb(),
            final(self).spec_status() == old(self).spec_status(),
            final(self).spec_tnt() == old(self).spec_tnt(),
            final(self).spec_cache() == old(self).spec_cache(),
            final(self).spec_cfg() == old(self).spec_cfg(),
            final(self).spec_emits() == old(self).spec_emits(),
            match spec_reconstruct_ip(old(self).spec_last_ip(), ip_reconstruction_pattern) {
                Some(ip) => r == Some(ip) && final(self).spec_last_ip() == ip,
                None => r is None && final(self).spec_last_ip() == old(self).spec_last_ip(),
            },
    {
        let ip: u64 = match ip_reconstruction_pattern {
            IpReconstructionPattern::OutOfContext => {
                return None;
            },
            IpReconstructionPattern::TwoBytesWithLastIp(payload) => (self.last_ip
                & 0xFFFF_FFFF_FFFF_0000) | (payload as u64),
            IpReconstructionPattern::FourBytesWithLastIp(payload) => (self.last_ip
                & 0xFFFF_FFFF_0000_0000) | (payload as u64),
            IpReconstructionPattern::SixBytesExtended(payload) => {
                if (payload >> 47) & 1 == 1 {
                    payload | 0xFFFF_0000_0000_0000
                } else {
                    payload
                }
            },
            IpReconstructionPattern::SixBytesWithLastIp(payload) => (self.last_ip
                & 0xFFFF_0000_0000_0000) | (payload as u64),
            IpReconstructionPattern::EightBytes(payload) => payload,
        };
        self.last_ip = ip;
        Some(ip)
    }

    /// Process one TNT bit by walking the CFG, without consulting any
    /// cache. Emits the direct-jump chain and the branch target, or stops
    /// at a deferred terminator.
    fn process_tnt_bit_without_cache(
        &mut self,
        context: &DecoderContext,
        last_bb_ref: &mut u64,
        is_taken: bool,
    ) -> (r: Result<TntProceed, AnalyzerError<H::Error, R::Error>>)
        ensures
            final(self).spec_tnt() == old(self).spec_tnt(),
            final(self).spec_last_bb() == old(self).spec_last_bb(),
            final(self).spec_last_ip() == old(self).spec_last_ip(),
            final(self).spec_status() == old(self).spec_status(),
            final(self).spec_cache() == old(self).spec_cache(),
            cfg_extends(old(self).spec_cfg(), final(self).spec_cfg()),
            old(self).spec_emits().is_prefix_of(final(self).spec_emits()),
            r is Ok ==> chain_ok(
                final(self).spec_cfg(),
                *old(last_bb_ref),
                final(self).spec_emits().skip(old(self).spec_emits().len() as int),
                *final(last_bb_ref),
            ),
            r matches Ok(TntProceed::Break { processed_bit_count, .. })
                ==> processed_bit_count == 0,
            r matches Ok(TntProceed::Break { pre_tip_status: st, .. }) ==> st
                == PreTipStatus::PendingIndirectGoto || st == PreTipStatus::PendingIndirectCall
                || st == PreTipStatus::PendingFarTransfer,
            r matches Ok(TntProceed::Break { pre_tip_status: st, .. }) ==> final(self).spec_cfg().contains_key(*final(last_bb_ref)) && (match final(self).spec_cfg()[*final(last_bb_ref)].terminator {
                CfgTerminator::IndirectGoto => st == PreTipStatus::PendingIndirectGoto,
                CfgTerminator::IndirectCall => st == PreTipStatus::PendingIndirectCall,
                CfgTerminator::FarTransfer { .. } => st == PreTipStatus::PendingFarTransfer,
                _ => false,
            }),
            r == Result::<TntProceed, AnalyzerError<H::Error, R::Error>>::Err(
                AnalyzerError::InvalidPacket,
            ) ==> !is_taken,
            r == Result::<TntProceed, AnalyzerError<H::Error, R::Error>>::Err(
                AnalyzerError::UnsupportedReturnCompression,
            ) ==> is_taken,
            final(self).spec_cfg().contains_key(*old(last_bb_ref)) && final(self).spec_cfg()[*old(last_bb_ref)].terminator == CfgTerminator::NearRet ==> r == Result::<
                TntProceed,
                AnalyzerError<H::Error, R::Error>,
            >::Err(
                if is_taken {
                    AnalyzerError::UnsupportedReturnCompression
                } else {
                    AnalyzerError::InvalidPacket
                },
            ),
            r matches Ok(TntProceed::Continue) ==> exists|prev: u64|
                (#[trigger] final(self).spec_cfg().contains_key(prev)) && (final(self).spec_cfg()[prev].terminator matches CfgTerminator::Branch { .. }) && *final(last_bb_ref) == spec_branch_target(final(self).spec_cfg()[prev].terminator, is_taken),
            r matches Ok(TntProceed::Continue) ==> bits_walk(
                final(self).spec_cfg(),
                *old(last_bb_ref),
                seq![is_taken],
                final(self).spec_emits().skip(old(self).spec_emits().len() as int),
                *final(last_bb_ref),
            ),
            r matches Ok(TntProceed::Break { .. }) ==> bits_walk(
                final(self).spec_cfg(),
                *old(last_bb_ref),
                Seq::<bool>::empty(),
                final(self).spec_emits().skip(old(self).spec_emits().len() as int),
                *final(last_bb_ref),
            ),
            r is Err ==> *final(last_bb_ref) == *old(last_bb_ref),
    {
        let ghost bb0 = *last_bb_ref;
        let ghost emits0 = self.emits@;
        let mut last_bb: u64 = *last_bb_ref;
        let mut guard: u32 = 0;
        let mut tnt_proceed: TntProceed = TntProceed::Continue;
        loop
            invariant_except_break
                emits0 == old(self).spec_emits(),
                bb0 == *old(last_bb_ref),
                *last_bb_ref == *old(last_bb_ref),
                guard <= WALK_GUARD,
                guard == 0 ==> last_bb == bb0,
                guard >= 1 && self.spec_cfg().contains_key(bb0) ==> self.spec_cfg()[
                    bb0 as u64].terminator != CfgTerminator::NearRet,
                self.spec_tnt() == old(self).spec_tnt(),
                self.spec_last_bb() == old(self).spec_last_bb(),
                self.spec_last_ip() == old(self).spec_last_ip(),
                self.spec_status() == old(self).spec_status(),
                self.spec_cache() == old(self).spec_cache(),
                cfg_extends(old(self).spec_cfg(), self.spec_cfg()),
                emits0.is_prefix_of(self.emits@),
                chain_ok(self.spec_cfg(), bb0, self.emits@.skip(emits0.len() as int), last_bb),
                bits_walk(
                    self.spec_cfg(),
                    bb0,
                    Seq::<bool>::empty(),
                    self.emits@.skip(emits0.len() as int),
                    last_bb,
                ),
            ensures
                *last_bb_ref == *old(last_bb_ref),
                self.spec_cfg().contains_key(bb0) ==> self.spec_cfg()[bb0 as u64].terminator
                    != CfgTerminator::NearRet,
                tnt_proceed == TntProceed::Continue ==> exists|prev: u64|
                    (#[trigger] self.spec_cfg().contains_key(prev)) && (self.spec_cfg()[
                        prev].terminator matches CfgTerminator::Branch { .. }) && last_bb
                        == spec_branch_target(self.spec_cfg()[prev].terminator, is_taken),
                tnt_proceed matches TntProceed::Break { processed_bit_count, .. }
                    ==> processed_bit_count == 0,
                tnt_proceed matches TntProceed::Break { pre_tip_status: st, .. }
                    ==> self.spec_cfg().contains_key(last_bb) && (match self.spec_cfg()[
                    last_bb as u64].terminator {
                    CfgTerminator::IndirectGoto => st == PreTipStatus::PendingIndirectGoto,
                    CfgTerminator::IndirectCall => st == PreTipStatus::PendingIndirectCall,
                    CfgTerminator::FarTransfer { .. } => st == PreTipStatus::PendingFarTransfer,
                    _ => false,
                }),
                self.spec_tnt() == old(self).spec_tnt(),
                self.spec_last_bb() == old(self).spec_last_bb(),
                self.spec_last_ip() == old(self).spec_last_ip(),
                self.spec_status() == old(self).spec_status(),
                self.spec_cache() == old(self).spec_cache(),
                cfg_extends(old(self).spec_cfg(), self.spec_cfg()),
                emits0.is_prefix_of(self.emits@),
                emits0 == old(self).spec_emits(),
                bb0 == *old(last_bb_ref),
                chain_ok(self.spec_cfg(), bb0, self.emits@.skip(emits0.len() as int), last_bb),
                tnt_proceed == TntProceed::Continue ==> bits_walk(
                    self.spec_cfg(),
                    bb0,
                    seq![is_taken],
                    self.emits@.skip(emits0.len() as int),
                    last_bb,
                ),
                tnt_proceed matches TntProceed::Break { .. } ==> bits_walk(
                    self.spec_cfg(),
                    bb0,
                    Seq::<bool>::empty(),
                    self.emits@.skip(emits0.len() as int),
                    last_bb,
                ),
            decreases WALK_GUARD - guard,
        {
            if guard >= WALK_GUARD {
                return Err(AnalyzerError::Unexpected);
            }
            guard = guard + 1;
            let ghost cfg_before = self.spec_cfg();
            let node = match self.static_analyzer.resolve::<R, H::Error>(
                &mut self.reader,
                context.tracee_mode(),
                last_bb,
            ) {
                Ok(node) => node,
                Err(e) => {
                    proof {
                        lemma_extends_trans(old(self).spec_cfg(), cfg_before, self.spec_cfg());
                    }
                    return Err(e);
                },
            };
            proof {
                lemma_extends_trans(old(self).spec_cfg(), cfg_before, self.spec_cfg());
                lemma_chain_mono(
                    cfg_before,
                    self.spec_cfg(),
                    bb0,
                    self.emits@.skip(emits0.len() as int),
                    last_bb,
                );
                lemma_bits_walk_mono(
                    cfg_before,
                    self.spec_cfg(),
                    bb0,
                    Seq::<bool>::empty(),
                    self.emits@.skip(emits0.len() as int),
                    last_bb,
                );
            }
            let ghost walked = self.emits@.skip(emits0.len() as int);
            match node.terminator {
                CfgTerminator::Branch { true_target, false_low32 } => {
                    let ghost from = last_bb;
                    let target = if is_taken {
                        true_target
                    } else {
                        (true_target & 0xFFFF_FFFF_0000_0000) | (false_low32 as u64)
                    };
                    let res = self.handler.on_new_block(
                        target,
                        ControlFlowTransitionKind::ConditionalBranch,
                        true,
                    );
                    proof {
                        self.emits@ = self.emits@.push(
                            Emit::Block(target, ControlFlowTransitionKind::ConditionalBranch),
                        );
                        lemma_chain_snoc(
                            self.spec_cfg(),
                            bb0,
                            walked,
                            from,
                            target,
                            ControlFlowTransitionKind::ConditionalBranch,
                        );
                        lemma_bits_walk_snoc_branch(
                            self.spec_cfg(),
                            bb0,
                            Seq::<bool>::empty(),
                            walked,
                            from,
                            target,
                            is_taken,
                        );
                        assert(Seq::<bool>::empty().push(is_taken) =~= seq![is_taken]);
                        assert(self.emits@.skip(emits0.len() as int) =~= walked.push(
                            Emit::Block(target, ControlFlowTransitionKind::ConditionalBranch),
                        ));
                    }
                    if let Err(e) = res {
                        return Err(AnalyzerError::ControlFlowHandler(e));
                    }
                    last_bb = target;
                    tnt_proceed = TntProceed::Continue;
                    break ;
                },
                CfgTerminator::DirectGoto { target } => {
                    let ghost from = last_bb;
                    let res = self.handler.on_new_block(
                        target,
                        ControlFlowTransitionKind::DirectJump,
                        true,
                    );
                    proof {
                        self.emits@ = self.emits@.push(
                            Emit::Block(target, ControlFlowTransitionKind::DirectJump),
                        );
                        lemma_chain_snoc(
                            self.spec_cfg(),
                            bb0,
                            walked,
                            from,
                            target,
                            ControlFlowTransitionKind::DirectJump,
                        );
                        lemma_bits_walk_snoc_direct(
                            self.spec_cfg(),
                            bb0,
                            Seq::<bool>::empty(),
                            walked,
                            from,
                            target,
                            ControlFlowTransitionKind::DirectJump,
                        );
                        assert(self.emits@.skip(emits0.len() as int) =~= walked.push(
                            Emit::Block(target, ControlFlowTransitionKind::DirectJump),
                        ));
                    }
                    if let Err(e) = res {
                        return Err(AnalyzerError::ControlFlowHandler(e));
                    }
                    last_bb = target;
                },
                CfgTerminator::DirectCall { target } => {
                    let ghost from = last_bb;
                    let res = self.handler.on_new_block(
                        target,
                        ControlFlowTransitionKind::DirectCall,
                        true,
                    );
                    proof {
                        self.emits@ = self.emits@.push(
                            Emit::Block(target, ControlFlowTransitionKind::DirectCall),
                        );
                        lemma_chain_snoc(
                            self.spec_cfg(),
                            bb0,
                            walked,
                            from,
                            target,
                            ControlFlowTransitionKind::DirectCall,
                        );
                        lemma_bits_walk_snoc_direct(
                            self.spec_cfg(),
                            bb0,
                            Seq::<bool>::empty(),
                            walked,
                            from,
                            target,
                            ControlFlowTransitionKind::DirectCall,
                        );
                        assert(self.emits@.skip(emits0.len() as int) =~= walked.push(
                            Emit::Block(target, ControlFlowTransitionKind::DirectCall),
                        ));
                    }
                    if let Err(e) = res {
                        return Err(AnalyzerError::ControlFlowHandler(e));
                    }
                    last_bb = target;
                },
                CfgTerminator::IndirectGoto => {
                    // Wait for the deferred TIP
                    tnt_proceed = TntProceed::Break {
                        processed_bit_count: 0,
                        pre_tip_status: PreTipStatus::PendingIndirectGoto,
                    };
                    break ;
                },
                CfgTerminator::IndirectCall => {
                    // Wait for the deferred TIP
                    tnt_proceed = TntProceed::Break {
                        processed_bit_count: 0,
                        pre_tip_status: PreTipStatus::PendingIndirectCall,
                    };
                    break ;
                },
                CfgTerminator::NearRet => {
                    if !is_taken {
                        // An uncompressed return is always followed by an
                        // immediate TIP packet, never encoded as a 0 bit
                        return Err(AnalyzerError::InvalidPacket);
                    }
                    // A 1 bit at a RET is a compressed return
                    return Err(AnalyzerError::UnsupportedReturnCompression);
                },
                CfgTerminator::FarTransfer { next_ip } => {
                    // Wait for the deferred TIP
                    tnt_proceed = TntProceed::Break {
                        processed_bit_count: 0,
                        pre_tip_status: PreTipStatus::PendingFarTransfer,
                    };
                    break ;
                },
            }
        }
        *last_bb_ref = last_bb;
        Ok(tnt_proceed)
    }
}


/// Prefixes compose.
pub proof fn lemma_prefix_trans(a: Seq<Emit>, b: Seq<Emit>, c: Seq<Emit>)
    requires
        a.is_prefix_of(b),
        b.is_prefix_of(c),
    ensures
        a.is_prefix_of(c),
{
    assert(b.take(a.len() as int) =~= a);
    assert(c.take(a.len() as int) =~= a);
}

impl<H: HandleControlFlow, R: ReadMemory> EdgeAnalyzer<H, R> {
    /// Determine the status of the next TIP packet by walking the CFG from
    /// `last_bb` through direct-only terminators until a deferred
    /// terminator or a branch is reached.
    fn determine_pre_tip_status(&mut self, context: &DecoderContext) -> (r: Result<
        (),
        AnalyzerError<H::Error, R::Error>,
    >)
        requires
            old(self).spec_status() == PreTipStatus::Normal,
        ensures
            final(self).spec_tnt() == old(self).spec_tnt(),
            final(self).spec_last_bb() == old(self).spec_last_bb(),
            final(self).spec_last_ip() == old(self).spec_last_ip(),
            final(self).spec_cache() == old(self).spec_cache(),
            cfg_extends(old(self).spec_cfg(), final(self).spec_cfg()),
            old(self).spec_emits().is_prefix_of(final(self).spec_emits()),
            old(self).spec_last_bb() is None ==> r is Ok && final(self).spec_status() == old(self).spec_status() && final(self).spec_emits() == old(self).spec_emits() && final(self).spec_cfg() == old(self).spec_cfg(),
            r is Err ==> final(self).spec_status() == old(self).spec_status(),
            old(self).spec_last_bb() matches Some(bb0) ==> (r is Ok ==> (exists|end: u64|
                chain_ok(
                    final(self).spec_cfg(),
                    bb0,
                    final(self).spec_emits().skip(old(self).spec_emits().len() as int),
                    end,
                ) && (#[trigger] final(self).spec_cfg().contains_key(end)) && (match final(self).spec_cfg()[end].terminator {
                    CfgTerminator::Branch { .. } => final(self).spec_status()
                        == PreTipStatus::Normal,
                    CfgTerminator::IndirectGoto => final(self).spec_status()
                        == PreTipStatus::PendingIndirectGoto,
                    CfgTerminator::IndirectCall => final(self).spec_status()
                        == PreTipStatus::PendingIndirectCall,
                    CfgTerminator::NearRet => final(self).spec_status()
                        == PreTipStatus::PendingReturn,
                    CfgTerminator::FarTransfer { .. } => final(self).spec_status()
                        == PreTipStatus::PendingFarTransfer,
                    _ => false,
                }))),
            final(self).spec_status() == PreTipStatus::Normal || (exists|bb: u64|
                (#[trigger] final(self).spec_cfg().contains_key(bb)) && (match final(self).spec_cfg()[bb].terminator {
                    CfgTerminator::IndirectGoto => final(self).spec_status()
                        == PreTipStatus::PendingIndirectGoto,
                    CfgTerminator::IndirectCall => final(self).spec_status()
                        == PreTipStatus::PendingIndirectCall,
                    CfgTerminator::NearRet => final(self).spec_status()
                        == PreTipStatus::PendingReturn,
                    CfgTerminator::FarTransfer { .. } => final(self).spec_status()
                        == PreTipStatus::PendingFarTransfer,
                    _ => false,
                })),
    {
        let ghost emits0 = self.emits@;
        let mut last_bb: u64 = match self.last_bb {
            None => {
                // No previous instruction
                return Ok(());
            },
            Some(lb) => lb,
        };
        let mut guard: u32 = 0;
        let mut new_status: PreTipStatus = PreTipStatus::Normal;
        let ghost bb0 = last_bb;
        proof {
            assert(self.emits@.skip(emits0.len() as int) =~= Seq::<Emit>::empty());
        }
        loop
            invariant_except_break
                new_status == PreTipStatus::Normal,
            invariant
                guard <= WALK_GUARD,
                old(self).spec_status() == PreTipStatus::Normal,
                old(self).spec_last_bb() is Some,
                emits0 == old(self).spec_emits(),
                self.spec_tnt() == old(self).spec_tnt(),
                self.spec_last_bb() == old(self).spec_last_bb(),
                self.spec_last_ip() == old(self).spec_last_ip(),
                self.spec_cache() == old(self).spec_cache(),
                cfg_extends(old(self).spec_cfg(), self.spec_cfg()),
                emits0.is_prefix_of(self.emits@),
                self.spec_status() == old(self).spec_status(),
                old(self).spec_last_bb() == Some(bb0),
                chain_ok(self.spec_cfg(), bb0, self.emits@.skip(emits0.len() as int), last_bb),
            ensures
                self.spec_tnt() == old(self).spec_tnt(),
                self.spec_last_bb() == old(self).spec_last_bb(),
                self.spec_last_ip() == old(self).spec_last_ip(),
                self.spec_cache() == old(self).spec_cache(),
                cfg_extends(old(self).spec_cfg(), self.spec_cfg()),
                emits0.is_prefix_of(self.emits@),
                emits0 == old(self).spec_emits(),
                self.spec_status() == old(self).spec_status(),
                chain_ok(self.spec_cfg(), bb0, self.emits@.skip(emits0.len() as int), last_bb),
                self.spec_cfg().contains_key(last_bb),
                (match self.spec_cfg()[last_bb].terminator {
                    CfgTerminator::Branch { .. } => new_status == PreTipStatus::Normal,
                    CfgTerminator::IndirectGoto => new_status
                        == PreTipStatus::PendingIndirectGoto,
                    CfgTerminator::IndirectCall => new_status
                        == PreTipStatus::PendingIndirectCall,
                    CfgTerminator::NearRet => new_status == PreTipStatus::PendingReturn,
                    CfgTerminator::FarTransfer { .. } => new_status
                        == PreTipStatus::PendingFarTransfer,
                    _ => false,
                }),
                new_status == PreTipStatus::Normal || (exists|bb: u64|
                    (#[trigger] self.spec_cfg().contains_key(bb)) && (match self.spec_cfg()[
                        bb].terminator {
                        CfgTerminator::IndirectGoto => new_status
                            == PreTipStatus::PendingIndirectGoto,
                        CfgTerminator::IndirectCall => new_status
                            == PreTipStatus::PendingIndirectCall,
                        CfgTerminator::NearRet => new_status == PreTipStatus::PendingReturn,
                        CfgTerminator::FarTransfer { .. } => new_status
                            == PreTipStatus::PendingFarTransfer,
                        _ => false,
                    })),
            decreases WALK_GUARD - guard,
        {
            if guard >= WALK_GUARD {
                return Err(AnalyzerError::Unexpected);
            }
            guard = guard + 1;
            let ghost cfg_before = self.spec_cfg();
            let node = match self.static_analyzer.resolve::<R, H::Error>(
                &mut self.reader,
                context.tracee_mode(),
                last_bb,
            ) {
                Ok(node) => node,
                Err(e) => {
                    proof {
                        lemma_extends_trans(old(self).spec_cfg(), cfg_before, self.spec_cfg());
                    }
                    return Err(e);
                },
            };
            proof {
                lemma_extends_trans(old(self).spec_cfg(), cfg_before, self.spec_cfg());
                lemma_chain_mono(
                    cfg_before,
                    self.spec_cfg(),
                    bb0,
                    self.emits@.skip(emits0.len() as int),
                    last_bb,
                );
            }
            match node.terminator {
                CfgTerminator::Branch { .. } => {
                    // The status is really normal
                    break ;
                },
                CfgTerminator::DirectGoto { target } => {
                    let res = self.handler.on_new_block(
                        target,
                        ControlFlowTransitionKind::DirectJump,
                        false,
                    );
                    proof {
                        let ghost ems_d = self.emits@.skip(emits0.len() as int);
                        lemma_chain_snoc(
                            self.spec_cfg(),
                            bb0,
                            ems_d,
                            last_bb,
                            target,
                            ControlFlowTransitionKind::DirectJump,
                        );
                        self.emits@ = self.emits@.push(
                            Emit::Block(target, ControlFlowTransitionKind::DirectJump),
                        );
                        assert(self.emits@.take(emits0.len() as int) =~= emits0);
                        assert(self.emits@.skip(emits0.len() as int) =~= ems_d.push(
                            Emit::Block(target, ControlFlowTransitionKind::DirectJump),
                        ));
                    }
                    if let Err(e) = res {
                        return Err(AnalyzerError::ControlFlowHandler(e));
                    }
                    last_bb = target;
                },
                CfgTerminator::DirectCall { target } => {
                    let res = self.handler.on_new_block(
                        target,
                        ControlFlowTransitionKind::DirectCall,
                        false,
                    );
                    proof {
                        let ghost ems_d = self.emits@.skip(emits0.len() as int);
                        lemma_chain_snoc(
                            self.spec_cfg(),
                            bb0,
                            ems_d,
                            last_bb,
                            target,
                            ControlFlowTransitionKind::DirectCall,
                        );
                        self.emits@ = self.emits@.push(
                            Emit::Block(target, ControlFlowTransitionKind::DirectCall),
                        );
                        assert(self.emits@.take(emits0.len() as int) =~= emits0);
                        assert(self.emits@.skip(emits0.len() as int) =~= ems_d.push(
                            Emit::Block(target, ControlFlowTransitionKind::DirectCall),
                        ));
                    }
                    if let Err(e) = res {
                        return Err(AnalyzerError::ControlFlowHandler(e));
                    }
                    last_bb = target;
                },
                CfgTerminator::IndirectGoto => {
                    new_status = PreTipStatus::PendingIndirectGoto;
                    break ;
                },
                CfgTerminator::IndirectCall => {
                    new_status = PreTipStatus::PendingIndirectCall;
                    break ;
                },
                CfgTerminator::NearRet => {
                    new_status = PreTipStatus::PendingReturn;
                    break ;
                },
                CfgTerminator::FarTransfer { .. } => {
                    new_status = PreTipStatus::PendingFarTransfer;
                    break ;
                },
            }
        }
        if !matches!(new_status, PreTipStatus::Normal) {
            self.pre_tip_status = new_status;
        }
        Ok(())
    }

    /// Record that a deferred TIP was met: re-inject the unprocessed TNT
    /// tail and remember why the TIP is expected.
    fn mark_deferred_tip(
        &mut self,
        remain_tnt_buffer: TntBuffer,
        pre_tip_status: PreTipStatus,
    ) -> (r: Result<(), AnalyzerError<H::Error, R::Error>>)
        ensures
            final(self).spec_last_bb() == old(self).spec_last_bb(),
            final(self).spec_last_ip() == old(self).spec_last_ip(),
            final(self).spec_cache() == old(self).spec_cache(),
            final(self).spec_cfg() == old(self).spec_cfg(),
            final(self).spec_emits() == old(self).spec_emits(),
            remain_tnt_buffer@.len() + old(self).spec_tnt().len() <= 64 ==> r is Ok && final(self).spec_tnt() == remain_tnt_buffer@ + old(self).spec_tnt() && final(self).spec_status()
                == pre_tip_status,
            remain_tnt_buffer@.len() + old(self).spec_tnt().len() > 64 ==> r == Result::<
                (),
                AnalyzerError<H::Error, R::Error>,
            >::Err(AnalyzerError::ExceededTntBuffer) && final(self).spec_tnt() == old(self).spec_tnt() && final(self).spec_status() == old(self).spec_status(),
    {
        if let Err(e) = self.tnt_buffer_manager.prepend_buf::<
            H::Error,
            R::Error,
        >(remain_tnt_buffer) {
            return Err(e);
        }
        self.pre_tip_status = pre_tip_status;
        Ok(())
    }

    /// Handle 8 TNT bits (`tnt_bits`, most significant first) starting at
    /// `*last_bb_ref`, consulting and filling the 8-bit cache.
    ///
    /// On a cache hit the stored end block is taken, the handler's
    /// `on_reused_cache` is invoked for a stored key, and no block is
    /// re-emitted. On a miss the bits are walked; if no deferred terminator
    /// was met, the run is cached together with the handler's key.
    fn handle_tnt_buffer8(
        &mut self,
        context: &DecoderContext,
        last_bb_ref: &mut u64,
        tnt_bits: u8,
    ) -> (r: Result<(Option<H::CachedKey>, TntProceed), AnalyzerError<H::Error, R::Error>>)
        ensures
            final(self).spec_tnt() == old(self).spec_tnt(),
            final(self).spec_last_bb() == old(self).spec_last_bb(),
            final(self).spec_last_ip() == old(self).spec_last_ip(),
            final(self).spec_status() == old(self).spec_status(),
            cfg_extends(old(self).spec_cfg(), final(self).spec_cfg()),
            crate::analyzer::cache::cache_extends(old(self).spec_cache(), final(self).spec_cache()),
            old(self).spec_emits().is_prefix_of(final(self).spec_emits()),
            (match r {
                Ok((_, TntProceed::Break { processed_bit_count, .. })) => processed_bit_count < 8,
                _ => true,
            }),
            r matches Ok((ck, TntProceed::Break { pre_tip_status: st, .. })) ==> final(self).spec_cache() == old(self).spec_cache() && ck is None && (st
                == PreTipStatus::PendingIndirectGoto || st == PreTipStatus::PendingIndirectCall
                || st == PreTipStatus::PendingFarTransfer) && status_justified(
                final(self).spec_cfg(),
                st,
            ),
            old(self).spec_cache().spec_get8(*old(last_bb_ref), tnt_bits) is None ==> (match r {
                Ok((_, TntProceed::Continue)) => bits_walk(
                    final(self).spec_cfg(),
                    *old(last_bb_ref),
                    spec_top_bits(tnt_bits, 8),
                    final(self).spec_emits().skip(old(self).spec_emits().len() as int),
                    *final(last_bb_ref),
                ),
                Ok((_, TntProceed::Break { processed_bit_count, .. })) => bits_walk(
                    final(self).spec_cfg(),
                    *old(last_bb_ref),
                    spec_top_bits(tnt_bits, 8).take(processed_bit_count as int),
                    final(self).spec_emits().skip(old(self).spec_emits().len() as int),
                    *final(last_bb_ref),
                ),
                _ => true,
            }),
            forall|s: u64, d: u32| #[trigger]
                final(self).spec_cache().spec_has32(s, d) == old(self).spec_cache().spec_has32(
                    s,
                    d,
                ),
            forall|s: u64, t: u16| #[trigger]
                final(self).spec_cache().spec_has_trailing(s, t) == old(self).spec_cache().spec_has_trailing(s, t),
            old(self).spec_cache().spec_get8(*old(last_bb_ref), tnt_bits) matches Some(e) ==> {
                &&& final(self).spec_cache() == old(self).spec_cache()
                &&& final(self).spec_cfg() == old(self).spec_cfg()
                &&& (r is Err ==> r matches Err(AnalyzerError::ControlFlowHandler(_)))
                &&& (r is Ok ==> r == Result::<
                    (Option<H::CachedKey>, TntProceed),
                    AnalyzerError<H::Error, R::Error>,
                >::Ok((e.1, TntProceed::Continue)) && *final(last_bb_ref) == e.0)
                &&& (r is Ok && e.1 is Some ==> final(self).spec_emits() == old(self).spec_emits().push(Emit::Reused(e.0)))
                &&& (r is Ok && e.1 is None ==> final(self).spec_emits() == old(self).spec_emits())
            },
            old(self).spec_cache().spec_get8(*old(last_bb_ref), tnt_bits) is None ==> {
                &&& (r matches Ok((ck, TntProceed::Continue)) ==> final(self).spec_cache().spec_get8(*old(last_bb_ref), tnt_bits) == Some(
                    (*final(last_bb_ref), ck),
                ))
                &&& (r is Ok ==> chain_ok(
                    final(self).spec_cfg(),
                    *old(last_bb_ref),
                    final(self).spec_emits().skip(old(self).spec_emits().len() as int),
                    *final(last_bb_ref),
                ))
            },
    {
        let start_bb = *last_bb_ref;
        let cached: Option<(u64, Option<H::CachedKey>)> = match self.cache_manager.get_byte(
            start_bb,
            tnt_bits,
        ) {
            Some(info) => Some((info.new_bb, info.user_data)),
            None => None,
        };
        if let Some((nb, ud)) = cached {
            *last_bb_ref = nb;
            if let Some(k) = ud {
                let res = self.handler.on_reused_cache(&k, nb);
                proof {
                    self.emits@ = self.emits@.push(Emit::Reused(nb));
                    assert(self.emits@.take(old(self).spec_emits().len() as int) =~= old(self).spec_emits());
                }
                if let Err(e) = res {
                    return Err(AnalyzerError::ControlFlowHandler(e));
                }
            }
            return Ok((ud, TntProceed::Continue));
        }
        if let Err(e) = self.handler.clear_current_cache() {
            return Err(AnalyzerError::ControlFlowHandler(e));
        }
        let ghost emits0 = self.emits@;
        let mut idx: u32 = 0;
        loop
            invariant
                idx <= 8,
                old(self).spec_cache().spec_get8(*old(last_bb_ref), tnt_bits) is None,
                emits0 == old(self).spec_emits(),
                start_bb == *old(last_bb_ref),
                self.spec_tnt() == old(self).spec_tnt(),
                self.spec_last_bb() == old(self).spec_last_bb(),
                self.spec_last_ip() == old(self).spec_last_ip(),
                self.spec_status() == old(self).spec_status(),
                self.spec_cache() == old(self).spec_cache(),
                cfg_extends(old(self).spec_cfg(), self.spec_cfg()),
                emits0.is_prefix_of(self.emits@),
                chain_ok(
                    self.spec_cfg(),
                    start_bb,
                    self.emits@.skip(emits0.len() as int),
                    *last_bb_ref,
                ),
                bits_walk(
                    self.spec_cfg(),
                    start_bb,
                    spec_top_bits(tnt_bits, 8).take(idx as int),
                    self.emits@.skip(emits0.len() as int),
                    *last_bb_ref,
                ),
            ensures
                idx == 8,
                emits0 == old(self).spec_emits(),
                start_bb == *old(last_bb_ref),
                self.spec_tnt() == old(self).spec_tnt(),
                self.spec_last_bb() == old(self).spec_last_bb(),
                self.spec_last_ip() == old(self).spec_last_ip(),
                self.spec_status() == old(self).spec_status(),
                self.spec_cache() == old(self).spec_cache(),
                cfg_extends(old(self).spec_cfg(), self.spec_cfg()),
                emits0.is_prefix_of(self.emits@),
                chain_ok(
                    self.spec_cfg(),
                    start_bb,
                    self.emits@.skip(emits0.len() as int),
                    *last_bb_ref,
                ),
                bits_walk(
                    self.spec_cfg(),
                    start_bb,
                    spec_top_bits(tnt_bits, 8).take(idx as int),
                    self.emits@.skip(emits0.len() as int),
                    *last_bb_ref,
                ),
            decreases 8 - idx,
        {
            if idx >= 8 {
                break ;
            }
            let bit: u32 = 7 - idx;
            let tnt_bit = ((tnt_bits >> bit) & 1) != 0;
            let ghost cfg_prev = self.spec_cfg();
            let ghost emits_prev = self.emits@;
            let ghost bb_prev = *last_bb_ref;
            let proceed = match self.process_tnt_bit_without_cache(context, last_bb_ref, tnt_bit) {
                Ok(p) => p,
                Err(e) => {
                    proof {
                        lemma_extends_trans(old(self).spec_cfg(), cfg_prev, self.spec_cfg());
                        lemma_prefix_trans(emits0, emits_prev, self.emits@);
                    }
                    return Err(e);
                },
            };
            proof {
                lemma_extends_trans(old(self).spec_cfg(), cfg_prev, self.spec_cfg());
                lemma_prefix_trans(emits0, emits_prev, self.emits@);
                lemma_chain_mono(
                    cfg_prev,
                    self.spec_cfg(),
                    start_bb,
                    emits_prev.skip(emits0.len() as int),
                    bb_prev,
                );
                lemma_chain_append(
                    self.spec_cfg(),
                    start_bb,
                    emits_prev.skip(emits0.len() as int),
                    bb_prev,
                    self.emits@.skip(emits_prev.len() as int),
                    *last_bb_ref,
                );
                assert(self.emits@.skip(emits0.len() as int) =~= emits_prev.skip(
                    emits0.len() as int,
                ) + self.emits@.skip(emits_prev.len() as int));
                lemma_bits_walk_mono(
                    cfg_prev,
                    self.spec_cfg(),
                    start_bb,
                    spec_top_bits(tnt_bits, 8).take(idx as int),
                    emits_prev.skip(emits0.len() as int),
                    bb_prev,
                );
                assert(tnt_bit == spec_top_bits(tnt_bits, 8)[idx as int]) by {
                    assert(((tnt_bits >> (7 - idx) as u8) & 1) != 0 <==> ((tnt_bits as u64) >> (
                    7 - idx) as u64) & 1 == 1) by (bit_vector)
                        requires
                            idx < 8,
                    ;
                }
                if proceed == TntProceed::Continue {
                    lemma_bits_walk_append(
                        self.spec_cfg(),
                        start_bb,
                        spec_top_bits(tnt_bits, 8).take(idx as int),
                        emits_prev.skip(emits0.len() as int),
                        bb_prev,
                        seq![tnt_bit],
                        self.emits@.skip(emits_prev.len() as int),
                        *last_bb_ref,
                    );
                    assert(spec_top_bits(tnt_bits, 8).take(idx as int) + seq![tnt_bit]
                        =~= spec_top_bits(tnt_bits, 8).take(idx + 1));
                } else {
                    lemma_bits_walk_append(
                        self.spec_cfg(),
                        start_bb,
                        spec_top_bits(tnt_bits, 8).take(idx as int),
                        emits_prev.skip(emits0.len() as int),
                        bb_prev,
                        Seq::<bool>::empty(),
                        self.emits@.skip(emits_prev.len() as int),
                        *last_bb_ref,
                    );
                    assert(spec_top_bits(tnt_bits, 8).take(idx as int) + Seq::<bool>::empty()
                        =~= spec_top_bits(tnt_bits, 8).take(idx as int));
                }
            }
            if let TntProceed::Break { processed_bit_count: _, pre_tip_status } = proceed {
                // The current bit is kept for processing after the next TIP
                return Ok(
                    (
                        None,
                        TntProceed::Break { processed_bit_count: idx, pre_tip_status },
                    ),
                );
            }
            idx = idx + 1;
        }
        proof {
            assert(spec_top_bits(tnt_bits, 8).take(8) =~= spec_top_bits(tnt_bits, 8));
        }
        let cached_key = match self.handler.take_cache() {
            Ok(c) => c,
            Err(e) => {
                return Err(AnalyzerError::ControlFlowHandler(e));
            },
        };
        self.cache_manager.insert_byte(
            start_bb,
            tnt_bits,
            CachableInformation { user_data: cached_key, new_bb: *last_bb_ref },
        );
        Ok((cached_key, TntProceed::Continue))
    }

    /// Handle 1..=7 trailing TNT bits (the top bits of `bits_byte`, most
    /// significant first), consulting and filling the trailing-bits cache.
    fn handle_tnt_buffer_trailing_bits(
        &mut self,
        context: &DecoderContext,
        last_bb_ref: &mut u64,
        bits_byte: u8,
        remain_bits: u32,
    ) -> (r: Result<TntProceed, AnalyzerError<H::Error, R::Error>>)
        requires
            1 <= remain_bits <= 7,
        ensures
            final(self).spec_tnt() == old(self).spec_tnt(),
            final(self).spec_last_bb() == old(self).spec_last_bb(),
            final(self).spec_last_ip() == old(self).spec_last_ip(),
            final(self).spec_status() == old(self).spec_status(),
            cfg_extends(old(self).spec_cfg(), final(self).spec_cfg()),
            crate::analyzer::cache::cache_extends(old(self).spec_cache(), final(self).spec_cache()),
            old(self).spec_emits().is_prefix_of(final(self).spec_emits()),
            (match r {
                Ok(TntProceed::Break { processed_bit_count, .. }) => processed_bit_count
                    < remain_bits,
                _ => true,
            }),
            r matches Ok(TntProceed::Break { pre_tip_status: st, .. }) ==> final(self).spec_cache() == old(self).spec_cache() && (st
                == PreTipStatus::PendingIndirectGoto || st == PreTipStatus::PendingIndirectCall
                || st == PreTipStatus::PendingFarTransfer) && status_justified(
                final(self).spec_cfg(),
                st,
            ),
            old(self).spec_cache().spec_get_trailing(
                *old(last_bb_ref),
                (remain_bits + 256 * (bits_byte as int)) as u16,
            ) is None ==> (match r {
                Ok(TntProceed::Continue) => bits_walk(
                    final(self).spec_cfg(),
                    *old(last_bb_ref),
                    spec_top_bits(bits_byte, remain_bits as nat),
                    final(self).spec_emits().skip(old(self).spec_emits().len() as int),
                    *final(last_bb_ref),
                ),
                Ok(TntProceed::Break { processed_bit_count, .. }) => bits_walk(
                    final(self).spec_cfg(),
                    *old(last_bb_ref),
                    spec_top_bits(bits_byte, remain_bits as nat).take(processed_bit_count as int),
                    final(self).spec_emits().skip(old(self).spec_emits().len() as int),
                    *final(last_bb_ref),
                ),
                _ => true,
            }),
            old(self).spec_cache().spec_get_trailing(
                *old(last_bb_ref),
                (remain_bits + 256 * (bits_byte as int)) as u16,
            ) matches Some(e) ==> {
                &&& final(self).spec_cache() == old(self).spec_cache()
                &&& final(self).spec_cfg() == old(self).spec_cfg()
                &&& (r is Err ==> r matches Err(AnalyzerError::ControlFlowHandler(_)))
                &&& (r is Ok ==> r == Result::<TntProceed, AnalyzerError<H::Error, R::Error>>::Ok(
                    TntProceed::Continue,
                ) && *final(last_bb_ref) == e.0)
                &&& (r is Ok && e.1 is Some ==> final(self).spec_emits() == old(self).spec_emits().push(Emit::Reused(e.0)))
                &&& (r is Ok && e.1 is None ==> final(self).spec_emits() == old(self).spec_emits())
            },
            old(self).spec_cache().spec_get_trailing(
                *old(last_bb_ref),
                (remain_bits + 256 * (bits_byte as int)) as u16,
            ) is None ==> {
                &&& (r == Result::<TntProceed, AnalyzerError<H::Error, R::Error>>::Ok(
                    TntProceed::Continue,
                ) ==> exists|ck: Option<H::CachedKey>|
                    final(self).spec_cache().spec_get_trailing(
                        *old(last_bb_ref),
                        (remain_bits + 256 * (bits_byte as int)) as u16,
                    ) == Some((*final(last_bb_ref), ck)))
                &&& (r is Ok ==> chain_ok(
                    final(self).spec_cfg(),
                    *old(last_bb_ref),
                    final(self).spec_emits().skip(old(self).spec_emits().len() as int),
                    *final(last_bb_ref),
                ))
            },
    {
        let trailing_bits = TrailingBits::new(bits_byte, remain_bits);
        let start_bb = *last_bb_ref;
        let cached: Option<(u64, Option<H::CachedKey>)> = match self
            .cache_manager
            .get_trailing_bits(start_bb, trailing_bits) {
            Some(info) => Some((info.new_bb, info.user_data)),
            None => None,
        };
        if let Some((nb, ud)) = cached {
            *last_bb_ref = nb;
            if let Some(k) = ud {
                let res = self.handler.on_reused_cache(&k, nb);
                proof {
                    self.emits@ = self.emits@.push(Emit::Reused(nb));
                    assert(self.emits@.take(old(self).spec_emits().len() as int) =~= old(self).spec_emits());
                }
                if let Err(e) = res {
                    return Err(AnalyzerError::ControlFlowHandler(e));
                }
            }
            return Ok(TntProceed::Continue);
        }
        if let Err(e) = self.handler.clear_current_cache() {
            return Err(AnalyzerError::ControlFlowHandler(e));
        }
        let ghost emits0 = self.emits@;
        let ghost start_key = (remain_bits + 256 * (bits_byte as int)) as u16;
        let mut idx: u32 = 0;
        loop
            invariant
                idx <= remain_bits,
                1 <= remain_bits <= 7,
                old(self).spec_cache().spec_get_trailing(*old(last_bb_ref), start_key) is None,
                start_key == (remain_bits + 256 * (bits_byte as int)) as u16,
                start_bb == *old(last_bb_ref),
                emits0.is_prefix_of(self.emits@),
                self.spec_tnt() == old(self).spec_tnt(),
                self.spec_last_bb() == old(self).spec_last_bb(),
                self.spec_last_ip() == old(self).spec_last_ip(),
                self.spec_status() == old(self).spec_status(),
                self.spec_cache() == old(self).spec_cache(),
                cfg_extends(old(self).spec_cfg(), self.spec_cfg()),
                emits0 == old(self).spec_emits(),
                chain_ok(
                    self.spec_cfg(),
                    start_bb,
                    self.emits@.skip(emits0.len() as int),
                    *last_bb_ref,
                ),
                bits_walk(
                    self.spec_cfg(),
                    start_bb,
                    spec_top_bits(bits_byte, remain_bits as nat).take(idx as int),
                    self.emits@.skip(emits0.len() as int),
                    *last_bb_ref,
                ),
            ensures
                idx == remain_bits,
                emits0 == old(self).spec_emits(),
                start_bb == *old(last_bb_ref),
                self.spec_tnt() == old(self).spec_tnt(),
                self.spec_last_bb() == old(self).spec_last_bb(),
                self.spec_last_ip() == old(self).spec_last_ip(),
                self.spec_status() == old(self).spec_status(),
                self.spec_cache() == old(self).spec_cache(),
                cfg_extends(old(self).spec_cfg(), self.spec_cfg()),
                emits0.is_prefix_of(self.emits@),
                chain_ok(
                    self.spec_cfg(),
                    start_bb,
                    self.emits@.skip(emits0.len() as int),
                    *last_bb_ref,
                ),
                bits_walk(
                    self.spec_cfg(),
                    start_bb,
                    spec_top_bits(bits_byte, remain_bits as nat).take(idx as int),
                    self.emits@.skip(emits0.len() as int),
                    *last_bb_ref,
                ),
            decreases remain_bits - idx,
        {
            if idx >= remain_bits {
                break ;
            }
            let bit: u32 = 7 - idx;
            let tnt_bit = ((bits_byte >> bit) & 1) != 0;
            let ghost cfg_prev = self.spec_cfg();
            let ghost emits_prev = self.emits@;
            let ghost bb_prev = *last_bb_ref;
            let proceed = match self.process_tnt_bit_without_cache(context, last_bb_ref, tnt_bit) {
                Ok(p) => p,
                Err(e) => {
                    proof {
                        lemma_extends_trans(old(self).spec_cfg(), cfg_prev, self.spec_cfg());
                        lemma_prefix_trans(emits0, emits_prev, self.emits@);
                    }
                    return Err(e);
                },
            };
            proof {
                lemma_extends_trans(old(self).spec_cfg(), cfg_prev, self.spec_cfg());
                lemma_prefix_trans(emits0, emits_prev, self.emits@);
                lemma_chain_mono(
                    cfg_prev,
                    self.spec_cfg(),
                    start_bb,
                    emits_prev.skip(emits0.len() as int),
                    bb_prev,
                );
                lemma_chain_append(
                    self.spec_cfg(),
                    start_bb,
                    emits_prev.skip(emits0.len() as int),
                    bb_prev,
                    self.emits@.skip(emits_prev.len() as int),
                    *last_bb_ref,
                );
                assert(self.emits@.skip(emits0.len() as int) =~= emits_prev.skip(
                    emits0.len() as int,
                ) + self.emits@.skip(emits_prev.len() as int));
                lemma_bits_walk_mono(
                    cfg_prev,
                    self.spec_cfg(),
                    start_bb,
                    spec_top_bits(bits_byte, remain_bits as nat).take(idx as int),
                    emits_prev.skip(emits0.len() as int),
                    bb_prev,
                );
                assert(tnt_bit == spec_top_bits(bits_byte, remain_bits as nat)[idx as int]) by {
                    assert(((bits_byte >> (7 - idx) as u8) & 1) != 0 <==> ((bits_byte as u64) >> (
                    7 - idx) as u64) & 1 == 1) by (bit_vector)
                        requires
                            idx < 8,
                    ;
                }
                if proceed == TntProceed::Continue {
                    lemma_bits_walk_append(
                        self.spec_cfg(),
                        start_bb,
                        spec_top_bits(bits_byte, remain_bits as nat).take(idx as int),
                        emits_prev.skip(emits0.len() as int),
                        bb_prev,
                        seq![tnt_bit],
                        self.emits@.skip(emits_prev.len() as int),
                        *last_bb_ref,
                    );
                    assert(spec_top_bits(bits_byte, remain_bits as nat).take(idx as int) + seq![tnt_bit]
                        =~= spec_top_bits(bits_byte, remain_bits as nat).take(idx + 1));
                } else {
                    lemma_bits_walk_append(
                        self.spec_cfg(),
                        start_bb,
                        spec_top_bits(bits_byte, remain_bits as nat).take(idx as int),
                        emits_prev.skip(emits0.len() as int),
                        bb_prev,
                        Seq::<bool>::empty(),
                        self.emits@.skip(emits_prev.len() as int),
                        *last_bb_ref,
                    );
                    assert(spec_top_bits(bits_byte, remain_bits as nat).take(idx as int) + Seq::<bool>::empty()
                        =~= spec_top_bits(bits_byte, remain_bits as nat).take(idx as int));
                }
            }
            if let TntProceed::Break { processed_bit_count: _, pre_tip_status } = proceed {
                // The current bit is kept for processing after the next TIP
                return Ok(TntProceed::Break { processed_bit_count: idx, pre_tip_status });
            }
            idx = idx + 1;
        }
        proof {
            assert(spec_top_bits(bits_byte, remain_bits as nat).take(remain_bits as int)
                =~= spec_top_bits(bits_byte, remain_bits as nat));
        }
        let cached_key = match self.handler.take_cache() {
            Ok(c) => c,
            Err(e) => {
                return Err(AnalyzerError::ControlFlowHandler(e));
            },
        };
        self.cache_manager.insert_trailing_bits(
            start_bb,
            trailing_bits,
            CachableInformation { user_data: cached_key, new_bb: *last_bb_ref },
        );
        Ok(TntProceed::Continue)
    }
}


/// The 32-bit value of four TNT chunk bytes, as a cache key.
pub open spec fn spec_dword(b: [u8; 4]) -> u32 {
    (b[0] as int + 0x100 * b[1] as int + 0x1_0000 * b[2] as int + 0x100_0000 * b[3] as int) as u32
}

impl<H: HandleControlFlow, R: ReadMemory> EdgeAnalyzer<H, R> {
    /// Handle 32 TNT bits (`tnt_buffer[3]` holds the first 8, down to
    /// `tnt_buffer[0]`), consulting and filling the 32-bit cache; a miss is
    /// processed as four 8-bit chunks whose handler keys are aggregated
    /// into the 32-bit entry.
    fn handle_tnt_buffer32(
        &mut self,
        context: &DecoderContext,
        last_bb_ref: &mut u64,
        tnt_buffer: [u8; 4],
    ) -> (r: Result<TntProceed, AnalyzerError<H::Error, R::Error>>)
        ensures
            final(self).spec_tnt() == old(self).spec_tnt(),
            final(self).spec_last_bb() == old(self).spec_last_bb(),
            final(self).spec_last_ip() == old(self).spec_last_ip(),
            final(self).spec_status() == old(self).spec_status(),
            cfg_extends(old(self).spec_cfg(), final(self).spec_cfg()),
            crate::analyzer::cache::cache_extends(old(self).spec_cache(), final(self).spec_cache()),
            old(self).spec_emits().is_prefix_of(final(self).spec_emits()),
            (match r {
                Ok(TntProceed::Break { processed_bit_count, .. }) => processed_bit_count < 32,
                _ => true,
            }),
            r matches Ok(TntProceed::Break { pre_tip_status: st, .. }) ==> final(self).spec_cache().spec_has32(*old(last_bb_ref), spec_dword(tnt_buffer)) == old(self).spec_cache().spec_has32(*old(last_bb_ref), spec_dword(tnt_buffer)) && (st
                == PreTipStatus::PendingIndirectGoto || st == PreTipStatus::PendingIndirectCall
                || st == PreTipStatus::PendingFarTransfer) && status_justified(
                final(self).spec_cfg(),
                st,
            ),
            old(self).spec_cache().spec_get32(*old(last_bb_ref), spec_dword(tnt_buffer))
                matches Some(e) ==> {
                &&& final(self).spec_cache() == old(self).spec_cache()
                &&& final(self).spec_cfg() == old(self).spec_cfg()
                &&& (r is Err ==> r matches Err(AnalyzerError::ControlFlowHandler(_)))
                &&& (r is Ok ==> r == Result::<TntProceed, AnalyzerError<H::Error, R::Error>>::Ok(
                    TntProceed::Continue,
                ) && *final(last_bb_ref) == e.0)
                &&& (r is Ok && e.1 is Some ==> final(self).spec_emits() == old(self).spec_emits().push(Emit::Reused(e.0)))
                &&& (r is Ok && e.1 is None ==> final(self).spec_emits() == old(self).spec_emits())
            },
            old(self).spec_cache().spec_get32(*old(last_bb_ref), spec_dword(tnt_buffer)) is None
                && r == Result::<TntProceed, AnalyzerError<H::Error, R::Error>>::Ok(
                TntProceed::Continue,
            ) ==> exists|ck: Option<H::CachedKey>|
                final(self).spec_cache().spec_get32(*old(last_bb_ref), spec_dword(tnt_buffer))
                    == Some((*final(last_bb_ref), ck)),
    {
        let start_bb = *last_bb_ref;
        let b0 = tnt_buffer[0];
        let b1 = tnt_buffer[1];
        let b2 = tnt_buffer[2];
        let b3 = tnt_buffer[3];
        let dword: u32 = (b0 as u32) + 0x100 * (b1 as u32) + 0x1_0000 * (b2 as u32) + 0x100_0000
            * (b3 as u32);
        let cached: Option<(u64, Option<H::CachedKey>)> = match self.cache_manager.get_dword(
            start_bb,
            dword,
        ) {
            Some(info) => Some((info.new_bb, info.user_data)),
            None => None,
        };
        if let Some((nb, ud)) = cached {
            *last_bb_ref = nb;
            if let Some(k) = ud {
                let res = self.handler.on_reused_cache(&k, nb);
                proof {
                    self.emits@ = self.emits@.push(Emit::Reused(nb));
                    assert(self.emits@.take(old(self).spec_emits().len() as int) =~= old(self).spec_emits());
                }
                if let Err(e) = res {
                    return Err(AnalyzerError::ControlFlowHandler(e));
                }
            }
            return Ok(TntProceed::Continue);
        }
        let ghost cache0 = self.spec_cache();
        let ghost cfg0 = self.spec_cfg();
        let ghost emits_a = self.emits@;
        let (k3, p3) = self.handle_tnt_buffer8(context, last_bb_ref, b3)?;
        if let TntProceed::Break { processed_bit_count, pre_tip_status } = p3 {
            return Ok(TntProceed::Break { processed_bit_count, pre_tip_status });
        }
        let ghost cache1 = self.spec_cache();
        let ghost cfg1 = self.spec_cfg();
        let ghost emits_b = self.emits@;
        let (k2, p2) = match self.handle_tnt_buffer8(context, last_bb_ref, b2) {
            Ok(v) => v,
            Err(e) => {
                proof {
                    compose32(cfg0, cfg1, self.spec_cfg(), cache0, cache1, self.spec_cache());
                    lemma_prefix_trans(emits_a, emits_b, self.emits@);
                }
                return Err(e);
            },
        };
        proof {
            compose32(cfg0, cfg1, self.spec_cfg(), cache0, cache1, self.spec_cache());
            lemma_prefix_trans(emits_a, emits_b, self.emits@);
        }
        if let TntProceed::Break { processed_bit_count, pre_tip_status } = p2 {
            return Ok(
                TntProceed::Break {
                    processed_bit_count: processed_bit_count + 8,
                    pre_tip_status,
                },
            );
        }
        let ghost cache2 = self.spec_cache();
        let ghost cfg2 = self.spec_cfg();
        let ghost emits_c = self.emits@;
        let (k1, p1) = match self.handle_tnt_buffer8(context, last_bb_ref, b1) {
            Ok(v) => v,
            Err(e) => {
                proof {
                    compose32(cfg0, cfg2, self.spec_cfg(), cache0, cache2, self.spec_cache());
                    lemma_prefix_trans(emits_a, emits_c, self.emits@);
                }
                return Err(e);
            },
        };
        proof {
            compose32(cfg0, cfg2, self.spec_cfg(), cache0, cache2, self.spec_cache());
            lemma_prefix_trans(emits_a, emits_c, self.emits@);
        }
        if let TntProceed::Break { processed_bit_count, pre_tip_status } = p1 {
            return Ok(
                TntProceed::Break {
                    processed_bit_count: processed_bit_count + 16,
                    pre_tip_status,
                },
            );
        }
        let ghost cache3 = self.spec_cache();
        let ghost cfg3 = self.spec_cfg();
        let ghost emits_d = self.emits@;
        let (k0, p0) = match self.handle_tnt_buffer8(context, last_bb_ref, b0) {
            Ok(v) => v,
            Err(e) => {
                proof {
                    compose32(cfg0, cfg3, self.spec_cfg(), cache0, cache3, self.spec_cache());
                    lemma_prefix_trans(emits_a, emits_d, self.emits@);
                }
                return Err(e);
            },
        };
        proof {
            compose32(cfg0, cfg3, self.spec_cfg(), cache0, cache3, self.spec_cache());
            lemma_prefix_trans(emits_a, emits_d, self.emits@);
        }
        if let TntProceed::Break { processed_bit_count, pre_tip_status } = p0 {
            return Ok(
                TntProceed::Break {
                    processed_bit_count: processed_bit_count + 24,
                    pre_tip_status,
                },
            );
        }
        // Aggregate the four per-chunk handler keys into one 32-bit entry
        if let Err(e) = self.handler.clear_current_cache() {
            return Err(AnalyzerError::ControlFlowHandler(e));
        }
        if let Some(k) = k3 {
            if let Err(e) = self.handler.cache_prev_cached_key(k) {
                return Err(AnalyzerError::ControlFlowHandler(e));
            }
        }
        if let Some(k) = k2 {
            if let Err(e) = self.handler.cache_prev_cached_key(k) {
                return Err(AnalyzerError::ControlFlowHandler(e));
            }
        }
        if let Some(k) = k1 {
            if let Err(e) = self.handler.cache_prev_cached_key(k) {
                return Err(AnalyzerError::ControlFlowHandler(e));
            }
        }
        if let Some(k) = k0 {
            if let Err(e) = self.handler.cache_prev_cached_key(k) {
                return Err(AnalyzerError::ControlFlowHandler(e));
            }
        }
        let cached_key = match self.handler.take_cache() {
            Ok(c) => c,
            Err(e) => {
                return Err(AnalyzerError::ControlFlowHandler(e));
            },
        };
        self.cache_manager.insert_dword(
            start_bb,
            dword,
            CachableInformation { user_data: cached_key, new_bb: *last_bb_ref },
        );
        proof {
            assert(dword == spec_dword(tnt_buffer));
        }
        Ok(TntProceed::Continue)
    }

    /// Process a TNT buffer that may or may not be full, in decreasing
    /// chunk sizes (32 bits, 8 bits, then 1..=7 trailing bits). If a
    /// deferred TIP is detected, the unprocessed TNT bits are re-injected
    /// into the TNT buffer manager, to be processed after the TIP arrives.
    fn handle_maybe_full_tnt_buffer(
        &mut self,
        context: &DecoderContext,
        last_bb_ref: &mut u64,
        tnt_buffer: TntBuffer,
    ) -> (r: Result<(), AnalyzerError<H::Error, R::Error>>)
        ensures
            final(self).spec_last_bb() == old(self).spec_last_bb(),
            final(self).spec_last_ip() == old(self).spec_last_ip(),
            cfg_extends(old(self).spec_cfg(), final(self).spec_cfg()),
            crate::analyzer::cache::cache_extends(old(self).spec_cache(), final(self).spec_cache()),
            old(self).spec_emits().is_prefix_of(final(self).spec_emits()),
            r is Err ==> final(self).spec_tnt() == old(self).spec_tnt() && final(self).spec_status() == old(self).spec_status(),
            r is Ok ==> (final(self).spec_tnt() == old(self).spec_tnt() && final(self).spec_status() == old(self).spec_status()) || (exists|k: int|
                0 <= k <= tnt_buffer@.len() && final(self).spec_tnt() == tnt_buffer@.skip(k)
                    + old(self).spec_tnt() && (final(self).spec_status()
                    == PreTipStatus::PendingIndirectGoto || final(self).spec_status()
                    == PreTipStatus::PendingIndirectCall || final(self).spec_status()
                    == PreTipStatus::PendingFarTransfer) && status_justified(
                    final(self).spec_cfg(),
                    final(self).spec_status(),
                )),
    {
        let total: u32 = tnt_buffer.bits();
        let q = tnt_buffer.get_array_qword();
        let mut processed: u32 = 0;
        loop
            invariant
                processed <= total <= 64,
                processed % 8 == 0,
                total == tnt_buffer@.len(),
                self.spec_tnt() == old(self).spec_tnt(),
                self.spec_status() == old(self).spec_status(),
                self.spec_last_bb() == old(self).spec_last_bb(),
                self.spec_last_ip() == old(self).spec_last_ip(),
                cfg_extends(old(self).spec_cfg(), self.spec_cfg()),
                crate::analyzer::cache::cache_extends(old(self).spec_cache(), self.spec_cache()),
                old(self).spec_emits().is_prefix_of(self.emits@),
            ensures
                self.spec_tnt() == old(self).spec_tnt(),
                self.spec_status() == old(self).spec_status(),
                self.spec_last_bb() == old(self).spec_last_bb(),
                self.spec_last_ip() == old(self).spec_last_ip(),
                cfg_extends(old(self).spec_cfg(), self.spec_cfg()),
                crate::analyzer::cache::cache_extends(old(self).spec_cache(), self.spec_cache()),
                old(self).spec_emits().is_prefix_of(self.emits@),
            decreases total - processed,
        {
            let remaining = total - processed;
            if remaining == 0 {
                break ;
            }
            let k = (7 - processed / 8) as usize;
            let ghost cfg_p = self.spec_cfg();
            let ghost cache_p = self.spec_cache();
            let ghost emits_p = self.emits@;
            if remaining >= 32 {
                let bytes: [u8; 4] = [q[k - 3], q[k - 2], q[k - 1], q[k]];
                let proceed = match self.handle_tnt_buffer32(context, last_bb_ref, bytes) {
                    Ok(p) => p,
                    Err(e) => {
                        proof {
                            compose32(
                                old(self).spec_cfg(),
                                cfg_p,
                                self.spec_cfg(),
                                old(self).spec_cache(),
                                cache_p,
                                self.spec_cache(),
                            );
                            lemma_prefix_trans(old(self).spec_emits(), emits_p, self.emits@);
                        }
                        return Err(e);
                    },
                };
                proof {
                    compose32(
                        old(self).spec_cfg(),
                        cfg_p,
                        self.spec_cfg(),
                        old(self).spec_cache(),
                        cache_p,
                        self.spec_cache(),
                    );
                    lemma_prefix_trans(old(self).spec_emits(), emits_p, self.emits@);
                }
                if let TntProceed::Break { processed_bit_count, pre_tip_status } = proceed {
                    let remain_buf = tnt_buffer.remove_first_n_bits(processed + processed_bit_count);
                    if let Err(e) = self.mark_deferred_tip(remain_buf, pre_tip_status) {
                        return Err(e);
                    }
                    proof {
                        assert(self.spec_tnt() == tnt_buffer@.skip(
                            (processed + processed_bit_count) as int,
                        ) + old(self).spec_tnt());
                    }
                    return Ok(());
                }
                processed = processed + 32;
            } else if remaining >= 8 {
                let r8 = match self.handle_tnt_buffer8(context, last_bb_ref, q[k]) {
                    Ok(p) => p,
                    Err(e) => {
                        proof {
                            compose32(
                                old(self).spec_cfg(),
                                cfg_p,
                                self.spec_cfg(),
                                old(self).spec_cache(),
                                cache_p,
                                self.spec_cache(),
                            );
                            lemma_prefix_trans(old(self).spec_emits(), emits_p, self.emits@);
                        }
                        return Err(e);
                    },
                };
                proof {
                    compose32(
                        old(self).spec_cfg(),
                        cfg_p,
                        self.spec_cfg(),
                        old(self).spec_cache(),
                        cache_p,
                        self.spec_cache(),
                    );
                    lemma_prefix_trans(old(self).spec_emits(), emits_p, self.emits@);
                }
                if let TntProceed::Break { processed_bit_count, pre_tip_status } = r8.1 {
                    let remain_buf = tnt_buffer.remove_first_n_bits(processed + processed_bit_count);
                    if let Err(e) = self.mark_deferred_tip(remain_buf, pre_tip_status) {
                        return Err(e);
                    }
                    proof {
                        assert(self.spec_tnt() == tnt_buffer@.skip(
                            (processed + processed_bit_count) as int,
                        ) + old(self).spec_tnt());
                    }
                    return Ok(());
                }
                processed = processed + 8;
            } else {
                let proceed = match self.handle_tnt_buffer_trailing_bits(
                    context,
                    last_bb_ref,
                    q[k],
                    remaining,
                ) {
                    Ok(p) => p,
                    Err(e) => {
                        proof {
                            compose32(
                                old(self).spec_cfg(),
                                cfg_p,
                                self.spec_cfg(),
                                old(self).spec_cache(),
                                cache_p,
                                self.spec_cache(),
                            );
                            lemma_prefix_trans(old(self).spec_emits(), emits_p, self.emits@);
                        }
                        return Err(e);
                    },
                };
                proof {
                    compose32(
                        old(self).spec_cfg(),
                        cfg_p,
                        self.spec_cfg(),
                        old(self).spec_cache(),
                        cache_p,
                        self.spec_cache(),
                    );
                    lemma_prefix_trans(old(self).spec_emits(), emits_p, self.emits@);
                }
                if let TntProceed::Break { processed_bit_count, pre_tip_status } = proceed {
                    let remain_buf = tnt_buffer.remove_first_n_bits(processed + processed_bit_count);
                    if let Err(e) = self.mark_deferred_tip(remain_buf, pre_tip_status) {
                        return Err(e);
                    }
                    proof {
                        assert(self.spec_tnt() == tnt_buffer@.skip(
                            (processed + processed_bit_count) as int,
                        ) + old(self).spec_tnt());
                    }
                    return Ok(());
                }
                return Ok(());
            }
        }
        Ok(())
    }

    /// A fast path of [`Self::handle_maybe_full_tnt_buffer`] for a buffer
    /// that is known to be full.
    fn handle_full_tnt_buffer(
        &mut self,
        context: &DecoderContext,
        last_bb_ref: &mut u64,
        tnt_buffer: TntBuffer,
    ) -> (r: Result<(), AnalyzerError<H::Error, R::Error>>)
        ensures
            final(self).spec_last_bb() == old(self).spec_last_bb(),
            final(self).spec_last_ip() == old(self).spec_last_ip(),
            cfg_extends(old(self).spec_cfg(), final(self).spec_cfg()),
            crate::analyzer::cache::cache_extends(old(self).spec_cache(), final(self).spec_cache()),
            old(self).spec_emits().is_prefix_of(final(self).spec_emits()),
            r is Err ==> final(self).spec_tnt() == old(self).spec_tnt() && final(self).spec_status() == old(self).spec_status(),
            r is Ok ==> (final(self).spec_tnt() == old(self).spec_tnt() && final(self).spec_status() == old(self).spec_status()) || (exists|k: int|
                0 <= k <= tnt_buffer@.len() && final(self).spec_tnt() == tnt_buffer@.skip(k)
                    + old(self).spec_tnt() && (final(self).spec_status()
                    == PreTipStatus::PendingIndirectGoto || final(self).spec_status()
                    == PreTipStatus::PendingIndirectCall || final(self).spec_status()
                    == PreTipStatus::PendingFarTransfer) && status_justified(
                    final(self).spec_cfg(),
                    final(self).spec_status(),
                )),
    {
        self.handle_maybe_full_tnt_buffer(context, last_bb_ref, tnt_buffer)
    }

    /// Process all TNT bits pending in the TNT buffer manager.
    fn process_all_pending_tnts(&mut self, context: &DecoderContext) -> (r: Result<
        (),
        AnalyzerError<H::Error, R::Error>,
    >)
        ensures
            final(self).spec_last_ip() == old(self).spec_last_ip(),
            cfg_extends(old(self).spec_cfg(), final(self).spec_cfg()),
            crate::analyzer::cache::cache_extends(old(self).spec_cache(), final(self).spec_cache()),
            old(self).spec_emits().is_prefix_of(final(self).spec_emits()),
            final(self).spec_status() == old(self).spec_status() || ((final(self).spec_status()
                == PreTipStatus::PendingIndirectGoto || final(self).spec_status()
                == PreTipStatus::PendingIndirectCall || final(self).spec_status()
                == PreTipStatus::PendingFarTransfer) && status_justified(
                final(self).spec_cfg(),
                final(self).spec_status(),
            )),
    {
        let mut last_bb: u64 = match self.last_bb {
            None => {
                return Ok(());
            },
            Some(lb) => lb,
        };
        // There are TNT packets only after a TIP initialized last_bb
        let tnt_buffer = self.tnt_buffer_manager.take();
        let res = self.handle_maybe_full_tnt_buffer(context, &mut last_bb, tnt_buffer);
        self.last_bb = if last_bb == 0 {
            None
        } else {
            Some(last_bb)
        };
        res
    }
}

/// Compose growth facts about the CFG and the caches.
proof fn compose32<D>(
    cfg1: Map<u64, CfgNode>,
    cfg2: Map<u64, CfgNode>,
    cfg3: Map<u64, CfgNode>,
    ca1: ControlFlowCacheManager<D>,
    ca2: ControlFlowCacheManager<D>,
    ca3: ControlFlowCacheManager<D>,
)
    requires
        cfg_extends(cfg1, cfg2),
        cfg_extends(cfg2, cfg3),
        crate::analyzer::cache::cache_extends(ca1, ca2),
        crate::analyzer::cache::cache_extends(ca2, ca3),
    ensures
        cfg_extends(cfg1, cfg3),
        crate::analyzer::cache::cache_extends(ca1, ca3),
{
    lemma_extends_trans(cfg1, cfg2, cfg3);
    crate::analyzer::cache::lemma_cache_extends_trans(ca1, ca2, ca3);
}


/// Diagnostic counters of an [`EdgeAnalyzer`].
pub struct DiagnosticInformation {
    /// Number of resolved CFG nodes
    pub cfg_size: usize,
    /// Number of trailing-bits cache entries
    pub cache_trailing_bits_size: usize,
    /// Number of 8-bit cache entries
    pub cache8_size: usize,
    /// Number of 32-bit cache entries
    pub cache32_size: usize,
}

impl<H: HandleControlFlow, R: ReadMemory> EdgeAnalyzer<H, R> {
    /// Get diagnostic counters.
    #[must_use]
    pub fn diagnose(&self) -> DiagnosticInformation {
        let cfg_size = self.static_analyzer.cfg_size();
        let sizes = self.cache_manager.cache_size();
        DiagnosticInformation {
            cfg_size,
            cache_trailing_bits_size: sizes.0,
            cache8_size: sizes.1,
            cache32_size: sizes.2,
        }
    }

    /// Handle TIP or TIP.PGD; TIP.PGD can stand in for TIP when the
    /// destination leaves the traced range.
    fn handle_tip_or_tip_pgd_packet(
        &mut self,
        context: &DecoderContext,
        ip_reconstruction_pattern: IpReconstructionPattern,
        is_pgd: bool,
    ) -> (r: Result<(), AnalyzerError<H::Error, R::Error>>)
        ensures
            cfg_extends(old(self).spec_cfg(), final(self).spec_cfg()),
            crate::analyzer::cache::cache_extends(old(self).spec_cache(), final(self).spec_cache()),
            old(self).spec_emits().is_prefix_of(final(self).spec_emits()),
            r is Ok ==> final(self).spec_status() == PreTipStatus::Normal,
            (match spec_reconstruct_ip(old(self).spec_last_ip(), ip_reconstruction_pattern) {
                Some(ip) => r is Ok ==> final(self).spec_last_ip() == ip && final(self).spec_last_bb() == (if ip == 0 {
                    Option::<u64>::None
                } else {
                    Option::<u64>::Some(ip)
                }),
                None => (!is_pgd ==> r is Err) && (r is Ok ==> final(self).spec_last_ip() == old(self).spec_last_ip()),
            }),
            old(self).spec_status() == PreTipStatus::PendingOvf && spec_reconstruct_ip(
                old(self).spec_last_ip(),
                ip_reconstruction_pattern,
            ) is Some ==> r == Result::<(), AnalyzerError<H::Error, R::Error>>::Err(
                AnalyzerError::InvalidPacket,
            ),
            old(self).spec_status() == PreTipStatus::PendingFup && spec_reconstruct_ip(
                old(self).spec_last_ip(),
                ip_reconstruction_pattern,
            ) is Some ==> r is Ok && final(self).spec_tnt() == Seq::<bool>::empty() && final(self).spec_emits() == old(self).spec_emits(),
            old(self).spec_status() != PreTipStatus::Normal && spec_reconstruct_ip(
                old(self).spec_last_ip(),
                ip_reconstruction_pattern,
            ) is None && is_pgd ==> r is Ok && final(self).spec_emits() == old(self).spec_emits()
                && final(self).spec_last_bb() == old(self).spec_last_bb() && final(self).spec_last_ip() == old(self).spec_last_ip(),
            old(self).spec_status() != PreTipStatus::Normal && spec_reconstruct_ip(
                old(self).spec_last_ip(),
                ip_reconstruction_pattern,
            ) is None && !is_pgd ==> r == Result::<(), AnalyzerError<H::Error, R::Error>>::Err(
                AnalyzerError::InvalidPacket,
            ) && final(self).spec_last_bb() == old(self).spec_last_bb() && final(self).spec_last_ip() == old(self).spec_last_ip(),
            r is Ok && old(self).spec_status() != PreTipStatus::Normal && old(self).spec_status()
                != PreTipStatus::PendingOvf ==> (match spec_reconstruct_ip(
                old(self).spec_last_ip(),
                ip_reconstruction_pattern,
            ) {
                Some(ip) => (match old(self).spec_status() {
                    PreTipStatus::PendingReturn => final(self).spec_emits() == old(self).spec_emits().push(Emit::Block(ip, ControlFlowTransitionKind::Return)),
                    PreTipStatus::PendingIndirectGoto => final(self).spec_emits() == old(self).spec_emits().push(Emit::Block(ip, ControlFlowTransitionKind::IndirectJump)),
                    PreTipStatus::PendingIndirectCall => final(self).spec_emits() == old(self).spec_emits().push(Emit::Block(ip, ControlFlowTransitionKind::IndirectCall)),
                    PreTipStatus::PendingFarTransfer => final(self).spec_emits() == old(self).spec_emits().push(Emit::Block(ip, ControlFlowTransitionKind::NewBlock)),
                    PreTipStatus::PendingFup => final(self).spec_emits() == old(self).spec_emits(),
                    _ => true,
                }),
                None => final(self).spec_emits() == old(self).spec_emits(),
            }),
            r is Ok && old(self).spec_status() == PreTipStatus::Normal ==> (match spec_reconstruct_ip(
                old(self).spec_last_ip(),
                ip_reconstruction_pattern,
            ) {
                Some(ip) => (exists|st: PreTipStatus|
                    status_justified(final(self).spec_cfg(), st) && final(self).spec_emits().len()
                        > old(self).spec_emits().len() && final(self).spec_emits().last()
                        == Emit::Block(ip, #[trigger] spec_tip_kind(st))),
                None => true,
            }),
    {
        proof {
            assert(old(self).spec_emits().is_prefix_of(old(self).spec_emits())) by {
                assert(old(self).spec_emits().take(old(self).spec_emits().len() as int) =~= old(self).spec_emits());
            }
        }
        if matches!(self.pre_tip_status, PreTipStatus::Normal) {
            if let Err(e) = self.determine_pre_tip_status(context) {
                return Err(e);
            }
        }
        if matches!(self.pre_tip_status, PreTipStatus::Normal) {
            // This also refreshes the pre-TIP status, which avoids
            // non-deferred TIPs
            let ghost cfg_p = self.spec_cfg();
            let ghost cache_p = self.spec_cache();
            let ghost emits_p = self.emits@;
            let res = self.process_all_pending_tnts(context);
            proof {
                compose32(
                    old(self).spec_cfg(),
                    cfg_p,
                    self.spec_cfg(),
                    old(self).spec_cache(),
                    cache_p,
                    self.spec_cache(),
                );
                lemma_prefix_trans(old(self).spec_emits(), emits_p, self.emits@);
            }
            if let Err(e) = res {
                return Err(e);
            }
        }
        let new_last_bb: u64 = match self.reconstruct_ip_and_update_last(
            ip_reconstruction_pattern,
        ) {
            None => {
                // Out-of-context IP
                if is_pgd {
                    // For example a SYSCALL into kernel code
                    self.pre_tip_status = PreTipStatus::Normal;
                    return Ok(());
                } else {
                    // A plain TIP packet never reports an out-of-context IP
                    return Err(AnalyzerError::InvalidPacket);
                }
            },
            Some(ip) => ip,
        };
        self.last_bb = if new_last_bb == 0 {
            None
        } else {
            Some(new_last_bb)
        };
        match self.pre_tip_status {
            PreTipStatus::Normal => {
                let res = self.handler.on_new_block(
                    new_last_bb,
                    ControlFlowTransitionKind::NewBlock,
                    false,
                );
                proof {
                    self.emits@ = self.emits@.push(
                        Emit::Block(new_last_bb, ControlFlowTransitionKind::NewBlock),
                    );
                    assert(self.emits@.take(old(self).spec_emits().len() as int) =~= old(self).spec_emits());
                    if old(self).spec_status() == PreTipStatus::Normal {
                        assert(status_justified(self.spec_cfg(), PreTipStatus::Normal));
                        assert(self.emits@.last() == Emit::Block(
                            new_last_bb,
                            spec_tip_kind(PreTipStatus::Normal),
                        ));
                    }
                }
                if let Err(e) = res {
                    return Err(AnalyzerError::ControlFlowHandler(e));
                }
            },
            PreTipStatus::PendingReturn => {
                let res = self.handler.on_new_block(
                    new_last_bb,
                    ControlFlowTransitionKind::Return,
                    false,
                );
                proof {
                    self.emits@ = self.emits@.push(
                        Emit::Block(new_last_bb, ControlFlowTransitionKind::Return),
                    );
                    assert(self.emits@.take(old(self).spec_emits().len() as int) =~= old(self).spec_emits());
                    if old(self).spec_status() == PreTipStatus::Normal {
                        assert(status_justified(self.spec_cfg(), PreTipStatus::PendingReturn));
                        assert(self.emits@.last() == Emit::Block(
                            new_last_bb,
                            spec_tip_kind(PreTipStatus::PendingReturn),
                        ));
                    }
                }
                if let Err(e) = res {
                    return Err(AnalyzerError::ControlFlowHandler(e));
                }
                self.pre_tip_status = PreTipStatus::Normal;
            },
            PreTipStatus::PendingIndirectGoto => {
                let res = self.handler.on_new_block(
                    new_last_bb,
                    ControlFlowTransitionKind::IndirectJump,
                    false,
                );
                proof {
                    self.emits@ = self.emits@.push(
                        Emit::Block(new_last_bb, ControlFlowTransitionKind::IndirectJump),
                    );
                    assert(self.emits@.take(old(self).spec_emits().len() as int) =~= old(self).spec_emits());
                    if old(self).spec_status() == PreTipStatus::Normal {
                        assert(status_justified(self.spec_cfg(), PreTipStatus::PendingIndirectGoto));
                        assert(self.emits@.last() == Emit::Block(
                            new_last_bb,
                            spec_tip_kind(PreTipStatus::PendingIndirectGoto),
                        ));
                    }
                }
                if let Err(e) = res {
                    return Err(AnalyzerError::ControlFlowHandler(e));
                }
                self.pre_tip_status = PreTipStatus::Normal;
            },
            PreTipStatus::PendingIndirectCall => {
                let res = self.handler.on_new_block(
                    new_last_bb,
                    ControlFlowTransitionKind::IndirectCall,
                    false,
                );
                proof {
                    self.emits@ = self.emits@.push(
                        Emit::Block(new_last_bb, ControlFlowTransitionKind::IndirectCall),
                    );
                    assert(self.emits@.take(old(self).spec_emits().len() as int) =~= old(self).spec_emits());
                    if old(self).spec_status() == PreTipStatus::Normal {
                        assert(status_justified(self.spec_cfg(), PreTipStatus::PendingIndirectCall));
                        assert(self.emits@.last() == Emit::Block(
                            new_last_bb,
                            spec_tip_kind(PreTipStatus::PendingIndirectCall),
                        ));
                    }
                }
                if let Err(e) = res {
                    return Err(AnalyzerError::ControlFlowHandler(e));
                }
                self.pre_tip_status = PreTipStatus::Normal;
            },
            PreTipStatus::PendingFarTransfer => {
                let res = self.handler.on_new_block(
                    new_last_bb,
                    ControlFlowTransitionKind::NewBlock,
                    false,
                );
                proof {
                    self.emits@ = self.emits@.push(
                        Emit::Block(new_last_bb, ControlFlowTransitionKind::NewBlock),
                    );
                    assert(self.emits@.take(old(self).spec_emits().len() as int) =~= old(self).spec_emits());
                    if old(self).spec_status() == PreTipStatus::Normal {
                        assert(status_justified(self.spec_cfg(), PreTipStatus::PendingFarTransfer));
                        assert(self.emits@.last() == Emit::Block(
                            new_last_bb,
                            spec_tip_kind(PreTipStatus::PendingFarTransfer),
                        ));
                    }
                }
                if let Err(e) = res {
                    return Err(AnalyzerError::ControlFlowHandler(e));
                }
                self.pre_tip_status = PreTipStatus::Normal;
            },
            PreTipStatus::PendingFup => {
                // The FUP reported the IP of an asynchronous event; the TNT
                // bits accumulated since then carry no control flow
                self.pre_tip_status = PreTipStatus::Normal;
                self.tnt_buffer_manager.clear();
                return Ok(());
            },
            PreTipStatus::PendingOvf => {
                // OVF must be followed by FUP or TIP.PGE
                return Err(AnalyzerError::InvalidPacket);
            },
        }
        Ok(())
    }
}

impl<H: HandleControlFlow, R: ReadMemory> HandlePacket for EdgeAnalyzer<H, R> {
    type Error = AnalyzerError<H::Error, R::Error>;

    fn at_decode_begin(&mut self) -> (r: Result<(), Self::Error>)
        ensures
            final(self).spec_last_ip() == 0,
            final(self).spec_last_bb() is None,
            final(self).spec_status() == PreTipStatus::Normal,
            final(self).spec_tnt() == Seq::<bool>::empty(),
            final(self).spec_cfg() == old(self).spec_cfg(),
            final(self).spec_emits() == old(self).spec_emits(),
            final(self).spec_cache() == old(self).spec_cache() || ((forall|s: u64, b: u8|
                #[trigger] final(self).spec_cache().spec_get8(s, b) is None) && (forall|
                s: u64,
                d: u32,
            | #[trigger] final(self).spec_cache().spec_get32(s, d) is None) && (forall|
                s: u64,
                t: u16,
            | #[trigger] final(self).spec_cache().spec_get_trailing(s, t) is None)),
    {
        self.last_ip = 0;
        self.last_bb = None;
        self.pre_tip_status = PreTipStatus::Normal;
        self.tnt_buffer_manager.clear();
        if let Err(e) = self.handler.at_decode_begin() {
            return Err(AnalyzerError::ControlFlowHandler(e));
        }
        if let Err(e) = self.reader.at_decode_begin() {
            return Err(AnalyzerError::MemoryReader(e));
        }
        let should_clear = match self.handler.should_clear_all_cache() {
            Ok(b) => b,
            Err(e) => {
                return Err(AnalyzerError::ControlFlowHandler(e));
            },
        };
        if should_clear {
            self.cache_manager = ControlFlowCacheManager::new();
        }
        Ok(())
    }

    fn on_short_tnt_packet(
        &mut self,
        context: &DecoderContext,
        packet_byte: u8,
        highest_bit: u32,
    ) -> (r: Result<(), Self::Error>)
        ensures
            final(self).spec_last_ip() == old(self).spec_last_ip(),
            cfg_extends(old(self).spec_cfg(), final(self).spec_cfg()),
            crate::analyzer::cache::cache_extends(old(self).spec_cache(), final(self).spec_cache()),
            old(self).spec_emits().is_prefix_of(final(self).spec_emits()),
            highest_bit == 0 || old(self).spec_last_bb() is None ==> r is Ok && final(self).spec_tnt() == old(self).spec_tnt() && final(self).spec_last_bb() == old(self).spec_last_bb() && final(self).spec_status() == old(self).spec_status() && final(self).spec_emits() == old(self).spec_emits(),
            highest_bit != 0 && old(self).spec_last_bb() is Some && old(self).spec_tnt().len()
                + crate::bitops::short_tnt_count(packet_byte) < 64 ==> r is Ok && final(self).spec_tnt() == old(self).spec_tnt() + crate::bitops::short_tnt_view(packet_byte)
                && final(self).spec_last_bb() == old(self).spec_last_bb() && final(self).spec_status() == old(self).spec_status() && final(self).spec_emits() == old(self).spec_emits(),
            highest_bit != 0 && old(self).spec_last_bb() is Some && crate::bitops::short_tnt_count(
                packet_byte,
            ) > 0 && old(self).spec_tnt().len() + crate::bitops::short_tnt_count(packet_byte) >= 64
                && r is Ok ==> ({
                let comb = old(self).spec_tnt() + crate::bitops::short_tnt_view(packet_byte);
                (final(self).spec_tnt() == comb.skip(64) && final(self).spec_status() == old(self).spec_status()) || (exists|k: int|
                    0 <= k <= 64 && final(self).spec_tnt() == comb.take(64).skip(k) + comb.skip(64)
                        && (final(self).spec_status() == PreTipStatus::PendingIndirectGoto || final(self).spec_status() == PreTipStatus::PendingIndirectCall || final(self).spec_status() == PreTipStatus::PendingFarTransfer))
            }),
    {
        if highest_bit == 0 {
            // No TNT bits
            return Ok(());
        }
        let mut last_bb: u64 = match self.last_bb {
            None => {
                // No previous TIP given; silently ignore these TNT bits
                return Ok(());
            },
            Some(lb) => lb,
        };
        if let Some(full_tnt_buffer) = self.tnt_buffer_manager.extend_with_short_tnt(packet_byte) {
            let res = self.handle_full_tnt_buffer(context, &mut last_bb, full_tnt_buffer);
            self.last_bb = if last_bb == 0 {
                None
            } else {
                Some(last_bb)
            };
            if let Err(e) = res {
                return Err(e);
            }
        }
        Ok(())
    }

    fn on_long_tnt_packet(
        &mut self,
        context: &DecoderContext,
        packet_bytes: u64,
        highest_bit: u32,
    ) -> (r: Result<(), Self::Error>)
        ensures
            final(self).spec_last_ip() == old(self).spec_last_ip(),
            cfg_extends(old(self).spec_cfg(), final(self).spec_cfg()),
            crate::analyzer::cache::cache_extends(old(self).spec_cache(), final(self).spec_cache()),
            old(self).spec_emits().is_prefix_of(final(self).spec_emits()),
            highest_bit == u32::MAX || old(self).spec_last_bb() is None ==> r is Ok && final(self).spec_tnt() == old(self).spec_tnt() && final(self).spec_last_bb() == old(self).spec_last_bb() && final(self).spec_status() == old(self).spec_status() && final(self).spec_emits() == old(self).spec_emits(),
            highest_bit != u32::MAX && old(self).spec_last_bb() is Some && old(self).spec_tnt().len() + crate::bitops::long_tnt_count(packet_bytes) < 64 ==> r is Ok
                && final(self).spec_tnt() == old(self).spec_tnt()
                + crate::bitops::long_tnt_view(packet_bytes) && final(self).spec_last_bb() == old(self).spec_last_bb() && final(self).spec_status() == old(self).spec_status() && final(self).spec_emits() == old(self).spec_emits(),
            highest_bit != u32::MAX && old(self).spec_last_bb() is Some && crate::bitops::long_tnt_count(
                packet_bytes,
            ) > 0 && old(self).spec_tnt().len() + crate::bitops::long_tnt_count(packet_bytes) >= 64
                && r is Ok ==> ({
                let comb = old(self).spec_tnt() + crate::bitops::long_tnt_view(packet_bytes);
                (final(self).spec_tnt() == comb.skip(64) && final(self).spec_status() == old(self).spec_status()) || (exists|k: int|
                    0 <= k <= 64 && final(self).spec_tnt() == comb.take(64).skip(k) + comb.skip(64)
                        && (final(self).spec_status() == PreTipStatus::PendingIndirectGoto || final(self).spec_status() == PreTipStatus::PendingIndirectCall || final(self).spec_status() == PreTipStatus::PendingFarTransfer))
            }),
    {
        if highest_bit == u32::MAX {
            // No TNT bits
            return Ok(());
        }
        let mut last_bb: u64 = match self.last_bb {
            None => {
                // No previous TIP given; silently ignore these TNT bits
                return Ok(());
            },
            Some(lb) => lb,
        };
        if let Some(full_tnt_buffer) = self.tnt_buffer_manager.extend_with_long_tnt(packet_bytes) {
            let res = self.handle_full_tnt_buffer(context, &mut last_bb, full_tnt_buffer);
            self.last_bb = if last_bb == 0 {
                None
            } else {
                Some(last_bb)
            };
            if let Err(e) = res {
                return Err(e);
            }
        }
        Ok(())
    }

    fn on_tip_packet(
        &mut self,
        context: &DecoderContext,
        ip_reconstruction_pattern: IpReconstructionPattern,
    ) -> (r: Result<(), Self::Error>)
        ensures
            cfg_extends(old(self).spec_cfg(), final(self).spec_cfg()),
            crate::analyzer::cache::cache_extends(old(self).spec_cache(), final(self).spec_cache()),
            old(self).spec_emits().is_prefix_of(final(self).spec_emits()),
            r is Ok ==> final(self).spec_status() == PreTipStatus::Normal,
            spec_reconstruct_ip(old(self).spec_last_ip(), ip_reconstruction_pattern) is None
                ==> r is Err,
            spec_reconstruct_ip(old(self).spec_last_ip(), ip_reconstruction_pattern) is None
                && old(self).spec_status() != PreTipStatus::Normal ==> r == Result::<
                (),
                AnalyzerError<H::Error, R::Error>,
            >::Err(AnalyzerError::InvalidPacket) && final(self).spec_last_bb() == old(self).spec_last_bb(),
            (match spec_reconstruct_ip(old(self).spec_last_ip(), ip_reconstruction_pattern) {
                Some(ip) => r is Ok ==> final(self).spec_last_ip() == ip && final(self).spec_last_bb() == (if ip == 0 {
                    Option::<u64>::None
                } else {
                    Option::<u64>::Some(ip)
                }),
                None => true,
            }),
    {
        self.handle_tip_or_tip_pgd_packet(context, ip_reconstruction_pattern, false)
    }

    fn on_tip_pgd_packet(
        &mut self,
        context: &DecoderContext,
        ip_reconstruction_pattern: IpReconstructionPattern,
    ) -> (r: Result<(), Self::Error>)
        ensures
            cfg_extends(old(self).spec_cfg(), final(self).spec_cfg()),
            crate::analyzer::cache::cache_extends(old(self).spec_cache(), final(self).spec_cache()),
            old(self).spec_emits().is_prefix_of(final(self).spec_emits()),
            r is Ok ==> final(self).spec_status() == PreTipStatus::Normal && final(self).spec_last_bb() is None && final(self).spec_tnt() == Seq::<bool>::empty(),
            (match spec_reconstruct_ip(old(self).spec_last_ip(), ip_reconstruction_pattern) {
                Some(ip) => r is Ok ==> final(self).spec_last_ip() == ip,
                None => r is Ok ==> final(self).spec_last_ip() == old(self).spec_last_ip(),
            }),
    {
        if let Err(e) = self.handle_tip_or_tip_pgd_packet(
            context,
            ip_reconstruction_pattern,
            true,
        ) {
            return Err(e);
        }
        self.last_bb = None;
        self.tnt_buffer_manager.clear();
        Ok(())
    }

    fn on_tip_pge_packet(
        &mut self,
        context: &DecoderContext,
        ip_reconstruction_pattern: IpReconstructionPattern,
    ) -> (r: Result<(), Self::Error>)
        ensures
            final(self).spec_cfg() == old(self).spec_cfg(),
            final(self).spec_cache() == old(self).spec_cache(),
            old(self).spec_emits().is_prefix_of(final(self).spec_emits()),
            r is Ok ==> final(self).spec_status() == PreTipStatus::Normal && final(self).spec_tnt() == Seq::<bool>::empty(),
            old(self).spec_status() == PreTipStatus::PendingOvf && spec_reconstruct_ip(
                old(self).spec_last_ip(),
                ip_reconstruction_pattern,
            ) is None ==> r == Result::<(), AnalyzerError<H::Error, R::Error>>::Err(
                AnalyzerError::InvalidPacket,
            ),
            (match spec_reconstruct_ip(old(self).spec_last_ip(), ip_reconstruction_pattern) {
                Some(ip) => r is Ok ==> final(self).spec_last_ip() == ip && final(self).spec_last_bb() == (if ip == 0 {
                    Option::<u64>::None
                } else {
                    Option::<u64>::Some(ip)
                }) && final(self).spec_emits() == old(self).spec_emits().push(
                    Emit::Block(ip, ControlFlowTransitionKind::NewBlock),
                ),
                None => old(self).spec_status() != PreTipStatus::PendingOvf ==> r is Ok && final(self).spec_last_ip() == old(self).spec_last_ip() && final(self).spec_last_bb() == old(self).spec_last_bb() && final(self).spec_emits() == old(self).spec_emits(),
            }),
    {
        if matches!(self.pre_tip_status, PreTipStatus::PendingOvf) {
            let last_bb: u64 = match self.reconstruct_ip_and_update_last(
                ip_reconstruction_pattern,
            ) {
                None => {
                    // Any IP compression that follows the OVF must take its
                    // reference IP from an IP packet
                    return Err(AnalyzerError::InvalidPacket);
                },
                Some(ip) => ip,
            };
            self.last_bb = if last_bb == 0 {
                None
            } else {
                Some(last_bb)
            };
            self.pre_tip_status = PreTipStatus::Normal;
            self.tnt_buffer_manager.clear();
            let res = self.handler.on_new_block(
                last_bb,
                ControlFlowTransitionKind::NewBlock,
                false,
            );
            proof {
                self.emits@ = self.emits@.push(
                    Emit::Block(last_bb, ControlFlowTransitionKind::NewBlock),
                );
            }
            if let Err(e) = res {
                return Err(AnalyzerError::ControlFlowHandler(e));
            }
            return Ok(());
        }
        if let Some(last_bb) = self.reconstruct_ip_and_update_last(ip_reconstruction_pattern) {
            self.last_bb = if last_bb == 0 {
                None
            } else {
                Some(last_bb)
            };
            let res = self.handler.on_new_block(
                last_bb,
                ControlFlowTransitionKind::NewBlock,
                false,
            );
            proof {
                self.emits@ = self.emits@.push(
                    Emit::Block(last_bb, ControlFlowTransitionKind::NewBlock),
                );
            }
            if let Err(e) = res {
                return Err(AnalyzerError::ControlFlowHandler(e));
            }
        }
        self.pre_tip_status = PreTipStatus::Normal;
        self.tnt_buffer_manager.clear();
        Ok(())
    }

    fn on_fup_packet(
        &mut self,
        context: &DecoderContext,
        ip_reconstruction_pattern: IpReconstructionPattern,
    ) -> (r: Result<(), Self::Error>)
        ensures
            final(self).spec_cfg() == old(self).spec_cfg(),
            final(self).spec_cache() == old(self).spec_cache(),
            final(self).spec_emits() == old(self).spec_emits(),
            old(self).spec_status() == PreTipStatus::PendingOvf ==> (match spec_reconstruct_ip(
                old(self).spec_last_ip(),
                ip_reconstruction_pattern,
            ) {
                Some(ip) => r is Ok && final(self).spec_status() == PreTipStatus::Normal && final(self).spec_last_ip() == ip && final(self).spec_last_bb() == (if ip == 0 {
                    Option::<u64>::None
                } else {
                    Option::<u64>::Some(ip)
                }) && final(self).spec_tnt() == Seq::<bool>::empty(),
                None => r == Result::<(), AnalyzerError<H::Error, R::Error>>::Err(
                    AnalyzerError::InvalidPacket,
                ),
            }),
            old(self).spec_status() != PreTipStatus::PendingOvf ==> r is Ok && final(self).spec_status() == PreTipStatus::PendingFup && final(self).spec_last_bb() == old(self).spec_last_bb() && final(self).spec_tnt() == old(self).spec_tnt() && final(self).spec_last_ip() == (match spec_reconstruct_ip(
                old(self).spec_last_ip(),
                ip_reconstruction_pattern,
            ) {
                Some(ip) => ip,
                None => old(self).spec_last_ip(),
            }),
    {
        if matches!(self.pre_tip_status, PreTipStatus::PendingOvf) {
            self.pre_tip_status = PreTipStatus::Normal;
            let last_bb: u64 = match self.reconstruct_ip_and_update_last(
                ip_reconstruction_pattern,
            ) {
                None => {
                    // Any IP compression that follows the OVF must take its
                    // reference IP from an IP packet
                    return Err(AnalyzerError::InvalidPacket);
                },
                Some(ip) => ip,
            };
            self.last_bb = if last_bb == 0 {
                None
            } else {
                Some(last_bb)
            };
            self.tnt_buffer_manager.clear();
            return Ok(());
        }
        let _updated = self.reconstruct_ip_and_update_last(ip_reconstruction_pattern);
        self.pre_tip_status = PreTipStatus::PendingFup;
        Ok(())
    }

    fn on_ovf_packet(&mut self, context: &DecoderContext) -> (r: Result<(), Self::Error>)
        ensures
            r is Ok,
            final(self).spec_status() == PreTipStatus::PendingOvf,
            final(self).spec_last_ip() == old(self).spec_last_ip(),
            final(self).spec_last_bb() == old(self).spec_last_bb(),
            final(self).spec_tnt() == old(self).spec_tnt(),
            final(self).spec_cfg() == old(self).spec_cfg(),
            final(self).spec_cache() == old(self).spec_cache(),
            final(self).spec_emits() == old(self).spec_emits(),
    {
        self.pre_tip_status = PreTipStatus::PendingOvf;
        Ok(())
    }

    fn on_psb_packet(&mut self, context: &DecoderContext) -> (r: Result<(), Self::Error>)
        ensures
            r is Ok,
            final(self).spec_last_bb() is None,
            final(self).spec_last_ip() == 0,
            final(self).spec_status() == PreTipStatus::Normal,
            final(self).spec_tnt() == Seq::<bool>::empty(),
            final(self).spec_cfg() == old(self).spec_cfg(),
            final(self).spec_cache() == old(self).spec_cache(),
            final(self).spec_emits() == old(self).spec_emits(),
    {
        self.last_bb = None;
        self.last_ip = 0;
        self.pre_tip_status = PreTipStatus::Normal;
        self.tnt_buffer_manager.clear();
        Ok(())
    }
}

/// `cfg_extends` is transitive.
pub proof fn lemma_extends_trans(
    c1: Map<u64, CfgNode>,
    c2: Map<u64, CfgNode>,
    c3: Map<u64, CfgNode>,
)
    requires
        cfg_extends(c1, c2),
        cfg_extends(c2, c3),
    ensures
        cfg_extends(c1, c3),
{
    assert forall|k: u64| c1.contains_key(k) implies #[trigger] c3.contains_key(k) && c3[k]
        == c1[k] by {
        assert(c2.contains_key(k) && c2[k] == c1[k]);
        assert(c3.contains_key(k) && c3[k] == c2[k]);
    }
}

} // verus!
