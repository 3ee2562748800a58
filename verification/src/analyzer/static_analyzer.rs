//! Static control flow analyzer: resolves a basic-block start address to
//! its terminator by decoding x86 instructions on demand, memoized in a
//! CFG map keyed by block entry address.

use vstd::prelude::*;
use vstd::slice::slice_subrange;

use crate::analyzer::error::AnalyzerError;
use crate::analyzer::memory_reader::ReadMemory;
use crate::decoder::TraceeMode;

verus! {

/// Terminator of a CFG node.
#[derive(Clone, Copy, Debug, PartialEq, Eq, Structural)]
pub enum CfgTerminator {
    /// A conditional JMP
    Branch {
        /// Address of the taken branch
        true_target: u64,
        /// Low 32 bits of the not-taken (fall-through) address.
        ///
        /// Both edges of a branch share the upper 32 bits, so only the low
        /// 32 bits of the fall-through need be stored.
        false_low32: u32,
    },
    /// A direct JMP
    DirectGoto {
        /// Address of the jump target
        target: u64,
    },
    /// A direct CALL
    DirectCall {
        /// Address of the call target
        target: u64,
    },
    /// An indirect JMP
    IndirectGoto,
    /// An indirect CALL
    IndirectCall,
    /// A RET
    NearRet,
    /// Another instruction that changes control flow (far jumps and calls,
    /// syscalls, interrupts and the like)
    FarTransfer {
        /// Address of the instruction after the current instruction
        next_ip: u64,
    },
}

impl CfgTerminator {
    /// The full not-taken target of a `Branch`, sharing the taken target's
    /// upper 32 bits.
    pub open spec fn spec_false_target(self) -> u64 {
        match self {
            CfgTerminator::Branch { true_target, false_low32 } => (true_target
                & 0xFFFF_FFFF_0000_0000) | (false_low32 as u64),
            _ => 0,
        }
    }
}

/// A node in the CFG graph (a CALL is also treated as a basic block
/// terminator), representing one basic block.
#[derive(Clone, Copy, Debug, PartialEq, Eq, Structural)]
pub struct CfgNode {
    /// The terminator of this basic block
    pub terminator: CfgTerminator,
}

/// What one x86 instruction decode yields, as plain values read off
/// `iced_x86`'s `Instruction`.
#[derive(Clone, Copy, Debug, PartialEq, Eq, Structural)]
pub struct DecodedInsn {
    /// The decoder rejected the bytes (possibly because they are truncated)
    pub invalid: bool,
    /// Length of the decoded instruction in bytes
    pub len: usize,
    /// Address of the next instruction
    pub next_ip: u64,
    /// Near branch target, meaningful for near jumps, calls and branches
    pub near_target: u64,
    /// A conditional jump, `LOOP` or `LOOPcc`
    pub is_cond_branch: bool,
    /// A near indirect JMP
    pub is_jmp_indirect: bool,
    /// A near indirect CALL
    pub is_call_indirect: bool,
    /// A near direct JMP
    pub is_jmp_direct: bool,
    /// A near direct CALL
    pub is_call_direct: bool,
    /// A near RET of any operand size
    pub is_near_ret: bool,
    /// Control flow falls through to the next instruction
    pub is_fall_through: bool,
}

/// What the x86 instruction decoder yields for the given mode, window and
/// instruction pointer: a function of its arguments alone.
pub uninterp spec fn x86_decode(bitness: u32, window: Seq<u8>, ip: u64) -> DecodedInsn;

/// Relies on `iced_x86::Decoder::with_ip` and `Decoder::decode`: decoding
/// the instruction at the start of `window` is a pure function of the
/// bitness, the window bytes and the instruction pointer; the fields of the
/// result are read off the decoded `Instruction` one for one.
/// `Decoder::with_ip` panics unless the bitness is 16, 32 or 64.
#[verifier::external_body]
fn decode_next(bitness: u32, window: &[u8], ip: u64) -> (r: DecodedInsn)
    requires
        bitness == 16 || bitness == 32 || bitness == 64,
    ensures
        r == x86_decode(bitness, window@, ip),
{
    let mut d = iced_x86::Decoder::with_ip(bitness, window, ip, iced_x86::DecoderOptions::NONE);
    let i = d.decode();
    let c = i.code();
    let ret = c == iced_x86::Code::Retnw || c == iced_x86::Code::Retnw_imm16
        || c == iced_x86::Code::Retnd || c == iced_x86::Code::Retnd_imm16
        || c == iced_x86::Code::Retnq || c == iced_x86::Code::Retnq_imm16;
    DecodedInsn {
        invalid: i.is_invalid(), len: i.len(), next_ip: i.next_ip(),
        near_target: i.near_branch_target(),
        is_cond_branch: i.is_jcc_short_or_near() || i.is_loop() || i.is_loopcc(),
        is_jmp_indirect: i.is_jmp_near_indirect(), is_call_indirect: i.is_call_near_indirect(),
        is_jmp_direct: i.is_jmp_short_or_near(), is_call_direct: i.is_call_near(),
        is_near_ret: ret, is_fall_through: i.flow_control() == iced_x86::FlowControl::Next,
    }
}

/// The terminator classification of a decoded instruction, or `None` if the
/// instruction does not change control flow.
pub open spec fn spec_classify(d: DecodedInsn) -> Option<CfgTerminator> {
    if d.is_cond_branch {
        Some(
            CfgTerminator::Branch { true_target: d.near_target, false_low32: d.next_ip as u32 },
        )
    } else if d.is_jmp_indirect {
        Some(CfgTerminator::IndirectGoto)
    } else if d.is_call_indirect {
        Some(CfgTerminator::IndirectCall)
    } else if d.is_jmp_direct {
        Some(CfgTerminator::DirectGoto { target: d.near_target })
    } else if d.is_call_direct {
        Some(CfgTerminator::DirectCall { target: d.near_target })
    } else if d.is_near_ret {
        Some(CfgTerminator::NearRet)
    } else if !d.is_fall_through {
        Some(CfgTerminator::FarTransfer { next_ip: d.next_ip })
    } else {
        None
    }
}

impl CfgTerminator {
    /// Convert a decoded instruction to a [`CfgTerminator`].
    ///
    /// Returns `None` if the instruction does not change control flow.
    pub fn try_from(d: &DecodedInsn) -> (r: Option<CfgTerminator>)
        ensures
            r == spec_classify(*d),
    {
        if d.is_cond_branch {
            Some(
                CfgTerminator::Branch {
                    true_target: d.near_target,
                    false_low32: d.next_ip as u32,
                },
            )
        } else if d.is_jmp_indirect {
            Some(CfgTerminator::IndirectGoto)
        } else if d.is_call_indirect {
            Some(CfgTerminator::IndirectCall)
        } else if d.is_jmp_direct {
            Some(CfgTerminator::DirectGoto { target: d.near_target })
        } else if d.is_call_direct {
            Some(CfgTerminator::DirectCall { target: d.near_target })
        } else if d.is_near_ret {
            Some(CfgTerminator::NearRet)
        } else if !d.is_fall_through {
            Some(CfgTerminator::FarTransfer { next_ip: d.next_ip })
        } else {
            None
        }
    }
}

/// The CFG graph. Key: address of basic block; value: the block's node.
///
/// Holds a `hashbrown::HashMap<u64, CfgNode>` whose behavior the contracts
/// of the methods below describe.
#[verifier::external_body]
struct CfgMap {
    inner: hashbrown::HashMap<u64, CfgNode>,
}

/// The entries held by a [`CfgMap`].
pub uninterp spec fn cfg_map_entries(m: CfgMap) -> Map<u64, CfgNode>;

impl CfgMap {
    /// Relies on `hashbrown::HashMap::with_capacity`: a fresh map has no
    /// entries.
    #[verifier::external_body]
    fn new() -> (r: Self)
        ensures
            cfg_map_entries(r).dom() == Set::<u64>::empty() && cfg_map_entries(r).dom().finite(),
    {
        CfgMap { inner: hashbrown::HashMap::with_capacity(0x1000) }
    }

    /// Relies on `hashbrown::HashMap::get`: returns the value inserted for
    /// this key, `None` if the key has never been inserted.
    #[verifier::external_body]
    fn get(&self, key: u64) -> (r: Option<&CfgNode>)
        ensures
            match r {
                Some(v) => cfg_map_entries(*self).contains_key(key) && *v == cfg_map_entries(
                    *self,
                )[key],
                None => !cfg_map_entries(*self).contains_key(key),
            },
    {
        self.inner.get(&key)
    }

    /// Relies on `hashbrown::HashMap::insert`: the map afterwards holds
    /// `value` for `key` and is otherwise unchanged.
    #[verifier::external_body]
    fn insert(&mut self, key: u64, value: CfgNode)
        ensures
            cfg_map_entries(*final(self)) == cfg_map_entries(*old(self)).insert(key, value),
            cfg_map_entries(*old(self)).dom().finite() ==> cfg_map_entries(
                *final(self),
            ).dom().finite(),
        no_unwind
    {
        self.inner.insert(key, value);
    }

    /// Relies on `hashbrown::HashMap::len`: the number of entries.
    #[verifier::external_body]
    fn len(&self) -> (r: usize)
        ensures
            cfg_map_entries(*self).dom().finite() ==> r == cfg_map_entries(*self).dom().len(),
    {
        self.inner.len()
    }
}

/// Static control flow analyzer, maintaining a CFG graph.
pub struct StaticControlFlowAnalyzer {
    /// The CFG graph; it grows monotonically and entries never change.
    cfg: CfgMap,
}

impl StaticControlFlowAnalyzer {
    /// The resolved CFG nodes, by basic-block start address.
    pub closed spec fn spec_cfg(&self) -> Map<u64, CfgNode> {
        cfg_map_entries(self.cfg)
    }

    /// Create a new [`StaticControlFlowAnalyzer`] with an empty CFG.
    #[must_use]
    pub fn new() -> (r: Self)
        ensures
            r.spec_cfg().dom() == Set::<u64>::empty(),
    {
        StaticControlFlowAnalyzer { cfg: CfgMap::new() }
    }

    /// Get the number of CFG nodes.
    pub fn cfg_size(&self) -> (r: usize)
        ensures
            self.spec_cfg().dom().finite() ==> r == self.spec_cfg().dom().len(),
    {
        self.cfg.len()
    }

    /// Resolve `insn_addr` (the start address of a basic block) to a
    /// [`CfgNode`], reading memory and decoding instructions on a cache
    /// miss; the node is memoized and never changes afterwards.
    pub fn resolve<R: ReadMemory, HE>(
        &mut self,
        memory_reader: &mut R,
        tracee_mode: TraceeMode,
        insn_addr: u64,
    ) -> (r: Result<CfgNode, AnalyzerError<HE, R::Error>>)
        ensures
            old(self).spec_cfg().contains_key(insn_addr) ==> r == Result::<
                CfgNode,
                AnalyzerError<HE, R::Error>,
            >::Ok(old(self).spec_cfg()[insn_addr]) && *final(memory_reader) == *old(memory_reader),
            match r {
                Ok(node) => {
                    &&& final(self).spec_cfg().contains_key(insn_addr)
                    &&& final(self).spec_cfg()[insn_addr] == node
                    &&& (old(self).spec_cfg().contains_key(insn_addr) ==> final(self).spec_cfg()
                        == old(self).spec_cfg() && node == old(self).spec_cfg()[insn_addr])
                    &&& (!old(self).spec_cfg().contains_key(insn_addr) ==> final(self).spec_cfg()
                        == old(self).spec_cfg().insert(insn_addr, node) && (exists|
                        w: Seq<u8>,
                        a: u64,
                    |
                        spec_classify(#[trigger] x86_decode(tracee_mode.spec_bitness(), w, a))
                            == Some(node.terminator)))
                },
                Err(e) => {
                    &&& final(self).spec_cfg() == old(self).spec_cfg()
                    &&& !(e is ControlFlowHandler)
                    &&& !(e is InvalidPacket)
                    &&& !(e is UnsupportedReturnCompression)
                },
            },
    {
        match self.cfg.get(insn_addr) {
            Some(node) => Ok(*node),
            None => {
                let node = match calculate_terminator::<R, HE>(
                    memory_reader,
                    tracee_mode,
                    insn_addr,
                ) {
                    Ok(node) => node,
                    Err(e) => {
                        return Err(e);
                    },
                };
                self.cfg.insert(insn_addr, node);
                Ok(node)
            },
        }
    }
}

/// How many bytes the resolver requests from the memory reader at a time.
const RESOLVE_WINDOW_SIZE: usize = 4096;

/// A guard against basic blocks of absurd length (for example a malformed
/// binary whose fall-through instructions never end).
const RESOLVE_INSN_GUARD: u32 = 0x10_0000;

/// Decode instructions starting at `insn_addr` until a block terminator is
/// found, requesting memory windows from `memory_reader` as needed and
/// splicing across window boundaries when an instruction crosses them.
fn calculate_terminator<R: ReadMemory, HE>(
    memory_reader: &mut R,
    tracee_mode: TraceeMode,
    insn_addr: u64,
) -> (r: Result<CfgNode, AnalyzerError<HE, R::Error>>)
    ensures
        r matches Err(e) ==> !(e is ControlFlowHandler) && !(e is InvalidPacket) && !(
        e is UnsupportedReturnCompression),
        r matches Ok(node) ==> exists|w: Seq<u8>, a: u64|
            spec_classify(#[trigger] x86_decode(tracee_mode.spec_bitness(), w, a)) == Some(
                node.terminator,
            ),
{
    let bitness = tracee_mode.bitness();
    let mut addr = insn_addr;
    let mut window: Vec<u8> = Vec::new();
    let mut offset: usize = 0;
    let mut guard: u32 = 0;
    loop
        invariant
            offset <= window@.len(),
            guard <= RESOLVE_INSN_GUARD,
            bitness == tracee_mode.spec_bitness(),
        decreases RESOLVE_INSN_GUARD - guard,
    {
        if guard >= RESOLVE_INSN_GUARD {
            return Err(AnalyzerError::Unexpected);
        }
        guard = guard + 1;
        if offset >= window.len() {
            // Request a fresh memory window at the current address
            window = match memory_reader.read_memory(addr, RESOLVE_WINDOW_SIZE) {
                Ok(w) => w,
                Err(e) => {
                    return Err(AnalyzerError::MemoryReader(e));
                },
            };
            offset = 0;
            if window.len() == 0 {
                return Err(AnalyzerError::InvalidInstruction);
            }
            continue ;
        }
        let whole: &[u8] = window.as_slice();
        proof {
            crate::decoder::lemma_slice_len_fits(whole);
        }
        let remaining = window.len() - offset;
        let tail = slice_subrange(window.as_slice(), offset, window.len());
        let d = decode_next(bitness, tail, addr);
        if d.invalid {
            if remaining >= 16 {
                return Err(AnalyzerError::InvalidInstruction);
            }
            // The instruction may cross the window boundary: splice the
            // remaining bytes with the next window and retry once.
            let next_addr = match addr.checked_add(remaining as u64) {
                Some(a) => a,
                None => {
                    return Err(AnalyzerError::InvalidInstruction);
                },
            };
            let mut spliced: Vec<u8> = Vec::new();
            let mut i: usize = 0;
            while i < remaining
                invariant
                    offset + remaining == window@.len(),
                    window@.len() <= usize::MAX,
                    remaining < 16,
                    i <= remaining,
                    spliced@.len() == i,
                decreases remaining - i,
            {
                spliced.push(window[offset + i]);
                i = i + 1;
            }
            let next_window = match memory_reader.read_memory(next_addr, RESOLVE_WINDOW_SIZE) {
                Ok(w) => w,
                Err(e) => {
                    return Err(AnalyzerError::MemoryReader(e));
                },
            };
            let mut j: usize = 0;
            while j < next_window.len() && spliced.len() < 16
                invariant
                    j <= next_window@.len(),
                decreases next_window@.len() - j,
            {
                spliced.push(next_window[j]);
                j = j + 1;
            }
            let d2 = decode_next(bitness, spliced.as_slice(), addr);
            if d2.invalid {
                // Even the spliced cross-window bytes decode to nothing
                return Err(AnalyzerError::InvalidInstruction);
            }
            match CfgTerminator::try_from(&d2) {
                Some(terminator) => {
                    proof {
                        assert(spec_classify(
                            x86_decode(tracee_mode.spec_bitness(), spliced@, addr),
                        ) == Some(terminator));
                    }
                    return Ok(CfgNode { terminator });
                },
                None => {
                    if d2.len < remaining || d2.len > 16 {
                        return Err(AnalyzerError::Unexpected);
                    }
                    let consumed_of_next = d2.len - remaining;
                    if consumed_of_next > next_window.len() {
                        return Err(AnalyzerError::InvalidInstruction);
                    }
                    addr = match addr.checked_add(d2.len as u64) {
                        Some(a) => a,
                        None => {
                            return Err(AnalyzerError::InvalidInstruction);
                        },
                    };
                    window = next_window;
                    offset = consumed_of_next;
                },
            }
        } else {
            match CfgTerminator::try_from(&d) {
                Some(terminator) => {
                    proof {
                        assert(spec_classify(x86_decode(tracee_mode.spec_bitness(), tail@, addr))
                            == Some(terminator));
                    }
                    return Ok(CfgNode { terminator });
                },
                None => {
                    if d.len == 0 || d.len > remaining {
                        return Err(AnalyzerError::Unexpected);
                    }
                    offset = offset + d.len;
                    addr = match addr.checked_add(d.len as u64) {
                        Some(a) => a,
                        None => {
                            return Err(AnalyzerError::InvalidInstruction);
                        },
                    };
                },
            }
        }
    }
}

} // verus!
