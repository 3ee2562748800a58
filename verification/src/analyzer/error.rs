//! Errors raised while analyzing the control flow of a packet stream.

use vstd::prelude::*;

verus! {

/// Error for edge analysis.
///
/// `HE` is the control-flow handler's error type, `RE` the memory reader's.
#[derive(Debug, PartialEq, Eq, Clone, Copy)]
pub enum AnalyzerError<HE, RE> {
    /// Control flow handler error
    ControlFlowHandler(HE),
    /// Memory reader error
    MemoryReader(RE),
    /// Instruction bytes that the x86 decoder rejects
    InvalidInstruction,
    /// Corrupted callstack, would affect the behavior of return compression
    CorruptedCallstack,
    /// Semantic-level invalid packet
    InvalidPacket,
    /// Return compression is not supported: it would require maintaining
    /// the callstack inside the control-flow cache
    UnsupportedReturnCompression,
    /// Re-injecting TNT bits after a deferred TIP would exceed 64 bits
    ExceededTntBuffer,
    /// Unexpected edge analyzer error
    Unexpected,
}

} // verus!
