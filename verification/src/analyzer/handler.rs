//! The control-flow handler interface consumed by the edge analyzer.

use vstd::prelude::*;

verus! {

/// Kind of control flow transition.
#[derive(Debug, Clone, Copy, PartialEq, Eq, Structural)]
pub enum ControlFlowTransitionKind {
    /// Conditional Jcc
    ConditionalBranch,
    /// Direct JMP
    DirectJump,
    /// Direct CALL
    DirectCall,
    /// Indirect JMP
    IndirectJump,
    /// Indirect CALL
    IndirectCall,
    /// RET
    Return,
    /// Far transfer
    FarTransfer,
    /// A basic block that cannot be categorized into the other kinds
    NewBlock,
}

/// Control flow handler used by the edge analyzer: a pluggable sink for
/// basic-block transitions, with an optional cache-key interface that lets
/// the handler associate its own state with cached TNT runs.
pub trait HandleControlFlow: Sized {
    /// Error of the control flow handler
    type Error;

    /// Key handed back when a previously processed TNT sequence is met
    /// again and the analyzer reuses its cache instead of re-walking.
    type CachedKey: Copy;

    /// Callback at the beginning of a decode run, so one handler can be
    /// reused across several streams.
    fn at_decode_begin(&mut self) -> (r: Result<(), Self::Error>);

    /// Callback when a new basic block is met. `cache` is true when the
    /// block is part of a cacheable TNT run.
    fn on_new_block(
        &mut self,
        block_addr: u64,
        transition_kind: ControlFlowTransitionKind,
        cache: bool,
    ) -> (r: Result<(), Self::Error>);

    /// Merge a previously taken cache key into the current cache, when the
    /// analyzer builds a larger aggregate key out of sub-chunk keys.
    fn cache_prev_cached_key(&mut self, cached_key: Self::CachedKey) -> (r: Result<
        (),
        Self::Error,
    >);

    /// Snapshot the handler's contribution for the TNT run that just
    /// completed, if any.
    fn take_cache(&mut self) -> (r: Result<Option<Self::CachedKey>, Self::Error>);

    /// Reset the handler's current-run cache state before a fresh TNT run.
    fn clear_current_cache(&mut self) -> (r: Result<(), Self::Error>);

    /// Callback when a cached key is being reused; `new_bb` is the basic
    /// block the cached run ends at.
    fn on_reused_cache(&mut self, cached_key: &Self::CachedKey, new_bb: u64) -> (r: Result<
        (),
        Self::Error,
    >);

    /// True if the analyzer should drop all cached entries at the start of
    /// a decode run; previously emitted cache keys become invalid.
    fn should_clear_all_cache(&mut self) -> (r: Result<bool, Self::Error>);
}

} // verus!
