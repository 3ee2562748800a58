//! Handler for combining two control flow sub handlers.

use vstd::prelude::*;

use crate::analyzer::handler::{ControlFlowTransitionKind, HandleControlFlow};

verus! {

/// Cached key of a [`CombinedControlFlowHandler`]: the optional keys of
/// the two sub handlers.
#[derive(Clone, Copy)]
pub struct CombinedCachedKey<K1: Copy, K2: Copy> {
    /// Key taken from the first handler
    pub key1: Option<K1>,
    /// Key taken from the second handler
    pub key2: Option<K2>,
}

/// A [`HandleControlFlow`] instance that combines two sub handlers.
pub struct CombinedControlFlowHandler<H1, H2> {
    handler1: H1,
    handler2: H2,
}

/// Error for [`CombinedControlFlowHandler`]: the failing sub handler's
/// error.
#[derive(Debug, Clone, Copy, PartialEq, Eq)]
pub enum CombinedError<E1, E2> {
    /// Error of the first handler
    H1Error(E1),
    /// Error of the second handler
    H2Error(E2),
}

impl<H1, H2> CombinedControlFlowHandler<H1, H2> {
    /// The first sub handler.
    pub closed spec fn spec_handler1(&self) -> H1 {
        self.handler1
    }

    /// The second sub handler.
    pub closed spec fn spec_handler2(&self) -> H2 {
        self.handler2
    }

    /// Create a new [`CombinedControlFlowHandler`].
    #[must_use]
    pub fn new(handler1: H1, handler2: H2) -> (r: Self)
        ensures
            r.spec_handler1() == handler1,
            r.spec_handler2() == handler2,
    {
        CombinedControlFlowHandler { handler1, handler2 }
    }

    /// Consume the handler and return the original two handlers.
    pub fn into_inner(self) -> (r: (H1, H2))
        ensures
            r.0 == self.spec_handler1(),
            r.1 == self.spec_handler2(),
    {
        (self.handler1, self.handler2)
    }

    /// Get a shared reference to handler1.
    pub fn handler1(&self) -> (r: &H1)
        ensures
            *r == self.spec_handler1(),
    {
        &self.handler1
    }

    /// Get a shared reference to handler2.
    pub fn handler2(&self) -> (r: &H2)
        ensures
            *r == self.spec_handler2(),
    {
        &self.handler2
    }
}

impl<H1: HandleControlFlow, H2: HandleControlFlow> HandleControlFlow for CombinedControlFlowHandler<
    H1,
    H2,
> {
    type Error = CombinedError<H1::Error, H2::Error>;

    type CachedKey = CombinedCachedKey<H1::CachedKey, H2::CachedKey>;

    fn at_decode_begin(&mut self) -> (r: Result<(), Self::Error>) {
        if let Err(e) = self.handler1.at_decode_begin() {
            return Err(CombinedError::H1Error(e));
        }
        if let Err(e) = self.handler2.at_decode_begin() {
            return Err(CombinedError::H2Error(e));
        }
        Ok(())
    }

    fn on_new_block(
        &mut self,
        block_addr: u64,
        transition_kind: ControlFlowTransitionKind,
        cache: bool,
    ) -> (r: Result<(), Self::Error>) {
        if let Err(e) = self.handler1.on_new_block(block_addr, transition_kind, cache) {
            return Err(CombinedError::H1Error(e));
        }
        if let Err(e) = self.handler2.on_new_block(block_addr, transition_kind, cache) {
            return Err(CombinedError::H2Error(e));
        }
        Ok(())
    }

    fn cache_prev_cached_key(&mut self, cached_key: Self::CachedKey) -> (r: Result<
        (),
        Self::Error,
    >) {
        if let Some(k) = cached_key.key1 {
            if let Err(e) = self.handler1.cache_prev_cached_key(k) {
                return Err(CombinedError::H1Error(e));
            }
        }
        if let Some(k) = cached_key.key2 {
            if let Err(e) = self.handler2.cache_prev_cached_key(k) {
                return Err(CombinedError::H2Error(e));
            }
        }
        Ok(())
    }

    fn take_cache(&mut self) -> (r: Result<Option<Self::CachedKey>, Self::Error>) {
        let cached_key1 = match self.handler1.take_cache() {
            Ok(c) => c,
            Err(e) => {
                return Err(CombinedError::H1Error(e));
            },
        };
        let cached_key2 = match self.handler2.take_cache() {
            Ok(c) => c,
            Err(e) => {
                return Err(CombinedError::H2Error(e));
            },
        };
        Ok(Some(CombinedCachedKey { key1: cached_key1, key2: cached_key2 }))
    }

    fn clear_current_cache(&mut self) -> (r: Result<(), Self::Error>) {
        if let Err(e) = self.handler1.clear_current_cache() {
            return Err(CombinedError::H1Error(e));
        }
        if let Err(e) = self.handler2.clear_current_cache() {
            return Err(CombinedError::H2Error(e));
        }
        Ok(())
    }

    fn on_reused_cache(&mut self, cached_key: &Self::CachedKey, new_bb: u64) -> (r: Result<
        (),
        Self::Error,
    >) {
        if let Some(k) = &cached_key.key1 {
            if let Err(e) = self.handler1.on_reused_cache(k, new_bb) {
                return Err(CombinedError::H1Error(e));
            }
        }
        if let Some(k) = &cached_key.key2 {
            if let Err(e) = self.handler2.on_reused_cache(k, new_bb) {
                return Err(CombinedError::H2Error(e));
            }
        }
        Ok(())
    }

    /// Either sub handler wanting a flush flushes the whole cache; the
    /// invalidation of cached keys never affects correctness, so the other
    /// handler keeps working.
    fn should_clear_all_cache(&mut self) -> (r: Result<bool, Self::Error>) {
        let should_clear1 = match self.handler1.should_clear_all_cache() {
            Ok(b) => b,
            Err(e) => {
                return Err(CombinedError::H1Error(e));
            },
        };
        let should_clear2 = match self.handler2.should_clear_all_cache() {
            Ok(b) => b,
            Err(e) => {
                return Err(CombinedError::H2Error(e));
            },
        };
        Ok(should_clear1 || should_clear2)
    }
}

/// The empty cached key of handlers that track nothing.
#[derive(Clone, Copy, Debug, PartialEq, Eq, Structural)]
pub struct NoCacheKey {
    /// Placeholder field
    pub nothing: bool,
}

/// A [`HandleControlFlow`] instance that validates the trace semantically
/// and ignores every transition.
pub struct PerfAnalyzerControlFlowHandler {
}

impl PerfAnalyzerControlFlowHandler {
    /// Create a new no-op handler.
    #[must_use]
    pub fn new() -> Self {
        PerfAnalyzerControlFlowHandler {  }
    }
}

impl Default for PerfAnalyzerControlFlowHandler {
    fn default() -> Self {
        PerfAnalyzerControlFlowHandler {  }
    }
}

impl HandleControlFlow for PerfAnalyzerControlFlowHandler {
    type Error = ();

    type CachedKey = NoCacheKey;

    fn at_decode_begin(&mut self) -> (r: Result<(), Self::Error>) {
        Ok(())
    }

    fn on_new_block(
        &mut self,
        block_addr: u64,
        transition_kind: ControlFlowTransitionKind,
        cache: bool,
    ) -> (r: Result<(), Self::Error>) {
        Ok(())
    }

    fn cache_prev_cached_key(&mut self, cached_key: Self::CachedKey) -> (r: Result<
        (),
        Self::Error,
    >) {
        Ok(())
    }

    fn take_cache(&mut self) -> (r: Result<Option<Self::CachedKey>, Self::Error>) {
        Ok(None)
    }

    fn clear_current_cache(&mut self) -> (r: Result<(), Self::Error>) {
        Ok(())
    }

    fn on_reused_cache(&mut self, cached_key: &Self::CachedKey, new_bb: u64) -> (r: Result<
        (),
        Self::Error,
    >) {
        Ok(())
    }

    fn should_clear_all_cache(&mut self) -> (r: Result<bool, Self::Error>) {
        Ok(false)
    }
}

} // verus!
