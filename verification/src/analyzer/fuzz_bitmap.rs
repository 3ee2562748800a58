//! Fuzz bitmap control flow handler: folds basic-block transitions into a
//! coverage bitmap, with cached per-run contributions.

use vstd::prelude::*;

use crate::analyzer::handler::{ControlFlowTransitionKind, HandleControlFlow};

verus! {

/// Compact representation of a `(position, count)` pair used for the
/// fuzzing bitmap: the low 24 bits hold the position, the high 8 bits the
/// count.
#[derive(Clone, Copy, Debug, PartialEq, Eq, Structural)]
pub struct CompactBitmapEntry {
    value: u32,
}

impl CompactBitmapEntry {
    /// The bitmap position.
    pub closed spec fn spec_index(self) -> int {
        (self.value % 0x100_0000) as int
    }

    /// The recorded count.
    pub closed spec fn spec_count(self) -> int {
        (self.value / 0x100_0000) as int
    }

    /// Create a new compact bitmap entry; the index must fit in 24 bits.
    fn new(bitmap_index: usize, bitmap_count: u8) -> (r: Self)
        requires
            bitmap_index <= 0xFF_FFFF,
        ensures
            r.spec_index() == bitmap_index,
            r.spec_count() == bitmap_count,
    {
        let r = CompactBitmapEntry {
            value: (bitmap_index as u32) + 0x100_0000 * (bitmap_count as u32),
        };
        proof {
            let i = bitmap_index as u32;
            let c = bitmap_count as u32;
            assert((i + 0x100_0000 * c) % 0x100_0000 == i && (i + 0x100_0000 * c) / 0x100_0000
                == c) by (nonlinear_arith)
                requires
                    i <= 0xFF_FFFF,
                    c <= 0xFF,
            ;
        }
        r
    }

    /// Get the bitmap position.
    fn bitmap_index(self) -> (r: usize)
        ensures
            r == self.spec_index(),
    {
        (self.value % 0x100_0000) as usize
    }

    /// Get the recorded count.
    fn bitmap_count(self) -> (r: u8)
        ensures
            r == self.spec_count(),
    {
        (self.value / 0x100_0000) as u8
    }
}

/// Cached key of the [`FuzzBitmapControlFlowHandler`]: a range into the
/// handler's arena of bitmap entries (start inclusive, end exclusive; the
/// arena keeps a dummy first element so indices are never zero).
#[derive(Clone, Copy, Debug, PartialEq, Eq, Structural)]
pub struct PerCacheBitmapEntries {
    /// Start of the range, inclusive
    start: u32,
    /// End of the range, exclusive
    end: u32,
}

/// A [`HandleControlFlow`] implementation that maintains a fuzzing bitmap.
pub struct FuzzBitmapControlFlowHandler {
    /// Bitmap positions already recorded for the current cacheable run
    per_cache_recorded_bitmap_indices: Vec<u32>,
    /// Per-run counterpart of the fuzzing bitmap
    per_cache_bitmap: Vec<u8>,
    /// Arena backing the cached keys; always holds a dummy first element
    bitmap_entries_arena: Vec<CompactBitmapEntry>,
    /// The maintained fuzzing bitmap
    fuzzing_bitmap: Vec<u8>,
    /// Previous location used for the bitmap index computation
    prev_loc: u64,
}

/// Diagnostic information of a [`FuzzBitmapControlFlowHandler`].
pub struct FuzzBitmapDiagnosticInformation {
    /// Number of raw bitmap entries stored in the cache arena
    pub bitmap_entries_count: usize,
}

impl FuzzBitmapControlFlowHandler {
    /// The maintained bitmap.
    pub closed spec fn spec_bitmap(&self) -> Seq<u8> {
        self.fuzzing_bitmap@
    }

    /// Create a new fuzz bitmap control flow handler over the given
    /// bitmap buffer.
    pub fn new(fuzzing_bitmap: Vec<u8>) -> (r: Self)
        ensures
            r.spec_bitmap() == fuzzing_bitmap@,
    {
        let bitmap_size = fuzzing_bitmap.len();
        let mut per_cache_bitmap: Vec<u8> = Vec::new();
        let mut i: usize = 0;
        while i < bitmap_size
            invariant
                i <= bitmap_size,
                per_cache_bitmap@.len() == i,
            decreases bitmap_size - i,
        {
            per_cache_bitmap.push(0);
            i = i + 1;
        }
        let mut bitmap_entries_arena: Vec<CompactBitmapEntry> = Vec::new();
        bitmap_entries_arena.push(CompactBitmapEntry { value: 0 });
        FuzzBitmapControlFlowHandler {
            per_cache_recorded_bitmap_indices: Vec::new(),
            per_cache_bitmap,
            bitmap_entries_arena,
            fuzzing_bitmap,
            prev_loc: 0,
        }
    }

    /// Consume the handler and return the bitmap.
    pub fn into_bitmap(self) -> (r: Vec<u8>)
        ensures
            r@ == self.spec_bitmap(),
    {
        self.fuzzing_bitmap
    }

    /// Get diagnostic information.
    #[must_use]
    pub fn diagnose(&self) -> FuzzBitmapDiagnosticInformation {
        FuzzBitmapDiagnosticInformation {
            bitmap_entries_count: self.bitmap_entries_arena.len(),
        }
    }

    /// Update `prev_loc` and compute the bitmap index of the transition to
    /// `new_loc`.
    fn on_new_loc(&mut self, new_loc: u64) -> (r: usize)
        requires
            old(self).spec_bitmap().len() > 0,
        ensures
            r < final(self).spec_bitmap().len(),
            final(self).spec_bitmap() == old(self).spec_bitmap(),
    {
        let modulus = self.fuzzing_bitmap.len() as u64;
        let mixed = self.prev_loc ^ new_loc;
        let bitmap_index = mixed % modulus;
        self.set_new_loc(new_loc);
        proof {
            assert(bitmap_index < modulus) by (nonlinear_arith)
                requires
                    modulus > 0,
                    bitmap_index == mixed % modulus,
            ;
        }
        bitmap_index as usize
    }

    /// Set `prev_loc` without computing a bitmap index.
    fn set_new_loc(&mut self, new_loc: u64)
        ensures
            final(self).spec_bitmap() == old(self).spec_bitmap(),
    {
        self.prev_loc = new_loc >> 1u64;
    }
}

impl HandleControlFlow for FuzzBitmapControlFlowHandler {
    /// This handler never fails
    type Error = ();

    type CachedKey = PerCacheBitmapEntries;

    fn at_decode_begin(&mut self) -> (r: Result<(), Self::Error>) {
        self.prev_loc = 0;
        let res = self.clear_current_cache();
        res
    }

    fn on_new_block(
        &mut self,
        block_addr: u64,
        transition_kind: ControlFlowTransitionKind,
        cache: bool,
    ) -> (r: Result<(), Self::Error>) {
        match transition_kind {
            ControlFlowTransitionKind::ConditionalBranch
            | ControlFlowTransitionKind::IndirectJump
            | ControlFlowTransitionKind::IndirectCall
            | ControlFlowTransitionKind::FarTransfer => {
                if self.fuzzing_bitmap.len() == 0 {
                    return Ok(());
                }
                let bitmap_index = self.on_new_loc(block_addr);
                let count = self.fuzzing_bitmap[bitmap_index];
                self.fuzzing_bitmap[bitmap_index] = count.wrapping_add(1);
                if cache && bitmap_index < self.per_cache_bitmap.len() && bitmap_index
                    <= 0xFF_FFFF {
                    let per_count = self.per_cache_bitmap[bitmap_index];
                    if per_count == 0 {
                        self.per_cache_recorded_bitmap_indices.push(bitmap_index as u32);
                    }
                    self.per_cache_bitmap[bitmap_index] = per_count.wrapping_add(1);
                }
            },
            ControlFlowTransitionKind::NewBlock => {
                self.set_new_loc(block_addr);
            },
            ControlFlowTransitionKind::Return
            | ControlFlowTransitionKind::DirectJump
            | ControlFlowTransitionKind::DirectCall => {},
        }
        Ok(())
    }

    fn cache_prev_cached_key(&mut self, cached_key: Self::CachedKey) -> (r: Result<
        (),
        Self::Error,
    >) {
        let mut i: usize = cached_key.start as usize;
        let end: usize = cached_key.end as usize;
        while i < end
            invariant
                true,
            decreases end - i,
        {
            if i >= self.bitmap_entries_arena.len() {
                return Ok(());
            }
            let entry = self.bitmap_entries_arena[i];
            let bitmap_index = entry.bitmap_index();
            if bitmap_index < self.per_cache_bitmap.len() && bitmap_index <= 0xFF_FFFF {
                let per_count = self.per_cache_bitmap[bitmap_index];
                if per_count == 0 {
                    self.per_cache_recorded_bitmap_indices.push(bitmap_index as u32);
                }
                self.per_cache_bitmap[bitmap_index] = per_count.wrapping_add(
                    entry.bitmap_count(),
                );
            }
            i = i + 1;
        }
        Ok(())
    }

    fn clear_current_cache(&mut self) -> (r: Result<(), Self::Error>) {
        let mut i: usize = 0;
        while i < self.per_cache_recorded_bitmap_indices.len()
            invariant
                true,
            decreases self.per_cache_recorded_bitmap_indices@.len() - i,
        {
            let bitmap_index = self.per_cache_recorded_bitmap_indices[i] as usize;
            if bitmap_index < self.per_cache_bitmap.len() {
                self.per_cache_bitmap[bitmap_index] = 0;
            }
            i = i + 1;
        }
        self.per_cache_recorded_bitmap_indices.clear();
        Ok(())
    }

    fn take_cache(&mut self) -> (r: Result<Option<Self::CachedKey>, Self::Error>) {
        let start_index = self.bitmap_entries_arena.len();
        let mut i: usize = 0;
        while i < self.per_cache_recorded_bitmap_indices.len()
            invariant
                true,
            decreases self.per_cache_recorded_bitmap_indices@.len() - i,
        {
            let bitmap_index = self.per_cache_recorded_bitmap_indices[i] as usize;
            if bitmap_index < self.per_cache_bitmap.len() && bitmap_index <= 0xFF_FFFF {
                let count = self.per_cache_bitmap[bitmap_index];
                let entry = CompactBitmapEntry::new(bitmap_index, count);
                self.bitmap_entries_arena.push(entry);
                self.per_cache_bitmap[bitmap_index] = 0;
            }
            i = i + 1;
        }
        self.per_cache_recorded_bitmap_indices.clear();
        let end_index = self.bitmap_entries_arena.len();
        if start_index == end_index {
            // No new bitmap entries
            return Ok(None);
        }
        if start_index > u32::MAX as usize || end_index > u32::MAX as usize {
            return Ok(None);
        }
        Ok(Some(PerCacheBitmapEntries { start: start_index as u32, end: end_index as u32 }))
    }

    fn on_reused_cache(&mut self, cached_key: &Self::CachedKey, new_bb: u64) -> (r: Result<
        (),
        Self::Error,
    >) {
        let mut i: usize = cached_key.start as usize;
        let end: usize = cached_key.end as usize;
        while i < end
            invariant
                true,
            decreases end - i,
        {
            if i >= self.bitmap_entries_arena.len() {
                break ;
            }
            let entry = self.bitmap_entries_arena[i];
            let bitmap_index = entry.bitmap_index();
            if bitmap_index < self.fuzzing_bitmap.len() {
                let count = self.fuzzing_bitmap[bitmap_index];
                self.fuzzing_bitmap[bitmap_index] = count.wrapping_add(entry.bitmap_count());
            }
            i = i + 1;
        }
        self.set_new_loc(new_bb);
        Ok(())
    }

    fn should_clear_all_cache(&mut self) -> (r: Result<bool, Self::Error>) {
        Ok(false)
    }
}

} // verus!
