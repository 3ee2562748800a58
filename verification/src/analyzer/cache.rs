//! Control flow cache structures: three tiers of TNT-replay caches keyed by
//! `(basic block address, TNT bits)`.

use vstd::prelude::*;

verus! {

/// Compact representation of 1..=7 trailing TNT bits.
///
/// The low 8 bits hold the number of bits; the high 8 bits hold the bits
/// themselves (most significant first).
#[derive(Clone, Copy, Debug, PartialEq, Eq, Structural)]
pub struct TrailingBits {
    packed: u16,
}

impl TrailingBits {
    /// The packed value.
    pub closed spec fn spec_value(self) -> u16 {
        self.packed
    }

    /// Create a new trailing-bits key from the chunk byte (bits most
    /// significant first) and the number of valid bits.
    pub fn new(bits_byte: u8, remain_bits: u32) -> (r: Self)
        requires
            1 <= remain_bits <= 7,
        ensures
            r.spec_value() == remain_bits + 256 * (bits_byte as u16),
    {
        TrailingBits { packed: (remain_bits as u16) + 256 * (bits_byte as u16) }
    }
}

/// Value structure for the cache hash maps.
pub struct CachableInformation<D> {
    /// User-defined data from the control-flow handler
    pub user_data: D,
    /// The next basic block address after processing the cached TNT bits
    pub new_bb: u64,
}

/// Map from packed cache keys to indices into the information arena.
///
/// Holds a `hashbrown::HashMap<u128, usize>` whose behavior the contracts
/// of the methods below describe.
#[verifier::external_body]
struct CacheIndexMap {
    inner: hashbrown::HashMap<u128, usize>,
}

/// The entries held by a [`CacheIndexMap`].
pub uninterp spec fn cache_map_entries(m: CacheIndexMap) -> Map<u128, usize>;

impl CacheIndexMap {
    /// Relies on `hashbrown::HashMap::with_capacity`: a fresh map has no
    /// entries.
    #[verifier::external_body]
    fn new() -> (r: Self)
        ensures
            cache_map_entries(r).dom() == Set::<u128>::empty() && cache_map_entries(
                r,
            ).dom().finite(),
    {
        CacheIndexMap { inner: hashbrown::HashMap::with_capacity(0x100) }
    }

    /// Relies on `hashbrown::HashMap::get`: returns the value inserted for
    /// this key, `None` if the key has never been inserted.
    #[verifier::external_body]
    fn get(&self, key: u128) -> (r: Option<usize>)
        ensures
            match r {
                Some(v) => cache_map_entries(*self).contains_key(key) && cache_map_entries(
                    *self,
                )[key] == v,
                None => !cache_map_entries(*self).contains_key(key),
            },
    {
        self.inner.get(&key).copied()
    }

    /// Relies on `hashbrown::HashMap::insert`: the map afterwards holds
    /// `value` for `key` and is otherwise unchanged.
    #[verifier::external_body]
    fn insert(&mut self, key: u128, value: usize)
        ensures
            cache_map_entries(*final(self)) == cache_map_entries(*old(self)).insert(key, value),
            cache_map_entries(*old(self)).dom().finite() ==> cache_map_entries(
                *final(self),
            ).dom().finite(),
        no_unwind
    {
        self.inner.insert(key, value);
    }

    /// Relies on `hashbrown::HashMap::len`: the number of entries.
    #[verifier::external_body]
    fn len(&self) -> (r: usize)
        ensures
            cache_map_entries(*self).dom().finite() ==> r == cache_map_entries(*self).dom().len(),
    {
        self.inner.len()
    }
}

/// The packed key of the 8-bit cache.
pub open spec fn key8(start_bb: u64, byte: u8) -> u128 {
    (start_bb as u128 * 0x100 + byte as u128) as u128
}

/// The packed key of the 32-bit cache.
pub open spec fn key32(start_bb: u64, dword: u32) -> u128 {
    (start_bb as u128 * 0x1_0000_0000 + dword as u128) as u128
}

/// The packed key of the trailing-bits cache; `packed` is the
/// [`TrailingBits::spec_value`] of the bits.
pub open spec fn key_trailing(start_bb: u64, packed: u16) -> u128 {
    (start_bb as u128 * 0x1_0000 + packed as u128) as u128
}

/// Manager for control flow caches.
///
/// Only runs of TNT bits that completed without a deferred terminator are
/// cached. The cached `(user data, next basic block)` pairs live in a
/// grow-only arena; the tier maps hold arena indices.
pub struct ControlFlowCacheManager<D> {
    /// 8-bit-chunk cache
    cache8: CacheIndexMap,
    /// 32-bit-chunk cache
    cache32: CacheIndexMap,
    /// Trailing-bits cache
    cache_trailing_bits: CacheIndexMap,
    /// Arena of cached entries, indexed by the tier maps
    infos: Vec<CachableInformation<D>>,
}

impl<D> ControlFlowCacheManager<D> {
    /// The entry cached for 8 TNT bits from `start_bb`, as a
    /// `(next basic block, user data)` pair.
    pub closed spec fn spec_get8(self, start_bb: u64, byte: u8) -> Option<(u64, D)> {
        let m = cache_map_entries(self.cache8);
        if m.contains_key(key8(start_bb, byte)) && m[key8(start_bb, byte)] < self.infos@.len() {
            let info = self.infos@[m[key8(start_bb, byte)] as int];
            Some((info.new_bb, info.user_data))
        } else {
            None
        }
    }

    /// The entry cached for 32 TNT bits from `start_bb`.
    pub closed spec fn spec_get32(self, start_bb: u64, dword: u32) -> Option<(u64, D)> {
        let m = cache_map_entries(self.cache32);
        if m.contains_key(key32(start_bb, dword)) && m[key32(start_bb, dword)]
            < self.infos@.len() {
            let info = self.infos@[m[key32(start_bb, dword)] as int];
            Some((info.new_bb, info.user_data))
        } else {
            None
        }
    }

    /// The entry cached for 1..=7 trailing TNT bits from `start_bb`, keyed
    /// by the packed bits value.
    pub closed spec fn spec_get_trailing(self, start_bb: u64, packed: u16) -> Option<(u64, D)> {
        let m = cache_map_entries(self.cache_trailing_bits);
        if m.contains_key(key_trailing(start_bb, packed)) && m[key_trailing(start_bb, packed)]
            < self.infos@.len() {
            let info = self.infos@[m[key_trailing(start_bb, packed)] as int];
            Some((info.new_bb, info.user_data))
        } else {
            None
        }
    }

    /// True if the 8-bit tier holds an entry for the key.
    pub closed spec fn spec_has8(self, start_bb: u64, byte: u8) -> bool {
        cache_map_entries(self.cache8).contains_key(key8(start_bb, byte))
    }

    /// True if the 32-bit tier holds an entry for the key.
    pub closed spec fn spec_has32(self, start_bb: u64, dword: u32) -> bool {
        cache_map_entries(self.cache32).contains_key(key32(start_bb, dword))
    }

    /// True if the trailing-bits tier holds an entry for the key.
    pub closed spec fn spec_has_trailing(self, start_bb: u64, packed: u16) -> bool {
        cache_map_entries(self.cache_trailing_bits).contains_key(key_trailing(start_bb, packed))
    }

    /// Create a new [`ControlFlowCacheManager`] with empty caches.
    #[must_use]
    pub fn new() -> (r: Self)
        ensures
            forall|s: u64, b: u8| #[trigger] r.spec_get8(s, b) is None,
            forall|s: u64, d: u32| #[trigger] r.spec_get32(s, d) is None,
            forall|s: u64, t: u16| #[trigger] r.spec_get_trailing(s, t) is None,
    {
        ControlFlowCacheManager {
            cache8: CacheIndexMap::new(),
            cache32: CacheIndexMap::new(),
            cache_trailing_bits: CacheIndexMap::new(),
            infos: Vec::new(),
        }
    }

    /// Get the sizes of the trailing-bits cache, the 8-bit cache and the
    /// 32-bit cache, in that order.
    pub fn cache_size(&self) -> (r: (usize, usize, usize)) {
        (self.cache_trailing_bits.len(), self.cache8.len(), self.cache32.len())
    }

    /// Get the cached entry for 8 TNT bits.
    pub fn get_byte(&self, start_bb: u64, byte: u8) -> (r: Option<&CachableInformation<D>>)
        ensures
            match r {
                Some(info) => self.spec_get8(start_bb, byte) == Some((info.new_bb, info.user_data)),
                None => self.spec_get8(start_bb, byte) is None,
            },
    {
        let key = (start_bb as u128) * 0x100 + (byte as u128);
        match self.cache8.get(key) {
            Some(idx) => if idx < self.infos.len() {
                Some(&self.infos[idx])
            } else {
                None
            },
            None => None,
        }
    }

    /// Set the cache entry for 8 TNT bits.
    pub fn insert_byte(&mut self, start_bb: u64, byte: u8, info: CachableInformation<D>)
        ensures
            final(self).spec_get8(start_bb, byte) == Some((info.new_bb, info.user_data)),
            forall|s: u64, b: u8|
                !(s == start_bb && b == byte) && old(self).spec_get8(s, b) is Some
                    ==> #[trigger] final(self).spec_get8(s, b) == old(self).spec_get8(s, b),
            forall|s: u64, d: u32|
                old(self).spec_get32(s, d) is Some ==> #[trigger] final(self).spec_get32(s, d)
                    == old(self).spec_get32(s, d),
            forall|s: u64, t: u16|
                old(self).spec_get_trailing(s, t) is Some ==> #[trigger] final(self).spec_get_trailing(s, t) == old(self).spec_get_trailing(s, t),
            forall|s: u64, d: u32| #[trigger]
                final(self).spec_has32(s, d) == old(self).spec_has32(s, d),
            forall|s: u64, t: u16| #[trigger]
                final(self).spec_has_trailing(s, t) == old(self).spec_has_trailing(s, t),
    {
        let idx = self.infos.len();
        self.infos.push(info);
        let key = (start_bb as u128) * 0x100 + (byte as u128);
        self.cache8.insert(key, idx);
        proof {
            lemma_key8_injective();
            assert(key == key8(start_bb, byte));
            assert forall|s: u64, b: u8|
                !(s == start_bb && b == byte) && old(self).spec_get8(s, b) is Some implies #[trigger] self.spec_get8(s, b) == old(self).spec_get8(s, b) by {
                assert(key8(s, b) != key8(start_bb, byte));
            }
        }
    }

    /// Get the cached entry for 32 TNT bits.
    pub fn get_dword(&self, start_bb: u64, dword: u32) -> (r: Option<&CachableInformation<D>>)
        ensures
            match r {
                Some(info) => self.spec_get32(start_bb, dword) == Some(
                    (info.new_bb, info.user_data),
                ),
                None => self.spec_get32(start_bb, dword) is None,
            },
    {
        let key = (start_bb as u128) * 0x1_0000_0000 + (dword as u128);
        match self.cache32.get(key) {
            Some(idx) => if idx < self.infos.len() {
                Some(&self.infos[idx])
            } else {
                None
            },
            None => None,
        }
    }

    /// Set the cache entry for 32 TNT bits.
    pub fn insert_dword(&mut self, start_bb: u64, dword: u32, info: CachableInformation<D>)
        ensures
            final(self).spec_get32(start_bb, dword) == Some((info.new_bb, info.user_data)),
            forall|s: u64, d: u32|
                !(s == start_bb && d == dword) && old(self).spec_get32(s, d) is Some
                    ==> #[trigger] final(self).spec_get32(s, d) == old(self).spec_get32(s, d),
            forall|s: u64, b: u8|
                old(self).spec_get8(s, b) is Some ==> #[trigger] final(self).spec_get8(s, b)
                    == old(self).spec_get8(s, b),
            forall|s: u64, t: u16|
                old(self).spec_get_trailing(s, t) is Some ==> #[trigger] final(self).spec_get_trailing(s, t) == old(self).spec_get_trailing(s, t),
            forall|s: u64, b: u8| #[trigger] final(self).spec_has8(s, b) == old(self).spec_has8(
                s,
                b,
            ),
            forall|s: u64, t: u16| #[trigger]
                final(self).spec_has_trailing(s, t) == old(self).spec_has_trailing(s, t),
    {
        let idx = self.infos.len();
        self.infos.push(info);
        let key = (start_bb as u128) * 0x1_0000_0000 + (dword as u128);
        self.cache32.insert(key, idx);
        proof {
            lemma_key32_injective();
            assert(key == key32(start_bb, dword));
            assert forall|s: u64, d: u32|
                !(s == start_bb && d == dword) && old(self).spec_get32(s, d) is Some implies #[trigger] self.spec_get32(s, d) == old(self).spec_get32(s, d) by {
                assert(key32(s, d) != key32(start_bb, dword));
            }
        }
    }

    /// Get the cached entry for 1..=7 trailing TNT bits.
    pub fn get_trailing_bits(&self, start_bb: u64, trailing_bits: TrailingBits) -> (r: Option<
        &CachableInformation<D>,
    >)
        ensures
            match r {
                Some(info) => self.spec_get_trailing(start_bb, trailing_bits.spec_value()) == Some(
                    (info.new_bb, info.user_data),
                ),
                None => self.spec_get_trailing(start_bb, trailing_bits.spec_value()) is None,
            },
    {
        let key = (start_bb as u128) * 0x1_0000 + (trailing_bits.packed as u128);
        match self.cache_trailing_bits.get(key) {
            Some(idx) => if idx < self.infos.len() {
                Some(&self.infos[idx])
            } else {
                None
            },
            None => None,
        }
    }

    /// Set the cache entry for 1..=7 trailing TNT bits.
    pub fn insert_trailing_bits(
        &mut self,
        start_bb: u64,
        trailing_bits: TrailingBits,
        info: CachableInformation<D>,
    )
        ensures
            final(self).spec_get_trailing(start_bb, trailing_bits.spec_value()) == Some(
                (info.new_bb, info.user_data),
            ),
            forall|s: u64, t: u16|
                !(s == start_bb && t == trailing_bits.spec_value()) && old(self).spec_get_trailing(s, t) is Some ==> #[trigger] final(self).spec_get_trailing(
                    s,
                    t,
                ) == old(self).spec_get_trailing(s, t),
            forall|s: u64, b: u8|
                old(self).spec_get8(s, b) is Some ==> #[trigger] final(self).spec_get8(s, b)
                    == old(self).spec_get8(s, b),
            forall|s: u64, d: u32|
                old(self).spec_get32(s, d) is Some ==> #[trigger] final(self).spec_get32(s, d)
                    == old(self).spec_get32(s, d),
            forall|s: u64, b: u8| #[trigger] final(self).spec_has8(s, b) == old(self).spec_has8(
                s,
                b,
            ),
            forall|s: u64, d: u32| #[trigger]
                final(self).spec_has32(s, d) == old(self).spec_has32(s, d),
    {
        let idx = self.infos.len();
        self.infos.push(info);
        let key = (start_bb as u128) * 0x1_0000 + (trailing_bits.packed as u128);
        self.cache_trailing_bits.insert(key, idx);
        proof {
            lemma_key_trailing_injective();
            assert(key == key_trailing(start_bb, trailing_bits.spec_value()));
            assert forall|s: u64, t: u16|
                !(s == start_bb && t == trailing_bits.spec_value()) && old(self).spec_get_trailing(s, t) is Some implies #[trigger] self.spec_get_trailing(s, t)
                == old(self).spec_get_trailing(s, t) by {
                assert(key_trailing(s, t) != key_trailing(start_bb, trailing_bits.spec_value()));
            }
        }
    }
}

/// `c2` keeps every entry of `c1` (new entries may be added).
pub open spec fn cache_extends<D>(
    c1: ControlFlowCacheManager<D>,
    c2: ControlFlowCacheManager<D>,
) -> bool {
    &&& forall|s: u64, b: u8|
        (#[trigger] c1.spec_get8(s, b)) is Some ==> c2.spec_get8(s, b) == c1.spec_get8(s, b)
    &&& forall|s: u64, d: u32|
        (#[trigger] c1.spec_get32(s, d)) is Some ==> c2.spec_get32(s, d) == c1.spec_get32(s, d)
    &&& forall|s: u64, t: u16|
        (#[trigger] c1.spec_get_trailing(s, t)) is Some ==> c2.spec_get_trailing(s, t)
            == c1.spec_get_trailing(s, t)
}

/// `cache_extends` is transitive.
pub proof fn lemma_cache_extends_trans<D>(
    c1: ControlFlowCacheManager<D>,
    c2: ControlFlowCacheManager<D>,
    c3: ControlFlowCacheManager<D>,
)
    requires
        cache_extends(c1, c2),
        cache_extends(c2, c3),
    ensures
        cache_extends(c1, c3),
{
    assert forall|s: u64, b: u8| (#[trigger] c1.spec_get8(s, b)) is Some implies c3.spec_get8(s, b)
        == c1.spec_get8(s, b) by {
        assert(c2.spec_get8(s, b) == c1.spec_get8(s, b));
    }
    assert forall|s: u64, d: u32| (#[trigger] c1.spec_get32(s, d)) is Some implies c3.spec_get32(
        s,
        d,
    ) == c1.spec_get32(s, d) by {
        assert(c2.spec_get32(s, d) == c1.spec_get32(s, d));
    }
    assert forall|s: u64, t: u16| (#[trigger] c1.spec_get_trailing(s, t))
        is Some implies c3.spec_get_trailing(s, t) == c1.spec_get_trailing(s, t) by {
        assert(c2.spec_get_trailing(s, t) == c1.spec_get_trailing(s, t));
    }
}

/// Distinct `(block, bits)` pairs pack to distinct 8-bit cache keys.
proof fn lemma_key8_injective()
    ensures
        forall|s1: u64, b1: u8, s2: u64, b2: u8|
            #[trigger] key8(s1, b1) == #[trigger] key8(s2, b2) ==> s1 == s2 && b1 == b2,
{
    assert forall|s1: u64, b1: u8, s2: u64, b2: u8|
        #[trigger] key8(s1, b1) == #[trigger] key8(s2, b2) implies s1 == s2 && b1 == b2 by {
        assert(s1 as int * 0x100 + b1 == s2 as int * 0x100 + b2 ==> s1 == s2 && b1 == b2) by (
        nonlinear_arith)
            requires
                b1 < 0x100,
                b2 < 0x100,
        ;
    }
}

/// Distinct `(block, bits)` pairs pack to distinct 32-bit cache keys.
proof fn lemma_key32_injective()
    ensures
        forall|s1: u64, d1: u32, s2: u64, d2: u32|
            #[trigger] key32(s1, d1) == #[trigger] key32(s2, d2) ==> s1 == s2 && d1 == d2,
{
    assert forall|s1: u64, d1: u32, s2: u64, d2: u32|
        #[trigger] key32(s1, d1) == #[trigger] key32(s2, d2) implies s1 == s2 && d1 == d2 by {
        assert(s1 as int * 0x1_0000_0000 + d1 == s2 as int * 0x1_0000_0000 + d2 ==> s1 == s2 && d1
            == d2) by (nonlinear_arith)
            requires
                d1 < 0x1_0000_0000,
                d2 < 0x1_0000_0000,
        ;
    }
}

/// Distinct `(block, bits)` pairs pack to distinct trailing-bits cache keys.
proof fn lemma_key_trailing_injective()
    ensures
        forall|s1: u64, t1: u16, s2: u64, t2: u16|
            #[trigger] key_trailing(s1, t1) == #[trigger] key_trailing(s2, t2) ==> s1 == s2 && t1
                == t2,
{
    assert forall|s1: u64, t1: u16, s2: u64, t2: u16|
        #[trigger] key_trailing(s1, t1) == #[trigger] key_trailing(s2, t2) implies s1 == s2 && t1
        == t2 by {
        assert(s1 as int * 0x1_0000 + t1 == s2 as int * 0x1_0000 + t2 ==> s1 == s2 && t1 == t2)
            by (nonlinear_arith)
            requires
                t1 < 0x1_0000,
                t2 < 0x1_0000,
        ;
    }
}

} // verus!
