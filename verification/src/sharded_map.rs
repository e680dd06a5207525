//! A minimal sharded hash map for the profiler's own bookkeeping.
//!
//! Keys are `u64` throughout: stack hashes, instruction pointers and allocation addresses.  A key
//! belongs to the shard that the high 32 bits of [`mix64`] select, so a run of adjacent keys
//! (consecutive heap addresses, say) spreads evenly instead of piling into one shard.  The number
//! of shards is fixed at construction: four per CPU, rounded up to a power of two and clamped to
//! between 16 and 128, so that the index is a mask rather than a division.
//!
//! The map itself takes no lock: whoever shares one between threads guards it, with a lock that
//! never allocates and with the thread's allocator lock held.
use std::collections::hash_map::Entry;
use std::collections::HashMap;
use std::hash::Hasher;

use vstd::prelude::*;

verus! {

broadcast use vstd::std_specs::hash::group_hash_axioms;

/// Upper bound on shard count.  More shards means less contention but a bigger fixed footprint.
pub const MAX_SHARDS: usize = 128;

/// Lower bound on shard count, and the count used when the number of CPUs is unknown.
pub const DEFAULT_SHARDS: usize = 16;

/// Shards wanted for each CPU.
pub const SHARDS_PER_CORE: usize = 4;

/// The finalizer of MurmurHash3.
pub open spec fn mixed(x: u64) -> u64 {
    let a = x ^ (x >> 33);
    let b = a.wrapping_mul(0xff51afd7ed558ccd);
    let c = b ^ (b >> 33);
    let d = c.wrapping_mul(0xc4ceb9fe1a85ec53);
    d ^ (d >> 33)
}

/// Finalizer from MurmurHash3, applied to keys that are already integers.
pub fn mix64(x: u64) -> (r: u64)
    ensures
        r == mixed(x),
{
    let a: u64 = x ^ (x >> 33);
    let b: u64 = a.wrapping_mul(0xff51afd7ed558ccd);
    let c: u64 = b ^ (b >> 33);
    let d: u64 = c.wrapping_mul(0xc4ceb9fe1a85ec53);
    d ^ (d >> 33)
}

/// What a [`U64Hasher`] in state `state` holds after it has been fed `bytes`.
pub open spec fn mixed_bytes(state: u64, bytes: Seq<u8>) -> u64
    decreases bytes.len(),
{
    if bytes.len() == 0 {
        state
    } else {
        mixed(mixed_bytes(state, bytes.drop_last()) ^ (bytes.last() as u64))
    }
}

/// Hasher for `u64` keys.  Where keys are stack hashes and pointers, a single mixing round is enough
/// and costs far less than a general purpose hasher.
///
/// [`ShardedMap`] itself does not hash with it: its shards use the standard hasher, of which the
/// specification of `HashMap` is known to hold.
#[derive(Default)]
pub struct U64Hasher(pub u64);

impl Hasher for U64Hasher {
    fn finish(&self) -> (r: u64)
        ensures
            r == self.0,
    {
        self.0
    }

    fn write(&mut self, bytes: &[u8])
        ensures
            final(self).0 == mixed_bytes(old(self).0, bytes@),
    {
        let mut i: usize = 0;
        while i < bytes.len()
            invariant
                i <= bytes@.len(),
                self.0 == mixed_bytes(old(self).0, bytes@.take(i as int)),
            decreases bytes.len() - i,
        {
            self.0 = mix64(self.0 ^ (bytes[i] as u64));
            assert(bytes@.take(i + 1).drop_last() =~= bytes@.take(i as int));
            i += 1;
        }
        assert(bytes@.take(i as int) =~= bytes@);
    }

    fn write_u64(&mut self, n: u64)
        ensures
            final(self).0 == mixed(n),
            crate::laws::maps::unmixed(final(self).0) == n,
    {
        proof {
            crate::laws::maps::law_mixing_can_be_undone(n);
        }
        self.0 = mix64(n);
    }

    fn write_usize(&mut self, n: usize)
        ensures
            final(self).0 == mixed(n as u64),
            crate::laws::maps::unmixed(final(self).0) == n,
    {
        self.write_u64(n as u64);
    }
}

/// Doubles `count` until it reaches `wanted` or [`MAX_SHARDS`].
pub open spec fn doubled_to_reach(count: nat, wanted: nat) -> nat
    decreases 2 * MAX_SHARDS - count,
{
    if count == 0 || count >= wanted || count >= MAX_SHARDS {
        count
    } else {
        doubled_to_reach(2 * count, wanted)
    }
}

/// The number of shards of a map made on a machine with that many CPUs, `None` where the number
/// is unknown: four for each CPU, rounded up to a power of two, at least 16 and at most 128.
pub open spec fn shard_count(cpus: Option<usize>) -> nat {
    match cpus {
        Some(n) => doubled_to_reach(DEFAULT_SHARDS as nat, (n * SHARDS_PER_CORE) as nat),
        None => DEFAULT_SHARDS as nat,
    }
}

/// The shard that a key belongs to in a map of `num_shards` shards.
pub open spec fn shard_index(key: u64, num_shards: nat) -> nat {
    (mixed(key) >> 32) as nat % num_shards
}

/// Whether `keys` lists every key of `m` exactly once.
pub open spec fn lists_keys<V>(m: Map<u64, V>, keys: Seq<u64>) -> bool {
    &&& keys.no_duplicates()
    &&& forall|k: u64| m.contains_key(k) <==> #[trigger] keys.contains(k)
}

/// How many entries each of `num_shards` shards is preallocated for in a map of `capacity`: its
/// even share, so that a map with a smaller capacity than shards starts with nothing allocated.
pub fn shard_capacity(capacity: usize, num_shards: usize) -> (r: usize)
    requires
        num_shards > 0,
    ensures
        r == capacity as int / num_shards as int,
{
    capacity / num_shards
}

/// A `u64`-keyed map over a fixed number of hash maps.
pub struct ShardedMap<V> {
    shards: Vec<HashMap<u64, V>>,
    shard_mask: usize,
}

impl<V> View for ShardedMap<V> {
    type V = Map<u64, V>;

    closed spec fn view(&self) -> Map<u64, V> {
        Map::new(
            |k: u64| self.shards@[shard_index(k, self.num_shards()) as int]@.contains_key(k),
            |k: u64| self.shards@[shard_index(k, self.num_shards()) as int]@[k],
        )
    }
}

impl<V> ShardedMap<V> {
    /// How many shards the map has.
    pub closed spec fn num_shards(&self) -> nat {
        self.shards@.len()
    }

    /// The shard count is a power of two within its bounds, and every entry is in its key's shard.
    pub closed spec fn wf(&self) -> bool {
        &&& self.shards@.len() == 16 || self.shards@.len() == 32 || self.shards@.len() == 64
            || self.shards@.len() == 128
        &&& self.shard_mask == self.shards@.len() - 1
        &&& forall|i: int, k: u64|
            0 <= i < self.shards@.len() && #[trigger] self.shards@[i]@.contains_key(k)
                ==> shard_index(k, self.num_shards()) == i
    }

    /// Creates a map preallocated for roughly `capacity` total entries, split across shards.
    /// `cpus` is the number of CPUs, where it is known.
    pub fn with_capacity(capacity: usize, cpus: Option<usize>) -> (map: Self)
        ensures
            map.wf(),
            map@ == Map::<u64, V>::empty(),
            map.num_shards() == shard_count(cpus),
    {
        proof {
            reveal_with_fuel(doubled_to_reach, 5);
        }
        let num_shards: usize = match cpus {
            Some(n) => if n <= 4 {
                16
            } else if n <= 8 {
                32
            } else if n <= 16 {
                64
            } else {
                128
            },
            None => DEFAULT_SHARDS,
        };
        let per_shard: usize = shard_capacity(capacity, num_shards);
        let mut shards: Vec<HashMap<u64, V>> = Vec::with_capacity(num_shards);
        while shards.len() < num_shards
            invariant
                shards@.len() <= num_shards,
                forall|i: int| 0 <= i < shards@.len() ==> #[trigger] shards@[i]@ == Map::<u64, V>::empty(),
            decreases num_shards - shards.len(),
        {
            shards.push(HashMap::with_capacity(per_shard));
        }
        let map = ShardedMap { shards, shard_mask: num_shards - 1 };
        assert(map@ =~= Map::<u64, V>::empty());
        map
    }

    /// The shard that `key` belongs to, by the high bits of the mixed key.  Within its shard a key is
    /// found by the standard hasher, which has nothing to do with these bits.
    pub fn shard_of(&self, key: u64) -> (i: usize)
        requires
            self.wf(),
        ensures
            i == shard_index(key, self.num_shards()),
            i < self.num_shards(),
    {
        let high: u64 = mix64(key) >> 32;
        assert(high <= 0xffff_ffff) by (bit_vector)
            requires
                high == mixed(key) >> 32,
        ;
        let h: usize = high as usize;
        proof {
            assert(h & 15 == h % 16) by (bit_vector);
            assert(h & 31 == h % 32) by (bit_vector);
            assert(h & 63 == h % 64) by (bit_vector);
            assert(h & 127 == h % 128) by (bit_vector);
        }
        h & self.shard_mask
    }

    /// The number of shards, which never changes.
    pub fn shards_len(&self) -> (n: usize)
        ensures
            n == self.num_shards(),
    {
        self.shards.len()
    }

    /// Whether the map has an entry for `key`.
    pub fn contains_key(&self, key: u64) -> (r: bool)
        requires
            self.wf(),
        ensures
            r == self@.contains_key(key),
    {
        self.shards[self.shard_of(key)].contains_key(&key)
    }

    /// The value for `key`.
    pub fn get(&self, key: u64) -> (r: Option<&V>)
        requires
            self.wf(),
        ensures
            r == (if self@.contains_key(key) {
                Some(&self@[key])
            } else {
                None
            }),
    {
        self.shards[self.shard_of(key)].get(&key)
    }

    /// Sets the value for `key` and hands back the one it replaces.
    pub fn insert(&mut self, key: u64, value: V) -> (r: Option<V>)
        requires
            old(self).wf(),
        ensures
            final(self).wf(),
            final(self).num_shards() == old(self).num_shards(),
            final(self)@ == old(self)@.insert(key, value),
            r == (if old(self)@.contains_key(key) {
                Some(old(self)@[key])
            } else {
                None
            }),
    {
        let i: usize = self.shard_of(key);
        let r = self.shards[i].insert(key, value);
        assert(self@ =~= old(self)@.insert(key, value));
        r
    }

    /// Removes the entry for `key` and hands back its value.
    pub fn remove(&mut self, key: u64) -> (r: Option<V>)
        requires
            old(self).wf(),
        ensures
            final(self).wf(),
            final(self).num_shards() == old(self).num_shards(),
            final(self)@ == old(self)@.remove(key),
            r == (if old(self)@.contains_key(key) {
                Some(old(self)@[key])
            } else {
                None
            }),
    {
        let i: usize = self.shard_of(key);
        let r = self.shards[i].remove(&key);
        assert(self@ =~= old(self)@.remove(key));
        r
    }

    /// Updates the entry for `key` in place if present, otherwise inserts what `create` returns.
    /// `create` is only called when the key is absent.
    pub fn update_or_insert_with(
        &mut self,
        key: u64,
        update: impl FnOnce(&mut V),
        create: impl FnOnce() -> V,
    )
        requires
            old(self).wf(),
            old(self)@.contains_key(key) ==> forall|v: &mut V|
                *v == old(self)@[key] ==> call_requires(update, (v,)),
            !old(self)@.contains_key(key) ==> call_requires(create, ()),
        ensures
            final(self).wf(),
            final(self).num_shards() == old(self).num_shards(),
            final(self)@.dom() == old(self)@.dom().insert(key),
            old(self)@.contains_key(key) ==> exists|v: &mut V|
                *v == old(self)@[key] && call_ensures(update, (v,), ()) && final(self)@ == old(
                    self,
                )@.insert(key, *final(v)),
            !old(self)@.contains_key(key) ==> exists|v: V|
                call_ensures(create, (), v) && final(self)@ == old(self)@.insert(key, v),
    {
        let i: usize = self.shard_of(key);
        match self.shards[i].entry(key) {
            Entry::Occupied(entry) => {
                let v: &mut V = entry.into_mut();
                update(v);
            },
            Entry::Vacant(entry) => {
                let v = create();
                entry.insert(v);
            },
        }
        assert(self@ =~= old(self)@.insert(key, self@[key]));
    }

    /// Updates the entry for `key` in place if it exists; does nothing otherwise.
    pub fn update(&mut self, key: u64, update: impl FnOnce(&mut V))
        requires
            old(self).wf(),
            old(self)@.contains_key(key) ==> forall|v: &mut V|
                *v == old(self)@[key] ==> call_requires(update, (v,)),
        ensures
            final(self).wf(),
            final(self).num_shards() == old(self).num_shards(),
            final(self)@.dom() == old(self)@.dom(),
            old(self)@.contains_key(key) ==> exists|v: &mut V|
                *v == old(self)@[key] && call_ensures(update, (v,), ()) && final(self)@ == old(
                    self,
                )@.insert(key, *final(v)),
            !old(self)@.contains_key(key) ==> final(self)@ == old(self)@,
    {
        let i: usize = self.shard_of(key);
        match self.shards[i].entry(key) {
            Entry::Occupied(entry) => {
                let v: &mut V = entry.into_mut();
                update(v);
            },
            Entry::Vacant(_) => {},
        }
        proof {
            if old(self)@.contains_key(key) {
                assert(self@ =~= old(self)@.insert(key, self@[key]));
            } else {
                assert(self@ =~= old(self)@);
            }
        }
    }

    /// Runs `f` against the value for `key`.
    pub fn with_value<R>(&self, key: u64, f: impl FnOnce(Option<&V>) -> R) -> (r: R)
        requires
            self.wf(),
            call_requires(
                f,
                (if self@.contains_key(key) {
                    Some(&self@[key])
                } else {
                    None
                },),
            ),
        ensures
            call_ensures(
                f,
                (if self@.contains_key(key) {
                    Some(&self@[key])
                } else {
                    None
                },),
                r,
            ),
    {
        f(self.get(key))
    }

    /// The keys in the first `n` shards.
    closed spec fn keys_before(&self, n: int) -> Set<u64> {
        Set::new(
            |k: u64| self@.contains_key(k) && shard_index(k, self.num_shards()) < n,
        )
    }

    proof fn lemma_keys_before_step(&self, n: int)
        requires
            self.wf(),
            0 <= n < self.num_shards(),
            self.keys_before(n).finite(),
        ensures
            self.keys_before(n + 1) == self.keys_before(n).union(self.shards@[n]@.dom()),
            self.keys_before(n + 1).finite(),
            self.keys_before(n + 1).len() == self.keys_before(n).len() + self.shards@[n]@.dom().len(),
    {
        let before = self.keys_before(n);
        let here = self.shards@[n]@.dom();
        assert(self.keys_before(n + 1) =~= before.union(here));
        assert(before.disjoint(here));
        vstd::set_lib::lemma_set_disjoint_lens(before, here);
    }

    /// The number of entries, or `usize::MAX` if there are more than that.
    pub fn len(&self) -> (n: usize)
        requires
            self.wf(),
        ensures
            self@.dom().finite(),
            n == (if self@.len() <= usize::MAX {
                self@.len()
            } else {
                usize::MAX as nat
            }),
    {
        let mut n: usize = 0;
        let mut i: usize = 0;
        assert(self.keys_before(0) =~= Set::empty());
        while i < self.shards.len()
            invariant
                self.wf(),
                i <= self.num_shards(),
                self.keys_before(i as int).finite(),
                n == (if self.keys_before(i as int).len() <= usize::MAX {
                    self.keys_before(i as int).len()
                } else {
                    usize::MAX as nat
                }),
            decreases self.shards.len() - i,
        {
            proof {
                self.lemma_keys_before_step(i as int);
            }
            n = n.saturating_add(self.shards[i].len());
            i += 1;
        }
        assert(self.keys_before(i as int) =~= self@.dom());
        n
    }

    /// Projects every entry through `f` and collects the results, without cloning the values.
    /// The entries come in no particular order.
    pub fn map_to_vec<T>(&self, f: impl Fn(u64, &V) -> T) -> (out: Vec<T>)
        requires
            self.wf(),
            forall|k: u64, v: &V|
                self@.contains_key(k) && *v == self@[k] ==> #[trigger] call_requires(f, (k, v)),
        ensures
            exists|keys: Seq<u64>| #[trigger]
                lists_keys(self@, keys) && keys.len() == out@.len() && forall|i: int|
                    0 <= i < out@.len() ==> call_ensures(
                        f,
                        (keys[i], &self@[keys[i]]),
                        #[trigger] out@[i],
                    ),
    {
        let ghost mut keys: Seq<u64> = Seq::empty();
        let mut out: Vec<T> = Vec::with_capacity(self.len());
        let mut i: usize = 0;
        while i < self.shards.len()
            invariant
                self.wf(),
                i <= self.num_shards(),
                forall|k: u64, v: &V|
                    self@.contains_key(k) && *v == self@[k] ==> #[trigger] call_requires(f, (k, v)),
                keys.no_duplicates(),
                forall|k: u64| #[trigger]
                    keys.contains(k) <==> self@.contains_key(k) && shard_index(k, self.num_shards())
                        < i,
                keys.len() == out@.len(),
                forall|j: int|
                    0 <= j < out@.len() ==> call_ensures(
                        f,
                        (keys[j], &self@[keys[j]]),
                        #[trigger] out@[j],
                    ),
            decreases self.shards.len() - i,
        {
            let shard = &self.shards[i];
            let ghost before = keys;
            let entries = shard.iter();
            let ghost listed = vstd::std_specs::iter::IteratorSpec::remaining(
                &vstd::std_specs::hash::spec_hash_map_iter(shard),
            );
            assert(listed.no_duplicates());
            for (key, value) in it: entries
                invariant
                    self.wf(),
                    i < self.num_shards(),
                    *shard == self.shards@[i as int],
                    forall|k: u64, v: &V|
                        self@.contains_key(k) && *v == self@[k] ==> #[trigger] call_requires(
                            f,
                            (k, v),
                        ),
                    it.seq() == listed,
                    listed == vstd::std_specs::iter::IteratorSpec::remaining(
                        &vstd::std_specs::hash::spec_hash_map_iter(shard),
                    ),
                    keys == before + Seq::new(it.index() as nat, |j: int| *it.seq()[j].0),
                    keys.len() == out@.len(),
                    forall|j: int|
                        0 <= j < out@.len() ==> call_ensures(
                            f,
                            (keys[j], &self@[keys[j]]),
                            #[trigger] out@[j],
                        ),
            {
                assert(shard@.contains_key(*key) && shard@[*key] == *value);
                assert(shard_index(*key, self.num_shards()) == i);
                assert(self@.contains_key(*key) && self@[*key] == *value);
                out.push(f(*key, value));
                proof {
                    keys = keys.push(*key);
                    assert(keys =~= before + Seq::new(
                        (it.index() + 1) as nat,
                        |j: int| *it.seq()[j].0,
                    ));
                }
            }
            proof {
                let added = Seq::new(listed.len(), |j: int| *listed[j].0);
                assert(keys =~= before + added);
                assert forall|j: int| 0 <= j < added.len() implies shard@.contains_key(
                    #[trigger] added[j],
                ) && listed[j] == (&added[j], &shard@[added[j]]) by {
                    assert(shard@.contains_key(*listed[j].0));
                }
                assert forall|k: u64| #[trigger] keys.contains(k) implies self@.contains_key(k)
                    && shard_index(k, self.num_shards()) < i + 1 by {
                    let j = choose|j: int| 0 <= j < keys.len() && keys[j] == k;
                    if j < before.len() {
                        assert(before.contains(before[j]));
                    } else {
                        assert(shard@.contains_key(added[j - before.len()]));
                    }
                }
                assert forall|k: u64|
                    self@.contains_key(k) && shard_index(k, self.num_shards()) < i
                        + 1 implies #[trigger] keys.contains(k) by {
                    if shard_index(k, self.num_shards()) < i {
                        assert(before.contains(k));
                        let j = choose|j: int| 0 <= j < before.len() && before[j] == k;
                        assert(keys[j] == k);
                    } else {
                        assert(shard@.contains_key(k));
                        assert(listed.contains((&k, &shard@[k])));
                        let j = choose|j: int|
                            0 <= j < listed.len() && listed[j] == (&k, &shard@[k]);
                        assert(keys[before.len() + j] == k);
                    }
                }
                assert forall|a: int, b: int| 0 <= a < b < keys.len() implies keys[a] != keys[b] by {
                    if b < before.len() {
                        assert(before[a] != before[b]);
                    } else if a < before.len() {
                        assert(before.contains(before[a]));
                        assert(shard@.contains_key(added[b - before.len()]));
                    } else {
                        assert(listed[a - before.len()] != listed[b - before.len()]);
                        assert(shard@.contains_key(added[a - before.len()]));
                        assert(shard@.contains_key(added[b - before.len()]));
                    }
                }
            }
            i += 1;
        }
        assert(lists_keys(self@, keys));
        out
    }

    /// Removes every entry.
    pub fn clear(&mut self)
        requires
            old(self).wf(),
        ensures
            final(self).wf(),
            final(self).num_shards() == old(self).num_shards(),
            final(self)@ == Map::<u64, V>::empty(),
    {
        let n: usize = self.shards.len();
        let mut i: usize = 0;
        while i < n
            invariant
                i <= n,
                n == self.shards@.len(),
                n == old(self).shards@.len(),
                self.shard_mask == old(self).shard_mask,
                forall|j: int| 0 <= j < i ==> #[trigger] self.shards@[j]@ == Map::<u64, V>::empty(),
            decreases n - i,
        {
            self.shards[i].clear();
            i += 1;
        }
        assert(self@ =~= Map::<u64, V>::empty());
    }
}

impl<V: Clone> ShardedMap<V> {
    /// A clone of the value for `key`.
    pub fn get_cloned(&self, key: u64) -> (r: Option<V>)
        requires
            self.wf(),
        ensures
            r is Some <==> self@.contains_key(key),
            r matches Some(v) ==> cloned(self@[key], v),
    {
        match self.get(key) {
            Some(v) => Some(v.clone()),
            None => None,
        }
    }
}

/// Whatever the number of CPUs, the number of shards is a power of two from 16 to 128, it is at least
/// four for each CPU unless that is more than 128, and every key belongs to exactly one shard.
pub proof fn law_every_key_has_its_shard(cpus: Option<usize>, key: u64)
    ensures
        ({
            let n = shard_count(cpus);
            &&& n == 16 || n == 32 || n == 64 || n == 128
            &&& cpus matches Some(cpus) ==> n >= 4 * cpus || n == 128
            &&& cpus is None ==> n == 16
            &&& shard_index(key, n) < n
        }),
{
    reveal_with_fuel(doubled_to_reach, 5);
}

} // verus!
