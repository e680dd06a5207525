//! How keys are mixed and spread, and what maps keep.
use vstd::prelude::*;

use crate::profiler::YingProfiler;
use crate::sharded_map::{mix64, shard_capacity, ShardedMap};
use crate::state::{MapSizing, StateView, YingState};

verus! {

/// What mixes to `y`: each step of mixing undone, from the last to the first.
pub open spec fn unmixed(y: u64) -> u64 {
    let d = y ^ (y >> 33);
    let c = d.wrapping_mul(0x9cb4b2f8129337db);
    let b = c ^ (c >> 33);
    let a = b.wrapping_mul(0x4f74430c22a54005);
    a ^ (a >> 33)
}

proof fn lemma_product_undone(x: u64, factor: u64, inverse: u64, quotient: int)
    requires
        factor * inverse == 1 + quotient * 0x1_0000_0000_0000_0000,
    ensures
        x.wrapping_mul(factor).wrapping_mul(inverse) == x,
{
    let m: int = 0x1_0000_0000_0000_0000;
    let once = x * factor;
    assert(x.wrapping_mul(factor) as int == once % m);
    assert(x.wrapping_mul(factor).wrapping_mul(inverse) as int == ((once % m) * inverse) % m);
    vstd::arithmetic::div_mod::lemma_mul_mod_noop_left(once, inverse as int, m);
    assert(once * inverse == m * (x * quotient) + x) by (nonlinear_arith)
        requires
            once == x * factor,
            factor * inverse == 1 + quotient * m,
    ;
    vstd::arithmetic::div_mod::lemma_mod_multiples_vanish(x * quotient, x as int, m);
    vstd::arithmetic::div_mod::lemma_small_mod(x as nat, m as nat);
}

/// Mixing can be undone, so that no two numbers are mixed to the same.
pub proof fn law_mixing_can_be_undone(x: u64)
    ensures
        unmixed(crate::sharded_map::mixed(x)) == x,
        forall|r: u64| #[trigger] call_ensures(mix64, (x,), r) ==> unmixed(r) == x,
        forall|y: u64| #[trigger]
            crate::sharded_map::mixed(y) == crate::sharded_map::mixed(x) ==> y == x,
{
    assert forall|z: u64| unmixed(#[trigger] crate::sharded_map::mixed(z)) == z by {
        let a = z ^ (z >> 33);
        let b = a.wrapping_mul(0xff51afd7ed558ccd);
        let c = b ^ (b >> 33);
        let d = c.wrapping_mul(0xc4ceb9fe1a85ec53);
        let y = d ^ (d >> 33);
        assert(y ^ (y >> 33) == d) by (bit_vector)
            requires
                y == d ^ (d >> 33),
        ;
        lemma_product_undone(c, 0xc4ceb9fe1a85ec53, 0x9cb4b2f8129337db, 0x7878e44812b2d581);
        assert(c ^ (c >> 33) == b) by (bit_vector)
            requires
                c == b ^ (b >> 33),
        ;
        lemma_product_undone(a, 0xff51afd7ed558ccd, 0x4f74430c22a54005, 0x4f3e2925cb7c5b4e);
        assert(a ^ (a >> 33) == z) by (bit_vector)
            requires
                a == z ^ (z >> 33),
        ;
    }
}

/// Bytes are mixed in one after the other: nothing changes without a byte, and the last byte is mixed
/// in last, into what is held after the others.
pub proof fn law_bytes_are_mixed_in_one_by_one(state: u64, bytes: Seq<u8>, byte: u8)
    ensures
        crate::sharded_map::mixed_bytes(state, Seq::empty()) == state,
        unmixed(crate::sharded_map::mixed_bytes(state, bytes.push(byte)))
            == crate::sharded_map::mixed_bytes(state, bytes) ^ (byte as u64),
{
    law_mixing_can_be_undone(crate::sharded_map::mixed_bytes(state, bytes) ^ (byte as u64));
    assert(bytes.push(byte).drop_last() =~= bytes);
}

/// A map has the fewest shards that are four for each CPU and a power of two from 16 to 128, or 128
/// where that is too few; a key belongs to the shard that the high half of the mixed key, modulo the
/// number of shards, says; and each shard gets its even share of the capacity.
pub proof fn law_shards_follow_the_cpus<V>(cpus: usize, capacity: usize, num_shards: usize, key: u64)
    requires
        num_shards > 0,
    ensures
        ({
            let n = crate::sharded_map::shard_count(Some(cpus));
            &&& n == 16 || n == 32 || n == 64 || n == 128
            &&& n == 16 || n / 2 < 4 * cpus
            &&& n == 128 || n >= 4 * cpus
        }),
        crate::sharded_map::shard_count(None) == 16,
        forall|known: Option<usize>, m: ShardedMap<V>| #[trigger]
            call_ensures(ShardedMap::<V>::with_capacity, (capacity, known), m) ==> {
                &&& m.num_shards() == crate::sharded_map::shard_count(known)
                &&& m@.dom() == Set::<u64>::empty()
            },
        forall|m: ShardedMap<V>, i: usize| #[trigger]
            call_ensures(ShardedMap::<V>::shard_of, (&m, key), i) ==> i == (
            crate::sharded_map::mixed(key) as int / 0x1_0000_0000) % m.num_shards() as int,
        forall|r: usize| #[trigger]
            call_ensures(shard_capacity, (capacity, num_shards), r) ==> r * num_shards <= capacity
                < r * num_shards + num_shards,
        forall|m: ShardedMap<V>, n: usize| #[trigger]
            call_ensures(ShardedMap::<V>::shards_len, (&m,), n) ==> n == m.num_shards(),
{
    reveal_with_fuel(crate::sharded_map::doubled_to_reach, 5);
    let mixed = crate::sharded_map::mixed(key);
    assert(mixed >> 32 == mixed / 0x1_0000_0000) by (bit_vector);
    assert(Map::<u64, V>::empty().dom() =~= Set::<u64>::empty());
    vstd::arithmetic::div_mod::lemma_fundamental_div_mod(capacity as int, num_shards as int);
    assert(capacity as int / num_shards as int * num_shards == num_shards * (capacity as int
        / num_shards as int)) by (nonlinear_arith);
}

/// The maps of the profiler start with room for 1000 pointers with symbols, 1000 stack traces and 5000
/// outstanding allocations, or for as many as is asked for in each; they start empty, and each has as
/// many shards as the number of CPUs says.
pub proof fn law_maps_start_with_room(sizing: MapSizing)
    ensures
        forall|r: (usize, usize, usize)| #[trigger]
            call_ensures(MapSizing::capacities, (&sizing,), r) ==> {
                &&& sizing.capacity_override is None ==> r.0 == 1000 && r.1 == 1000 && r.2 == 5000
                &&& sizing.capacity_override is Some ==> r.0 == sizing.capacity_override->0 && r.1
                    == r.0 && r.2 == r.0
            },
        forall|s: YingState| #[trigger]
            call_ensures(YingState::new, (sizing,), s) ==> {
                &&& s@.stats.dom() == Set::<u64>::empty()
                &&& s@.outstanding.dom() == Set::<u64>::empty()
                &&& s@.symbols.dom() == Set::<u64>::empty()
                &&& s.shard_counts().len() == 3
                &&& forall|i: int|
                    0 <= i < 3 ==> #[trigger] s.shard_counts()[i] == crate::sharded_map::shard_count(
                        sizing.cpus,
                    )
            },
        forall|p: &mut YingProfiler| #[trigger]
            call_ensures(YingProfiler::set_map_sizing, (p, sizing), ()) ==> {
                &&& final(p).map_sizing() == sizing
                &&& final(p)@ == (*p)@
                &&& final(p).ratio() == (*p).ratio() && final(p).limit() == (*p).limit()
            },
{
    assert(StateView::empty().stats.dom() =~= Set::<u64>::empty());
    assert(StateView::empty().outstanding.dom() =~= Set::<u64>::empty());
    assert(StateView::empty().symbols.dom() =~= Set::<u64>::empty());
}

/// A map gives back for a key what was last put in, until it is removed, and nothing that is done to
/// one key touches another.
pub proof fn law_maps_give_back_what_was_put_in<V>(key: u64, value: V)
    ensures
        forall|m: &mut ShardedMap<V>, replaced: Option<V>| #[trigger]
            call_ensures(ShardedMap::<V>::insert, (m, key, value), replaced) ==> {
                &&& final(m)@.contains_key(key) && final(m)@[key] == value
                &&& forall|k: u64|
                    k != key ==> #[trigger] final(m)@.contains_key(k) == (*m)@.contains_key(k)
                &&& forall|k: u64|
                    k != key && (*m)@.contains_key(k) ==> #[trigger] final(m)@[k] == (*m)@[k]
                &&& replaced is Some <==> (*m)@.contains_key(key)
                &&& replaced is Some ==> replaced->0 == (*m)@[key]
            },
        forall|m: &mut ShardedMap<V>, removed: Option<V>| #[trigger]
            call_ensures(ShardedMap::<V>::remove, (m, key), removed) ==> {
                &&& !final(m)@.contains_key(key)
                &&& forall|k: u64|
                    k != key ==> #[trigger] final(m)@.contains_key(k) == (*m)@.contains_key(k)
                &&& forall|k: u64|
                    k != key && (*m)@.contains_key(k) ==> #[trigger] final(m)@[k] == (*m)@[k]
                &&& removed is Some <==> (*m)@.contains_key(key)
                &&& removed is Some ==> removed->0 == (*m)@[key]
            },
        forall|m: ShardedMap<V>, r: Option<&V>| #[trigger]
            call_ensures(ShardedMap::<V>::get, (&m, key), r) ==> {
                &&& r is Some <==> m@.contains_key(key)
                &&& r is Some ==> *(r->0) == m@[key]
            },
        forall|m: ShardedMap<V>, r: bool| #[trigger]
            call_ensures(ShardedMap::<V>::contains_key, (&m, key), r) ==> (r <==> m@.contains_key(
                key,
            )),
        forall|m: ShardedMap<V>, n: usize| #[trigger]
            call_ensures(ShardedMap::<V>::len, (&m,), n) ==> n == m@.dom().len() || (n == usize::MAX
                && m@.dom().len() > n),
        forall|m: &mut ShardedMap<V>| #[trigger]
            call_ensures(ShardedMap::<V>::clear, (m,), ()) ==> forall|k: u64|
                !#[trigger] final(m)@.contains_key(k),
{
}

} // verus!
