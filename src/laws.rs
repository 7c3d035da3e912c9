//! Laws that relate several operations of the wrappers, stated over the spec
//! functions that the operations' contracts use.
use crate::{
    cache_after_release, initial_value, is_unchanged, other_regions_kept, PersistedKey,
    PersistedStore, StoreSlots,
};
use vstd::laws_eq::obeys_concrete_eq;
use vstd::prelude::*;

verus! {

/// How many store writes a run of releases of one lazy wrapper makes, when
/// the releases derive the values of `derived` in order and the wrapper's
/// cache starts at `last`.
pub open spec fn release_writes<V: PartialEq>(last: Option<V>, derived: Seq<V>) -> nat
    decreases derived.len(),
{
    if derived.len() == 0 {
        0
    } else {
        let first = derived[0];
        let written: nat = if is_unchanged(last, first) {
            0
        } else {
            1
        };
        written + release_writes(cache_after_release(last, first), derived.drop_first())
    }
}

/// Round trip: once a value `v2` has been saved under `key` (the release of
/// a mutable access does that), a new wrapper for `key` starts from `v2`,
/// whatever default it is given.
pub proof fn lemma_round_trip<S: PersistedStore<K>, K: PersistedKey>(
    before: S,
    after: S,
    key: K,
    v2: K::Value,
    default: K::Value,
)
    requires
        after.slots() == before.slots().insert(key, v2),
    ensures
        initial_value(after.slots(), key, default) == v2,
{
}

/// Default fallback: a wrapper for a key under which the store holds
/// nothing starts from exactly the default it was given.
pub proof fn lemma_default_fallback<S: PersistedStore<K>, K: PersistedKey>(
    store: S,
    key: K,
    default: K::Value,
)
    requires
        !store.slots().contains_key(key),
    ensures
        initial_value(store.slots(), key, default) == default,
{
}

/// Key types apart: a write under one key type (which keeps the regions of
/// the other key types, as the releases of both guards state) leaves what the
/// store holds for a key type of another name as it was, so a new wrapper of
/// that other type starts from the same value as before the write.
pub proof fn lemma_other_key_type_untouched<S, K1: PersistedKey, K2: PersistedKey>(
    before: S,
    after: S,
    key: K2,
    default: K2::Value,
) where S: PersistedStore<K1> + PersistedStore<K2>
    requires
        K1::unique_name() != K2::unique_name(),
        other_regions_kept(before, after, K1::unique_name()),
    ensures
        <S as StoreSlots<K2>>::slots(&after) == <S as StoreSlots<K2>>::slots(&before),
        initial_value(<S as StoreSlots<K2>>::slots(&after), key, default) == initial_value(
            <S as StoreSlots<K2>>::slots(&before),
            key,
            default,
        ),
{
    assert(after.region(K2::unique_name()) == before.region(K2::unique_name()));
}

/// Last writer wins: when two wrappers with equal keys save `first` and then
/// `second`, the store keeps `second`, and the later wrapper for that key
/// starts from it.
pub proof fn lemma_last_writer_wins<S: PersistedStore<K>, K: PersistedKey>(
    before: S,
    middle: S,
    after: S,
    key1: K,
    key2: K,
    first: K::Value,
    second: K::Value,
    default: K::Value,
)
    requires
        key1 == key2,
        middle.slots() == before.slots().insert(key1, first),
        after.slots() == middle.slots().insert(key2, second),
    ensures
        after.slots()[key1] == second,
        initial_value(after.slots(), key1, default) == second,
{
}

/// Change detection: releases that keep deriving the same value `v` write it
/// once, on the first release, when it is not the value written last; a
/// following release that derives a different value `v2` writes once more.
pub proof fn lemma_change_detection<V: PartialEq>(last: Option<V>, v: V, v2: V, n: nat)
    requires
        obeys_concrete_eq::<V>(),
        n >= 1,
        last != Some(v),
        v2 != v,
    ensures
        release_writes(last, Seq::new(n, |i: int| v)) == 1,
        release_writes(last, Seq::new(n, |i: int| v).push(v2)) == 2,
{
    reveal(obeys_concrete_eq);
    let run = Seq::new(n, |i: int| v);
    assert(run.drop_first() =~= Seq::new((n - 1) as nat, |i: int| v));
    assert(run.push(v2).drop_first() =~= Seq::new((n - 1) as nat, |i: int| v).push(v2));
    assert(!is_unchanged(last, v));
    lemma_repeats_write_nothing(v, v2, (n - 1) as nat);
}

/// With the cache at `Some(v)`, releases deriving `v` write nothing, and one
/// deriving another value `v2` after them writes once.
proof fn lemma_repeats_write_nothing<V: PartialEq>(v: V, v2: V, n: nat)
    requires
        obeys_concrete_eq::<V>(),
        v2 != v,
    ensures
        release_writes(Some(v), Seq::new(n, |i: int| v)) == 0,
        release_writes(Some(v), Seq::new(n, |i: int| v).push(v2)) == 1,
    decreases n,
{
    reveal(obeys_concrete_eq);
    let run = Seq::new(n, |i: int| v);
    assert(is_unchanged(Some(v), v));
    assert(!is_unchanged(Some(v), v2));
    if n == 0 {
        assert(run.push(v2) =~= seq![v2]);
        assert(seq![v2].drop_first() =~= Seq::<V>::empty());
        assert(release_writes(Some(v2), Seq::<V>::empty()) == 0);
    } else {
        assert(run.drop_first() =~= Seq::new((n - 1) as nat, |i: int| v));
        assert(run.push(v2).drop_first() =~= Seq::new((n - 1) as nat, |i: int| v).push(v2));
        lemma_repeats_write_nothing(v, v2, (n - 1) as nat);
    }
}

} // verus!
