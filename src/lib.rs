//! Values that outlive the program section that owns them.
//!
//! A wrapper ([Persisted] or [PersistedLazy]) is built from a key and a
//! default value (or container). It asks a store for the value last saved
//! under that key and starts from it when there is one. Mutable access goes
//! through a guard; releasing the guard hands the new value back to the store.
//!
//! The store is any type that implements [PersistedStore]. It is passed to the
//! wrapper explicitly, at construction and when a guard is released, so that a
//! backend with real state (an open connection, a map in memory) needs no
//! global instance.
//!
//! Writes happen only when a guard is released: an eager wrapper saves its
//! value once per released access, and a lazy wrapper saves the value derived
//! from its container only when it differs from the one it saved last.
//! Dropping a wrapper writes nothing, and neither does dropping a guard without
//! releasing it. Two wrappers with equal keys share a slot: the one released
//! last decides what the store keeps.
//!
//! The library defines no backend and no serialization format. The
//! [select] module offers one ready-made container.
use vstd::prelude::*;

mod eager;
mod lazy;
pub mod laws;
pub mod select;

pub use crate::eager::{initial_value, Persisted, PersistedRefMut};
pub use crate::lazy::{cache_after_release, is_unchanged, restored_container, PersistedLazy, PersistedLazyRefMut};
pub use crate::select::SelectList;

verus! {

/// A unique key mapped to a persisted value. A key can be any Rust value:
/// unit keys suit values that occur once in a program, and keys that carry
/// data (an index, an ID) address one value among many of one kind.
///
/// Two keys that are equal address the same slot of the store. Each value in
/// the program should therefore have a key that no other value uses; two live
/// wrappers with equal keys overwrite each other's saved value, and the one
/// released last wins.
pub trait PersistedKey: Sized {
    /// The type of the value stored under this key
    type Value;

    /// The unique name of this key type, which [PersistedKey::key_type_name]
    /// returns. Distinct key types must have distinct names: the store's
    /// model keeps the slots of each name apart (see [PersistedBackend]).
    closed spec fn unique_name() -> Seq<char> {
        arbitrary()
    }

    /// A name for this key type that is unique within the program. Stores
    /// whose serialized form of a key holds only its content (a unit key
    /// serializes to nothing) can add it to tell key types apart.
    fn key_type_name() -> (r: &'static str)
        ensures
            r@ == Self::unique_name(),
    ;
}

/// The state of a store, split into one region per key type. A region is
/// named by the key type's [PersistedKey::unique_name]; what a store holds for
/// one key type is read from that key type's region alone, and a write under
/// one key type changes no other region. So one store can serve many key types
/// without a write under one disturbing the others.
pub trait PersistedBackend: Sized {
    /// What a region holds
    type Region;

    /// The region of the key type named `key_type`
    closed spec fn region(&self, key_type: Seq<char>) -> Self::Region {
        arbitrary()
    }
}

/// Whether `after` holds the same as `before` in every region but the one
/// named `key_type`.
pub open spec fn other_regions_kept<S: PersistedBackend>(
    before: S,
    after: S,
    key_type: Seq<char>,
) -> bool {
    forall|name: Seq<char>| name != key_type ==> #[trigger] after.region(name) == before.region(name)
}

/// A backend that loads and saves values by key. The type parameter `K` is the
/// key type that this store supports; one store may implement the trait for
/// many key types.
///
/// Operations are synchronous and do not fail outward: a backend that can fail
/// deals with its errors inside these methods (logging them, for example).
///
/// The store is modelled by its regions ([PersistedBackend]), by `slots_in`,
/// which reads the value saved under each key of type `K` out of `K`'s region
/// ([StoreSlots::slots] applies it), and by `writes`, the sequence of every
/// write under `K` that the store has accepted, oldest first. The default
/// bodies of these spec functions are unspecified values, with which no
/// implementation can meet the contracts below: what is proved of the
/// wrappers holds of stores that define the model, and whose writes do not
/// fail. An unverified implementation may leave the defaults (and use `()` as
/// its `Region`); nothing is then proved of it.
pub trait PersistedStore<K: PersistedKey>: PersistedBackend {
    /// The value saved under each key, in a region of key type `K`
    closed spec fn slots_in(region: Self::Region) -> Map<K, K::Value> {
        arbitrary()
    }

    /// Every write under a key of type `K` accepted so far, in order
    closed spec fn writes(&self) -> Seq<(K, K::Value)> {
        arbitrary()
    }

    /// Load the value saved under `key`, or `None` if there is none.
    fn load_persisted(&self, key: &K) -> (r: Option<K::Value>)
        ensures
            ({
                let slots = Self::slots_in(self.region(K::unique_name()));
                r == (if slots.contains_key(*key) {
                    Some(slots[*key])
                } else {
                    None
                })
            }),
    ;

    /// Save `value` under `key`, replacing what was saved there before. The
    /// regions of other key types stay as they were.
    fn store_persisted(&mut self, key: &K, value: &K::Value)
        ensures
            Self::slots_in(final(self).region(K::unique_name())) == Self::slots_in(
                old(self).region(K::unique_name()),
            ).insert(*key, *value),
            other_regions_kept(*old(self), *final(self), K::unique_name()),
            final(self).writes() == old(self).writes().push((*key, *value)),
    ;
}

/// The value saved under each key of type `K` in a store: an abbreviation for
/// [PersistedStore::slots_in] applied to `K`'s region.
pub trait StoreSlots<K: PersistedKey> {
    /// The value saved under each key of type `K`
    spec fn slots(&self) -> Map<K, K::Value>;
}

impl<S: PersistedStore<K>, K: PersistedKey> StoreSlots<K> for S {
    open spec fn slots(&self) -> Map<K, K::Value> {
        S::slots_in(self.region(K::unique_name()))
    }
}

/// A structure that holds more state than the value it persists. Used with
/// [PersistedLazy]: the value to save is derived from the container when a
/// mutable access ends, and a loaded value is handed to the container to
/// restore its state from.
///
/// As with [PersistedStore], the default bodies of the two spec functions are
/// unspecified values, with which no implementation can meet the contracts:
/// what is proved of [PersistedLazy] holds of containers that define both. An
/// unverified implementation may leave them; nothing is then proved of it.
pub trait PersistedContainer: Sized {
    /// The value to be persisted
    type Value;

    /// The value that this container's state projects to
    closed spec fn persisted_value(&self) -> Self::Value {
        arbitrary()
    }

    /// The state of this container after restoring from `value`
    closed spec fn after_restore(&self, value: Self::Value) -> Self {
        arbitrary()
    }

    /// Get the current value to persist in the store
    fn get_to_persist(&self) -> (r: Self::Value)
        ensures
            r == self.persisted_value(),
    ;

    /// Update the container's state from a value loaded from the store
    fn restore_persisted(&mut self, value: Self::Value)
        ensures
            *final(self) == old(self).after_restore(value),
    ;
}

} // verus!
