use crate::{other_regions_kept, PersistedKey, PersistedStore, StoreSlots};
use vstd::prelude::*;

verus! {

/// The value a wrapper starts from: the one saved under `key` in `slots`, or
/// `default` when nothing is saved there.
pub open spec fn initial_value<K, V>(slots: Map<K, V>, key: K, default: V) -> V {
    if slots.contains_key(key) {
        slots[key]
    } else {
        default
    }
}

/// A wrapper that persists the value it holds. The value is loaded from the
/// store when the wrapper is built, and saved each time a mutable access ends.
///
/// - `S`: the store type. The wrapper holds no store; one is passed to
///   [Persisted::new] and to [PersistedRefMut::release].
/// - `K`: the key type. Its `Value` is the type of the held value.
///
/// The value can be read through [core::ops::Deref]. To change it, call
/// [Persisted::get_mut] and release the guard into the store when done.
///
/// The wrapper is deliberately not `Clone`: two copies would share a key, and
/// each would overwrite what the other saved.
pub struct Persisted<S, K: PersistedKey> where S: PersistedStore<K> {
    backend: core::marker::PhantomData<S>,
    key: K,
    value: K::Value,
}

impl<S, K: PersistedKey> Persisted<S, K> where S: PersistedStore<K> {
    /// The key of this wrapper
    pub closed spec fn key_spec(&self) -> K {
        self.key
    }

    /// The value this wrapper holds
    pub closed spec fn value_spec(&self) -> K::Value {
        self.value
    }

    /// Build a wrapper whose value is the one saved under `key` in `store`, or
    /// `default` if nothing is saved there.
    pub fn new(store: &S, key: K, default: K::Value) -> (p: Self)
        ensures
            p.key_spec() == key,
            p.value_spec() == initial_value(store.slots(), key, default),
    {
        let value = match store.load_persisted(&key) {
            Some(loaded) => loaded,
            None => default,
        };
        Persisted { backend: core::marker::PhantomData, key, value }
    }

    /// Build a wrapper whose value is the one saved under `key` in `store`, or
    /// the value type's [Default] if nothing is saved there.
    pub fn new_default(store: &S, key: K) -> (p: Self) where K::Value: Default
        ensures
            p.key_spec() == key,
            exists|default: K::Value|
                call_ensures(<K::Value as core::default::Default>::default, (), default)
                    && p.value_spec() == initial_value(store.slots(), key, default),
    {
        let default = K::Value::default();
        let ghost fallback = default;
        let p = Self::new(store, key, default);
        assert(p.value_spec() == initial_value(store.slots(), key, fallback));
        p
    }

    /// Get a reference to this wrapper's key
    pub fn key(&self) -> (r: &K)
        ensures
            *r == self.key_spec(),
    {
        &self.key
    }

    /// Start a mutable access. The returned guard gives access to the value;
    /// releasing it saves the value in the store.
    pub fn get_mut(&mut self) -> (g: PersistedRefMut<'_, S, K>)
        ensures
            *g.persisted == *old(self),
            *final(self) == *final(g.persisted),
    {
        PersistedRefMut { persisted: self }
    }
}

impl<S, K: PersistedKey> core::ops::Deref for Persisted<S, K> where S: PersistedStore<K> {
    type Target = K::Value;

    fn deref(&self) -> (r: &K::Value)
        ensures
            *r == self.value_spec(),
    {
        &self.value
    }
}

/// A mutable access to a [Persisted] value. Change the value through
/// [PersistedRefMut::value_mut], then call [PersistedRefMut::release] to save
/// it: each access writes to the store exactly once, when it is released.
///
/// A guard dropped without being released saves nothing.
#[must_use]
pub struct PersistedRefMut<'a, S, K: PersistedKey> where S: PersistedStore<K> {
    /// The wrapper being accessed
    pub persisted: &'a mut Persisted<S, K>,
}

impl<'a, S, K: PersistedKey> PersistedRefMut<'a, S, K> where S: PersistedStore<K> {
    /// A mutable reference to the value. Writing through it changes the
    /// wrapper's value; the key stays as it was.
    pub fn value_mut(&mut self) -> (r: &mut K::Value)
        ensures
            *r == old(self).persisted.value_spec(),
            final(self).persisted.key_spec() == old(self).persisted.key_spec(),
            final(self).persisted.value_spec() == *final(r),
            *final(final(self).persisted) == *final(old(self).persisted),
    {
        &mut self.persisted.value
    }

    /// End the access: save the current value under the wrapper's key. This is
    /// the only write to the store that the access makes.
    pub fn release(self, store: &mut S)
        ensures
            *final(self.persisted) == *old(self.persisted),
            final(store).slots() == old(store).slots().insert(
                old(self.persisted).key_spec(),
                old(self.persisted).value_spec(),
            ),
            final(store).writes() == old(store).writes().push(
                (old(self.persisted).key_spec(), old(self.persisted).value_spec()),
            ),
            other_regions_kept(*old(store), *final(store), K::unique_name()),
    {
        store.store_persisted(&self.persisted.key, &self.persisted.value);
    }
}

impl<'a, S, K: PersistedKey> core::ops::Deref for PersistedRefMut<'a, S, K> where
    S: PersistedStore<K>,
 {
    type Target = K::Value;

    fn deref(&self) -> (r: &K::Value)
        ensures
            *r == old(self.persisted).value_spec(),
    {
        &self.persisted.value
    }
}

} // verus!
