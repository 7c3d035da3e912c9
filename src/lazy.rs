use crate::{other_regions_kept, PersistedContainer, PersistedKey, PersistedStore, StoreSlots};
use vstd::prelude::*;

verus! {

/// The container a lazy wrapper starts from: `container` restored from the
/// value saved under `key` in `slots`, or `container` as given when nothing is
/// saved there.
pub open spec fn restored_container<K, C: PersistedContainer>(
    slots: Map<K, C::Value>,
    key: K,
    container: C,
) -> C {
    if slots.contains_key(key) {
        container.after_restore(slots[key])
    } else {
        container
    }
}

/// Whether `derived` is what was last written, so that writing it again can
/// be skipped. Nothing has been written while `last` is `None`.
pub open spec fn is_unchanged<V: PartialEq>(last: Option<V>, derived: V) -> bool {
    match last {
        Some(l) => vstd::std_specs::cmp::PartialEqSpec::eq_spec(&l, &derived),
        None => false,
    }
}

/// The cache of the value written last, after a release that derived
/// `derived` with the cache at `last`: it becomes `derived` when that was
/// written, and stays as it was otherwise.
pub open spec fn cache_after_release<V: PartialEq>(last: Option<V>, derived: V) -> Option<V> {
    if is_unchanged(last, derived) {
        last
    } else {
        Some(derived)
    }
}

/// Like [Persisted](crate::Persisted), but the value kept in memory is a
/// container and the value sent to the store is derived from it by
/// [PersistedContainer::get_to_persist]. A loaded value is handed to
/// [PersistedContainer::restore_persisted] to set up the container.
///
/// Use it when the value worth saving is a projection of a larger state: for
/// a list with one item selected, save the ID of the selected item rather
/// than its index, so that the selection survives a reordering.
///
/// - `S`: the store type; one is passed to [PersistedLazy::new] and to
///   [PersistedLazyRefMut::release].
/// - `K`: the key type.
/// - `C`: the container type, whose persisted value has the key's value type.
///
/// The container can be read through [core::ops::Deref]. To change it, call
/// [PersistedLazy::get_mut] and release the guard into the store when done.
/// The release writes the derived value only if it differs from the value
/// this wrapper wrote last.
///
/// The wrapper is deliberately not `Clone`: two copies would share a key, and
/// each would overwrite what the other saved.
pub struct PersistedLazy<S, K: PersistedKey, C: PersistedContainer<Value = K::Value>> where
    S: PersistedStore<K>,
 {
    backend: core::marker::PhantomData<S>,
    key: K,
    /// The value this wrapper wrote last, to tell whether a release changed it
    last_persisted: Option<K::Value>,
    container: C,
}

impl<S, K: PersistedKey, C: PersistedContainer<Value = K::Value>> PersistedLazy<S, K, C> where
    S: PersistedStore<K>,
 {
    /// The key of this wrapper
    pub closed spec fn key_spec(&self) -> K {
        self.key
    }

    /// The container this wrapper holds
    pub closed spec fn container_spec(&self) -> C {
        self.container
    }

    /// The value this wrapper wrote last, if it has written one
    pub closed spec fn last_persisted_spec(&self) -> Option<K::Value> {
        self.last_persisted
    }

    /// Build a wrapper around `container`. If a value is saved under `key` in
    /// `store`, the container is restored from it first.
    pub fn new(store: &S, key: K, container: C) -> (p: Self)
        ensures
            p.key_spec() == key,
            p.container_spec() == restored_container(store.slots(), key, container),
            p.last_persisted_spec() == None::<K::Value>,
    {
        let mut container = container;
        match store.load_persisted(&key) {
            Some(value) => container.restore_persisted(value),
            None => {},
        }
        PersistedLazy { backend: core::marker::PhantomData, key, last_persisted: None, container }
    }

    /// Build a wrapper around the container type's [Default], restored from the
    /// value saved under `key` in `store` if there is one.
    pub fn new_default(store: &S, key: K) -> (p: Self) where C: Default
        ensures
            p.key_spec() == key,
            exists|initial: C|
                call_ensures(<C as core::default::Default>::default, (), initial)
                    && p.container_spec() == restored_container(store.slots(), key, initial),
            p.last_persisted_spec() == None::<K::Value>,
    {
        let container = C::default();
        let ghost initial = container;
        let p = Self::new(store, key, container);
        assert(p.container_spec() == restored_container(store.slots(), key, initial));
        p
    }

    /// Get a reference to this wrapper's key
    pub fn key(&self) -> (r: &K)
        ensures
            *r == self.key_spec(),
    {
        &self.key
    }

    /// Start a mutable access to the container. Releasing the returned guard
    /// writes the derived value to the store if it changed.
    pub fn get_mut(&mut self) -> (g: PersistedLazyRefMut<'_, S, K, C>) where K::Value: PartialEq
        ensures
            *g.lazy == *old(self),
            *final(self) == *final(g.lazy),
    {
        PersistedLazyRefMut { lazy: self }
    }
}

impl<S, K: PersistedKey, C: PersistedContainer<Value = K::Value>> core::ops::Deref for PersistedLazy<
    S,
    K,
    C,
> where S: PersistedStore<K> {
    type Target = C;

    fn deref(&self) -> (r: &C)
        ensures
            *r == self.container_spec(),
    {
        &self.container
    }
}

/// A mutable access to the container of a [PersistedLazy]. Change the
/// container through [PersistedLazyRefMut::container_mut], then call
/// [PersistedLazyRefMut::release]: it derives the value to persist and writes
/// it only if it differs from the value the wrapper wrote last.
///
/// A guard dropped without being released saves nothing.
#[must_use]
pub struct PersistedLazyRefMut<
    'a,
    S,
    K: PersistedKey,
    C: PersistedContainer<Value = K::Value>,
> where S: PersistedStore<K>, K::Value: PartialEq {
    /// The wrapper being accessed
    pub lazy: &'a mut PersistedLazy<S, K, C>,
}

impl<'a, S, K: PersistedKey, C: PersistedContainer<Value = K::Value>> PersistedLazyRefMut<
    'a,
    S,
    K,
    C,
> where S: PersistedStore<K>, K::Value: PartialEq {
    /// A mutable reference to the container. Writing through it changes the
    /// wrapper's container; key and cache stay as they were.
    pub fn container_mut(&mut self) -> (r: &mut C)
        ensures
            *r == old(self).lazy.container_spec(),
            final(self).lazy.key_spec() == old(self).lazy.key_spec(),
            final(self).lazy.last_persisted_spec() == old(self).lazy.last_persisted_spec(),
            final(self).lazy.container_spec() == *final(r),
            *final(final(self).lazy) == *final(old(self).lazy),
    {
        &mut self.lazy.container
    }

    /// End the access. The value derived from the container is written under
    /// the wrapper's key unless it equals the value written last (the first
    /// release of a wrapper always writes); when it is written, it becomes the
    /// new value written last. Nothing else reaches the store.
    pub fn release(self, store: &mut S)
        ensures
            final(self.lazy).key_spec() == old(self.lazy).key_spec(),
            final(self.lazy).container_spec() == old(self.lazy).container_spec(),
            ({
                let key = old(self.lazy).key_spec();
                let derived = old(self.lazy).container_spec().persisted_value();
                let last = old(self.lazy).last_persisted_spec();
                &&& <K::Value as vstd::std_specs::cmp::PartialEqSpec>::obeys_eq_spec() ==> {
                    &&& (*final(store) == *old(store) <==> is_unchanged(last, derived))
                    &&& final(self.lazy).last_persisted_spec() == cache_after_release(last, derived)
                }
                &&& last is None ==> *final(store) != *old(store)
                &&& other_regions_kept(*old(store), *final(store), K::unique_name())
                &&& if *final(store) == *old(store) {
                    final(self.lazy).last_persisted_spec() == last
                } else {
                    &&& final(self.lazy).last_persisted_spec() == Some(derived)
                    &&& final(store).slots() == old(store).slots().insert(key, derived)
                    &&& final(store).writes() == old(store).writes().push((key, derived))
                }
            }),
    {
        let derived = self.lazy.container.get_to_persist();
        let unchanged = match &self.lazy.last_persisted {
            Some(last) => last.eq(&derived),
            None => false,
        };
        if !unchanged {
            store.store_persisted(&self.lazy.key, &derived);
            self.lazy.last_persisted = Some(derived);
            assert(store.writes().len() != old(store).writes().len());
        }
    }
}

impl<'a, S, K: PersistedKey, C: PersistedContainer<Value = K::Value>> core::ops::Deref for PersistedLazyRefMut<
    'a,
    S,
    K,
    C,
> where S: PersistedStore<K>, K::Value: PartialEq {
    type Target = C;

    fn deref(&self) -> (r: &C)
        ensures
            *r == old(self.lazy).container_spec(),
    {
        &self.lazy.container
    }
}

} // verus!
