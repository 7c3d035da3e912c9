//! Lazy persistence: the store keeps only the ID of the selected person,
//! while the container keeps the whole list and the selected index.

use persisted::{PersistedBackend, PersistedContainer, PersistedKey, PersistedLazy, PersistedStore};

/// Persist just the stored ID, and count the writes
#[derive(Default)]
struct Store {
    id: Option<PersonId>,
    save_count: usize,
}

impl PersistedBackend for Store {
    type Region = ();
}

impl PersistedStore<SelectedIdKey> for Store {
    fn load_persisted(&self, _key: &SelectedIdKey) -> Option<PersonId> {
        self.id
    }

    fn store_persisted(&mut self, _key: &SelectedIdKey, value: &PersonId) {
        self.id = Some(*value);
        self.save_count += 1;
    }
}

#[derive(Copy, Clone, Debug, PartialEq)]
struct PersonId(u64);

#[derive(Clone, Debug)]
#[allow(unused)]
struct Person {
    id: PersonId,
    name: String,
    age: u32,
}

#[derive(Debug)]
struct SelectedIdKey;

impl PersistedKey for SelectedIdKey {
    type Value = PersonId;

    fn key_type_name() -> &'static str {
        "SelectedIdKey"
    }
}

/// A list of items, with one item selected
struct SelectList {
    values: Vec<Person>,
    selected_index: usize,
}

impl SelectList {
    fn selected(&self) -> &Person {
        &self.values[self.selected_index]
    }
}

impl PersistedContainer for SelectList {
    type Value = PersonId;

    fn get_to_persist(&self) -> Self::Value {
        self.selected().id
    }

    fn restore_persisted(&mut self, value: Self::Value) {
        // Find selected person by ID
        self.selected_index = self
            .values
            .iter()
            .enumerate()
            .find(|(_, person)| person.id == value)
            .map(|(i, _)| i)
            .unwrap_or_default();
    }
}

#[test]
fn lazy() {
    let person_list = vec![
        Person {
            id: PersonId(23089),
            name: "Fred".into(),
            age: 17,
        },
        Person {
            id: PersonId(28833),
            name: "Susan".into(),
            age: 29,
        },
        Person {
            id: PersonId(93383),
            name: "Ulysses".into(),
            age: 40,
        },
    ];
    let mut store = Store::default();

    let mut people = PersistedLazy::<Store, _, _>::new(
        &store,
        SelectedIdKey,
        SelectList {
            values: person_list.clone(),
            selected_index: 0,
        },
    );
    assert_eq!(store.save_count, 0);
    let mut guard = people.get_mut();
    guard.container_mut().selected_index = 1;
    guard.release(&mut store);
    assert_eq!(store.save_count, 1);

    // Store should only be called if the persisted value actually changed
    let mut guard = people.get_mut();
    guard.container_mut().selected_index = 1;
    guard.release(&mut store);
    assert_eq!(store.save_count, 1);
    let mut guard = people.get_mut();
    guard.container_mut().selected_index = 2;
    guard.release(&mut store);
    assert_eq!(store.save_count, 2);

    // The previous value gets restored
    let people = PersistedLazy::<Store, _, _>::new(
        &store,
        SelectedIdKey,
        SelectList {
            values: person_list,
            selected_index: 0,
        },
    );
    assert_eq!(people.selected_index, 2);
    assert_eq!(store.save_count, 2);
}

#[test]
fn lazy_restore_of_a_missing_id_falls_back_to_first() {
    let mut store = Store::default();
    store.id = Some(PersonId(55555));
    let people = PersistedLazy::<Store, _, _>::new(
        &store,
        SelectedIdKey,
        SelectList {
            values: vec![Person {
                id: PersonId(23089),
                name: "Fred".into(),
                age: 17,
            }],
            selected_index: 0,
        },
    );
    assert_eq!(people.selected_index, 0);
    assert_eq!(people.selected().id, PersonId(23089));
    assert_eq!(store.save_count, 0);
}

#[test]
fn lazy_key_is_kept() {
    let store = Store::default();
    let people = PersistedLazy::<Store, _, _>::new(
        &store,
        SelectedIdKey,
        SelectList {
            values: vec![],
            selected_index: 0,
        },
    );
    assert_eq!(SelectedIdKey::key_type_name(), "SelectedIdKey");
    assert_eq!(format!("{:?}", people.key()), "SelectedIdKey");
}
