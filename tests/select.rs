//! The ready-made list container, alone and inside a lazy wrapper.

use persisted::{PersistedBackend, PersistedContainer, PersistedKey, PersistedLazy, PersistedStore, SelectList};

fn people() -> Vec<(u64, &'static str)> {
    vec![(23089, "Fred"), (28833, "Susan"), (93383, "Ulysses")]
}

#[test]
fn restore_selects_the_entry_with_the_saved_id() {
    let mut list = SelectList::new(people());
    assert_eq!(list.selected_index(), 0);
    list.restore_persisted(Some(93383));
    assert_eq!(list.selected_index(), 2);
    assert_eq!(list.get_to_persist(), Some(93383));
}

#[test]
fn restore_of_a_missing_id_selects_the_first_entry() {
    let mut list = SelectList::new(people());
    assert!(list.select(1));
    list.restore_persisted(Some(11111));
    assert_eq!(list.selected_index(), 0);
    assert_eq!(list.get_to_persist(), Some(23089));
    assert_eq!(list.entries(), &people());
}

#[test]
fn restore_picks_the_first_of_equal_ids() {
    let mut list = SelectList::new(vec![(1, 'a'), (5, 'b'), (5, 'c')]);
    list.restore_persisted(Some(5));
    assert_eq!(list.selected_index(), 1);
}

#[test]
fn restore_of_nothing_selects_the_first_entry() {
    let mut list = SelectList::new(people());
    assert!(list.select(2));
    list.restore_persisted(None);
    assert_eq!(list.selected_index(), 0);
}

#[test]
fn empty_list_persists_nothing() {
    let mut list: SelectList<&str> = SelectList::new(vec![]);
    assert_eq!(list.get_to_persist(), None);
    list.restore_persisted(Some(28833));
    assert_eq!(list.selected_index(), 0);
    assert_eq!(list.get_to_persist(), None);
}

#[test]
fn select_out_of_range_keeps_the_selection() {
    let mut list = SelectList::new(people());
    assert!(list.select(1));
    assert!(!list.select(3));
    assert_eq!(list.selected_index(), 1);
    assert_eq!(list.get_to_persist(), Some(28833));
}

/// A store with one slot, counting its writes
#[derive(Default)]
struct Slot {
    value: Option<Option<u64>>,
    writes: usize,
}

struct SelectedPersonKey;

impl PersistedKey for SelectedPersonKey {
    type Value = Option<u64>;

    fn key_type_name() -> &'static str {
        "SelectedPersonKey"
    }
}

impl PersistedBackend for Slot {
    type Region = ();
}

impl PersistedStore<SelectedPersonKey> for Slot {
    fn load_persisted(&self, _key: &SelectedPersonKey) -> Option<Option<u64>> {
        self.value
    }

    fn store_persisted(&mut self, _key: &SelectedPersonKey, value: &Option<u64>) {
        self.value = Some(*value);
        self.writes += 1;
    }
}

#[test]
fn lazy_list_survives_reordering() {
    let mut store = Slot::default();
    let mut list = PersistedLazy::<Slot, _, _>::new(
        &store,
        SelectedPersonKey,
        SelectList::new(people()),
    );
    let mut guard = list.get_mut();
    assert!(guard.container_mut().select(1));
    guard.release(&mut store);
    assert_eq!(store.value, Some(Some(28833)));
    assert_eq!(store.writes, 1);

    // Selecting the same entry again derives the same ID: no write
    let mut guard = list.get_mut();
    assert!(guard.container_mut().select(1));
    guard.release(&mut store);
    assert_eq!(store.writes, 1);

    let mut reordered = people();
    reordered.reverse();
    let list = PersistedLazy::<Slot, _, _>::new(
        &store,
        SelectedPersonKey,
        SelectList::new(reordered),
    );
    assert_eq!(list.selected_index(), 1);
    assert_eq!(list.entries()[1], (28833, "Susan"));

    let shorter = PersistedLazy::<Slot, _, _>::new(
        &store,
        SelectedPersonKey,
        SelectList::new(vec![(23089, "Fred")]),
    );
    assert_eq!(shorter.selected_index(), 0);
}

#[test]
fn lazy_default_container_when_nothing_is_saved() {
    let store = Slot::default();
    let list = PersistedLazy::<Slot, SelectedPersonKey, SelectList<u8>>::new_default(
        &store,
        SelectedPersonKey,
    );
    assert_eq!(list.selected_index(), 0);
    assert!(list.entries().is_empty());
}
