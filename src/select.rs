//! A ready-made container: a list of items with one of them selected, whose
//! selection is persisted by the ID of the selected item rather than by its
//! position, so that it survives items being reordered, added or removed.
use crate::PersistedContainer;
use vstd::prelude::*;

verus! {

/// The position that restoring a selection from `value` picks in `entries`:
/// the first entry whose ID is the saved one, or 0 when no entry has it (or
/// when nothing was selected).
pub open spec fn restored_index<T>(entries: Seq<(u64, T)>, value: Option<u64>) -> int {
    match value {
        Some(id) => if exists|i: int| 0 <= i < entries.len() && entries[i].0 == id {
            choose|i: int|
                0 <= i < entries.len() && entries[i].0 == id && forall|j: int|
                    0 <= j < i ==> entries[j].0 != id
        } else {
            0
        },
        None => 0,
    }
}

/// A list of `(id, item)` entries with one entry selected. Its persisted
/// value is the ID of the selected entry, `None` while the list is empty.
pub struct SelectList<T> {
    entries: Vec<(u64, T)>,
    selected: usize,
}

impl<T> SelectList<T> {
    /// The entries, in order
    pub closed spec fn entries_spec(&self) -> Seq<(u64, T)> {
        self.entries@
    }

    /// The position of the selected entry (0 while the list is empty)
    pub closed spec fn selected_spec(&self) -> int {
        self.selected as int
    }

    /// The selection points at an entry, or at 0 in an empty list
    #[verifier::type_invariant]
    closed spec fn selection_in_range(&self) -> bool {
        if self.entries.len() == 0 {
            self.selected == 0
        } else {
            self.selected < self.entries.len()
        }
    }

    /// A list of `entries` with the first one selected
    pub fn new(entries: Vec<(u64, T)>) -> (r: Self)
        ensures
            r.entries_spec() == entries@,
            r.selected_spec() == 0,
    {
        SelectList { entries, selected: 0 }
    }

    /// The entries, in order
    pub fn entries(&self) -> (r: &Vec<(u64, T)>)
        ensures
            r@ == self.entries_spec(),
    {
        &self.entries
    }

    /// The position of the selected entry
    pub fn selected_index(&self) -> (r: usize)
        ensures
            r == self.selected_spec(),
    {
        self.selected
    }

    /// Select the entry at `index`. Returns `false`, and leaves the selection
    /// as it was, when there is no entry there.
    pub fn select(&mut self, index: usize) -> (r: bool)
        ensures
            r == (index < old(self).entries_spec().len()),
            final(self).entries_spec() == old(self).entries_spec(),
            final(self).selected_spec() == (if r {
                index as int
            } else {
                old(self).selected_spec()
            }),
    {
        if index < self.entries.len() {
            self.selected = index;
            true
        } else {
            false
        }
    }
}

impl<T> Default for SelectList<T> {
    /// An empty list
    fn default() -> (r: Self)
        ensures
            r.entries_spec() == Seq::<(u64, T)>::empty(),
            r.selected_spec() == 0,
    {
        SelectList { entries: Vec::new(), selected: 0 }
    }
}

impl<T> PersistedContainer for SelectList<T> {
    type Value = Option<u64>;

    open spec fn persisted_value(&self) -> Option<u64> {
        if self.entries_spec().len() == 0 {
            None
        } else {
            Some(self.entries_spec()[self.selected_spec()].0)
        }
    }

    closed spec fn after_restore(&self, value: Option<u64>) -> Self {
        SelectList {
            entries: self.entries,
            selected: restored_index(self.entries@, value) as usize,
        }
    }

    fn get_to_persist(&self) -> (r: Option<u64>) {
        proof {
            use_type_invariant(self);
        }
        if self.entries.len() == 0 {
            None
        } else {
            Some(self.entries[self.selected].0)
        }
    }

    fn restore_persisted(&mut self, value: Option<u64>)
        ensures
            final(self).entries_spec() == old(self).entries_spec(),
            final(self).selected_spec() == restored_index(old(self).entries_spec(), value),
    {
        let index = match value {
            Some(id) => position_of(&self.entries, id),
            None => 0,
        };
        proof {
            use_type_invariant(&*self);
        }
        self.selected = index;
    }
}

/// The position of the first entry whose ID is `id`, or 0 if there is none.
fn position_of<T>(entries: &Vec<(u64, T)>, id: u64) -> (r: usize)
    ensures
        r == restored_index(entries@, Some(id)),
        entries@.len() == 0 ==> r == 0,
        entries@.len() > 0 ==> r < entries@.len(),
{
    let mut i: usize = 0;
    while i < entries.len()
        invariant
            i <= entries@.len(),
            forall|j: int| 0 <= j < i ==> entries@[j].0 != id,
        decreases entries@.len() - i,
    {
        if entries[i].0 == id {
            proof {
                lemma_first_match(entries@, id, i as int);
            }
            return i;
        }
        i = i + 1;
    }
    proof {
        assert(!exists|k: int| 0 <= k < entries@.len() && entries@[k].0 == id);
    }
    0
}

/// The first entry holding `id` is the one that restoring picks.
proof fn lemma_first_match<T>(entries: Seq<(u64, T)>, id: u64, i: int)
    requires
        0 <= i < entries.len(),
        entries[i].0 == id,
        forall|j: int| 0 <= j < i ==> entries[j].0 != id,
    ensures
        restored_index(entries, Some(id)) == i,
{
    let c = restored_index(entries, Some(id));
    assert(0 <= c < entries.len() && entries[c].0 == id && forall|j: int|
        0 <= j < c ==> entries[j].0 != id);
    if c < i {
        assert(entries[c].0 != id);
    } else if c > i {
        assert(entries[i].0 != id);
    }
}

/// Restoring from `value` keeps the entries and selects the position that
/// [restored_index] gives: the first entry holding the saved ID, or the first
/// entry when none holds it or nothing was saved.
pub proof fn lemma_after_restore<T>(list: SelectList<T>, value: Option<u64>)
    ensures
        list.after_restore(value).entries_spec() == list.entries_spec(),
        list.after_restore(value).selected_spec() == restored_index(list.entries_spec(), value),
{
    let entries = list.entries@;
    assert(entries.len() == list.entries.len());
    if let Some(id) = value {
        if exists|i: int| 0 <= i < entries.len() && entries[i].0 == id {
            let i = choose|i: int| 0 <= i < entries.len() && entries[i].0 == id;
            lemma_least_match_exists(entries, id, i);
        }
    }
}

/// When some entry holds `id`, one of them is the first, so the position that
/// restoring picks is in range.
proof fn lemma_least_match_exists<T>(entries: Seq<(u64, T)>, id: u64, i: int)
    requires
        0 <= i < entries.len(),
        entries[i].0 == id,
    ensures
        0 <= restored_index(entries, Some(id)) < entries.len(),
    decreases i,
{
    if exists|j: int| 0 <= j < i && entries[j].0 == id {
        let j = choose|j: int| 0 <= j < i && entries[j].0 == id;
        lemma_least_match_exists(entries, id, j);
    } else {
        lemma_first_match(entries, id, i);
    }
}

/// Restoring from an ID that no entry holds selects the first entry, and
/// keeps the entries as they are.
pub proof fn lemma_restore_missing_id_selects_first<T>(list: SelectList<T>, id: u64)
    requires
        forall|i: int| 0 <= i < list.entries_spec().len() ==> list.entries_spec()[i].0 != id,
    ensures
        list.after_restore(Some(id)).selected_spec() == 0,
        list.after_restore(Some(id)).entries_spec() == list.entries_spec(),
{
    assert forall|k: int| 0 <= k < list.entries@.len() implies list.entries@[k].0 != id by {
        assert(list.entries_spec()[k].0 != id);
    }
}

} // verus!
