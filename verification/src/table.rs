//! A table from session ids to values, with one entry per id at most.

use vstd::prelude::*;
use crate::text::same_text;

verus! {

/// Whether no two entries of `entries` have the same id.
pub open spec fn distinct_ids<V>(entries: Seq<(String, V)>) -> bool {
    forall|i: int, j: int|
        0 <= i < entries.len() && 0 <= j < entries.len() && i != j ==> entries[i].0@
            != entries[j].0@
}

/// Whether some entry of `entries` has the id `id`.
pub open spec fn has_id<V>(entries: Seq<(String, V)>, id: Seq<char>) -> bool {
    exists|i: int| 0 <= i < entries.len() && #[trigger] entries[i].0@ == id
}

/// The position of an entry of `entries` that has the id `id`.
pub open spec fn position_of<V>(entries: Seq<(String, V)>, id: Seq<char>) -> int {
    choose|i: int| 0 <= i < entries.len() && #[trigger] entries[i].0@ == id
}

/// The mapping that `entries` stands for.
pub open spec fn entries_map<V>(entries: Seq<(String, V)>) -> Map<Seq<char>, V> {
    Map::new(
        |id: Seq<char>| has_id(entries, id),
        |id: Seq<char>| entries[position_of(entries, id)].1,
    )
}

/// With distinct ids, the entry at position `i` is the one the mapping gives
/// for its id.
pub proof fn lemma_entry_at<V>(entries: Seq<(String, V)>, i: int)
    requires
        distinct_ids(entries),
        0 <= i < entries.len(),
    ensures
        has_id(entries, entries[i].0@),
        position_of(entries, entries[i].0@) == i,
        entries_map(entries).dom().contains(entries[i].0@),
        entries_map(entries)[entries[i].0@] == entries[i].1,
{
    assert(entries[i].0@ == entries[i].0@);
}

/// Adding an entry under a new id extends the mapping by it.
pub proof fn lemma_push_entry<V>(entries: Seq<(String, V)>, id: String, value: V)
    requires
        distinct_ids(entries),
        !has_id(entries, id@),
    ensures
        distinct_ids(entries.push((id, value))),
        entries_map(entries.push((id, value))) == entries_map(entries).insert(id@, value),
{
    let after = entries.push((id, value));
    assert forall|i: int, j: int|
        0 <= i < after.len() && 0 <= j < after.len() && i != j implies after[i].0@
        != after[j].0@ by {
        if i < entries.len() {
            assert(entries[i].0@ == after[i].0@);
        }
        if j < entries.len() {
            assert(entries[j].0@ == after[j].0@);
        }
    }
    assert forall|key: Seq<char>|
        entries_map(after).dom().contains(key) == entries_map(entries).insert(
            id@,
            value,
        ).dom().contains(key) by {
        if has_id(after, key) {
            let i = position_of(after, key);
            if i < entries.len() {
                assert(entries[i].0@ == key);
            }
        }
        if key == id@ {
            assert(after[entries.len() as int].0@ == key);
        }
        if has_id(entries, key) {
            let i = position_of(entries, key);
            assert(after[i].0@ == key);
        }
    }
    assert forall|key: Seq<char>| entries_map(after).dom().contains(key) implies entries_map(
        after,
    )[key] == entries_map(entries).insert(id@, value)[key] by {
        let i = position_of(after, key);
        lemma_entry_at(after, i);
        if i < entries.len() {
            assert(entries[i].0@ == key);
            lemma_entry_at(entries, i);
        }
    }
    assert(entries_map(after) =~= entries_map(entries).insert(id@, value));
}

/// Taking the entry at position `i` out removes its id from the mapping.
pub proof fn lemma_remove_entry<V>(entries: Seq<(String, V)>, i: int)
    requires
        distinct_ids(entries),
        0 <= i < entries.len(),
    ensures
        distinct_ids(entries.remove(i)),
        entries_map(entries.remove(i)) == entries_map(entries).remove(entries[i].0@),
{
    let after = entries.remove(i);
    let id = entries[i].0@;
    assert forall|a: int, b: int|
        0 <= a < after.len() && 0 <= b < after.len() && a != b implies after[a].0@
        != after[b].0@ by {
        let a0 = if a < i { a } else { a + 1 };
        let b0 = if b < i { b } else { b + 1 };
        assert(after[a] == entries[a0]);
        assert(after[b] == entries[b0]);
    }
    assert forall|key: Seq<char>|
        entries_map(after).dom().contains(key) == entries_map(entries).remove(
            id,
        ).dom().contains(key) by {
        if has_id(after, key) {
            let a = position_of(after, key);
            let a0 = if a < i { a } else { a + 1 };
            assert(after[a] == entries[a0]);
            assert(entries[a0].0@ == key);
        }
        if has_id(entries, key) && key != id {
            let a0 = position_of(entries, key);
            let a = if a0 < i { a0 } else { a0 - 1 };
            assert(after[a] == entries[a0]);
            assert(after[a].0@ == key);
        }
    }
    assert forall|key: Seq<char>| entries_map(after).dom().contains(key) implies entries_map(
        after,
    )[key] == entries_map(entries).remove(id)[key] by {
        let a = position_of(after, key);
        let a0 = if a < i { a } else { a + 1 };
        assert(after[a] == entries[a0]);
        lemma_entry_at(after, a);
        lemma_entry_at(entries, a0);
    }
    assert(entries_map(after) =~= entries_map(entries).remove(id));
}

/// Replacing the value at position `i` replaces the value of its id in the
/// mapping.
pub proof fn lemma_update_entry<V>(entries: Seq<(String, V)>, i: int, value: V)
    requires
        distinct_ids(entries),
        0 <= i < entries.len(),
    ensures
        distinct_ids(entries.update(i, (entries[i].0, value))),
        entries_map(entries.update(i, (entries[i].0, value))) == entries_map(entries).insert(
            entries[i].0@,
            value,
        ),
{
    let after = entries.update(i, (entries[i].0, value));
    let id = entries[i].0@;
    assert forall|a: int| 0 <= a < after.len() implies #[trigger] after[a].0@
        == entries[a].0@ by {}
    assert forall|key: Seq<char>|
        entries_map(after).dom().contains(key) == entries_map(entries).insert(
            id,
            value,
        ).dom().contains(key) by {
        if has_id(after, key) {
            let a = position_of(after, key);
            assert(entries[a].0@ == key);
        }
        if has_id(entries, key) {
            let a = position_of(entries, key);
            assert(after[a].0@ == key);
        }
        if key == id {
            assert(after[i].0@ == key);
        }
    }
    assert forall|key: Seq<char>| entries_map(after).dom().contains(key) implies entries_map(
        after,
    )[key] == entries_map(entries).insert(id, value)[key] by {
        let a = position_of(after, key);
        lemma_entry_at(after, a);
        assert(entries[a].0@ == key);
        lemma_entry_at(entries, a);
    }
    assert(entries_map(after) =~= entries_map(entries).insert(id, value));
}

/// A table from session ids to values of type `V`.
pub struct Table<V> {
    entries: Vec<(String, V)>,
}

impl<V> Table<V> {
    /// The invariant of the table: no id occurs twice.
    pub closed spec fn wf(&self) -> bool {
        distinct_ids(self.entries@)
    }

    /// The mapping that the table holds.
    pub closed spec fn map(&self) -> Map<Seq<char>, V> {
        entries_map(self.entries@)
    }

    /// The ids of the table, in the order in which `ids` lists them.
    pub closed spec fn order(&self) -> Seq<Seq<char>> {
        self.entries@.map_values(|e: (String, V)| e.0@)
    }

    /// The ids in `order` are those of the mapping, each once.
    pub proof fn lemma_order(&self)
        requires
            self.wf(),
        ensures
            self.order().no_duplicates(),
            forall|id: Seq<char>| self.order().contains(id) <==> self.map().dom().contains(id),
            self.map().dom().finite(),
            self.map().dom().len() == self.order().len(),
    {
        let order = self.order();
        assert forall|id: Seq<char>| order.contains(id) <==> self.map().dom().contains(
            id,
        ) by {
            if order.contains(id) {
                let i = choose|i: int| 0 <= i < order.len() && order[i] == id;
                assert(self.entries@[i].0@ == id);
            }
            if self.map().dom().contains(id) {
                let i = position_of(self.entries@, id);
                assert(order[i] == id);
            }
        }
        assert(order.to_set() =~= self.map().dom());
        order.unique_seq_to_set();
        vstd::seq_lib::seq_to_set_is_finite(order);
    }

    /// An empty table.
    pub fn new() -> (table: Table<V>)
        ensures
            table.wf(),
            table.map() == Map::<Seq<char>, V>::empty(),
    {
        let table = Table { entries: Vec::new() };
        assert(table.map() =~= Map::<Seq<char>, V>::empty());
        table
    }

    /// The position of the entry for `id`, if the table has one.
    fn find(&self, id: &str) -> (found: Option<usize>)
        requires
            self.wf(),
        ensures
            match found {
                Some(i) => i < self.entries@.len() && self.entries@[i as int].0@ == id@,
                None => !has_id(self.entries@, id@),
            },
    {
        let mut i: usize = 0;
        while i < self.entries.len()
            invariant
                i <= self.entries@.len(),
                forall|j: int| 0 <= j < i ==> self.entries@[j].0@ != id@,
            decreases self.entries@.len() - i,
        {
            if same_text(self.entries[i].0.as_str(), id) {
                return Some(i);
            }
            i += 1;
        }
        None
    }

    /// Whether the table has an entry for `id`.
    pub fn contains(&self, id: &str) -> (found: bool)
        requires
            self.wf(),
        ensures
            found == self.map().dom().contains(id@),
    {
        self.find(id).is_some()
    }

    /// The value for `id`, if the table has one.
    pub fn get(&self, id: &str) -> (value: Option<&V>)
        requires
            self.wf(),
        ensures
            match value {
                Some(v) => self.map().dom().contains(id@) && *v == self.map()[id@],
                None => !self.map().dom().contains(id@),
            },
    {
        match self.find(id) {
            Some(i) => {
                proof {
                    lemma_entry_at(self.entries@, i as int);
                }
                Some(&self.entries[i].1)
            },
            None => None,
        }
    }

    /// The value for `id`, for the caller to change in place, if the table
    /// has one.
    pub fn get_mut(&mut self, id: &str) -> (value: Option<&mut V>)
        requires
            old(self).wf(),
        ensures
            final(self).wf(),
            match value {
                Some(v) => old(self).map().dom().contains(id@) && *v == old(self).map()[id@]
                    && final(self).map() == old(self).map().insert(id@, *final(v)),
                None => !old(self).map().dom().contains(id@) && final(self).map() == old(
                    self,
                ).map(),
            },
    {
        match self.find(id) {
            Some(i) => {
                proof {
                    lemma_entry_at(self.entries@, i as int);
                    assert forall|value: V|
                        distinct_ids(
                            #[trigger] self.entries@.update(
                                i as int,
                                (self.entries@[i as int].0, value),
                            ),
                        ) && entries_map(
                            self.entries@.update(i as int, (self.entries@[i as int].0, value)),
                        ) == self.map().insert(id@, value) by {
                        lemma_update_entry(self.entries@, i as int, value);
                    }
                }
                Some(&mut self.entries[i].1)
            },
            None => None,
        }
    }

    /// Takes the entry for `id` out of the table, if it has one.
    pub fn remove(&mut self, id: &str) -> (value: Option<V>)
        requires
            old(self).wf(),
        ensures
            final(self).wf(),
            final(self).map() == old(self).map().remove(id@),
            match value {
                Some(v) => old(self).map().dom().contains(id@) && v == old(self).map()[id@],
                None => !old(self).map().dom().contains(id@),
            },
    {
        match self.find(id) {
            Some(i) => {
                proof {
                    lemma_entry_at(self.entries@, i as int);
                    lemma_remove_entry(self.entries@, i as int);
                }
                let entry = self.entries.remove(i);
                Some(entry.1)
            },
            None => {
                assert(self.map().remove(id@) =~= self.map());
                None
            },
        }
    }

    /// Puts `value` under `id`, and returns the value that it displaces, if
    /// any.
    pub fn insert(&mut self, id: String, value: V) -> (displaced: Option<V>)
        requires
            old(self).wf(),
        ensures
            final(self).wf(),
            final(self).map() == old(self).map().insert(id@, value),
            match displaced {
                Some(v) => old(self).map().dom().contains(id@) && v == old(self).map()[id@],
                None => !old(self).map().dom().contains(id@),
            },
    {
        let displaced = self.remove(id.as_str());
        proof {
            assert(!self.map().dom().contains(id@));
            assert(!has_id(self.entries@, id@));
            lemma_push_entry(self.entries@, id, value);
            assert(old(self).map().remove(id@).insert(id@, value) =~= old(self).map().insert(
                id@,
                value,
            ));
        }
        self.entries.push((id, value));
        displaced
    }

    /// Takes every entry out of the table.
    pub fn take_all(&mut self) -> (entries: Vec<(String, V)>)
        requires
            old(self).wf(),
        ensures
            final(self).wf(),
            final(self).map() == Map::<Seq<char>, V>::empty(),
            distinct_ids(entries@),
            entries_map(entries@) == old(self).map(),
    {
        let mut entries: Vec<(String, V)> = Vec::new();
        core::mem::swap(&mut self.entries, &mut entries);
        assert(self.map() =~= Map::<Seq<char>, V>::empty());
        entries
    }

    /// The number of entries.
    pub fn len(&self) -> (count: usize)
        requires
            self.wf(),
        ensures
            count == self.map().dom().len(),
            count == self.order().len(),
    {
        proof {
            self.lemma_order();
        }
        self.entries.len()
    }

    /// The ids of the table.
    pub fn ids(&self) -> (ids: Vec<String>)
        requires
            self.wf(),
        ensures
            ids@.map_values(|id: String| id@) == self.order(),
    {
        let mut ids: Vec<String> = Vec::new();
        let mut i: usize = 0;
        while i < self.entries.len()
            invariant
                i <= self.entries@.len(),
                ids@.len() == i,
                forall|k: int| 0 <= k < i ==> ids@[k]@ == self.entries@[k].0@,
            decreases self.entries@.len() - i,
        {
            ids.push(self.entries[i].0.clone());
            i += 1;
        }
        assert(ids@.map_values(|id: String| id@) =~= self.order());
        ids
    }
}

} // verus!
