//! The index from character names to the entities that bear them.

use crate::entity::EntityHandle;
use vstd::prelude::*;

verus! {

/// One registered name.
#[derive(Clone, Debug, PartialEq, Eq)]
pub struct NameEntry {
    pub name: String,
    pub entity: EntityHandle,
}

/// Resolves character names to live entities.
#[derive(Debug)]
pub struct EntityLookup {
    entries: Vec<NameEntry>,
}

/// The names of a table, in the table's order.
pub open spec fn names(table: Seq<(Seq<char>, EntityHandle)>) -> Seq<Seq<char>> {
    table.map_values(|entry: (Seq<char>, EntityHandle)| entry.0)
}

/// The entity registered under `name`: that of the first entry with this
/// name, if there is one.
pub open spec fn resolve(table: Seq<(Seq<char>, EntityHandle)>, name: Seq<char>) -> Option<
    EntityHandle,
> {
    match names(table).index_of_first(name) {
        Some(i) => Some(table[i].1),
        None => None,
    }
}

/// `name` is resolved by the entry at `at` when that entry bears the name
/// and no earlier one does.
pub proof fn lemma_resolve_first(table: Seq<(Seq<char>, EntityHandle)>, name: Seq<char>, at: int)
    requires
        0 <= at < table.len(),
        table[at].0 == name,
        forall|k: int| 0 <= k < at ==> (#[trigger] table[k]).0 != name,
    ensures
        names(table).index_of_first(name) == Some(at),
        resolve(table, name) == Some(table[at].1),
{
    let all = names(table);
    all.index_of_first_ensures(name);
    assert(all[at] == name);
    assert(all.contains(name));
    let found = all.index_of_first(name).unwrap();
    assert(all[found] == table[found].0);
    if found < at {
        assert(table[found].0 != name);
    }
}

/// A name that no entry bears resolves to nothing.
pub proof fn lemma_resolve_absent(table: Seq<(Seq<char>, EntityHandle)>, name: Seq<char>)
    requires
        forall|k: int| 0 <= k < table.len() ==> (#[trigger] table[k]).0 != name,
    ensures
        names(table).index_of_first(name) is None,
        resolve(table, name) is None,
{
    let all = names(table);
    all.index_of_first_ensures(name);
    if all.contains(name) {
        let k = choose|k: int| 0 <= k < all.len() && all[k] == name;
        assert(table[k].0 == name);
    }
}

impl View for EntityLookup {
    type V = Seq<(Seq<char>, EntityHandle)>;

    closed spec fn view(&self) -> Seq<(Seq<char>, EntityHandle)> {
        self.entries@.map_values(|entry: NameEntry| (entry.name@, entry.entity))
    }
}

impl EntityLookup {
    /// The index that knows no name.
    pub fn new() -> (lookup: EntityLookup)
        ensures
            lookup@ == Seq::<(Seq<char>, EntityHandle)>::empty(),
    {
        EntityLookup { entries: Vec::new() }
    }

    /// Where the first entry with this name stands.
    fn position(&self, name: &String) -> (at: Option<usize>)
        ensures
            match at {
                Some(i) => names(self@).index_of_first(name@) == Some(i as int) && i
                    < self@.len(),
                None => names(self@).index_of_first(name@) is None,
            },
    {
        let mut i: usize = 0;
        while i < self.entries.len()
            invariant
                i <= self.entries.len(),
                self@.len() == self.entries.len(),
                forall|k: int| 0 <= k < i ==> (#[trigger] self@[k]).0 != name@,
            decreases self.entries.len() - i,
        {
            if self.entries[i].name == *name {
                proof {
                    lemma_resolve_first(self@, name@, i as int);
                }
                return Some(i);
            }
            i += 1;
        }
        proof {
            lemma_resolve_absent(self@, name@);
        }
        None
    }

    /// The entity that bears `name`, if one is registered.
    pub fn get_entity_for_name(&self, name: &String) -> (found: Option<EntityHandle>)
        ensures
            found == resolve(self@, name@),
    {
        match self.position(name) {
            Some(i) => Some(self.entries[i].entity),
            None => None,
        }
    }

    /// Registers `entity` under `name`. A name that is registered already
    /// moves to the new entity; every other name resolves as before.
    pub fn insert(&mut self, name: String, entity: EntityHandle)
        ensures
            final(self)@ == match names(old(self)@).index_of_first(name@) {
                Some(i) => old(self)@.update(i, (name@, entity)),
                None => old(self)@.push((name@, entity)),
            },
            resolve(final(self)@, name@) == Some(entity),
            forall|other: Seq<char>|
                other != name@ ==> #[trigger] resolve(final(self)@, other) == resolve(
                    old(self)@,
                    other,
                ),
    {
        let ghost before = self@;
        let ghost label = name@;
        let at = self.position(&name);
        proof {
            names(before).index_of_first_ensures(label);
        }
        match at {
            Some(i) => {
                self.entries.set(i, NameEntry { name, entity });
                assert(self@ == before.update(i as int, (label, entity)));
                proof {
                    assert(names(before)[i as int] == before[i as int].0);
                    assert forall|k: int| 0 <= k < i implies (#[trigger] self@[k]).0 != label by {
                        assert(names(before)[k] == before[k].0);
                    }
                    lemma_resolve_first(self@, label, i as int);
                }
            },
            None => {
                self.entries.push(NameEntry { name, entity });
                assert(self@ == before.push((label, entity)));
                proof {
                    assert forall|k: int| 0 <= k < before.len() implies (#[trigger] self@[k]).0
                        != label by {
                        assert(names(before)[k] == before[k].0);
                        assert(names(before).contains(names(before)[k]));
                    }
                    lemma_resolve_first(self@, label, before.len() as int);
                }
            },
        }
        proof {
            let after = self@;
            assert forall|other: Seq<char>| other != label implies #[trigger] resolve(
                after,
                other,
            ) == resolve(before, other) by {
                lemma_resolve_same(before, after, label, other);
            }
        }
    }
}

/// Two tables that differ only in entries named `changed`, and only in
/// what those entries point to or in such entries at the end of the
/// second, resolve every other name alike.
proof fn lemma_resolve_same(
    before: Seq<(Seq<char>, EntityHandle)>,
    after: Seq<(Seq<char>, EntityHandle)>,
    changed: Seq<char>,
    other: Seq<char>,
)
    requires
        other != changed,
        before.len() <= after.len(),
        forall|k: int| 0 <= k < before.len() ==> (#[trigger] after[k]).0 == before[k].0,
        forall|k: int|
            0 <= k < before.len() && before[k].0 != changed ==> (#[trigger] after[k]) == before[k],
        forall|k: int| before.len() <= k < after.len() ==> (#[trigger] after[k]).0 == changed,
    ensures
        resolve(after, other) == resolve(before, other),
{
    let old_names = names(before);
    let new_names = names(after);
    old_names.index_of_first_ensures(other);
    match old_names.index_of_first(other) {
        Some(i) => {
            assert(old_names[i] == before[i].0);
            assert(after[i] == before[i]);
            assert forall|k: int| 0 <= k < i implies (#[trigger] after[k]).0 != other by {
                assert(old_names[k] == before[k].0);
            }
            lemma_resolve_first(after, other, i);
        },
        None => {
            assert forall|k: int| 0 <= k < after.len() implies (#[trigger] after[k]).0
                != other by {
                if k < before.len() {
                    assert(old_names[k] == before[k].0);
                    assert(old_names.contains(old_names[k]));
                }
            }
            lemma_resolve_absent(after, other);
        },
    }
}

} // verus!
