//! Records kept under names: the maps of the ledger, as plain values.
//!
//! A `Records<V>` holds at most one value under each name. It is a vector of
//! entries in which no name stands twice; its view is the map from the names
//! to the values.

use vstd::prelude::*;

verus! {

/// What a sequence of entries holds: under each name the value of the last
/// entry with that name.
pub open spec fn entries_view<V: View>(entries: Seq<(String, V)>) -> Map<Seq<char>, V::V>
    decreases entries.len(),
{
    if entries.len() == 0 {
        Map::empty()
    } else {
        entries_view(entries.drop_last()).insert(entries.last().0@, entries.last().1@)
    }
}

/// No name stands twice in the entries.
pub open spec fn names_distinct<V>(entries: Seq<(String, V)>) -> bool {
    forall|i: int, j: int| 0 <= i < j < entries.len() ==> entries[i].0@ != entries[j].0@
}

/// The name stands in none of the entries.
pub open spec fn name_absent<V>(entries: Seq<(String, V)>, name: Seq<char>) -> bool {
    forall|i: int| 0 <= i < entries.len() ==> (#[trigger] entries[i]).0@ != name
}

/// Where no name stands twice, none stands twice in all entries but the
/// last, and the last name stands in none of those.
pub proof fn lemma_rest_distinct<V>(entries: Seq<(String, V)>)
    requires
        names_distinct(entries),
        entries.len() > 0,
    ensures
        names_distinct(entries.drop_last()),
        name_absent(entries.drop_last(), entries.last().0@),
{
    let rest = entries.drop_last();
    assert forall|i: int, j: int| 0 <= i < j < rest.len() implies rest[i].0@ != rest[j].0@ by {
        assert(rest[i] == entries[i] && rest[j] == entries[j]);
    }
    assert forall|i: int| 0 <= i < rest.len() implies (#[trigger] rest[i]).0@
        != entries.last().0@ by {
        assert(rest[i] == entries[i]);
    }
}

/// Entries hold nothing under a name that stands in none of them.
pub proof fn lemma_absent_name<V: View>(entries: Seq<(String, V)>, name: Seq<char>)
    requires
        name_absent(entries, name),
    ensures
        !entries_view(entries).contains_key(name),
    decreases entries.len(),
{
    if entries.len() > 0 {
        let rest = entries.drop_last();
        assert(entries[entries.len() - 1].0@ != name);
        assert forall|i: int| 0 <= i < rest.len() implies (#[trigger] rest[i]).0@ != name by {
            assert(rest[i] == entries[i]);
        }
        lemma_absent_name(rest, name);
    }
}

/// Entries with distinct names hold under each name the value of its entry.
pub proof fn lemma_entry_is_held<V: View>(entries: Seq<(String, V)>, at: int)
    requires
        names_distinct(entries),
        0 <= at < entries.len(),
    ensures
        entries_view(entries).contains_key(entries[at].0@),
        entries_view(entries)[entries[at].0@] == entries[at].1@,
    decreases entries.len(),
{
    if at < entries.len() - 1 {
        let rest = entries.drop_last();
        assert(rest[at] == entries[at]);
        assert(entries.last().0@ != entries[at].0@);
        lemma_rest_distinct(entries);
        lemma_entry_is_held(rest, at);
    }
}

/// Putting a new value in the place of an entry puts it under the entry's name.
pub proof fn lemma_entry_replaced<V: View>(entries: Seq<(String, V)>, at: int, entry: (String, V))
    requires
        names_distinct(entries),
        0 <= at < entries.len(),
        entry.0@ == entries[at].0@,
    ensures
        names_distinct(entries.update(at, entry)),
        entries_view(entries.update(at, entry)) == entries_view(entries).insert(
            entry.0@,
            entry.1@,
        ),
    decreases entries.len(),
{
    let changed = entries.update(at, entry);
    let rest = entries.drop_last();
    lemma_rest_distinct(entries);
    if at == entries.len() - 1 {
        assert(changed.drop_last() =~= rest);
        assert(entries_view(changed) =~= entries_view(entries).insert(entry.0@, entry.1@));
    } else {
        assert(changed.drop_last() =~= rest.update(at, entry));
        assert(rest[at] == entries[at]);
        assert(changed.last() == entries.last());
        assert(entries.last().0@ != entries[at].0@);
        lemma_entry_replaced(rest, at, entry);
        assert(entries_view(changed) =~= entries_view(entries).insert(entry.0@, entry.1@));
    }
}

/// Entries hold finitely many names, and as many as there are entries where
/// the names are distinct.
pub proof fn lemma_names_counted<V: View>(entries: Seq<(String, V)>)
    ensures
        entries_view(entries).dom().finite(),
        names_distinct(entries) ==> entries_view(entries).dom().len() == entries.len(),
    decreases entries.len(),
{
    if entries.len() > 0 {
        let rest = entries.drop_last();
        lemma_names_counted(rest);
        assert(entries_view(entries).dom() =~= entries_view(rest).dom().insert(entries.last().0@));
        if names_distinct(entries) {
            lemma_rest_distinct(entries);
            lemma_absent_name(rest, entries.last().0@);
        }
    } else {
        assert(entries_view(entries).dom() =~= Set::<Seq<char>>::empty());
    }
}

/// Values kept under names, at most one under each.
#[derive(Debug)]
pub struct Records<V> {
    entries: Vec<(String, V)>,
}

impl<V: View> View for Records<V> {
    type V = Map<Seq<char>, V::V>;

    closed spec fn view(&self) -> Map<Seq<char>, V::V> {
        entries_view(self.entries@)
    }
}

impl<V> Records<V> {
    #[verifier::type_invariant]
    spec fn well_formed(self) -> bool {
        names_distinct(self.entries@)
    }
}

impl<V: View> Records<V> {
    /// Records that hold nothing.
    pub fn new() -> (records: Self)
        ensures
            records@ == Map::<Seq<char>, V::V>::empty(),
    {
        Records { entries: Vec::new() }
    }

    /// The records hold finitely many names.
    pub proof fn lemma_finite(self)
        ensures
            self@.dom().finite(),
    {
        lemma_names_counted(self.entries@);
    }

    /// The place of the entry with the given name.
    fn position(&self, name: &String) -> (place: Option<usize>)
        ensures
            match place {
                Some(at) => at < self.entries@.len() && self.entries@[at as int].0@ == name@,
                None => name_absent(self.entries@, name@),
            },
    {
        let mut at: usize = 0;
        while at < self.entries.len()
            invariant
                at <= self.entries@.len(),
                name_absent(self.entries@.take(at as int), name@),
            decreases self.entries@.len() - at,
        {
            if self.entries[at].0 == *name {
                return Some(at);
            }
            assert forall|i: int| 0 <= i < at + 1 implies (#[trigger] self.entries@.take(
                at + 1,
            )[i]).0@ != name@ by {
                if i < at {
                    assert(self.entries@.take(at as int)[i] == self.entries@[i]);
                }
            }
            at = at + 1;
        }
        assert(self.entries@.take(at as int) == self.entries@);
        None
    }

    /// The number of names under which something is kept.
    pub fn len(&self) -> (count: usize)
        ensures
            self@.dom().finite(),
            count == self@.dom().len(),
    {
        proof {
            use_type_invariant(self);
            lemma_names_counted(self.entries@);
        }
        self.entries.len()
    }

    /// Whether something is kept under the name.
    pub fn contains_key(&self, name: &String) -> (held: bool)
        ensures
            held == self@.contains_key(name@),
    {
        self.get(name).is_some()
    }

    /// The value kept under the name, if there is one.
    pub fn get(&self, name: &String) -> (found: Option<&V>)
        ensures
            found.is_some() == self@.contains_key(name@),
            found matches Some(value) ==> value@ == self@[name@],
    {
        proof {
            use_type_invariant(self);
        }
        match self.position(name) {
            Some(at) => {
                proof {
                    lemma_entry_is_held(self.entries@, at as int);
                }
                Some(&self.entries[at].1)
            },
            None => {
                proof {
                    lemma_absent_name(self.entries@, name@);
                }
                None
            },
        }
    }

    /// Keeps the value under the name, in the place of the one that was kept
    /// there, if any.
    pub fn insert(&mut self, name: String, value: V)
        ensures
            final(self)@ == old(self)@.insert(name@, value@),
    {
        proof {
            use_type_invariant(&*self);
        }
        let place = self.position(&name);
        let mut entries: Vec<(String, V)> = Vec::new();
        core::mem::swap(&mut self.entries, &mut entries);
        match place {
            Some(at) => {
                proof {
                    lemma_entry_replaced(entries@, at as int, (name, value));
                }
                entries.set(at, (name, value));
            },
            None => {
                proof {
                    let added = entries@.push((name, value));
                    assert(added.drop_last() =~= entries@);
                    assert forall|i: int, j: int| 0 <= i < j < added.len() implies added[i].0@
                        != added[j].0@ by {
                        if j == added.len() - 1 {
                            assert(added[i] == entries@[i]);
                        }
                    }
                }
                entries.push((name, value));
            },
        }
        self.entries = entries;
    }
}

} // verus!
