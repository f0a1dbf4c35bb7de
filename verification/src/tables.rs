//! Tables from names to qualified names, built anew for every request.

use crate::syntax::opt_text;
use vstd::prelude::*;

verus! {

/// The map that a list of entries stands for: a later entry for a name
/// takes the place of an earlier one.
pub open spec fn table_of(entries: Seq<(Seq<char>, Seq<char>)>) -> Map<Seq<char>, Seq<char>>
    decreases entries.len(),
{
    if entries.len() == 0 {
        Map::empty()
    } else {
        table_of(entries.drop_last()).insert(entries.last().0, entries.last().1)
    }
}

/// The views of a list of entries.
pub open spec fn entries_view(entries: Seq<(String, String)>) -> Seq<(Seq<char>, Seq<char>)> {
    Seq::new(entries.len(), |i: int| (entries[i].0@, entries[i].1@))
}

/// What a map holds for a name, if anything.
pub open spec fn lookup(table: Map<Seq<char>, Seq<char>>, name: Seq<char>) -> Option<Seq<char>> {
    if table.contains_key(name) {
        Some(table[name])
    } else {
        None
    }
}

/// What a map holds for a name, or the name itself.
pub open spec fn resolved(table: Map<Seq<char>, Seq<char>>, name: Seq<char>) -> Seq<char> {
    if table.contains_key(name) {
        table[name]
    } else {
        name
    }
}

/// A table from names to qualified names.
pub struct NameTable {
    entries: Vec<(String, String)>,
}

impl View for NameTable {
    type V = Map<Seq<char>, Seq<char>>;

    closed spec fn view(&self) -> Map<Seq<char>, Seq<char>> {
        table_of(entries_view(self.entries@))
    }
}

impl NameTable {
    /// A table without entries.
    pub fn new() -> (table: NameTable)
        ensures
            table@ == Map::<Seq<char>, Seq<char>>::empty(),
    {
        let table = NameTable { entries: Vec::new() };
        assert(entries_view(table.entries@) =~= Seq::empty());
        table
    }

    /// What the table holds for a name.
    pub fn get(&self, name: &str) -> (found: Option<String>)
        ensures
            opt_text(found) == lookup(self@, name@),
    {
        let ghost all = entries_view(self.entries@);
        let wanted = String::from_str(name);
        let mut i: usize = self.entries.len();
        assert(all.take(i as int) == all);
        while i > 0
            invariant
                i <= self.entries.len(),
                all == entries_view(self.entries@),
                wanted@ == name@,
                lookup(self@, name@) == lookup(table_of(all.take(i as int)), name@),
            decreases i,
        {
            i -= 1;
            proof {
                assert(all.take(i + 1).drop_last() == all.take(i as int));
                assert(all.take(i + 1).last() == (self.entries@[i as int].0@, self.entries@[i as int].1@));
            }
            if self.entries[i].0 == wanted {
                return Some(self.entries[i].1.clone());
            }
        }
        None
    }

    /// Whether the table holds something for a name.
    pub fn contains(&self, name: &str) -> (found: bool)
        ensures
            found == self@.contains_key(name@),
    {
        self.get(name).is_some()
    }

    /// Sets what the table holds for a name.
    pub fn insert(&mut self, name: String, value: String)
        ensures
            final(self)@ == old(self)@.insert(name@, value@),
    {
        let ghost before = entries_view(self.entries@);
        self.entries.push((name, value));
        proof {
            let after = entries_view(self.entries@);
            assert(after.drop_last() == before);
            assert(after.last() == (name@, value@));
        }
    }

    /// Sets what the table holds for a name, unless it holds something for it
    /// already: the first entry for a name stays.
    pub fn insert_if_absent(&mut self, name: String, value: String)
        ensures
            final(self)@ == if old(self)@.contains_key(name@) {
                old(self)@
            } else {
                old(self)@.insert(name@, value@)
            },
    {
        if !self.contains(name.as_str()) {
            self.insert(name, value);
        }
    }

    /// What the table holds for a name, or the name itself.
    pub fn resolve(&self, name: &str) -> (value: String)
        ensures
            value@ == resolved(self@, name@),
    {
        match self.get(name) {
            Some(value) => value,
            None => String::from_str(name),
        }
    }
}

} // verus!
