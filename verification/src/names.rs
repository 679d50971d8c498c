//! Lists and tables keyed by name.
//!
//! Names are compared by their characters. A list of names stands for the
//! set of its members; a table stands for a map in which a later entry for a
//! name replaces an earlier one.

use vstd::prelude::*;

verus! {

/// The set of names that occur in `list`.
pub open spec fn name_set(list: Seq<String>) -> Set<Seq<char>> {
    Set::new(|name: Seq<char>| exists|i: int| 0 <= i < list.len() && (#[trigger] list[i])@ == name)
}

/// Whether `name` occurs in `list`.
pub fn contains_name(list: &Vec<String>, name: &String) -> (found: bool)
    ensures
        found == name_set(list@).contains(name@),
{
    let mut i: usize = 0;
    while i < list.len()
        invariant
            i <= list.len(),
            forall|j: int| 0 <= j < i ==> (#[trigger] list@[j])@ != name@,
        decreases list.len() - i,
    {
        if list[i] == *name {
            return true;
        }
        i += 1;
    }
    false
}

/// One entry of a table: a name and what it stands for.
#[derive(Debug, Clone)]
pub struct NameEntry {
    pub key: String,
    pub value: String,
}

/// A table from names to strings, held as a list of entries.
#[derive(Debug, Clone)]
pub struct NameTable {
    pub entries: Vec<NameEntry>,
}

/// The map that a list of entries stands for: entries are applied in order,
/// so the last entry for a name decides.
pub open spec fn table_map(entries: Seq<NameEntry>) -> Map<Seq<char>, Seq<char>>
    decreases entries.len(),
{
    if entries.len() == 0 {
        Map::empty()
    } else {
        table_map(entries.drop_last()).insert(entries.last().key@, entries.last().value@)
    }
}

impl View for NameTable {
    type V = Map<Seq<char>, Seq<char>>;

    open spec fn view(&self) -> Map<Seq<char>, Seq<char>> {
        table_map(self.entries@)
    }
}

/// A name is in the map of a list exactly if some entry has it, and it is
/// then mapped to the value of the last such entry.
pub proof fn lemma_table_map_last_entry(entries: Seq<NameEntry>, name: Seq<char>, i: int)
    requires
        0 <= i < entries.len(),
        entries[i].key@ == name,
        forall|j: int| i < j < entries.len() ==> (#[trigger] entries[j]).key@ != name,
    ensures
        table_map(entries).contains_key(name),
        table_map(entries)[name] == entries[i].value@,
    decreases entries.len(),
{
    if i < entries.len() - 1 {
        lemma_table_map_last_entry(entries.drop_last(), name, i);
    }
}

/// A name that no entry has is not in the map of the list.
pub proof fn lemma_table_map_absent(entries: Seq<NameEntry>, name: Seq<char>)
    requires
        forall|j: int| 0 <= j < entries.len() ==> (#[trigger] entries[j]).key@ != name,
    ensures
        !table_map(entries).contains_key(name),
    decreases entries.len(),
{
    if entries.len() > 0 {
        lemma_table_map_absent(entries.drop_last(), name);
    }
}

impl NameTable {
    /// A table with no entry.
    pub fn new() -> (table: Self)
        ensures
            table@ == Map::<Seq<char>, Seq<char>>::empty(),
    {
        NameTable { entries: Vec::new() }
    }

    /// Maps `key` to `value`, replacing what `key` stood for before.
    pub fn insert(&mut self, key: String, value: String)
        ensures
            final(self)@ == old(self)@.insert(key@, value@),
    {
        let ghost before = self.entries@;
        self.entries.push(NameEntry { key, value });
        assert(self.entries@.drop_last() =~= before);
    }

    /// What `name` stands for, if the table has it.
    pub fn get(&self, name: &String) -> (found: Option<&String>)
        ensures
            found is Some <==> self@.contains_key(name@),
            found is Some ==> found->0@ == self@[name@],
    {
        let mut i: usize = self.entries.len();
        while i > 0
            invariant
                i <= self.entries.len(),
                forall|j: int|
                    i <= j < self.entries.len() ==> (#[trigger] self.entries@[j]).key@ != name@,
            decreases i,
        {
            i -= 1;
            if self.entries[i].key == *name {
                proof {
                    lemma_table_map_last_entry(self.entries@, name@, i as int);
                }
                return Some(&self.entries[i].value);
            }
        }
        proof {
            lemma_table_map_absent(self.entries@, name@);
        }
        None
    }
}

} // verus!
