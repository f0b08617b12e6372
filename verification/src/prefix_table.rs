//! A table binding namespace URIs to prefixes, with a `Map` view.

use vstd::prelude::*;

verus! {

/// The map a sequence of bindings denotes: later entries shadow earlier ones.
pub open spec fn table_map(entries: Seq<(String, String)>) -> Map<Seq<char>, Seq<char>>
    decreases entries.len(),
{
    if entries.len() == 0 {
        Map::empty()
    } else {
        table_map(entries.drop_last()).insert(entries.last().0@, entries.last().1@)
    }
}

/// Maps namespace URIs to the prefixes bound to them.  Inserting for a URI
/// that is already bound overwrites the old binding.
#[derive(Debug, Clone, PartialEq)]
pub struct PrefixTable {
    entries: Vec<(String, String)>,
}

impl View for PrefixTable {
    type V = Map<Seq<char>, Seq<char>>;

    closed spec fn view(&self) -> Map<Seq<char>, Seq<char>> {
        table_map(self.entries@)
    }
}

/// In a table with no entry for `key` there is no binding for it.
proof fn lemma_table_map_missing(entries: Seq<(String, String)>, key: Seq<char>)
    requires
        forall|l: int| 0 <= l < entries.len() ==> entries[l].0@ != key,
    ensures
        !table_map(entries).contains_key(key),
    decreases entries.len(),
{
    if entries.len() > 0 {
        lemma_table_map_missing(entries.drop_last(), key);
    }
}

/// The binding for a key is the one its last entry made.
proof fn lemma_table_map_found(entries: Seq<(String, String)>, j: int)
    requires
        0 <= j < entries.len(),
        forall|l: int| j < l < entries.len() ==> entries[l].0@ != entries[j].0@,
    ensures
        table_map(entries).contains_key(entries[j].0@),
        table_map(entries)[entries[j].0@] == entries[j].1@,
    decreases entries.len(),
{
    if j < entries.len() - 1 {
        lemma_table_map_found(entries.drop_last(), j);
    }
}

impl PrefixTable {
    /// A table with no bindings.
    pub fn new() -> (r: PrefixTable)
        ensures
            r@ == Map::<Seq<char>, Seq<char>>::empty(),
    {
        PrefixTable { entries: Vec::new() }
    }

    /// Binds `prefix` to the namespace URI `ns`, shadowing any earlier
    /// binding for `ns`.
    pub fn insert(&mut self, ns: String, prefix: String)
        ensures
            final(self)@ == old(self)@.insert(ns@, prefix@),
    {
        let ghost before = self.entries@;
        self.entries.push((ns, prefix));
        proof {
            assert(self.entries@.drop_last() =~= before);
        }
    }

    /// The prefix bound to `ns`, or nothing when `ns` has no binding.
    pub fn get(&self, ns: &String) -> (r: Option<&String>)
        ensures
            match r {
                Some(p) => self@.contains_key(ns@) && p@ == self@[ns@],
                None => !self@.contains_key(ns@),
            },
    {
        let mut j: usize = self.entries.len();
        while j > 0
            invariant
                j <= self.entries@.len(),
                forall|l: int| j <= l < self.entries@.len() ==> self.entries@[l].0@ != ns@,
            decreases j,
        {
            j = j - 1;
            if self.entries[j].0 == *ns {
                proof {
                    lemma_table_map_found(self.entries@, j as int);
                }
                return Some(&self.entries[j].1);
            }
        }
        proof {
            lemma_table_map_missing(self.entries@, ns@);
        }
        None
    }

    /// A copy of the table; later changes to either copy leave the other one
    /// untouched.
    pub fn duplicate(&self) -> (r: PrefixTable)
        ensures
            r@ == self@,
    {
        let mut entries: Vec<(String, String)> = Vec::new();
        let mut i: usize = 0;
        while i < self.entries.len()
            invariant
                i <= self.entries@.len(),
                entries@.len() == i,
                forall|k: int| 0 <= k < i ==> entries@[k] == self.entries@[k],
            decreases self.entries@.len() - i,
        {
            let pair = &self.entries[i];
            entries.push((pair.0.clone(), pair.1.clone()));
            i = i + 1;
        }
        proof {
            assert(entries@ =~= self.entries@);
        }
        PrefixTable { entries }
    }
}

} // verus!
