//! The entries of one sampled text, as a mapping from counter key to value and unit.

use vstd::prelude::*;

verus! {

/// The mapping that a run of `(key, value, unit)` entries stands for: each key maps to the
/// value and unit of the last entry that names it.
pub open spec fn mapping(entries: Seq<(Seq<char>, Seq<char>, Seq<char>)>) -> Map<
    Seq<char>,
    (Seq<char>, Seq<char>),
>
    decreases entries.len(),
{
    if entries.len() == 0 {
        Map::empty()
    } else {
        mapping(entries.drop_last()).insert(entries.last().0, (entries.last().1, entries.last().2))
    }
}

/// No entry of `entries` at or after `from` names `key`.
pub open spec fn absent_from(
    entries: Seq<(Seq<char>, Seq<char>, Seq<char>)>,
    key: Seq<char>,
    from: int,
) -> bool {
    forall|j: int| from <= j < entries.len() ==> (#[trigger] entries[j]).0 != key
}

/// A key that no entry names is not in the mapping.
pub proof fn lemma_mapping_without(entries: Seq<(Seq<char>, Seq<char>, Seq<char>)>, key: Seq<char>)
    requires
        absent_from(entries, key, 0),
    ensures
        !mapping(entries).contains_key(key),
    decreases entries.len(),
{
    if entries.len() > 0 {
        let front = entries.drop_last();
        assert forall|j: int| 0 <= j < front.len() implies (#[trigger] front[j]).0 != key by {
            assert(front[j] == entries[j]);
        }
        lemma_mapping_without(front, key);
        assert(entries.last() == entries[entries.len() - 1]);
    }
}

/// The last entry that names a key gives the key's value and unit.
pub proof fn lemma_mapping_last_wins(
    entries: Seq<(Seq<char>, Seq<char>, Seq<char>)>,
    key: Seq<char>,
    at: int,
)
    requires
        0 <= at < entries.len(),
        entries[at].0 == key,
        absent_from(entries, key, at + 1),
    ensures
        mapping(entries).contains_key(key),
        mapping(entries)[key] == (entries[at].1, entries[at].2),
    decreases entries.len(),
{
    let front = entries.drop_last();
    if at < entries.len() - 1 {
        assert(entries.last() == entries[entries.len() - 1]);
        assert(front[at] == entries[at]);
        assert forall|j: int| at + 1 <= j < front.len() implies (#[trigger] front[j]).0 != key by {
            assert(front[j] == entries[j]);
        }
        lemma_mapping_last_wins(front, key, at);
    }
}

/// The entries found in one sampled text, in the order in which they were found.
///
/// It stands for a mapping from key to value and unit in which a later entry for a key
/// replaces an earlier one.
#[derive(Debug)]
pub struct SampleMap {
    entries: Vec<(String, String, String)>,
}

impl View for SampleMap {
    type V = Map<Seq<char>, (Seq<char>, Seq<char>)>;

    open spec fn view(&self) -> Self::V {
        mapping(self.entries())
    }
}

impl SampleMap {
    /// The entries as they were found, each as key, value and unit.
    pub closed spec fn entries(&self) -> Seq<(Seq<char>, Seq<char>, Seq<char>)> {
        self.entries.deep_view()
    }

    /// A mapping with no entry.
    pub fn new() -> (map: SampleMap)
        ensures
            map.entries() == Seq::<(Seq<char>, Seq<char>, Seq<char>)>::empty(),
            map@ == Map::<Seq<char>, (Seq<char>, Seq<char>)>::empty(),
    {
        let map = SampleMap { entries: Vec::new() };
        assert(map.entries.deep_view() =~= Seq::<(Seq<char>, Seq<char>, Seq<char>)>::empty());
        map
    }

    /// The mapping of entries that were found in this order.
    pub fn from_entries(entries: Vec<(String, String, String)>) -> (map: SampleMap)
        ensures
            map.entries() == entries.deep_view(),
            map@ == mapping(entries.deep_view()),
    {
        SampleMap { entries }
    }

    /// Adds an entry behind the others: `key` now maps to `value` and `unit`, whatever it
    /// mapped to before.
    pub fn insert(&mut self, key: &str, value: &str, unit: &str)
        ensures
            final(self).entries() == old(self).entries().push((key@, value@, unit@)),
            final(self)@ == old(self)@.insert(key@, (value@, unit@)),
    {
        let ghost before = self.entries.deep_view();
        self.entries.push((key.to_owned(), value.to_owned(), unit.to_owned()));
        proof {
            let after = self.entries.deep_view();
            assert(after =~= before.push((key@, value@, unit@)));
            assert(after.drop_last() =~= before);
        }
    }

    /// Adds the entries of `more` behind the others, in their order.
    pub fn extend(&mut self, more: Vec<(String, String, String)>)
        ensures
            final(self).entries() == old(self).entries() + more.deep_view(),
    {
        let ghost before = self.entries.deep_view();
        let mut more = more;
        let ghost added = more.deep_view();
        self.entries.append(&mut more);
        assert(self.entries.deep_view() =~= before + added);
    }

    /// The value and unit that `key` maps to, if any entry names it.
    pub fn get(&self, key: &str) -> (found: Option<(&str, &str)>)
        ensures
            match found {
                Some(pair) => self@.contains_key(key@) && self@[key@] == (pair.0@, pair.1@),
                None => !self@.contains_key(key@),
            },
    {
        let wanted = key.to_owned();
        let ghost entries = self.entries.deep_view();
        let mut i: usize = self.entries.len();
        while i > 0
            invariant
                i <= self.entries.len(),
                entries == self.entries.deep_view(),
                wanted@ == key@,
                absent_from(entries, key@, i as int),
            decreases i,
        {
            i = i - 1;
            let entry = &self.entries[i];
            assert(entries[i as int] == (entry.0@, entry.1@, entry.2@));
            if entry.0 == wanted {
                proof {
                    lemma_mapping_last_wins(entries, key@, i as int);
                }
                return Some((entry.1.as_str(), entry.2.as_str()));
            }
        }
        proof {
            lemma_mapping_without(entries, key@);
        }
        None
    }
}

} // verus!
