//! The decoded `map` field: which uploaded field names feed which dotted
//! variable paths.

use vstd::prelude::*;

verus! {

/// The mapping a multipart request declares from file field names to the
/// dotted variable paths each file must be bound at. Keys are unique;
/// the order of the entries carries no meaning.
pub struct FileMap {
    pub entries: Vec<(String, Vec<String>)>,
}

/// The finite map an entry list stands for; a later entry wins a key.
pub open spec fn entries_map(s: Seq<(Seq<char>, Seq<Seq<char>>)>) -> Map<
    Seq<char>,
    Seq<Seq<char>>,
>
    decreases s.len(),
{
    if s.len() == 0 {
        Map::empty()
    } else {
        entries_map(s.drop_last()).insert(s.last().0, s.last().1)
    }
}

pub open spec fn keys_distinct(s: Seq<(Seq<char>, Seq<Seq<char>>)>) -> bool {
    forall|i: int, j: int| 0 <= i < j < s.len() ==> s[i].0 != s[j].0
}

proof fn lemma_entries_map_contains(s: Seq<(Seq<char>, Seq<Seq<char>>)>, i: int)
    requires
        0 <= i < s.len(),
    ensures
        entries_map(s).contains_key(s[i].0),
    decreases s.len(),
{
    if i < s.len() - 1 {
        lemma_entries_map_contains(s.drop_last(), i);
    }
}

proof fn lemma_entries_map_key_index(s: Seq<(Seq<char>, Seq<Seq<char>>)>, k: Seq<char>)
    requires
        entries_map(s).contains_key(k),
    ensures
        exists|i: int| 0 <= i < s.len() && s[i].0 == k,
    decreases s.len(),
{
    if s.len() > 0 && s.last().0 != k {
        lemma_entries_map_key_index(s.drop_last(), k);
        let i = choose|i: int| 0 <= i < s.drop_last().len() && s.drop_last()[i].0 == k;
        assert(s[i].0 == k);
    } else if s.len() > 0 {
        assert(s[s.len() - 1].0 == k);
    }
}

proof fn lemma_entries_map_lookup(s: Seq<(Seq<char>, Seq<Seq<char>>)>, i: int)
    requires
        keys_distinct(s),
        0 <= i < s.len(),
    ensures
        entries_map(s)[s[i].0] == s[i].1,
    decreases s.len(),
{
    if i < s.len() - 1 {
        assert(keys_distinct(s.drop_last()));
        lemma_entries_map_lookup(s.drop_last(), i);
        assert(s.last().0 != s[i].0);
    }
}

proof fn lemma_entries_map_remove(s: Seq<(Seq<char>, Seq<Seq<char>>)>, i: int)
    requires
        keys_distinct(s),
        0 <= i < s.len(),
    ensures
        entries_map(s.remove(i)) == entries_map(s).remove(s[i].0),
    decreases s.len(),
{
    if i == s.len() - 1 {
        assert(s.remove(i) =~= s.drop_last());
        if entries_map(s.drop_last()).contains_key(s[i].0) {
            lemma_entries_map_key_index(s.drop_last(), s[i].0);
            let j = choose|j: int|
                0 <= j < s.drop_last().len() && s.drop_last()[j].0 == s[i].0;
            assert(s[j].0 == s[i].0);
            assert(false);
        }
        assert(entries_map(s.drop_last()) =~= entries_map(s).remove(s[i].0));
    } else {
        assert(keys_distinct(s.drop_last()));
        lemma_entries_map_remove(s.drop_last(), i);
        assert(s.remove(i).drop_last() =~= s.drop_last().remove(i));
        assert(s.remove(i).last() == s.last());
        assert(s.last().0 != s[i].0);
        assert(entries_map(s.remove(i)) =~= entries_map(s).remove(s[i].0));
    }
}

impl FileMap {
    /// The entry list seen at the level of character sequences.
    pub open spec fn entry_models(&self) -> Seq<(Seq<char>, Seq<Seq<char>>)> {
        self.entries@.map_values(|e: (String, Vec<String>)| (e.0@, e.1.deep_view()))
    }

    /// The finite map this value stands for.
    pub open spec fn as_map(&self) -> Map<Seq<char>, Seq<Seq<char>>> {
        entries_map(self.entry_models())
    }

    /// No two entries share a key.
    pub open spec fn wf(&self) -> bool {
        keys_distinct(self.entry_models())
    }

    pub fn new() -> (r: FileMap)
        ensures
            r.wf(),
            r.as_map() == Map::<Seq<char>, Seq<Seq<char>>>::empty(),
    {
        let r = FileMap { entries: Vec::new() };
        proof {
            assert(r.entry_models() =~= Seq::<(Seq<char>, Seq<Seq<char>>)>::empty());
        }
        r
    }

    /// Take the paths declared for `name` out of the map, if any entry
    /// declares them.
    pub fn remove(&mut self, name: &String) -> (r: Option<Vec<String>>)
        requires
            old(self).wf(),
        ensures
            final(self).wf(),
            r is Some <==> old(self).as_map().contains_key(name@),
            r matches Some(ps) ==> ps.deep_view() == old(self).as_map()[name@],
            final(self).as_map() == old(self).as_map().remove(name@),
    {
        let ghost m0 = self.entry_models();
        let mut i: usize = 0;
        while i < self.entries.len()
            invariant
                i <= self.entries@.len(),
                *self == *old(self),
                m0 == self.entry_models(),
                keys_distinct(m0),
                m0.len() == self.entries@.len(),
                forall|j: int| 0 <= j < i ==> self.entries@[j].0@ != name@,
            decreases self.entries@.len() - i,
        {
            if self.entries[i].0.eq(name) {
                proof {
                    lemma_entries_map_contains(m0, i as int);
                    lemma_entries_map_lookup(m0, i as int);
                    lemma_entries_map_remove(m0, i as int);
                }
                let entry = self.entries.remove(i);
                proof {
                    assert(self.entry_models() =~= m0.remove(i as int));
                }
                return Some(entry.1);
            }
            i += 1;
        }
        proof {
            if entries_map(m0).contains_key(name@) {
                lemma_entries_map_key_index(m0, name@);
            }
            assert(entries_map(m0).remove(name@) =~= entries_map(m0));
        }
        None
    }

    /// Whether every declared entry has been consumed.
    pub fn is_empty(&self) -> (r: bool)
        ensures
            r <==> self.as_map() == Map::<Seq<char>, Seq<Seq<char>>>::empty(),
    {
        let r = self.entries.len() == 0;
        proof {
            if r {
                assert(self.entry_models() =~= Seq::<(Seq<char>, Seq<Seq<char>>)>::empty());
                assert(self.as_map() =~= Map::<Seq<char>, Seq<Seq<char>>>::empty());
            } else {
                lemma_entries_map_contains(self.entry_models(), 0);
            }
        }
        r
    }
}

} // verus!
