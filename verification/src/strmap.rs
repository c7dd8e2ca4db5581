//! A map keyed by strings, kept as a list of entries with distinct keys.

use vstd::prelude::*;
use vstd::string::*;

verus! {

/// No two entries have the same key.
pub open spec fn str_keys_distinct<V>(s: Seq<(String, V)>) -> bool {
    forall|i: int, j: int| 0 <= i < j < s.len() ==> s[i].0@ != s[j].0@
}

/// The map that a list of entries denotes (later entries win).
pub open spec fn str_entries_map<V>(s: Seq<(String, V)>) -> Map<Seq<char>, V>
    decreases s.len(),
{
    if s.len() == 0 {
        Map::empty()
    } else {
        str_entries_map(s.drop_last()).insert(s.last().0@, s.last().1)
    }
}

/// The keys of entries with distinct keys are exactly the map's keys, each
/// mapped to its entry's value.
pub proof fn lemma_str_entries_map<V>(s: Seq<(String, V)>)
    requires
        str_keys_distinct(s),
    ensures
        forall|i: int| 0 <= i < s.len() ==>
            #[trigger] str_entries_map(s).contains_key(s[i].0@) && str_entries_map(s)[s[i].0@] == s[i].1,
        forall|k: Seq<char>| #[trigger] str_entries_map(s).contains_key(k) ==>
            exists|i: int| 0 <= i < s.len() && s[i].0@ == k,
        str_entries_map(s).dom().finite(),
        str_entries_map(s).dom().len() == s.len(),
    decreases s.len(),
{
    if s.len() > 0 {
        let p = s.drop_last();
        assert(str_keys_distinct(p));
        lemma_str_entries_map(p);
        assert forall|i: int| 0 <= i < s.len() implies
            #[trigger] str_entries_map(s).contains_key(s[i].0@) && str_entries_map(s)[s[i].0@] == s[i].1 by {
            if i < s.len() - 1 {
                assert(p[i] == s[i]);
                assert(s[i].0@ != s.last().0@);
            }
        }
        assert forall|k: Seq<char>| #[trigger] str_entries_map(s).contains_key(k) implies
            exists|i: int| 0 <= i < s.len() && s[i].0@ == k by {
            if k != s.last().0@ {
                assert(str_entries_map(p).contains_key(k));
                let i = choose|i: int| 0 <= i < p.len() && p[i].0@ == k;
                assert(s[i] == p[i]);
            } else {
                assert(s[s.len() - 1].0@ == k);
            }
        }
        assert(!str_entries_map(p).contains_key(s.last().0@)) by {
            if str_entries_map(p).contains_key(s.last().0@) {
                let i = choose|i: int| 0 <= i < p.len() && p[i].0@ == s.last().0@;
                assert(s[i] == p[i]);
            }
        }
    }
}

proof fn lemma_str_entries_map_update<V>(s: Seq<(String, V)>, i: int, e: (String, V))
    requires
        str_keys_distinct(s),
        0 <= i < s.len(),
        e.0@ == s[i].0@,
    ensures
        str_entries_map(s.update(i, e)) == str_entries_map(s).insert(e.0@, e.1),
        str_keys_distinct(s.update(i, e)),
    decreases s.len(),
{
    let t = s.update(i, e);
    assert(str_keys_distinct(t)) by {
        assert forall|a: int, b: int| 0 <= a < b < t.len() implies t[a].0@ != t[b].0@ by {
            assert(s[a].0@ != s[b].0@);
        }
    }
    if i == s.len() - 1 {
        assert(t.drop_last() =~= s.drop_last());
        assert(str_entries_map(t) =~= str_entries_map(s).insert(e.0@, e.1));
    } else {
        let p = s.drop_last();
        assert(str_keys_distinct(p));
        lemma_str_entries_map_update(p, i, e);
        assert(t.drop_last() =~= p.update(i, e));
        assert(s.last().0@ != e.0@);
        assert(str_entries_map(t) =~= str_entries_map(s).insert(e.0@, e.1));
    }
}

/// A map keyed by strings, kept as a list of entries with distinct keys.
#[derive(Debug)]
pub struct StrMap<V> {
    entries: Vec<(String, V)>,
}

impl<V> StrMap<V> {
    #[verifier::type_invariant]
    spec fn wf(self) -> bool {
        str_keys_distinct(self.entries@)
    }

    /// The entries, in the order the map keeps them.
    pub closed spec fn entry_seq(self) -> Seq<(String, V)> {
        self.entries@
    }

    proof fn lemma_wf(&self)
        requires
            str_keys_distinct(self.entries@),
        ensures
            str_keys_distinct(self.entry_seq()),
            self@ == str_entries_map(self.entry_seq()),
            forall|i: int| 0 <= i < self.entry_seq().len() ==>
                #[trigger] self@.contains_key(self.entry_seq()[i].0@) && self@[self.entry_seq()[i].0@] == self.entry_seq()[i].1,
            forall|k: Seq<char>| #[trigger] self@.contains_key(k) ==>
                exists|i: int| 0 <= i < self.entry_seq().len() && self.entry_seq()[i].0@ == k,
            self@.dom().finite(),
            self@.dom().len() == self.entry_seq().len(),
    {
        lemma_str_entries_map(self.entries@);
        assert forall|i: int| 0 <= i < self.entry_seq().len() implies
            #[trigger] self@.contains_key(self.entry_seq()[i].0@) && self@[self.entry_seq()[i].0@] == self.entry_seq()[i].1 by {
            assert(str_entries_map(self.entries@).contains_key(self.entries@[i].0@));
        }
    }

    /// An empty map.
    pub fn new() -> (m: Self)
        ensures
            m@ == Map::<Seq<char>, V>::empty(),
            m.entry_seq() == Seq::<(String, V)>::empty(),
    {
        StrMap { entries: Vec::new() }
    }

    /// The number of entries.
    pub fn len(&self) -> (n: usize)
        ensures
            n == self.entry_seq().len(),
            str_keys_distinct(self.entry_seq()),
    {
        proof {
            use_type_invariant(&*self);
        }
        self.entries.len()
    }

    /// The entry at position `i`.
    pub fn entry_at(&self, i: usize) -> (e: &(String, V))
        requires
            i < self.entry_seq().len(),
        ensures
            *e == self.entry_seq()[i as int],
    {
        &self.entries[i]
    }

    /// The position of the entry for `key`, if any.
    pub fn position(&self, key: &str) -> (r: Option<usize>)
        ensures
            r matches Some(i) ==> i < self.entry_seq().len() && self.entry_seq()[i as int].0@ == key@,
            r is None <==> !self@.contains_key(key@),
    {
        proof {
            use_type_invariant(&*self);
            self.lemma_wf();
        }
        let mut i: usize = 0;
        while i < self.entries.len()
            invariant
                i <= self.entries@.len(),
                forall|j: int| 0 <= j < i ==> self.entries@[j].0@ != key@,
            decreases self.entries@.len() - i,
        {
            if crate::text::str_eq(self.entries[i].0.as_str(), key) {
                proof {
                    use_type_invariant(&*self);
                    self.lemma_wf();
                    assert(self@.contains_key(self.entry_seq()[i as int].0@));
                }
                return Some(i);
            }
            i = i + 1;
        }
        proof {
            if self@.contains_key(key@) {
                let j = choose|j: int| 0 <= j < self.entry_seq().len() && self.entry_seq()[j].0@ == key@;
                assert(self.entries@[j].0@ == key@);
            }
        }
        None
    }

    /// The value for `key`, if any.
    pub fn get(&self, key: &str) -> (r: Option<&V>)
        ensures
            r matches Some(v) ==> self@.contains_key(key@) && *v == self@[key@],
            r is None <==> !self@.contains_key(key@),
    {
        proof {
            use_type_invariant(&*self);
            self.lemma_wf();
        }
        match self.position(key) {
            Some(i) => Some(&self.entries[i].1),
            None => None,
        }
    }

    /// Sets the value for `key`, replacing the one it had; a new key is
    /// added after the existing entries.
    pub fn insert(&mut self, key: String, value: V)
        ensures
            final(self)@ == old(self)@.insert(key@, value),
            old(self)@.contains_key(key@) ==> final(self).entry_seq().len() == old(self).entry_seq().len(),
            !old(self)@.contains_key(key@) ==> final(self).entry_seq() == old(self).entry_seq().push((key, value)),
    {
        proof {
            use_type_invariant(&*self);
            self.lemma_wf();
        }
        let pos = self.position(key.as_str());
        let ghost old_entries = self.entries@;
        let mut es: Vec<(String, V)> = Vec::new();
        std::mem::swap(&mut es, &mut self.entries);
        assert(es@ == old_entries);
        assert(str_keys_distinct(es@));
        match pos {
            Some(i) => {
                proof {
                    lemma_str_entries_map_update(es@, i as int, (key, value));
                }
                es.set(i, (key, value));
            },
            None => {
                proof {
                    assert forall|j: int| 0 <= j < es@.len() implies es@[j].0@ != key@ by {
                        assert(old(self)@.contains_key(old(self).entry_seq()[j].0@));
                    }
                }
                es.push((key, value));
                assert(str_keys_distinct(es@));
                assert(es@.drop_last() =~= old_entries);
            },
        }
        assert(str_keys_distinct(es@));
        self.entries = es;
    }
}

impl<V> View for StrMap<V> {
    type V = Map<Seq<char>, V>;

    open spec fn view(&self) -> Map<Seq<char>, V> {
        str_entries_map(self.entry_seq())
    }
}

} // verus!
