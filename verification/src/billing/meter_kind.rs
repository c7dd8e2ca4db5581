//! Meter kinds and maps keyed by them.

use vstd::prelude::*;

verus! {

/// The kind of meter being measured.
#[derive(Clone, Debug, Hash, PartialEq, Eq)]
pub enum MeterKind {
    InputTokens,
    OutputTokens,
    CachedInputTokens,
    CachedWriteTokens,
    ReasoningTokens,
    AudioInputTokens,
    AudioOutputTokens,
    ImageCount,
    Custom(String),
}

/// The mathematical value of a meter kind.
pub enum MeterKindView {
    InputTokens,
    OutputTokens,
    CachedInputTokens,
    CachedWriteTokens,
    ReasoningTokens,
    AudioInputTokens,
    AudioOutputTokens,
    ImageCount,
    Custom(Seq<char>),
}

impl View for MeterKind {
    type V = MeterKindView;

    open spec fn view(&self) -> MeterKindView {
        match self {
            MeterKind::InputTokens => MeterKindView::InputTokens,
            MeterKind::OutputTokens => MeterKindView::OutputTokens,
            MeterKind::CachedInputTokens => MeterKindView::CachedInputTokens,
            MeterKind::CachedWriteTokens => MeterKindView::CachedWriteTokens,
            MeterKind::ReasoningTokens => MeterKindView::ReasoningTokens,
            MeterKind::AudioInputTokens => MeterKindView::AudioInputTokens,
            MeterKind::AudioOutputTokens => MeterKindView::AudioOutputTokens,
            MeterKind::ImageCount => MeterKindView::ImageCount,
            MeterKind::Custom(s) => MeterKindView::Custom(s@),
        }
    }
}

impl MeterKind {
    /// Whether two kinds are the same (custom kinds by their name).
    pub fn same_kind(&self, other: &MeterKind) -> (b: bool)
        ensures
            b == (self@ == other@),
    {
        match (self, other) {
            (MeterKind::InputTokens, MeterKind::InputTokens) => true,
            (MeterKind::OutputTokens, MeterKind::OutputTokens) => true,
            (MeterKind::CachedInputTokens, MeterKind::CachedInputTokens) => true,
            (MeterKind::CachedWriteTokens, MeterKind::CachedWriteTokens) => true,
            (MeterKind::ReasoningTokens, MeterKind::ReasoningTokens) => true,
            (MeterKind::AudioInputTokens, MeterKind::AudioInputTokens) => true,
            (MeterKind::AudioOutputTokens, MeterKind::AudioOutputTokens) => true,
            (MeterKind::ImageCount, MeterKind::ImageCount) => true,
            (MeterKind::Custom(a), MeterKind::Custom(b)) => *a == *b,
            _ => false,
        }
    }

    /// A copy of this kind.
    pub fn duplicate(&self) -> (k: MeterKind)
        ensures
            k == *self,
            k@ == self@,
    {
        match self {
            MeterKind::InputTokens => MeterKind::InputTokens,
            MeterKind::OutputTokens => MeterKind::OutputTokens,
            MeterKind::CachedInputTokens => MeterKind::CachedInputTokens,
            MeterKind::CachedWriteTokens => MeterKind::CachedWriteTokens,
            MeterKind::ReasoningTokens => MeterKind::ReasoningTokens,
            MeterKind::AudioInputTokens => MeterKind::AudioInputTokens,
            MeterKind::AudioOutputTokens => MeterKind::AudioOutputTokens,
            MeterKind::ImageCount => MeterKind::ImageCount,
            MeterKind::Custom(s) => MeterKind::Custom(s.clone()),
        }
    }
}

/// No two entries have the same kind.
pub open spec fn keys_distinct<V>(s: Seq<(MeterKind, V)>) -> bool {
    forall|i: int, j: int| 0 <= i < j < s.len() ==> s[i].0@ != s[j].0@
}

/// The map that a list of entries denotes (later entries win).
pub open spec fn entries_map<V>(s: Seq<(MeterKind, V)>) -> Map<MeterKindView, V>
    decreases s.len(),
{
    if s.len() == 0 {
        Map::empty()
    } else {
        entries_map(s.drop_last()).insert(s.last().0@, s.last().1)
    }
}

/// The keys of entries with distinct kinds are exactly the map's keys, each
/// mapped to its entry's value.
pub proof fn lemma_entries_map<V>(s: Seq<(MeterKind, V)>)
    requires
        keys_distinct(s),
    ensures
        forall|i: int| 0 <= i < s.len() ==>
            #[trigger] entries_map(s).contains_key(s[i].0@) && entries_map(s)[s[i].0@] == s[i].1,
        forall|k: MeterKindView| #[trigger] entries_map(s).contains_key(k) ==>
            exists|i: int| 0 <= i < s.len() && s[i].0@ == k,
        entries_map(s).dom().finite(),
        entries_map(s).dom().len() == s.len(),
    decreases s.len(),
{
    if s.len() > 0 {
        let p = s.drop_last();
        assert(keys_distinct(p));
        lemma_entries_map(p);
        assert forall|i: int| 0 <= i < s.len() implies
            #[trigger] entries_map(s).contains_key(s[i].0@) && entries_map(s)[s[i].0@] == s[i].1 by {
            if i < s.len() - 1 {
                assert(p[i] == s[i]);
                assert(s[i].0@ != s.last().0@);
            }
        }
        assert forall|k: MeterKindView| #[trigger] entries_map(s).contains_key(k) implies
            exists|i: int| 0 <= i < s.len() && s[i].0@ == k by {
            if k != s.last().0@ {
                assert(entries_map(p).contains_key(k));
                let i = choose|i: int| 0 <= i < p.len() && p[i].0@ == k;
                assert(s[i] == p[i]);
            } else {
                assert(s[s.len() - 1].0@ == k);
            }
        }
        assert(!entries_map(p).contains_key(s.last().0@)) by {
            if entries_map(p).contains_key(s.last().0@) {
                let i = choose|i: int| 0 <= i < p.len() && p[i].0@ == s.last().0@;
                assert(s[i] == p[i]);
            }
        }
    }
}

proof fn lemma_entries_map_update<V>(s: Seq<(MeterKind, V)>, i: int, e: (MeterKind, V))
    requires
        keys_distinct(s),
        0 <= i < s.len(),
        e.0@ == s[i].0@,
    ensures
        entries_map(s.update(i, e)) == entries_map(s).insert(e.0@, e.1),
        keys_distinct(s.update(i, e)),
    decreases s.len(),
{
    let t = s.update(i, e);
    assert(keys_distinct(t)) by {
        assert forall|a: int, b: int| 0 <= a < b < t.len() implies t[a].0@ != t[b].0@ by {
            assert(s[a].0@ != s[b].0@);
        }
    }
    if i == s.len() - 1 {
        assert(t.drop_last() =~= s.drop_last());
        assert(entries_map(t) =~= entries_map(s).insert(e.0@, e.1));
    } else {
        let p = s.drop_last();
        assert(keys_distinct(p));
        lemma_entries_map_update(p, i, e);
        assert(t.drop_last() =~= p.update(i, e));
        assert(s.last().0@ != e.0@);
        assert(entries_map(t) =~= entries_map(s).insert(e.0@, e.1));
    }
}

/// A map keyed by meter kind, kept as a list of entries with distinct kinds.
#[derive(Debug)]
pub struct KindMap<V> {
    entries: Vec<(MeterKind, V)>,
}

impl<V> KindMap<V> {
    #[verifier::type_invariant]
    spec fn wf(self) -> bool {
        keys_distinct(self.entries@)
    }

    /// The entries, in the order the map keeps them.
    pub closed spec fn entry_seq(self) -> Seq<(MeterKind, V)> {
        self.entries@
    }

    proof fn lemma_wf(&self)
        requires
            keys_distinct(self.entries@),
        ensures
            keys_distinct(self.entry_seq()),
            self@ == entries_map(self.entry_seq()),
            forall|i: int| 0 <= i < self.entry_seq().len() ==>
                #[trigger] self@.contains_key(self.entry_seq()[i].0@) && self@[self.entry_seq()[i].0@] == self.entry_seq()[i].1,
            forall|k: MeterKindView| #[trigger] self@.contains_key(k) ==>
                exists|i: int| 0 <= i < self.entry_seq().len() && self.entry_seq()[i].0@ == k,
            self@.dom().finite(),
            self@.dom().len() == self.entry_seq().len(),
    {
        lemma_entries_map(self.entries@);
        assert forall|i: int| 0 <= i < self.entry_seq().len() implies
            #[trigger] self@.contains_key(self.entry_seq()[i].0@) && self@[self.entry_seq()[i].0@] == self.entry_seq()[i].1 by {
            assert(entries_map(self.entries@).contains_key(self.entries@[i].0@));
        }
    }

    /// An empty map.
    pub fn new() -> (m: Self)
        ensures
            m@ == Map::<MeterKindView, V>::empty(),
            m.entry_seq() == Seq::<(MeterKind, V)>::empty(),
    {
        KindMap { entries: Vec::new() }
    }

    /// The number of entries.
    pub fn len(&self) -> (n: usize)
        ensures
            n == self.entry_seq().len(),
            keys_distinct(self.entry_seq()),
    {
        proof {
            use_type_invariant(&*self);
        }
        self.entries.len()
    }

    /// The entry at position `i`.
    pub fn entry_at(&self, i: usize) -> (e: &(MeterKind, V))
        requires
            i < self.entry_seq().len(),
        ensures
            *e == self.entry_seq()[i as int],
    {
        &self.entries[i]
    }

    /// The position of the entry for `kind`, if any.
    pub fn position(&self, kind: &MeterKind) -> (r: Option<usize>)
        ensures
            r matches Some(i) ==> i < self.entry_seq().len() && self.entry_seq()[i as int].0@ == kind@,
            r is None <==> !self@.contains_key(kind@),
    {
        proof {
            use_type_invariant(&*self);
            self.lemma_wf();
        }
        let mut i: usize = 0;
        while i < self.entries.len()
            invariant
                i <= self.entries@.len(),
                forall|j: int| 0 <= j < i ==> self.entries@[j].0@ != kind@,
            decreases self.entries@.len() - i,
        {
            if self.entries[i].0.same_kind(kind) {
                proof {
                    use_type_invariant(&*self);
                    self.lemma_wf();
                    assert(self@.contains_key(self.entry_seq()[i as int].0@));
                }
                return Some(i);
            }
            i = i + 1;
        }
        proof {
            if self@.contains_key(kind@) {
                let j = choose|j: int| 0 <= j < self.entry_seq().len() && self.entry_seq()[j].0@ == kind@;
                assert(self.entries@[j].0@ == kind@);
            }
        }
        None
    }

    /// The value for `kind`, if any.
    pub fn get(&self, kind: &MeterKind) -> (r: Option<&V>)
        ensures
            r matches Some(v) ==> self@.contains_key(kind@) && *v == self@[kind@],
            r is None <==> !self@.contains_key(kind@),
    {
        proof {
            use_type_invariant(&*self);
            self.lemma_wf();
        }
        match self.position(kind) {
            Some(i) => Some(&self.entries[i].1),
            None => None,
        }
    }

    /// Sets the value for `kind`, replacing the one it had; a new kind is
    /// added after the existing entries.
    pub fn insert(&mut self, kind: MeterKind, value: V)
        ensures
            final(self)@ == old(self)@.insert(kind@, value),
            old(self)@.contains_key(kind@) ==> final(self).entry_seq().len() == old(self).entry_seq().len(),
            !old(self)@.contains_key(kind@) ==> final(self).entry_seq() == old(self).entry_seq().push((kind, value)),
    {
        proof {
            use_type_invariant(&*self);
            self.lemma_wf();
        }
        let pos = self.position(&kind);
        let ghost old_entries = self.entries@;
        let mut es: Vec<(MeterKind, V)> = Vec::new();
        std::mem::swap(&mut es, &mut self.entries);
        assert(es@ == old_entries);
        assert(keys_distinct(es@));
        match pos {
            Some(i) => {
                proof {
                    lemma_entries_map_update(es@, i as int, (kind, value));
                }
                es.set(i, (kind, value));
            },
            None => {
                proof {
                    assert forall|j: int| 0 <= j < es@.len() implies es@[j].0@ != kind@ by {
                        assert(old(self)@.contains_key(old(self).entry_seq()[j].0@));
                    }
                }
                es.push((kind, value));
                assert(keys_distinct(es@));
                assert(es@.drop_last() =~= old_entries);
            },
        }
        assert(keys_distinct(es@));
        self.entries = es;
    }
}

impl<V> View for KindMap<V> {
    type V = Map<MeterKindView, V>;

    open spec fn view(&self) -> Map<MeterKindView, V> {
        entries_map(self.entry_seq())
    }
}

} // verus!
