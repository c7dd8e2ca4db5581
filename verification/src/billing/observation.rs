//! Usage observations: meter readings, attributes, timing and currency codes.

use vstd::prelude::*;
use vstd::string::*;
use crate::text::{chars_of, str_starts_with};
use crate::billing::meter_kind::{MeterKind, MeterKindView, KindMap};
use crate::billing::identity::{BillingSubject, CorrelationIds, UsageEventId};
use crate::billing::pricing::{ModelRef, ProviderRef};

verus! {

/// A raw usage observation: an immutable fact, the input to rating.
#[derive(Debug)]
pub struct UsageObservation {
    pub event_id: UsageEventId,
    pub subject: BillingSubject,
    pub meter_set: MeterSet,
    pub model_ref: ModelRef,
    pub provider_ref: Option<ProviderRef>,
    pub source: UsageSource,
    pub outcome: UsageOutcome,
    pub timing: UsageTiming,
    pub correlation: CorrelationIds,
    pub attributes: Attributes,
}

/// Meter readings, one quantity per meter kind.
#[derive(Debug)]
pub struct MeterSet {
    pub meters: KindMap<u64>,
}

/// Why a reading could not be added.
#[derive(Clone, Debug, PartialEq, Eq)]
pub enum MeterSetError {
    Overflow(MeterKind),
}

impl View for MeterSet {
    type V = Map<MeterKindView, u64>;

    open spec fn view(&self) -> Map<MeterKindView, u64> {
        self.meters@
    }
}

/// The quantity for `k` in `m`, zero when absent.
pub open spec fn quantity_of(m: Map<MeterKindView, u64>, k: MeterKindView) -> nat {
    if m.contains_key(k) { m[k] as nat } else { 0 }
}

impl MeterSet {
    /// An empty set of readings.
    pub fn new() -> (m: Self)
        ensures
            m@ == Map::<MeterKindView, u64>::empty(),
    {
        MeterSet { meters: KindMap::new() }
    }

    /// Adds `quantity` to the reading for `kind`; refused, leaving the set
    /// unchanged, when the sum would not fit in a `u64`.
    pub fn accumulate(&mut self, kind: MeterKind, quantity: u64) -> (r: Result<(), MeterSetError>)
        ensures
            r is Ok <==> quantity_of(old(self)@, kind@) + quantity <= u64::MAX,
            r is Ok ==> final(self)@ == old(self)@.insert(kind@, (quantity_of(old(self)@, kind@) + quantity) as u64),
            r matches Err(MeterSetError::Overflow(k)) ==> k@ == kind@ && final(self)@ == old(self)@,
    {
        match self.meters.get(&kind) {
            Some(v) => {
                let current: u64 = *v;
                match current.checked_add(quantity) {
                    Some(total) => {
                        self.meters.insert(kind, total);
                        Ok(())
                    },
                    None => Err(MeterSetError::Overflow(kind)),
                }
            },
            None => {
                self.meters.insert(kind, quantity);
                Ok(())
            },
        }
    }

    /// The reading for `kind`, zero when absent.
    pub fn get(&self, kind: &MeterKind) -> (q: u64)
        ensures
            q as nat == quantity_of(self@, kind@),
    {
        match self.meters.get(kind) {
            Some(v) => *v,
            None => 0,
        }
    }
}

impl Default for MeterSet {
    fn default() -> (m: Self)
        ensures
            m@ == Map::<MeterKindView, u64>::empty(),
    {
        MeterSet::new()
    }
}

/// Where an observation came from.
#[derive(Clone, Debug, PartialEq, Eq)]
pub enum UsageSource {
    ProviderReported,
    StreamAccumulated,
    Estimated,
    Corrected { correction_of: UsageEventId },
}

/// How the request ended.
#[derive(Clone, Debug, PartialEq, Eq)]
pub enum UsageOutcome {
    Success,
    Error { code: String },
    Timeout,
    Unknown,
}

/// No two attribute entries have the same key.
pub open spec fn attr_keys_distinct(s: Seq<(String, String)>) -> bool {
    forall|i: int, j: int| 0 <= i < j < s.len() ==> s[i].0@ != s[j].0@
}

/// The map that attribute entries denote.
pub open spec fn attr_map(s: Seq<(String, String)>) -> Map<Seq<char>, Seq<char>>
    decreases s.len(),
{
    if s.len() == 0 {
        Map::empty()
    } else {
        attr_map(s.drop_last()).insert(s.last().0@, s.last().1@)
    }
}

proof fn lemma_attr_map(s: Seq<(String, String)>)
    requires
        attr_keys_distinct(s),
    ensures
        forall|i: int| 0 <= i < s.len() ==>
            #[trigger] attr_map(s).contains_key(s[i].0@) && attr_map(s)[s[i].0@] == s[i].1@,
        forall|k: Seq<char>| #[trigger] attr_map(s).contains_key(k) ==>
            exists|i: int| 0 <= i < s.len() && s[i].0@ == k,
        attr_map(s).dom().finite(),
        attr_map(s).dom().len() == s.len(),
    decreases s.len(),
{
    if s.len() > 0 {
        let p = s.drop_last();
        assert(attr_keys_distinct(p));
        lemma_attr_map(p);
        assert forall|i: int| 0 <= i < s.len() implies
            #[trigger] attr_map(s).contains_key(s[i].0@) && attr_map(s)[s[i].0@] == s[i].1@ by {
            if i < s.len() - 1 {
                assert(p[i] == s[i]);
                assert(s[i].0@ != s.last().0@);
                assert(attr_map(p).contains_key(p[i].0@));
            }
        }
        assert forall|k: Seq<char>| #[trigger] attr_map(s).contains_key(k) implies
            exists|i: int| 0 <= i < s.len() && s[i].0@ == k by {
            if k != s.last().0@ {
                assert(attr_map(p).contains_key(k));
                let i = choose|i: int| 0 <= i < p.len() && p[i].0@ == k;
                assert(s[i] == p[i]);
            } else {
                assert(s[s.len() - 1].0@ == k);
            }
        }
        assert(!attr_map(p).contains_key(s.last().0@)) by {
            if attr_map(p).contains_key(s.last().0@) {
                let i = choose|i: int| 0 <= i < p.len() && p[i].0@ == s.last().0@;
                assert(s[i] == p[i]);
            }
        }
    }
}

proof fn lemma_attr_map_update(s: Seq<(String, String)>, i: int, e: (String, String))
    requires
        attr_keys_distinct(s),
        0 <= i < s.len(),
        e.0@ == s[i].0@,
    ensures
        attr_map(s.update(i, e)) == attr_map(s).insert(e.0@, e.1@),
        attr_keys_distinct(s.update(i, e)),
    decreases s.len(),
{
    let t = s.update(i, e);
    assert(attr_keys_distinct(t)) by {
        assert forall|a: int, b: int| 0 <= a < b < t.len() implies t[a].0@ != t[b].0@ by {
            assert(s[a].0@ != s[b].0@);
        }
    }
    if i == s.len() - 1 {
        assert(t.drop_last() =~= s.drop_last());
        assert(attr_map(t) =~= attr_map(s).insert(e.0@, e.1@));
    } else {
        let p = s.drop_last();
        assert(attr_keys_distinct(p));
        lemma_attr_map_update(p, i, e);
        assert(t.drop_last() =~= p.update(i, e));
        assert(s.last().0@ != e.0@);
        assert(attr_map(t) =~= attr_map(s).insert(e.0@, e.1@));
    }
}

/// Extensible attributes: keys may not start with "sys." and are at most
/// 64 bytes; values are at most 256 bytes.
#[derive(Debug)]
pub struct Attributes {
    inner: Vec<(String, String)>,
}

/// Why an attribute was refused.
#[derive(Clone, Debug, PartialEq, Eq)]
pub enum AttributeError {
    ReservedPrefix(String),
    KeyTooLong { key: String, len: usize },
    ValueTooLong { key: String, len: usize },
}

impl View for Attributes {
    type V = Map<Seq<char>, Seq<char>>;

    closed spec fn view(&self) -> Map<Seq<char>, Seq<char>> {
        attr_map(self.inner@)
    }
}

/// The reserved key prefix.
pub open spec fn reserved_prefix() -> Seq<char> {
    "sys."@
}

impl Attributes {
    /// The longest key, in bytes.
    pub const MAX_KEY_LEN: usize = 64;
    /// The longest value, in bytes.
    pub const MAX_VALUE_LEN: usize = 256;

    #[verifier::type_invariant]
    spec fn wf(self) -> bool {
        attr_keys_distinct(self.inner@)
    }

    /// No attributes.
    pub fn new() -> (a: Self)
        ensures
            a@ == Map::<Seq<char>, Seq<char>>::empty(),
    {
        Attributes { inner: Vec::new() }
    }

    fn position(&self, key: &str) -> (r: Option<usize>)
        ensures
            r matches Some(i) ==> i < self.inner@.len() && self.inner@[i as int].0@ == key@,
            r is None <==> !self@.contains_key(key@),
    {
        proof {
            use_type_invariant(&*self);
            lemma_attr_map(self.inner@);
        }
        let mut i: usize = 0;
        while i < self.inner.len()
            invariant
                i <= self.inner@.len(),
                forall|j: int| 0 <= j < i ==> self.inner@[j].0@ != key@,
            decreases self.inner@.len() - i,
        {
            if crate::text::str_eq(self.inner[i].0.as_str(), key) {
                proof {
                    use_type_invariant(&*self);
                    lemma_attr_map(self.inner@);
                    assert(attr_map(self.inner@).contains_key(self.inner@[i as int].0@));
                }
                return Some(i);
            }
            i = i + 1;
        }
        proof {
            if self@.contains_key(key@) {
                let j = choose|j: int| 0 <= j < self.inner@.len() && self.inner@[j].0@ == key@;
                assert(self.inner@[j].0@ == key@);
            }
        }
        None
    }

    /// Adds (or replaces) an attribute. A key with the reserved prefix
    /// "sys.", a key over 64 bytes or a value over 256 bytes is refused,
    /// in that order of checks, and the attributes stay as they were.
    pub fn insert(&mut self, key: &str, value: &str) -> (r: Result<(), AttributeError>)
        ensures
            r is Ok <==> !reserved_prefix().is_prefix_of(key@)
                && crate::compress::byte_len(key@) <= 64
                && crate::compress::byte_len(value@) <= 256,
            r is Ok ==> final(self)@ == old(self)@.insert(key@, value@),
            r is Err ==> final(self)@ == old(self)@,
            r matches Err(AttributeError::ReservedPrefix(k)) ==> k@ == key@ && reserved_prefix().is_prefix_of(key@),
            r matches Err(AttributeError::KeyTooLong { key: k, len }) ==> k@ == key@
                && !reserved_prefix().is_prefix_of(key@) && len as nat == crate::compress::byte_len(key@) && len > 64,
            r matches Err(AttributeError::ValueTooLong { key: k, len }) ==> k@ == key@
                && !reserved_prefix().is_prefix_of(key@) && crate::compress::byte_len(key@) <= 64
                && len as nat == crate::compress::byte_len(value@) && len > 256,
    {
        if str_starts_with(key, "sys.") {
            return Err(AttributeError::ReservedPrefix(String::from_str(key)));
        }
        let klen = key.len();
        if klen > Self::MAX_KEY_LEN {
            return Err(AttributeError::KeyTooLong { key: String::from_str(key), len: klen });
        }
        let vlen = value.len();
        if vlen > Self::MAX_VALUE_LEN {
            return Err(AttributeError::ValueTooLong { key: String::from_str(key), len: vlen });
        }
        proof {
            use_type_invariant(&*self);
            lemma_attr_map(self.inner@);
        }
        let pos = self.position(key);
        let ghost old_inner = self.inner@;
        let mut es: Vec<(String, String)> = Vec::new();
        std::mem::swap(&mut es, &mut self.inner);
        assert(es@ == old_inner);
        let entry = (String::from_str(key), String::from_str(value));
        match pos {
            Some(i) => {
                proof {
                    lemma_attr_map_update(es@, i as int, entry);
                }
                es.set(i, entry);
            },
            None => {
                proof {
                    assert forall|j: int| 0 <= j < es@.len() implies es@[j].0@ != key@ by {
                        assert(attr_map(old_inner).contains_key(old_inner[j].0@));
                    }
                }
                es.push(entry);
                assert(es@.drop_last() =~= old_inner);
            },
        }
        assert(attr_keys_distinct(es@));
        self.inner = es;
        Ok(())
    }

    /// The value for `key`, if any.
    pub fn get(&self, key: &str) -> (r: Option<&str>)
        ensures
            r matches Some(v) ==> self@.contains_key(key@) && v@ == self@[key@],
            r is None <==> !self@.contains_key(key@),
    {
        proof {
            use_type_invariant(&*self);
            lemma_attr_map(self.inner@);
        }
        match self.position(key) {
            Some(i) => Some(self.inner[i].1.as_str()),
            None => None,
        }
    }

    /// All attributes as (key, value) pairs, each key once.
    pub fn iter(&self) -> (v: Vec<(String, String)>)
        ensures
            v@.len() == self@.dom().len(),
            forall|i: int| 0 <= i < v@.len() ==>
                #[trigger] self@.contains_key(v@[i].0@) && self@[v@[i].0@] == v@[i].1@,
            forall|i: int, j: int| 0 <= i < j < v@.len() ==> v@[i].0@ != v@[j].0@,
    {
        proof {
            use_type_invariant(&*self);
            lemma_attr_map(self.inner@);
        }
        let mut out: Vec<(String, String)> = Vec::new();
        let mut i: usize = 0;
        while i < self.inner.len()
            invariant
                i <= self.inner@.len(),
                out@.len() == i,
                forall|j: int| 0 <= j < i ==> #[trigger] out@[j].0@ == self.inner@[j].0@ && out@[j].1@ == self.inner@[j].1@,
            decreases self.inner@.len() - i,
        {
            let e = &self.inner[i];
            out.push((e.0.clone(), e.1.clone()));
            i = i + 1;
        }
        proof {
            assert forall|a: int| 0 <= a < out@.len() implies
                #[trigger] self@.contains_key(out@[a].0@) && self@[out@[a].0@] == out@[a].1@ by {
                assert(out@[a].0@ == self.inner@[a].0@);
                assert(attr_map(self.inner@).contains_key(self.inner@[a].0@));
            }
            assert forall|a: int, b: int| 0 <= a < b < out@.len() implies out@[a].0@ != out@[b].0@ by {
                assert(out@[a].0@ == self.inner@[a].0@);
                assert(out@[b].0@ == self.inner@[b].0@);
            }
        }
        out
    }
}

/// A moment in UTC: seconds since the Unix epoch and nanoseconds within the second.
#[derive(Clone, Copy, Debug, PartialEq, Eq)]
pub struct UtcTimestamp {
    pub secs: i64,
    pub nanos: u32,
}

impl UtcTimestamp {
    /// The current time, as `chrono::Utc::now()` reads it; nothing is promised of the value.
    #[verifier::external_body]
    pub(crate) fn now() -> (t: UtcTimestamp) {
        let now = chrono::Utc::now();
        UtcTimestamp { secs: now.timestamp(), nanos: now.timestamp_subsec_nanos() }
    }
}

/// When an observation was made and when its request completed.
#[derive(Clone, Copy, Debug, PartialEq, Eq)]
pub struct UsageTiming {
    pub observed_at: UtcTimestamp,
    pub completed_at: Option<UtcTimestamp>,
}

/// An ISO 4217-shaped currency code.
#[derive(Clone, Debug, PartialEq, Eq, Hash)]
pub struct CurrencyCode(pub String);

/// Why a currency code was refused.
#[derive(Clone, Debug, PartialEq, Eq)]
pub enum CurrencyCodeError {
    Invalid(String),
}

/// An ASCII uppercase letter.
pub open spec fn is_upper(c: char) -> bool {
    'A' <= c && c <= 'Z'
}

/// A currency code: three bytes, each an ASCII uppercase letter.
pub open spec fn valid_currency(s: Seq<char>) -> bool {
    crate::compress::byte_len(s) == 3 && forall|i: int| 0 <= i < s.len() ==> is_upper(#[trigger] s[i])
}

impl CurrencyCode {
    /// US dollars.
    pub fn usd() -> (c: Self)
        ensures
            c.0@ == "USD"@,
    {
        CurrencyCode(String::from_str("USD"))
    }

    /// Chinese yuan.
    pub fn cny() -> (c: Self)
        ensures
            c.0@ == "CNY"@,
    {
        CurrencyCode(String::from_str("CNY"))
    }

    /// Euros.
    pub fn eur() -> (c: Self)
        ensures
            c.0@ == "EUR"@,
    {
        CurrencyCode(String::from_str("EUR"))
    }

    /// Parses a code of exactly three uppercase ASCII letters.
    pub fn parse(s: &str) -> (r: Result<Self, CurrencyCodeError>)
        ensures
            r is Ok <==> valid_currency(s@),
            r matches Ok(c) ==> c.0@ == s@,
            r matches Err(CurrencyCodeError::Invalid(t)) ==> t@ == s@,
    {
        if s.len() == 3 {
            let cs = chars_of(s);
            let mut i: usize = 0;
            while i < cs.len()
                invariant
                    cs@ == s@,
                    i <= cs@.len(),
                    forall|j: int| 0 <= j < i ==> is_upper(#[trigger] cs@[j]),
                decreases cs@.len() - i,
            {
                let c = cs[i];
                if !('A' <= c && c <= 'Z') {
                    return Err(CurrencyCodeError::Invalid(String::from_str(s)));
                }
                i = i + 1;
            }
            Ok(CurrencyCode(String::from_str(s)))
        } else {
            Err(CurrencyCodeError::Invalid(String::from_str(s)))
        }
    }
}

impl CurrencyCodeError {
    /// The human-readable message: `"Invalid currency code: {code}"`.
    pub fn message(&self) -> (m: String)
        ensures
            m@ == match self {
                CurrencyCodeError::Invalid(s) => "Invalid currency code: "@ + s@,
            },
    {
        match self {
            CurrencyCodeError::Invalid(s) => {
                let mut m = String::from_str("Invalid currency code: ");
                m.append(s.as_str());
                m
            },
        }
    }
}

} // verus!
