//! Token estimation: the estimator interface and the default heuristic.

use vstd::prelude::*;
use vstd::string::*;
use crate::text::chars_of;

verus! {

/// Estimates how many model tokens a text takes.
///
/// Callers may supply their own estimator (for example, one backed by a real
/// tokenizer); the library only relies on `estimate` returning `spec_estimate`.
pub trait TokenEstimator {
    /// The estimate for a text, as a function of its characters.
    spec fn spec_estimate(&self, text: Seq<char>) -> nat;

    /// Estimates the tokens in `text`.
    fn estimate(&self, text: &str) -> (n: usize)
        ensures
            n as nat == self.spec_estimate(text@),
    ;
}

/// An ASCII letter.
pub open spec fn is_english(c: char) -> bool {
    ('a' <= c && c <= 'z') || ('A' <= c && c <= 'Z')
}

/// A CJK unified ideograph, basic block or extension A.
pub open spec fn is_cjk(c: char) -> bool {
    ('\u{4e00}' <= c && c <= '\u{9fff}') || ('\u{3400}' <= c && c <= '\u{4dbf}')
}

/// The number of ASCII letters in `s`.
pub open spec fn count_english(s: Seq<char>) -> nat
    decreases s.len(),
{
    if s.len() == 0 {
        0
    } else {
        count_english(s.drop_last()) + if is_english(s.last()) { 1nat } else { 0nat }
    }
}

/// The number of CJK ideographs in `s`.
pub open spec fn count_cjk(s: Seq<char>) -> nat
    decreases s.len(),
{
    if s.len() == 0 {
        0
    } else {
        count_cjk(s.drop_last()) + if is_cjk(s.last()) { 1nat } else { 0nat }
    }
}

/// `max(x, 1)`.
pub open spec fn at_least_one(x: nat) -> nat {
    if x >= 1 { x } else { 1 }
}

/// The tokens of one kind of character: none when the text has none of
/// them, else the estimate but at least one.
pub open spec fn part_tokens(count: nat, tokens: nat) -> nat {
    if count == 0 { 0 } else { at_least_one(tokens) }
}

/// The default heuristic: zero for the empty text; otherwise about four
/// ASCII letters per token, two tokens per three CJK ideographs (about 1.5
/// characters per token) and four other characters per token, each kind
/// that occurs counting at least one token.
pub open spec fn default_estimate(s: Seq<char>) -> nat {
    if s.len() == 0 {
        0
    } else {
        let english = count_english(s);
        let cjk = count_cjk(s);
        let other = (s.len() - english - cjk) as nat;
        part_tokens(english, english / 4) + part_tokens(cjk, cjk * 2 / 3) + part_tokens(other, other / 4)
    }
}

proof fn lemma_two_thirds(c: nat)
    ensures
        c * 2 / 3 == (c / 3) * 2 + ((c % 3) * 2) / 3,
{
    assert(c == 3 * (c / 3) + c % 3) by (nonlinear_arith);
    assert(c * 2 == 3 * ((c / 3) * 2) + (c % 3) * 2) by (nonlinear_arith)
        requires c == 3 * (c / 3) + c % 3;
    assert((3 * ((c / 3) * 2) + (c % 3) * 2) / 3 == (c / 3) * 2 + ((c % 3) * 2) / 3)
        by (nonlinear_arith);
}

/// The default heuristic estimator (see [`default_estimate`]).
#[derive(Clone, Copy, Debug, Default)]
pub struct DefaultTokenEstimator;

impl TokenEstimator for DefaultTokenEstimator {
    open spec fn spec_estimate(&self, text: Seq<char>) -> nat {
        default_estimate(text)
    }

    fn estimate(&self, text: &str) -> (n: usize) {
        let chars = chars_of(text);
        let total = chars.len();
        if total == 0 {
            return 0;
        }
        let mut english: usize = 0;
        let mut cjk: usize = 0;
        let mut i: usize = 0;
        while i < total
            invariant
                total == chars@.len(),
                chars@ == text@,
                i <= total,
                english as nat == count_english(chars@.subrange(0, i as int)),
                cjk as nat == count_cjk(chars@.subrange(0, i as int)),
                english + cjk <= i,
            decreases total - i,
        {
            let c = chars[i];
            assert(chars@.subrange(0, i + 1).drop_last() =~= chars@.subrange(0, i as int));
            if ('a' <= c && c <= 'z') || ('A' <= c && c <= 'Z') {
                english = english + 1;
            } else if ('\u{4e00}' <= c && c <= '\u{9fff}') || ('\u{3400}' <= c && c <= '\u{4dbf}') {
                cjk = cjk + 1;
            }
            i = i + 1;
        }
        assert(chars@.subrange(0, total as int) =~= chars@);
        let other = total - english - cjk;
        let e4 = english / 4;
        let c23 = (cjk / 3) * 2 + ((cjk % 3) * 2) / 3;
        proof {
            lemma_two_thirds(cjk as nat);
        }
        let o4 = other / 4;
        let a = if english == 0 { 0 } else if e4 >= 1 { e4 } else { 1 };
        let b = if cjk == 0 { 0 } else if c23 >= 1 { c23 } else { 1 };
        let d = if other == 0 { 0 } else if o4 >= 1 { o4 } else { 1 };
        a + b + d
    }
}

/// The default estimator, for callers that do not bring their own.
pub fn default_token_estimator() -> (e: DefaultTokenEstimator)
    ensures
        forall|s: Seq<char>| e.spec_estimate(s) == default_estimate(s),
{
    DefaultTokenEstimator
}

/// An estimator carried in a value that other settings hold; it estimates
/// exactly as the estimator it wraps.
#[derive(Clone, Copy, Debug)]
pub struct TokenEstimatorWrapper<E>(pub E);

impl<E: TokenEstimator> TokenEstimator for TokenEstimatorWrapper<E> {
    open spec fn spec_estimate(&self, text: Seq<char>) -> nat {
        self.0.spec_estimate(text)
    }

    fn estimate(&self, text: &str) -> (n: usize) {
        self.0.estimate(text)
    }
}

/// The plain character heuristic: a quarter of the characters, rounded down.
#[derive(Clone, Copy, Debug, Default)]
pub struct QuarterCharEstimator;

impl TokenEstimator for QuarterCharEstimator {
    open spec fn spec_estimate(&self, text: Seq<char>) -> nat {
        text.len() / 4
    }

    fn estimate(&self, text: &str) -> (n: usize) {
        text.unicode_len() / 4
    }
}

} // verus!
