//! Content analysis of a conversation: code, design talk, images, retries
//! after failures, simple questions and CJK share.

use vstd::prelude::*;
use crate::text::{chars_of, matches_at, occurs_at, seq_contains, str_contains, lowercase_of, to_lowercase};
use crate::message::{Message, MessageView, msgs_view, role_is};

verus! {

/// Some keyword of `keywords` occurs in `text`.
pub open spec fn any_keyword(text: Seq<char>, keywords: Seq<&str>) -> bool {
    exists|i: int| 0 <= i < keywords.len() && seq_contains(text, #[trigger] keywords[i]@)
}

/// Whether `text` contains any of `keywords`.
pub fn contains_any(text: &str, keywords: &[&str]) -> (b: bool)
    ensures
        b == any_keyword(text@, keywords@),
{
    let mut i: usize = 0;
    while i < keywords.len()
        invariant
            i <= keywords@.len(),
            forall|k: int| 0 <= k < i ==> !seq_contains(text@, #[trigger] keywords@[k]@),
        decreases keywords@.len() - i,
    {
        if str_contains(text, keywords[i]) {
            return true;
        }
        i = i + 1;
    }
    false
}

/// A line of `s` starts at position `i`.
pub open spec fn line_start(s: Seq<char>, i: int) -> bool {
    i == 0 || (0 < i <= s.len() && s[i - 1] == '\n')
}

/// A line of `s` starts at position `i` with four spaces or a tab.
pub open spec fn indented_at(s: Seq<char>, i: int) -> bool {
    line_start(s, i) && (occurs_at(s, "    "@, i) || occurs_at(s, "\t"@, i))
}

/// Some line of `s` starts with four spaces or a tab.
pub open spec fn indented(s: Seq<char>) -> bool {
    exists|i: int| #[trigger] indented_at(s, i)
}

/// Whether some line of `text` is indented by four spaces or a tab.
pub fn has_indented_lines(text: &str) -> (b: bool)
    ensures
        b == indented(text@),
{
    let s = chars_of(text);
    let four = chars_of("    ");
    let tab = chars_of("\t");
    let n = s.len();
    let mut i: usize = 0;
    while i < n
        invariant
            n == s@.len(),
            s@ == text@,
            four@ == "    "@,
            tab@ == "\t"@,
            i <= n,
            forall|k: int| 0 <= k < i ==> !#[trigger] indented_at(s@, k),
        decreases n - i,
    {
        if i == 0 || s[i - 1] == '\n' {
            if four.len() <= n - i && matches_at(&s, &four, i) {
                assert(indented_at(s@, i as int));
                return true;
            }
            if tab.len() <= n - i && matches_at(&s, &tab, i) {
                assert(indented_at(s@, i as int));
                return true;
            }
            assert(!occurs_at(s@, four@, i as int));
            assert(!occurs_at(s@, tab@, i as int));
        } else {
            assert(!line_start(s@, i as int));
        }
        assert(!indented_at(s@, i as int));
        i = i + 1;
    }
    proof {
        reveal_strlit("    ");
        reveal_strlit("\t");
        assert forall|k: int| !#[trigger] indented_at(s@, k) by {
            if k >= n {
                assert(!occurs_at(s@, "    "@, k));
                assert(!occurs_at(s@, "\t"@, k));
            }
        }
    }
    false
}

/// Features found in the last messages of a conversation. The CJK share is
/// carried as its two counts: CJK characters and all characters.
#[derive(Clone, Debug, PartialEq, Eq)]
pub struct ContentProfile {
    pub has_code: bool,
    pub has_architecture: bool,
    pub has_images: bool,
    pub is_simple: bool,
    pub has_failure_retry: bool,
    pub cjk_chars: usize,
    pub total_chars: usize,
}

/// The last three messages (all of them when there are fewer).
pub open spec fn recent(msgs: Seq<MessageView>) -> Seq<MessageView> {
    msgs.subrange(if msgs.len() >= 3 { msgs.len() - 3 } else { 0 }, msgs.len() as int)
}

/// Words that suggest code.
pub open spec fn code_keywords() -> Seq<&'static str> {
    seq!["rust", "python", "javascript", "go", "java", "c++", "typescript",
        "fn ", "def ", "function ", "impl ", "class ", "struct "]
}

/// Words that suggest design discussion.
pub open spec fn architecture_keywords() -> Seq<&'static str> {
    seq!["design", "architecture", "tradeoff", "refactor", "migrate",
        "system design", "scalability", "pattern"]
}

/// Image file extensions.
pub open spec fn image_keywords() -> Seq<&'static str> {
    seq![".png", ".jpg", ".jpeg", ".gif", ".webp"]
}

/// Words that suggest a retry after a failure.
pub open spec fn failure_keywords() -> Seq<&'static str> {
    seq!["fix this error", "still broken", "try again", "not working",
        "error:", "exception:", "failed"]
}

/// Content that shows code: a fence, a code word (case-insensitively) or an indented line.
pub open spec fn shows_code(c: Seq<char>) -> bool {
    seq_contains(c, "```"@) || any_keyword(lowercase_of(c), code_keywords()) || indented(c)
}

/// Content that talks about design.
pub open spec fn shows_architecture(c: Seq<char>) -> bool {
    any_keyword(lowercase_of(c), architecture_keywords())
}

/// Content that carries or names an image.
pub open spec fn shows_images(c: Seq<char>) -> bool {
    seq_contains(c, "data:image/"@) || seq_contains(c, "base64"@) || any_keyword(lowercase_of(c), image_keywords())
}

/// Content that reports a failure.
pub open spec fn shows_failure(c: Seq<char>) -> bool {
    any_keyword(lowercase_of(c), failure_keywords())
}

/// Some message of `ms` shows code.
pub open spec fn any_code(ms: Seq<MessageView>) -> bool {
    exists|i: int| 0 <= i < ms.len() && #[trigger] shows_code(ms[i].content)
}

/// Some message of `ms` talks about design.
pub open spec fn any_architecture(ms: Seq<MessageView>) -> bool {
    exists|i: int| 0 <= i < ms.len() && #[trigger] shows_architecture(ms[i].content)
}

/// Some message of `ms` carries or names an image.
pub open spec fn any_images(ms: Seq<MessageView>) -> bool {
    exists|i: int| 0 <= i < ms.len() && #[trigger] shows_images(ms[i].content)
}

/// Some message of `ms` reports a failure.
pub open spec fn any_failure(ms: Seq<MessageView>) -> bool {
    exists|i: int| 0 <= i < ms.len() && #[trigger] shows_failure(ms[i].content)
}

/// The number of `'\n'` characters in `s`.
pub open spec fn newlines(s: Seq<char>) -> nat
    decreases s.len(),
{
    if s.len() == 0 { 0 } else { newlines(s.drop_last()) + if s.last() == '\n' { 1nat } else { 0nat } }
}

/// The number of lines of `s` as `str::lines` counts them: one per line
/// break, plus a last line without a break.
pub open spec fn line_count(s: Seq<char>) -> nat {
    newlines(s) + if s.len() > 0 && s.last() != '\n' { 1nat } else { 0nat }
}

/// A short question: at most one line and under fifty characters.
pub open spec fn simple_text(s: Seq<char>) -> bool {
    line_count(s) <= 1 && s.len() < 50
}

/// The content of the last user message, if any.
pub open spec fn last_user_content(ms: Seq<MessageView>) -> Option<Seq<char>>
    decreases ms.len(),
{
    if ms.len() == 0 {
        None
    } else if ms.last().role == "user"@ {
        Some(ms.last().content)
    } else {
        last_user_content(ms.drop_last())
    }
}

/// A CJK unified ideograph (U+4E00 to U+9FFF).
pub open spec fn is_cjk_ideograph(c: char) -> bool {
    '\u{4e00}' <= c <= '\u{9fff}'
}

/// The number of CJK unified ideographs in `s`.
pub open spec fn cjk_count(s: Seq<char>) -> nat
    decreases s.len(),
{
    if s.len() == 0 { 0 } else { cjk_count(s.drop_last()) + if is_cjk_ideograph(s.last()) { 1nat } else { 0nat } }
}

/// The number of CJK ideographs over the contents of `ms`.
pub open spec fn cjk_total(ms: Seq<MessageView>) -> nat
    decreases ms.len(),
{
    if ms.len() == 0 { 0 } else { cjk_total(ms.drop_last()) + cjk_count(ms.last().content) }
}

/// The number of characters over the contents of `ms`.
pub open spec fn char_total(ms: Seq<MessageView>) -> nat
    decreases ms.len(),
{
    if ms.len() == 0 { 0 } else { char_total(ms.drop_last()) + ms.last().content.len() }
}

/// The profile of a conversation: features of its last three messages, and
/// whether its last user message is simple.
pub open spec fn profile_of(msgs: Seq<MessageView>) -> ContentProfile {
    let r = recent(msgs);
    ContentProfile {
        has_code: any_code(r),
        has_architecture: any_architecture(r),
        has_images: any_images(r),
        is_simple: match last_user_content(msgs) {
            Some(c) => simple_text(c),
            None => false,
        },
        has_failure_retry: any_failure(r),
        cjk_chars: cjk_total(r) as usize,
        total_chars: char_total(r) as usize,
    }
}

fn code_keywords_exec() -> (v: Vec<&'static str>)
    ensures
        v@ == code_keywords(),
{
    let v = vec!["rust", "python", "javascript", "go", "java", "c++", "typescript",
        "fn ", "def ", "function ", "impl ", "class ", "struct "];
    assert(v@ =~= code_keywords());
    v
}

fn architecture_keywords_exec() -> (v: Vec<&'static str>)
    ensures
        v@ == architecture_keywords(),
{
    let v = vec!["design", "architecture", "tradeoff", "refactor", "migrate",
        "system design", "scalability", "pattern"];
    assert(v@ =~= architecture_keywords());
    v
}

fn image_keywords_exec() -> (v: Vec<&'static str>)
    ensures
        v@ == image_keywords(),
{
    let v = vec![".png", ".jpg", ".jpeg", ".gif", ".webp"];
    assert(v@ =~= image_keywords());
    v
}

fn failure_keywords_exec() -> (v: Vec<&'static str>)
    ensures
        v@ == failure_keywords(),
{
    let v = vec!["fix this error", "still broken", "try again", "not working",
        "error:", "exception:", "failed"];
    assert(v@ =~= failure_keywords());
    v
}

proof fn lemma_newlines_le(s: Seq<char>)
    ensures
        newlines(s) <= s.len(),
    decreases s.len(),
{
    if s.len() > 0 {
        lemma_newlines_le(s.drop_last());
    }
}

proof fn lemma_cjk_le(s: Seq<char>)
    ensures
        cjk_count(s) <= s.len(),
    decreases s.len(),
{
    if s.len() > 0 {
        lemma_cjk_le(s.drop_last());
    }
}

proof fn lemma_cjk_total_le(ms: Seq<MessageView>)
    ensures
        cjk_total(ms) <= char_total(ms),
    decreases ms.len(),
{
    if ms.len() > 0 {
        lemma_cjk_total_le(ms.drop_last());
        lemma_cjk_le(ms.last().content);
    }
}

proof fn lemma_char_total_prefix(ms: Seq<MessageView>, j: int)
    requires
        0 <= j <= ms.len(),
    ensures
        char_total(ms.subrange(0, j)) <= char_total(ms),
    decreases ms.len() - j,
{
    if j < ms.len() {
        lemma_char_total_prefix(ms, j + 1);
        assert(ms.subrange(0, j + 1).drop_last() =~= ms.subrange(0, j));
    } else {
        assert(ms.subrange(0, j) =~= ms);
    }
}

/// The number of lines of `text`, as `str::lines` counts them.
pub fn count_lines(text: &str) -> (n: usize)
    ensures
        n == line_count(text@),
{
    let s = chars_of(text);
    let len = s.len();
    let mut count: usize = 0;
    let mut i: usize = 0;
    while i < len
        invariant
            len == s@.len(),
            s@ == text@,
            i <= len,
            count == newlines(s@.subrange(0, i as int)),
            count <= i,
        decreases len - i,
    {
        assert(s@.subrange(0, i + 1).drop_last() =~= s@.subrange(0, i as int));
        if s[i] == '\n' {
            count = count + 1;
        }
        i = i + 1;
    }
    assert(s@.subrange(0, len as int) =~= s@);
    if len > 0 && s[len - 1] != '\n' {
        proof {
            lemma_newlines_le(s@.drop_last());
        }
        count + 1
    } else {
        count
    }
}

/// The number of CJK unified ideographs in `text`.
pub fn count_cjk(text: &str) -> (n: usize)
    ensures
        n == cjk_count(text@),
{
    let s = chars_of(text);
    let len = s.len();
    let mut count: usize = 0;
    let mut i: usize = 0;
    while i < len
        invariant
            len == s@.len(),
            s@ == text@,
            i <= len,
            count == cjk_count(s@.subrange(0, i as int)),
            count <= i,
        decreases len - i,
    {
        assert(s@.subrange(0, i + 1).drop_last() =~= s@.subrange(0, i as int));
        let c = s[i];
        if '\u{4e00}' <= c && c <= '\u{9fff}' {
            count = count + 1;
        }
        i = i + 1;
    }
    assert(s@.subrange(0, len as int) =~= s@);
    count
}

fn last_user_index(messages: &[Message]) -> (r: Option<usize>)
    ensures
        match r {
            Some(j) => j < messages@.len() && last_user_content(msgs_view(messages@)) == Some(messages@[j as int].content@),
            None => last_user_content(msgs_view(messages@)) is None,
        },
{
    let ghost mv = msgs_view(messages@);
    let mut j: usize = messages.len();
    assert(mv.subrange(0, j as int) =~= mv);
    while j > 0
        invariant
            j <= messages@.len(),
            mv == msgs_view(messages@),
            last_user_content(mv) == last_user_content(mv.subrange(0, j as int)),
        decreases j,
    {
        assert(mv.subrange(0, j as int).drop_last() =~= mv.subrange(0, j - 1));
        if role_is(&messages[j - 1], "user") {
            return Some(j - 1);
        }
        j = j - 1;
    }
    assert(mv.subrange(0, 0) =~= Seq::<MessageView>::empty());
    None
}

proof fn lemma_any_step(prev: Seq<MessageView>, next: Seq<MessageView>)
    requires
        next.len() == prev.len() + 1,
        next.drop_last() == prev,
    ensures
        any_code(next) == (any_code(prev) || shows_code(next.last().content)),
        any_architecture(next) == (any_architecture(prev) || shows_architecture(next.last().content)),
        any_images(next) == (any_images(prev) || shows_images(next.last().content)),
        any_failure(next) == (any_failure(prev) || shows_failure(next.last().content)),
{
    assert forall|k: int| 0 <= k < prev.len() implies next[k] == prev[k] by {
        assert(next.drop_last()[k] == next[k]);
    }
    let last = next.len() - 1;
    if shows_code(next.last().content) { assert(shows_code(next[last].content)); }
    if shows_architecture(next.last().content) { assert(shows_architecture(next[last].content)); }
    if shows_images(next.last().content) { assert(shows_images(next[last].content)); }
    if shows_failure(next.last().content) { assert(shows_failure(next[last].content)); }
    if any_code(prev) { let k = choose|k: int| 0 <= k < prev.len() && #[trigger] shows_code(prev[k].content); assert(shows_code(next[k].content)); }
    if any_architecture(prev) { let k = choose|k: int| 0 <= k < prev.len() && #[trigger] shows_architecture(prev[k].content); assert(shows_architecture(next[k].content)); }
    if any_images(prev) { let k = choose|k: int| 0 <= k < prev.len() && #[trigger] shows_images(prev[k].content); assert(shows_images(next[k].content)); }
    if any_failure(prev) { let k = choose|k: int| 0 <= k < prev.len() && #[trigger] shows_failure(prev[k].content); assert(shows_failure(next[k].content)); }
    if any_code(next) { let k = choose|k: int| 0 <= k < next.len() && #[trigger] shows_code(next[k].content); if k < prev.len() { assert(shows_code(prev[k].content)); } }
    if any_architecture(next) { let k = choose|k: int| 0 <= k < next.len() && #[trigger] shows_architecture(next[k].content); if k < prev.len() { assert(shows_architecture(prev[k].content)); } }
    if any_images(next) { let k = choose|k: int| 0 <= k < next.len() && #[trigger] shows_images(next[k].content); if k < prev.len() { assert(shows_images(prev[k].content)); } }
    if any_failure(next) { let k = choose|k: int| 0 <= k < next.len() && #[trigger] shows_failure(next[k].content); if k < prev.len() { assert(shows_failure(prev[k].content)); } }
}

/// The four content features of one message: code, design talk, images,
/// failure report.
fn content_features(
    content: &str,
    code_kw: &Vec<&'static str>,
    arch_kw: &Vec<&'static str>,
    image_kw: &Vec<&'static str>,
    failure_kw: &Vec<&'static str>,
) -> (f: (bool, bool, bool, bool))
    requires
        code_kw@ == code_keywords(),
        arch_kw@ == architecture_keywords(),
        image_kw@ == image_keywords(),
        failure_kw@ == failure_keywords(),
    ensures
        f.0 == shows_code(content@),
        f.1 == shows_architecture(content@),
        f.2 == shows_images(content@),
        f.3 == shows_failure(content@),
{
    let lower = to_lowercase(content);
    let code_here = str_contains(content, "```") || contains_any(lower.as_str(), code_kw.as_slice())
        || has_indented_lines(content);
    let arch_here = contains_any(lower.as_str(), arch_kw.as_slice());
    let image_here = str_contains(content, "data:image/") || str_contains(content, "base64")
        || contains_any(lower.as_str(), image_kw.as_slice());
    let failure_here = contains_any(lower.as_str(), failure_kw.as_slice());
    (code_here, arch_here, image_here, failure_here)
}

/// Analyzes the last three messages for code, design talk, images and
/// failure reports, counts their CJK and total characters, and checks
/// whether the last user message is a short single line.
pub fn analyze_content(messages: &[Message]) -> (p: ContentProfile)
    requires
        char_total(recent(msgs_view(messages@))) <= usize::MAX,
    ensures
        p == profile_of(msgs_view(messages@)),
{
    let ghost mv = msgs_view(messages@);
    let n = messages.len();
    let start: usize = if n >= 3 { n - 3 } else { 0 };
    let code_kw = code_keywords_exec();
    let arch_kw = architecture_keywords_exec();
    let image_kw = image_keywords_exec();
    let failure_kw = failure_keywords_exec();
    let mut has_code = false;
    let mut has_architecture = false;
    let mut has_images = false;
    let mut has_failure_retry = false;
    let mut cjk: usize = 0;
    let mut total: usize = 0;
    let ghost r = recent(mv);
    proof {
        lemma_cjk_total_le(r);
    }
    let mut i: usize = start;
    while i < n
        invariant
            n == messages@.len(),
            mv == msgs_view(messages@),
            r == recent(mv),
            r == mv.subrange(start as int, n as int),
            start <= i <= n,
            char_total(r) <= usize::MAX,
            code_kw@ == code_keywords(),
            arch_kw@ == architecture_keywords(),
            image_kw@ == image_keywords(),
            failure_kw@ == failure_keywords(),
            has_code == any_code(mv.subrange(start as int, i as int)),
            has_architecture == any_architecture(mv.subrange(start as int, i as int)),
            has_images == any_images(mv.subrange(start as int, i as int)),
            has_failure_retry == any_failure(mv.subrange(start as int, i as int)),
            cjk == cjk_total(mv.subrange(start as int, i as int)),
            total == char_total(mv.subrange(start as int, i as int)),
        decreases n - i,
    {
        let ghost prev = mv.subrange(start as int, i as int);
        let ghost next = mv.subrange(start as int, i + 1);
        assert(next.drop_last() =~= prev);
        assert(next.last() == mv[i as int]);
        let content = messages[i].content.as_str();
        let (code_here, arch_here, image_here, failure_here) =
            content_features(content, &code_kw, &arch_kw, &image_kw, &failure_kw);
        proof {
            lemma_any_step(prev, next);
            assert(r.subrange(0, i + 1 - start) =~= next);
            lemma_char_total_prefix(r, i + 1 - start);
            lemma_cjk_total_le(next);
        }
        has_code = has_code || code_here;
        has_architecture = has_architecture || arch_here;
        has_images = has_images || image_here;
        has_failure_retry = has_failure_retry || failure_here;
        let chars_here = content.unicode_len();
        let cjk_here = count_cjk(content);
        total = total + chars_here;
        cjk = cjk + cjk_here;
        i = i + 1;
    }
    let is_simple = match last_user_index(messages) {
        Some(j) => {
            let c = messages[j].content.as_str();
            count_lines(c) <= 1 && c.unicode_len() < 50
        },
        None => false,
    };
    ContentProfile {
        has_code,
        has_architecture,
        has_images,
        is_simple,
        has_failure_retry,
        cjk_chars: cjk,
        total_chars: total,
    }
}

/// Some of the last three messages contains `keyword`, case-insensitively.
pub open spec fn keyword_in_recent(msgs: Seq<MessageView>, keyword: Seq<char>) -> bool {
    exists|i: int| 0 <= i < recent(msgs).len()
        && seq_contains(lowercase_of(#[trigger] recent(msgs)[i].content), lowercase_of(keyword))
}

/// How many of `keywords` occur in the last three messages.
pub open spec fn matched_keywords(msgs: Seq<MessageView>, keywords: Seq<String>) -> nat
    decreases keywords.len(),
{
    if keywords.len() == 0 {
        0
    } else {
        matched_keywords(msgs, keywords.drop_last()) + if keyword_in_recent(msgs, keywords.last()@) { 1nat } else { 0nat }
    }
}

fn keyword_in_recent_exec(messages: &[Message], keyword: &str) -> (b: bool)
    ensures
        b == keyword_in_recent(msgs_view(messages@), keyword@),
{
    let ghost mv = msgs_view(messages@);
    let n = messages.len();
    let start: usize = if n >= 3 { n - 3 } else { 0 };
    let kw = to_lowercase(keyword);
    let mut i: usize = start;
    while i < n
        invariant
            n == messages@.len(),
            mv == msgs_view(messages@),
            start <= i <= n,
            start == if n >= 3 { n - 3 } else { 0 },
            kw@ == lowercase_of(keyword@),
            forall|k: int| 0 <= k < i - start ==>
                !seq_contains(lowercase_of(#[trigger] recent(mv)[k].content), lowercase_of(keyword@)),
        decreases n - i,
    {
        let lower = to_lowercase(messages[i].content.as_str());
        assert(recent(mv)[i - start] == mv[i as int]);
        if str_contains(lower.as_str(), kw.as_str()) {
            assert(recent(mv).len() == n - start);
            assert(seq_contains(lowercase_of(recent(mv)[i - start].content), lowercase_of(keyword@)));
            return true;
        }
        i = i + 1;
    }
    assert(recent(mv).len() == n - start);
    false
}

/// Counts the keywords that occur, case-insensitively, in the last three
/// messages.
pub fn count_matched_keywords(messages: &[Message], keywords: &[String]) -> (n: usize)
    ensures
        n == matched_keywords(msgs_view(messages@), keywords@),
{
    let mut count: usize = 0;
    let mut j: usize = 0;
    while j < keywords.len()
        invariant
            j <= keywords@.len(),
            count == matched_keywords(msgs_view(messages@), keywords@.subrange(0, j as int)),
            count <= j,
        decreases keywords@.len() - j,
    {
        assert(keywords@.subrange(0, j + 1).drop_last() =~= keywords@.subrange(0, j as int));
        if keyword_in_recent_exec(messages, keywords[j].as_str()) {
            count = count + 1;
        }
        j = j + 1;
    }
    assert(keywords@.subrange(0, j as int) =~= keywords@);
    count
}

/// A code fence marks code: when one of the last three messages contains
/// three backticks, or has a line indented by four spaces or a tab, the
/// profile reports code.
pub proof fn fence_or_indent_means_code(msgs: Seq<MessageView>, i: int)
    requires
        0 <= i < recent(msgs).len(),
        seq_contains(recent(msgs)[i].content, "```"@)
            || (exists|k: int| line_start(recent(msgs)[i].content, k)
                && occurs_at(recent(msgs)[i].content, "    "@, k)),
    ensures
        profile_of(msgs).has_code,
{
    let c = recent(msgs)[i].content;
    if !seq_contains(c, "```"@) {
        let k = choose|k: int| line_start(c, k) && occurs_at(c, "    "@, k);
        assert(indented_at(c, k));
    }
    assert(shows_code(recent(msgs)[i].content));
}

} // verus!
