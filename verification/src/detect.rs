//! Backend fingerprinting: a fixed sequence of HTTP probes, each answered
//! response deciding between a verdict and the next probe. The caller
//! performs the probes; this module decides.

use vstd::prelude::*;
use vstd::string::*;
use crate::text::{chars_of, push_char, seq_contains, str_contains, lowercase_of, to_lowercase};

verus! {

/// The serving engine behind an endpoint.
#[derive(Clone, Copy, Debug, PartialEq, Eq)]
pub enum BackendKind {
    DirectVllm,
    DirectTgi,
    DirectSglang,
    Cloud,
    Unknown,
}

/// Why a probe failed.
#[derive(Clone, Debug, PartialEq, Eq)]
pub enum DetectError {
    Http(String),
}

impl DetectError {
    /// The message: the HTTP error's text.
    pub fn message(&self) -> (m: String)
        ensures
            m@ == match self {
                DetectError::Http(v) => v@,
            },
    {
        match self {
            DetectError::Http(v) => v.clone(),
        }
    }
}

/// An HTTP response to a probe.
#[derive(Clone, Debug, PartialEq, Eq)]
pub struct ProbeResponse {
    pub status: u16,
    pub headers: Vec<(String, String)>,
    pub body: String,
}

/// `s` without its trailing slashes.
pub open spec fn trim_trailing_slashes(s: Seq<char>) -> Seq<char>
    decreases s.len(),
{
    if s.len() > 0 && s.last() == '/' { trim_trailing_slashes(s.drop_last()) } else { s }
}

/// The URL of a probe: the base URL without trailing slashes, then the path.
pub fn probe_url(base_url: &str, path: &str) -> (u: String)
    ensures
        u@ == trim_trailing_slashes(base_url@) + path@,
{
    let cs = chars_of(base_url);
    let mut end: usize = cs.len();
    assert(cs@.subrange(0, end as int) =~= cs@);
    while end > 0 && cs[end - 1] == '/'
        invariant
            end <= cs@.len(),
            trim_trailing_slashes(cs@) == trim_trailing_slashes(cs@.subrange(0, end as int)),
        decreases end,
    {
        assert(cs@.subrange(0, end as int).drop_last() =~= cs@.subrange(0, end - 1));
        end = end - 1;
    }
    let mut u = String::new();
    let mut i: usize = 0;
    while i < end
        invariant
            end <= cs@.len(),
            i <= end,
            u@ == cs@.subrange(0, i as int),
        decreases end - i,
    {
        push_char(&mut u, cs[i]);
        assert(u@ =~= cs@.subrange(0, i + 1));
        i = i + 1;
    }
    assert(trim_trailing_slashes(cs@.subrange(0, end as int)) == cs@.subrange(0, end as int));
    u.append(path);
    u
}

/// The outcome of fingerprinting: the backend, how sure it is in hundredths, and the reason.
#[derive(Clone, Debug, PartialEq, Eq)]
pub struct DetectionReport {
    pub backend: BackendKind,
    pub confidence_percent: u8,
    pub reason: String,
}

/// The probes, in the order they are tried.
#[derive(Clone, Copy, Debug, PartialEq, Eq)]
pub enum ProbeStep {
    /// `GET /metrics`: vLLM and TGI export engine-specific metrics.
    Metrics,
    /// `GET /get_model_info`: SGLang answers with the model path.
    ModelInfo,
    /// `POST /tokenize`: vLLM's tokenizer endpoint.
    Tokenize,
    /// `GET /v1/models`: cloud APIs name their owner.
    Models,
    /// `POST /v1/chat/completions` with `best_of`, which vLLM accepts.
    BestOf,
}

/// How a probe is sent.
#[derive(Clone, Copy, Debug, PartialEq, Eq)]
pub enum ProbeMethod {
    Get,
    PostJson,
}

/// The position of a probe in the sequence.
pub open spec fn step_index(s: ProbeStep) -> int {
    match s {
        ProbeStep::Metrics => 0,
        ProbeStep::ModelInfo => 1,
        ProbeStep::Tokenize => 2,
        ProbeStep::Models => 3,
        ProbeStep::BestOf => 4,
    }
}

impl ProbeStep {
    /// The first probe.
    pub fn first() -> (s: ProbeStep)
        ensures
            step_index(s) == 0,
    {
        ProbeStep::Metrics
    }

    /// How this probe is sent.
    pub fn method(&self) -> (m: ProbeMethod)
        ensures
            m == match *self {
                ProbeStep::Tokenize | ProbeStep::BestOf => ProbeMethod::PostJson,
                _ => ProbeMethod::Get,
            },
    {
        match self {
            ProbeStep::Tokenize | ProbeStep::BestOf => ProbeMethod::PostJson,
            _ => ProbeMethod::Get,
        }
    }

    /// The path this probe requests.
    pub fn path(&self) -> (p: &'static str)
        ensures
            p@ == step_path(*self),
    {
        match self {
            ProbeStep::Metrics => "/metrics",
            ProbeStep::ModelInfo => "/get_model_info",
            ProbeStep::Tokenize => "/tokenize",
            ProbeStep::Models => "/v1/models",
            ProbeStep::BestOf => "/v1/chat/completions",
        }
    }

    /// The JSON body of a POST probe (empty for a GET).
    pub fn body(&self) -> (b: &'static str)
        ensures
            b@ == step_body(*self),
    {
        match self {
            ProbeStep::Tokenize => "{\"model\":\"default\",\"prompt\":\"hello world\"}",
            ProbeStep::BestOf => "{\"model\":\"default\",\"messages\":[{\"role\":\"user\",\"content\":\"hi\"}],\"max_tokens\":1,\"best_of\":2}",
            _ => "",
        }
    }
}

/// The path of a probe.
pub open spec fn step_path(s: ProbeStep) -> Seq<char> {
    match s {
        ProbeStep::Metrics => "/metrics"@,
        ProbeStep::ModelInfo => "/get_model_info"@,
        ProbeStep::Tokenize => "/tokenize"@,
        ProbeStep::Models => "/v1/models"@,
        ProbeStep::BestOf => "/v1/chat/completions"@,
    }
}

/// The JSON body of a probe.
pub open spec fn step_body(s: ProbeStep) -> Seq<char> {
    match s {
        ProbeStep::Tokenize => "{\"model\":\"default\",\"prompt\":\"hello world\"}"@,
        ProbeStep::BestOf => "{\"model\":\"default\",\"messages\":[{\"role\":\"user\",\"content\":\"hi\"}],\"max_tokens\":1,\"best_of\":2}"@,
        _ => ""@,
    }
}

/// What follows a probe: a verdict, or the next probe.
#[derive(Clone, Debug, PartialEq, Eq)]
pub enum DetectStep {
    Report(DetectionReport),
    Probe(ProbeStep),
}

/// A verdict as values: backend, confidence, reason.
pub type ReportView = (BackendKind, u8, Seq<char>);

/// The verdict a probe's response gives, if any: `resp` is the status and
/// body, `None` when the probe failed.
pub open spec fn verdict(step: ProbeStep, resp: Option<(u16, Seq<char>)>) -> Option<ReportView> {
    match resp {
        None => None,
        Some((status, body)) => match step {
            ProbeStep::Metrics =>
                if seq_contains(lowercase_of(body), "vllm:"@) {
                    Some((BackendKind::DirectVllm, 98u8, "metrics endpoint contains vllm:*"@))
                } else if seq_contains(lowercase_of(body), "tgi_"@) {
                    Some((BackendKind::DirectTgi, 98u8, "metrics endpoint contains tgi_*"@))
                } else {
                    None
                },
            ProbeStep::ModelInfo =>
                if status == 200 && seq_contains(body, "model_path"@) {
                    Some((BackendKind::DirectSglang, 95u8, "get_model_info returns model_path"@))
                } else {
                    None
                },
            ProbeStep::Tokenize =>
                if status == 200 && seq_contains(body, "token"@) {
                    Some((BackendKind::DirectVllm, 90u8, "tokenize endpoint returned tokens"@))
                } else {
                    None
                },
            ProbeStep::Models =>
                if seq_contains(lowercase_of(body), "\"owned_by\":\"openai\""@)
                    || seq_contains(lowercase_of(body), "\"owned_by\":\"anthropic\""@) {
                    Some((BackendKind::Cloud, 80u8, "model ownership indicates cloud provider"@))
                } else {
                    None
                },
            ProbeStep::BestOf =>
                if status == 200 {
                    Some((BackendKind::DirectVllm, 75u8, "best_of accepted by backend"@))
                } else {
                    None
                },
        },
    }
}

/// The verdict when no probe gave one.
pub open spec fn fallback_verdict() -> ReportView {
    (BackendKind::Unknown, 30u8, "no definitive direct-engine fingerprints found"@)
}

/// The probe after `s`, if any.
pub open spec fn next_step(s: ProbeStep) -> Option<ProbeStep> {
    match s {
        ProbeStep::Metrics => Some(ProbeStep::ModelInfo),
        ProbeStep::ModelInfo => Some(ProbeStep::Tokenize),
        ProbeStep::Tokenize => Some(ProbeStep::Models),
        ProbeStep::Models => Some(ProbeStep::BestOf),
        ProbeStep::BestOf => None,
    }
}

/// The view of a report.
pub open spec fn report_view(r: DetectionReport) -> ReportView {
    (r.backend, r.confidence_percent, r.reason@)
}

/// The view of an optional response: its status and body.
pub open spec fn response_view(r: Option<&ProbeResponse>) -> Option<(u16, Seq<char>)> {
    match r {
        Some(p) => Some((p.status, p.body@)),
        None => None,
    }
}

fn report(backend: BackendKind, confidence_percent: u8, reason: &str) -> (r: DetectStep)
    ensures
        r matches DetectStep::Report(rep) && report_view(rep) == (backend, confidence_percent, reason@),
{
    DetectStep::Report(DetectionReport { backend, confidence_percent, reason: String::from_str(reason) })
}

/// Decides what follows probe `step` given its response (`None` when the
/// probe failed): the verdict it gives, else the next probe, else, after the
/// last probe, the fallback verdict.
pub fn after_probe(step: ProbeStep, response: Option<&ProbeResponse>) -> (next: DetectStep)
    ensures
        match verdict(step, response_view(response)) {
            Some(v) => next matches DetectStep::Report(r) && report_view(r) == v,
            None => match next_step(step) {
                Some(s) => next == DetectStep::Probe(s),
                None => next matches DetectStep::Report(r) && report_view(r) == fallback_verdict(),
            },
        },
{
    let verdict_here: Option<DetectStep> = match response {
        None => None,
        Some(resp) => {
            let body = resp.body.as_str();
            match step {
                ProbeStep::Metrics => {
                    let lower = to_lowercase(body);
                    if str_contains(lower.as_str(), "vllm:") {
                        Some(report(BackendKind::DirectVllm, 98, "metrics endpoint contains vllm:*"))
                    } else if str_contains(lower.as_str(), "tgi_") {
                        Some(report(BackendKind::DirectTgi, 98, "metrics endpoint contains tgi_*"))
                    } else {
                        None
                    }
                },
                ProbeStep::ModelInfo => {
                    if resp.status == 200 && str_contains(body, "model_path") {
                        Some(report(BackendKind::DirectSglang, 95, "get_model_info returns model_path"))
                    } else {
                        None
                    }
                },
                ProbeStep::Tokenize => {
                    if resp.status == 200 && str_contains(body, "token") {
                        Some(report(BackendKind::DirectVllm, 90, "tokenize endpoint returned tokens"))
                    } else {
                        None
                    }
                },
                ProbeStep::Models => {
                    let lower = to_lowercase(body);
                    if str_contains(lower.as_str(), "\"owned_by\":\"openai\"")
                        || str_contains(lower.as_str(), "\"owned_by\":\"anthropic\"") {
                        Some(report(BackendKind::Cloud, 80, "model ownership indicates cloud provider"))
                    } else {
                        None
                    }
                },
                ProbeStep::BestOf => {
                    if resp.status == 200 {
                        Some(report(BackendKind::DirectVllm, 75, "best_of accepted by backend"))
                    } else {
                        None
                    }
                },
            }
        },
    };
    match verdict_here {
        Some(r) => r,
        None => match step {
            ProbeStep::Metrics => DetectStep::Probe(ProbeStep::ModelInfo),
            ProbeStep::ModelInfo => DetectStep::Probe(ProbeStep::Tokenize),
            ProbeStep::Tokenize => DetectStep::Probe(ProbeStep::Models),
            ProbeStep::Models => DetectStep::Probe(ProbeStep::BestOf),
            ProbeStep::BestOf => report(BackendKind::Unknown, 30, "no definitive direct-engine fingerprints found"),
        },
    }
}

/// The probe at a position of the sequence.
pub open spec fn step_at(i: int) -> ProbeStep {
    if i <= 0 { ProbeStep::Metrics }
    else if i == 1 { ProbeStep::ModelInfo }
    else if i == 2 { ProbeStep::Tokenize }
    else if i == 3 { ProbeStep::Models }
    else { ProbeStep::BestOf }
}

/// The verdict a run reaches from probe `s` on, when the probe at position
/// `i` is answered `answers[i]`: each probe's verdict if it gives one, else
/// the next probe, else the fallback.
pub open spec fn run_from(s: ProbeStep, answers: Seq<Option<(u16, Seq<char>)>>) -> ReportView
    decreases 4 - step_index(s),
{
    match verdict(s, answers[step_index(s)]) {
        Some(v) => v,
        None => match s {
            ProbeStep::Metrics => run_from(ProbeStep::ModelInfo, answers),
            ProbeStep::ModelInfo => run_from(ProbeStep::Tokenize, answers),
            ProbeStep::Tokenize => run_from(ProbeStep::Models, answers),
            ProbeStep::Models => run_from(ProbeStep::BestOf, answers),
            ProbeStep::BestOf => fallback_verdict(),
        },
    }
}

proof fn lemma_run_from(k: int, answers: Seq<Option<(u16, Seq<char>)>>, i: int)
    requires
        0 <= k <= i <= 4,
        forall|j: int| k <= j < i ==> #[trigger] verdict(step_at(j), answers[j]) is None,
    ensures
        run_from(step_at(k), answers) == run_from(step_at(i), answers),
    decreases i - k,
{
    if k < i {
        assert(verdict(step_at(k), answers[k]) is None);
        lemma_run_from(k + 1, answers, i);
    }
}

/// Probes run in order, one answer after another, and the run ends: a probe
/// that gives no verdict hands over to the next, the last one ends in the
/// fallback. So the first probe (in order) whose answer gives a verdict
/// decides the run, and a run where no answer gives one reports an unknown
/// backend with confidence 0.30.
pub proof fn first_verdict_decides(answers: Seq<Option<(u16, Seq<char>)>>, i: int)
    requires
        0 <= i <= 4,
        forall|j: int| 0 <= j < i ==> #[trigger] verdict(step_at(j), answers[j]) is None,
    ensures
        verdict(step_at(i), answers[i]) matches Some(v) ==> run_from(ProbeStep::Metrics, answers) == v,
        i == 4 && verdict(ProbeStep::BestOf, answers[4]) is None ==> run_from(ProbeStep::Metrics, answers) == fallback_verdict(),
{
    lemma_run_from(0, answers, i);
}

/// Each step of a run as `after_probe` takes it: a verdict is reported, or
/// the next probe of the sequence is asked for.
pub proof fn after_probe_follows_run(s: ProbeStep, answers: Seq<Option<(u16, Seq<char>)>>)
    ensures
        verdict(s, answers[step_index(s)]) matches Some(v) ==> run_from(s, answers) == v,
        verdict(s, answers[step_index(s)]) is None ==> match next_step(s) {
            Some(n) => step_index(n) == step_index(s) + 1 && run_from(s, answers) == run_from(n, answers),
            None => run_from(s, answers) == fallback_verdict(),
        },
{
}

/// A model list owned by OpenAI or by Anthropic identifies a cloud API: a
/// `/v1/models` answer whose lowercased body names either owner gives the
/// cloud verdict (0.80), whatever its status.
pub proof fn model_owner_means_cloud(status: u16, body: Seq<char>)
    requires
        seq_contains(lowercase_of(body), "\"owned_by\":\"openai\""@)
            || seq_contains(lowercase_of(body), "\"owned_by\":\"anthropic\""@),
    ensures
        verdict(ProbeStep::Models, Some((status, body)))
            == Some((BackendKind::Cloud, 80u8, "model ownership indicates cloud provider"@)),
{
}

} // verus!
