use latch::detect::{after_probe, probe_url, BackendKind, DetectError, DetectStep, ProbeMethod, ProbeResponse, ProbeStep};

fn response(status: u16, body: &str) -> ProbeResponse {
    ProbeResponse { status, headers: Vec::new(), body: body.to_string() }
}

fn not_found() -> ProbeResponse {
    response(404, "")
}

/// Runs the probe sequence against fixed answers, as a caller would.
fn run(answer: impl Fn(ProbeStep) -> Option<ProbeResponse>) -> (BackendKind, u8, String) {
    let mut step = ProbeStep::first();
    loop {
        let resp = answer(step);
        match after_probe(step, resp.as_ref()) {
            DetectStep::Report(r) => return (r.backend, r.confidence_percent, r.reason),
            DetectStep::Probe(next) => step = next,
        }
    }
}

#[test]
fn detects_vllm_from_metrics() {
    let r = run(|s| if s == ProbeStep::Metrics { Some(response(200, "vllm:gpu_cache_usage_perc 0.5")) } else { Some(not_found()) });
    assert_eq!(r.0, BackendKind::DirectVllm);
    assert_eq!(r.1, 98);
}

#[test]
fn detects_sglang_from_model_info() {
    let r = run(|s| if s == ProbeStep::ModelInfo { Some(response(200, r#"{"model_path":"..."}"#)) } else { Some(not_found()) });
    assert_eq!(r.0, BackendKind::DirectSglang);
}

#[test]
fn detects_cloud_from_models_owned_by() {
    let r = run(|s| if s == ProbeStep::Models { Some(response(200, r#"{"data":[{"owned_by":"OpenAI"}]}"#)) } else { Some(not_found()) });
    assert_eq!(r.0, BackendKind::Cloud);
    assert_eq!(r.2, "model ownership indicates cloud provider");
}

#[test]
fn detects_vllm_from_best_of_acceptance() {
    let r = run(|s| if s == ProbeStep::BestOf { Some(response(200, r#"{"id":"ok"}"#)) } else { Some(not_found()) });
    assert_eq!(r.0, BackendKind::DirectVllm);
    assert_eq!(r.1, 75);
}

#[test]
fn failed_probes_fall_through_to_unknown() {
    let r = run(|_| None);
    assert_eq!(r, (BackendKind::Unknown, 30, "no definitive direct-engine fingerprints found".to_string()));
    let tgi = run(|s| if s == ProbeStep::Metrics { Some(response(500, "TGI_queue_size 3")) } else { None });
    assert_eq!(tgi.0, BackendKind::DirectTgi);
}

#[test]
fn probe_requests() {
    assert_eq!(ProbeStep::Metrics.path(), "/metrics");
    assert_eq!(ProbeStep::Tokenize.method(), ProbeMethod::PostJson);
    assert_eq!(ProbeStep::Models.method(), ProbeMethod::Get);
    assert_eq!(ProbeStep::Tokenize.body(), r#"{"model":"default","prompt":"hello world"}"#);
    assert_eq!(ProbeStep::Metrics.body(), "");
    assert_eq!(after_probe(ProbeStep::ModelInfo, Some(&response(404, "model_path"))), DetectStep::Probe(ProbeStep::Tokenize));
    assert_eq!(DetectError::Http("refused".to_string()).message(), "refused");
}

#[test]
fn probe_urls_drop_trailing_slashes() {
    assert_eq!(probe_url("http://h:8000//", "/metrics"), "http://h:8000/metrics");
    assert_eq!(probe_url("http://h:8000", "/v1/models"), "http://h:8000/v1/models");
    assert_eq!(probe_url("", "/x"), "/x");
}
