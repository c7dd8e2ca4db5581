use latch::token::{default_token_estimator, DefaultTokenEstimator, TokenEstimator, TokenEstimatorWrapper};

#[test]
fn default_estimator_handles_empty_string() {
    let est = default_token_estimator();
    assert_eq!(est.estimate(""), 0);
}

#[test]
fn default_estimator_english_text() {
    let est = default_token_estimator();
    let tokens = est.estimate("This is a test of English text");
    assert!(tokens > 0);
    assert!(tokens < 15);
}

#[test]
fn default_estimator_cjk_text() {
    let est = default_token_estimator();
    let tokens = est.estimate("这是一个测试");
    assert!(tokens > 0);
}

#[test]
fn default_estimator_exact_values() {
    let est = DefaultTokenEstimator;
    // 24 letters / 4 = 6 and 6 spaces / 4 = 1; no CJK, so nothing for it
    assert_eq!(est.estimate("This is a test of English text"), 6 + 1);
    // 6 CJK ideographs: 6 * 2 / 3 = 4, about 1.5 characters per token
    assert_eq!(est.estimate("这是一个测试"), 4);
    // a kind that occurs counts at least one token
    assert_eq!(est.estimate("a"), 1);
    assert_eq!(est.estimate("中 a"), 3);
    let wrapped = TokenEstimatorWrapper(est);
    assert_eq!(wrapped.estimate("这是一个测试"), 4);
}
