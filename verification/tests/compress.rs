use latch::compress::{
    compress, dedup_adjacent, estimate_msg_tokens, estimate_tokens, sliding_window, sliding_window_with_meta,
    CompressionAction, CompressionConfig, CompressionResult, CompressionStrategy,
};
use latch::message::Message;
use latch::token::QuarterCharEstimator;

fn msg(role: &str, content: &str) -> Message {
    Message::new(role, content)
}

fn default_config() -> CompressionConfig<QuarterCharEstimator> {
    CompressionConfig {
        min_tokens_to_compress: 2000,
        max_turns: 10,
        max_system_tokens: 8000,
        strategy: CompressionStrategy::SlidingWindow,
        dedup_max_merged_chars: 50000,
        token_estimator: QuarterCharEstimator,
    }
}

fn savings_ratio(r: &CompressionResult) -> f32 {
    if r.tokens_before == 0 {
        0.0
    } else {
        r.saved_tokens() as f32 / r.tokens_before as f32
    }
}

#[test]
fn skip_when_below_threshold() {
    let messages = vec![msg("user", "hello")];
    let config = default_config();
    let result = compress(&messages, &config);
    match result {
        CompressionAction::Skip { tokens, reason } => {
            assert!(tokens > 0);
            assert!(reason.contains("min_tokens_to_compress"));
        },
        _ => panic!("Expected Skip"),
    }
}

#[test]
fn sliding_window_keeps_system_and_last_turns() {
    let messages = vec![
        msg("system", "you are helpful"),
        msg("user", "u1"),
        msg("assistant", "a1"),
        msg("user", "u2"),
        msg("assistant", "a2"),
        msg("user", "u3"),
        msg("assistant", "a3"),
    ];
    let mut config = default_config();
    config.min_tokens_to_compress = 0;
    config.max_turns = 2;
    let result = compress(&messages, &config);
    match result {
        CompressionAction::Applied(r) => {
            let roles: Vec<&str> = r.messages.iter().map(|m| m.role.as_str()).collect();
            assert!(roles.contains(&"system"));
            assert!(roles.contains(&"user"));
        },
        _ => panic!("Expected Applied"),
    }
}

#[test]
fn dedup_merges_adjacent_same_role() {
    let messages = vec![
        msg("user", "line 1"),
        msg("user", "line 2"),
        msg("assistant", "response"),
        msg("assistant", "more response"),
    ];
    let config = default_config();
    let result = dedup_adjacent(&messages, config.dedup_max_merged_chars);
    assert_eq!(result.len(), 2);
    assert_eq!(result[0].content, "line 1\n\nline 2");
    assert_eq!(result[1].content, "response\n\nmore response");
}

#[test]
fn dedup_skips_tool_messages() {
    let messages = vec![
        msg("assistant", r#"{"type":"tool_use","name":"search"}"#),
        msg("user", r#"{"type":"tool_result","content":"..."}"#),
        msg("user", "follow up"),
    ];
    let config = default_config();
    let result = dedup_adjacent(&messages, config.dedup_max_merged_chars);
    assert_eq!(result.len(), 3);
}

#[test]
fn system_over_limit_truncates() {
    let long_system = "a".repeat(10000);
    let messages = vec![msg("system", &long_system), msg("system", &long_system), msg("user", "hello")];
    let config = CompressionConfig {
        min_tokens_to_compress: 0,
        max_turns: 10,
        max_system_tokens: 1000,
        strategy: CompressionStrategy::SlidingWindow,
        dedup_max_merged_chars: 50000,
        token_estimator: QuarterCharEstimator,
    };
    let result = compress(&messages, &config);
    match result {
        CompressionAction::Applied(r) => {
            let system_tokens: usize = r
                .messages
                .iter()
                .filter(|m| m.role == "system")
                .map(|m| estimate_msg_tokens(m, Some(&config.token_estimator)))
                .sum();
            assert!(system_tokens <= 1000 + 100);
        },
        _ => panic!("Expected Applied"),
    }
}

#[test]
fn sliding_window_preserves_tool_pairs() {
    let messages = vec![
        msg("user", "use tool"),
        msg("assistant", r#"{"type":"tool_use","name":"search"}"#),
        msg("user", r#"{"type":"tool_result","content":"..."}"#),
        msg("user", "follow up"),
    ];
    let mut config = default_config();
    config.min_tokens_to_compress = 0;
    config.max_turns = 1;
    let result = compress(&messages, &config);
    match result {
        CompressionAction::Applied(r) => {
            let has_tool = r.messages.iter().any(|m| m.is_tool_call());
            let has_result = r.messages.iter().any(|m| m.is_tool_result());
            assert_eq!(has_tool, has_result);
        },
        _ => panic!("Expected Applied"),
    }
}

#[test]
fn dedup_then_window_works() {
    let messages = vec![
        msg("user", &"line1 ".repeat(50)),
        msg("user", &"line2 ".repeat(50)),
        msg("assistant", &"response1 ".repeat(50)),
        msg("user", &"u3 ".repeat(50)),
        msg("assistant", &"a3 ".repeat(50)),
    ];
    let mut config = default_config();
    config.strategy = CompressionStrategy::DedupThenWindow;
    config.min_tokens_to_compress = 0;
    config.max_turns = 1;
    let result = compress(&messages, &config);
    match result {
        CompressionAction::Applied(r) => {
            assert!(r.tokens_before >= r.tokens_after);
            assert!(savings_ratio(&r) >= 0.0);
        },
        _ => panic!("Expected Applied"),
    }
}

#[test]
fn all_system_messages_respect_limit() {
    let messages = vec![msg("system", &"a".repeat(5000)), msg("system", &"b".repeat(5000))];
    let config = CompressionConfig {
        min_tokens_to_compress: 0,
        max_turns: 10,
        max_system_tokens: 500,
        strategy: CompressionStrategy::SlidingWindow,
        dedup_max_merged_chars: 50000,
        token_estimator: QuarterCharEstimator,
    };
    let result = compress(&messages, &config);
    match result {
        CompressionAction::Applied(r) => {
            let total_chars: usize = r.messages.iter().map(|m| m.content.len()).sum();
            assert!(total_chars < 5000);
        },
        _ => panic!("Expected Applied"),
    }
}

#[test]
fn savings_ratio_calculated_correctly() {
    let messages = vec![
        msg("system", &"you are helpful ".repeat(100)),
        msg("user", &"u1 ".repeat(100)),
        msg("assistant", &"a1 ".repeat(100)),
        msg("user", &"u2 ".repeat(100)),
        msg("assistant", &"a2 ".repeat(100)),
    ];
    let mut config = default_config();
    config.min_tokens_to_compress = 0;
    config.max_turns = 1;
    let result = compress(&messages, &config);
    match result {
        CompressionAction::Applied(r) => {
            assert!(savings_ratio(&r) >= 0.0);
            assert!(savings_ratio(&r) <= 1.0);
            assert!(r.tokens_before > r.tokens_after);
        },
        _ => panic!("Expected Applied"),
    }
}

#[test]
fn max_turns_zero_returns_only_system() {
    let messages = vec![msg("system", "you are helpful"), msg("user", "u1"), msg("assitant", "a1")];
    let mut config = default_config();
    config.min_tokens_to_compress = 0;
    config.max_turns = 0;
    let result = compress(&messages, &config);
    match result {
        CompressionAction::Applied(r) => {
            assert_eq!(r.messages.len(), 1);
            assert_eq!(r.messages[0].role, "system");
        },
        _ => panic!("Expected Applied"),
    }
}

#[test]
fn strategy_off_skips_with_reason() {
    let messages = vec![msg("user", &"x".repeat(40))];
    let mut config = default_config();
    config.min_tokens_to_compress = 0;
    config.strategy = CompressionStrategy::Off;
    match compress(&messages, &config) {
        CompressionAction::Skip { tokens, reason } => {
            assert_eq!(tokens, 10);
            assert_eq!(reason, "strategy is None");
        },
        _ => panic!("Expected Skip"),
    }
}

#[test]
fn window_keeps_exact_last_units() {
    let messages = vec![
        msg("system", "sys"),
        msg("user", "u1"),
        msg("assistant", "a1"),
        msg("user", "u2"),
        msg("assistant", "a2"),
    ];
    let out = sliding_window(&messages, 1);
    let contents: Vec<&str> = out.iter().map(|m| m.content.as_str()).collect();
    assert_eq!(contents, vec!["sys", "u2", "a2"]);
    let meta = sliding_window_with_meta(&messages, 1);
    assert_eq!(meta.messages.len(), 3);
    assert_eq!(meta.strategy_used, CompressionStrategy::SlidingWindow);
    assert!(meta.tokens_before >= meta.tokens_after);
}

#[test]
fn dedup_respects_merge_limit_and_estimates_sum() {
    let messages = vec![msg("user", "abcd"), msg("user", "efgh")];
    // the two contents (8 bytes) plus 4 must fit: allowed at 12, refused at 11
    assert_eq!(dedup_adjacent(&messages, 12).len(), 1);
    assert_eq!(dedup_adjacent(&messages, 11).len(), 2);
    assert_eq!(dedup_adjacent(&messages, 0).len(), 1);
    assert_eq!(estimate_tokens(&messages, Some(&QuarterCharEstimator)), 2);
    assert_eq!(estimate_tokens::<QuarterCharEstimator>(&messages, None), 2);
}

#[test]
fn sliding_window_keeps_system_and_last_messages() {
    let messages = vec![
        msg("system", "sys"),
        msg("user", "u1"),
        msg("assistant", "a1"),
        msg("user", "u2"),
        msg("system", "sys2"),
        msg("user", "u3"),
        msg("assistant", "a3"),
    ];
    let out = sliding_window(&messages, 1);
    let contents: Vec<&str> = out.iter().map(|m| m.content.as_str()).collect();
    assert_eq!(contents, vec!["sys", "sys2", "u3", "a3"]);
    let out = sliding_window(&messages, 2);
    let contents: Vec<&str> = out.iter().map(|m| m.content.as_str()).collect();
    assert_eq!(contents, vec!["sys", "sys2", "a1", "u2", "u3", "a3"]);
    assert_eq!(sliding_window(&messages, 0).len(), 2);
    assert_eq!(sliding_window(&messages, usize::MAX).len(), 7);
}

#[test]
fn token_estimates_add_up_over_concatenation() {
    let a = vec![msg("user", "abcdefg"), msg("assistant", "这是一个测试")];
    let b = vec![msg("user", "hello world, again")];
    let ab: Vec<Message> = a.iter().chain(b.iter()).cloned().collect();
    let est = latch::token::DefaultTokenEstimator;
    assert_eq!(estimate_tokens(&ab, Some(&est)), estimate_tokens(&a, Some(&est)) + estimate_tokens(&b, Some(&est)));
    assert_eq!(estimate_tokens::<QuarterCharEstimator>(&ab, None), estimate_tokens::<QuarterCharEstimator>(&a, None) + estimate_tokens::<QuarterCharEstimator>(&b, None));
    // floored per message: "abcdefg" alone gives 1
    assert_eq!(estimate_tokens::<QuarterCharEstimator>(&[msg("user", "abcdefg")], None), 1);
    assert_eq!(estimate_tokens::<QuarterCharEstimator>(&[], None), 0);
}
