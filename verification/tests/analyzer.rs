use latch::analyzer::{analyze_content, contains_any, count_matched_keywords, count_cjk, count_lines, has_indented_lines};
use latch::message::Message;

fn msg(role: &str, content: &str) -> Message {
    Message::new(role, content)
}

#[test]
fn contains_any_finds_keywords() {
    assert!(contains_any("please refactor this", &["design", "refactor"]));
    assert!(!contains_any("hello", &["design", "refactor"]));
    assert!(!contains_any("hello", &[]));
    assert!(contains_any("hello", &[""]));
}

#[test]
fn indented_lines_are_found_at_line_starts() {
    assert!(has_indented_lines("fn main() {\n    let x = 1;\n}"));
    assert!(has_indented_lines("\tcode"));
    assert!(!has_indented_lines("text with    spaces inside"));
    assert!(!has_indented_lines("   three spaces only"));
    assert!(has_indented_lines("a\r\n    b"));
    assert!(!has_indented_lines(""));
}

#[test]
fn line_and_cjk_counts() {
    assert_eq!(count_lines(""), 0);
    assert_eq!(count_lines("a"), 1);
    assert_eq!(count_lines("a\n"), 1);
    assert_eq!(count_lines("a\nb"), 2);
    assert_eq!(count_lines("\n\n"), 2);
    assert_eq!(count_cjk("中文 text 測試"), 4);
    assert_eq!(count_cjk("ｱ"), 0);
}

#[test]
fn profile_of_recent_messages() {
    let messages = vec![
        msg("user", "Can you write some RUST code?"),
        msg("assistant", "```rust\nfn main() {}\n```"),
        msg("user", "It FAILED with error: x"),
        msg("assistant", "Let's look at the architecture"),
        msg("user", "here is a.PNG and 中文"),
    ];
    let p = analyze_content(&messages);
    // only the last three messages count for the features
    assert!(!p.has_code);
    assert!(p.has_failure_retry);
    assert!(p.has_architecture);
    assert!(p.has_images);
    assert!(p.is_simple);
    assert_eq!(p.cjk_chars, 2);
    let total: usize = messages[2..].iter().map(|m| m.content.chars().count()).sum();
    assert_eq!(p.total_chars, total);
}

#[test]
fn simple_needs_short_single_line_user_message() {
    let long = "x".repeat(50);
    assert!(!analyze_content(&[msg("user", &long)]).is_simple);
    assert!(analyze_content(&[msg("user", &"x".repeat(49))]).is_simple);
    assert!(!analyze_content(&[msg("user", "two\nlines")]).is_simple);
    assert!(!analyze_content(&[msg("assistant", "hi")]).is_simple);
    let p = analyze_content(&[]);
    assert!(!p.has_code && !p.is_simple);
    assert_eq!(p.total_chars, 0);
    assert!(analyze_content(&[msg("user", "data:image/png;base64,AAAA")]).has_images);
    assert!(analyze_content(&[msg("user", "x\n    indented")]).has_code);
}

#[test]
fn keywords_match_recent_messages_case_insensitively() {
    let messages = vec![
        msg("user", "please TRANSLATE this"),
        msg("assistant", "ok"),
        msg("user", "and summarize"),
        msg("assistant", "done"),
    ];
    let kws = vec!["Summarize".to_string(), "translate".to_string(), "refactor".to_string()];
    // "translate" only appears in the first message, outside the last three
    assert_eq!(count_matched_keywords(&messages, &kws), 1);
    assert_eq!(count_matched_keywords(&messages[..3], &kws), 2);
    assert_eq!(count_matched_keywords(&messages, &[]), 0);
}
