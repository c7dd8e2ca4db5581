use latch::cache::{apply_prompt_cache_plan, plan_prompt_cache, plan_prompt_cache_default, PromptCacheProvider};
use latch::config::{CacheConfig, PromptCachingConfig};
use latch::message::Message;

fn msg(role: &str, content: &str) -> Message {
    Message::new(role, content)
}

#[test]
fn anthropic_tags_system_messages_with_sufficient_length() {
    let messages = vec![
        msg("system", &"a".repeat(100)),
        msg("user", "hello"),
        msg("assistant", "hi"),
        msg("system", "short"),
    ];
    let plan = plan_prompt_cache(&messages, PromptCacheProvider::Anthropic, &["system".to_string()], 100);
    assert_eq!(plan.tagged_indexes, vec![0]);
}

#[test]
fn anthropic_tags_multiple_roles() {
    let messages = vec![msg("system", &"a".repeat(100)), msg("user", &"b".repeat(100))];
    let cache_roles = vec!["system".to_string(), "user".to_string()];
    let plan = plan_prompt_cache(&messages, PromptCacheProvider::Anthropic, &cache_roles, 100);
    assert_eq!(plan.tagged_indexes, vec![0, 1]);
}

#[test]
fn openai_compatible_has_no_tags() {
    let messages = vec![msg("system", "policy"), msg("user", "hello")];
    let plan = plan_prompt_cache(&messages, PromptCacheProvider::OpenAiCompatible, &["system".to_string()], 0);
    assert!(plan.tagged_indexes.is_empty());
}

#[test]
fn apply_sets_ephemeral_marker_only_for_planned_indexes() {
    let messages = vec![msg("system", &"a".repeat(100)), msg("user", "hello")];
    let plan = plan_prompt_cache(&messages, PromptCacheProvider::Anthropic, &["system".to_string()], 100);
    let out = apply_prompt_cache_plan(&messages, &plan);
    assert_eq!(out[0].cache_control.as_ref().map(|cc| cc.kind.as_str()).unwrap_or(""), "ephemeral");
    assert!(out[1].cache_control.is_none());
}

#[test]
fn plan_prompt_cache_default_works() {
    let messages = vec![msg("system", &"a".repeat(100)), msg("user", "hello")];
    let plan = plan_prompt_cache_default(&messages, PromptCacheProvider::Anthropic);
    assert_eq!(plan.provider, PromptCacheProvider::Anthropic);
    assert_eq!(plan.tagged_indexes, vec![0]);
}

#[test]
fn disabled_provider_tags_nothing_and_apply_keeps_messages() {
    let messages = vec![msg("system", &"a".repeat(100)), msg("user", "hello")];
    let plan = plan_prompt_cache(&messages, PromptCacheProvider::Off, &["system".to_string()], 0);
    assert!(plan.tagged_indexes.is_empty());
    let out = apply_prompt_cache_plan(&messages, &plan);
    assert_eq!(out.len(), 2);
    assert_eq!(out[1].content, "hello");
    assert!(out.iter().all(|m| m.cache_control.is_none()));
}

#[test]
fn prompt_caching_defaults() {
    let c = PromptCachingConfig::default();
    assert!(!c.enabled);
    assert_eq!(c.provider, PromptCacheProvider::Off);
    assert_eq!(c.cache_roles, vec!["system".to_string()]);
    assert_eq!(c.min_content_chars, 0);
    let cache = CacheConfig { prompt_caching: c.clone() };
    assert_eq!(cache.prompt_caching, c);
    assert_eq!(PromptCacheProvider::default(), PromptCacheProvider::Off);
}
