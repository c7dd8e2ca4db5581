//! Configuration shared across components: pool tiers and prompt caching.

use vstd::prelude::*;
use vstd::string::*;
use crate::cache::PromptCacheProvider;

verus! {

/// The tier of a pool of endpoints.
#[derive(Clone, Copy, Debug, PartialEq, Eq)]
pub enum PoolTier {
    Fast,
    Standard,
    Premium,
    Backup,
}

/// Prompt caching settings.
#[derive(Clone, Debug, PartialEq, Eq)]
pub struct PromptCachingConfig {
    pub enabled: bool,
    pub provider: PromptCacheProvider,
    /// Roles whose messages get cache markers.
    pub cache_roles: Vec<String>,
    /// Shortest content worth caching, in characters.
    pub min_content_chars: usize,
}

impl Default for PromptCachingConfig {
    /// Disabled, no provider, system messages only, no minimum length.
    fn default() -> (c: Self)
        ensures
            !c.enabled,
            c.provider == PromptCacheProvider::Off,
            c.cache_roles@.len() == 1 && c.cache_roles@[0]@ == "system"@,
            c.min_content_chars == 0,
    {
        let mut roles: Vec<String> = Vec::new();
        roles.push(String::from_str("system"));
        PromptCachingConfig {
            enabled: false,
            provider: PromptCacheProvider::Off,
            cache_roles: roles,
            min_content_chars: 0,
        }
    }
}

/// Cache settings.
#[derive(Clone, Debug, PartialEq, Eq)]
pub struct CacheConfig {
    pub prompt_caching: PromptCachingConfig,
}

} // verus!
