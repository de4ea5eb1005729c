//! How computed prefixes are cached.
use vstd::prelude::*;
use vstd::string::*;

use crate::config::file_config::{first_of, first_set, CacheFileConfig};
use crate::config::inference_config::value_or;
use crate::text::text_of;
use crate::types::ModelCacheFragmentation;

verus! {

#[derive(Debug, Clone, PartialEq)]
pub struct ModelCacheConfig {
    pub prefix_caching: bool,
    pub cache_dir: String,
    /// In bytes.
    pub max_cache_size: u64,
    pub min_cache_tokens: usize,
    pub fragmentation: ModelCacheFragmentation,
}

/// The mathematical model of a cache configuration.
pub struct CacheConfigView {
    pub prefix_caching: bool,
    pub cache_dir: Seq<char>,
    pub max_cache_size: u64,
    pub min_cache_tokens: usize,
    pub fragmentation: ModelCacheFragmentation,
}

impl View for ModelCacheConfig {
    type V = CacheConfigView;

    open spec fn view(&self) -> CacheConfigView {
        CacheConfigView {
            prefix_caching: self.prefix_caching,
            cache_dir: self.cache_dir@,
            max_cache_size: self.max_cache_size,
            min_cache_tokens: self.min_cache_tokens,
            fragmentation: self.fragmentation,
        }
    }
}

/// The configuration that holds where nothing is set.
pub open spec fn default_cache_config() -> CacheConfigView {
    CacheConfigView {
        prefix_caching: false,
        cache_dir: "model_cache"@,
        max_cache_size: 16_000_000_000,
        min_cache_tokens: 512,
        fragmentation: ModelCacheFragmentation::BlockWise { block_size: 32 },
    }
}

impl Default for ModelCacheConfig {
    fn default() -> (result: Self)
        ensures
            result@ == default_cache_config(),
    {
        ModelCacheConfig {
            prefix_caching: false,
            cache_dir: String::from_str("model_cache"),
            max_cache_size: 16_000_000_000,
            min_cache_tokens: 512,
            fragmentation: ModelCacheFragmentation::BlockWise { block_size: 32 },
        }
    }
}

impl ModelCacheConfig {
    pub fn builder() -> (result: ModelCacheConfigBuilder)
        ensures
            result == empty_cache_builder(),
    {
        ModelCacheConfigBuilder {
            prefix_caching: None,
            cache_dir: None,
            max_cache_size: None,
            min_cache_tokens: None,
            cache_block_size: None,
            file_config: None,
        }
    }
}

/// A builder with nothing set.
pub open spec fn empty_cache_builder() -> ModelCacheConfigBuilder {
    ModelCacheConfigBuilder {
        prefix_caching: None,
        cache_dir: None,
        max_cache_size: None,
        min_cache_tokens: None,
        cache_block_size: None,
        file_config: None,
    }
}

/// Collects settings; what is set explicitly comes before what the file sets, and that before the
/// defaults.
#[derive(Debug, Clone)]
pub struct ModelCacheConfigBuilder {
    pub prefix_caching: Option<bool>,
    pub cache_dir: Option<String>,
    pub max_cache_size: Option<u64>,
    pub min_cache_tokens: Option<usize>,
    pub cache_block_size: Option<usize>,
    pub file_config: Option<CacheFileConfig>,
}

/// The section of a file that sets nothing.
pub open spec fn empty_cache_section() -> CacheFileConfig {
    CacheFileConfig {
        prefix_caching: None,
        cache_dir: None,
        max_cache_size: None,
        min_cache_tokens: None,
        fragmentation: None,
    }
}

/// The fragmentation of a block size: blocks of one token are no blocks.
pub open spec fn fragmentation_for(block_size: usize) -> ModelCacheFragmentation {
    if block_size == 1 {
        ModelCacheFragmentation::TokenWise
    } else {
        ModelCacheFragmentation::BlockWise { block_size }
    }
}

/// The configuration that a builder stands for.
pub open spec fn resolved_cache_config(builder: ModelCacheConfigBuilder) -> CacheConfigView {
    let file = value_or(builder.file_config, empty_cache_section());
    let default = default_cache_config();
    CacheConfigView {
        prefix_caching: value_or(
            first_of(builder.prefix_caching, file.prefix_caching),
            default.prefix_caching,
        ),
        cache_dir: value_or(
            first_of(text_of(builder.cache_dir), text_of(file.cache_dir)),
            default.cache_dir,
        ),
        max_cache_size: value_or(
            first_of(builder.max_cache_size, file.max_cache_size),
            default.max_cache_size,
        ),
        min_cache_tokens: value_or(
            first_of(builder.min_cache_tokens, file.min_cache_tokens),
            default.min_cache_tokens,
        ),
        fragmentation: match builder.cache_block_size {
            Some(block_size) => fragmentation_for(block_size),
            None => value_or(file.fragmentation, default.fragmentation),
        },
    }
}

impl ModelCacheConfigBuilder {
    pub fn prefix_caching(self, prefix_caching: Option<bool>) -> (result: Self)
        ensures
            result == (ModelCacheConfigBuilder { prefix_caching, ..self }),
    {
        ModelCacheConfigBuilder { prefix_caching, ..self }
    }

    pub fn cache_dir(self, cache_dir: Option<String>) -> (result: Self)
        ensures
            result == (ModelCacheConfigBuilder { cache_dir, ..self }),
    {
        ModelCacheConfigBuilder { cache_dir, ..self }
    }

    pub fn max_cache_size(self, max_cache_size: Option<u64>) -> (result: Self)
        ensures
            result == (ModelCacheConfigBuilder { max_cache_size, ..self }),
    {
        ModelCacheConfigBuilder { max_cache_size, ..self }
    }

    pub fn min_cache_tokens(self, min_cache_tokens: Option<usize>) -> (result: Self)
        ensures
            result == (ModelCacheConfigBuilder { min_cache_tokens, ..self }),
    {
        ModelCacheConfigBuilder { min_cache_tokens, ..self }
    }

    pub fn cache_block_size(self, cache_block_size: Option<usize>) -> (result: Self)
        ensures
            result == (ModelCacheConfigBuilder { cache_block_size, ..self }),
    {
        ModelCacheConfigBuilder { cache_block_size, ..self }
    }

    pub fn with_file_config(self, config: Option<CacheFileConfig>) -> (result: Self)
        ensures
            result == (ModelCacheConfigBuilder { file_config: config, ..self }),
    {
        ModelCacheConfigBuilder { file_config: config, ..self }
    }

    /// The configuration: each setting as it was set explicitly, else as the file sets it, else
    /// the default. A block size that is set decides the fragmentation.
    pub fn build(self) -> (result: ModelCacheConfig)
        ensures
            result@ == resolved_cache_config(self),
    {
        let default = ModelCacheConfig::default();
        let file = match self.file_config {
            Some(config) => config,
            None => CacheFileConfig {
                prefix_caching: None,
                cache_dir: None,
                max_cache_size: None,
                min_cache_tokens: None,
                fragmentation: None,
            },
        };
        let fragmentation = match self.cache_block_size {
            Some(block_size) => if block_size == 1 {
                ModelCacheFragmentation::TokenWise
            } else {
                ModelCacheFragmentation::BlockWise { block_size }
            },
            None => match file.fragmentation {
                Some(fragmentation) => fragmentation,
                None => default.fragmentation,
            },
        };
        ModelCacheConfig {
            prefix_caching: match first_set(self.prefix_caching, file.prefix_caching) {
                Some(value) => value,
                None => default.prefix_caching,
            },
            cache_dir: match first_set(self.cache_dir, file.cache_dir) {
                Some(value) => value,
                None => default.cache_dir,
            },
            max_cache_size: match first_set(self.max_cache_size, file.max_cache_size) {
                Some(value) => value,
                None => default.max_cache_size,
            },
            min_cache_tokens: match first_set(self.min_cache_tokens, file.min_cache_tokens) {
                Some(value) => value,
                None => default.min_cache_tokens,
            },
            fragmentation,
        }
    }
}

} // verus!
