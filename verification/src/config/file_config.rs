//! What a configuration file can set.
use vstd::prelude::*;

use crate::float::Float32;
use crate::types::{ModelCacheFragmentation, ReasoningEffort, ToolChoice};

verus! {

/// The number format of the computation.
#[derive(Debug, Copy, Clone, PartialEq, Eq, Structural)]
pub enum ComputeDtype {
    F32,
    F16,
}

impl ComputeDtype {
    pub open spec fn text(self) -> Seq<char> {
        match self {
            ComputeDtype::F16 => "f16"@,
            ComputeDtype::F32 => "f32"@,
        }
    }

    pub fn name(&self) -> (result: &'static str)
        ensures
            result@ == self.text(),
    {
        match self {
            ComputeDtype::F16 => "f16",
            ComputeDtype::F32 => "f32",
        }
    }
}

/// The sections of a configuration file.
#[derive(Debug, Clone, PartialEq)]
pub struct FileConfig {
    pub generation_config: Option<GenerationFileConfig>,
    pub inference_config: Option<InferenceFileConfig>,
    pub cache_config: Option<CacheFileConfig>,
}

/// The generation section.
#[derive(Debug, Clone, PartialEq)]
pub struct GenerationFileConfig {
    pub temperature: Option<Float32>,
    pub max_tokens: Option<usize>,
    pub top_p: Option<Float32>,
    pub repetition_penalty: Option<Float32>,
    pub tool_choice: Option<ToolChoice>,
    pub reasoning_effort: Option<ReasoningEffort>,
    pub stop_tokens: Option<Vec<String>>,
    pub logprobs: Option<bool>,
    pub top_logprobs: Option<usize>,
    pub seed: Option<usize>,
}

/// The inference section.
#[derive(Debug, Clone, Copy, PartialEq, Eq, Structural)]
pub struct InferenceFileConfig {
    pub dtype: Option<ComputeDtype>,
    pub max_seq_len: Option<usize>,
    pub conv_on_cpu: Option<bool>,
    pub flash_attn: Option<bool>,
}

/// The cache section.
#[derive(Debug, Clone, PartialEq)]
pub struct CacheFileConfig {
    pub prefix_caching: Option<bool>,
    pub cache_dir: Option<String>,
    pub max_cache_size: Option<u64>,
    pub min_cache_tokens: Option<usize>,
    pub fragmentation: Option<ModelCacheFragmentation>,
}

/// The first value that is there.
pub open spec fn first_of<T>(first: Option<T>, second: Option<T>) -> Option<T> {
    match first {
        Some(value) => Some(value),
        None => second,
    }
}

/// The first value that is there.
pub fn first_set<T>(first: Option<T>, second: Option<T>) -> (result: Option<T>)
    ensures
        result == first_of(first, second),
{
    match first {
        Some(value) => Some(value),
        None => second,
    }
}

} // verus!
