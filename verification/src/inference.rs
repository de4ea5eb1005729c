pub mod cache_file;
pub mod conversation_laws;
pub mod engine;
pub mod generation_context;
pub mod generation_handler;
pub mod generation_laws;
pub mod generation_run;
pub mod model_cache;
pub mod notation_laws;
pub mod prefix_laws;
pub mod reasoning_supervisor;
pub mod sampler;
pub mod stop_pattern_matcher;
pub mod tool_call_laws;
pub mod tool_calling_supervisor;
pub mod tool_formatter;
pub mod types;

pub use self::engine::InferenceEngine;
pub use self::generation_context::GenerationContext;
pub use self::generation_handler::GenerationHandler;
pub use self::model_cache::{CacheMetadata, ModelCacheManager};
pub use self::reasoning_supervisor::ReasoningSupervisor;
pub use self::sampler::Sampler;
pub use self::stop_pattern_matcher::StopPatternMatcher;
pub use self::tool_calling_supervisor::ToolCallingSupervisor;
pub use self::tool_formatter::{
    EnclosedJsonFormatter, PythonCallFormatter, ToolArgFormatter, ToolArgFormatterBuilder,
    XmlArgPairsFormatter,
};
pub use self::types::{
    GenerationDataType, GenerationEvent, GenerationReport, PostSamplingConfig, SamplingResult,
    StreamFrame, ToolFormatStyle,
};
