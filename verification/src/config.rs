pub mod file_config;
pub mod generation_config;
pub mod inference_config;
pub mod model_cache_config;
pub mod model_config;
pub mod parser;
pub mod settings_laws;
pub mod tokenizer_config;

pub use self::file_config::{
    CacheFileConfig, ComputeDtype, FileConfig, GenerationFileConfig, InferenceFileConfig,
};
pub use self::generation_config::{GenerationConfig, GenerationConfigBuilder, GenerationOverrides};
pub use self::inference_config::InferenceConfig;
pub use self::model_cache_config::ModelCacheConfig;
pub use self::model_config::{ModelArchitecture, ModelConfig};
pub use self::parser::{Deepseek2Parser, Lfm2Parser};
pub use self::tokenizer_config::TokenizerConfig;
