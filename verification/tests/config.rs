use loci::config::generation_config::GenerationConfigBuilder;
use loci::config::inference_config::build_inference_config;
use loci::config::model_config::{ModelArchitecture, ModelConfig};
use loci::config::parser::deepseek2::{DeepSeek2ExtraParameters, Deepseek2Parser};
use loci::config::parser::lfm2::{Lfm2ExtraParameters, Lfm2Parser};
use loci::config::parser::utility::{build_n_kv_count, spread_heads};
use loci::config::{
    CacheFileConfig, ComputeDtype, FileConfig, GenerationConfig, GenerationFileConfig,
    GenerationOverrides, InferenceConfig, InferenceFileConfig, ModelCacheConfig,
};
use loci::float::Float32;
use loci::gguf::{GgufHeaders, GgufInfo, GgufKVMeta, GgufTensorInfo, GgufType, GgufValue};
use loci::inference::ToolFormatStyle;
use loci::types::{ModelCacheFragmentation, ReasoningEffort, ToolChoice, ToolChoiceMode};

fn float(value: f32) -> Float32 {
    Float32 {
        bits: value.to_bits(),
    }
}

fn text_entry(key: &str, value: &str) -> GgufKVMeta {
    GgufKVMeta {
        key: key.to_string(),
        value_type: GgufType::String,
        value: GgufValue::String(value.to_string()),
    }
}

fn number_entry(key: &str, value: u32) -> GgufKVMeta {
    GgufKVMeta {
        key: key.to_string(),
        value_type: GgufType::Uint32,
        value: GgufValue::Uint32(value),
    }
}

fn float_entry(key: &str, value: f32) -> GgufKVMeta {
    GgufKVMeta {
        key: key.to_string(),
        value_type: GgufType::Float32,
        value: GgufValue::Float32(float(value)),
    }
}

fn info_of(kv_meta: Vec<GgufKVMeta>) -> GgufInfo {
    GgufInfo {
        headers: GgufHeaders {
            path: "test_path".to_string(),
            magic: "GGUF".to_string(),
            version: 5342,
            tensor_count: 1,
            metadata_kv_count: 6,
        },
        kv_meta,
        tensor_info: vec![GgufTensorInfo {
            name: "test_tensor_name".to_string(),
            n_dims: 3,
            shapes: vec![1, 2, 3],
            ggml_type: 3,
            offset: 0,
        }],
        tensor_offset_start: 0,
    }
}

#[test]
fn test_generation_config_defaults() {
    let default = GenerationConfig::default();
    assert_eq!(default.temperature, float(0.8));
    assert_eq!(default.top_p, float(0.9));
    assert_eq!(default.max_tokens, 32_000);
    assert_eq!(default.repetition_penalty, float(1.15));
    assert_eq!(default.tool_choice, ToolChoice::Mode(ToolChoiceMode::Auto));
    assert_eq!(default.reasoning_effort, ReasoningEffort::High);
    assert_eq!(default.stop_tokens, None);
    assert_eq!(default.logprobs, false);
    assert_eq!(default.top_logprobs, None);
    assert_eq!(default.seed, 19);
}

fn tuned_config() -> GenerationConfig {
    GenerationConfig {
        temperature: float(0.87),
        top_p: float(0.99),
        max_tokens: 64_000,
        repetition_penalty: float(1.158),
        tool_choice: ToolChoice::Mode(ToolChoiceMode::Auto),
        reasoning_effort: ReasoningEffort::High,
        stop_tokens: None,
        logprobs: false,
        top_logprobs: None,
        seed: 19,
    }
}

#[test]
fn test_generation_config_from_gguf_metadata_success() {
    let gguf_info = info_of(vec![
        text_entry("general.architecture", "gpt2"),
        float_entry("sampling.temperature", 0.87),
        float_entry("sampling.top_p", 0.99),
        number_entry("general.max_tokens", 64000),
        float_entry("sampling.repetition_penalty", 1.158),
        text_entry("unknown.key", "unknown.key"),
    ]);
    let gen_config = GenerationConfig::from_gguf_metadata(&gguf_info).unwrap();
    assert_eq!(gen_config, tuned_config());

    let gguf_info = info_of(vec![
        text_entry("general.architecture", "gpt2"),
        float_entry("general.sampling.temp", 0.87),
        float_entry("general.sampling.top_p", 0.99),
        number_entry("general.max_tokens", 64000),
        float_entry("general.sampling.repetition_penalty", 1.158),
        text_entry("unknown.key", "unknown.key"),
    ]);
    let gen_config = GenerationConfig::from_gguf_metadata(&gguf_info).unwrap();
    assert_eq!(gen_config, tuned_config());
}

#[test]
fn test_generation_config_from_gguf_metadata_failure() {
    let gguf_info = info_of(vec![
        float_entry("sampling.temperature", 0.87),
        float_entry("sampling.top_p", 0.99),
        number_entry("general.max_tokens", 64000),
        float_entry("sampling.repetition_penalty", 1.158),
        text_entry("unknown.key", "unknown.key"),
    ]);
    let error = GenerationConfig::from_gguf_metadata(&gguf_info)
        .expect_err("Expected GenerationConfig validation to fail, but it passed successfully.");
    assert!(error.contains("Could not find 'general.architecture' key in gguf metadata"));
}

#[test]
fn later_metadata_entries_decide() {
    let gguf_info = info_of(vec![
        text_entry("general.architecture", "gpt2"),
        float_entry("sampling.temperature", 0.87),
        float_entry("general.sampling.temp", 0.25),
        text_entry("sampling.temperature", "warm"),
    ]);
    let gen_config = GenerationConfig::from_gguf_metadata(&gguf_info).unwrap();
    assert_eq!(gen_config.temperature, float(0.25));
    assert_eq!(gen_config.top_p, float(0.9));
}

fn setup_test_file_config() -> GenerationFileConfig {
    GenerationFileConfig {
        temperature: Some(float(0.14)),
        top_p: Some(float(0.49)),
        max_tokens: Some(64_000),
        repetition_penalty: Some(float(1.158)),
        tool_choice: Some(ToolChoice::Mode(ToolChoiceMode::Auto)),
        reasoning_effort: Some(ReasoningEffort::High),
        stop_tokens: None,
        logprobs: None,
        top_logprobs: None,
        seed: Some(119),
    }
}

fn setup_test_overrides() -> GenerationOverrides {
    GenerationOverrides {
        temperature: Some(float(0.34)),
        top_p: Some(float(0.99)),
        max_tokens: Some(64_000),
        repetition_penalty: Some(float(1.158)),
        tool_choice: Some(ToolChoice::Mode(ToolChoiceMode::Auto)),
        reasoning_effort: Some(ReasoningEffort::High),
        stop_tokens: None,
        logprobs: None,
        top_logprobs: None,
        seed: Some(119),
        file_config: None,
    }
}

fn setup_test_builder() -> GenerationConfigBuilder {
    GenerationConfigBuilder::default()
}

fn setup_test_gguf_info() -> GgufInfo {
    info_of(vec![
        text_entry("general.architecture", "gpt2"),
        float_entry("sampling.temperature", 0.24),
        float_entry("sampling.top_p", 0.99),
        number_entry("general.max_tokens", 64000),
        float_entry("sampling.repetition_penalty", 1.158),
        text_entry("unknown.key", "unknown.key"),
    ])
}

#[test]
fn test_generation_config_build_priority() {
    let builder = setup_test_builder();
    let gguf_info = setup_test_gguf_info();
    let config_default = builder.build();
    assert_eq!(config_default.temperature, float(0.8));
    let builder = setup_test_builder();
    let file_config = setup_test_file_config();
    let config_file = builder.with_file_config(Some(file_config)).build();
    assert_eq!(config_file.temperature, float(0.14));
    let builder = setup_test_builder();
    let config_gguf = builder.with_gguf_metadata(&gguf_info).unwrap().build();
    assert_eq!(config_gguf.temperature, float(0.24));
    let builder = setup_test_builder();
    let file_config = setup_test_file_config();
    let config_with_file_and_gguf = builder
        .with_file_config(Some(file_config))
        .with_gguf_metadata(&gguf_info)
        .unwrap()
        .build();
    assert_eq!(config_with_file_and_gguf.temperature, float(0.14));
    let builder = setup_test_builder();
    let overrides = setup_test_overrides();
    let config_overrides = builder.with_overrides(overrides).build();
    assert_eq!(config_overrides.temperature, float(0.34));
    let builder = setup_test_builder();
    let file_config = setup_test_file_config();
    let overrides = setup_test_overrides();
    let config_file_and_overrides = builder
        .with_file_config(Some(file_config))
        .with_overrides(overrides)
        .build();
    assert_eq!(config_file_and_overrides.temperature, float(0.34));
    let builder = setup_test_builder();
    let overrides = setup_test_overrides();
    let config_gguf_and_overrides = builder
        .with_gguf_metadata(&gguf_info)
        .unwrap()
        .with_overrides(overrides)
        .build();
    assert_eq!(config_gguf_and_overrides.temperature, float(0.34));
    let builder = setup_test_builder();
    let file_config = setup_test_file_config();
    let overrides = setup_test_overrides();
    let config_file_gguf_and_overrides = builder
        .with_file_config(Some(file_config))
        .with_gguf_metadata(&gguf_info)
        .unwrap()
        .with_overrides(overrides)
        .build();
    assert_eq!(config_file_gguf_and_overrides.temperature, float(0.34));
    let builder = setup_test_builder();
    let file_config = setup_test_file_config();
    let overrides = setup_test_overrides();
    let config_explicit = builder
        .with_file_config(Some(file_config))
        .with_overrides(overrides)
        .temperature(Some(float(0.44)))
        .build();
    assert_eq!(config_explicit.temperature, float(0.44));
}

#[test]
fn test_generation_overrides_chain_calls() {
    let overrides = GenerationOverrides::default();
    assert_eq!(overrides.top_p, None);
    let overrides_with_top_p = overrides.with_top_p(Some(float(0.49)));
    assert_eq!(overrides_with_top_p.top_p, Some(float(0.49)));
    let overrides_with_top_p_and_temperature =
        overrides_with_top_p.with_temperature(Some(float(0.99)));
    assert_eq!(overrides_with_top_p_and_temperature.top_p, Some(float(0.49)));
    assert_eq!(overrides_with_top_p_and_temperature.temperature, Some(float(0.99)));
    let file_config = setup_test_file_config();

    let overrides_with_file_config =
        overrides_with_top_p_and_temperature.with_file_config(Some(file_config.clone()));
    assert_eq!(overrides_with_file_config.file_config, Some(file_config));
}

#[test]
fn overrides_decide_over_the_builder() {
    let builder = setup_test_builder()
        .with_file_config(Some(setup_test_file_config()))
        .seed(Some(7));
    let resolved = builder.resolve(setup_test_overrides());
    assert_eq!(resolved.temperature, float(0.34));
    assert_eq!(resolved.seed, 119);
    let resolved = builder.resolve(GenerationOverrides::default());
    assert_eq!(resolved.temperature, float(0.14));
    assert_eq!(resolved.top_p, float(0.49));
    assert_eq!(resolved.seed, 7);
    let resolved = builder.resolve(
        GenerationOverrides::default()
            .with_stop_tokens(Some(vec!["end".to_string()]))
            .with_logprobs(Some(true))
            .with_top_logprobs(Some(3))
            .with_tool_choice(Some(ToolChoice::Mode(ToolChoiceMode::Required)))
            .with_reasoning_effort(Some(ReasoningEffort::Low))
            .with_repetition_penalty(Some(float(2.0)))
            .with_max_tokens(Some(5)),
    );
    assert_eq!(resolved.stop_tokens, Some(vec!["end".to_string()]));
    assert_eq!(resolved.logprobs, true);
    assert_eq!(resolved.top_logprobs, Some(3));
    assert_eq!(resolved.tool_choice, ToolChoice::Mode(ToolChoiceMode::Required));
    assert_eq!(resolved.reasoning_effort, ReasoningEffort::Low);
    assert_eq!(resolved.repetition_penalty, float(2.0));
    assert_eq!(resolved.max_tokens, 5);
}

#[test]
fn inference_settings_in_their_order() {
    assert_eq!(
        InferenceConfig::builder().build(),
        InferenceConfig::default()
    );
    let file = InferenceFileConfig {
        dtype: Some(ComputeDtype::F16),
        max_seq_len: Some(32_000),
        conv_on_cpu: Some(true),
        flash_attn: Some(true),
    };
    let built = InferenceConfig::builder()
        .with_file_config(Some(file))
        .max_seq_len(Some(100))
        .build();
    assert_eq!(
        built,
        InferenceConfig {
            dtype: ComputeDtype::F16,
            max_seq_len: 100,
            flash_attn: true,
            conv_on_cpu: true,
        }
    );
    assert_eq!(ComputeDtype::F32.name(), "f32");
    assert_eq!(ComputeDtype::F16.name(), "f16");
}

#[test]
fn cache_settings_in_their_order() {
    let file = CacheFileConfig {
        prefix_caching: Some(false),
        cache_dir: Some("cache".to_string()),
        max_cache_size: Some(10),
        min_cache_tokens: None,
        fragmentation: Some(ModelCacheFragmentation::TokenWise),
    };
    let built = ModelCacheConfig::builder()
        .with_file_config(Some(file))
        .prefix_caching(Some(true))
        .cache_block_size(Some(16))
        .build();
    assert_eq!(built.prefix_caching, true);
    assert_eq!(built.cache_dir, "cache");
    assert_eq!(built.max_cache_size, 10);
    assert_eq!(
        built.min_cache_tokens,
        ModelCacheConfig::default().min_cache_tokens
    );
    assert_eq!(
        built.fragmentation,
        ModelCacheFragmentation::BlockWise { block_size: 16 }
    );
}

#[test]
fn file_sections_are_independent() {
    let file = FileConfig {
        generation_config: Some(setup_test_file_config()),
        inference_config: None,
        cache_config: None,
    };
    let again = file.clone();
    assert_eq!(file, again);
    let config = GenerationConfig::builder()
        .with_file_config(file.generation_config)
        .build();
    assert_eq!(config.seed, 119);
    assert_eq!(
        InferenceConfig::builder()
            .with_file_config(file.inference_config)
            .build(),
        InferenceConfig::default()
    );
    assert_eq!(
        ModelCacheConfig::builder()
            .with_file_config(file.cache_config)
            .build(),
        ModelCacheConfig::default()
    );
}

#[test]
fn test_build_n_kv_count_failure() {
    let entry = float_entry("lfm2.attention.head_count_kv", 2.0);
    let error = build_n_kv_count(&entry).expect_err("build_n_kv_count should fail, but did not");
    assert!(error.contains("Expected usize for KV count"));
    let entry = GgufKVMeta {
        key: String::from("lfm2.attention.head_count_kv"),
        value_type: GgufType::Array,
        value: GgufValue::Array(vec![
            GgufValue::Float32(float(2.0)),
            GgufValue::Float32(float(4.0)),
        ]),
    };
    let error = build_n_kv_count(&entry).expect_err("build_n_kv_count should fail, but did not");
    assert!(error.contains("Invalid KV head entry"));
}

#[test]
fn test_build_n_kv_count_success() {
    let key = "lfm2.attention.head_count_kv";
    let array = |values: Vec<GgufValue>| GgufKVMeta {
        key: key.to_string(),
        value_type: GgufType::Array,
        value: GgufValue::Array(values),
    };
    assert_eq!(build_n_kv_count(&array(vec![])), Ok(vec![]));
    assert_eq!(
        build_n_kv_count(&array(vec![GgufValue::Uint32(1), GgufValue::Uint32(2)])),
        Ok(vec![1, 2])
    );
    assert_eq!(build_n_kv_count(&number_entry(key, 2)), Ok(vec![2]));
}

#[test]
fn heads_are_spread_over_the_layers() {
    assert_eq!(spread_heads(None, 4, 3), Ok(vec![4, 4, 4]));
    assert_eq!(spread_heads(Some(vec![2]), 4, 3), Ok(vec![2, 2, 2]));
    assert_eq!(spread_heads(Some(vec![1]), 4, 3), Ok(vec![4, 4, 4]));
    assert_eq!(spread_heads(Some(vec![1, 0, 2]), 4, 3), Ok(vec![1, 0, 2]));
    assert_eq!(
        spread_heads(Some(vec![1, 0]), 4, 3),
        Err("KV heads length 2 does not match layers 3".to_string())
    );
}

fn deepseek2_info() -> GgufInfo {
    info_of(vec![
        text_entry("general.name", "test_name"),
        number_entry("deepseek2.embedding_length", 512),
        number_entry("deepseek2.feed_forward_length", 2048),
        number_entry("deepseek2.context_length", 2048),
        number_entry("deepseek2.vocab_size", 32000),
        float_entry("deepseek2.rope.freq_base", 10000.0),
        number_entry("deepseek2.attention.head_count", 12),
        number_entry("deepseek2.block_count", 2),
        GgufKVMeta {
            key: "deepseek2.attention.head_count_kv".to_string(),
            value_type: GgufType::Array,
            value: GgufValue::Array(vec![GgufValue::Uint32(12), GgufValue::Uint32(12)]),
        },
    ])
}

fn deepseek2_config() -> ModelConfig {
    ModelConfig {
        file_path: "test_path".to_string(),
        architecture: ModelArchitecture::Deepseek2,
        model_name: "test_name".to_string(),
        hidden_size: 512,
        n_heads: 12,
        n_kv_heads: vec![12, 12],
        n_layers: 2,
        vocab_size: 32000,
        intermediate_ffn_size: 2048,
        rope_theta: float(10000.0),
        max_seq_len: 2048,
        rms_epsilon: float(1e-5),
        cache_seq_len_dim: DeepSeek2ExtraParameters::CACHE_SEQ_LEN_DIM,
        supports_reasoning: DeepSeek2ExtraParameters::SUPPORTS_REASONING,
        supports_tool_calling: DeepSeek2ExtraParameters::SUPPORTS_TOOL_CALLING,
        tool_call_start_token_id: Some(DeepSeek2ExtraParameters::TOOL_CALL_START_TOKEN_ID),
        tool_call_end_token_id: Some(DeepSeek2ExtraParameters::TOOL_CALL_END_TOKEN_ID),
        reasoning_start_token_id: Some(DeepSeek2ExtraParameters::REASONING_START_TOKEN_ID),
        reasoning_end_token_id: Some(DeepSeek2ExtraParameters::REASONING_END_TOKEN_ID),
        tool_call_format_style: ToolFormatStyle::XmlArgPairs,
        flatten_tools_to_functions: false,
        arg_key_open_token_id: Some(DeepSeek2ExtraParameters::ARG_KEY_OPEN_TOKEN_ID),
        arg_key_close_token_id: Some(DeepSeek2ExtraParameters::ARG_KEY_CLOSE_TOKEN_ID),
        arg_value_open_token_id: Some(DeepSeek2ExtraParameters::ARG_VALUE_OPEN_TOKEN_ID),
        arg_value_close_token_id: Some(DeepSeek2ExtraParameters::ARG_VALUE_CLOSE_TOKEN_ID),
        ..Default::default()
    }
}

#[test]
fn an_lfm2_model_may_be_nameless() {
    let mut entries = vec![
        number_entry("lfm2.embedding_length", 1024),
        number_entry("lfm2.feed_forward_length", 4608),
        number_entry("lfm2.context_length", 2048),
        number_entry("lfm2.vocab_size", 100),
        float_entry("lfm2.rope.freq_base", 10000.0),
        number_entry("lfm2.attention.head_count", 16),
        number_entry("lfm2.block_count", 2),
    ];
    let nameless = Lfm2Parser::parse(&info_of(entries.clone())).expect("a configuration");
    assert_eq!(nameless.model_name, "");
    assert_eq!(nameless.n_kv_heads, vec![16, 16]);
    entries.push(text_entry("general.name", "test_name"));
    let named = Lfm2Parser::parse(&info_of(entries)).expect("a configuration");
    assert_eq!(named.model_name, "test_name");
}

fn without(key: &str) -> GgufInfo {
    let mut gguf_info = deepseek2_info();
    gguf_info.kv_meta.retain(|entry| entry.key != key);
    gguf_info
}

fn with_heads(heads: Vec<GgufValue>) -> GgufInfo {
    let mut gguf_info = deepseek2_info();
    let n_kv_heads = gguf_info
        .kv_meta
        .iter_mut()
        .find(|entry| entry.key == "deepseek2.attention.head_count_kv")
        .unwrap();
    n_kv_heads.value = GgufValue::Array(heads);
    gguf_info
}

#[test]
fn test_deepseek2_parse_failure() {
    let cases = vec![
        (without("deepseek2.attention.head_count"), "Missing attention.head_count"),
        (without("deepseek2.block_count"), "Missing block_count"),
        (
            with_heads(vec![
                GgufValue::Uint32(12),
                GgufValue::Uint32(12),
                GgufValue::Uint32(12),
            ]),
            "KV heads length 3 does not match layers 2",
        ),
        (without("general.name"), "Missing general.name"),
        (without("deepseek2.embedding_length"), "Missing embedding_length"),
        (without("deepseek2.feed_forward_length"), "Missing feed_forward_length"),
        (without("deepseek2.context_length"), "Missing context_length"),
        (without("deepseek2.vocab_size"), "Missing vocab_size"),
        (without("deepseek2.rope.freq_base"), "Missing rope.freq_base"),
    ];
    for (gguf_info, expected_error) in cases {
        let result = Deepseek2Parser::parse(&gguf_info).expect_err("expected parse to fail");
        assert!(result.contains(expected_error));
    }
}

#[test]
fn test_deepseek2_parse_success() {
    assert_eq!(Deepseek2Parser::parse(&deepseek2_info()), Ok(deepseek2_config()));

    let mut gguf_info = deepseek2_info();
    gguf_info.kv_meta.push(float_entry(
        "deepseek2.attention.layer_norm_rms_epsilon",
        1e-3,
    ));
    let mut config = deepseek2_config();
    config.rms_epsilon = float(1e-3);
    assert_eq!(Deepseek2Parser::parse(&gguf_info), Ok(config));

    let mut config = deepseek2_config();
    config.n_kv_heads = vec![config.n_heads; config.n_layers];
    assert_eq!(
        Deepseek2Parser::parse(&with_heads(vec![GgufValue::Uint32(1)])),
        Ok(config)
    );

    let mut config = deepseek2_config();
    config.n_kv_heads = vec![12; config.n_layers];
    assert_eq!(
        Deepseek2Parser::parse(&with_heads(vec![GgufValue::Uint32(12)])),
        Ok(config)
    );

    let mut config = deepseek2_config();
    config.n_kv_heads = vec![config.n_heads; config.n_layers];
    assert_eq!(
        Deepseek2Parser::parse(&without("deepseek2.attention.head_count_kv")),
        Ok(config)
    );
}

#[test]
fn architectures_by_name_whatever_the_case() {
    assert_eq!(ModelArchitecture::from_str("lfm2"), Ok(ModelArchitecture::Lfm2));
    assert_eq!(ModelArchitecture::from_str("LFM2"), Ok(ModelArchitecture::Lfm2));
    assert_eq!(
        ModelArchitecture::from_str("DeepSeek2"),
        Ok(ModelArchitecture::Deepseek2)
    );
    assert_eq!(
        ModelArchitecture::from_str("GPT2"),
        Err("Unsupported model architecture: GPT2".to_string())
    );
    assert_eq!(
        ModelArchitecture::from_lower_case("deepseek2"),
        Some(ModelArchitecture::Deepseek2)
    );
    assert_eq!(ModelArchitecture::from_lower_case("LFM2"), None);
    assert_eq!(ModelArchitecture::Lfm2.name(), "Lfm2");
    assert_eq!(ModelArchitecture::Deepseek2.name(), "Deepseek2");
}

#[test]
fn the_architecture_picks_the_parser() {
    let mut gguf_info = deepseek2_info();
    gguf_info
        .kv_meta
        .push(text_entry("general.architecture", "deepseek2"));
    assert_eq!(ModelConfig::from_gguf_info(&gguf_info), Ok(deepseek2_config()));
    assert!(ModelConfig::from_gguf_info(&deepseek2_info()).is_err());
    let error = ModelConfig::for_architecture(ModelArchitecture::Lfm2, &gguf_info)
        .expect_err("the keys of another architecture");
    assert_eq!(Lfm2Parser::parse(&gguf_info), Err(error));
    assert_eq!(Lfm2ExtraParameters::TOOL_CALL_START_TOKEN_ID, 10);
}

#[test]
fn explicit_inference_settings() {
    let built = build_inference_config(None, Some(9999), None, Some(false), None);
    assert_eq!(
        built,
        InferenceConfig {
            dtype: ComputeDtype::F16,
            max_seq_len: 9999,
            flash_attn: true,
            conv_on_cpu: false,
        }
    );
}
