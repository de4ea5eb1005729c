use candle_core::{Device, Tensor};
use candle_nn::kv_cache::ConcatKvCache;
use loci::config::{GenerationConfig, GenerationOverrides, ModelConfig};
use loci::error::LociError;
use loci::float::Float32;
use loci::inference::engine::{
    decode_sampling_result, model_name_of, squeeze_logits, usage, InferenceEngine, Progress,
    StreamCallback,
};
use loci::inference::generation_context::{
    CacheLoader, GenerationContext, ModelCacheManagerInterface,
};
use loci::inference::model_cache::{CacheMetadata, LoadedMixedCache};
use loci::inference::sampler::Sampler;
use loci::inference::types::{
    GenerationDataType, GenerationEvent, SamplingResult, StreamFrame, TopKEntry,
};
use loci::model::load_plan::{
    conv_memory, find_norm_prefix, init_cache, least_block, plan_deepseek2, plan_lfm2, MixerKind,
};
use loci::model::{MixedCache, Model, ModelCacheType};
use loci::tokenizer::{StreamContext, Tokenizer};
use loci::types::{
    ChatMessage, FinishReason, ModelCacheFragmentation, ReasoningEffort, Role, Tool,
};

struct MockTokenizer;

impl Tokenizer for MockTokenizer {
    fn eos_token_id(&self) -> u32 {
        7
    }

    fn special_token_ids(&self) -> Vec<u32> {
        vec![1, 7]
    }

    fn apply_chat_template(
        &self,
        messages: &Vec<ChatMessage>,
        _tools: &Vec<Tool>,
        enable_thinking: bool,
        _flatten_tools_to_functions: bool,
    ) -> Result<String, String> {
        if messages.is_empty() {
            return Err("no messages".to_string());
        }
        if enable_thinking {
            Ok("think".to_string())
        } else {
            Ok("hello".to_string())
        }
    }

    fn encode(&self, text: &str, _add_special_tokens: bool) -> Result<Vec<u32>, String> {
        match text {
            "hello" => Ok(vec![1, 2, 3]),
            "stop" => Ok(vec![4]),
            _ => Err(format!("cannot encode {}", text)),
        }
    }

    fn decode(&self, ids: &[u32], _skip_special_tokens: bool) -> Result<String, String> {
        Ok(format!("{:?}", ids))
    }

    fn process_token_stream(
        &self,
        _stream_ctx: &mut StreamContext,
        _token_id: u32,
    ) -> Result<Option<String>, String> {
        Ok(Some("World".to_string()))
    }

    fn process_multiple_token_stream(
        &self,
        _stream_ctx: &mut StreamContext,
        _token_ids: &[u32],
    ) -> Result<Option<String>, String> {
        Ok(Some("World".to_string()))
    }
}

/// Token 4 follows the prompt, and the end follows token 4.
struct MockModel;

fn scores(best: usize) -> Tensor {
    let mut row = vec![0.01f32; 16];
    row[best] = 0.99;
    Tensor::new(vec![vec![row]], &Device::Cpu).expect("output tensor creation failed")
}

impl Model for MockModel {
    fn forward(
        &self,
        _input: &Tensor,
        _cache: &mut Vec<Option<MixedCache>>,
        pos: usize,
        use_flash: bool,
    ) -> Result<Tensor, String> {
        assert!(use_flash);
        match pos {
            0 => Ok(scores(4)),
            3 => Ok(scores(7)),
            _ => Err("no further position".to_string()),
        }
    }

    fn init_cache(&self) -> Result<Vec<Option<MixedCache>>, String> {
        let mut layers = vec![];
        for heads in [0u32, 0, 8, 0, 0, 8, 0, 0, 8, 0, 8, 0, 8, 0, 8, 0] {
            if heads == 0 {
                layers.push(None);
            } else {
                layers.push(Some(MixedCache::KvCache(ConcatKvCache::new(2))));
            }
        }
        Ok(layers)
    }

    fn cache_seq_len_dim(&self) -> usize {
        2
    }

    fn min_prefill_tokens(&self) -> usize {
        1
    }

    fn conv_on_cpu(&self) -> bool {
        true
    }

    fn cache_block_size_hint(&self) -> usize {
        1
    }

    fn model_cache_type(&self) -> ModelCacheType {
        ModelCacheType::MixedWithConv { conv_l_cache: 2 }
    }

    fn n_layers(&self) -> usize {
        16
    }
}

/// Always the best token.
struct Greedy;

impl Sampler for Greedy {
    type Logits = Tensor;

    fn add_token(&mut self, _token_id: u32) {}

    fn sample(
        &mut self,
        logits: &Tensor,
        _top_k: Option<usize>,
    ) -> Result<SamplingResult, String> {
        let row = logits.to_vec1::<f32>().map_err(|error| error.to_string())?;
        let mut best = 0;
        for i in 0..row.len() {
            if row[i] > row[best] {
                best = i;
            }
        }
        Ok(SamplingResult {
            token: best as u32,
            logprob: None,
            top_k_logprobs: None,
        })
    }
}

struct NoCache;

impl ModelCacheManagerInterface for NoCache {
    fn min_cache_tokens(&self) -> usize {
        512
    }

    fn save_cache(
        &self,
        _token_ids: &Vec<u32>,
        _cache: &Vec<Option<MixedCache>>,
        _cache_seq_len_dim: usize,
        _fragmentation: &ModelCacheFragmentation,
        _block_boundary_conv_cache: &Vec<Vec<Option<MixedCache>>>,
    ) -> Result<String, LociError> {
        Err(LociError::Cache("nothing is kept".to_string()))
    }

    fn enforce_limits(&self, _cache_meta: &mut Vec<CacheMetadata>) -> Result<(), LociError> {
        Ok(())
    }
}

impl CacheLoader for NoCache {
    fn load_mixed_cache(
        &self,
        _cache_file_path: &str,
        _matched_token_length: usize,
        _fragmentation: &ModelCacheFragmentation,
        _cache_seq_len_dim: usize,
        _device: &Device,
        _conv_on_cpu: bool,
    ) -> Result<LoadedMixedCache, String> {
        Err("nothing is kept".to_string())
    }
}

struct Collector {
    frames: Vec<StreamFrame>,
    fails: bool,
}

impl StreamCallback for Collector {
    fn call(&mut self, frame: StreamFrame) -> Result<(), LociError> {
        if self.fails {
            return Err(LociError::Stream("User disconnected".to_string()));
        }
        self.frames.push(frame);
        Ok(())
    }
}

fn listener() -> Collector {
    Collector {
        frames: vec![],
        fails: false,
    }
}

fn engine() -> InferenceEngine<MockTokenizer, MockModel> {
    let mut model_config = ModelConfig::default();
    model_config.vocab_size = 16;
    InferenceEngine::new(
        "models/test.gguf",
        &model_config,
        None,
        GenerationConfig::builder(),
        MockTokenizer,
        MockModel,
        Device::Cpu,
    )
}

fn fresh_context() -> GenerationContext<NoCache, NoCache> {
    GenerationContext::new(
        "test",
        None,
        engine().model_cache_info(),
        NoCache,
        NoCache,
        vec![],
    )
}

#[test]
fn test_engine_with_mock_model() {
    let engine = engine();
    let mut gen_ctx = fresh_context();
    let mut overrides = GenerationOverrides::default();
    overrides.temperature = Some(Float32 {
        bits: 0.0f32.to_bits(),
    });
    let gen_config = engine.config_for(overrides);
    assert_eq!(gen_config.temperature, Float32 { bits: 0 });
    let mut callback = listener();
    let report = engine
        .generate_stream("hello", &mut gen_ctx, &gen_config, Greedy, &mut callback)
        .expect("failed to generate stream");
    assert_eq!(report.chat_message.role, Role::Assistant);
    assert_eq!(report.chat_message.content, Some(String::from("World")));
    assert_eq!(report.finish_reason, FinishReason::Stop);
    assert_eq!(report.usage.prompt_tokens, 3);
    assert_eq!(report.usage.completion_tokens, 2);
    assert_eq!(report.usage.total_tokens, 5);
    assert_eq!(callback.frames.len(), 1);
    assert_eq!(callback.frames[0].output, "World");
    assert_eq!(gen_ctx.token_ids, vec![1, 2, 3, 4]);
}

#[test]
fn a_conversation_goes_through_the_template() {
    let engine = engine();
    let gen_config = engine.config_for(GenerationOverrides::default());
    let messages = vec![ChatMessage::new(Role::User, "Hi")];
    let mut callback = listener();
    let report = engine
        .generate_chat_stream(
            &messages,
            &vec![],
            &mut fresh_context(),
            &gen_config,
            Greedy,
            &mut callback,
        )
        .expect("an answer");
    assert_eq!(report.chat_message.content, Some(String::from("World")));
    assert!(engine.chat_tokens(&vec![], &vec![], &gen_config).is_err());
}

#[test]
fn the_length_is_bounded() {
    let engine = engine();
    let gen_config =
        engine.config_for(GenerationOverrides::default().with_max_tokens(Some(1)));
    let mut callback = listener();
    let report = engine
        .generate_stream("hello", &mut fresh_context(), &gen_config, Greedy, &mut callback)
        .expect("an answer");
    assert_eq!(report.finish_reason, FinishReason::Length);
}

#[test]
fn a_stop_text_ends_the_answer() {
    let engine = engine();
    let gen_config = engine.config_for(
        GenerationOverrides::default().with_stop_tokens(Some(vec!["stop".to_string()])),
    );
    let mut callback = listener();
    let report = engine
        .generate_stream("hello", &mut fresh_context(), &gen_config, Greedy, &mut callback)
        .expect("an answer");
    assert_eq!(report.finish_reason, FinishReason::Stop);
}

#[test]
fn failures_end_a_generation() {
    let engine = engine();
    let gen_config = engine.config_for(GenerationOverrides::default());
    let mut callback = listener();
    let error = engine
        .generate_stream("other", &mut fresh_context(), &gen_config, Greedy, &mut callback)
        .expect_err("a prompt that cannot be encoded");
    assert_eq!(error.message(), "Tokenization failed: cannot encode other");
    callback.fails = true;
    let error = engine
        .generate_stream("hello", &mut fresh_context(), &gen_config, Greedy, &mut callback)
        .expect_err("a listener that is gone");
    assert!(error.message().contains("User disconnected"));
    let mut context = fresh_context();
    context.prefix_caching = true;
    context.token_ids = vec![1, 2];
    context.active_cache = vec![None];
    let mut callback = listener();
    let error = engine
        .generate_stream("hello", &mut context, &gen_config, Greedy, &mut callback)
        .expect_err("a position that the model does not know");
    assert!(error.message().contains("no further position"));
}

#[test]
fn an_engine_is_named_by_its_file() {
    assert_eq!(engine().model_name(), "test.gguf");
    assert_eq!(model_name_of("a/b/model.gguf"), "model.gguf");
    assert_eq!(model_name_of("model.gguf"), "model.gguf");
    assert!(!engine().enables_thinking(ReasoningEffort::High));
}

#[test]
fn a_report_counts_all_tokens() {
    let report = usage(51, 79, 5);
    assert_eq!(report.prompt_tokens, 51);
    assert_eq!(report.completion_tokens, 79);
    assert_eq!(report.total_tokens, 130);
    assert_eq!(
        report.completion_tokens_details.map(|details| details.reasoning_tokens),
        Some(5)
    );
}

#[test]
fn scores_are_made_flat() {
    let flat = squeeze_logits(scores(3)).expect("one row of scores");
    assert_eq!(flat.dims(), &[16]);
    assert_eq!(flat.to_vec1::<f32>().unwrap()[3], 0.99);
    let row = Tensor::new(vec![0.5f32, 0.25], &Device::Cpu).expect("a row");
    assert!(squeeze_logits(row).is_err());
}

#[test]
fn sampled_scores_with_their_tokens() {
    let score = |value: f32| Float32 {
        bits: value.to_bits(),
    };
    let result = SamplingResult {
        token: 4,
        logprob: Some(score(-0.5)),
        top_k_logprobs: Some(vec![TopKEntry {
            token_id: 9,
            logprob: score(-1.5),
        }]),
    };
    let content = decode_sampling_result(&MockTokenizer, "hé", result).expect("scores");
    assert_eq!(content.token, "hé");
    assert_eq!(content.logprob, score(-0.5));
    assert_eq!(content.bytes, "hé".as_bytes().to_vec());
    let top = content.top_logprobs.expect("the best tokens");
    assert_eq!(top.len(), 1);
    assert_eq!(top[0].token, "[9]");
    assert_eq!(top[0].logprob, score(-1.5));
    assert_eq!(top[0].bytes, b"[9]".to_vec());
    let silent = SamplingResult {
        token: 4,
        logprob: None,
        top_k_logprobs: None,
    };
    assert_eq!(decode_sampling_result(&MockTokenizer, "x", silent), None);
}

#[test]
fn progress_of_a_generation() {
    let sampled = |token: u32| SamplingResult {
        token,
        logprob: None,
        top_k_logprobs: None,
    };
    let mut progress = Progress::new(None, &MockTokenizer);
    let step = progress
        .take(
            &MockTokenizer,
            GenerationEvent::ReasoningSampled {
                sampling_result: sampled(5),
            },
            10,
        )
        .expect("a step");
    assert!(!step.stop);
    assert_eq!(progress.reasoning_text, "World");
    assert_eq!(
        step.frame.map(|frame| frame.output_type),
        Some(GenerationDataType::Reasoning)
    );
    let step = progress
        .take(
            &MockTokenizer,
            GenerationEvent::ContentSampled {
                sampling_result: sampled(5),
            },
            10,
        )
        .expect("a step");
    assert!(!step.stop);
    assert_eq!(progress.content_text, "World");
    let step = progress
        .take(&MockTokenizer, GenerationEvent::GenerationStopped, 10)
        .expect("a step");
    assert!(step.stop);
    assert_eq!(progress.finish_reason, FinishReason::Stop);
    assert_eq!(progress.steps, 3);
}

#[test]
fn layers_of_a_hybrid_model() {
    let mut config = ModelConfig::default();
    config.hidden_size = 1024;
    config.n_heads = 16;
    config.n_layers = 4;
    config.n_kv_heads = vec![0, 8, 0, 8];
    config.conv_l_cache = Some(3);
    config.max_seq_len = 4096;
    let plan = plan_lfm2(&config, 32_000);
    assert_eq!(plan.head_dim, 64);
    assert_eq!(plan.max_seq_len, 4096);
    assert_eq!(
        plan.mixers,
        vec![
            MixerKind::ShortConv { conv_l_cache: 3 },
            MixerKind::Attention { n_kv_heads: 8 },
            MixerKind::ShortConv { conv_l_cache: 3 },
            MixerKind::Attention { n_kv_heads: 8 },
        ]
    );
    assert_eq!(conv_memory(&plan.mixers), 2);
    assert_eq!(least_block(&plan.mixers), 3);
    assert_eq!(conv_memory(&vec![MixerKind::Attention { n_kv_heads: 8 }]), 0);
    assert_eq!(
        conv_memory(&vec![
            MixerKind::ShortConv { conv_l_cache: 0 },
            MixerKind::ShortConv { conv_l_cache: 5 },
            MixerKind::ShortConv { conv_l_cache: 4 },
        ]),
        4
    );
    assert_eq!(least_block(&vec![]), 1);
    let layers = init_cache(&plan.mixers);
    assert_eq!(layers.len(), 4);
    assert!(layers[0].is_none());
    assert!(matches!(layers[1], Some(MixedCache::KvCache(_))));
}

#[test]
fn layers_of_an_expert_model() {
    let mut config = ModelConfig::default();
    config.hidden_size = 512;
    config.n_heads = 8;
    config.n_layers = 2;
    config.max_seq_len = 2048;
    let missing = |config: &ModelConfig| plan_deepseek2(config, 4096).expect_err("a gap");
    assert_eq!(
        missing(&config),
        "Missing q_lora_rank, which is required for DeepSeek2 model"
    );
    config.q_lora_rank = Some(768);
    config.kv_lora_rank = Some(256);
    config.attn_key_length_mla = Some(192);
    assert_eq!(
        missing(&config),
        "Missing attn_value_length_mla, which is required for DeepSeek2 model"
    );
    config.attn_value_length_mla = Some(128);
    assert_eq!(
        missing(&config),
        "Missing n_experts, which is required for DeepSeek2 model"
    );
    config.n_leading_dense_block = Some(1);
    config.n_experts = Some(64);
    config.n_expert_used = Some(4);
    config.n_expert_group = Some(1);
    config.n_expert_group_used = Some(1);
    config.expert_weights_scale = Some(Float32 {
        bits: 1.8f32.to_bits(),
    });
    let plan = plan_deepseek2(&config, 1024).expect("a plan");
    assert_eq!(plan.rope_dim, 64);
    assert_eq!(plan.max_seq_len, 1024);
    assert_eq!(plan.n_dense, 1);
    assert_eq!(plan.attention.map(|attention| attention.qk_nope_head_dim), Some(128));
    assert_eq!(plan.experts.map(|experts| experts.norm_top_k), Some(false));
}

#[test]
fn the_norm_that_is_there() {
    assert_eq!(find_norm_prefix(true, true, true), "output_norm");
    assert_eq!(find_norm_prefix(false, true, true), "token_embd_norm");
    assert_eq!(find_norm_prefix(false, false, true), "model.norm");
    assert_eq!(find_norm_prefix(false, false, false), "output_norm");
}
