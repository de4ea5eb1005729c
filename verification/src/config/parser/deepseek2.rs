//! The parameters of models of the deepseek2 architecture.
use vstd::prelude::*;
use vstd::string::*;

use crate::config::generation_config::{lemma_tuned, tuned};
use crate::config::model_config::{config_agrees, ModelArchitecture, ModelConfig, ModelConfigView};
use crate::config::parser::utility::{
    base_parameters, read_base_parameters, BaseKeys, DEFAULT_RMS_EPSILON_BITS,
};
use crate::float::Float32;
use crate::gguf::lookup::{
    bool_of, f32_of, find_last_f32, flag_of_key, float_of_key, size_of_key, usize_of,
};
use crate::gguf::types::{GgufInfo, GgufKVMeta};
use crate::inference::types::ToolFormatStyle;

verus! {

/// What the metadata do not say of models of this architecture.
pub struct DeepSeek2ExtraParameters;

impl DeepSeek2ExtraParameters {
    pub const CACHE_SEQ_LEN_DIM: usize = 2;

    pub const SUPPORTS_TOOL_CALLING: bool = true;

    pub const SUPPORTS_REASONING: bool = true;

    pub const TOOL_CALL_START_TOKEN_ID: u32 = 151352;

    pub const TOOL_CALL_END_TOKEN_ID: u32 = 151353;

    pub const REASONING_START_TOKEN_ID: u32 = 151350;

    pub const REASONING_END_TOKEN_ID: u32 = 151351;

    pub const TOOL_CALL_FORMAT_STYLE: ToolFormatStyle = ToolFormatStyle::XmlArgPairs;

    pub const ARG_KEY_OPEN_TOKEN_ID: u32 = 151356;

    pub const ARG_KEY_CLOSE_TOKEN_ID: u32 = 151357;

    pub const ARG_VALUE_OPEN_TOKEN_ID: u32 = 151358;

    pub const ARG_VALUE_CLOSE_TOKEN_ID: u32 = 151359;
}

pub struct Deepseek2Parser;

/// Under which keys models of this architecture keep what all models have.
pub open spec fn deepseek2_keys() -> BaseKeys {
    BaseKeys {
        is_named: true,
        head_count: "deepseek2.attention.head_count",
        head_count_kv: "deepseek2.attention.head_count_kv",
        block_count: "deepseek2.block_count",
        embedding_length: "deepseek2.embedding_length",
        vocab_size: "deepseek2.vocab_size",
        feed_forward_length: "deepseek2.feed_forward_length",
        freq_base: "deepseek2.rope.freq_base",
        context_length: "deepseek2.context_length",
    }
}

/// The metadata keys of the epsilon of the normalisation.
pub open spec fn deepseek2_epsilon_keys() -> Seq<Seq<char>> {
    seq!["deepseek2.attention.layer_norm_rms_epsilon"@]
}

/// The parameters of a model of this architecture, or why they cannot be had. The last entry of
/// each key decides, but for the epsilon: there the last entry that gives a number does.
pub open spec fn deepseek2_config(info: GgufInfo) -> Result<ModelConfigView, Seq<char>> {
    let entries = info.kv_meta@;
    match base_parameters(entries, deepseek2_keys()) {
        Err(message) => Err(message),
        Ok(base) => Ok(
            ModelConfigView {
                file_path: info.headers.path@,
                architecture: ModelArchitecture::Deepseek2,
                model_name: base.model_name,
                hidden_size: base.hidden_size,
                n_heads: base.n_heads,
                n_kv_heads: base.n_kv_heads,
                n_layers: base.n_layers,
                vocab_size: base.vocab_size,
                intermediate_ffn_size: base.intermediate_ffn_size,
                rope_theta: base.rope_theta,
                max_seq_len: base.max_seq_len,
                rms_epsilon: tuned(
                    entries,
                    deepseek2_epsilon_keys(),
                    Float32 { bits: DEFAULT_RMS_EPSILON_BITS },
                ),
                cache_seq_len_dim: DeepSeek2ExtraParameters::CACHE_SEQ_LEN_DIM,
                conv_l_cache: None,
                n_expert_used: size_of_key(entries, "deepseek2.expert_used_count"@),
                n_expert_group: size_of_key(entries, "deepseek2.expert_group_count"@),
                n_expert_group_used: size_of_key(entries, "deepseek2.expert_group_used_count"@),
                expert_gating_func: size_of_key(entries, "deepseek2.expert_gating_func"@),
                n_leading_dense_block: size_of_key(entries, "deepseek2.leading_dense_block_count"@),
                q_lora_rank: size_of_key(entries, "deepseek2.attention.q_lora_rank"@),
                kv_lora_rank: size_of_key(entries, "deepseek2.attention.kv_lora_rank"@),
                attn_key_length: size_of_key(entries, "deepseek2.attention.key_length"@),
                attn_value_length: size_of_key(entries, "deepseek2.attention.value_length"@),
                attn_key_length_mla: size_of_key(entries, "deepseek2.attention.key_length_mla"@),
                attn_value_length_mla: size_of_key(entries, "deepseek2.attention.value_length_mla"@),
                expert_ffn_size: size_of_key(entries, "deepseek2.expert_feed_forward_length"@),
                n_experts: size_of_key(entries, "deepseek2.expert_count"@),
                n_expert_shared: size_of_key(entries, "deepseek2.expert_shared_count"@),
                expert_weights_scale: float_of_key(entries, "deepseek2.expert_weights_scale"@),
                expert_weights_norm: flag_of_key(entries, "deepseek2.expert_weights_norm"@),
                n_rope_dims: size_of_key(entries, "deepseek2.rope.dimension_count"@),
                supports_tool_calling: DeepSeek2ExtraParameters::SUPPORTS_TOOL_CALLING,
                supports_reasoning: DeepSeek2ExtraParameters::SUPPORTS_REASONING,
                tool_call_start_token_id: Some(DeepSeek2ExtraParameters::TOOL_CALL_START_TOKEN_ID),
                tool_call_end_token_id: Some(DeepSeek2ExtraParameters::TOOL_CALL_END_TOKEN_ID),
                flatten_tools_to_functions: false,
                reasoning_start_token_id: Some(DeepSeek2ExtraParameters::REASONING_START_TOKEN_ID),
                reasoning_end_token_id: Some(DeepSeek2ExtraParameters::REASONING_END_TOKEN_ID),
                tool_call_format_style: DeepSeek2ExtraParameters::TOOL_CALL_FORMAT_STYLE,
                arg_key_open_token_id: Some(DeepSeek2ExtraParameters::ARG_KEY_OPEN_TOKEN_ID),
                arg_key_close_token_id: Some(DeepSeek2ExtraParameters::ARG_KEY_CLOSE_TOKEN_ID),
                arg_value_open_token_id: Some(DeepSeek2ExtraParameters::ARG_VALUE_OPEN_TOKEN_ID),
                arg_value_close_token_id: Some(DeepSeek2ExtraParameters::ARG_VALUE_CLOSE_TOKEN_ID),
            },
        ),
    }
}

impl Deepseek2Parser {
    /// The parameters of the model that a file holds.
    pub fn parse(gguf_info: &GgufInfo) -> (result: Result<ModelConfig, String>)
        ensures
            config_agrees(result, deepseek2_config(*gguf_info)),
    {
        let entries: &[GgufKVMeta] = gguf_info.kv_meta.as_slice();
        let keys = BaseKeys {
            is_named: true,
            head_count: "deepseek2.attention.head_count",
            head_count_kv: "deepseek2.attention.head_count_kv",
            block_count: "deepseek2.block_count",
            embedding_length: "deepseek2.embedding_length",
            vocab_size: "deepseek2.vocab_size",
            feed_forward_length: "deepseek2.feed_forward_length",
            freq_base: "deepseek2.rope.freq_base",
            context_length: "deepseek2.context_length",
        };
        let base = match read_base_parameters(entries, &keys) {
            Ok(base) => base,
            Err(message) => {
                return Err(message);
            },
        };
        let default_epsilon = Float32 { bits: DEFAULT_RMS_EPSILON_BITS };
        let epsilon_list: [&str; 1] = ["deepseek2.attention.layer_norm_rms_epsilon"];
        proof {
            lemma_tuned(entries@, epsilon_list@, deepseek2_epsilon_keys(), default_epsilon);
        }
        let rms_epsilon = match find_last_f32(entries, epsilon_list.as_slice()) {
            Some(value) => value,
            None => default_epsilon,
        };
        Ok(
            ModelConfig {
                file_path: String::from_str(gguf_info.headers.path.as_str()),
                architecture: ModelArchitecture::Deepseek2,
                model_name: base.model_name,
                hidden_size: base.hidden_size,
                n_heads: base.n_heads,
                n_kv_heads: base.n_kv_heads,
                n_layers: base.n_layers,
                vocab_size: base.vocab_size,
                intermediate_ffn_size: base.intermediate_ffn_size,
                rope_theta: base.rope_theta,
                max_seq_len: base.max_seq_len,
                rms_epsilon,
                cache_seq_len_dim: DeepSeek2ExtraParameters::CACHE_SEQ_LEN_DIM,
                conv_l_cache: None,
                n_expert_used: usize_of(entries, "deepseek2.expert_used_count"),
                n_expert_group: usize_of(entries, "deepseek2.expert_group_count"),
                n_expert_group_used: usize_of(entries, "deepseek2.expert_group_used_count"),
                expert_gating_func: usize_of(entries, "deepseek2.expert_gating_func"),
                n_leading_dense_block: usize_of(entries, "deepseek2.leading_dense_block_count"),
                q_lora_rank: usize_of(entries, "deepseek2.attention.q_lora_rank"),
                kv_lora_rank: usize_of(entries, "deepseek2.attention.kv_lora_rank"),
                attn_key_length: usize_of(entries, "deepseek2.attention.key_length"),
                attn_value_length: usize_of(entries, "deepseek2.attention.value_length"),
                attn_key_length_mla: usize_of(entries, "deepseek2.attention.key_length_mla"),
                attn_value_length_mla: usize_of(entries, "deepseek2.attention.value_length_mla"),
                expert_ffn_size: usize_of(entries, "deepseek2.expert_feed_forward_length"),
                n_experts: usize_of(entries, "deepseek2.expert_count"),
                n_expert_shared: usize_of(entries, "deepseek2.expert_shared_count"),
                expert_weights_scale: f32_of(entries, "deepseek2.expert_weights_scale"),
                expert_weights_norm: bool_of(entries, "deepseek2.expert_weights_norm"),
                n_rope_dims: usize_of(entries, "deepseek2.rope.dimension_count"),
                supports_tool_calling: DeepSeek2ExtraParameters::SUPPORTS_TOOL_CALLING,
                supports_reasoning: DeepSeek2ExtraParameters::SUPPORTS_REASONING,
                tool_call_start_token_id: Some(DeepSeek2ExtraParameters::TOOL_CALL_START_TOKEN_ID),
                tool_call_end_token_id: Some(DeepSeek2ExtraParameters::TOOL_CALL_END_TOKEN_ID),
                flatten_tools_to_functions: false,
                reasoning_start_token_id: Some(DeepSeek2ExtraParameters::REASONING_START_TOKEN_ID),
                reasoning_end_token_id: Some(DeepSeek2ExtraParameters::REASONING_END_TOKEN_ID),
                tool_call_format_style: DeepSeek2ExtraParameters::TOOL_CALL_FORMAT_STYLE,
                arg_key_open_token_id: Some(DeepSeek2ExtraParameters::ARG_KEY_OPEN_TOKEN_ID),
                arg_key_close_token_id: Some(DeepSeek2ExtraParameters::ARG_KEY_CLOSE_TOKEN_ID),
                arg_value_open_token_id: Some(DeepSeek2ExtraParameters::ARG_VALUE_OPEN_TOKEN_ID),
                arg_value_close_token_id: Some(DeepSeek2ExtraParameters::ARG_VALUE_CLOSE_TOKEN_ID),
            },
        )
    }
}

} // verus!
