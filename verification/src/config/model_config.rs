//! The parameters of a model.
use vstd::prelude::*;
use vstd::string::*;

use crate::config::parser::deepseek2::{deepseek2_config, Deepseek2Parser};
use crate::config::parser::lfm2::{lfm2_config, Lfm2Parser};
use crate::float::Float32;
use crate::gguf::lookup::{find_first, first_with_key};
use crate::gguf::types::GgufInfo;
use crate::inference::types::ToolFormatStyle;
use crate::text::same_text;

verus! {

/// The kinds of models that can be run.
#[derive(Debug, Clone, Copy, PartialEq, Eq, Structural)]
pub enum ModelArchitecture {
    Lfm2,
    Deepseek2,
}

/// A text in lower case, as `str::to_lowercase` writes it.
pub uninterp spec fn lower_case(text: Seq<char>) -> Seq<char>;

/// Wraps `str::to_lowercase`, which maps a text to its lower case by the tables of the Unicode
/// standard alone. Which text that is, is left unsaid.
#[verifier::external_body]
fn lowered(text: &str) -> (result: String)
    ensures
        result@ == lower_case(text@),
{
    text.to_lowercase()
}

/// The architecture that a name in lower case stands for.
pub open spec fn architecture_of(lower: Seq<char>) -> Option<ModelArchitecture> {
    if lower == "lfm2"@ {
        Some(ModelArchitecture::Lfm2)
    } else if lower == "deepseek2"@ {
        Some(ModelArchitecture::Deepseek2)
    } else {
        None
    }
}

/// What is said of an architecture that cannot be run.
pub open spec fn unsupported(name: Seq<char>) -> Seq<char> {
    "Unsupported model architecture: "@ + name
}

impl ModelArchitecture {
    /// The architecture that a name in lower case stands for.
    pub fn from_lower_case(lower: &str) -> (result: Option<Self>)
        ensures
            result == architecture_of(lower@),
    {
        if same_text(lower, "lfm2") {
            Some(ModelArchitecture::Lfm2)
        } else if same_text(lower, "deepseek2") {
            Some(ModelArchitecture::Deepseek2)
        } else {
            None
        }
    }

    /// The architecture that a name stands for, in whatever case it is written.
    pub fn from_str(s: &str) -> (result: Result<Self, String>)
        ensures
            match result {
                Ok(architecture) => architecture_of(lower_case(s@)) == Some(architecture),
                Err(message) => {
                    &&& architecture_of(lower_case(s@)) is None
                    &&& message@ == unsupported(s@)
                },
            },
    {
        match ModelArchitecture::from_lower_case(lowered(s).as_str()) {
            Some(architecture) => Ok(architecture),
            None => {
                let mut message = String::from_str("Unsupported model architecture: ");
                message.append(s);
                Err(message)
            },
        }
    }

    pub open spec fn text(self) -> Seq<char> {
        match self {
            ModelArchitecture::Lfm2 => "Lfm2"@,
            ModelArchitecture::Deepseek2 => "Deepseek2"@,
        }
    }

    pub fn name(&self) -> (result: &'static str)
        ensures
            result@ == self.text(),
    {
        match self {
            ModelArchitecture::Lfm2 => "Lfm2",
            ModelArchitecture::Deepseek2 => "Deepseek2",
        }
    }
}

#[derive(Debug, Clone, PartialEq)]
pub struct ModelConfig {
    pub file_path: String,
    pub architecture: ModelArchitecture,
    pub model_name: String,
    pub hidden_size: usize,
    pub n_heads: usize,
    pub n_kv_heads: Vec<usize>,
    pub n_layers: usize,
    pub vocab_size: usize,
    pub intermediate_ffn_size: usize,
    pub rope_theta: Float32,
    pub max_seq_len: usize,
    pub rms_epsilon: Float32,
    pub cache_seq_len_dim: usize,
    pub conv_l_cache: Option<usize>,
    pub n_expert_used: Option<usize>,
    pub n_expert_group: Option<usize>,
    pub n_expert_group_used: Option<usize>,
    pub expert_gating_func: Option<usize>,
    pub n_leading_dense_block: Option<usize>,
    pub q_lora_rank: Option<usize>,
    pub kv_lora_rank: Option<usize>,
    pub attn_key_length: Option<usize>,
    pub attn_value_length: Option<usize>,
    pub attn_key_length_mla: Option<usize>,
    pub attn_value_length_mla: Option<usize>,
    pub expert_ffn_size: Option<usize>,
    pub n_experts: Option<usize>,
    pub n_expert_shared: Option<usize>,
    pub expert_weights_scale: Option<Float32>,
    pub expert_weights_norm: Option<bool>,
    pub n_rope_dims: Option<usize>,
    pub supports_tool_calling: bool,
    pub supports_reasoning: bool,
    pub tool_call_start_token_id: Option<u32>,
    pub tool_call_end_token_id: Option<u32>,
    pub flatten_tools_to_functions: bool,
    pub reasoning_start_token_id: Option<u32>,
    pub reasoning_end_token_id: Option<u32>,
    pub tool_call_format_style: ToolFormatStyle,
    pub arg_key_open_token_id: Option<u32>,
    pub arg_key_close_token_id: Option<u32>,
    pub arg_value_open_token_id: Option<u32>,
    pub arg_value_close_token_id: Option<u32>,
}

/// The mathematical model of a model configuration.
pub struct ModelConfigView {
    pub file_path: Seq<char>,
    pub architecture: ModelArchitecture,
    pub model_name: Seq<char>,
    pub hidden_size: usize,
    pub n_heads: usize,
    pub n_kv_heads: Seq<usize>,
    pub n_layers: usize,
    pub vocab_size: usize,
    pub intermediate_ffn_size: usize,
    pub rope_theta: Float32,
    pub max_seq_len: usize,
    pub rms_epsilon: Float32,
    pub cache_seq_len_dim: usize,
    pub conv_l_cache: Option<usize>,
    pub n_expert_used: Option<usize>,
    pub n_expert_group: Option<usize>,
    pub n_expert_group_used: Option<usize>,
    pub expert_gating_func: Option<usize>,
    pub n_leading_dense_block: Option<usize>,
    pub q_lora_rank: Option<usize>,
    pub kv_lora_rank: Option<usize>,
    pub attn_key_length: Option<usize>,
    pub attn_value_length: Option<usize>,
    pub attn_key_length_mla: Option<usize>,
    pub attn_value_length_mla: Option<usize>,
    pub expert_ffn_size: Option<usize>,
    pub n_experts: Option<usize>,
    pub n_expert_shared: Option<usize>,
    pub expert_weights_scale: Option<Float32>,
    pub expert_weights_norm: Option<bool>,
    pub n_rope_dims: Option<usize>,
    pub supports_tool_calling: bool,
    pub supports_reasoning: bool,
    pub tool_call_start_token_id: Option<u32>,
    pub tool_call_end_token_id: Option<u32>,
    pub flatten_tools_to_functions: bool,
    pub reasoning_start_token_id: Option<u32>,
    pub reasoning_end_token_id: Option<u32>,
    pub tool_call_format_style: ToolFormatStyle,
    pub arg_key_open_token_id: Option<u32>,
    pub arg_key_close_token_id: Option<u32>,
    pub arg_value_open_token_id: Option<u32>,
    pub arg_value_close_token_id: Option<u32>,
}

impl View for ModelConfig {
    type V = ModelConfigView;

    open spec fn view(&self) -> ModelConfigView {
        ModelConfigView {
            file_path: self.file_path@,
            architecture: self.architecture,
            model_name: self.model_name@,
            hidden_size: self.hidden_size,
            n_heads: self.n_heads,
            n_kv_heads: self.n_kv_heads@,
            n_layers: self.n_layers,
            vocab_size: self.vocab_size,
            intermediate_ffn_size: self.intermediate_ffn_size,
            rope_theta: self.rope_theta,
            max_seq_len: self.max_seq_len,
            rms_epsilon: self.rms_epsilon,
            cache_seq_len_dim: self.cache_seq_len_dim,
            conv_l_cache: self.conv_l_cache,
            n_expert_used: self.n_expert_used,
            n_expert_group: self.n_expert_group,
            n_expert_group_used: self.n_expert_group_used,
            expert_gating_func: self.expert_gating_func,
            n_leading_dense_block: self.n_leading_dense_block,
            q_lora_rank: self.q_lora_rank,
            kv_lora_rank: self.kv_lora_rank,
            attn_key_length: self.attn_key_length,
            attn_value_length: self.attn_value_length,
            attn_key_length_mla: self.attn_key_length_mla,
            attn_value_length_mla: self.attn_value_length_mla,
            expert_ffn_size: self.expert_ffn_size,
            n_experts: self.n_experts,
            n_expert_shared: self.n_expert_shared,
            expert_weights_scale: self.expert_weights_scale,
            expert_weights_norm: self.expert_weights_norm,
            n_rope_dims: self.n_rope_dims,
            supports_tool_calling: self.supports_tool_calling,
            supports_reasoning: self.supports_reasoning,
            tool_call_start_token_id: self.tool_call_start_token_id,
            tool_call_end_token_id: self.tool_call_end_token_id,
            flatten_tools_to_functions: self.flatten_tools_to_functions,
            reasoning_start_token_id: self.reasoning_start_token_id,
            reasoning_end_token_id: self.reasoning_end_token_id,
            tool_call_format_style: self.tool_call_format_style,
            arg_key_open_token_id: self.arg_key_open_token_id,
            arg_key_close_token_id: self.arg_key_close_token_id,
            arg_value_open_token_id: self.arg_value_open_token_id,
            arg_value_close_token_id: self.arg_value_close_token_id,
        }
    }
}

/// The configuration of no model.
pub open spec fn blank_model_config() -> ModelConfigView {
    ModelConfigView {
        file_path: Seq::empty(),
        architecture: ModelArchitecture::Lfm2,
        model_name: Seq::empty(),
        hidden_size: 0,
        n_heads: 0,
        n_kv_heads: Seq::empty(),
        n_layers: 0,
        vocab_size: 0,
        intermediate_ffn_size: 0,
        rope_theta: Float32 { bits: 0 },
        max_seq_len: 0,
        rms_epsilon: Float32 { bits: 0 },
        cache_seq_len_dim: 0,
        conv_l_cache: None,
        n_expert_used: None,
        n_expert_group: None,
        n_expert_group_used: None,
        expert_gating_func: None,
        n_leading_dense_block: None,
        q_lora_rank: None,
        kv_lora_rank: None,
        attn_key_length: None,
        attn_value_length: None,
        attn_key_length_mla: None,
        attn_value_length_mla: None,
        expert_ffn_size: None,
        n_experts: None,
        n_expert_shared: None,
        expert_weights_scale: None,
        expert_weights_norm: None,
        n_rope_dims: None,
        supports_tool_calling: false,
        supports_reasoning: false,
        tool_call_start_token_id: None,
        tool_call_end_token_id: None,
        flatten_tools_to_functions: false,
        reasoning_start_token_id: None,
        reasoning_end_token_id: None,
        tool_call_format_style: ToolFormatStyle::EnclosedJson,
        arg_key_open_token_id: None,
        arg_key_close_token_id: None,
        arg_value_open_token_id: None,
        arg_value_close_token_id: None,
    }
}

impl Default for ModelConfig {
    fn default() -> (result: Self)
        ensures
            result@ == blank_model_config(),
    {
        ModelConfig {
            file_path: String::new(),
            architecture: ModelArchitecture::Lfm2,
            model_name: String::new(),
            hidden_size: 0,
            n_heads: 0,
            n_kv_heads: Vec::new(),
            n_layers: 0,
            vocab_size: 0,
            intermediate_ffn_size: 0,
            rope_theta: Float32 { bits: 0 },
            max_seq_len: 0,
            rms_epsilon: Float32 { bits: 0 },
            cache_seq_len_dim: 0,
            conv_l_cache: None,
            n_expert_used: None,
            n_expert_group: None,
            n_expert_group_used: None,
            expert_gating_func: None,
            n_leading_dense_block: None,
            q_lora_rank: None,
            kv_lora_rank: None,
            attn_key_length: None,
            attn_value_length: None,
            attn_key_length_mla: None,
            attn_value_length_mla: None,
            expert_ffn_size: None,
            n_experts: None,
            n_expert_shared: None,
            expert_weights_scale: None,
            expert_weights_norm: None,
            n_rope_dims: None,
            supports_tool_calling: false,
            supports_reasoning: false,
            tool_call_start_token_id: None,
            tool_call_end_token_id: None,
            flatten_tools_to_functions: false,
            reasoning_start_token_id: None,
            reasoning_end_token_id: None,
            tool_call_format_style: ToolFormatStyle::EnclosedJson,
            arg_key_open_token_id: None,
            arg_key_close_token_id: None,
            arg_value_open_token_id: None,
            arg_value_close_token_id: None,
        }
    }
}

/// The name of the architecture in the first entry that should hold one.
pub open spec fn named_architecture(info: GgufInfo) -> Option<Seq<char>> {
    match first_with_key(info.kv_meta@, "general.architecture"@) {
        Some(entry) => entry.value.str_value(),
        None => None,
    }
}

/// The parameters of a model of an architecture, or why they cannot be had.
pub open spec fn config_for(architecture: ModelArchitecture, info: GgufInfo) -> Result<
    ModelConfigView,
    Seq<char>,
> {
    match architecture {
        ModelArchitecture::Lfm2 => lfm2_config(info),
        ModelArchitecture::Deepseek2 => deepseek2_config(info),
    }
}

/// The parameters of a model whose architecture has this name in lower case, or why they cannot
/// be had.
pub open spec fn config_of_name(name: Seq<char>, lower: Seq<char>, info: GgufInfo) -> Result<
    ModelConfigView,
    Seq<char>,
> {
    match architecture_of(lower) {
        Some(architecture) => config_for(architecture, info),
        None => Err(unsupported(name)),
    }
}

/// A configuration or a message as they are expected.
pub open spec fn config_agrees(
    result: Result<ModelConfig, String>,
    expected: Result<ModelConfigView, Seq<char>>,
) -> bool {
    match (result, expected) {
        (Ok(config), Ok(view)) => config@ == view,
        (Err(message), Err(text)) => message@ == text,
        _ => false,
    }
}

impl ModelConfig {
    /// The parameters of a model of an architecture.
    pub fn for_architecture(architecture: ModelArchitecture, gguf_info: &GgufInfo) -> (result: Result<
        Self,
        String,
    >)
        ensures
            config_agrees(result, config_for(architecture, *gguf_info)),
    {
        match architecture {
            ModelArchitecture::Lfm2 => Lfm2Parser::parse(gguf_info),
            ModelArchitecture::Deepseek2 => Deepseek2Parser::parse(gguf_info),
        }
    }

    /// The parameters of the model that a file holds. The metadata name its architecture.
    pub fn from_gguf_info(gguf_info: &GgufInfo) -> (result: Result<Self, String>)
        ensures
            config_agrees(
                result,
                match named_architecture(*gguf_info) {
                    Some(name) => config_of_name(name, lower_case(name), *gguf_info),
                    None => Err("Missing general.architecture"@),
                },
            ),
    {
        match find_first(gguf_info.kv_meta.as_slice(), "general.architecture") {
            Some(entry) => match entry.value.as_str() {
                Some(name) => match ModelArchitecture::from_str(name) {
                    Ok(architecture) => ModelConfig::for_architecture(architecture, gguf_info),
                    Err(message) => Err(message),
                },
                None => Err(String::from_str("Missing general.architecture")),
            },
            None => Err(String::from_str("Missing general.architecture")),
        }
    }
}

} // verus!
