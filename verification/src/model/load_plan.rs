//! What has to be loaded for a model, and how its layers are made up.
use vstd::prelude::*;
use vstd::string::*;

use crate::config::model_config::ModelConfig;
use crate::float::Float32;
use crate::model::{layer_view, layer_views, LayerView, MixedCache};
use crate::tensor::{new_kv_cache, KvView};

verus! {

/// The tensor of the last normalisation: the first of the usual names that the file holds, or the
/// first of them all.
pub open spec fn norm_prefix(output_norm: bool, token_embd_norm: bool, model_norm: bool) -> Seq<
    char,
> {
    if output_norm {
        "output_norm"@
    } else if token_embd_norm {
        "token_embd_norm"@
    } else if model_norm {
        "model.norm"@
    } else {
        "output_norm"@
    }
}

/// Picks the tensor of the last normalisation, given which of the usual ones the file holds.
pub fn find_norm_prefix(output_norm: bool, token_embd_norm: bool, model_norm: bool) -> (result:
    &'static str)
    ensures
        result@ == norm_prefix(output_norm, token_embd_norm, model_norm),
{
    if output_norm {
        "output_norm"
    } else if token_embd_norm {
        "token_embd_norm"
    } else if model_norm {
        "model.norm"
    } else {
        "output_norm"
    }
}

/// The lower of two limits.
pub open spec fn lower(a: usize, b: usize) -> usize {
    if a < b {
        a
    } else {
        b
    }
}

/// How a layer mixes the tokens.
#[derive(Debug, Clone, Copy, PartialEq, Eq, Structural)]
pub enum MixerKind {
    Attention { n_kv_heads: usize },
    ShortConv { conv_l_cache: usize },
}

/// How a layer of an lfm2 model mixes the tokens: by attention if it has key and value heads,
/// else by a short convolution.
pub open spec fn mixer_kind(n_kv_heads: usize, conv_l_cache: Option<usize>) -> MixerKind {
    if n_kv_heads > 0 {
        MixerKind::Attention { n_kv_heads }
    } else {
        MixerKind::ShortConv {
            conv_l_cache: match conv_l_cache {
                Some(n) => n,
                None => 3,
            },
        }
    }
}

/// How many inputs before the current one a layer looks back on.
pub open spec fn look_back(mixer: MixerKind) -> usize {
    match mixer {
        MixerKind::ShortConv { conv_l_cache } => if conv_l_cache > 0 {
            (conv_l_cache - 1) as usize
        } else {
            0
        },
        MixerKind::Attention { .. } => 0,
    }
}

/// How many inputs the longest convolution looks back on; none if there is no convolution.
pub fn conv_memory(mixers: &Vec<MixerKind>) -> (result: usize)
    ensures
        result < usize::MAX,
        forall|i: int| 0 <= i < mixers@.len() ==> look_back(#[trigger] mixers@[i]) <= result,
        result == 0 || exists|i: int|
            0 <= i < mixers@.len() && look_back(#[trigger] mixers@[i]) == result,
{
    let mut most: usize = 0;
    let mut i: usize = 0;
    while i < mixers.len()
        invariant
            i <= mixers@.len(),
            most < usize::MAX,
            forall|j: int| 0 <= j < i ==> look_back(#[trigger] mixers@[j]) <= most,
            most == 0 || exists|j: int| 0 <= j < i && look_back(#[trigger] mixers@[j]) == most,
        decreases mixers.len() - i,
    {
        let own: usize = match mixers[i] {
            MixerKind::ShortConv { conv_l_cache } => conv_l_cache.saturating_sub(1),
            MixerKind::Attention { .. } => 0,
        };
        assert(own == look_back(mixers@[i as int]));
        if own > most {
            most = own;
        }
        i = i + 1;
    }
    most
}

/// The least blocks that the memory of such layers can be cut into: a convolution cannot go back
/// further than its memory reaches.
pub fn least_block(mixers: &Vec<MixerKind>) -> (result: usize)
    ensures
        forall|i: int| 0 <= i < mixers@.len() ==> look_back(#[trigger] mixers@[i]) < result,
        result == 1 || exists|i: int|
            0 <= i < mixers@.len() && look_back(#[trigger] mixers@[i]) + 1 == result,
{
    conv_memory(mixers) + 1
}

/// What is made of the configuration of an lfm2 model.
#[derive(Debug, Clone, PartialEq)]
pub struct Lfm2Plan {
    pub head_dim: usize,
    pub max_seq_len: usize,
    pub mixers: Vec<MixerKind>,
    /// How many tokens the model has to read at least.
    pub min_prefill_tokens: usize,
}

/// Makes a plan for an lfm2 model.
pub fn plan_lfm2(config: &ModelConfig, requested_max_seq_len: usize) -> (result: Lfm2Plan)
    requires
        config.n_heads > 0,
        config.n_kv_heads@.len() >= config.n_layers,
    ensures
        result.head_dim == config.hidden_size / config.n_heads,
        result.max_seq_len == lower(config.max_seq_len, requested_max_seq_len),
        result.mixers@ == Seq::new(
            config.n_layers as nat,
            |i: int| mixer_kind(config.n_kv_heads@[i], config.conv_l_cache),
        ),
        result.min_prefill_tokens == (match config.conv_l_cache {
            Some(n) => if n > 0 {
                (n - 1) as usize
            } else {
                0
            },
            None => 1,
        }),
{
    let mut mixers: Vec<MixerKind> = Vec::new();
    let mut i: usize = 0;
    while i < config.n_layers
        invariant
            i <= config.n_layers,
            config.n_kv_heads@.len() >= config.n_layers,
            mixers@.len() == i,
            forall|j: int|
                0 <= j < i ==> #[trigger] mixers@[j] == mixer_kind(
                    config.n_kv_heads@[j],
                    config.conv_l_cache,
                ),
        decreases config.n_layers - i,
    {
        let n_kv_heads: usize = config.n_kv_heads[i];
        let kind = if n_kv_heads > 0 {
            MixerKind::Attention { n_kv_heads }
        } else {
            MixerKind::ShortConv {
                conv_l_cache: match config.conv_l_cache {
                    Some(n) => n,
                    None => 3,
                },
            }
        };
        mixers.push(kind);
        i = i + 1;
    }
    assert(mixers@ =~= Seq::new(
        config.n_layers as nat,
        |i: int| mixer_kind(config.n_kv_heads@[i], config.conv_l_cache),
    ));
    Lfm2Plan {
        head_dim: config.hidden_size / config.n_heads,
        max_seq_len: if config.max_seq_len < requested_max_seq_len {
            config.max_seq_len
        } else {
            requested_max_seq_len
        },
        mixers,
        min_prefill_tokens: match config.conv_l_cache {
            Some(n) => n.saturating_sub(1),
            None => 1,
        },
    }
}

/// The memory of a layer that has read nothing: attention begins with an empty cache, a
/// convolution with none.
pub open spec fn fresh_layer(kind: MixerKind) -> LayerView {
    match kind {
        MixerKind::Attention { .. } => LayerView::Kv(
            KvView { keys: None, values: None, dim: 2 },
        ),
        MixerKind::ShortConv { .. } => LayerView::Empty,
    }
}

/// The memory of a model with these layers that has read nothing.
pub fn init_cache(mixers: &Vec<MixerKind>) -> (result: Vec<Option<MixedCache>>)
    ensures
        layer_views(result@) == mixers@.map_values(|kind: MixerKind| fresh_layer(kind)),
{
    let mut caches: Vec<Option<MixedCache>> = Vec::new();
    let mut i: usize = 0;
    while i < mixers.len()
        invariant
            i <= mixers@.len(),
            caches@.len() == i,
            forall|j: int|
                0 <= j < i ==> layer_view(#[trigger] caches@[j]) == fresh_layer(mixers@[j]),
        decreases mixers.len() - i,
    {
        let cache = match mixers[i] {
            MixerKind::Attention { .. } => Some(MixedCache::KvCache(new_kv_cache(2))),
            MixerKind::ShortConv { .. } => None,
        };
        caches.push(cache);
        i = i + 1;
    }
    assert(layer_views(caches@) =~= mixers@.map_values(|kind: MixerKind| fresh_layer(kind)));
    caches
}

/// What the attention of a deepseek2 model is made of.
#[derive(Debug, Clone, Copy, PartialEq, Eq, Structural)]
pub struct LatentAttention {
    pub q_lora_rank: usize,
    pub kv_lora_rank: usize,
    pub qk_head_dim: usize,
    pub qk_nope_head_dim: usize,
    pub v_head_dim: usize,
}

/// What the experts of a deepseek2 model are made of.
#[derive(Debug, Clone, Copy, PartialEq, Eq, Structural)]
pub struct Experts {
    pub n_experts: usize,
    pub n_expert_used: usize,
    pub n_group: usize,
    pub topk_group: usize,
    pub norm_top_k: bool,
    pub routed_scaling_factor: Float32,
}

/// What is made of the configuration of a deepseek2 model. The first layers are dense.
#[derive(Debug, Clone, PartialEq)]
pub struct Deepseek2Plan {
    pub rope_dim: usize,
    pub max_seq_len: usize,
    pub n_dense: usize,
    /// None if there are no layers.
    pub attention: Option<LatentAttention>,
    /// None if all layers are dense.
    pub experts: Option<Experts>,
}

/// What is said of a parameter that is missing.
pub open spec fn missing(name: Seq<char>) -> Seq<char> {
    "Missing "@ + name + ", which is required for DeepSeek2 model"@
}

fn missing_text(name: &str) -> (result: String)
    ensures
        result@ == missing(name@),
{
    let mut text = String::from_str("Missing ");
    text.append(name);
    text.append(", which is required for DeepSeek2 model");
    text
}

/// The size of the rotated part of a head.
pub open spec fn rope_dim_of(config: ModelConfig) -> usize {
    match config.n_rope_dims {
        Some(n) => n,
        None => config.hidden_size / config.n_heads,
    }
}

/// The attention of a deepseek2 model, or what is missing for it.
pub open spec fn attention_of(config: ModelConfig) -> Result<LatentAttention, Seq<char>> {
    match (
        config.q_lora_rank,
        config.kv_lora_rank,
        config.attn_key_length_mla,
        config.attn_value_length_mla,
    ) {
        (None, _, _, _) => Err(missing("q_lora_rank"@)),
        (_, None, _, _) => Err(missing("kv_lora_rank"@)),
        (_, _, None, _) => Err(missing("attn_key_length_mla"@)),
        (_, _, _, None) => Err(missing("attn_value_length_mla"@)),
        (Some(q_lora_rank), Some(kv_lora_rank), Some(key_length), Some(value_length)) => Ok(
            LatentAttention {
                q_lora_rank,
                kv_lora_rank,
                qk_head_dim: key_length,
                qk_nope_head_dim: (key_length - rope_dim_of(config)) as usize,
                v_head_dim: value_length,
            },
        ),
    }
}

/// The experts of a deepseek2 model, or what is missing for them.
pub open spec fn experts_of(config: ModelConfig) -> Result<Experts, Seq<char>> {
    match (
        config.n_experts,
        config.n_expert_used,
        config.n_expert_group,
        config.n_expert_group_used,
        config.expert_weights_scale,
    ) {
        (None, _, _, _, _) => Err(missing("n_experts"@)),
        (_, None, _, _, _) => Err(missing("n_expert_used"@)),
        (_, _, None, _, _) => Err(missing("n_expert_group"@)),
        (_, _, _, None, _) => Err(missing("n_expert_group_used"@)),
        (_, _, _, _, None) => Err(missing("expert_weights_scale"@)),
        (
            Some(n_experts),
            Some(n_expert_used),
            Some(n_group),
            Some(topk_group),
            Some(routed_scaling_factor),
        ) => Ok(
            Experts {
                n_experts,
                n_expert_used,
                n_group,
                topk_group,
                norm_top_k: config.expert_weights_norm == Some(true),
                routed_scaling_factor,
            },
        ),
    }
}

/// The number of leading dense layers.
pub open spec fn dense_layers(config: ModelConfig) -> usize {
    match config.n_leading_dense_block {
        Some(n) => n,
        None => 0,
    }
}

fn plan_attention(config: &ModelConfig, rope_dim: usize) -> (result: Result<
    LatentAttention,
    String,
>)
    requires
        rope_dim == rope_dim_of(*config),
        config.attn_key_length_mla matches Some(n) ==> n >= rope_dim,
    ensures
        match (result, attention_of(*config)) {
            (Ok(attention), Ok(expected)) => attention == expected,
            (Err(message), Err(text)) => message@ == text,
            _ => false,
        },
{
    let q_lora_rank: usize = match config.q_lora_rank {
        Some(n) => n,
        None => {
            return Err(missing_text("q_lora_rank"));
        },
    };
    let kv_lora_rank: usize = match config.kv_lora_rank {
        Some(n) => n,
        None => {
            return Err(missing_text("kv_lora_rank"));
        },
    };
    let qk_head_dim: usize = match config.attn_key_length_mla {
        Some(n) => n,
        None => {
            return Err(missing_text("attn_key_length_mla"));
        },
    };
    let v_head_dim: usize = match config.attn_value_length_mla {
        Some(n) => n,
        None => {
            return Err(missing_text("attn_value_length_mla"));
        },
    };
    Ok(
        LatentAttention {
            q_lora_rank,
            kv_lora_rank,
            qk_head_dim,
            qk_nope_head_dim: qk_head_dim - rope_dim,
            v_head_dim,
        },
    )
}

fn plan_experts(config: &ModelConfig) -> (result: Result<Experts, String>)
    ensures
        match (result, experts_of(*config)) {
            (Ok(experts), Ok(expected)) => experts == expected,
            (Err(message), Err(text)) => message@ == text,
            _ => false,
        },
{
    let n_experts: usize = match config.n_experts {
        Some(n) => n,
        None => {
            return Err(missing_text("n_experts"));
        },
    };
    let n_expert_used: usize = match config.n_expert_used {
        Some(n) => n,
        None => {
            return Err(missing_text("n_expert_used"));
        },
    };
    let n_group: usize = match config.n_expert_group {
        Some(n) => n,
        None => {
            return Err(missing_text("n_expert_group"));
        },
    };
    let topk_group: usize = match config.n_expert_group_used {
        Some(n) => n,
        None => {
            return Err(missing_text("n_expert_group_used"));
        },
    };
    let routed_scaling_factor = match config.expert_weights_scale {
        Some(scale) => scale,
        None => {
            return Err(missing_text("expert_weights_scale"));
        },
    };
    let norm_top_k = match config.expert_weights_norm {
        Some(flag) => flag,
        None => false,
    };
    Ok(
        Experts {
            n_experts,
            n_expert_used,
            n_group,
            topk_group,
            norm_top_k,
            routed_scaling_factor,
        },
    )
}

/// Makes a plan for a deepseek2 model. What the attention lacks comes before what the experts
/// lack, and neither matters where there are no such layers.
pub fn plan_deepseek2(config: &ModelConfig, requested_max_seq_len: usize) -> (result: Result<
    Deepseek2Plan,
    String,
>)
    requires
        config.n_rope_dims is None ==> config.n_heads > 0,
        config.attn_key_length_mla matches Some(n) ==> n >= rope_dim_of(*config),
    ensures
        match result {
            Ok(plan) => {
                &&& plan.rope_dim == rope_dim_of(*config)
                &&& plan.max_seq_len == lower(config.max_seq_len, requested_max_seq_len)
                &&& plan.n_dense == dense_layers(*config)
                &&& match plan.attention {
                    Some(attention) => config.n_layers > 0 && attention_of(*config) == Ok::<
                        LatentAttention,
                        Seq<char>,
                    >(attention),
                    None => config.n_layers == 0,
                }
                &&& match plan.experts {
                    Some(experts) => config.n_layers > dense_layers(*config) && experts_of(*config)
                        == Ok::<Experts, Seq<char>>(experts),
                    None => config.n_layers <= dense_layers(*config),
                }
            },
            Err(message) => {
                ||| config.n_layers > 0 && attention_of(*config) == Err::<
                    LatentAttention,
                    Seq<char>,
                >(message@)
                ||| config.n_layers > dense_layers(*config) && attention_of(*config) is Ok
                    && experts_of(*config) == Err::<Experts, Seq<char>>(message@)
            },
        },
{
    let rope_dim: usize = match config.n_rope_dims {
        Some(n) => n,
        None => config.hidden_size / config.n_heads,
    };
    let n_dense: usize = match config.n_leading_dense_block {
        Some(n) => n,
        None => 0,
    };
    let attention = if config.n_layers > 0 {
        match plan_attention(config, rope_dim) {
            Ok(attention) => Some(attention),
            Err(message) => {
                return Err(message);
            },
        }
    } else {
        None
    };
    let experts = if config.n_layers > n_dense {
        match plan_experts(config) {
            Ok(experts) => Some(experts),
            Err(message) => {
                return Err(message);
            },
        }
    } else {
        None
    };
    Ok(
        Deepseek2Plan {
            rope_dim,
            max_seq_len: if config.max_seq_len < requested_max_seq_len {
                config.max_seq_len
            } else {
                requested_max_seq_len
            },
            n_dense,
            attention,
            experts,
        },
    )
}

/// The last normalisation is read from a tensor that the file holds, if it holds one of the usual
/// ones, and the ones before it in the usual order are not there.
pub proof fn law_norm_is_in_the_file(output_norm: bool, token_embd_norm: bool, model_norm: bool)
    ensures
        ({
            let name = norm_prefix(output_norm, token_embd_norm, model_norm);
            &&& output_norm ==> name == "output_norm"@
            &&& !output_norm && token_embd_norm ==> name == "token_embd_norm"@
            &&& !output_norm && !token_embd_norm && model_norm ==> name == "model.norm"@
            &&& !output_norm && !token_embd_norm && !model_norm ==> name == "output_norm"@
        }),
{
}

/// A layer with key and value heads attends to the tokens with as many; one without is a
/// convolution, over as many tokens as the model says, or three. It looks back on all of them but
/// the current one, begins with no memory, and attention with an empty one.
pub proof fn law_layers_of_a_plan(n_kv_heads: usize, conv_l_cache: Option<usize>)
    ensures
        n_kv_heads > 0 ==> {
            &&& mixer_kind(n_kv_heads, conv_l_cache) == (MixerKind::Attention { n_kv_heads })
            &&& look_back(mixer_kind(n_kv_heads, conv_l_cache)) == 0
            &&& fresh_layer(mixer_kind(n_kv_heads, conv_l_cache)) matches LayerView::Kv(kv)
                && kv.keys is None && kv.values is None && kv.dim == 2
        },
        n_kv_heads == 0 ==> {
            let mixer = mixer_kind(n_kv_heads, conv_l_cache);
            &&& mixer matches MixerKind::ShortConv { conv_l_cache: n } && Some(n) == (
            if conv_l_cache is Some {
                conv_l_cache
            } else {
                Some(3usize)
            })
            &&& conv_l_cache matches Some(n) ==> (n > 0 ==> look_back(mixer) + 1 == n)
            &&& fresh_layer(mixer) == LayerView::Empty
        },
{
}

/// The parts of the latent attention: a head is what is rotated and what is not, and the rest is
/// what the parameters of the same names say; each of them is needed.
pub proof fn law_latent_attention(config: ModelConfig)
    requires
        config.attn_key_length_mla matches Some(n) ==> n >= rope_dim_of(config),
    ensures
        attention_of(config) is Ok <==> config.q_lora_rank is Some && config.kv_lora_rank is Some
            && config.attn_key_length_mla is Some && config.attn_value_length_mla is Some,
        attention_of(config) matches Ok(attention) ==> {
            &&& config.q_lora_rank == Some(attention.q_lora_rank)
            &&& config.kv_lora_rank == Some(attention.kv_lora_rank)
            &&& config.attn_key_length_mla == Some(attention.qk_head_dim)
            &&& config.attn_value_length_mla == Some(attention.v_head_dim)
            &&& attention.qk_nope_head_dim + rope_dim_of(config) == attention.qk_head_dim
        },
        config.n_rope_dims matches Some(n) ==> rope_dim_of(config) == n,
        config.n_rope_dims is None ==> rope_dim_of(config) == config.hidden_size / config.n_heads,
        config.n_leading_dense_block matches Some(n) ==> dense_layers(config) == n,
        config.n_leading_dense_block is None ==> dense_layers(config) == 0,
{
}

/// The experts are what the parameters of the same names say; each of them is needed but for the
/// norm, which is off unless it is said.
pub proof fn law_experts(config: ModelConfig)
    ensures
        experts_of(config) is Ok <==> config.n_experts is Some && config.n_expert_used is Some
            && config.n_expert_group is Some && config.n_expert_group_used is Some
            && config.expert_weights_scale is Some,
        experts_of(config) matches Ok(experts) ==> {
            &&& config.n_experts == Some(experts.n_experts)
            &&& config.n_expert_used == Some(experts.n_expert_used)
            &&& config.n_expert_group == Some(experts.n_group)
            &&& config.n_expert_group_used == Some(experts.topk_group)
            &&& config.expert_weights_scale == Some(experts.routed_scaling_factor)
            &&& experts.norm_top_k <==> config.expert_weights_norm == Some(true)
        },
{
}

/// The lower of two limits is one of them and above neither.
pub proof fn law_lower_limit(a: usize, b: usize)
    ensures
        lower(a, b) <= a,
        lower(a, b) <= b,
        lower(a, b) == a || lower(a, b) == b,
{
}

} // verus!
