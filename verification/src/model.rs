//! The interface to the models and what they remember.
pub mod load_plan;

use vstd::prelude::*;

use crate::tensor::{kv_view, tensor_view, KvView, RawView};

verus! {

/// How a model keeps its memory of the tokens.
#[derive(Debug, Clone, Copy, PartialEq, Eq, Structural)]
pub enum ModelCacheType {
    /// Keys and values of all tokens in each layer.
    FullAttn,
    /// Keys and values in some layers, the inputs of the last tokens in others.
    MixedWithConv { conv_l_cache: usize },
}

/// What has to be known of a model to keep its memory.
#[derive(Debug, Clone, Copy, PartialEq, Eq, Structural)]
pub struct ModelCacheInfo {
    pub cache_type: ModelCacheType,
    pub cache_seq_len_dim: usize,
    pub cache_block_size_hint: usize,
    pub n_layers: usize,
}

/// The memory of a layer.
#[derive(Debug, Clone)]
pub enum MixedCache {
    KvCache(candle_nn::kv_cache::ConcatKvCache),
    ConvCache(candle_core::Tensor),
}

/// The mathematical model of the memory of a layer.
pub enum LayerView {
    Empty,
    Kv(KvView),
    Conv(RawView),
}

/// What a layer remembers.
pub open spec fn layer_view(layer: Option<MixedCache>) -> LayerView {
    match layer {
        Some(MixedCache::KvCache(cache)) => LayerView::Kv(kv_view(cache)),
        Some(MixedCache::ConvCache(tensor)) => LayerView::Conv(tensor_view(tensor)),
        None => LayerView::Empty,
    }
}

/// What the layers remember.
pub open spec fn layer_views(layers: Seq<Option<MixedCache>>) -> Seq<LayerView> {
    layers.map_values(|layer: Option<MixedCache>| layer_view(layer))
}

/// What the layers remember, block by block.
pub open spec fn block_views(blocks: Seq<Vec<Option<MixedCache>>>) -> Seq<Seq<LayerView>> {
    blocks.map_values(|layers: Vec<Option<MixedCache>>| layer_views(layers@))
}

impl MixedCache {
    /// The inputs of the last tokens, if the layer keeps those.
    pub fn as_conv_cache(&self) -> (result: Option<&candle_core::Tensor>)
        ensures
            match *self {
                MixedCache::ConvCache(tensor) => result == Some(&tensor),
                _ => result is None,
            },
    {
        match self {
            MixedCache::ConvCache(tensor) => Some(tensor),
            _ => None,
        }
    }
}

/// A model as the engine sees it. What it computes is its own affair; the memory that it is
/// handed keeps its number of layers.
/// An implementation that is not verified may leave the specification functions out.
pub trait Model {
    /// `result` and `after` are a possible outcome of `forward`.
    closed spec fn computes(
        &self,
        input: candle_core::Tensor,
        before: Seq<Option<MixedCache>>,
        pos: usize,
        use_flash: bool,
        result: Result<candle_core::Tensor, String>,
        after: Seq<Option<MixedCache>>,
    ) -> bool {
        arbitrary()
    }

    /// `result` is a possible outcome of `init_cache`.
    closed spec fn begins_with(&self, result: Result<Vec<Option<MixedCache>>, String>) -> bool {
        arbitrary()
    }

    /// Reads tokens at a position and gives the scores of the tokens that follow each.
    fn forward(
        &self,
        input: &candle_core::Tensor,
        cache: &mut Vec<Option<MixedCache>>,
        pos: usize,
        use_flash: bool,
    ) -> (result: Result<candle_core::Tensor, String>)
        ensures
            final(cache)@.len() == old(cache)@.len(),
            self.computes(*input, old(cache)@, pos, use_flash, result, final(cache)@),
    ;

    /// The memory of a model that has read nothing.
    fn init_cache(&self) -> (result: Result<Vec<Option<MixedCache>>, String>)
        ensures
            self.begins_with(result),
    ;

    closed spec fn seq_len_dim(&self) -> usize {
        arbitrary()
    }

    closed spec fn prefill(&self) -> usize {
        arbitrary()
    }

    closed spec fn conv_place(&self) -> bool {
        arbitrary()
    }

    closed spec fn block_hint(&self) -> usize {
        arbitrary()
    }

    closed spec fn cache_kind(&self) -> ModelCacheType {
        arbitrary()
    }

    closed spec fn layers(&self) -> usize {
        arbitrary()
    }

    /// The dimension of the memory that grows with the tokens.
    fn cache_seq_len_dim(&self) -> (result: usize)
        ensures
            result == self.seq_len_dim(),
    ;

    /// How many tokens the model has to read at least.
    fn min_prefill_tokens(&self) -> (result: usize)
        ensures
            result == self.prefill(),
    ;

    /// The memory of the last tokens is kept by the processor.
    fn conv_on_cpu(&self) -> (result: bool)
        ensures
            result == self.conv_place(),
    ;

    /// The least number of tokens that the memory can be cut to a multiple of.
    fn cache_block_size_hint(&self) -> (result: usize)
        ensures
            result == self.block_hint(),
    ;

    fn model_cache_type(&self) -> (result: ModelCacheType)
        ensures
            result == self.cache_kind(),
    ;

    fn n_layers(&self) -> (result: usize)
        ensures
            result == self.layers(),
    ;

    /// What has to be known of the model to keep its memory.
    fn cache_info(&self) -> (result: ModelCacheInfo)
        ensures
            result == (ModelCacheInfo {
                cache_type: self.cache_kind(),
                cache_seq_len_dim: self.seq_len_dim(),
                cache_block_size_hint: self.block_hint(),
                n_layers: self.layers(),
            }),
    {
        ModelCacheInfo {
            cache_type: self.model_cache_type(),
            cache_seq_len_dim: self.cache_seq_len_dim(),
            cache_block_size_hint: self.cache_block_size_hint(),
            n_layers: self.n_layers(),
        }
    }
}

} // verus!
