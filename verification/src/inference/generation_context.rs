//! What a conversation has computed so far: the tokens, the memory of the model, and the cached
//! prefixes that it can fall back on.
use vstd::prelude::*;
use vstd::string::*;

use crate::config::model_cache_config::{
    default_cache_config, CacheConfigView, ModelCacheConfig,
};
use crate::error::LociError;
use crate::inference::cache_file::block_count;
use crate::inference::model_cache::{
    block_size, block_size_of, in_whole_blocks, law_whole_blocks, whole_blocks, CacheMetadata,
    LoadedMixedCache,
};
use crate::model::{
    block_views, layer_view, layer_views, LayerView, MixedCache, ModelCacheInfo, ModelCacheType,
};
use crate::tensor::{
    can_narrow, extent, keys_of, narrow, narrowed_view, set_keys, set_values, values_of, KvView,
};
use crate::text::{push_dec, same_text};
use crate::types::ModelCacheFragmentation;

verus! {

/// Keeps cached prefixes. Whether a prefix can be kept, and where, is the keeper's affair.
/// An implementation that is not verified may leave the specification functions out.
pub trait ModelCacheManagerInterface {
    closed spec fn min_tokens(&self) -> usize {
        arbitrary()
    }

    /// Shorter prefixes are not kept.
    fn min_cache_tokens(&self) -> (result: usize)
        ensures
            result == self.min_tokens(),
    ;

    /// `result` is a possible outcome of `save_cache`.
    closed spec fn saves(
        &self,
        token_ids: Seq<u32>,
        cache: Seq<Option<MixedCache>>,
        cache_seq_len_dim: usize,
        fragmentation: ModelCacheFragmentation,
        block_boundary_conv_cache: Seq<Vec<Option<MixedCache>>>,
        result: Result<String, LociError>,
    ) -> bool {
        arbitrary()
    }

    /// `result` and `after` are a possible outcome of `enforce_limits`.
    closed spec fn limits(
        &self,
        before: Seq<CacheMetadata>,
        result: Result<(), LociError>,
        after: Seq<CacheMetadata>,
    ) -> bool {
        arbitrary()
    }

    /// Keeps a prefix and gives its path.
    fn save_cache(
        &self,
        token_ids: &Vec<u32>,
        cache: &Vec<Option<MixedCache>>,
        cache_seq_len_dim: usize,
        fragmentation: &ModelCacheFragmentation,
        block_boundary_conv_cache: &Vec<Vec<Option<MixedCache>>>,
    ) -> (result: Result<String, LociError>)
        requires
            block_size_of(*fragmentation) > 0,
        ensures
            self.saves(
                token_ids@,
                cache@,
                cache_seq_len_dim,
                *fragmentation,
                block_boundary_conv_cache@,
                result,
            ),
    ;

    /// Gives up prefixes until the room is enough, and forgets them.
    fn enforce_limits(&self, cache_meta: &mut Vec<CacheMetadata>) -> (result: Result<
        (),
        LociError,
    >)
        ensures
            self.limits(old(cache_meta)@, result, final(cache_meta)@),
    ;
}

/// Where a memory is loaded to.
pub struct Place {
    pub device: candle_core::Device,
    /// The inputs of the last tokens are kept by the processor.
    pub conv_on_cpu: bool,
}

/// Loads cached prefixes. What is loaded is as long as the whole blocks of the prefix.
/// An implementation that is not verified may leave the specification functions out.
pub trait CacheLoader {
    /// `result` is a possible outcome of `load_mixed_cache`.
    closed spec fn loads(
        &self,
        cache_file_path: Seq<char>,
        matched_token_length: usize,
        fragmentation: ModelCacheFragmentation,
        cache_seq_len_dim: usize,
        place: Place,
        result: Result<LoadedMixedCache, String>,
    ) -> bool {
        arbitrary()
    }

    fn load_mixed_cache(
        &self,
        cache_file_path: &str,
        matched_token_length: usize,
        fragmentation: &ModelCacheFragmentation,
        cache_seq_len_dim: usize,
        device: &candle_core::Device,
        conv_on_cpu: bool,
    ) -> (result: Result<LoadedMixedCache, String>)
        requires
            block_size_of(*fragmentation) > 0,
        ensures
            self.loads(
                cache_file_path@,
                matched_token_length,
                *fragmentation,
                cache_seq_len_dim,
                (Place { device: *device, conv_on_cpu }),
                result,
            ),
            result matches Ok(loaded) ==> loaded.cached_token_length == whole_blocks(
                matched_token_length as int,
                block_size_of(*fragmentation) as int,
            ) && loaded.block_boundary_conv_cache@.len() == block_count(
                *fragmentation,
                matched_token_length,
            ),
    ;
}

/// What a conversation has computed so far.
pub struct GenerationContext<M: ModelCacheManagerInterface, L: CacheLoader> {
    pub model: String,
    /// The tokens that the model has read.
    pub token_ids: Vec<u32>,
    /// What the model remembers of them.
    pub active_cache: Vec<Option<MixedCache>>,
    /// The inputs of the last tokens at the end of each block.
    pub block_boundary_conv_cache: Vec<Vec<Option<MixedCache>>>,
    pub prefix_caching: bool,
    pub cache_type: ModelCacheType,
    pub cache_manager: M,
    pub cache_loader: L,
    pub cache_metadata: Vec<CacheMetadata>,
    pub model_cache_fragmentation: ModelCacheFragmentation,
    pub model_cache_seq_len_dim: usize,
    pub model_layers_count: usize,
}

/// The fragmentation that is wanted, with blocks that the model can be cut to.
pub open spec fn adjusted_fragmentation(
    wanted: ModelCacheFragmentation,
    hint: usize,
) -> ModelCacheFragmentation {
    match wanted {
        ModelCacheFragmentation::BlockWise { block_size } => ModelCacheFragmentation::BlockWise {
            block_size: if block_size < hint {
                hint
            } else {
                block_size
            },
        },
        ModelCacheFragmentation::TokenWise => if hint > 1 {
            ModelCacheFragmentation::BlockWise { block_size: hint }
        } else {
            ModelCacheFragmentation::TokenWise
        },
    }
}

pub fn adjust_fragmentation(wanted: ModelCacheFragmentation, hint: usize) -> (result:
    ModelCacheFragmentation)
    ensures
        result == adjusted_fragmentation(wanted, hint),
{
    match wanted {
        ModelCacheFragmentation::BlockWise { block_size } => ModelCacheFragmentation::BlockWise {
            block_size: if block_size < hint {
                hint
            } else {
                block_size
            },
        },
        ModelCacheFragmentation::TokenWise => if hint > 1 {
            ModelCacheFragmentation::BlockWise { block_size: hint }
        } else {
            ModelCacheFragmentation::TokenWise
        },
    }
}

/// The number of tokens that two lists have in common at their beginning.
pub open spec fn common_prefix(a: Seq<u32>, b: Seq<u32>) -> nat
    decreases a.len(),
{
    if a.len() == 0 || b.len() == 0 || a[0] != b[0] {
        0
    } else {
        1 + common_prefix(a.skip(1), b.skip(1))
    }
}

/// The common beginning of two lists is the same in both, and the longest that is.
pub proof fn law_common_prefix(a: Seq<u32>, b: Seq<u32>)
    ensures
        common_prefix(a, b) <= a.len(),
        common_prefix(a, b) <= b.len(),
        a.take(common_prefix(a, b) as int) == b.take(common_prefix(a, b) as int),
        common_prefix(a, b) < a.len() && common_prefix(a, b) < b.len() ==> a[common_prefix(
            a,
            b,
        ) as int] != b[common_prefix(a, b) as int],
    decreases a.len(),
{
    if a.len() == 0 || b.len() == 0 || a[0] != b[0] {
        assert(a.take(0) =~= b.take(0));
    } else {
        law_common_prefix(a.skip(1), b.skip(1));
        let n = common_prefix(a.skip(1), b.skip(1)) as int;
        assert forall|i: int| 0 <= i < n + 1 implies a[i] == b[i] by {
            if i > 0 {
                assert(a.skip(1).take(n)[i - 1] == b.skip(1).take(n)[i - 1]);
            }
        }
        assert(a.take(n + 1) =~= b.take(n + 1));
    }
}

pub fn common_len(a: &[u32], b: &[u32]) -> (result: usize)
    ensures
        result == common_prefix(a@, b@),
        result <= a@.len(),
        result <= b@.len(),
{
    let mut n: usize = 0;
    assert(a@.skip(0) =~= a@);
    assert(b@.skip(0) =~= b@);
    while n < a.len() && n < b.len() && a[n] == b[n]
        invariant
            n <= a@.len(),
            n <= b@.len(),
            common_prefix(a@, b@) == n + common_prefix(a@.skip(n as int), b@.skip(n as int)),
        decreases a.len() - n,
    {
        assert(a@.skip(n as int).skip(1) =~= a@.skip(n + 1));
        assert(b@.skip(n as int).skip(1) =~= b@.skip(n + 1));
        assert(a@.skip(n as int)[0] == a@[n as int]);
        assert(b@.skip(n as int)[0] == b@[n as int]);
        n = n + 1;
    }
    proof {
        if n < a@.len() && n < b@.len() {
            assert(a@.skip(n as int)[0] == a@[n as int]);
            assert(b@.skip(n as int)[0] == b@[n as int]);
        }
        assert(common_prefix(a@.skip(n as int), b@.skip(n as int)) == 0);
    }
    n
}

/// The longest match, and the cached prefix that gives it, if one gives more than `start`: the
/// first of the model's prefixes with the longest match that is long enough.
pub open spec fn best_match(
    prefixes: Seq<CacheMetadata>,
    model: Seq<char>,
    prompt: Seq<u32>,
    start: nat,
    min_tokens: nat,
) -> (nat, Option<int>)
    decreases prefixes.len(),
{
    if prefixes.len() == 0 {
        (start, None)
    } else {
        let before = best_match(prefixes.drop_last(), model, prompt, start, min_tokens);
        let last = prefixes.last();
        let len = common_prefix(last.token_ids@, prompt);
        if last.model@ == model && len > before.0 && len >= min_tokens {
            (len, Some(prefixes.len() - 1))
        } else {
            before
        }
    }
}

fn find_best_match(
    prefixes: &Vec<CacheMetadata>,
    model: &str,
    prompt: &[u32],
    start: usize,
    min_tokens: usize,
) -> (result: (usize, Option<usize>))
    ensures
        result.0 == best_match(
            prefixes@,
            model@,
            prompt@,
            start as nat,
            min_tokens as nat,
        ).0,
        match result.1 {
            Some(index) => index < prefixes@.len() && best_match(
                prefixes@,
                model@,
                prompt@,
                start as nat,
                min_tokens as nat,
            ).1 == Some(index as int),
            None => best_match(
                prefixes@,
                model@,
                prompt@,
                start as nat,
                min_tokens as nat,
            ).1 is None,
        },
{
    let mut highest: usize = start;
    let mut found: Option<usize> = None;
    let mut i: usize = 0;
    while i < prefixes.len()
        invariant
            i <= prefixes@.len(),
            ({
                let best = best_match(
                    prefixes@.take(i as int),
                    model@,
                    prompt@,
                    start as nat,
                    min_tokens as nat,
                );
                &&& highest == best.0
                &&& match found {
                    Some(index) => index < i && best.1 == Some(index as int),
                    None => best.1 is None,
                }
            }),
        decreases prefixes.len() - i,
    {
        assert(prefixes@.take(i + 1).drop_last() =~= prefixes@.take(i as int));
        assert(prefixes@.take(i + 1).last() == prefixes@[i as int]);
        if same_text(prefixes[i].model.as_str(), model) {
            let len: usize = common_len(prefixes[i].token_ids.as_slice(), prompt);
            if len > highest && len >= min_tokens {
                highest = len;
                found = Some(i);
            }
        }
        i = i + 1;
    }
    assert(prefixes@.take(i as int) =~= prefixes@);
    (highest, found)
}

/// What to do with the memory for a new prompt.
#[derive(Debug, Clone, Copy, PartialEq, Eq, Structural)]
pub enum MatchPlan {
    /// Nothing of the memory is of use.
    Nothing,
    /// All of it is.
    Keep { len: usize },
    /// It is up to a length.
    Narrow { len: usize },
    /// It is up to a length; the rest may be of use later.
    SaveAndNarrow { len: usize },
    /// A cached prefix is of more use.
    Load { index: usize, len: usize },
}

/// The tokens of a prompt that may come from the memory: the model has to read some itself.
pub open spec fn most_cached(prompt: Seq<u32>, min_prefill: usize) -> int {
    if prompt.len() < min_prefill {
        0
    } else {
        prompt.len() - min_prefill
    }
}

/// What to do with the memory for a new prompt.
pub open spec fn planned(
    prefix_caching: bool,
    token_ids: Seq<u32>,
    prefixes: Seq<CacheMetadata>,
    model: Seq<char>,
    prompt: Seq<u32>,
    min_prefill: usize,
    min_tokens: usize,
) -> MatchPlan {
    let most = most_cached(prompt, min_prefill);
    let common = common_prefix(token_ids, prompt) as int;
    let best = best_match(prefixes, model, prompt, common as nat, min_tokens as nat);
    let len = if best.0 < most {
        best.0 as int
    } else {
        most
    };
    if !prefix_caching {
        MatchPlan::Nothing
    } else if common != 0 && common > most {
        MatchPlan::Narrow { len: most as usize }
    } else if common != 0 && common == token_ids.len() {
        MatchPlan::Keep { len: common as usize }
    } else if common != 0 && most < min_tokens {
        MatchPlan::Narrow { len: common as usize }
    } else if len == 0 {
        MatchPlan::Nothing
    } else {
        match best.1 {
            Some(index) => MatchPlan::Load { index: index as usize, len: len as usize },
            None => MatchPlan::SaveAndNarrow { len: len as usize },
        }
    }
}

/// Decides what to do with the memory for a new prompt.
pub fn plan_match(
    prefix_caching: bool,
    token_ids: &Vec<u32>,
    prefixes: &Vec<CacheMetadata>,
    model: &str,
    prompt: &[u32],
    min_prefill: usize,
    min_tokens: usize,
) -> (result: MatchPlan)
    ensures
        result == planned(
            prefix_caching,
            token_ids@,
            prefixes@,
            model@,
            prompt@,
            min_prefill,
            min_tokens,
        ),
        result matches MatchPlan::Load { index, len } ==> index < prefixes@.len(),
{
    if !prefix_caching {
        return MatchPlan::Nothing;
    }
    let prompt_len: usize = prompt.len();
    let most: usize = if prompt_len < min_prefill {
        0
    } else {
        prompt_len - min_prefill
    };
    let common: usize = common_len(token_ids.as_slice(), prompt);
    if common != 0 {
        if common > most {
            return MatchPlan::Narrow { len: most };
        }
        if common == token_ids.len() {
            return MatchPlan::Keep { len: common };
        }
        if most < min_tokens {
            return MatchPlan::Narrow { len: common };
        }
    }
    let (longest, found) = find_best_match(prefixes, model, prompt, common, min_tokens);
    let len: usize = if longest < most {
        longest
    } else {
        most
    };
    if len == 0 {
        return MatchPlan::Nothing;
    }
    match found {
        Some(index) => MatchPlan::Load { index, len },
        None => MatchPlan::SaveAndNarrow { len },
    }
}

proof fn lemma_best_match(
    prefixes: Seq<CacheMetadata>,
    model: Seq<char>,
    prompt: Seq<u32>,
    start: nat,
    min_tokens: nat,
)
    ensures
        ({
            let best = best_match(prefixes, model, prompt, start, min_tokens);
            &&& best.0 >= start
            &&& best.1 is None ==> best.0 == start
            &&& best.1 matches Some(index) ==> {
                &&& 0 <= index < prefixes.len()
                &&& prefixes[index].model@ == model
                &&& common_prefix(prefixes[index].token_ids@, prompt) == best.0
                &&& best.0 > start
                &&& best.0 >= min_tokens
            }
            &&& forall|i: int|
                0 <= i < prefixes.len() && (#[trigger] prefixes[i]).model@ == model
                    && common_prefix(prefixes[i].token_ids@, prompt) >= min_tokens
                    ==> common_prefix(prefixes[i].token_ids@, prompt) <= best.0
        }),
    decreases prefixes.len(),
{
    if prefixes.len() > 0 {
        lemma_best_match(prefixes.drop_last(), model, prompt, start, min_tokens);
        let before = best_match(prefixes.drop_last(), model, prompt, start, min_tokens);
        let best = best_match(prefixes, model, prompt, start, min_tokens);
        assert forall|i: int|
            0 <= i < prefixes.len() && (#[trigger] prefixes[i]).model@ == model && common_prefix(
                prefixes[i].token_ids@,
                prompt,
            ) >= min_tokens implies common_prefix(prefixes[i].token_ids@, prompt) <= best.0 by {
            if i < prefixes.len() - 1 {
                assert(prefixes.drop_last()[i] == prefixes[i]);
            }
        }
        if let Some(index) = before.1 {
            assert(prefixes.drop_last()[index] == prefixes[index]);
        }
    }
}

/// A plan never takes more from the memory than the prompt and the memory have in common, and
/// leaves the model the tokens that it has to read itself. A cached prefix is loaded only if it
/// is the model's, long enough, and matches more than the memory and at least as much as every
/// other such prefix.
pub proof fn law_plan_is_sound(
    token_ids: Seq<u32>,
    prefixes: Seq<CacheMetadata>,
    model: Seq<char>,
    prompt: Seq<u32>,
    min_prefill: usize,
    min_tokens: usize,
)
    requires
        prompt.len() <= usize::MAX,
        prefixes.len() <= usize::MAX,
    ensures
        match planned(true, token_ids, prefixes, model, prompt, min_prefill, min_tokens) {
            MatchPlan::Nothing => true,
            MatchPlan::Keep { len } => len == token_ids.len() && len <= most_cached(
                prompt,
                min_prefill,
            ) && token_ids == prompt.take(len as int),
            MatchPlan::Narrow { len } => len <= common_prefix(token_ids, prompt) && len
                <= most_cached(prompt, min_prefill),
            MatchPlan::SaveAndNarrow { len } => len <= common_prefix(token_ids, prompt) && len
                <= most_cached(prompt, min_prefill),
            MatchPlan::Load { index, len } => {
                let found = common_prefix(prefixes[index as int].token_ids@, prompt);
                &&& index < prefixes.len()
                &&& prefixes[index as int].model@ == model
                &&& len <= found
                &&& len <= most_cached(prompt, min_prefill)
                &&& found >= min_tokens
                &&& found > common_prefix(token_ids, prompt)
                &&& forall|i: int|
                    0 <= i < prefixes.len() && (#[trigger] prefixes[i]).model@ == model
                        && common_prefix(prefixes[i].token_ids@, prompt) >= min_tokens
                        ==> common_prefix(prefixes[i].token_ids@, prompt) <= found
            },
        },
{
    law_common_prefix(token_ids, prompt);
    let common = common_prefix(token_ids, prompt);
    lemma_best_match(prefixes, model, prompt, common, min_tokens as nat);
    let best = best_match(prefixes, model, prompt, common, min_tokens as nat);
    if let Some(index) = best.1 {
        law_common_prefix(prefixes[index].token_ids@, prompt);
    }
    if common == token_ids.len() {
        assert(token_ids.take(common as int) =~= token_ids);
    }
}

/// The difference, or zero where it would be negative.
pub open spec fn less(a: int, b: int) -> int {
    if a < b {
        0
    } else {
        a - b
    }
}

/// The memory of a layer cut to the inputs of the last tokens, if it holds inputs.
pub open spec fn trimmed_layer(layer: LayerView, dim: usize, keep: usize) -> LayerView {
    match layer {
        LayerView::Conv(raw) => LayerView::Conv(
            narrowed_view(
                raw,
                dim as int,
                less(raw.shape[dim as int] as int, keep as int),
                keep,
            ),
        ),
        _ => layer,
    }
}

/// The memory of a layer, if it holds inputs, holds enough of them.
pub open spec fn can_trim(layer: LayerView, dim: usize, keep: usize) -> bool {
    layer matches LayerView::Conv(raw) ==> dim < raw.shape.len() && keep
        <= raw.shape[dim as int]
}

/// Where the inputs of the last tokens of a block begin in a memory of `n` inputs, of which the
/// last `input` are new and the block ends `end` into those.
pub open spec fn boundary_start(n: int, input: int, end: int, keep: int) -> int {
    less(less(n, input) + end, keep)
}

/// The inputs of the last tokens of a block.
pub open spec fn boundary_layer(
    layer: LayerView,
    dim: usize,
    input: int,
    end: int,
    keep: usize,
) -> LayerView {
    match layer {
        LayerView::Conv(raw) => LayerView::Conv(
            narrowed_view(
                raw,
                dim as int,
                boundary_start(raw.shape[dim as int] as int, input, end, keep as int),
                keep,
            ),
        ),
        _ => LayerView::Empty,
    }
}

/// The memory of a layer, if it holds inputs, reaches over the end of the block.
pub open spec fn has_boundary(
    layer: LayerView,
    dim: usize,
    input: int,
    end: int,
    keep: usize,
) -> bool {
    layer matches LayerView::Conv(raw) ==> dim < raw.shape.len() && can_narrow(
        raw,
        dim as int,
        boundary_start(raw.shape[dim as int] as int, input, end, keep as int),
        keep as int,
    )
}

/// Cuts the memory of a layer to the inputs of the last tokens.
fn trim_layer(layer: &mut Option<MixedCache>, dim: usize, keep: usize) -> (result: Result<
    (),
    LociError,
>)
    ensures
        match result {
            Ok(_) => can_trim(layer_view(*old(layer)), dim, keep) && layer_view(*final(layer))
                == trimmed_layer(layer_view(*old(layer)), dim, keep),
            Err(error) => !can_trim(layer_view(*old(layer)), dim, keep) && error@ is Cache
                && *final(layer) == *old(layer),
        },
{
    let part = match &*layer {
        Some(MixedCache::ConvCache(tensor)) => {
            let n: usize = match extent(tensor, dim) {
                Ok(n) => n,
                Err(message) => {
                    return Err(LociError::Cache(message));
                },
            };
            match narrow(tensor, dim, n.saturating_sub(keep), keep) {
                Ok(part) => part,
                Err(message) => {
                    return Err(LociError::Cache(message));
                },
            }
        },
        _ => {
            return Ok(());
        },
    };
    *layer = Some(MixedCache::ConvCache(part));
    Ok(())
}

/// The inputs of the last tokens of a block.
fn boundary_of(
    layer: &Option<MixedCache>,
    dim: usize,
    input: usize,
    end: usize,
    keep: usize,
) -> (result: Result<Option<MixedCache>, LociError>)
    requires
        end <= input,
    ensures
        match result {
            Ok(boundary) => has_boundary(
                layer_view(*layer),
                dim,
                input as int,
                end as int,
                keep,
            ) && layer_view(boundary) == boundary_layer(
                layer_view(*layer),
                dim,
                input as int,
                end as int,
                keep,
            ),
            Err(error) => !has_boundary(
                layer_view(*layer),
                dim,
                input as int,
                end as int,
                keep,
            ) && error@ is Cache,
        },
{
    match layer {
        Some(MixedCache::ConvCache(tensor)) => {
            let n: usize = match extent(tensor, dim) {
                Ok(n) => n,
                Err(message) => {
                    return Err(LociError::Cache(message));
                },
            };
            let start: usize = n.saturating_sub(input).saturating_add(end).saturating_sub(keep);
            match narrow(tensor, dim, start, keep) {
                Ok(part) => Ok(Some(MixedCache::ConvCache(part))),
                Err(message) => Err(LociError::Cache(message)),
            }
        },
        _ => Ok(None),
    }
}

/// The memory of a layer cut to the first tokens: keys and values to a length, and in place of
/// inputs of later tokens those at the end of a block, if there is a block.
pub open spec fn narrowed_layer(
    layer: LayerView,
    boundary: Option<LayerView>,
    dim: usize,
    len: usize,
) -> LayerView {
    match layer {
        LayerView::Kv(kv) => if kv.keys is Some && kv.values is Some {
            LayerView::Kv(
                KvView {
                    keys: Some(narrowed_view(kv.keys->Some_0, dim as int, 0, len)),
                    values: Some(narrowed_view(kv.values->Some_0, dim as int, 0, len)),
                    dim: kv.dim,
                },
            )
        } else {
            layer
        },
        LayerView::Conv(_) => match boundary {
            Some(view) => view,
            None => LayerView::Empty,
        },
        LayerView::Empty => LayerView::Empty,
    }
}

/// The memory of a layer can be cut to the first tokens.
pub open spec fn can_narrow_layer(
    layer: LayerView,
    boundary: Option<LayerView>,
    dim: usize,
    len: usize,
) -> bool {
    match layer {
        LayerView::Kv(kv) => kv.keys is Some && kv.values is Some ==> can_narrow(
            kv.keys->Some_0,
            dim as int,
            0,
            len as int,
        ) && can_narrow(kv.values->Some_0, dim as int, 0, len as int),
        LayerView::Conv(_) => boundary matches Some(view) ==> view is Conv,
        LayerView::Empty => true,
    }
}

/// What is kept of a layer at the end of a block; nothing beyond the layers that are kept.
pub open spec fn kept_at(block: Seq<Option<MixedCache>>, layer: int) -> LayerView {
    if layer < block.len() {
        layer_view(block[layer])
    } else {
        LayerView::Empty
    }
}

fn no_boundary() -> (result: LociError)
    ensures
        result@ == crate::error::ErrorView::Cache("block boundary cache not found"@),
{
    LociError::Cache(String::from_str("block boundary cache not found"))
}

/// Cuts the memory of a layer to the first tokens. `block` is what is kept at the end of the last
/// block, if there is a block.
fn narrow_layer(
    layer: &mut Option<MixedCache>,
    block: Option<&Vec<Option<MixedCache>>>,
    index: usize,
    dim: usize,
    len: usize,
) -> (result: Result<(), LociError>)
    ensures
        ({
            let boundary = match block {
                Some(layers) => Some(kept_at(layers@, index as int)),
                None => None,
            };
            match result {
                Ok(_) => can_narrow_layer(layer_view(*old(layer)), boundary, dim, len)
                    && layer_view(*final(layer)) == narrowed_layer(
                    layer_view(*old(layer)),
                    boundary,
                    dim,
                    len,
                ),
                Err(error) => !can_narrow_layer(layer_view(*old(layer)), boundary, dim, len) && (
                error@ is Cache || error@ is CacheLoad),
            }
        }),
{
    let is_conv = match &*layer {
        Some(MixedCache::ConvCache(_)) => true,
        _ => false,
    };
    if is_conv {
        match block {
            Some(layers) => {
                if index >= layers.len() {
                    return Err(no_boundary());
                }
                match &layers[index] {
                    Some(MixedCache::ConvCache(tensor)) => {
                        *layer = Some(MixedCache::ConvCache(tensor.clone()));
                        return Ok(());
                    },
                    _ => {
                        return Err(no_boundary());
                    },
                }
            },
            None => {
                *layer = None;
                return Ok(());
            },
        }
    }
    match layer {
        Some(MixedCache::KvCache(kv)) => {
            let parts = match (keys_of(kv), values_of(kv)) {
                (Some(k), Some(v)) => {
                    let k_part = match narrow(k, dim, 0, len) {
                        Ok(part) => part,
                        Err(message) => {
                            return Err(LociError::CacheLoad(message));
                        },
                    };
                    Some((k_part, narrow(v, dim, 0, len)))
                },
                _ => None,
            };
            match parts {
                Some((k_part, v_result)) => {
                    set_keys(kv, k_part);
                    match v_result {
                        Ok(v_part) => {
                            set_values(kv, v_part);
                        },
                        Err(message) => {
                            return Err(LociError::CacheLoad(message));
                        },
                    }
                },
                None => {},
            }
        },
        _ => {},
    }
    Ok(())
}

/// The memory of the layers after the inputs in it were cut to those of the last tokens.
pub open spec fn trimmed_layers(layers: Seq<LayerView>, dim: usize, keep: usize) -> Seq<LayerView> {
    layers.map_values(|layer: LayerView| trimmed_layer(layer, dim, keep))
}

/// The memory of the layers after the inputs in the first `n` of them were cut to those of the last
/// tokens.
pub open spec fn trimmed_until(
    layers: Seq<LayerView>,
    dim: usize,
    keep: usize,
    n: int,
) -> Seq<LayerView> {
    Seq::new(
        layers.len(),
        |i: int|
            if i < n {
                trimmed_layer(layers[i], dim, keep)
            } else {
                layers[i]
            },
    )
}

/// The inputs of the last tokens of a block in `count` layers.
pub open spec fn boundary_layers(
    layers: Seq<LayerView>,
    count: usize,
    dim: usize,
    input: int,
    end: int,
    keep: usize,
) -> Seq<LayerView> {
    Seq::new(
        count as nat,
        |i: int|
            if i < layers.len() {
                boundary_layer(layers[i], dim, input, end, keep)
            } else {
                LayerView::Empty
            },
    )
}

/// The inputs of the last tokens of each block in the memory of a layer. `ends` are the ends of the
/// blocks.
fn layer_boundaries(
    layer: &Option<MixedCache>,
    dim: usize,
    input: usize,
    ends: &Vec<usize>,
    keep: usize,
) -> (result: Result<Vec<Option<MixedCache>>, LociError>)
    requires
        forall|k: int| 0 <= k < ends@.len() ==> #[trigger] ends@[k] <= input,
    ensures
        match result {
            Ok(column) => column@.len() == ends@.len() && forall|k: int|
                0 <= k < ends@.len() ==> has_boundary(
                    layer_view(*layer),
                    dim,
                    input as int,
                    #[trigger] ends@[k] as int,
                    keep,
                ) && layer_view(column@[k]) == boundary_layer(
                    layer_view(*layer),
                    dim,
                    input as int,
                    ends@[k] as int,
                    keep,
                ),
            Err(error) => error@ is Cache && exists|k: int|
                0 <= k < ends@.len() && !has_boundary(
                    layer_view(*layer),
                    dim,
                    input as int,
                    #[trigger] ends@[k] as int,
                    keep,
                ),
        },
{
    let mut column: Vec<Option<MixedCache>> = Vec::new();
    let mut k: usize = 0;
    while k < ends.len()
        invariant
            k <= ends@.len(),
            column@.len() == k,
            forall|j: int| 0 <= j < ends@.len() ==> #[trigger] ends@[j] <= input,
            forall|j: int|
                0 <= j < k ==> has_boundary(
                    layer_view(*layer),
                    dim,
                    input as int,
                    #[trigger] ends@[j] as int,
                    keep,
                ) && layer_view(column@[j]) == boundary_layer(
                    layer_view(*layer),
                    dim,
                    input as int,
                    ends@[j] as int,
                    keep,
                ),
        decreases ends.len() - k,
    {
        match boundary_of(layer, dim, input, ends[k], keep) {
            Ok(boundary) => {
                column.push(boundary);
            },
            Err(error) => {
                assert(!has_boundary(
                    layer_view(*layer),
                    dim,
                    input as int,
                    ends@[k as int] as int,
                    keep,
                ));
                return Err(error);
            },
        }
        k = k + 1;
    }
    Ok(column)
}

/// Writes down what is kept of a layer, block by block.
fn keep_column(
    blocks: &mut Vec<Vec<Option<MixedCache>>>,
    layer: usize,
    column: Vec<Option<MixedCache>>,
)
    requires
        old(blocks)@.len() == column@.len(),
        forall|b: int| 0 <= b < old(blocks)@.len() ==> layer < (#[trigger] old(blocks)@[b])@.len(),
    ensures
        final(blocks)@.len() == old(blocks)@.len(),
        forall|b: int|
            0 <= b < final(blocks)@.len() ==> (#[trigger] final(blocks)@[b])@ == old(
                blocks,
            )@[b]@.update(layer as int, column@[b]),
{
    let ghost before = blocks@;
    let ghost whole = column@;
    let mut column = column;
    let mut b: usize = blocks.len();
    while b > 0
        invariant
            b <= blocks@.len() == before.len(),
            whole.len() == before.len(),
            column@ == whole.take(b as int),
            forall|j: int| 0 <= j < before.len() ==> layer < (#[trigger] before[j])@.len(),
            forall|j: int| 0 <= j < b ==> blocks@[j] == #[trigger] before[j],
            forall|j: int|
                b <= j < blocks@.len() ==> (#[trigger] blocks@[j])@ == before[j]@.update(
                    layer as int,
                    whole[j],
                ),
        decreases b,
    {
        let ghost now = blocks@;
        b = b - 1;
        assert(before[b as int] == now[b as int]);
        if let Some(kept) = column.pop() {
            blocks[b].set(layer, kept);
        }
        assert(column@ =~= whole.take(b as int));
        assert(forall|j: int|
            0 <= j < now.len() && j != b ==> blocks@[j] == #[trigger] now[j]);
    }
}

/// Blocks of which nothing is kept.
fn empty_blocks(count: usize, layers: usize) -> (result: Vec<Vec<Option<MixedCache>>>)
    ensures
        result@.len() == count,
        forall|b: int|
            0 <= b < count ==> (#[trigger] result@[b])@ == Seq::new(
                layers as nat,
                |i: int| None::<MixedCache>,
            ),
{
    let mut blocks: Vec<Vec<Option<MixedCache>>> = Vec::new();
    while blocks.len() < count
        invariant
            blocks@.len() <= count,
            forall|b: int|
                0 <= b < blocks@.len() ==> (#[trigger] blocks@[b])@ == Seq::new(
                    layers as nat,
                    |i: int| None::<MixedCache>,
                ),
        decreases count - blocks.len(),
    {
        let mut row: Vec<Option<MixedCache>> = Vec::new();
        while row.len() < layers
            invariant
                row@.len() <= layers,
                forall|i: int| 0 <= i < row@.len() ==> (#[trigger] row@[i]) is None,
            decreases layers - row.len(),
        {
            row.push(None);
        }
        assert(row@ =~= Seq::new(layers as nat, |i: int| None::<MixedCache>));
        blocks.push(row);
    }
    blocks
}

impl<M: ModelCacheManagerInterface, L: CacheLoader> GenerationContext<M, L> {
    /// Blocks are not empty.
    pub open spec fn wf(&self) -> bool {
        block_size_of(self.model_cache_fragmentation) > 0
    }

    /// The inputs of the last tokens are kept at the end of each block.
    pub open spec fn keeps_boundaries(&self) -> bool {
        &&& self.active_cache@.len() > 0
        &&& self.cache_type is MixedWithConv
        &&& self.prefix_caching
        &&& self.model_cache_fragmentation is BlockWise
    }

    /// All blocks of the tokens have their inputs kept, where they are.
    pub open spec fn boundaries_complete(&self) -> bool {
        self.keeps_boundaries() ==> self.block_boundary_conv_cache@.len()
            >= self.token_ids@.len() as int / block_size_of(self.model_cache_fragmentation) as int
    }

    /// A conversation that has computed nothing. `cache_metadata` are the cached prefixes that it
    /// can fall back on, if prefixes are cached at all.
    pub fn new(
        model: &str,
        model_cache_config: Option<ModelCacheConfig>,
        cache_info: ModelCacheInfo,
        cache_manager: M,
        cache_loader: L,
        cache_metadata: Vec<CacheMetadata>,
    ) -> (result: Self)
        ensures
            ({
                let config: CacheConfigView = match model_cache_config {
                    Some(config) => config@,
                    None => default_cache_config(),
                };
                &&& result.model@ == model@
                &&& result.token_ids@ == Seq::<u32>::empty()
                &&& result.active_cache@ == Seq::<Option<MixedCache>>::empty()
                &&& result.block_boundary_conv_cache@ == Seq::<Vec<Option<MixedCache>>>::empty()
                &&& result.prefix_caching == config.prefix_caching
                &&& result.cache_type == cache_info.cache_type
                &&& result.cache_manager == cache_manager
                &&& result.cache_loader == cache_loader
                &&& result.cache_metadata@ == (if config.prefix_caching {
                    cache_metadata@
                } else {
                    Seq::<CacheMetadata>::empty()
                })
                &&& result.model_cache_fragmentation == adjusted_fragmentation(
                    config.fragmentation,
                    cache_info.cache_block_size_hint,
                )
                &&& result.model_cache_seq_len_dim == cache_info.cache_seq_len_dim
                &&& result.model_layers_count == cache_info.n_layers
            }),
            result.boundaries_complete(),
            cache_info.cache_block_size_hint > 0 ==> result.wf(),
    {
        let config = match model_cache_config {
            Some(config) => config,
            None => ModelCacheConfig::default(),
        };
        let metadata: Vec<CacheMetadata> = if config.prefix_caching {
            cache_metadata
        } else {
            Vec::new()
        };
        GenerationContext {
            model: String::from_str(model),
            token_ids: Vec::new(),
            active_cache: Vec::new(),
            block_boundary_conv_cache: Vec::new(),
            prefix_caching: config.prefix_caching,
            cache_type: cache_info.cache_type,
            cache_manager,
            cache_loader,
            cache_metadata: metadata,
            model_cache_fragmentation: adjust_fragmentation(
                config.fragmentation,
                cache_info.cache_block_size_hint,
            ),
            model_cache_seq_len_dim: cache_info.cache_seq_len_dim,
            model_layers_count: cache_info.n_layers,
        }
    }

    /// Cuts the memory of the layers to the inputs of the last tokens, layer by layer.
    fn update_active_conv_cache(&mut self, conv_l_cache: usize) -> (result: Result<(), LociError>)
        ensures
            ({
                let layers = layer_views(old(self).active_cache@);
                let dim = old(self).model_cache_seq_len_dim;
                match result {
                    Ok(_) => {
                        &&& forall|i: int|
                            0 <= i < layers.len() ==> can_trim(
                                #[trigger] layers[i],
                                dim,
                                conv_l_cache,
                            )
                        &&& layer_views(final(self).active_cache@) == trimmed_layers(
                            layers,
                            dim,
                            conv_l_cache,
                        )
                    },
                    Err(error) => error@ is Cache && exists|n: int|
                        {
                            &&& 0 <= n < layers.len()
                            &&& forall|i: int|
                                0 <= i < n ==> can_trim(#[trigger] layers[i], dim, conv_l_cache)
                            &&& !can_trim(layers[n], dim, conv_l_cache)
                            &&& layer_views(final(self).active_cache@)
                                == #[trigger] trimmed_until(layers, dim, conv_l_cache, n)
                        },
                }
            }),
            final(self).active_cache@.len() == old(self).active_cache@.len(),
            *final(self) == (GenerationContext {
                active_cache: final(self).active_cache,
                ..*old(self)
            }),
    {
        let ghost start = layer_views(self.active_cache@);
        let ghost dim = self.model_cache_seq_len_dim;
        let mut i: usize = 0;
        while i < self.active_cache.len()
            invariant
                i <= self.active_cache@.len(),
                self.active_cache@.len() == start.len(),
                start == layer_views(old(self).active_cache@),
                dim == old(self).model_cache_seq_len_dim,
                *self == (GenerationContext { active_cache: self.active_cache, ..*old(self) }),
                forall|j: int|
                    0 <= j < i ==> can_trim(#[trigger] start[j], dim, conv_l_cache) && layer_view(
                        self.active_cache@[j],
                    ) == trimmed_layer(start[j], dim, conv_l_cache),
                forall|j: int|
                    i <= j < start.len() ==> layer_view(#[trigger] self.active_cache@[j])
                        == start[j],
            decreases self.active_cache.len() - i,
        {
            let ghost before = self.active_cache@;
            assert(layer_view(before[i as int]) == start[i as int]);
            let dim_now: usize = self.model_cache_seq_len_dim;
            let trimmed = trim_layer(&mut self.active_cache[i], dim_now, conv_l_cache);
            assert(forall|j: int|
                0 <= j < start.len() && j != i ==> self.active_cache@[j] == #[trigger] before[j]);
            match trimmed {
                Ok(_) => {},
                Err(error) => {
                    assert(layer_views(self.active_cache@) =~= trimmed_until(
                        start,
                        dim,
                        conv_l_cache,
                        i as int,
                    ));
                    return Err(error);
                },
            }
            i = i + 1;
        }
        assert(layer_views(self.active_cache@) =~= trimmed_layers(start, dim, conv_l_cache));
        Ok(())
    }

    /// The blocks that are complete with new tokens: what is kept at their ends.
    pub open spec fn new_boundaries(&self, input: int) -> Seq<Seq<LayerView>> {
        let block = block_size_of(self.model_cache_fragmentation) as int;
        let stored = self.block_boundary_conv_cache@.len() as int;
        let total = (self.token_ids@.len() + input) / block;
        if self.keeps_boundaries() && stored < total {
            Seq::new(
                (total - stored) as nat,
                |k: int| self.boundary_at(input, stored + k),
            )
        } else {
            seq![]
        }
    }

    /// Where a block ends, counted from the first of the new tokens.
    pub open spec fn block_end(&self, index: int) -> int {
        (index + 1) * block_size_of(self.model_cache_fragmentation) - self.token_ids@.len()
    }

    /// What is kept at the end of a block.
    pub open spec fn boundary_at(&self, input: int, index: int) -> Seq<LayerView> {
        boundary_layers(
            layer_views(self.active_cache@),
            self.model_layers_count,
            self.model_cache_seq_len_dim,
            input,
            self.block_end(index),
            self.cache_type->conv_l_cache,
        )
    }

    /// The memory of a layer reaches over the end of a block, and no inputs are held beyond the
    /// layers that are kept.
    pub open spec fn reaches_block(&self, input: int, index: int, layer: int) -> bool {
        let view = layer_view(self.active_cache@[layer]);
        &&& has_boundary(
            view,
            self.model_cache_seq_len_dim,
            input,
            self.block_end(index),
            self.cache_type->conv_l_cache,
        )
        &&& layer >= self.model_layers_count ==> !(view is Conv)
    }

    /// The memory of a layer holds what is to be kept of it with new tokens.
    pub open spec fn updates_layer(&self, input: int, layer: int) -> bool {
        let block = block_size_of(self.model_cache_fragmentation) as int;
        let stored = self.block_boundary_conv_cache@.len() as int;
        &&& can_trim(
            layer_view(self.active_cache@[layer]),
            self.model_cache_seq_len_dim,
            self.cache_type->conv_l_cache,
        )
        &&& self.keeps_boundaries() ==> forall|index: int|
            stored <= index < (self.token_ids@.len() + input) / block
                ==> #[trigger] self.reaches_block(input, index, layer)
    }

    /// The memory holds what is to be kept of it with new tokens.
    pub open spec fn can_update(&self, input: int) -> bool {
        self.cache_type is MixedWithConv ==> forall|layer: int|
            0 <= layer < self.active_cache@.len() ==> #[trigger] self.updates_layer(input, layer)
    }

    /// `after` is the memory if the layer at an index is the first that does not hold what is to
    /// be kept of it: the layers before it are cut.
    pub open spec fn stops_at(
        &self,
        input: int,
        layer: int,
        after: Seq<Option<MixedCache>>,
    ) -> bool {
        &&& self.cache_type is MixedWithConv
        &&& 0 <= layer < self.active_cache@.len()
        &&& forall|i: int| 0 <= i < layer ==> #[trigger] self.updates_layer(input, i)
        &&& !self.updates_layer(input, layer)
        &&& layer_views(after) == trimmed_until(
            layer_views(self.active_cache@),
            self.model_cache_seq_len_dim,
            self.cache_type->conv_l_cache,
            layer,
        )
    }

    /// The ends of the blocks that are complete with new tokens, counted from the first of those.
    fn block_ends(&self, input_tokens_len: usize) -> (result: Vec<usize>)
        requires
            self.wf(),
            self.boundaries_complete(),
            self.keeps_boundaries(),
            self.token_ids@.len() + input_tokens_len <= usize::MAX,
        ensures
            ({
                let stored = self.block_boundary_conv_cache@.len() as int;
                let total = (self.token_ids@.len() + input_tokens_len) / block_size_of(
                    self.model_cache_fragmentation,
                ) as int;
                &&& result@.len() == less(total, stored)
                &&& forall|k: int|
                    0 <= k < result@.len() ==> #[trigger] result@[k] == self.block_end(stored + k)
                        && result@[k] <= input_tokens_len
            }),
    {
        let block: usize = block_size(&self.model_cache_fragmentation);
        let added: usize = self.token_ids.len();
        let total: usize = added + input_tokens_len;
        let stored: usize = self.block_boundary_conv_cache.len();
        let estimated: usize = total / block;
        let mut ends: Vec<usize> = Vec::new();
        let mut count: usize = stored;
        while count < estimated
            invariant
                stored <= count,
                count <= estimated || count == stored,
                self.wf(),
                self.boundaries_complete(),
                self.keeps_boundaries(),
                block == block_size_of(self.model_cache_fragmentation),
                block > 0,
                added == self.token_ids@.len(),
                total == added + input_tokens_len,
                stored == self.block_boundary_conv_cache@.len(),
                estimated == total / block,
                ends@.len() == count - stored,
                forall|k: int|
                    0 <= k < ends@.len() ==> #[trigger] ends@[k] == self.block_end(stored + k)
                        && ends@[k] <= input_tokens_len,
            decreases estimated - count,
        {
            proof {
                assert((count + 1) * block <= total) by (nonlinear_arith)
                    requires
                        count + 1 <= total / block,
                        block > 0,
                ;
                assert((count + 1) * block >= added) by (nonlinear_arith)
                    requires
                        count >= added / block,
                        block > 0,
                ;
            }
            ends.push((count + 1) * block - added);
            count = count + 1;
        }
        ends
    }

    /// Keeps what is to be kept of the memory with new tokens, layer by layer: the inputs of the
    /// last tokens of the blocks that are complete with them, and those of the last tokens.
    fn update_blocks(
        &mut self,
        input_tokens_len: usize,
        conv_l_cache: usize,
        ends: &Vec<usize>,
    ) -> (result: Result<(), LociError>)
        requires
            old(self).keeps_boundaries(),
            old(self).cache_type == (ModelCacheType::MixedWithConv { conv_l_cache }),
            ends@.len() > 0,
            ends@.len() == (old(self).token_ids@.len() + input_tokens_len) / block_size_of(
                old(self).model_cache_fragmentation,
            ) as int - old(self).block_boundary_conv_cache@.len(),
            forall|k: int|
                0 <= k < ends@.len() ==> #[trigger] ends@[k] == old(self).block_end(
                    old(self).block_boundary_conv_cache@.len() + k,
                ) && ends@[k] <= input_tokens_len,
        ensures
            match result {
                Ok(_) => {
                    &&& old(self).can_update(input_tokens_len as int)
                    &&& layer_views(final(self).active_cache@) == trimmed_layers(
                        layer_views(old(self).active_cache@),
                        old(self).model_cache_seq_len_dim,
                        conv_l_cache,
                    )
                    &&& block_views(final(self).block_boundary_conv_cache@) == block_views(
                        old(self).block_boundary_conv_cache@,
                    ) + old(self).new_boundaries(input_tokens_len as int)
                },
                Err(error) => {
                    &&& error@ is Cache
                    &&& exists|n: int| #[trigger]
                        old(self).stops_at(input_tokens_len as int, n, final(self).active_cache@)
                    &&& final(self).block_boundary_conv_cache == old(
                        self,
                    ).block_boundary_conv_cache
                },
            },
            final(self).active_cache@.len() == old(self).active_cache@.len(),
            *final(self) == (GenerationContext {
                active_cache: final(self).active_cache,
                block_boundary_conv_cache: final(self).block_boundary_conv_cache,
                ..*old(self)
            }),
    {
        let ghost context = *self;
        let ghost start = layer_views(self.active_cache@);
        let ghost input = input_tokens_len as int;
        let ghost stored = self.block_boundary_conv_cache@.len() as int;
        let dim: usize = self.model_cache_seq_len_dim;
        let count: usize = self.model_layers_count;
        let mut blocks = empty_blocks(ends.len(), count);
        let mut i: usize = 0;
        while i < self.active_cache.len()
            invariant
                i <= self.active_cache@.len() == start.len(),
                context == *old(self),
                context.keeps_boundaries(),
                context.cache_type == (ModelCacheType::MixedWithConv { conv_l_cache }),
                start == layer_views(context.active_cache@),
                input == input_tokens_len,
                stored == context.block_boundary_conv_cache@.len(),
                dim == context.model_cache_seq_len_dim,
                count == context.model_layers_count,
                *self == (GenerationContext { active_cache: self.active_cache, ..context }),
                ends@.len() > 0,
                ends@.len() == (context.token_ids@.len() + input) / block_size_of(
                    context.model_cache_fragmentation,
                ) as int - stored,
                forall|k: int|
                    0 <= k < ends@.len() ==> #[trigger] ends@[k] == context.block_end(stored + k)
                        && ends@[k] <= input_tokens_len,
                blocks@.len() == ends@.len(),
                forall|b: int|
                    0 <= b < blocks@.len() ==> (#[trigger] blocks@[b])@.len() == count,
                forall|b: int, j: int|
                    0 <= b < blocks@.len() && 0 <= j < count ==> layer_view(
                        #[trigger] blocks@[b]@[j],
                    ) == (if j < i {
                        boundary_layer(start[j], dim, input, ends@[b] as int, conv_l_cache)
                    } else {
                        LayerView::Empty
                    }),
                forall|j: int| 0 <= j < i ==> #[trigger] context.updates_layer(input, j),
                forall|j: int|
                    0 <= j < i ==> layer_view(#[trigger] self.active_cache@[j]) == trimmed_layer(
                        start[j],
                        dim,
                        conv_l_cache,
                    ),
                forall|j: int|
                    i <= j < start.len() ==> layer_view(#[trigger] self.active_cache@[j])
                        == start[j],
            decreases self.active_cache.len() - i,
        {
            let ghost before = self.active_cache@;
            let ghost rows = blocks@;
            let ghost layer = start[i as int];
            assert(layer == layer_view(context.active_cache@[i as int]));
            assert(layer_view(before[i as int]) == layer);
            assert(layer_views(before) =~= trimmed_until(start, dim, conv_l_cache, i as int));
            let column = match layer_boundaries(
                &self.active_cache[i],
                dim,
                input_tokens_len,
                ends,
                conv_l_cache,
            ) {
                Ok(column) => column,
                Err(error) => {
                    proof {
                        let k = choose|k: int|
                            0 <= k < ends@.len() && !has_boundary(
                                layer,
                                dim,
                                input,
                                #[trigger] ends@[k] as int,
                                conv_l_cache,
                            );
                        assert(!context.reaches_block(input, stored + k, i as int));
                        assert(context.stops_at(input, i as int, self.active_cache@));
                    }
                    return Err(error);
                },
            };
            let is_conv = match &self.active_cache[i] {
                Some(MixedCache::ConvCache(_)) => true,
                _ => false,
            };
            if i < count {
                keep_column(&mut blocks, i, column);
            } else if is_conv {
                let mut message = String::from_str("layer ");
                push_dec(&mut message, i as u64);
                message.append(" is out of range");
                assert(!context.reaches_block(input, stored, i as int));
                assert(context.stops_at(input, i as int, self.active_cache@));
                return Err(LociError::Cache(message));
            }
            assert forall|index: int|
                stored <= index < stored + ends@.len() implies #[trigger] context.reaches_block(
                input,
                index,
                i as int,
            ) by {
                assert(ends@[index - stored] == context.block_end(index));
            }
            let trimmed = trim_layer(&mut self.active_cache[i], dim, conv_l_cache);
            assert(forall|j: int|
                0 <= j < start.len() && j != i ==> self.active_cache@[j] == #[trigger] before[j]);
            match trimmed {
                Ok(_) => {},
                Err(error) => {
                    assert(layer_views(self.active_cache@) =~= layer_views(before));
                    assert(context.stops_at(input, i as int, self.active_cache@));
                    return Err(error);
                },
            }
            assert(context.updates_layer(input, i as int));
            assert forall|b: int, j: int| 0 <= b < blocks@.len() && 0 <= j < count implies layer_view(
                #[trigger] blocks@[b]@[j],
            ) == (if j < i + 1 {
                boundary_layer(start[j], dim, input, ends@[b] as int, conv_l_cache)
            } else {
                LayerView::Empty
            }) by {
                assert(rows[b]@.len() == count);
                assert(layer_view(rows[b]@[j]) == (if j < i {
                    boundary_layer(start[j], dim, input, ends@[b] as int, conv_l_cache)
                } else {
                    LayerView::Empty
                }));
                if i < count {
                    assert(blocks@[b]@ == rows[b]@.update(i as int, column@[b]));
                    assert(ends@[b] <= input_tokens_len);
                }
            }
            i = i + 1;
        }
        proof {
            assert forall|b: int| 0 <= b < blocks@.len() implies layer_views(
                (#[trigger] blocks@[b])@,
            ) =~= context.boundary_at(input, stored + b) by {
                assert(ends@[b] == context.block_end(stored + b));
            }
            assert(block_views(blocks@) =~= context.new_boundaries(input));
            assert(layer_views(self.active_cache@) =~= trimmed_layers(start, dim, conv_l_cache));
        }
        let ghost new_views = block_views(blocks@);
        self.block_boundary_conv_cache.append(&mut blocks);
        assert(block_views(self.block_boundary_conv_cache@) =~= block_views(
            context.block_boundary_conv_cache@,
        ) + new_views);
        Ok(())
    }

    /// Keeps what is to be kept of the memory with new tokens: the inputs of the last tokens, and
    /// at the ends of the blocks that are complete with them.
    fn update_conv_cache(&mut self, input_tokens_len: usize, conv_l_cache: usize) -> (result:
        Result<(), LociError>)
        requires
            old(self).wf(),
            old(self).boundaries_complete(),
            old(self).active_cache@.len() > 0,
            old(self).cache_type == (ModelCacheType::MixedWithConv { conv_l_cache }),
            old(self).token_ids@.len() + input_tokens_len <= usize::MAX,
        ensures
            match result {
                Ok(_) => {
                    &&& old(self).can_update(input_tokens_len as int)
                    &&& layer_views(final(self).active_cache@) == trimmed_layers(
                        layer_views(old(self).active_cache@),
                        old(self).model_cache_seq_len_dim,
                        conv_l_cache,
                    )
                    &&& block_views(final(self).block_boundary_conv_cache@) == block_views(
                        old(self).block_boundary_conv_cache@,
                    ) + old(self).new_boundaries(input_tokens_len as int)
                },
                Err(error) => {
                    &&& error@ is Cache
                    &&& exists|n: int| #[trigger]
                        old(self).stops_at(input_tokens_len as int, n, final(self).active_cache@)
                    &&& final(self).block_boundary_conv_cache == old(
                        self,
                    ).block_boundary_conv_cache
                },
            },
            final(self).active_cache@.len() == old(self).active_cache@.len(),
            *final(self) == (GenerationContext {
                active_cache: final(self).active_cache,
                block_boundary_conv_cache: final(self).block_boundary_conv_cache,
                ..*old(self)
            }),
    {
        let is_block_wise = match self.model_cache_fragmentation {
            ModelCacheFragmentation::BlockWise { .. } => true,
            ModelCacheFragmentation::TokenWise => false,
        };
        if self.prefix_caching && is_block_wise {
            let ends = self.block_ends(input_tokens_len);
            if ends.len() > 0 {
                return self.update_blocks(input_tokens_len, conv_l_cache, &ends);
            }
        }
        let ghost context = *self;
        let ghost input = input_tokens_len as int;
        let ghost layers = layer_views(self.active_cache@);
        assert(forall|i: int|
            0 <= i < layers.len() ==> (context.updates_layer(input, i) <==> can_trim(
                #[trigger] layers[i],
                context.model_cache_seq_len_dim,
                conv_l_cache,
            )));
        let result = self.update_active_conv_cache(conv_l_cache);
        proof {
            if result is Err {
                let n = choose|n: int|
                    {
                        &&& 0 <= n < layers.len()
                        &&& forall|i: int|
                            0 <= i < n ==> can_trim(
                                #[trigger] layers[i],
                                context.model_cache_seq_len_dim,
                                conv_l_cache,
                            )
                        &&& !can_trim(layers[n], context.model_cache_seq_len_dim, conv_l_cache)
                        &&& layer_views(self.active_cache@) == #[trigger] trimmed_until(
                            layers,
                            context.model_cache_seq_len_dim,
                            conv_l_cache,
                            n,
                        )
                    };
                assert forall|i: int| 0 <= i < n implies #[trigger] context.updates_layer(
                    input,
                    i,
                ) by {
                    assert(can_trim(layers[i], context.model_cache_seq_len_dim, conv_l_cache));
                }
                assert(context.stops_at(input, n, self.active_cache@));
            } else {
                assert forall|i: int|
                    0 <= i < layers.len() implies #[trigger] context.updates_layer(input, i) by {
                    assert(can_trim(layers[i], context.model_cache_seq_len_dim, conv_l_cache));
                }
            }
        }
        assert(block_views(context.block_boundary_conv_cache@) + context.new_boundaries(input)
            =~= block_views(context.block_boundary_conv_cache@));
        result
    }

    /// What the conversation is after the model has read `tokens`.
    pub open spec fn updates_to(&self, tokens: Seq<u32>, after: Self) -> bool {
        &&& after.token_ids@ == self.token_ids@ + tokens
        &&& self.active_cache@.len() > 0 ==> self.can_update(tokens.len() as int)
        &&& layer_views(after.active_cache@) == (match self.cache_type {
            ModelCacheType::MixedWithConv { conv_l_cache } => trimmed_layers(
                layer_views(self.active_cache@),
                self.model_cache_seq_len_dim,
                conv_l_cache,
            ),
            ModelCacheType::FullAttn => layer_views(self.active_cache@),
        })
        &&& block_views(after.block_boundary_conv_cache@) == block_views(
            self.block_boundary_conv_cache@,
        ) + self.new_boundaries(tokens.len() as int)
        &&& after == (GenerationContext {
            token_ids: after.token_ids,
            active_cache: after.active_cache,
            block_boundary_conv_cache: after.block_boundary_conv_cache,
            ..*self
        })
    }

    /// Takes note of tokens that the model has read.
    pub fn update(&mut self, input_tokens: Vec<u32>) -> (result: Result<(), LociError>)
        requires
            old(self).wf(),
            old(self).boundaries_complete(),
            old(self).token_ids@.len() + input_tokens@.len() <= usize::MAX,
        ensures
            match result {
                Ok(_) => old(self).updates_to(input_tokens@, *final(self)),
                Err(error) => {
                    &&& error@ is Cache
                    &&& exists|n: int| #[trigger]
                        old(self).stops_at(input_tokens@.len() as int, n, final(self).active_cache@)
                    &&& final(self).token_ids == old(self).token_ids
                    &&& final(self).block_boundary_conv_cache == old(
                        self,
                    ).block_boundary_conv_cache
                },
            },
            final(self).wf(),
            final(self).boundaries_complete(),
            final(self).active_cache@.len() == old(self).active_cache@.len(),
            *final(self) == (GenerationContext {
                token_ids: final(self).token_ids,
                active_cache: final(self).active_cache,
                block_boundary_conv_cache: final(self).block_boundary_conv_cache,
                ..*old(self)
            }),
    {
        let n: usize = input_tokens.len();
        if self.active_cache.len() > 0 {
            match self.cache_type {
                ModelCacheType::MixedWithConv { conv_l_cache } => {
                    match self.update_conv_cache(n, conv_l_cache) {
                        Ok(_) => {},
                        Err(error) => {
                            return Err(error);
                        },
                    }
                },
                ModelCacheType::FullAttn => {},
            }
        }
        let ghost middle = *self;
        let mut tokens = input_tokens;
        self.token_ids.append(&mut tokens);
        proof {
            assert(self.token_ids@ =~= old(self).token_ids@ + input_tokens@);
            let before = old(self);
            let old_blocks = block_views(before.block_boundary_conv_cache@);
            let new = before.new_boundaries(n as int);
            assert(layer_views(middle.active_cache@).len() == middle.active_cache@.len());
            if before.active_cache@.len() == 0 {
                assert(layer_views(before.active_cache@) =~= Seq::<LayerView>::empty());
                if let ModelCacheType::MixedWithConv { conv_l_cache } = before.cache_type {
                    assert(trimmed_layers(
                        layer_views(before.active_cache@),
                        before.model_cache_seq_len_dim,
                        conv_l_cache,
                    ) =~= Seq::<LayerView>::empty());
                }
            }
            if !before.keeps_boundaries() {
                assert(old_blocks + new =~= old_blocks);
            }
            assert(block_views(self.block_boundary_conv_cache@).len()
                == self.block_boundary_conv_cache@.len());
        }
        Ok(())
    }
}

/// What is kept of each layer at the end of the last block of a length, if there is a block.
pub open spec fn last_boundary(
    blocks: Seq<Vec<Option<MixedCache>>>,
    count: int,
    layer: int,
) -> Option<LayerView> {
    if count > 0 {
        Some(
            if count <= blocks.len() {
                kept_at(blocks[count - 1]@, layer)
            } else {
                LayerView::Empty
            },
        )
    } else {
        None
    }
}

impl<M: ModelCacheManagerInterface, L: CacheLoader> GenerationContext<M, L> {
    /// The memory of the layers cut to the whole blocks of a length.
    pub open spec fn narrowed_layers(&self, matched: usize) -> Seq<LayerView> {
        let len = whole_blocks(
            matched as int,
            block_size_of(self.model_cache_fragmentation) as int,
        ) as usize;
        let count = block_count(self.model_cache_fragmentation, matched);
        Seq::new(
            self.active_cache@.len(),
            |i: int|
                narrowed_layer(
                    layer_view(self.active_cache@[i]),
                    last_boundary(self.block_boundary_conv_cache@, count, i),
                    self.model_cache_seq_len_dim,
                    len,
                ),
        )
    }

    /// The memory of the layers can be cut to the whole blocks of a length.
    pub open spec fn can_narrow_to(&self, matched: usize) -> bool {
        let len = whole_blocks(
            matched as int,
            block_size_of(self.model_cache_fragmentation) as int,
        ) as usize;
        let count = block_count(self.model_cache_fragmentation, matched);
        forall|i: int|
            0 <= i < self.active_cache@.len() ==> can_narrow_layer(
                layer_view(#[trigger] self.active_cache@[i]),
                last_boundary(self.block_boundary_conv_cache@, count, i),
                self.model_cache_seq_len_dim,
                len,
            )
    }

    /// What the conversation is after its memory was cut to the whole blocks of a length.
    pub open spec fn narrows_to(&self, matched: usize, after: Self) -> bool {
        let len = whole_blocks(
            matched as int,
            block_size_of(self.model_cache_fragmentation) as int,
        );
        let count = block_count(self.model_cache_fragmentation, matched);
        &&& self.can_narrow_to(matched)
        &&& after.token_ids@ == (if len < self.token_ids@.len() {
            self.token_ids@.take(len)
        } else {
            self.token_ids@
        })
        &&& layer_views(after.active_cache@) == self.narrowed_layers(matched)
        &&& after.block_boundary_conv_cache@ == (if 0 < count
            < self.block_boundary_conv_cache@.len() {
            self.block_boundary_conv_cache@.take(count)
        } else {
            self.block_boundary_conv_cache@
        })
        &&& after == (GenerationContext {
            token_ids: after.token_ids,
            active_cache: after.active_cache,
            block_boundary_conv_cache: after.block_boundary_conv_cache,
            ..*self
        })
    }

    /// Cuts the memory to the whole blocks of a length and gives that length. What was not kept
    /// at the end of the last block cannot be had any more.
    pub fn narrow_active_cache(&mut self, matched_cache_length: usize) -> (result: Result<
        usize,
        LociError,
    >)
        requires
            old(self).wf(),
        ensures
            match result {
                Ok(len) => {
                    &&& len == whole_blocks(
                        matched_cache_length as int,
                        block_size_of(old(self).model_cache_fragmentation) as int,
                    )
                    &&& old(self).narrows_to(matched_cache_length, *final(self))
                },
                Err(error) => {
                    &&& !old(self).can_narrow_to(matched_cache_length)
                    &&& error@ is Cache || error@ is CacheLoad
                    &&& final(self).active_cache@.len() == old(self).active_cache@.len()
                    &&& *final(self) == (GenerationContext {
                        active_cache: final(self).active_cache,
                        ..*old(self)
                    })
                },
            },
            final(self).wf(),
            old(self).boundaries_complete() ==> final(self).boundaries_complete(),
    {
        let block: usize = block_size(&self.model_cache_fragmentation);
        let len: usize = in_whole_blocks(matched_cache_length, block);
        let count: usize = match self.model_cache_fragmentation {
            ModelCacheFragmentation::BlockWise { block_size } => matched_cache_length / block_size,
            ModelCacheFragmentation::TokenWise => 0,
        };
        let dim: usize = self.model_cache_seq_len_dim;
        let empty_block: Vec<Option<MixedCache>> = Vec::new();
        let ghost start = self.active_cache@;
        let ghost blocks = self.block_boundary_conv_cache@;
        let mut i: usize = 0;
        while i < self.active_cache.len()
            invariant
                i <= self.active_cache@.len(),
                self.active_cache@.len() == start.len(),
                start == old(self).active_cache@,
                blocks == old(self).block_boundary_conv_cache@,
                dim == old(self).model_cache_seq_len_dim,
                len == whole_blocks(
                    matched_cache_length as int,
                    block_size_of(old(self).model_cache_fragmentation) as int,
                ),
                count == block_count(old(self).model_cache_fragmentation, matched_cache_length),
                empty_block@.len() == 0,
                old(self).wf(),
                *self == (GenerationContext { active_cache: self.active_cache, ..*old(self) }),
                forall|j: int|
                    0 <= j < i ==> can_narrow_layer(
                        layer_view(#[trigger] start[j]),
                        last_boundary(blocks, count as int, j),
                        dim,
                        len,
                    ) && layer_view(self.active_cache@[j]) == narrowed_layer(
                        layer_view(start[j]),
                        last_boundary(blocks, count as int, j),
                        dim,
                        len,
                    ),
                forall|j: int| i <= j < start.len() ==> #[trigger] self.active_cache@[j] == start[j],
            decreases self.active_cache.len() - i,
        {
            let ghost before = self.active_cache@;
            assert(before[i as int] == start[i as int]);
            let last_block = if count == 0 {
                None
            } else if count <= self.block_boundary_conv_cache.len() {
                Some(&self.block_boundary_conv_cache[count - 1])
            } else {
                Some(&empty_block)
            };
            match narrow_layer(&mut self.active_cache[i], last_block, i, dim, len) {
                Ok(_) => {},
                Err(error) => {
                    assert(!can_narrow_layer(
                        layer_view(old(self).active_cache@[i as int]),
                        last_boundary(blocks, count as int, i as int),
                        dim,
                        len,
                    ));
                    return Err(error);
                },
            }
            assert(forall|j: int|
                0 <= j < start.len() && j != i ==> self.active_cache@[j] == #[trigger] before[j]);
            i = i + 1;
        }
        assert(layer_views(self.active_cache@) =~= old(self).narrowed_layers(
            matched_cache_length,
        ));
        if count > 0 {
            self.block_boundary_conv_cache.truncate(count);
        }
        self.token_ids.truncate(len);
        assert(self.token_ids@ =~= if len < old(self).token_ids@.len() {
            old(self).token_ids@.take(len as int)
        } else {
            old(self).token_ids@
        });
        assert(self.block_boundary_conv_cache@ =~= if 0 < count < blocks.len() {
            blocks.take(count as int)
        } else {
            blocks
        });
        proof {
            law_whole_blocks(matched_cache_length as int, block as int);
            let n = old(self).token_ids@.len() as int;
            let m = self.token_ids@.len() as int;
            if self.keeps_boundaries() && old(self).boundaries_complete() {
                vstd::arithmetic::div_mod::lemma_div_is_ordered(m, n, block as int);
                if count > 0 {
                    vstd::arithmetic::div_mod::lemma_div_is_ordered(
                        m,
                        matched_cache_length as int,
                        block as int,
                    );
                }
            }
        }
        Ok(len)
    }

    /// The memory is long enough to be kept.
    pub open spec fn worth_saving(&self) -> bool {
        &&& self.prefix_caching
        &&& self.token_ids@.len() >= self.cache_manager.min_tokens()
        &&& whole_blocks(
            self.token_ids@.len() as int,
            block_size_of(self.model_cache_fragmentation) as int,
        ) >= self.cache_manager.min_tokens()
    }

    /// The prefix that the memory is kept as, at a path.
    pub open spec fn kept_as(&self, prefix: CacheMetadata, path: String) -> bool {
        &&& prefix.model@ == self.model@
        &&& prefix.token_ids@ == self.token_ids@
        &&& prefix.cache_file_path == path
    }

    /// The cached prefixes after the keeper was asked to keep the memory and answered `answer`:
    /// the memory is the last of them, and the limits are enforced on them.
    pub open spec fn prefixes_after(
        &self,
        answer: Result<String, LociError>,
        after: Seq<CacheMetadata>,
    ) -> bool {
        match answer {
            Ok(path) => exists|prefix: CacheMetadata, limited: Result<(), LociError>|
                self.kept_as(prefix, path) && #[trigger] self.cache_manager.limits(
                    self.cache_metadata@.push(prefix),
                    limited,
                    after,
                ),
            Err(_) => after == self.cache_metadata@,
        }
    }

    /// `answer` is a possible answer of the keeper to the memory.
    pub open spec fn keeper_answers(&self, answer: Result<String, LociError>) -> bool {
        self.cache_manager.saves(
            self.token_ids@,
            self.active_cache@,
            self.model_cache_seq_len_dim,
            self.model_cache_fragmentation,
            self.block_boundary_conv_cache@,
            answer,
        )
    }

    /// What the conversation is after its memory was kept for later, if it is long enough: the
    /// same but for the cached prefixes that it can fall back on.
    pub open spec fn saved_to(&self, after: Self) -> bool {
        &&& after == (GenerationContext { cache_metadata: after.cache_metadata, ..*self })
        &&& if self.worth_saving() {
            exists|answer: Result<String, LociError>| #[trigger]
                self.keeper_answers(answer) && self.prefixes_after(answer, after.cache_metadata@)
        } else {
            after.cache_metadata == self.cache_metadata
        }
    }

    /// Keeps the memory for later, if it is long enough. A keeper that fails changes nothing of
    /// the conversation.
    pub fn save_active_cache(&mut self)
        requires
            old(self).wf(),
        ensures
            old(self).saved_to(*final(self)),
            !old(self).worth_saving() ==> *final(self) == *old(self),
    {
        let min_tokens: usize = self.cache_manager.min_cache_tokens();
        let n: usize = self.token_ids.len();
        if !self.prefix_caching || n < min_tokens {
            return ;
        }
        if in_whole_blocks(n, block_size(&self.model_cache_fragmentation)) < min_tokens {
            return ;
        }
        let answer = self.cache_manager.save_cache(
            &self.token_ids,
            &self.active_cache,
            self.model_cache_seq_len_dim,
            &self.model_cache_fragmentation,
            &self.block_boundary_conv_cache,
        );
        assert(old(self).keeper_answers(answer));
        let ghost answered = answer;
        match answer {
            Ok(cache_file_path) => {
                let prefix = saved_prefix(self.model.as_str(), &self.token_ids, cache_file_path);
                assert(old(self).kept_as(prefix, cache_file_path));
                self.cache_metadata.push(prefix);
                let _ = self.cache_manager.enforce_limits(&mut self.cache_metadata);
            },
            Err(_) => {},
        }
        assert(old(self).prefixes_after(answered, self.cache_metadata@));
    }

    /// The conversation with a new memory that holds nothing.
    pub open spec fn renewed(&self, new_cache: Vec<Option<MixedCache>>, after: Self) -> bool {
        &&& after.token_ids@ == Seq::<u32>::empty()
        &&& after.active_cache == new_cache
        &&& after.block_boundary_conv_cache@ == Seq::<Vec<Option<MixedCache>>>::empty()
        &&& after == (GenerationContext {
            token_ids: after.token_ids,
            active_cache: after.active_cache,
            block_boundary_conv_cache: after.block_boundary_conv_cache,
            ..*self
        })
    }

    /// What the conversation is after it was begun anew.
    pub open spec fn resets_to(
        &self,
        new_cache: Vec<Option<MixedCache>>,
        with_save: bool,
        after: Self,
    ) -> bool {
        exists|middle: Self| #[trigger]
            middle.renewed(new_cache, after) && if with_save {
                self.saved_to(middle)
            } else {
                middle == *self
            }
    }

    /// Begins anew with a memory; what there was is kept for later if `with_save` says so.
    pub fn reset_active_cache(&mut self, new_cache: Vec<Option<MixedCache>>, with_save: bool)
        requires
            old(self).wf(),
        ensures
            old(self).resets_to(new_cache, with_save, *final(self)),
            final(self).wf(),
            final(self).boundaries_complete(),
    {
        if with_save {
            self.save_active_cache();
        }
        let ghost middle = *self;
        self.token_ids.clear();
        self.active_cache = new_cache;
        self.block_boundary_conv_cache.clear();
        assert(middle.renewed(new_cache, *self));
    }

    /// The plan for a prompt.
    pub open spec fn plan_for(&self, prompt: Seq<u32>, min_prefill: usize) -> MatchPlan {
        planned(
            self.prefix_caching,
            self.token_ids@,
            self.cache_metadata@,
            self.model@,
            prompt,
            min_prefill,
            self.cache_manager.min_tokens(),
        )
    }

    /// What the conversation is after a cached prefix was asked for and `loaded` came: it goes on
    /// with the memory that came, if any did, and keeps its own for later.
    pub open spec fn takes_loaded(
        &self,
        prompt: Seq<u32>,
        loaded: Result<LoadedMixedCache, String>,
        result: Result<usize, LociError>,
        after: Self,
    ) -> bool {
        match loaded {
            Ok(memory) => {
                &&& result == Ok::<usize, LociError>(memory.cached_token_length)
                &&& exists|middle: Self| #[trigger]
                    self.saved_to(middle) && after == (GenerationContext {
                        token_ids: after.token_ids,
                        active_cache: memory.mixed_cache,
                        block_boundary_conv_cache: memory.block_boundary_conv_cache,
                        ..middle
                    })
                &&& after.token_ids@ == prompt.take(memory.cached_token_length as int)
            },
            Err(_) => result == Ok::<usize, LociError>(0) && after == *self,
        }
    }

    /// `loaded` is a possible answer to the request for a cached prefix, and as long as the whole
    /// blocks that were asked for.
    pub open spec fn loader_answers(
        &self,
        index: int,
        len: usize,
        place: Place,
        loaded: Result<LoadedMixedCache, String>,
    ) -> bool {
        &&& self.cache_loader.loads(
            self.cache_metadata@[index].cache_file_path@,
            len,
            self.model_cache_fragmentation,
            self.model_cache_seq_len_dim,
            place,
            loaded,
        )
        &&& loaded matches Ok(memory) ==> {
            &&& memory.cached_token_length == whole_blocks(
                len as int,
                block_size_of(self.model_cache_fragmentation) as int,
            )
            &&& memory.block_boundary_conv_cache@.len() == block_count(
                self.model_cache_fragmentation,
                len,
            )
        }
    }

    /// `result` and `after` are what a plan leads to.
    pub open spec fn matches_as_planned(
        &self,
        prompt: Seq<u32>,
        plan: MatchPlan,
        place: Place,
        result: Result<usize, LociError>,
        after: Self,
    ) -> bool {
        let block = block_size_of(self.model_cache_fragmentation) as int;
        match plan {
            MatchPlan::Nothing => result == Ok::<usize, LociError>(0) && after == *self,
            MatchPlan::Keep { len } => result == Ok::<usize, LociError>(len) && after == *self,
            MatchPlan::Narrow { len } => match result {
                Ok(n) => n == whole_blocks(len as int, block) && self.narrows_to(len, after),
                Err(_) => !self.can_narrow_to(len),
            },
            MatchPlan::SaveAndNarrow { len } => match result {
                Ok(n) => {
                    &&& n == whole_blocks(len as int, block)
                    &&& exists|middle: Self| #[trigger]
                        self.saved_to(middle) && middle.narrows_to(len, after)
                },
                Err(_) => !self.can_narrow_to(len),
            },
            MatchPlan::Load { index, len } => exists|loaded: Result<LoadedMixedCache, String>|
                #[trigger] self.loader_answers(index as int, len, place, loaded)
                    && self.takes_loaded(prompt, loaded, result, after),
        }
    }

    /// Looks for a memory of the beginning of a prompt, in what the conversation has computed and
    /// in the cached prefixes, and takes it over. Gives the number of tokens that the model need
    /// not read again.
    pub fn match_cache(
        &mut self,
        prompt_token_ids: &[u32],
        min_prefill_tokens: usize,
        device: &candle_core::Device,
        conv_on_cpu: bool,
    ) -> (result: Result<usize, LociError>)
        requires
            old(self).wf(),
        ensures
            old(self).matches_as_planned(
                prompt_token_ids@,
                old(self).plan_for(prompt_token_ids@, min_prefill_tokens),
                (Place { device: *device, conv_on_cpu }),
                result,
                *final(self),
            ),
            final(self).wf(),
            old(self).boundaries_complete() ==> final(self).boundaries_complete(),
    {
        let min_tokens: usize = self.cache_manager.min_cache_tokens();
        let prompt_len: usize = prompt_token_ids.len();
        let prefix_count: usize = self.cache_metadata.len();
        let plan = plan_match(
            self.prefix_caching,
            &self.token_ids,
            &self.cache_metadata,
            self.model.as_str(),
            prompt_token_ids,
            min_prefill_tokens,
            min_tokens,
        );
        match plan {
            MatchPlan::Nothing => Ok(0),
            MatchPlan::Keep { len } => Ok(len),
            MatchPlan::Narrow { len } => self.narrow_active_cache(len),
            MatchPlan::SaveAndNarrow { len } => {
                self.save_active_cache();
                let ghost middle = *self;
                assert(old(self).saved_to(middle));
                let result = self.narrow_active_cache(len);
                assert(middle.can_narrow_to(len) == old(self).can_narrow_to(len));
                result
            },
            MatchPlan::Load { index, len } => {
                proof {
                    law_plan_is_sound(
                        self.token_ids@,
                        self.cache_metadata@,
                        self.model@,
                        prompt_token_ids@,
                        min_prefill_tokens,
                        min_tokens,
                    );
                    law_common_prefix(
                        self.cache_metadata@[index as int].token_ids@,
                        prompt_token_ids@,
                    );
                }
                let loaded = self.cache_loader.load_mixed_cache(
                    self.cache_metadata[index].cache_file_path.as_str(),
                    len,
                    &self.model_cache_fragmentation,
                    self.model_cache_seq_len_dim,
                    device,
                    conv_on_cpu,
                );
                let ghost place = Place { device: *device, conv_on_cpu };
                assert(old(self).loader_answers(index as int, len, place, loaded));
                let ghost answer = loaded;
                match loaded {
                    Ok(loaded) => {
                        self.save_active_cache();
                        assert(old(self).saved_to(*self));
                        let n: usize = loaded.cached_token_length;
                        let ghost block = block_size_of(
                            self.model_cache_fragmentation,
                        ) as int;
                        proof {
                            law_whole_blocks(len as int, block);
                        }
                        self.token_ids = vstd::slice::slice_to_vec(
                            vstd::slice::slice_subrange(prompt_token_ids, 0, n),
                        );
                        assert(self.token_ids@ =~= prompt_token_ids@.take(n as int));
                        self.active_cache = loaded.mixed_cache;
                        self.block_boundary_conv_cache = loaded.block_boundary_conv_cache;
                        proof {
                            if self.model_cache_fragmentation is BlockWise {
                                vstd::arithmetic::div_mod::lemma_div_multiples_vanish(
                                    len as int / block,
                                    block,
                                );
                                vstd::arithmetic::mul::lemma_mul_is_commutative(
                                    len as int / block,
                                    block,
                                );
                            }
                        }
                        assert(old(self).takes_loaded(prompt_token_ids@, answer, Ok(n), *self));
                        Ok(n)
                    },
                    Err(_) => {
                        assert(old(self).takes_loaded(prompt_token_ids@, answer, Ok(0), *self));
                        Ok(0)
                    },
                }
            },
        }
    }
}

fn saved_prefix(model: &str, token_ids: &Vec<u32>, cache_file_path: String) -> (result:
    CacheMetadata)
    ensures
        result.model@ == model@,
        result.token_ids@ == token_ids@,
        result.cache_file_path == cache_file_path,
{
    CacheMetadata {
        model: String::from_str(model),
        token_ids: vstd::slice::slice_to_vec(token_ids.as_slice()),
        cache_file_path,
    }
}

/// When tokens of a prompt are found in the memory, the conversation goes on with exactly those
/// tokens, and the model is left the tokens that it has to read itself.
pub proof fn law_match_takes_over_prefix<M: ModelCacheManagerInterface, L: CacheLoader>(
    before: GenerationContext<M, L>,
    prompt: Seq<u32>,
    min_prefill: usize,
    place: Place,
    found: usize,
    after: GenerationContext<M, L>,
)
    requires
        before.wf(),
        prompt.len() <= usize::MAX,
        before.cache_metadata@.len() <= usize::MAX,
        before.matches_as_planned(
            prompt,
            before.plan_for(prompt, min_prefill),
            place,
            Ok(found),
            after,
        ),
    ensures
        found <= most_cached(prompt, min_prefill),
        found > 0 ==> after.token_ids@ == prompt.take(found as int),
{
    if before.prefix_caching {
        law_plan_is_sound(
            before.token_ids@,
            before.cache_metadata@,
            before.model@,
            prompt,
            min_prefill,
            before.cache_manager.min_tokens(),
        );
        law_common_prefix(before.token_ids@, prompt);
        let common = common_prefix(before.token_ids@, prompt) as int;
        let block = block_size_of(before.model_cache_fragmentation) as int;
        match before.plan_for(prompt, min_prefill) {
            MatchPlan::Narrow { len } | MatchPlan::SaveAndNarrow { len } => {
                law_whole_blocks(len as int, block);
                assert(before.token_ids@.take(found as int) =~= before.token_ids@.take(
                    common,
                ).take(found as int));
                assert(prompt.take(found as int) =~= prompt.take(common).take(found as int));
                assert(after.token_ids@ =~= before.token_ids@.take(found as int));
            },
            MatchPlan::Load { len, .. } => {
                law_whole_blocks(len as int, block);
            },
            _ => {},
        }
    }
}

} // verus!
