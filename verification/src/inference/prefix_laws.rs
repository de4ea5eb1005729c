//! What holds of the memory of a conversation, however it is read on, cut, kept and found again.
use vstd::prelude::*;

use crate::error::LociError;
use crate::inference::generation_context::{
    adjusted_fragmentation, best_match, boundary_layer, can_narrow_layer, can_trim, common_prefix,
    has_boundary, last_boundary, law_common_prefix, law_plan_is_sound, narrowed_layer, planned,
    trimmed_layer, CacheLoader, GenerationContext, MatchPlan, ModelCacheManagerInterface, Place,
};
use crate::inference::model_cache::{block_size_of, law_whole_blocks, whole_blocks, CacheMetadata};
use crate::model::{block_views, layer_view, layer_views, LayerView};
use crate::tensor::narrowed_view;
use crate::types::ModelCacheFragmentation;

verus! {

/// The inputs that a layer holds right after a number of tokens was read, by that number and the
/// layer.
pub open spec fn inputs_after(
    inputs: spec_fn(int, int) -> LayerView,
    tokens: int,
    layer: int,
) -> LayerView {
    inputs(tokens, layer)
}

/// What is kept at the ends of the blocks are the inputs after the tokens of the blocks.
pub open spec fn blocks_remember<M: ModelCacheManagerInterface, L: CacheLoader>(
    ctx: GenerationContext<M, L>,
    inputs: spec_fn(int, int) -> LayerView,
) -> bool {
    forall|block: int, layer: int|
        0 <= block < ctx.block_boundary_conv_cache@.len() && 0 <= layer < (
        #[trigger] ctx.block_boundary_conv_cache@[block])@.len() && layer_view(
            #[trigger] ctx.block_boundary_conv_cache@[block]@[layer],
        ) is Conv ==> layer_view(ctx.block_boundary_conv_cache@[block]@[layer]) == inputs_after(
            inputs,
            (block + 1) * block_size_of(ctx.model_cache_fragmentation),
            layer,
        )
}

/// The layers that hold inputs hold those after the tokens of the conversation.
pub open spec fn layers_remember<M: ModelCacheManagerInterface, L: CacheLoader>(
    ctx: GenerationContext<M, L>,
    inputs: spec_fn(int, int) -> LayerView,
) -> bool {
    forall|layer: int|
        0 <= layer < ctx.active_cache@.len() && layer_view(#[trigger] ctx.active_cache@[layer]) is Conv
            ==> layer_view(ctx.active_cache@[layer]) == inputs_after(
            inputs,
            ctx.token_ids@.len() as int,
            layer,
        )
}

/// The model has just read `input` tokens more than the conversation holds: the memory of each
/// layer that holds inputs ends in the inputs after each of them.
pub open spec fn just_read<M: ModelCacheManagerInterface, L: CacheLoader>(
    ctx: GenerationContext<M, L>,
    input: int,
    inputs: spec_fn(int, int) -> LayerView,
) -> bool {
    forall|layer: int, end: int|
        0 <= layer < ctx.active_cache@.len() && 0 < end <= input && layer_view(
            ctx.active_cache@[layer],
        ) is Conv && has_boundary(
            layer_view(ctx.active_cache@[layer]),
            ctx.model_cache_seq_len_dim,
            input,
            end,
            ctx.cache_type->conv_l_cache,
        ) ==> #[trigger] boundary_layer(
            layer_view(ctx.active_cache@[layer]),
            ctx.model_cache_seq_len_dim,
            input,
            end,
            ctx.cache_type->conv_l_cache,
        ) == inputs_after(inputs, ctx.token_ids@.len() + end, layer)
}

/// Reading on keeps the memory and the tokens together: the layers hold the inputs after all
/// tokens, and what is kept at the end of each block are the inputs after its last token.
pub proof fn law_reading_remembers<M: ModelCacheManagerInterface, L: CacheLoader>(
    before: GenerationContext<M, L>,
    tokens: Seq<u32>,
    after: GenerationContext<M, L>,
    inputs: spec_fn(int, int) -> LayerView,
)
    requires
        before.wf(),
        before.boundaries_complete(),
        before.cache_type is MixedWithConv,
        before.updates_to(tokens, after),
        tokens.len() > 0,
        blocks_remember(before, inputs),
        just_read(before, tokens.len() as int, inputs),
        forall|layer: int|
            0 <= layer < before.active_cache@.len() ==> (layer_view(
                #[trigger] before.active_cache@[layer],
            ) matches LayerView::Conv(raw) ==> before.model_cache_seq_len_dim < raw.shape.len()
                && raw.shape[before.model_cache_seq_len_dim as int] >= tokens.len()),
    ensures
        layers_remember(after, inputs),
        blocks_remember(after, inputs),
        after.token_ids@ == before.token_ids@ + tokens,
{
    let input = tokens.len() as int;
    let dim = before.model_cache_seq_len_dim;
    let keep = before.cache_type->conv_l_cache;
    let layers = layer_views(before.active_cache@);
    let size = block_size_of(before.model_cache_fragmentation) as int;
    assert(layer_views(after.active_cache@).len() == after.active_cache@.len());
    assert(layers.len() == before.active_cache@.len());
    assert forall|layer: int|
        0 <= layer < after.active_cache@.len() && layer_view(
            #[trigger] after.active_cache@[layer],
        ) is Conv implies layer_view(after.active_cache@[layer]) == inputs_after(
        inputs,
        after.token_ids@.len() as int,
        layer,
    ) by {
        assert(layer_views(after.active_cache@)[layer] == layer_view(after.active_cache@[layer]));
        assert(layers[layer] == layer_view(before.active_cache@[layer]));
        assert(before.updates_layer(input, layer));
        let whole = boundary_layer(
            layer_view(before.active_cache@[layer]),
            dim,
            input,
            input,
            keep,
        );
        assert(whole == layer_view(after.active_cache@[layer]));
    }
    let stored = before.block_boundary_conv_cache@.len() as int;
    let old_blocks = block_views(before.block_boundary_conv_cache@);
    let new_blocks = before.new_boundaries(input);
    assert(old_blocks.len() == stored);
    assert(block_views(after.block_boundary_conv_cache@).len()
        == after.block_boundary_conv_cache@.len());
    assert forall|block: int, layer: int|
        0 <= block < after.block_boundary_conv_cache@.len() && 0 <= layer < (
        #[trigger] after.block_boundary_conv_cache@[block])@.len() && layer_view(
            #[trigger] after.block_boundary_conv_cache@[block]@[layer],
        ) is Conv implies layer_view(after.block_boundary_conv_cache@[block]@[layer])
        == inputs_after(inputs, (block + 1) * size, layer) by {
        let views = block_views(after.block_boundary_conv_cache@);
        assert(views[block] == layer_views(after.block_boundary_conv_cache@[block]@));
        assert(views[block][layer] == layer_view(after.block_boundary_conv_cache@[block]@[layer]));
        if block < stored {
            assert(views[block] == old_blocks[block]);
            assert(old_blocks[block] == layer_views(before.block_boundary_conv_cache@[block]@));
            assert(old_blocks[block].len() == views[block].len());
            assert(layer_view(before.block_boundary_conv_cache@[block]@[layer])
                == views[block][layer]);
        } else {
            assert(views[block] == new_blocks[block - stored]);
            assert(views[block] == before.boundary_at(input, block));
            assert(layer < layers.len());
            assert(layers[layer] == layer_view(before.active_cache@[layer]));
            assert(before.updates_layer(input, layer));
            assert(before.reaches_block(input, block, layer));
            let total = (before.token_ids@.len() + input) / size;
            let end = before.block_end(block);
            lemma_block_in_tokens(before.token_ids@.len() as int, input, size, stored, block);
            assert(0 < end <= input);
            assert(boundary_layer(
                layer_view(before.active_cache@[layer]),
                dim,
                input,
                end,
                keep,
            ) == inputs_after(inputs, before.token_ids@.len() + end, layer));
        }
    }
}

/// A block that is complete with new tokens, but not without them, ends among those.
proof fn lemma_block_in_tokens(held: int, input: int, size: int, stored: int, block: int)
    requires
        0 <= held,
        0 < input,
        0 < size,
        stored >= held / size,
        stored <= block < (held + input) / size,
    ensures
        0 < (block + 1) * size - held <= input,
{
    vstd::arithmetic::div_mod::lemma_fundamental_div_mod(held, size);
    vstd::arithmetic::div_mod::lemma_fundamental_div_mod(held + input, size);
    vstd::arithmetic::div_mod::lemma_mod_bound(held, size);
    vstd::arithmetic::div_mod::lemma_mod_bound(held + input, size);
    let q = held / size;
    let t = (held + input) / size;
    assert((q + 1) * size <= (block + 1) * size <= t * size) by (nonlinear_arith)
        requires
            q + 1 <= block + 1 <= t,
            0 < size,
    ;
    assert((q + 1) * size == size * q + size) by (nonlinear_arith);
    assert(t * size == size * t) by (nonlinear_arith);
}

/// Cutting keeps the memory and the tokens together: the layers that still hold inputs hold those
/// after the last of the tokens that are left, and so it is at the ends of the blocks.
pub proof fn law_cutting_remembers<M: ModelCacheManagerInterface, L: CacheLoader>(
    before: GenerationContext<M, L>,
    matched: usize,
    after: GenerationContext<M, L>,
    inputs: spec_fn(int, int) -> LayerView,
)
    requires
        before.wf(),
        before.narrows_to(matched, after),
        matched <= before.token_ids@.len(),
        blocks_remember(before, inputs),
    ensures
        layers_remember(after, inputs),
        blocks_remember(after, inputs),
        after.token_ids@ == before.token_ids@.take(
            whole_blocks(
                matched as int,
                block_size_of(before.model_cache_fragmentation) as int,
            ),
        ),
{
    let size = block_size_of(before.model_cache_fragmentation) as int;
    let len = whole_blocks(matched as int, size);
    law_whole_blocks(matched as int, size);
    let blocks = before.block_boundary_conv_cache@;
    if len == before.token_ids@.len() {
        assert(before.token_ids@.take(len) =~= before.token_ids@);
    }
    assert forall|layer: int|
        0 <= layer < after.active_cache@.len() && layer_view(
            #[trigger] after.active_cache@[layer],
        ) is Conv implies layer_view(after.active_cache@[layer]) == inputs_after(
        inputs,
        after.token_ids@.len() as int,
        layer,
    ) by {
        let view = layer_view(after.active_cache@[layer]);
        assert(layer_views(after.active_cache@)[layer] == view);
        assert(before.narrowed_layers(matched)[layer] == view);
        assert(before.active_cache@.len() == after.active_cache@.len()) by {
            assert(layer_views(after.active_cache@).len() == after.active_cache@.len());
        }
        if let ModelCacheFragmentation::BlockWise { block_size } = before.model_cache_fragmentation {
            let count = matched as int / size;
            assert(count > 0);
            assert(count <= blocks.len());
            assert(layer < blocks[count - 1]@.len());
            assert(view == layer_view(blocks[count - 1]@[layer]));
            assert((count - 1 + 1) * size == len);
        }
    }
    assert forall|block: int, layer: int|
        0 <= block < after.block_boundary_conv_cache@.len() && 0 <= layer < (
        #[trigger] after.block_boundary_conv_cache@[block])@.len() && layer_view(
            #[trigger] after.block_boundary_conv_cache@[block]@[layer],
        ) is Conv implies layer_view(after.block_boundary_conv_cache@[block]@[layer])
        == inputs_after(inputs, (block + 1) * size, layer) by {
        assert(after.block_boundary_conv_cache@[block] == blocks[block]);
        assert(layer_view(blocks[block]@[layer]) is Conv);
    }
}

/// Cutting undoes reading: after tokens that end with a block were read, and then others, cutting
/// back to where the first ended gives each layer that holds inputs what it held then, and the
/// conversation the tokens that it had then.
pub proof fn law_cutting_undoes_reading<M: ModelCacheManagerInterface, L: CacheLoader>(
    start: GenerationContext<M, L>,
    first: Seq<u32>,
    middle: GenerationContext<M, L>,
    computed: GenerationContext<M, L>,
    second: Seq<u32>,
    end: GenerationContext<M, L>,
    cut: GenerationContext<M, L>,
    layer: int,
)
    requires
        start.wf(),
        start.keeps_boundaries(),
        start.block_boundary_conv_cache@.len() == start.token_ids@.len() as int / block_size_of(
            start.model_cache_fragmentation,
        ) as int,
        start.updates_to(first, middle),
        first.len() > 0,
        middle.token_ids@.len() <= usize::MAX,
        middle.token_ids@.len() as int % block_size_of(start.model_cache_fragmentation) as int == 0,
        computed == (GenerationContext { active_cache: computed.active_cache, ..middle }),
        computed.active_cache@.len() == middle.active_cache@.len(),
        computed.updates_to(second, end),
        end.narrows_to(middle.token_ids@.len() as usize, cut),
        0 <= layer < middle.active_cache@.len(),
        layer_view(middle.active_cache@[layer]) is Conv,
        layer_view(computed.active_cache@[layer]) is Conv,
    ensures
        cut.token_ids@ == middle.token_ids@,
        cut.active_cache@.len() == middle.active_cache@.len(),
        layer_view(cut.active_cache@[layer]) == layer_view(middle.active_cache@[layer]),
        block_views(cut.block_boundary_conv_cache@) == block_views(
            middle.block_boundary_conv_cache@,
        ),
{
    let size = block_size_of(start.model_cache_fragmentation) as int;
    let held = start.token_ids@.len() as int;
    let input = first.len() as int;
    let matched = middle.token_ids@.len() as usize;
    let dim = start.model_cache_seq_len_dim;
    let keep = start.cache_type->conv_l_cache;
    let stored = start.block_boundary_conv_cache@.len() as int;
    let count = (held + input) / size;
    assert(matched == held + input);
    vstd::arithmetic::div_mod::lemma_fundamental_div_mod(held + input, size);
    vstd::arithmetic::div_mod::lemma_fundamental_div_mod(held, size);
    vstd::arithmetic::div_mod::lemma_mod_bound(held, size);
    assert(count * size == held + input) by (nonlinear_arith)
        requires
            held + input == size * count + (held + input) % size,
            (held + input) % size == 0,
    ;
    assert(stored < count) by (nonlinear_arith)
        requires
            held == size * stored + held % size,
            0 <= held % size,
            count * size == held + input,
            input > 0,
            size > 0,
    ;
    assert(whole_blocks(matched as int, size) == matched);
    // What was kept with the first tokens.
    let layers = layer_views(start.active_cache@);
    let old_views = block_views(start.block_boundary_conv_cache@);
    let middle_views = block_views(middle.block_boundary_conv_cache@);
    let new_views = start.new_boundaries(input);
    assert(new_views.len() == count - stored);
    assert(middle_views.len() == count);
    assert(middle.block_boundary_conv_cache@.len() == count);
    assert(middle_views[count - 1] == new_views[count - 1 - stored]);
    assert(middle_views[count - 1] == start.boundary_at(input, count - 1));
    assert(start.block_end(count - 1) == input);
    assert(layer_views(middle.active_cache@)[layer] == layer_view(middle.active_cache@[layer]));
    assert(layer_views(middle.active_cache@).len() == layers.len());
    assert(layers[layer] == layer_view(start.active_cache@[layer]));
    assert(start.updates_layer(input, layer));
    assert(start.reaches_block(input, count - 1, layer));
    assert(layer < start.model_layers_count);
    assert(middle_views[count - 1][layer] == boundary_layer(
        layers[layer],
        dim,
        input,
        input,
        keep,
    ));
    assert(middle_views[count - 1][layer] == layer_view(middle.active_cache@[layer]));
    // The further tokens only add to it.
    let end_views = block_views(end.block_boundary_conv_cache@);
    assert(end_views.len() == end.block_boundary_conv_cache@.len());
    assert(end_views[count - 1] == middle_views[count - 1]);
    assert(end_views[count - 1] == layer_views(end.block_boundary_conv_cache@[count - 1]@));
    let kept = end.block_boundary_conv_cache@[count - 1]@;
    assert(kept.len() == end_views[count - 1].len());
    assert(layer_view(kept[layer]) == end_views[count - 1][layer]);
    // The cut takes it up again.
    assert(end.token_ids@.take(matched as int) =~= middle.token_ids@);
    if matched == end.token_ids@.len() {
        assert(end.token_ids@ =~= middle.token_ids@);
    }
    let ended = layer_views(end.active_cache@);
    let given = layer_views(computed.active_cache@);
    assert(ended.len() == given.len());
    assert(given[layer] == layer_view(computed.active_cache@[layer]));
    assert(ended[layer] == layer_view(end.active_cache@[layer]));
    assert(ended[layer] is Conv);
    assert(ended.len() == end.active_cache@.len());
    assert(given.len() == computed.active_cache@.len());
    assert(layer_views(cut.active_cache@).len() == cut.active_cache@.len());
    assert(layer_views(cut.active_cache@)[layer] == layer_view(cut.active_cache@[layer]));
    assert(end.narrowed_layers(matched)[layer] == layer_view(kept[layer]));
    assert(block_views(cut.block_boundary_conv_cache@) =~= middle_views) by {
        assert(middle_views =~= end_views.take(count));
        if count < end.block_boundary_conv_cache@.len() {
            assert(block_views(end.block_boundary_conv_cache@.take(count)) =~= end_views.take(
                count,
            ));
        } else {
            assert(end_views.take(count) =~= end_views);
        }
    }
}

/// Keys and values are cut to the tokens that are left, from the first on; a layer without them
/// stays as it is.
pub proof fn law_keys_are_cut_to_tokens<M: ModelCacheManagerInterface, L: CacheLoader>(
    before: GenerationContext<M, L>,
    matched: usize,
    after: GenerationContext<M, L>,
    layer: int,
)
    requires
        before.wf(),
        before.narrows_to(matched, after),
        matched <= before.token_ids@.len(),
        0 <= layer < before.active_cache@.len(),
        layer_view(before.active_cache@[layer]) is Kv,
    ensures
        after.active_cache@.len() == before.active_cache@.len(),
        ({
            let held = layer_view(before.active_cache@[layer])->Kv_0;
            let dim = before.model_cache_seq_len_dim as int;
            let len = after.token_ids@.len() as usize;
            &&& layer_view(after.active_cache@[layer]) matches LayerView::Kv(kv)
            &&& kv.dim == held.dim
            &&& held.keys is Some && held.values is Some ==> {
                &&& kv.keys == Some(narrowed_view(held.keys->Some_0, dim, 0, len))
                &&& kv.values == Some(narrowed_view(held.values->Some_0, dim, 0, len))
            }
            &&& held.keys is None || held.values is None ==> kv == held
        }),
{
    let size = block_size_of(before.model_cache_fragmentation) as int;
    law_whole_blocks(matched as int, size);
    assert(layer_views(after.active_cache@).len() == after.active_cache@.len());
    assert(layer_views(after.active_cache@)[layer] == layer_view(after.active_cache@[layer]));
    assert(before.narrowed_layers(matched)[layer] == layer_view(after.active_cache@[layer]));
}

/// Reading on leaves keys and values to the model, adds the tokens behind those that there are,
/// and drops nothing that was kept at the end of a block.
pub proof fn law_reading_adds<M: ModelCacheManagerInterface, L: CacheLoader>(
    before: GenerationContext<M, L>,
    tokens: Seq<u32>,
    after: GenerationContext<M, L>,
    layer: int,
)
    requires
        before.updates_to(tokens, after),
        0 <= layer < before.active_cache@.len(),
    ensures
        after.active_cache@.len() == before.active_cache@.len(),
        after.token_ids@ == before.token_ids@ + tokens,
        block_views(before.block_boundary_conv_cache@).is_prefix_of(
            block_views(after.block_boundary_conv_cache@),
        ),
        !(layer_view(before.active_cache@[layer]) is Conv) ==> layer_view(
            after.active_cache@[layer],
        ) == layer_view(before.active_cache@[layer]),
        before.cache_type is FullAttn ==> layer_view(after.active_cache@[layer]) == layer_view(
            before.active_cache@[layer],
        ),
        after.cache_metadata == before.cache_metadata,
{
    let layers = layer_views(before.active_cache@);
    assert(layer_views(after.active_cache@).len() == after.active_cache@.len());
    assert(layer_views(after.active_cache@)[layer] == layer_view(after.active_cache@[layer]));
    assert(layers[layer] == layer_view(before.active_cache@[layer]));
    let old_views = block_views(before.block_boundary_conv_cache@);
    let views = block_views(after.block_boundary_conv_cache@);
    assert(old_views =~= views.subrange(0, old_views.len() as int));
}

/// Of the inputs that a layer holds, the last ones are kept; at the end of a block within the
/// tokens that were just read, those before its end.
pub proof fn law_last_inputs_are_kept(
    layer: LayerView,
    dim: usize,
    input: int,
    end: int,
    keep: usize,
)
    requires
        layer is Conv,
        dim < layer->Conv_0.shape.len(),
        keep <= layer->Conv_0.shape[dim as int],
        0 < end <= input <= layer->Conv_0.shape[dim as int],
    ensures
        ({
            let raw = layer->Conv_0;
            let n = raw.shape[dim as int] as int;
            let read = n - input + end;
            &&& trimmed_layer(layer, dim, keep) == LayerView::Conv(
                narrowed_view(raw, dim as int, n - keep, keep),
            )
            &&& read >= keep ==> has_boundary(layer, dim, input, end, keep) && boundary_layer(
                layer,
                dim,
                input,
                end,
                keep,
            ) == LayerView::Conv(narrowed_view(raw, dim as int, read - keep, keep))
            &&& end == input ==> boundary_layer(layer, dim, input, end, keep) == trimmed_layer(
                layer,
                dim,
                keep,
            )
        }),
{
}

/// A cached prefix is of use for a prompt: it is the model's and has enough tokens in common.
pub open spec fn is_of_use(
    prefix: CacheMetadata,
    model: Seq<char>,
    prompt: Seq<u32>,
    min_tokens: usize,
) -> bool {
    prefix.model@ == model && common_prefix(prefix.token_ids@, prompt) >= min_tokens
}

/// As much of the memory is used as can be: what the conversation has in common with the prompt,
/// or a cached prefix that has more, up to what the model need not read. Nothing is used only
/// where there is nothing to use or prefixes are not cached.
pub proof fn law_plan_uses_most(
    token_ids: Seq<u32>,
    prefixes: Seq<CacheMetadata>,
    model: Seq<char>,
    prompt: Seq<u32>,
    min_prefill: usize,
    min_tokens: usize,
)
    requires
        prompt.len() <= usize::MAX,
        prefixes.len() <= usize::MAX,
    ensures
        planned(false, token_ids, prefixes, model, prompt, min_prefill, min_tokens)
            == MatchPlan::Nothing,
        ({
            let common = common_prefix(token_ids, prompt) as int;
            let most = if prompt.len() < min_prefill {
                0
            } else {
                prompt.len() - min_prefill
            };
            let least = if common < most {
                common
            } else {
                most
            };
            match planned(true, token_ids, prefixes, model, prompt, min_prefill, min_tokens) {
                MatchPlan::Nothing => most == 0 || (common == 0 && forall|i: int|
                    0 <= i < prefixes.len() && is_of_use(
                        #[trigger] prefixes[i],
                        model,
                        prompt,
                        min_tokens,
                    ) ==> common_prefix(prefixes[i].token_ids@, prompt) == 0),
                MatchPlan::Keep { len } => common > 0 && len == common && common == token_ids.len(),
                MatchPlan::Narrow { len } => len == least && common > 0 && (common > most || most
                    < min_tokens),
                MatchPlan::SaveAndNarrow { len } => len == least && 0 < common < token_ids.len()
                    && forall|i: int|
                    0 <= i < prefixes.len() && is_of_use(
                        #[trigger] prefixes[i],
                        model,
                        prompt,
                        min_tokens,
                    ) ==> common_prefix(prefixes[i].token_ids@, prompt) <= common,
                MatchPlan::Load { index, len } => {
                    let found = common_prefix(prefixes[index as int].token_ids@, prompt) as int;
                    &&& len > 0
                    &&& len == (if found < most {
                        found
                    } else {
                        most
                    })
                    &&& is_of_use(prefixes[index as int], model, prompt, min_tokens)
                },
            }
        }),
{
    law_common_prefix(token_ids, prompt);
    law_plan_is_sound(token_ids, prefixes, model, prompt, min_prefill, min_tokens);
    let common = common_prefix(token_ids, prompt);
    lemma_best_of(prefixes, model, prompt, common, min_tokens);
    let best = best_match(prefixes, model, prompt, common, min_tokens as nat);
    if let Some(index) = best.1 {
        law_common_prefix(prefixes[index].token_ids@, prompt);
    }
}

proof fn lemma_best_of(
    prefixes: Seq<CacheMetadata>,
    model: Seq<char>,
    prompt: Seq<u32>,
    start: nat,
    min_tokens: usize,
)
    ensures
        ({
            let best = best_match(prefixes, model, prompt, start, min_tokens as nat);
            &&& best.0 >= start
            &&& best.1 is None ==> best.0 == start
            &&& best.1 matches Some(index) ==> {
                &&& 0 <= index < prefixes.len()
                &&& common_prefix(prefixes[index].token_ids@, prompt) == best.0
                &&& is_of_use(prefixes[index], model, prompt, min_tokens)
            }
            &&& forall|i: int|
                0 <= i < prefixes.len() && is_of_use(
                    #[trigger] prefixes[i],
                    model,
                    prompt,
                    min_tokens,
                ) ==> common_prefix(prefixes[i].token_ids@, prompt) <= best.0
        }),
    decreases prefixes.len(),
{
    if prefixes.len() > 0 {
        let rest = prefixes.drop_last();
        lemma_best_of(rest, model, prompt, start, min_tokens);
        let best = best_match(prefixes, model, prompt, start, min_tokens as nat);
        assert forall|i: int|
            0 <= i < prefixes.len() && is_of_use(
                #[trigger] prefixes[i],
                model,
                prompt,
                min_tokens,
            ) implies common_prefix(prefixes[i].token_ids@, prompt) <= best.0 by {
            if i < rest.len() {
                assert(rest[i] == prefixes[i]);
            }
        }
        if let Some(index) = best_match(rest, model, prompt, start, min_tokens as nat).1 {
            assert(rest[index] == prefixes[index]);
        }
    }
}

/// A prefix that was kept is found again: a conversation that begins with a prompt that goes on
/// from it loads as much as that prefix gives, or more.
pub proof fn law_kept_prefix_is_found(
    prefixes: Seq<CacheMetadata>,
    kept: int,
    model: Seq<char>,
    prompt: Seq<u32>,
    min_prefill: usize,
    min_tokens: usize,
)
    requires
        prompt.len() <= usize::MAX,
        prefixes.len() <= usize::MAX,
        0 <= kept < prefixes.len(),
        prefixes[kept].model@ == model,
        prefixes[kept].token_ids@.is_prefix_of(prompt),
        prefixes[kept].token_ids@.len() >= min_tokens,
        prefixes[kept].token_ids@.len() > 0,
        prompt.len() > min_prefill,
    ensures
        planned(
            true,
            Seq::<u32>::empty(),
            prefixes,
            model,
            prompt,
            min_prefill,
            min_tokens,
        ) matches MatchPlan::Load { index, len } && (len >= prefixes[kept].token_ids@.len() || len
            == prompt.len() - min_prefill),
{
    let tokens = prefixes[kept].token_ids@;
    law_common_prefix(tokens, prompt);
    let n = common_prefix(tokens, prompt) as int;
    if n < tokens.len() {
        assert(tokens[n] == prompt.subrange(0, tokens.len() as int)[n]);
    }
    law_plan_uses_most(Seq::<u32>::empty(), prefixes, model, prompt, min_prefill, min_tokens);
    law_plan_is_sound(Seq::<u32>::empty(), prefixes, model, prompt, min_prefill, min_tokens);
    assert(common_prefix(Seq::<u32>::empty(), prompt) == 0);
    assert(is_of_use(prefixes[kept], model, prompt, min_tokens));
}

/// How many tokens of a prompt are taken from the memory: all that the conversation holds where it
/// goes on from there, else the whole blocks of what both have in common, up to what the model has
/// to read itself; and without caching none, with the conversation left as it is.
pub proof fn law_match_length<M: ModelCacheManagerInterface, L: CacheLoader>(
    before: GenerationContext<M, L>,
    prompt: Seq<u32>,
    min_prefill: usize,
    place: Place,
    result: Result<usize, LociError>,
    after: GenerationContext<M, L>,
)
    requires
        before.wf(),
        prompt.len() <= usize::MAX,
        before.cache_metadata@.len() <= usize::MAX,
        before.matches_as_planned(
            prompt,
            before.plan_for(prompt, min_prefill),
            place,
            result,
            after,
        ),
    ensures
        !before.prefix_caching ==> result == Ok::<usize, LociError>(0) && after == before,
        ({
            let size = block_size_of(before.model_cache_fragmentation) as int;
            let common = common_prefix(before.token_ids@, prompt) as int;
            let most = if prompt.len() < min_prefill {
                0
            } else {
                prompt.len() - min_prefill
            };
            let least = if common < most {
                common
            } else {
                most
            };
            &&& before.prefix_caching && 0 < common <= most && common == before.token_ids@.len()
                ==> result == Ok::<usize, LociError>(common as usize) && after == before
            &&& before.prefix_caching && before.cache_metadata@.len() == 0 && 0 < common
                < before.token_ids@.len() && most > 0 ==> (result matches Ok(found) ==> found
                == least / size * size && after.token_ids@ == prompt.take(found as int))
        }),
{
    law_common_prefix(before.token_ids@, prompt);
    let size = block_size_of(before.model_cache_fragmentation) as int;
    let common = common_prefix(before.token_ids@, prompt) as int;
    let most = if prompt.len() < min_prefill {
        0
    } else {
        prompt.len() - min_prefill
    };
    let least = if common < most {
        common
    } else {
        most
    };
    law_plan_uses_most(
        before.token_ids@,
        before.cache_metadata@,
        before.model@,
        prompt,
        min_prefill,
        before.cache_manager.min_tokens(),
    );
    law_whole_blocks(least, size);
    if 0 < common < before.token_ids@.len() {
        let len = least / size * size;
        assert forall|i: int| 0 <= i < len implies before.token_ids@[i] == prompt[i] by {
            assert(before.token_ids@.take(common)[i] == prompt.take(common)[i]);
        }
        assert(before.token_ids@.take(len) =~= prompt.take(len));
    }
}

/// What is kept for later is the conversation: its model, its tokens and the path under which the
/// keeper keeps it, behind the prefixes that there were. Nothing else changes.
pub proof fn law_saved_prefix_is_the_conversation<M: ModelCacheManagerInterface, L: CacheLoader>(
    before: GenerationContext<M, L>,
    after: GenerationContext<M, L>,
)
    requires
        before.saved_to(after),
    ensures
        after.token_ids == before.token_ids,
        after.active_cache == before.active_cache,
        after.block_boundary_conv_cache == before.block_boundary_conv_cache,
        !before.prefix_caching || before.token_ids@.len() < before.cache_manager.min_tokens()
            ==> after == before,
        after.cache_metadata@ != before.cache_metadata@ ==> exists|
            path: String,
            prefix: CacheMetadata,
            limited: Result<(), LociError>,
        |
            {
                &&& before.cache_manager.saves(
                    before.token_ids@,
                    before.active_cache@,
                    before.model_cache_seq_len_dim,
                    before.model_cache_fragmentation,
                    before.block_boundary_conv_cache@,
                    Ok(path),
                )
                &&& prefix.model@ == before.model@
                &&& prefix.token_ids@ == before.token_ids@
                &&& prefix.cache_file_path == path
                &&& #[trigger] before.cache_manager.limits(
                    before.cache_metadata@.push(prefix),
                    limited,
                    after.cache_metadata@,
                )
                &&& #[trigger] before.kept_as(prefix, path)
            },
{
}

/// Blocks are at least as large as the model needs them, and no larger than what is wanted or
/// needed.
pub proof fn law_blocks_fit_model(wanted: ModelCacheFragmentation, hint: usize)
    ensures
        block_size_of(adjusted_fragmentation(wanted, hint)) >= hint,
        block_size_of(adjusted_fragmentation(wanted, hint)) == hint || adjusted_fragmentation(
            wanted,
            hint,
        ) == wanted,
        block_size_of(wanted) >= hint ==> adjusted_fragmentation(wanted, hint) == wanted,
        wanted is BlockWise ==> adjusted_fragmentation(wanted, hint) is BlockWise,
{
}

/// Of the cached prefixes that match a prompt alike, the first is loaded.
pub proof fn law_first_of_equals_is_loaded(
    token_ids: Seq<u32>,
    prefixes: Seq<CacheMetadata>,
    model: Seq<char>,
    prompt: Seq<u32>,
    min_prefill: usize,
    min_tokens: usize,
    i: int,
)
    requires
        prompt.len() <= usize::MAX,
        prefixes.len() <= usize::MAX,
        planned(true, token_ids, prefixes, model, prompt, min_prefill, min_tokens) is Load,
        0 <= i < planned(
            true,
            token_ids,
            prefixes,
            model,
            prompt,
            min_prefill,
            min_tokens,
        )->Load_index,
        is_of_use(prefixes[i], model, prompt, min_tokens),
    ensures
        ({
            let index = planned(
                true,
                token_ids,
                prefixes,
                model,
                prompt,
                min_prefill,
                min_tokens,
            )->Load_index as int;
            common_prefix(prefixes[i].token_ids@, prompt) < common_prefix(
                prefixes[index].token_ids@,
                prompt,
            )
        }),
{
    law_plan_is_sound(token_ids, prefixes, model, prompt, min_prefill, min_tokens);
    lemma_best_of(prefixes, model, prompt, common_prefix(token_ids, prompt), min_tokens);
    lemma_first_best(prefixes, model, prompt, common_prefix(token_ids, prompt), min_tokens, i);
}

proof fn lemma_first_best(
    prefixes: Seq<CacheMetadata>,
    model: Seq<char>,
    prompt: Seq<u32>,
    start: nat,
    min_tokens: usize,
    i: int,
)
    requires
        0 <= i < prefixes.len(),
        is_of_use(prefixes[i], model, prompt, min_tokens),
    ensures
        best_match(prefixes, model, prompt, start, min_tokens as nat).1 matches Some(index) ==> (i
            < index ==> common_prefix(prefixes[i].token_ids@, prompt) < best_match(
            prefixes,
            model,
            prompt,
            start,
            min_tokens as nat,
        ).0),
    decreases prefixes.len(),
{
    let rest = prefixes.drop_last();
    if i < rest.len() {
        assert(rest[i] == prefixes[i]);
        lemma_first_best(rest, model, prompt, start, min_tokens, i);
        lemma_best_of(rest, model, prompt, start, min_tokens);
    } else {
        lemma_best_of(prefixes, model, prompt, start, min_tokens);
    }
}

/// The memory is kept whenever prefixes are cached and its whole blocks are long enough, and then
/// the keeper is handed all of it.
pub proof fn law_long_memory_is_kept<M: ModelCacheManagerInterface, L: CacheLoader>(
    before: GenerationContext<M, L>,
    after: GenerationContext<M, L>,
)
    requires
        before.wf(),
        before.saved_to(after),
        before.prefix_caching,
        whole_blocks(
            before.token_ids@.len() as int,
            block_size_of(before.model_cache_fragmentation) as int,
        ) >= before.cache_manager.min_tokens(),
    ensures
        exists|answer: Result<String, LociError>|
            {
                &&& #[trigger] before.cache_manager.saves(
                    before.token_ids@,
                    before.active_cache@,
                    before.model_cache_seq_len_dim,
                    before.model_cache_fragmentation,
                    before.block_boundary_conv_cache@,
                    answer,
                )
                &&& answer is Err ==> after.cache_metadata@ == before.cache_metadata@
            },
{
    law_whole_blocks(
        before.token_ids@.len() as int,
        block_size_of(before.model_cache_fragmentation) as int,
    );
    let answer = choose|answer: Result<String, LociError>| #[trigger]
        before.keeper_answers(answer) && before.prefixes_after(answer, after.cache_metadata@);
    assert(before.keeper_answers(answer));
}

/// When the memory of the conversation is used without looking further: it is cut where the model
/// has to read more of the prompt than is left, kept where the prompt goes on from it, and cut to
/// what is in common where no cached prefix could be of use.
pub proof fn law_own_memory_comes_first(
    token_ids: Seq<u32>,
    prefixes: Seq<CacheMetadata>,
    model: Seq<char>,
    prompt: Seq<u32>,
    min_prefill: usize,
    min_tokens: usize,
)
    requires
        prompt.len() <= usize::MAX,
        prefixes.len() <= usize::MAX,
        common_prefix(token_ids, prompt) > 0,
    ensures
        ({
            let common = common_prefix(token_ids, prompt) as int;
            let most = if prompt.len() < min_prefill {
                0
            } else {
                prompt.len() - min_prefill
            };
            let plan = planned(true, token_ids, prefixes, model, prompt, min_prefill, min_tokens);
            &&& common > most ==> plan == (MatchPlan::Narrow { len: most as usize })
            &&& common <= most && common == token_ids.len() ==> plan == (MatchPlan::Keep {
                len: common as usize,
            })
            &&& common <= most && common < token_ids.len() && most < min_tokens ==> plan == (
            MatchPlan::Narrow { len: common as usize })
            &&& common <= most && common < token_ids.len() && most >= min_tokens ==> plan is Load
                || plan is SaveAndNarrow
        }),
{
    law_common_prefix(token_ids, prompt);
    lemma_best_of(prefixes, model, prompt, common_prefix(token_ids, prompt), min_tokens);
}

/// The memory of a layer can be kept and cut where it holds enough: inputs of as many tokens as are
/// kept, keys and values of as many as are left, and at the end of the block the inputs of the layer.
pub proof fn law_memory_can_be_cut(
    layer: LayerView,
    boundary: LayerView,
    dim: usize,
    keep: usize,
    len: usize,
)
    ensures
        layer matches LayerView::Conv(raw) ==> (dim < raw.shape.len() && keep <= raw.shape[dim as int]
            ==> can_trim(layer, dim, keep)),
        !(layer is Conv) ==> can_trim(layer, dim, keep),
        layer is Conv && boundary is Conv ==> can_narrow_layer(layer, Some(boundary), dim, len),
        layer is Conv ==> can_narrow_layer(layer, None, dim, len) && narrowed_layer(
            layer,
            None,
            dim,
            len,
        ) == LayerView::Empty,
        layer matches LayerView::Kv(kv) ==> (kv.keys matches Some(keys) ==> (
        kv.values matches Some(values) ==> (dim < keys.shape.len() && len <= keys.shape[dim as int]
            && dim < values.shape.len() && len <= values.shape[dim as int] ==> can_narrow_layer(
            layer,
            Some(boundary),
            dim,
            len,
        )))),
        layer is Empty ==> can_narrow_layer(layer, Some(boundary), dim, len),
{
}

/// While prefixes are cached in blocks, a conversation with a model that keeps inputs has those at
/// the end of each of its blocks, however it reads on.
pub proof fn law_every_block_is_kept<M: ModelCacheManagerInterface, L: CacheLoader>(
    before: GenerationContext<M, L>,
    tokens: Seq<u32>,
    after: GenerationContext<M, L>,
)
    requires
        before.wf(),
        before.updates_to(tokens, after),
        before.active_cache@.len() > 0,
        before.cache_type is MixedWithConv,
        before.prefix_caching,
        before.model_cache_fragmentation is BlockWise,
        before.block_boundary_conv_cache@.len() == before.token_ids@.len() as int / block_size_of(
            before.model_cache_fragmentation,
        ) as int,
    ensures
        after.block_boundary_conv_cache@.len() == after.token_ids@.len() as int / block_size_of(
            before.model_cache_fragmentation,
        ) as int,
        forall|block: int|
            before.block_boundary_conv_cache@.len() <= block < after.block_boundary_conv_cache@.len()
                ==> (#[trigger] after.block_boundary_conv_cache@[block])@.len()
                == before.model_layers_count,
{
    let size = block_size_of(before.model_cache_fragmentation) as int;
    let held = before.token_ids@.len() as int;
    let stored = before.block_boundary_conv_cache@.len() as int;
    let total = (held + tokens.len()) / size;
    vstd::arithmetic::div_mod::lemma_div_is_ordered(held, held + tokens.len(), size);
    let views = block_views(after.block_boundary_conv_cache@);
    let old_views = block_views(before.block_boundary_conv_cache@);
    let new_views = before.new_boundaries(tokens.len() as int);
    assert(views.len() == after.block_boundary_conv_cache@.len());
    assert(old_views.len() == stored);
    assert(new_views.len() == total - stored);
    assert forall|block: int| stored <= block < after.block_boundary_conv_cache@.len() implies (
    #[trigger] after.block_boundary_conv_cache@[block])@.len() == before.model_layers_count by {
        assert(views[block] == new_views[block - stored]);
        assert(views[block] == layer_views(after.block_boundary_conv_cache@[block]@));
        assert(views[block].len() == after.block_boundary_conv_cache@[block]@.len());
    }
}

/// A conversation whose layers reach far enough can be cut to any number of its tokens: the keys and
/// values are there, and each layer of inputs has them at the end of the last block.
pub proof fn law_conversation_can_be_cut<M: ModelCacheManagerInterface, L: CacheLoader>(
    ctx: GenerationContext<M, L>,
    matched: usize,
)
    requires
        ctx.wf(),
        ctx.model_cache_fragmentation is BlockWise,
        ctx.block_boundary_conv_cache@.len() >= matched as int / block_size_of(
            ctx.model_cache_fragmentation,
        ) as int,
        forall|layer: int, block: int|
            0 <= layer < ctx.active_cache@.len() && layer_view(ctx.active_cache@[layer]) is Conv && 0
                <= block < ctx.block_boundary_conv_cache@.len() ==> layer < (
            #[trigger] ctx.block_boundary_conv_cache@[block])@.len() && layer_view(
                #[trigger] ctx.block_boundary_conv_cache@[block]@[layer],
            ) is Conv,
        forall|layer: int|
            0 <= layer < ctx.active_cache@.len() ==> (layer_view(#[trigger] ctx.active_cache@[layer])
                matches LayerView::Kv(kv) ==> (kv.keys matches Some(keys) ==> (
            kv.values matches Some(values) ==> ctx.model_cache_seq_len_dim < keys.shape.len()
                && matched <= keys.shape[ctx.model_cache_seq_len_dim as int]
                && ctx.model_cache_seq_len_dim < values.shape.len() && matched
                <= values.shape[ctx.model_cache_seq_len_dim as int]))),
    ensures
        ctx.can_narrow_to(matched),
{
    let size = block_size_of(ctx.model_cache_fragmentation) as int;
    law_whole_blocks(matched as int, size);
    let count = matched as int / size;
    assert forall|i: int| 0 <= i < ctx.active_cache@.len() implies can_narrow_layer(
        layer_view(#[trigger] ctx.active_cache@[i]),
        last_boundary(ctx.block_boundary_conv_cache@, count, i),
        ctx.model_cache_seq_len_dim,
        whole_blocks(matched as int, size) as usize,
    ) by {
        if layer_view(ctx.active_cache@[i]) is Conv && count > 0 {
            let block = ctx.block_boundary_conv_cache@[count - 1]@;
            assert(layer_view(block[i]) is Conv);
        }
    }
}

} // verus!
