//! What holds of a generation as a whole, from the request to what the conversation is after it.
use vstd::prelude::*;

use crate::config::generation_config::GenerationConfig;
use crate::error::{ErrorView, LociError};
use crate::inference::engine::{are_scores, last_scores, InferenceEngine, StreamCallback};
use crate::inference::generation_context::{
    law_match_takes_over_prefix, CacheLoader, GenerationContext, ModelCacheManagerInterface, Place,
};
use crate::inference::generation_handler::{Answers, GenerationHandler};
use crate::inference::generation_laws::{
    completes_stop_text, law_finish_reason, law_stop_text_ends_generation,
};
use crate::inference::generation_run::{
    law_conversation_grows_by_picked_tokens, law_limit_is_reported, notes_all, picked_tokens, Stage,
    Turn,
};
use crate::inference::reasoning_supervisor::{ReasoningSupervisor, ReasoningSupervisorInterface};
use crate::inference::sampler::Sampler;
use crate::inference::tool_calling_supervisor::{
    ToolCallingSupervisor, ToolCallingSupervisorInterface,
};
use crate::inference::tool_formatter::{ToolArgFormatter, ToolFormatter};
use crate::inference::types::{GenerationEvent, GenerationReport, PostSamplingConfig};
use crate::model::{MixedCache, Model};
use crate::tensor::{device_on_cpu, elements, id_bytes, tensor_view, RawView};
use crate::text::list_of;
use crate::tokenizer::{Tokenizer, TokenizerView};
use crate::types::{
    call_models, ChatMessage, FinishReason, ReasoningEffort, Tool, ToolChoiceMode, ToolChoiceView,
};

verus! {

/// The stop texts of a request end its generation: once the tokens that went to the answer or to
/// the reasoning end in one of them for the first time, the end is queued, and if nothing else is
/// queued, the next turn is the last one.
pub proof fn law_stop_texts_of_request<
    'e,
    T: Tokenizer,
    D: Model,
    S: Sampler<Logits = candle_core::Tensor>,
    M: ModelCacheManagerInterface,
    L: CacheLoader,
    K: StreamCallback,
>(
    engine: &'e InferenceEngine<T, D>,
    request: (Seq<u32>, GenerationConfig, S),
    before: (GenerationContext<M, L>, K),
    found: usize,
    stages: Seq<
        Stage<S, ReasoningSupervisor, ToolCallingSupervisor<'e, ToolFormatter, T>, M, L, K>,
    >,
    turns: Seq<Turn<S, ReasoningSupervisor, ToolCallingSupervisor<'e, ToolFormatter, T>>>,
    report: GenerationReport,
    after: (GenerationContext<M, L>, K),
    i: int,
)
    requires
        engine.is_generation(request, before, found, stages, turns, report, after),
        request.1.stop_tokens is Some,
        0 <= i < turns.len(),
        completes_stop_text(
            engine.tokenizer.model(),
            list_of(request.1.stop_tokens)->Some_0,
            turns,
            i,
        ),
        forall|j: int|
            0 <= j < i ==> !#[trigger] completes_stop_text(
                engine.tokenizer.model(),
                list_of(request.1.stop_tokens)->Some_0,
                turns,
                j,
            ),
    ensures
        i + 1 < turns.len(),
        stages[i + 1].handler.tokens_to_force@.len() > 0,
        stages[i + 1].handler.tokens_to_force@.contains(engine.tokenizer.end_token()),
        turns.len() <= i + 2 + turns[i].advanced.tokens_to_force@.len(),
        turns[i].advanced.tokens_to_force@.len() == 0 ==> turns.len() == i + 2,
{
    let texts = list_of(request.1.stop_tokens)->Some_0;
    law_stop_text_ends_generation(*engine, request.1, texts, stages, turns, i);
    lemma_end_token_stays(engine, request, before, found, stages, turns, report, after, i);
    let queue = turns[i].advanced.tokens_to_force@;
    let forced = stages[i + 1].handler.tokens_to_force@;
    let longer = queue.push(stages[i].handler.eos_token_id);
    assert(longer[queue.len() as int] == forced.subrange(0, longer.len() as int)[queue.len() as int]);
    assert(forced[queue.len() as int] == engine.tokenizer.end_token());
}

proof fn lemma_end_token_stays<
    'e,
    T: Tokenizer,
    D: Model,
    S: Sampler<Logits = candle_core::Tensor>,
    M: ModelCacheManagerInterface,
    L: CacheLoader,
    K: StreamCallback,
>(
    engine: &'e InferenceEngine<T, D>,
    request: (Seq<u32>, GenerationConfig, S),
    before: (GenerationContext<M, L>, K),
    found: usize,
    stages: Seq<
        Stage<S, ReasoningSupervisor, ToolCallingSupervisor<'e, ToolFormatter, T>, M, L, K>,
    >,
    turns: Seq<Turn<S, ReasoningSupervisor, ToolCallingSupervisor<'e, ToolFormatter, T>>>,
    report: GenerationReport,
    after: (GenerationContext<M, L>, K),
    i: int,
)
    requires
        engine.is_generation(request, before, found, stages, turns, report, after),
        0 <= i <= turns.len(),
    ensures
        stages[i].handler.eos_token_id == engine.tokenizer.end_token(),
    decreases i,
{
    if i > 0 {
        lemma_end_token_stays(engine, request, before, found, stages, turns, report, after, i - 1);
        assert(engine.turn_at(request.1, stages, turns, i - 1));
    }
}

/// Without stop texts the end is queued for the limit alone: a generation that does not come to it
/// ends where the model ends it.
pub proof fn law_only_causes_end_generation<
    'e,
    T: Tokenizer,
    D: Model,
    S: Sampler<Logits = candle_core::Tensor>,
    M: ModelCacheManagerInterface,
    L: CacheLoader,
    K: StreamCallback,
>(
    engine: &'e InferenceEngine<T, D>,
    request: (Seq<u32>, GenerationConfig, S),
    before: (GenerationContext<M, L>, K),
    found: usize,
    stages: Seq<
        Stage<S, ReasoningSupervisor, ToolCallingSupervisor<'e, ToolFormatter, T>, M, L, K>,
    >,
    turns: Seq<Turn<S, ReasoningSupervisor, ToolCallingSupervisor<'e, ToolFormatter, T>>>,
    report: GenerationReport,
    after: (GenerationContext<M, L>, K),
    i: int,
)
    requires
        engine.is_generation(request, before, found, stages, turns, report, after),
        request.1.stop_tokens is None,
        0 <= i < turns.len() - 1,
    ensures
        turns[i].step.ends == (if i + 2 >= request.1.max_tokens {
            1int
        } else {
            0int
        }),
{
    lemma_unstopped(engine, request, before, found, stages, turns, report, after, i);
    assert(engine.turn_at(request.1, stages, turns, i));
    assert(!turns[i].step.stop);
}

proof fn lemma_unstopped<
    'e,
    T: Tokenizer,
    D: Model,
    S: Sampler<Logits = candle_core::Tensor>,
    M: ModelCacheManagerInterface,
    L: CacheLoader,
    K: StreamCallback,
>(
    engine: &'e InferenceEngine<T, D>,
    request: (Seq<u32>, GenerationConfig, S),
    before: (GenerationContext<M, L>, K),
    found: usize,
    stages: Seq<
        Stage<S, ReasoningSupervisor, ToolCallingSupervisor<'e, ToolFormatter, T>, M, L, K>,
    >,
    turns: Seq<Turn<S, ReasoningSupervisor, ToolCallingSupervisor<'e, ToolFormatter, T>>>,
    report: GenerationReport,
    after: (GenerationContext<M, L>, K),
    i: int,
)
    requires
        engine.is_generation(request, before, found, stages, turns, report, after),
        request.1.stop_tokens is None,
        0 <= i <= turns.len(),
    ensures
        stages[i].progress.stop_pattern_matcher.patterns() is None,
        stages[i].progress.steps == i,
    decreases i,
{
    if i > 0 {
        lemma_unstopped(engine, request, before, found, stages, turns, report, after, i - 1);
        assert(engine.turn_at(request.1, stages, turns, i - 1));
    }
}

/// Why a generation is reported to have ended: for its length if it came to the limit; else for a
/// tool if the last thing that could end it was the name of one; else as any answer does.
pub proof fn law_reported_reason<
    'e,
    T: Tokenizer,
    D: Model,
    S: Sampler<Logits = candle_core::Tensor>,
    M: ModelCacheManagerInterface,
    L: CacheLoader,
    K: StreamCallback,
>(
    engine: &'e InferenceEngine<T, D>,
    request: (Seq<u32>, GenerationConfig, S),
    before: (GenerationContext<M, L>, K),
    found: usize,
    stages: Seq<
        Stage<S, ReasoningSupervisor, ToolCallingSupervisor<'e, ToolFormatter, T>, M, L, K>,
    >,
    turns: Seq<Turn<S, ReasoningSupervisor, ToolCallingSupervisor<'e, ToolFormatter, T>>>,
    report: GenerationReport,
    after: (GenerationContext<M, L>, K),
)
    requires
        engine.is_generation(request, before, found, stages, turns, report, after),
        turns.len() >= 2,
    ensures
        turns.len() >= request.1.max_tokens ==> report.finish_reason == FinishReason::Length,
        turns.len() < request.1.max_tokens ==> report.finish_reason != FinishReason::Length,
        turns.len() < request.1.max_tokens && (forall|k: int|
            0 <= k < turns.len() - 1 ==> !((#[trigger] turns[k]).event is ToolCallNameChunk)) ==>
            report.finish_reason == FinishReason::Stop,
        turns.len() < request.1.max_tokens && request.1.stop_tokens is None && (exists|k: int|
            0 <= k < turns.len() - 1 && (#[trigger] turns[k]).event is ToolCallNameChunk) ==>
            report.finish_reason == FinishReason::ToolCalls,
{
    if turns.len() >= request.1.max_tokens {
        law_limit_is_reported(*engine, request.1, stages, turns);
    } else {
        law_finish_reason(*engine, request.1, stages, turns, 0);
        let n = turns.len() as int;
        lemma_not_length(engine, request, before, found, stages, turns, report, after, n);
        if exists|k: int|
            0 <= k < turns.len() - 1 && (#[trigger] turns[k]).event is ToolCallNameChunk {
            let k = choose|k: int|
                0 <= k < turns.len() - 1 && (#[trigger] turns[k]).event is ToolCallNameChunk;
            law_finish_reason(*engine, request.1, stages, turns, k);
            if request.1.stop_tokens is None {
                assert forall|j: int| k < j < turns.len() - 1 implies
                    !crate::inference::generation_laws::completes_pattern(
                    #[trigger] stages[j],
                    turns[j],
                ) by {
                    lemma_unstopped(
                        engine,
                        request,
                        before,
                        found,
                        stages,
                        turns,
                        report,
                        after,
                        j,
                    );
                }
            }
        }
    }
}

proof fn lemma_not_length<
    'e,
    T: Tokenizer,
    D: Model,
    S: Sampler<Logits = candle_core::Tensor>,
    M: ModelCacheManagerInterface,
    L: CacheLoader,
    K: StreamCallback,
>(
    engine: &'e InferenceEngine<T, D>,
    request: (Seq<u32>, GenerationConfig, S),
    before: (GenerationContext<M, L>, K),
    found: usize,
    stages: Seq<
        Stage<S, ReasoningSupervisor, ToolCallingSupervisor<'e, ToolFormatter, T>, M, L, K>,
    >,
    turns: Seq<Turn<S, ReasoningSupervisor, ToolCallingSupervisor<'e, ToolFormatter, T>>>,
    report: GenerationReport,
    after: (GenerationContext<M, L>, K),
    i: int,
)
    requires
        engine.is_generation(request, before, found, stages, turns, report, after),
        turns.len() < request.1.max_tokens,
        0 <= i <= turns.len(),
    ensures
        stages[i].progress.finish_reason != FinishReason::Length,
        stages[i].progress.steps == i,
    decreases i,
{
    if i > 0 {
        lemma_not_length(engine, request, before, found, stages, turns, report, after, i - 1);
        assert(engine.turn_at(request.1, stages, turns, i - 1));
        assert(turns[i - 1].step.stop <==> i == turns.len());
    }
}

/// After a generation the conversation holds the prompt and the tokens that were picked, but for
/// the end token.
pub proof fn law_conversation_after_generation<
    'e,
    T: Tokenizer,
    D: Model,
    S: Sampler<Logits = candle_core::Tensor>,
    M: ModelCacheManagerInterface,
    L: CacheLoader,
    K: StreamCallback,
>(
    engine: &'e InferenceEngine<T, D>,
    request: (Seq<u32>, GenerationConfig, S),
    before: (GenerationContext<M, L>, K),
    found: usize,
    stages: Seq<
        Stage<S, ReasoningSupervisor, ToolCallingSupervisor<'e, ToolFormatter, T>, M, L, K>,
    >,
    turns: Seq<Turn<S, ReasoningSupervisor, ToolCallingSupervisor<'e, ToolFormatter, T>>>,
    report: GenerationReport,
    after: (GenerationContext<M, L>, K),
)
    requires
        engine.is_generation(request, before, found, stages, turns, report, after),
    ensures
        after.0.token_ids@ == request.0 + picked_tokens(turns, turns.len() - 1),
        after.0.token_ids@.len() == request.0.len() + turns.len() - 1,
        forall|i: int|
            0 <= i < turns.len() - 1 ==> #[trigger] after.0.token_ids@[request.0.len() + i]
                == turns[i].picked->Ok_0.token,
        turns.last().picked matches Ok(sampled) && sampled.token == engine.tokenizer.end_token(),
{
    law_conversation_grows_by_picked_tokens(
        *engine,
        request.1,
        request.0,
        found as int,
        stages,
        turns,
    );
    let n = turns.len() - 1;
    lemma_end_token_stays(engine, request, before, found, stages, turns, report, after, n);
    assert(engine.turn_at(request.1, stages, turns, n));
    assert(turns[n].step.stop);
}

/// How a generation begins: the sampler has been told the whole prompt, the conversation holds what
/// was found of it, and the model is to read the rest; the handler waits for the end token of the
/// tokenizer, and the reasoning is watched as the request asks for it.
pub proof fn law_generation_begins<
    'e,
    T: Tokenizer,
    D: Model,
    S: Sampler<Logits = candle_core::Tensor>,
    M: ModelCacheManagerInterface,
    L: CacheLoader,
    K: StreamCallback,
>(
    engine: &'e InferenceEngine<T, D>,
    request: (Seq<u32>, GenerationConfig, S),
    before: (GenerationContext<M, L>, K),
    found: usize,
    stages: Seq<
        Stage<S, ReasoningSupervisor, ToolCallingSupervisor<'e, ToolFormatter, T>, M, L, K>,
    >,
    turns: Seq<Turn<S, ReasoningSupervisor, ToolCallingSupervisor<'e, ToolFormatter, T>>>,
    report: GenerationReport,
    after: (GenerationContext<M, L>, K),
)
    requires
        engine.is_generation(request, before, found, stages, turns, report, after),
    ensures
        notes_all(request.2, request.0, stages[0].handler.sampler),
        stages[0].ctx.token_ids@ + stages[0].handler.input_tokens@ == request.0,
        stages[0].handler.eos_token_id == engine.tokenizer.end_token(),
        stages[0].handler.reasoning_supervisor is Some <==> engine.supports_reasoning
            && !(request.1.reasoning_effort is Off)
            && engine.post_sampling_config.reasoning_start_token_id is Some
            && engine.post_sampling_config.reasoning_end_token_id is Some,
        stages[0].handler.reasoning_supervisor matches Some(supervisor) ==> {
            &&& supervisor.reasoning_budget == (match request.1.reasoning_effort {
                ReasoningEffort::High => 16384u32,
                ReasoningEffort::Medium => 4096u32,
                _ => 1024u32,
            })
            &&& engine.post_sampling_config.reasoning_start_token_id == Some(
                supervisor.reasoning_start_token_id,
            )
            &&& engine.post_sampling_config.reasoning_end_token_id == Some(
                supervisor.reasoning_end_token_id,
            )
        },
        stages[0].handler.tool_calling_supervisor is Some ==> engine.supports_tool_calling,
        stages[0].listener == before.1,
        stages[0].progress.content_text@.len() == 0,
        stages[0].progress.reasoning_text@.len() == 0,
{
    assert(request.0.take(found as int) + request.0.skip(found as int) =~= request.0);
}

/// What the sampler is told, it is told in its order.
pub proof fn law_sampler_is_told_in_order<S: Sampler>(sampler: S, tokens: Seq<u32>, token: u32, told: S)
    ensures
        notes_all(sampler, tokens.push(token), told) <==> exists|middle: S| #[trigger]
            middle.notes(token, told) && notes_all(sampler, tokens, middle),
        notes_all(sampler, Seq::<u32>::empty(), told) <==> told == sampler,
{
    assert(tokens.push(token).drop_last() =~= tokens);
    assert(tokens.push(token).last() == token);
}

/// What the model is given in a turn: the tokens that wait, in one row, at the position where the
/// conversation ends, with the memory of the conversation. The conversation then holds them too.
pub proof fn law_model_reads_what_waits<
    T: Tokenizer,
    D: Model,
    M: ModelCacheManagerInterface,
    L: CacheLoader,
>(
    engine: InferenceEngine<T, D>,
    before: GenerationContext<M, L>,
    tokens: Seq<u32>,
    scores: candle_core::Tensor,
    after: GenerationContext<M, L>,
)
    requires
        engine.reads(before, tokens, scores, after),
    ensures
        after.token_ids@ == before.token_ids@ + tokens,
        exists|
            input: candle_core::Tensor,
            logits: candle_core::Tensor,
            memory: Seq<Option<MixedCache>>,
        |
            {
                &&& tensor_view(input).shape == seq![1usize, tokens.len() as usize]
                &&& tensor_view(input).data == id_bytes(tokens)
                &&& #[trigger] engine.model.computes(
                    input,
                    before.active_cache@,
                    before.token_ids@.len() as usize,
                    engine.flash_attn,
                    Ok(logits),
                    memory,
                )
                &&& tensor_view(scores) == last_scores(tensor_view(logits))
            },
{
}

/// The bytes of token ids are four for each, the least significant first.
pub proof fn law_ids_in_bytes(ids: Seq<u32>, i: int)
    requires
        0 <= i < ids.len(),
    ensures
        id_bytes(ids).len() == 4 * ids.len(),
        id_bytes(ids)[4 * i] + 256 * id_bytes(ids)[4 * i + 1] + 65536 * id_bytes(ids)[4 * i + 2]
            + 16777216 * id_bytes(ids)[4 * i + 3] == ids[i],
    decreases ids.len(),
{
    let rest = ids.drop_last();
    lemma_id_bytes_len(rest);
    if i < rest.len() {
        law_ids_in_bytes(rest, i);
    } else {
        let n = ids.last() as int;
        assert(n == n % 256 + 256 * (n / 256 % 256) + 65536 * (n / 65536 % 256) + 16777216 * (n
            / 16777216));
    }
}

proof fn lemma_id_bytes_len(ids: Seq<u32>)
    ensures
        id_bytes(ids).len() == 4 * ids.len(),
    decreases ids.len(),
{
    if ids.len() > 0 {
        lemma_id_bytes_len(ids.drop_last());
    }
}

/// The scores that a token is picked from are those after the last token that was read: the last of
/// the rows that the model gives.
pub proof fn law_scores_of_last_token(raw: RawView, rows: usize, words: usize, width: nat)
    requires
        raw.shape == seq![1usize, rows, words],
        rows > 0,
        words > 0,
        width > 0,
        raw.data.len() == rows * (words * width),
    ensures
        ({
            let row = words * width;
            let scores = last_scores(raw);
            &&& scores.dtype == raw.dtype
            &&& scores.data.len() == row
            &&& forall|i: int|
                0 <= i < row ==> #[trigger] scores.data[i] == raw.data[(rows - 1) * row + i]
        }),
{
    let row = (words * width) as int;
    let n = rows as int;
    assert(row > 0) by (nonlinear_arith)
        requires
            row == words * width,
            words > 0,
            width > 0,
    ;
    reveal_with_fuel(elements, 3);
    let outer = raw.shape.take(1);
    assert(outer =~= seq![1usize]);
    assert(outer.drop_last().len() == 0);
    assert(elements(outer) == 1);
    assert(raw.data.len() as int / (1 * n) == row) by {
        vstd::arithmetic::div_mod::lemma_div_multiples_vanish(row, n);
        assert(n * row == row * n) by (nonlinear_arith);
    }
    let part = crate::tensor::narrowed_view(raw, 1, n - 1, 1);
    assert(1 * 1 * row == row) by (nonlinear_arith);
    assert(part.data.len() == row);
    assert forall|i: int| 0 <= i < row implies #[trigger] part.data[i] == raw.data[(n - 1) * row
        + i] by {
        assert(1 * row == row) by (nonlinear_arith);
        vstd::arithmetic::div_mod::lemma_small_mod(i as nat, row as nat);
        vstd::arithmetic::div_mod::lemma_basic_div(i, row);
        assert(0 * n == 0) by (nonlinear_arith);
    }
}

/// A conversation of which nothing can be used begins anew: with a memory of the model that has
/// read nothing, and with no tokens; what it held is kept for later, if it is long enough.
pub proof fn law_new_conversation<
    T: Tokenizer,
    D: Model,
    M: ModelCacheManagerInterface,
    L: CacheLoader,
>(
    engine: InferenceEngine<T, D>,
    before: GenerationContext<M, L>,
    prompt: Seq<u32>,
    matched: Result<usize, LociError>,
    middle: GenerationContext<M, L>,
    result: Result<usize, LociError>,
    after: GenerationContext<M, L>,
)
    requires
        engine.prepares(before, prompt, matched, middle, result, after),
    ensures
        matched == Ok::<usize, LociError>(0) ==> match result {
            Ok(found) => {
                &&& found == 0
                &&& after.token_ids@.len() == 0
                &&& after.block_boundary_conv_cache@.len() == 0
                &&& engine.model.begins_with(Ok(after.active_cache))
                &&& exists|kept: GenerationContext<M, L>| #[trigger]
                    middle.saved_to(kept) && after.cache_metadata == kept.cache_metadata
            },
            Err(error) => exists|message: String| #[trigger]
                engine.model.begins_with(Err(message)) && error@ == ErrorView::ModelLoad(message@),
        },
        matched != Ok::<usize, LociError>(0) ==> result == matched && after == middle,
{
}

/// A cached prefix that was loaded takes the place of the memory: its layers, its blocks, and as
/// many tokens of the prompt as it holds.
pub proof fn law_loaded_memory_takes_over<M: ModelCacheManagerInterface, L: CacheLoader>(
    before: GenerationContext<M, L>,
    prompt: Seq<u32>,
    loaded: Result<crate::inference::model_cache::LoadedMixedCache, String>,
    result: Result<usize, LociError>,
    after: GenerationContext<M, L>,
)
    requires
        before.takes_loaded(prompt, loaded, result, after),
    ensures
        match loaded {
            Ok(memory) => {
                &&& after.active_cache == memory.mixed_cache
                &&& after.block_boundary_conv_cache == memory.block_boundary_conv_cache
                &&& after.token_ids@ == prompt.take(memory.cached_token_length as int)
                &&& result == Ok::<usize, LociError>(memory.cached_token_length)
                &&& after.model == before.model
            },
            Err(_) => result == Ok::<usize, LociError>(0) && after == before,
        },
{
}

/// What is asked for a cached prefix: the file of the prefix that the plan names, for as many tokens
/// as it says, in blocks of the size of the conversation.
pub proof fn law_planned_prefix_is_loaded<M: ModelCacheManagerInterface, L: CacheLoader>(
    before: GenerationContext<M, L>,
    prompt: Seq<u32>,
    min_prefill: usize,
    place: Place,
    result: Result<usize, LociError>,
    after: GenerationContext<M, L>,
    index: usize,
    len: usize,
)
    requires
        before.matches_as_planned(
            prompt,
            before.plan_for(prompt, min_prefill),
            place,
            result,
            after,
        ),
        before.plan_for(prompt, min_prefill)
            == (crate::inference::generation_context::MatchPlan::Load { index, len }),
    ensures
        exists|loaded: Result<crate::inference::model_cache::LoadedMixedCache, String>|
            {
                &&& #[trigger] before.cache_loader.loads(
                    before.cache_metadata@[index as int].cache_file_path@,
                    len,
                    before.model_cache_fragmentation,
                    before.model_cache_seq_len_dim,
                    place,
                    loaded,
                )
                &&& before.takes_loaded(prompt, loaded, result, after)
            },
{
}

/// How a handler begins: within the reasoning if the prompt ends in its opening, within a call if it
/// ends in the opening of one, and else within the answer, where a forced tool is queued.
pub proof fn law_handler_begins<
    S: Sampler,
    R: ReasoningSupervisorInterface,
    C: ToolCallingSupervisorInterface,
>(
    before: (Option<R>, Option<C>),
    input: Seq<u32>,
    template: Option<Seq<u32>>,
    answers: Answers,
    after: (Option<R>, Option<C>),
    handler: GenerationHandler<S, R, C>,
)
    requires
        GenerationHandler::<S, R, C>::begins(before, input, template, answers, after, Ok(handler)),
    ensures
        handler.input_tokens@ == input,
        ({
            let calls = answers.tool_calling matches Some(Ok(GenerationEvent::ToolCallStarted));
            let reasons = answers.reasoning matches Some(GenerationEvent::ReasoningStarted);
            let forced = match answers.reasoning {
                Some(GenerationEvent::ForceTokens { tokens }) => tokens@,
                _ => Seq::<u32>::empty(),
            };
            &&& calls ==> handler.ongoing_gen_type is ToolCallName
            &&& !calls && reasons ==> handler.ongoing_gen_type is Reasoning
            &&& !calls && !reasons ==> handler.ongoing_gen_type is DirectContent
            &&& !calls && !reasons ==> match template {
                Some(ids) => handler.tokens_to_force@ == forced + ids
                    && handler.tool_choice_template is None,
                None => handler.tokens_to_force@ == forced,
            }
            &&& calls || reasons ==> handler.tokens_to_force@ == forced && (template is Some <==>
                handler.tool_choice_template is Some)
        }),
{
    let forced = match answers.reasoning {
        Some(GenerationEvent::ForceTokens { tokens }) => tokens@,
        _ => Seq::<u32>::empty(),
    };
    assert(Seq::<u32>::empty() + forced =~= forced);
    assert(handler.course().ongoing == handler.ongoing_gen_type);
    assert(handler.course().forced == handler.tokens_to_force@);
}

/// Which tool is forced: any one if one is required, the named one if one is named, and else none.
pub proof fn law_tool_choice<'a, F: ToolArgFormatter, T: Tokenizer>(
    supervisor: ToolCallingSupervisor<'a, F, T>,
    tokenizer: TokenizerView,
    choice: ToolChoiceView,
    result: Result<Option<Vec<u32>>, String>,
)
    requires
        supervisor.gives_template(tokenizer, choice, result),
    ensures
        choice == ToolChoiceView::Mode(ToolChoiceMode::Auto) || choice == ToolChoiceView::Mode(
            ToolChoiceMode::Off,
        ) ==> result matches Ok(None),
        choice == ToolChoiceView::Mode(ToolChoiceMode::Required) ==> match (
            result,
            supervisor.context.formatter.template(
                tokenizer,
                supervisor.context.tool_call_start_token_id,
                None,
            ),
        ) {
            (Ok(Some(ids)), Ok(wanted)) => ids@ == wanted,
            (Err(message), Err(cause)) => message@ == cause,
            _ => false,
        },
        choice matches ToolChoiceView::Specific(_, name) ==> match (
            result,
            supervisor.context.formatter.template(
                tokenizer,
                supervisor.context.tool_call_start_token_id,
                Some(name),
            ),
        ) {
            (Ok(Some(ids)), Ok(wanted)) => ids@ == wanted,
            (Err(message), Err(cause)) => message@ == cause,
            _ => false,
        },
{
}

/// Tool calls are watched exactly if the model calls tools and its marking tokens are known; the
/// supervisor knows them, and has read nothing.
pub proof fn law_tool_calls_are_watched<'a, T: Tokenizer>(
    supports: bool,
    config: PostSamplingConfig,
    tokenizer: &T,
    watching: Option<ToolCallingSupervisor<'a, ToolFormatter, T>>,
)
    requires
        ToolCallingSupervisor::<'a, ToolFormatter, T>::is_new(supports, config, tokenizer, Ok(watching)),
    ensures
        watching is Some <==> supports && config.tool_call_start_token_id is Some
            && config.tool_call_end_token_id is Some,
        watching matches Some(supervisor) ==> {
            &&& config.tool_call_start_token_id == Some(supervisor.context.tool_call_start_token_id)
            &&& config.tool_call_end_token_id == Some(supervisor.context.tool_call_end_token_id)
            &&& supervisor.calls()->Some_0.len() == 0
            &&& supervisor.parts().name.len() == 0
            &&& supervisor.parts().arguments.len() == 0
            &&& supervisor.parts().scratch.len() == 0
            &&& supervisor.context.current_tool_id@.len() == 0
        },
{
}

/// The reasoning tokens so far are counted one by one: each token within the reasoning, with the one
/// that closes it, and no other; the last of them does not count.
pub proof fn law_reasoning_is_counted<S: Sampler, C: ToolCallingSupervisorInterface>(
    before: GenerationHandler<S, ReasoningSupervisor, C>,
    request: (S::Logits, bool, Option<usize>),
    picked: Result<crate::inference::types::SamplingResult, String>,
    answers: Answers,
    event: GenerationEvent,
    after: GenerationHandler<S, ReasoningSupervisor, C>,
)
    requires
        before.advances_with(request, picked, answers, Ok(event), after),
        before.reasoning_supervisor is Some,
        before.reasoning_supervisor->Some_0.reasoning_tokens < u32::MAX,
    ensures
        ({
            let was = before.reasoning_supervisor->Some_0;
            &&& after.reasoning_supervisor matches Some(now)
            &&& now.reasoning_tokens == (if before.ongoing_gen_type is Reasoning && !(
            event is GenerationStopped) {
                was.reasoning_tokens + 1
            } else {
                was.reasoning_tokens as int
            })
            &&& now.tokens_count() == (if now.reasoning_tokens == 0 {
                0
            } else {
                now.reasoning_tokens - 1
            })
            &&& now.reasoning_start_token_id == was.reasoning_start_token_id
            &&& now.reasoning_end_token_id == was.reasoning_end_token_id
            &&& now.reasoning_budget == was.reasoning_budget
        }),
{
    let sampled = picked->Ok_0;
    assert(seq![sampled.token].len() == 1);
}

/// What else a generation is reported with: the number of its reasoning tokens, and the calls that
/// were read, if there were any.
pub proof fn law_reported_calls<
    'e,
    T: Tokenizer,
    D: Model,
    S: Sampler<Logits = candle_core::Tensor>,
    M: ModelCacheManagerInterface,
    L: CacheLoader,
    K: StreamCallback,
>(
    engine: &'e InferenceEngine<T, D>,
    request: (Seq<u32>, GenerationConfig, S),
    before: (GenerationContext<M, L>, K),
    found: usize,
    stages: Seq<
        Stage<S, ReasoningSupervisor, ToolCallingSupervisor<'e, ToolFormatter, T>, M, L, K>,
    >,
    turns: Seq<Turn<S, ReasoningSupervisor, ToolCallingSupervisor<'e, ToolFormatter, T>>>,
    report: GenerationReport,
    after: (GenerationContext<M, L>, K),
)
    requires
        engine.is_generation(request, before, found, stages, turns, report, after),
    ensures
        report.usage.completion_tokens_details matches Some(details) && details.reasoning_tokens == (
        match stages.last().handler.reasoning_supervisor {
            Some(supervisor) => supervisor.tokens_count(),
            None => 0,
        }),
        report.usage.prompt_tokens_details is None,
        match stages.last().handler.tool_calling_supervisor {
            Some(supervisor) => match report.chat_message.tool_calls {
                Some(list) => list@.len() > 0 && supervisor.calls() == Some(call_models(list@)),
                None => supervisor.calls() is None || supervisor.calls()->Some_0.len() == 0,
            },
            None => report.chat_message.tool_calls is None,
        },
        report.chat_message.tool_call_id is None,
        after.0 == stages.last().ctx,
        after.1 == stages.last().listener,
{
    if let Some(list) = report.chat_message.tool_calls {
        assert(call_models(list@).len() == list@.len());
    }
}

/// How a conversation becomes a prompt: the template is told the tools, to let the model reason if it
/// can and effort is asked for, and how tools are written; its text is encoded as it is, without
/// tokens that the tokenizer would add.
pub proof fn law_chat_becomes_prompt<T: Tokenizer, D: Model>(
    engine: InferenceEngine<T, D>,
    messages: Vec<ChatMessage>,
    tools: Vec<Tool>,
    config: GenerationConfig,
    text: Result<String, String>,
    tokens: Result<Vec<u32>, LociError>,
)
    requires
        engine.writes_chat(messages, tools, config, text),
        engine.encodes_chat(text, tokens),
    ensures
        engine.tokenizer.templates(
            messages,
            tools,
            engine.supports_reasoning && !(config.reasoning_effort is Off),
            engine.flatten_tools_to_functions,
            text,
        ),
        match text {
            Ok(written) => match (engine.tokenizer.model().encoding(written@, false), tokens) {
                (Ok(ids), Ok(list)) => list@ == ids,
                (Err(source), Err(error)) => error@ == (ErrorView::Tokenization { source }),
                _ => false,
            },
            Err(message) => tokens matches Err(error) && error@ == (ErrorView::Tokenization {
                source: message@,
            }),
        },
{
}

/// The model reads tokens unless something fails: where they can be counted and the processor takes
/// them, it is the model that fails, or its answer is no scores, or its memory does not hold what is
/// to be kept of it.
pub proof fn law_reading_fails_for_a_cause<
    T: Tokenizer,
    D: Model,
    M: ModelCacheManagerInterface,
    L: CacheLoader,
>(
    engine: InferenceEngine<T, D>,
    before: GenerationContext<M, L>,
    tokens: Seq<u32>,
    error: LociError,
    after: GenerationContext<M, L>,
)
    requires
        engine.reading_fails(before, tokens, error, after),
        before.token_ids@.len() + tokens.len() <= usize::MAX,
        device_on_cpu(engine.device),
    ensures
        exists|
            input: candle_core::Tensor,
            answer: Result<candle_core::Tensor, String>,
            middle: GenerationContext<M, L>,
        |
            {
                &&& #[trigger] engine.model_answers(before, input, answer, middle)
                &&& match answer {
                    Err(message) => error@ == ErrorView::Inference(message@),
                    Ok(logits) => {
                        ||| tensor_view(logits).shape.len() != 3
                        ||| tensor_view(logits).shape[1] == 0
                        ||| middle.cache_type is MixedWithConv && exists|layer: int|
                            0 <= layer < middle.active_cache@.len()
                                && !#[trigger] middle.updates_layer(tokens.len() as int, layer)
                    },
                }
            },
        after.token_ids@ == before.token_ids@,
{
}

/// A turn fails for a cause: the tokens cannot be counted any more, the model cannot read, no token
/// is picked, a supervisor or the tokenizer fails, or the listener does.
pub proof fn law_turn_fails_for_a_cause<
    T: Tokenizer,
    D: Model,
    S: Sampler<Logits = candle_core::Tensor>,
    R: ReasoningSupervisorInterface,
    C: ToolCallingSupervisorInterface,
    M: ModelCacheManagerInterface,
    L: CacheLoader,
    K: StreamCallback,
>(
    engine: InferenceEngine<T, D>,
    config: GenerationConfig,
    before: Stage<S, R, C, M, L, K>,
    error: LociError,
    ctx: GenerationContext<M, L>,
    listener: K,
)
    requires
        engine.turn_fails(config, before, error, ctx, listener),
        before.progress.steps < usize::MAX,
        before.handler.reasoning_supervisor matches Some(supervisor) ==> supervisor.tokens_count()
            < u32::MAX - 1,
    ensures
        engine.reading_fails(before.ctx, before.handler.input_tokens@, error, ctx) || exists|
            turn: Turn<S, R, C>,
            advance: Result<GenerationEvent, String>,
        |
            {
                &&& #[trigger] engine.turn_breaks(config, before, turn, advance, error, listener)
                &&& engine.reads(before.ctx, before.handler.input_tokens@, turn.scores, ctx)
                &&& match advance {
                    Err(message) => error@ == ErrorView::Inference(message@),
                    Ok(GenerationEvent::ContentSampled { .. }) => true,
                    Ok(GenerationEvent::ReasoningSampled { .. }) => true,
                    Ok(GenerationEvent::ToolCallNameChunk { .. }) => true,
                    Ok(GenerationEvent::ToolCallArgumentsChunk { .. }) => true,
                    Ok(_) => false,
                }
            },
{
}

/// The scores of a model are taken whenever they have a row for each of some tokens.
pub proof fn law_rows_are_scores(logits: candle_core::Tensor)
    requires
        tensor_view(logits).shape.len() == 3,
        tensor_view(logits).shape[1] > 0,
    ensures
        are_scores(logits),
{
}

/// However much of the prompt is found in the memory, the model reads as many tokens of it as it has
/// to; a shorter prompt it reads whole.
pub proof fn law_model_reads_enough<
    'e,
    T: Tokenizer,
    D: Model,
    S: Sampler<Logits = candle_core::Tensor>,
    M: ModelCacheManagerInterface,
    L: CacheLoader,
    K: StreamCallback,
>(
    engine: &'e InferenceEngine<T, D>,
    request: (Seq<u32>, GenerationConfig, S),
    before: (GenerationContext<M, L>, K),
    found: usize,
    stages: Seq<
        Stage<S, ReasoningSupervisor, ToolCallingSupervisor<'e, ToolFormatter, T>, M, L, K>,
    >,
    turns: Seq<Turn<S, ReasoningSupervisor, ToolCallingSupervisor<'e, ToolFormatter, T>>>,
    report: GenerationReport,
    after: (GenerationContext<M, L>, K),
)
    requires
        engine.is_generation(request, before, found, stages, turns, report, after),
        before.0.wf(),
        request.0.len() <= usize::MAX,
        before.0.cache_metadata@.len() <= usize::MAX,
    ensures
        request.0.len() >= engine.model.prefill() ==> stages[0].handler.input_tokens@.len()
            >= engine.model.prefill(),
        request.0.len() < engine.model.prefill() ==> stages[0].handler.input_tokens@ == request.0,
        !before.0.prefix_caching ==> stages[0].handler.input_tokens@ == request.0,
{
    let place = Place { device: engine.device, conv_on_cpu: engine.model.conv_place() };
    let (matched, middle) = choose|
        matched: Result<usize, LociError>,
        middle: GenerationContext<M, L>,
    | #[trigger]
        engine.prepares(before.0, request.0, matched, middle, Ok(found), stages[0].ctx);
    assert(engine.prepares(before.0, request.0, matched, middle, Ok(found), stages[0].ctx));
    law_match_takes_over_prefix(
        before.0,
        request.0,
        engine.model.prefill(),
        place,
        found,
        middle,
    );
    if found == 0 {
        assert(request.0.skip(0) =~= request.0);
    }
}

/// The sampler is asked as the request says: for log probabilities if they are wanted, with as many
/// rivals as are wanted, from the scores of the turn.
pub proof fn law_sampler_is_asked_as_wanted<
    'e,
    T: Tokenizer,
    D: Model,
    S: Sampler<Logits = candle_core::Tensor>,
    M: ModelCacheManagerInterface,
    L: CacheLoader,
    K: StreamCallback,
>(
    engine: &'e InferenceEngine<T, D>,
    request: (Seq<u32>, GenerationConfig, S),
    before: (GenerationContext<M, L>, K),
    found: usize,
    stages: Seq<
        Stage<S, ReasoningSupervisor, ToolCallingSupervisor<'e, ToolFormatter, T>, M, L, K>,
    >,
    turns: Seq<Turn<S, ReasoningSupervisor, ToolCallingSupervisor<'e, ToolFormatter, T>>>,
    report: GenerationReport,
    after: (GenerationContext<M, L>, K),
    i: int,
)
    requires
        engine.is_generation(request, before, found, stages, turns, report, after),
        0 <= i < turns.len(),
        stages[i].handler.tokens_to_force@.len() == 0,
    ensures
        turns[i].asked.sampler == stages[i].handler.sampler,
        stages[i].handler.sampler.samples(
            turns[i].scores,
            if request.1.logprobs {
                Some(
                    match request.1.top_logprobs {
                        Some(rivals) => rivals,
                        None => 0usize,
                    },
                )
            } else {
                None
            },
            turns[i].picked,
            turns[i].advanced.sampler,
        ),
{
    assert(engine.turn_at(request.1, stages, turns, i));
}

} // verus!
