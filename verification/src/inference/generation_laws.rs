//! What holds of every generation, from its first turn to its report.
use vstd::prelude::*;
use vstd::utf8::*;

use crate::config::generation_config::GenerationConfig;
use crate::error::LociError;
use crate::inference::engine::{
    logprobs_view, reported_logprobs, top_view, written_rivals, InferenceEngine, StreamCallback,
};
use crate::inference::generation_context::{
    CacheLoader, GenerationContext, ModelCacheManagerInterface,
};
use crate::inference::generation_run::{Stage, Turn};
use crate::inference::reasoning_supervisor::{ReasoningSupervisor, ReasoningSupervisorInterface};
use crate::inference::sampler::Sampler;
use crate::inference::stop_pattern_matcher::{
    completes, encodings, ends_with, is_longest_match, law_fresh_stream, law_stream_match,
    StopPattern,
};
use crate::inference::tool_calling_supervisor::{
    ToolCallingSupervisor, ToolCallingSupervisorInterface,
};
use crate::inference::tool_formatter::ToolFormatter;
use crate::inference::types::{
    GenerationDataType, GenerationEvent, GenerationReport, SamplingResult, TopKEntry,
};
use crate::model::Model;
use crate::tokenizer::{fresh_stream, StreamView, Tokenizer, TokenizerView};
use crate::types::{FinishReason, LogprobsContent, Role, TopLogprobs};

verus! {

/// The token of a turn that goes to the answer or to the reasoning.
pub open spec fn spoken<
    S: Sampler,
    R: ReasoningSupervisorInterface,
    C: ToolCallingSupervisorInterface,
>(turn: Turn<S, R, C>) -> Option<u32> {
    match turn.event {
        GenerationEvent::ContentSampled { sampling_result } => Some(sampling_result.token),
        GenerationEvent::ReasoningSampled { sampling_result } => Some(sampling_result.token),
        _ => None,
    }
}

/// The tokens of the first turns that went to the answer or to the reasoning.
pub open spec fn spoken_tokens<
    S: Sampler,
    R: ReasoningSupervisorInterface,
    C: ToolCallingSupervisorInterface,
>(turns: Seq<Turn<S, R, C>>, count: int) -> Seq<u32>
    decreases count,
{
    if count <= 0 {
        seq![]
    } else {
        match spoken(turns[count - 1]) {
            Some(token) => spoken_tokens(turns, count - 1).push(token),
            None => spoken_tokens(turns, count - 1),
        }
    }
}

/// The tokens end in one of the stop texts.
pub open spec fn ends_in_stop_text(
    tokenizer: TokenizerView,
    texts: Seq<Seq<char>>,
    tokens: Seq<u32>,
) -> bool {
    exists|t: int|
        0 <= t < texts.len() && (#[trigger] tokenizer.encoding(texts[t], false) matches Ok(ids)
            && ids.len() > 0 && ids.is_suffix_of(tokens))
}

/// The turn speaks a token that completes one of the stop texts.
pub open spec fn completes_stop_text<
    S: Sampler,
    R: ReasoningSupervisorInterface,
    C: ToolCallingSupervisorInterface,
>(
    tokenizer: TokenizerView,
    texts: Seq<Seq<char>>,
    turns: Seq<Turn<S, R, C>>,
    i: int,
) -> bool {
    spoken(turns[i]) is Some && ends_in_stop_text(tokenizer, texts, spoken_tokens(turns, i + 1))
}

/// What is looked for are the encodings of the texts that can be encoded, and nothing else.
pub proof fn law_stop_texts_are_encoded(tokenizer: TokenizerView, texts: Seq<Seq<char>>)
    ensures
        forall|t: int|
            0 <= t < texts.len() ==> (#[trigger] tokenizer.encoding(texts[t], false) matches Ok(
                ids,
            ) ==> exists|p: int|
                0 <= p < encodings(tokenizer, texts).len() && #[trigger] encodings(
                    tokenizer,
                    texts,
                )[p] == ids),
        forall|p: int|
            0 <= p < encodings(tokenizer, texts).len() ==> exists|t: int|
                0 <= t < texts.len() && #[trigger] tokenizer.encoding(texts[t], false) == Ok::<
                    Seq<u32>,
                    Seq<char>,
                >(#[trigger] encodings(tokenizer, texts)[p]),
    decreases texts.len(),
{
    if texts.len() > 0 {
        let rest = texts.drop_last();
        law_stop_texts_are_encoded(tokenizer, rest);
        let all = encodings(tokenizer, texts);
        let some = encodings(tokenizer, rest);
        assert forall|t: int| 0 <= t < texts.len() implies (
        #[trigger] tokenizer.encoding(texts[t], false) matches Ok(ids) ==> exists|p: int|
            0 <= p < all.len() && #[trigger] all[p] == ids) by {
            if let Ok(ids) = tokenizer.encoding(texts[t], false) {
                if t < rest.len() {
                    assert(rest[t] == texts[t]);
                    assert(tokenizer.encoding(rest[t], false) is Ok);
                    let p = choose|p: int| 0 <= p < some.len() && #[trigger] some[p] == ids;
                    assert(all[p] == ids);
                } else {
                    assert(all[all.len() - 1] == ids);
                }
            }
        }
        assert forall|p: int| 0 <= p < all.len() implies exists|t: int|
            0 <= t < texts.len() && #[trigger] tokenizer.encoding(texts[t], false) == Ok::<
                Seq<u32>,
                Seq<char>,
            >(#[trigger] all[p]) by {
            if p < some.len() {
                let t = choose|t: int|
                    0 <= t < rest.len() && #[trigger] tokenizer.encoding(rest[t], false) == Ok::<
                        Seq<u32>,
                        Seq<char>,
                    >(some[p]);
                assert(tokenizer.encoding(texts[t], false) == Ok::<Seq<u32>, Seq<char>>(all[p]));
            } else {
                let t = texts.len() - 1;
                assert(tokenizer.encoding(texts[t], false) == Ok::<Seq<u32>, Seq<char>>(all[p]));
            }
        }
    }
}

/// The patterns at a stage sum up the tokens that were spoken before it.
pub open spec fn sums_up(
    patterns: Seq<StopPattern>,
    looked_for: Seq<Seq<u32>>,
    tokens: Seq<u32>,
) -> bool {
    &&& patterns.len() == looked_for.len()
    &&& forall|p: int|
        0 <= p < patterns.len() ==> (#[trigger] patterns[p]).pattern() == looked_for[p]
            && is_longest_match(looked_for[p], tokens, patterns[p].matched())
}

proof fn lemma_completed(pattern: Seq<u32>, tokens: Seq<u32>)
    ensures
        ends_with(pattern, tokens) <==> pattern.is_suffix_of(tokens),
{
    assert(pattern.take(pattern.len() as int) =~= pattern);
}

/// A token completes a pattern exactly if a stop text ends the tokens that were spoken.
proof fn lemma_hit_is_stop_text(
    tokenizer: TokenizerView,
    texts: Seq<Seq<char>>,
    patterns: Seq<StopPattern>,
    tokens: Seq<u32>,
    token: u32,
)
    requires
        sums_up(patterns, encodings(tokenizer, texts), tokens),
    ensures
        (exists|p: int| 0 <= p < patterns.len() && completes(#[trigger] patterns[p], token))
            <==> ends_in_stop_text(tokenizer, texts, tokens.push(token)),
{
    let looked_for = encodings(tokenizer, texts);
    law_stop_texts_are_encoded(tokenizer, texts);
    let longer = tokens.push(token);
    if exists|p: int| 0 <= p < patterns.len() && completes(#[trigger] patterns[p], token) {
        let p = choose|p: int| 0 <= p < patterns.len() && completes(#[trigger] patterns[p], token);
        law_stream_match(looked_for[p], tokens, patterns[p].matched(), token);
        lemma_completed(looked_for[p], longer);
        let t = choose|t: int|
            0 <= t < texts.len() && #[trigger] tokenizer.encoding(texts[t], false) == Ok::<
                Seq<u32>,
                Seq<char>,
            >(looked_for[p]);
        assert(tokenizer.encoding(texts[t], false) is Ok);
    }
    if ends_in_stop_text(tokenizer, texts, longer) {
        let t = choose|t: int|
            0 <= t < texts.len() && (#[trigger] tokenizer.encoding(texts[t], false) matches Ok(ids)
                && ids.len() > 0 && ids.is_suffix_of(longer));
        let ids = tokenizer.encoding(texts[t], false)->Ok_0;
        let p = choose|p: int| 0 <= p < looked_for.len() && #[trigger] looked_for[p] == ids;
        assert(patterns[p].pattern() == looked_for[p]);
        law_stream_match(looked_for[p], tokens, patterns[p].matched(), token);
        lemma_completed(looked_for[p], longer);
        assert(completes(patterns[p], token));
    }
}

/// Until the first stop text is complete, the patterns sum up all tokens that were spoken.
proof fn lemma_search_sums_up<
    T: Tokenizer,
    D: Model,
    S: Sampler<Logits = candle_core::Tensor>,
    R: ReasoningSupervisorInterface,
    C: ToolCallingSupervisorInterface,
    M: ModelCacheManagerInterface,
    L: CacheLoader,
    K: StreamCallback,
>(
    engine: InferenceEngine<T, D>,
    config: GenerationConfig,
    texts: Seq<Seq<char>>,
    stages: Seq<Stage<S, R, C, M, L, K>>,
    turns: Seq<Turn<S, R, C>>,
    i: int,
)
    requires
        engine.is_run(config, stages, turns),
        stages[0].progress.stop_pattern_matcher.looks_for(engine.tokenizer.model(), Some(texts)),
        0 <= i <= turns.len(),
        forall|j: int|
            0 <= j < i ==> !#[trigger] completes_stop_text(
                engine.tokenizer.model(),
                texts,
                turns,
                j,
            ),
    ensures
        stages[i].progress.stop_pattern_matcher.patterns() matches Some(patterns) && sums_up(
            patterns,
            encodings(engine.tokenizer.model(), texts),
            spoken_tokens(turns, i),
        ),
    decreases i,
{
    let tokenizer = engine.tokenizer.model();
    let looked_for = encodings(tokenizer, texts);
    if i == 0 {
        let patterns = stages[0].progress.stop_pattern_matcher.patterns()->Some_0;
        let wanted = patterns.map_values(|p: StopPattern| p.pattern());
        assert(wanted == looked_for);
        assert forall|p: int| 0 <= p < patterns.len() implies (#[trigger] patterns[p]).pattern()
            == looked_for[p] && is_longest_match(
            looked_for[p],
            spoken_tokens(turns, 0),
            patterns[p].matched(),
        ) by {
            assert(wanted[p] == patterns[p].pattern());
            law_fresh_stream(looked_for[p]);
        }
    } else {
        lemma_search_sums_up(engine, config, texts, stages, turns, i - 1);
        assert(engine.turn_at(config, stages, turns, i - 1));
        assert(!completes_stop_text(tokenizer, texts, turns, i - 1));
        let before = stages[i - 1].progress.stop_pattern_matcher.patterns()->Some_0;
        let tokens = spoken_tokens(turns, i - 1);
        if let Some(token) = spoken(turns[i - 1]) {
            let patterns = stages[i].progress.stop_pattern_matcher.patterns()->Some_0;
            lemma_hit_is_stop_text(tokenizer, texts, before, tokens, token);
            assert(spoken_tokens(turns, i) == tokens.push(token));
            assert forall|p: int| 0 <= p < patterns.len() implies (#[trigger] patterns[p]).pattern()
                == looked_for[p] && is_longest_match(
                looked_for[p],
                tokens.push(token),
                patterns[p].matched(),
            ) by {
                assert(before[p].pattern() == looked_for[p]);
                assert(!completes(before[p], token));
                law_stream_match(looked_for[p], tokens, before[p].matched(), token);
                if looked_for[p].len() == 0 {
                    assert(patterns[p].matched() == 0);
                    lemma_completed(looked_for[p], tokens.push(token));
                    assert(looked_for[p] =~= tokens.push(token).subrange(
                        tokens.len() as int + 1,
                        tokens.len() as int + 1,
                    ));
                }
                assert(is_longest_match(
                    looked_for[p],
                    tokens.push(token),
                    patterns[p].matched(),
                ));
            }
        }
    }
}

/// A queued end token ends the run: if it stands behind `k` other tokens of the queue, there are
/// at most `k` turns before the last one, and exactly `k` if none of them is the end token.
pub proof fn law_queued_end_ends_run<
    T: Tokenizer,
    D: Model,
    S: Sampler<Logits = candle_core::Tensor>,
    R: ReasoningSupervisorInterface,
    C: ToolCallingSupervisorInterface,
    M: ModelCacheManagerInterface,
    L: CacheLoader,
    K: StreamCallback,
>(
    engine: InferenceEngine<T, D>,
    config: GenerationConfig,
    stages: Seq<Stage<S, R, C, M, L, K>>,
    turns: Seq<Turn<S, R, C>>,
    i: int,
    k: int,
)
    requires
        engine.is_run(config, stages, turns),
        0 <= i < turns.len(),
        0 <= k < stages[i].handler.tokens_to_force@.len(),
        stages[i].handler.tokens_to_force@[k] == stages[i].handler.eos_token_id,
    ensures
        turns.len() <= i + k + 1,
        (forall|j: int|
            0 <= j < k ==> #[trigger] stages[i].handler.tokens_to_force@[j]
                != stages[i].handler.eos_token_id) ==> turns.len() == i + k + 1,
    decreases k,
{
    assert(engine.turn_at(config, stages, turns, i));
    let before = stages[i].handler;
    let after = stages[i + 1].handler;
    let turn = turns[i];
    assert(turn.asked.tokens_to_force == before.tokens_to_force);
    if before.tokens_to_force@[0] == before.eos_token_id {
        assert(turn.step.stop);
    } else {
        assert(!turn.step.stop);
        let rest = before.tokens_to_force@.skip(1);
        crate::inference::generation_handler::law_queue_keeps_order(
            turn.asked,
            (turn.scores, config.logprobs, config.top_logprobs),
            turn.picked,
            turn.answers,
            Ok(turn.event),
            turn.advanced,
        );
        assert forall|j: int| 0 <= j < rest.len() implies after.tokens_to_force@[j]
            == #[trigger] before.tokens_to_force@[j + 1] by {
            assert(rest[j] == before.tokens_to_force@[j + 1]);
            assert(turn.advanced.tokens_to_force@.subrange(0, rest.len() as int)[j] == rest[j]);
        }
        assert(after.tokens_to_force@[k - 1] == before.tokens_to_force@[k - 1 + 1]);
        law_queued_end_ends_run(engine, config, stages, turns, i + 1, k - 1);
        if forall|j: int|
            0 <= j < k ==> #[trigger] before.tokens_to_force@[j] != before.eos_token_id {
            assert forall|j: int| 0 <= j < k - 1 implies #[trigger] after.tokens_to_force@[j]
                != after.eos_token_id by {
                assert(after.tokens_to_force@[j] == before.tokens_to_force@[j + 1]);
            }
        }
    }
}

/// How many times the end is queued in a turn, up to and with the first turn that completes a
/// stop text: once for that, and once where the limit is near.
pub proof fn law_end_is_queued_for_a_cause<
    T: Tokenizer,
    D: Model,
    S: Sampler<Logits = candle_core::Tensor>,
    R: ReasoningSupervisorInterface,
    C: ToolCallingSupervisorInterface,
    M: ModelCacheManagerInterface,
    L: CacheLoader,
    K: StreamCallback,
>(
    engine: InferenceEngine<T, D>,
    config: GenerationConfig,
    texts: Seq<Seq<char>>,
    stages: Seq<Stage<S, R, C, M, L, K>>,
    turns: Seq<Turn<S, R, C>>,
    i: int,
)
    requires
        engine.is_run(config, stages, turns),
        stages[0].progress.steps == 0,
        stages[0].progress.stop_pattern_matcher.looks_for(engine.tokenizer.model(), Some(texts)),
        0 <= i < turns.len() - 1,
        forall|j: int|
            0 <= j < i ==> !#[trigger] completes_stop_text(
                engine.tokenizer.model(),
                texts,
                turns,
                j,
            ),
    ensures
        turns[i].step.ends == (if completes_stop_text(
            engine.tokenizer.model(),
            texts,
            turns,
            i,
        ) {
            1int
        } else {
            0int
        }) + (if i + 2 >= config.max_tokens {
            1int
        } else {
            0int
        }),
{
    let tokenizer = engine.tokenizer.model();
    lemma_search_sums_up(engine, config, texts, stages, turns, i);
    lemma_turns_are_counted(engine, config, stages, turns, i);
    assert(engine.turn_at(config, stages, turns, i));
    assert(!turns[i].step.stop);
    if let Some(token) = spoken(turns[i]) {
        let before = stages[i].progress.stop_pattern_matcher.patterns()->Some_0;
        lemma_hit_is_stop_text(tokenizer, texts, before, spoken_tokens(turns, i), token);
        assert(spoken_tokens(turns, i + 1) == spoken_tokens(turns, i).push(token));
    }
}

proof fn lemma_turns_are_counted<
    T: Tokenizer,
    D: Model,
    S: Sampler<Logits = candle_core::Tensor>,
    R: ReasoningSupervisorInterface,
    C: ToolCallingSupervisorInterface,
    M: ModelCacheManagerInterface,
    L: CacheLoader,
    K: StreamCallback,
>(
    engine: InferenceEngine<T, D>,
    config: GenerationConfig,
    stages: Seq<Stage<S, R, C, M, L, K>>,
    turns: Seq<Turn<S, R, C>>,
    i: int,
)
    requires
        engine.is_run(config, stages, turns),
        stages[0].progress.steps == 0,
        0 <= i <= turns.len(),
    ensures
        stages[i].progress.steps == i,
    decreases i,
{
    if i > 0 {
        lemma_turns_are_counted(engine, config, stages, turns, i - 1);
        assert(engine.turn_at(config, stages, turns, i - 1));
    }
}

/// A stop text ends the generation. Once the tokens that went to the answer or to the reasoning
/// end in a stop text for the first time, the end token is queued in that turn, behind what is
/// queued already; if nothing is, the next turn is the last one.
pub proof fn law_stop_text_ends_generation<
    T: Tokenizer,
    D: Model,
    S: Sampler<Logits = candle_core::Tensor>,
    R: ReasoningSupervisorInterface,
    C: ToolCallingSupervisorInterface,
    M: ModelCacheManagerInterface,
    L: CacheLoader,
    K: StreamCallback,
>(
    engine: InferenceEngine<T, D>,
    config: GenerationConfig,
    texts: Seq<Seq<char>>,
    stages: Seq<Stage<S, R, C, M, L, K>>,
    turns: Seq<Turn<S, R, C>>,
    i: int,
)
    requires
        engine.is_run(config, stages, turns),
        stages[0].progress.stop_pattern_matcher.looks_for(engine.tokenizer.model(), Some(texts)),
        0 <= i < turns.len(),
        completes_stop_text(engine.tokenizer.model(), texts, turns, i),
        forall|j: int|
            0 <= j < i ==> !#[trigger] completes_stop_text(
                engine.tokenizer.model(),
                texts,
                turns,
                j,
            ),
    ensures
        i + 1 < turns.len(),
        turns[i].advanced.tokens_to_force@.push(stages[i].handler.eos_token_id).is_prefix_of(
            stages[i + 1].handler.tokens_to_force@,
        ),
        turns.len() <= i + 2 + turns[i].advanced.tokens_to_force@.len(),
        turns[i].advanced.tokens_to_force@.len() == 0 ==> turns.len() == i + 2,
{
    let tokenizer = engine.tokenizer.model();
    lemma_search_sums_up(engine, config, texts, stages, turns, i);
    assert(engine.turn_at(config, stages, turns, i));
    let before = stages[i].progress.stop_pattern_matcher.patterns()->Some_0;
    let token = spoken(turns[i])->Some_0;
    lemma_hit_is_stop_text(tokenizer, texts, before, spoken_tokens(turns, i), token);
    assert(spoken_tokens(turns, i + 1) == spoken_tokens(turns, i).push(token));
    assert(!turns[i].step.stop);
    let queue = turns[i].advanced.tokens_to_force@;
    let after = stages[i + 1].handler;
    assert(after.tokens_to_force@[queue.len() as int] == after.eos_token_id);
    assert(queue.push(stages[i].handler.eos_token_id) =~= after.tokens_to_force@.subrange(
        0,
        queue.len() as int + 1,
    ));
    law_queued_end_ends_run(engine, config, stages, turns, i + 1, queue.len() as int);
}

/// A token that completes one of the patterns, whatever they have seen before, queues the end
/// token in its turn, and no run goes on past the end token that is queued.
pub proof fn law_completed_pattern_ends_run<
    T: Tokenizer,
    D: Model,
    S: Sampler<Logits = candle_core::Tensor>,
    R: ReasoningSupervisorInterface,
    C: ToolCallingSupervisorInterface,
    M: ModelCacheManagerInterface,
    L: CacheLoader,
    K: StreamCallback,
>(
    engine: InferenceEngine<T, D>,
    config: GenerationConfig,
    stages: Seq<Stage<S, R, C, M, L, K>>,
    turns: Seq<Turn<S, R, C>>,
    i: int,
    p: int,
)
    requires
        engine.is_run(config, stages, turns),
        0 <= i < turns.len(),
        spoken(turns[i]) is Some,
        stages[i].progress.stop_pattern_matcher.patterns() is Some,
        0 <= p < stages[i].progress.stop_pattern_matcher.patterns()->Some_0.len(),
        ({
            let pattern = stages[i].progress.stop_pattern_matcher.patterns()->Some_0[p];
            &&& pattern.pattern().len() > 0
            &&& pattern.pattern().is_suffix_of(
                pattern.pattern().take(pattern.matched()).push(spoken(turns[i])->Some_0),
            )
        }),
    ensures
        i + 1 < turns.len(),
        stages[i + 1].handler.tokens_to_force@.len() > 0,
        stages[i + 1].handler.tokens_to_force@.last() == stages[i].handler.eos_token_id,
        turns.len() <= i + 2 + turns[i].advanced.tokens_to_force@.len(),
        turns[i].advanced.tokens_to_force@.len() == 0 ==> turns.len() == i + 2,
{
    assert(engine.turn_at(config, stages, turns, i));
    let pattern = stages[i].progress.stop_pattern_matcher.patterns()->Some_0[p];
    let token = spoken(turns[i])->Some_0;
    lemma_completed(pattern.pattern(), pattern.pattern().take(pattern.matched()).push(token));
    assert(completes(pattern, token));
    assert(!turns[i].step.stop);
    let queue = turns[i].advanced.tokens_to_force@;
    let after = stages[i + 1].handler;
    assert(after.tokens_to_force@[queue.len() as int] == after.eos_token_id);
    law_queued_end_ends_run(engine, config, stages, turns, i + 1, queue.len() as int);
}

/// The generation comes to its limit: the turn before the last one is at most two short of it.
pub proof fn law_limit_ends_generation<
    T: Tokenizer,
    D: Model,
    S: Sampler<Logits = candle_core::Tensor>,
    R: ReasoningSupervisorInterface,
    C: ToolCallingSupervisorInterface,
    M: ModelCacheManagerInterface,
    L: CacheLoader,
    K: StreamCallback,
>(
    engine: InferenceEngine<T, D>,
    config: GenerationConfig,
    stages: Seq<Stage<S, R, C, M, L, K>>,
    turns: Seq<Turn<S, R, C>>,
    i: int,
)
    requires
        engine.is_run(config, stages, turns),
        stages[0].progress.steps == 0,
        0 <= i < turns.len() - 1,
        i + 2 >= config.max_tokens,
    ensures
        stages[i + 1].handler.tokens_to_force@.len() > 0,
        stages[i + 1].handler.tokens_to_force@.last() == stages[i].handler.eos_token_id,
        turns.len() <= i + 2 + turns[i].advanced.tokens_to_force@.len(),
        turns[i].advanced.tokens_to_force@.len() == 0 ==> turns.len() == i + 2,
{
    lemma_turns_are_counted(engine, config, stages, turns, i);
    assert(engine.turn_at(config, stages, turns, i));
    assert(!turns[i].step.stop);
    let queue = turns[i].advanced.tokens_to_force@;
    let after = stages[i + 1].handler;
    assert(after.tokens_to_force@[queue.len() as int] == after.eos_token_id);
    law_queued_end_ends_run(engine, config, stages, turns, i + 1, queue.len() as int);
}

/// A turn is the last one exactly if it picks the end token, which nobody hears and which stands
/// in neither text.
pub proof fn law_end_token_is_silent<
    T: Tokenizer,
    D: Model,
    S: Sampler<Logits = candle_core::Tensor>,
    R: ReasoningSupervisorInterface,
    C: ToolCallingSupervisorInterface,
    M: ModelCacheManagerInterface,
    L: CacheLoader,
    K: StreamCallback,
>(
    engine: InferenceEngine<T, D>,
    config: GenerationConfig,
    stages: Seq<Stage<S, R, C, M, L, K>>,
    turns: Seq<Turn<S, R, C>>,
    i: int,
)
    requires
        engine.is_run(config, stages, turns),
        0 <= i < turns.len(),
    ensures
        turns[i].picked is Ok,
        turns[i].picked->Ok_0.token == stages[i].handler.eos_token_id <==> i == turns.len() - 1,
        i == turns.len() - 1 ==> {
            &&& turns[i].step.frame is None
            &&& stages[i + 1].progress.content_text@ == stages[i].progress.content_text@
            &&& stages[i + 1].progress.reasoning_text@ == stages[i].progress.reasoning_text@
            &&& stages[i + 1].progress.finish_reason == stages[i].progress.finish_reason
            &&& stages[i + 1].listener == stages[i].listener
        },
{
    assert(engine.turn_at(config, stages, turns, i));
    assert(turns[i].step.stop <==> i == turns.len() - 1);
}

/// The turn speaks a token that completes one of the patterns.
pub open spec fn completes_pattern<
    S: Sampler,
    R: ReasoningSupervisorInterface,
    C: ToolCallingSupervisorInterface,
    M: ModelCacheManagerInterface,
    L: CacheLoader,
    K: StreamCallback,
>(stage: Stage<S, R, C, M, L, K>, turn: Turn<S, R, C>) -> bool {
    &&& spoken(turn) matches Some(token)
    &&& stage.progress.stop_pattern_matcher.patterns() matches Some(patterns)
    &&& exists|p: int| 0 <= p < patterns.len() && completes(#[trigger] patterns[p], token)
}

proof fn lemma_reason_so_far<
    T: Tokenizer,
    D: Model,
    S: Sampler<Logits = candle_core::Tensor>,
    R: ReasoningSupervisorInterface,
    C: ToolCallingSupervisorInterface,
    M: ModelCacheManagerInterface,
    L: CacheLoader,
    K: StreamCallback,
>(
    engine: InferenceEngine<T, D>,
    config: GenerationConfig,
    stages: Seq<Stage<S, R, C, M, L, K>>,
    turns: Seq<Turn<S, R, C>>,
    j: int,
    i: int,
)
    requires
        engine.is_run(config, stages, turns),
        stages[0].progress.steps == 0,
        0 <= j <= i < turns.len(),
        turns.len() < config.max_tokens,
    ensures
        (forall|k: int| j <= k < i ==> !((#[trigger] turns[k]).event is ToolCallNameChunk)) ==> (
        stages[i].progress.finish_reason == stages[j].progress.finish_reason
            || stages[i].progress.finish_reason == FinishReason::Stop),
        (forall|k: int|
            j <= k < i ==> !completes_pattern(#[trigger] stages[k], turns[k])) ==> (
        stages[i].progress.finish_reason == stages[j].progress.finish_reason
            || stages[i].progress.finish_reason == FinishReason::ToolCalls),
    decreases i,
{
    if j < i {
        lemma_reason_so_far(engine, config, stages, turns, j, i - 1);
        lemma_turns_are_counted(engine, config, stages, turns, i - 1);
        assert(engine.turn_at(config, stages, turns, i - 1));
        assert(!turns[i - 1].step.stop);
        if forall|k: int| j <= k < i ==> !completes_pattern(#[trigger] stages[k], turns[k]) {
            assert(!completes_pattern(stages[i - 1], turns[i - 1]));
        }
    }
}

/// Why a generation ends that does not come to its limit: with the call of a tool if its name was
/// written and no stop text after it, and else as any answer does.
pub proof fn law_finish_reason<
    T: Tokenizer,
    D: Model,
    S: Sampler<Logits = candle_core::Tensor>,
    R: ReasoningSupervisorInterface,
    C: ToolCallingSupervisorInterface,
    M: ModelCacheManagerInterface,
    L: CacheLoader,
    K: StreamCallback,
>(
    engine: InferenceEngine<T, D>,
    config: GenerationConfig,
    stages: Seq<Stage<S, R, C, M, L, K>>,
    turns: Seq<Turn<S, R, C>>,
    j: int,
)
    requires
        engine.is_run(config, stages, turns),
        stages[0].progress.steps == 0,
        stages[0].progress.finish_reason == FinishReason::Stop,
        turns.len() < config.max_tokens,
        0 <= j < turns.len() - 1,
    ensures
        (forall|k: int|
            0 <= k < turns.len() - 1 ==> !((#[trigger] turns[k]).event is ToolCallNameChunk)) ==>
            stages.last().progress.finish_reason == FinishReason::Stop,
        turns[j].event is ToolCallNameChunk && (forall|k: int|
            j < k < turns.len() - 1 ==> !completes_pattern(#[trigger] stages[k], turns[k])) ==>
            stages.last().progress.finish_reason == FinishReason::ToolCalls,
        completes_pattern(stages[j], turns[j]) && (forall|k: int|
            j < k < turns.len() - 1 ==> !((#[trigger] turns[k]).event is ToolCallNameChunk)) ==>
            stages.last().progress.finish_reason == FinishReason::Stop,
{
    let n = turns.len() as int;
    lemma_reason_so_far(engine, config, stages, turns, 0, n - 1);
    lemma_reason_so_far(engine, config, stages, turns, j + 1, n - 1);
    lemma_turns_are_counted(engine, config, stages, turns, j);
    assert(engine.turn_at(config, stages, turns, j));
    assert(!turns[j].step.stop);
    law_end_token_is_silent(engine, config, stages, turns, n - 1);
}

/// The decoder's memory before a turn: it has seen the tokens that were spoken.
pub open spec fn decoder_before<
    S: Sampler,
    R: ReasoningSupervisorInterface,
    C: ToolCallingSupervisorInterface,
>(tokenizer: TokenizerView, turns: Seq<Turn<S, R, C>>, i: int) -> StreamView
    decreases i,
{
    if i <= 0 {
        fresh_stream()
    } else {
        match spoken(turns[i - 1]) {
            Some(token) => tokenizer.decoding_of_one(
                decoder_before(tokenizer, turns, i - 1),
                token,
            ).stream,
            None => decoder_before(tokenizer, turns, i - 1),
        }
    }
}

/// The text that is complete with the token of a turn.
pub open spec fn written_in<
    S: Sampler,
    R: ReasoningSupervisorInterface,
    C: ToolCallingSupervisorInterface,
>(tokenizer: TokenizerView, turns: Seq<Turn<S, R, C>>, i: int) -> Seq<char> {
    match spoken(turns[i]) {
        Some(token) => match tokenizer.decoding_of_one(
            decoder_before(tokenizer, turns, i),
            token,
        ).result {
            Ok(Some(text)) => text,
            _ => seq![],
        },
        None => seq![],
    }
}

/// The texts of the answer in the first turns.
pub open spec fn answer_of<
    S: Sampler,
    R: ReasoningSupervisorInterface,
    C: ToolCallingSupervisorInterface,
>(tokenizer: TokenizerView, turns: Seq<Turn<S, R, C>>, count: int) -> Seq<char>
    decreases count,
{
    if count <= 0 {
        seq![]
    } else if turns[count - 1].event is ContentSampled {
        answer_of(tokenizer, turns, count - 1) + written_in(tokenizer, turns, count - 1)
    } else {
        answer_of(tokenizer, turns, count - 1)
    }
}

/// The texts of the reasoning in the first turns.
pub open spec fn reasoning_of<
    S: Sampler,
    R: ReasoningSupervisorInterface,
    C: ToolCallingSupervisorInterface,
>(tokenizer: TokenizerView, turns: Seq<Turn<S, R, C>>, count: int) -> Seq<char>
    decreases count,
{
    if count <= 0 {
        seq![]
    } else if turns[count - 1].event is ReasoningSampled {
        reasoning_of(tokenizer, turns, count - 1) + written_in(tokenizer, turns, count - 1)
    } else {
        reasoning_of(tokenizer, turns, count - 1)
    }
}

proof fn lemma_texts_so_far<
    T: Tokenizer,
    D: Model,
    S: Sampler<Logits = candle_core::Tensor>,
    R: ReasoningSupervisorInterface,
    C: ToolCallingSupervisorInterface,
    M: ModelCacheManagerInterface,
    L: CacheLoader,
    K: StreamCallback,
>(
    engine: InferenceEngine<T, D>,
    config: GenerationConfig,
    stages: Seq<Stage<S, R, C, M, L, K>>,
    turns: Seq<Turn<S, R, C>>,
    i: int,
)
    requires
        engine.is_run(config, stages, turns),
        stages[0].progress.content_text@.len() == 0,
        stages[0].progress.reasoning_text@.len() == 0,
        stages[0].progress.stream_ctx@ == fresh_stream(),
        0 <= i <= turns.len(),
    ensures
        stages[i].progress.stream_ctx@ == decoder_before(engine.tokenizer.model(), turns, i),
        stages[i].progress.content_text@ == answer_of(engine.tokenizer.model(), turns, i),
        stages[i].progress.reasoning_text@ == reasoning_of(engine.tokenizer.model(), turns, i),
    decreases i,
{
    if i > 0 {
        lemma_texts_so_far(engine, config, stages, turns, i - 1);
        assert(engine.turn_at(config, stages, turns, i - 1));
        let before = stages[i - 1].progress;
        assert(before.content_text@ + Seq::<char>::empty() =~= before.content_text@);
        assert(before.reasoning_text@ + Seq::<char>::empty() =~= before.reasoning_text@);
    }
}

/// The report of a generation: the answer is the text of the tokens of the answer, the reasoning
/// that of the tokens of the reasoning, each decoded in its turn by one decoder; the figures are
/// the lengths of the prompt and of the run.
pub proof fn law_report_is_decoded_text<
    'e,
    T: Tokenizer,
    D: Model,
    S: Sampler<Logits = candle_core::Tensor>,
    M: ModelCacheManagerInterface,
    L: CacheLoader,
    K: StreamCallback,
>(
    engine: &'e InferenceEngine<T, D>,
    request: (Seq<u32>, GenerationConfig, S),
    before: (GenerationContext<M, L>, K),
    found: usize,
    stages: Seq<
        Stage<S, ReasoningSupervisor, ToolCallingSupervisor<'e, ToolFormatter, T>, M, L, K>,
    >,
    turns: Seq<Turn<S, ReasoningSupervisor, ToolCallingSupervisor<'e, ToolFormatter, T>>>,
    report: GenerationReport,
    after: (GenerationContext<M, L>, K),
)
    requires
        engine.is_generation(request, before, found, stages, turns, report, after),
    ensures
        report.chat_message.content matches Some(text) && text@ == answer_of(
            engine.tokenizer.model(),
            turns,
            turns.len() as int,
        ),
        match report.chat_message.reasoning_content {
            Some(text) => text@.len() > 0 && text@ == reasoning_of(
                engine.tokenizer.model(),
                turns,
                turns.len() as int,
            ),
            None => reasoning_of(engine.tokenizer.model(), turns, turns.len() as int).len() == 0,
        },
        report.chat_message.role == Role::Assistant,
        request.0.len() + turns.len() <= u32::MAX ==> {
            &&& report.usage.prompt_tokens == request.0.len()
            &&& report.usage.completion_tokens == turns.len()
            &&& report.usage.total_tokens == report.usage.prompt_tokens
                + report.usage.completion_tokens
        },
{
    lemma_texts_so_far(*engine, request.1, stages, turns, turns.len() as int);
    lemma_turns_are_counted(*engine, request.1, stages, turns, turns.len() as int);
}

/// What the listener hears in a turn: the text that is complete with a token of the answer or of
/// the reasoning, under the name of what it is part of, or the piece of a tool call, and nothing
/// else.
pub proof fn law_heard_in_turn<
    T: Tokenizer,
    D: Model,
    S: Sampler<Logits = candle_core::Tensor>,
    R: ReasoningSupervisorInterface,
    C: ToolCallingSupervisorInterface,
    M: ModelCacheManagerInterface,
    L: CacheLoader,
    K: StreamCallback,
>(
    engine: InferenceEngine<T, D>,
    config: GenerationConfig,
    stages: Seq<Stage<S, R, C, M, L, K>>,
    turns: Seq<Turn<S, R, C>>,
    i: int,
)
    requires
        engine.is_run(config, stages, turns),
        stages[0].progress.content_text@.len() == 0,
        stages[0].progress.reasoning_text@.len() == 0,
        stages[0].progress.stream_ctx@ == fresh_stream(),
        0 <= i < turns.len(),
    ensures
        spoken(turns[i]) matches Some(token) ==> match engine.tokenizer.model().decoding_of_one(
            decoder_before(engine.tokenizer.model(), turns, i),
            token,
        ).result {
            Ok(Some(text)) => {
                &&& turns[i].step.frame matches Some(frame)
                &&& frame.output@ == text
                &&& frame.output_type == (if turns[i].event is ContentSampled {
                    GenerationDataType::DirectContent
                } else {
                    GenerationDataType::Reasoning
                })
                &&& frame.tool_call_chunk is None
            },
            Ok(None) => turns[i].step.frame is None,
            Err(_) => false,
        },
        turns[i].event matches GenerationEvent::ToolCallNameChunk { chunk } ==> {
            &&& turns[i].step.frame matches Some(frame)
            &&& frame.tool_call_chunk == Some(chunk)
            &&& frame.output_type == GenerationDataType::ToolCallName
            &&& frame.output@.len() == 0
            &&& frame.logprobs is None
        },
        turns[i].event matches GenerationEvent::ToolCallArgumentsChunk { chunk } ==> {
            &&& turns[i].step.frame matches Some(frame)
            &&& frame.tool_call_chunk == Some(chunk)
            &&& frame.output_type == GenerationDataType::ToolCallArguments
            &&& frame.output@.len() == 0
            &&& frame.logprobs is None
        },
        !(turns[i].event is ContentSampled || turns[i].event is ReasoningSampled
            || turns[i].event is ToolCallNameChunk || turns[i].event is ToolCallArgumentsChunk)
            ==> turns[i].step.frame is None,
        turns[i].step.frame matches Some(frame) ==> exists|result: Result<(), LociError>|
            #[trigger] stages[i].listener.hears(frame, result, stages[i + 1].listener) && result is Ok,
        turns[i].step.frame is None ==> stages[i + 1].listener == stages[i].listener,
{
    lemma_texts_so_far(engine, config, stages, turns, i);
    assert(engine.turn_at(config, stages, turns, i));
}

/// The rivals of a token are written in their order, each with its text and its bytes; there are
/// none if one of them cannot be written, or if none were given.
pub open spec fn rivals_fit(
    tokenizer: TokenizerView,
    entries: Option<Vec<TopKEntry>>,
    rivals: Option<Vec<TopLogprobs>>,
) -> bool {
    match (entries, rivals) {
        (Some(entries), Some(list)) => {
            &&& list@.len() == entries@.len()
            &&& forall|k: int|
                0 <= k < list@.len() ==> {
                    &&& (#[trigger] list@[k]).logprob == entries@[k].logprob
                    &&& tokenizer.text(seq![entries@[k].token_id], true) == Ok::<
                        Seq<char>,
                        Seq<char>,
                    >(list@[k].token@)
                    &&& list@[k].bytes@ == encode_utf8(list@[k].token@)
                }
        },
        (Some(entries), None) => exists|k: int|
            0 <= k < entries@.len() && tokenizer.text(
                seq![(#[trigger] entries@[k]).token_id],
                true,
            ) is Err,
        (None, Some(_)) => false,
        (None, None) => true,
    }
}

/// The log probabilities of a token that is written as `text`: its own, with the bytes of the
/// text, and those of its rivals; none if it has none itself.
pub open spec fn logprobs_fit(
    tokenizer: TokenizerView,
    sampled: SamplingResult,
    text: Seq<char>,
    logprobs: Option<LogprobsContent>,
) -> bool {
    match (sampled.logprob, logprobs) {
        (None, None) => true,
        (Some(logprob), Some(content)) => {
            &&& content.logprob == logprob
            &&& content.token@ == text
            &&& content.bytes@ == encode_utf8(text)
            &&& rivals_fit(tokenizer, sampled.top_k_logprobs, content.top_logprobs)
        },
        _ => false,
    }
}

/// The log probabilities that are reported for a token are its own and those of its rivals.
pub proof fn law_logprobs_are_those_of_the_token(
    tokenizer: TokenizerView,
    sampled: SamplingResult,
    text: Seq<char>,
    logprobs: Option<LogprobsContent>,
)
    requires
        logprobs_view(logprobs) == reported_logprobs(tokenizer, text, sampled),
    ensures
        logprobs_fit(tokenizer, sampled, text, logprobs),
{
    if let Some(entries) = sampled.top_k_logprobs {
        lemma_written_rivals(tokenizer, entries@);
        if let Some(content) = logprobs {
            if let Some(list) = content.top_logprobs {
                let views = list@.map_values(|entry: TopLogprobs| top_view(entry));
                assert(written_rivals(tokenizer, entries@) == Some(views));
                assert forall|k: int| 0 <= k < list@.len() implies {
                    &&& (#[trigger] list@[k]).logprob == entries@[k].logprob
                    &&& tokenizer.text(seq![entries@[k].token_id], true) == Ok::<
                        Seq<char>,
                        Seq<char>,
                    >(list@[k].token@)
                    &&& list@[k].bytes@ == encode_utf8(list@[k].token@)
                } by {
                    assert(views[k] == top_view(list@[k]));
                }
            }
            assert(rivals_fit(tokenizer, sampled.top_k_logprobs, content.top_logprobs));
        }
    }
}

/// What is heard of a token of the answer or of the reasoning comes with its log probabilities.
pub proof fn law_heard_logprobs<
    T: Tokenizer,
    D: Model,
    S: Sampler<Logits = candle_core::Tensor>,
    R: ReasoningSupervisorInterface,
    C: ToolCallingSupervisorInterface,
    M: ModelCacheManagerInterface,
    L: CacheLoader,
    K: StreamCallback,
>(
    engine: InferenceEngine<T, D>,
    config: GenerationConfig,
    stages: Seq<Stage<S, R, C, M, L, K>>,
    turns: Seq<Turn<S, R, C>>,
    i: int,
)
    requires
        engine.is_run(config, stages, turns),
        0 <= i < turns.len(),
        turns[i].step.frame is Some,
    ensures
        turns[i].event matches GenerationEvent::ContentSampled { sampling_result } ==> logprobs_fit(
            engine.tokenizer.model(),
            sampling_result,
            turns[i].step.frame->Some_0.output@,
            turns[i].step.frame->Some_0.logprobs,
        ),
        turns[i].event matches GenerationEvent::ReasoningSampled { sampling_result }
            ==> logprobs_fit(
            engine.tokenizer.model(),
            sampling_result,
            turns[i].step.frame->Some_0.output@,
            turns[i].step.frame->Some_0.logprobs,
        ),
{
    assert(engine.turn_at(config, stages, turns, i));
    let frame = turns[i].step.frame->Some_0;
    if let GenerationEvent::ContentSampled { sampling_result } = turns[i].event {
        law_logprobs_are_those_of_the_token(
            engine.tokenizer.model(),
            sampling_result,
            frame.output@,
            frame.logprobs,
        );
    }
    if let GenerationEvent::ReasoningSampled { sampling_result } = turns[i].event {
        law_logprobs_are_those_of_the_token(
            engine.tokenizer.model(),
            sampling_result,
            frame.output@,
            frame.logprobs,
        );
    }
}

proof fn lemma_written_rivals(tokenizer: TokenizerView, entries: Seq<TopKEntry>)
    ensures
        match written_rivals(tokenizer, entries) {
            Some(list) => list.len() == entries.len() && forall|k: int|
                0 <= k < list.len() ==> {
                    &&& (#[trigger] list[k]).logprob == entries[k].logprob
                    &&& tokenizer.text(seq![entries[k].token_id], true) == Ok::<
                        Seq<char>,
                        Seq<char>,
                    >(list[k].token)
                    &&& list[k].bytes == encode_utf8(list[k].token)
                },
            None => exists|k: int|
                0 <= k < entries.len() && tokenizer.text(
                    seq![(#[trigger] entries[k]).token_id],
                    true,
                ) is Err,
        },
    decreases entries.len(),
{
    if entries.len() > 0 {
        let rest = entries.drop_last();
        lemma_written_rivals(tokenizer, rest);
        if written_rivals(tokenizer, entries) is None {
            if written_rivals(tokenizer, rest) is None {
                let k = choose|k: int|
                    0 <= k < rest.len() && tokenizer.text(
                        seq![(#[trigger] rest[k]).token_id],
                        true,
                    ) is Err;
                assert(tokenizer.text(seq![entries[k].token_id], true) is Err);
            } else {
                let k = entries.len() - 1;
                assert(tokenizer.text(seq![entries[k].token_id], true) is Err);
            }
        }
    }
}

} // verus!
