//! What a generation does, turn by turn.
use vstd::prelude::*;

use crate::config::generation_config::GenerationConfig;
use crate::error::{ErrorView, LociError};
use crate::float::Float64;
use crate::inference::engine::{
    are_scores, last_scores, text_token, usage_of, InferenceEngine, Progress, Step, StreamCallback,
};
use crate::inference::generation_context::{
    CacheLoader, GenerationContext, ModelCacheManagerInterface, Place,
};
use crate::inference::generation_handler::{template_ids, Answers, GenerationHandler};
use crate::inference::reasoning_supervisor::{
    supervisor_for, ReasoningSupervisor, ReasoningSupervisorInterface,
};
use crate::inference::sampler::Sampler;
use crate::inference::tool_calling_supervisor::{
    ToolCallingSupervisor, ToolCallingSupervisorInterface,
};
use crate::inference::tool_formatter::ToolFormatter;
use crate::inference::types::{
    GenerationDataType, GenerationEvent, GenerationReport, SamplingResult, StreamFrame,
};
use crate::model::{MixedCache, Model};
use crate::tensor::{device_on_cpu, id_bytes, tensor_on_cpu, tensor_view, RawView, TensorDtype};
use crate::text::text_of;
use crate::tokenizer::Tokenizer;
use crate::types::{call_models, FinishReason, Role, ToolCall, ToolCallView};

verus! {

/// How far everything has come that takes part in a generation.
pub struct Stage<
    S: Sampler,
    R: ReasoningSupervisorInterface,
    C: ToolCallingSupervisorInterface,
    M: ModelCacheManagerInterface,
    L: CacheLoader,
    K: StreamCallback,
> {
    pub handler: GenerationHandler<S, R, C>,
    pub ctx: GenerationContext<M, L>,
    pub progress: Progress,
    pub listener: K,
}

/// What happens in one turn of a generation.
pub struct Turn<
    S: Sampler,
    R: ReasoningSupervisorInterface,
    C: ToolCallingSupervisorInterface,
> {
    /// The scores of the token that comes next.
    pub scores: S::Logits,
    /// The token that the queue or the sampler gives.
    pub picked: Result<SamplingResult, String>,
    /// What the supervisors say of it.
    pub answers: Answers,
    pub event: GenerationEvent,
    pub step: Step,
    /// The handler when it is asked for the token, and after that.
    pub asked: GenerationHandler<S, R, C>,
    pub advanced: GenerationHandler<S, R, C>,
}

/// The sampler after it took note of tokens in their order.
pub open spec fn notes_all<S: Sampler>(before: S, tokens: Seq<u32>, after: S) -> bool
    decreases tokens.len(),
{
    if tokens.len() == 0 {
        after == before
    } else {
        exists|middle: S| #[trigger]
            middle.notes(tokens.last(), after) && notes_all(before, tokens.drop_last(), middle)
    }
}

/// The tensor that a model is given for tokens: the ids in one row of a batch of one.
pub open spec fn is_input_of(
    input: candle_core::Tensor,
    tokens: Seq<u32>,
    device: candle_core::Device,
) -> bool {
    &&& tensor_view(input) == (RawView {
        dtype: TensorDtype::U32.text(),
        shape: seq![1usize, tokens.len() as usize],
        data: id_bytes(tokens),
    })
    &&& tensor_on_cpu(input) == device_on_cpu(device)
}

/// The listener after a turn: it heard the output of the turn, if there was any, and went on.
pub open spec fn told<K: StreamCallback>(
    listener: K,
    frame: Option<StreamFrame>,
    after: K,
) -> bool {
    match frame {
        Some(frame) => exists|result: Result<(), LociError>| #[trigger]
            listener.hears(frame, result, after) && result is Ok,
        None => after == listener,
    }
}

/// The models of the calls of a message.
pub open spec fn called(calls: Option<Vec<ToolCall>>) -> Option<Seq<ToolCallView>> {
    match calls {
        Some(list) => Some(call_models(list@)),
        None => None,
    }
}

impl<
    S: Sampler,
    R: ReasoningSupervisorInterface,
    C: ToolCallingSupervisorInterface,
    M: ModelCacheManagerInterface,
    L: CacheLoader,
    K: StreamCallback,
> Stage<S, R, C, M, L, K> {
    /// The calls that are reported.
    pub open spec fn calls(&self) -> Option<Seq<ToolCallView>> {
        match self.handler.tool_calling_supervisor {
            Some(supervisor) => match supervisor.calls() {
                Some(list) if list.len() > 0 => Some(list),
                _ => None,
            },
            None => None,
        }
    }

    /// The number of reasoning tokens that is reported.
    pub open spec fn reasoning_tokens(&self) -> u32 {
        match self.handler.reasoning_supervisor {
            Some(supervisor) => supervisor.tokens_count(),
            None => 0,
        }
    }

    /// `report` is what is reported at this stage of a generation after a prompt of this length.
    pub open spec fn is_reported(&self, prompt_len: int, report: GenerationReport) -> bool {
        &&& report.chat_message.role == Role::Assistant
        &&& text_of(report.chat_message.content) == Some(self.progress.content_text@)
        &&& text_of(report.chat_message.reasoning_content) == (if self.progress.reasoning_text@.len()
            == 0 {
            None
        } else {
            Some(self.progress.reasoning_text@)
        })
        &&& called(report.chat_message.tool_calls) == self.calls()
        &&& report.chat_message.tool_call_id is None
        &&& report.finish_reason == self.progress.finish_reason
        &&& report.usage == usage_of(
            prompt_len,
            self.progress.steps as int,
            self.reasoning_tokens(),
        )
        &&& report.token_generation_sec == (Float64 { bits: 0 })
    }
}

impl<T: Tokenizer, D: Model> InferenceEngine<T, D> {
    /// The conversation once a memory of the beginning of a prompt was looked for: where there is
    /// none, it begins anew with a memory of the model.
    pub open spec fn prepares<M: ModelCacheManagerInterface, L: CacheLoader>(
        &self,
        before: GenerationContext<M, L>,
        prompt: Seq<u32>,
        matched: Result<usize, LociError>,
        middle: GenerationContext<M, L>,
        result: Result<usize, LociError>,
        after: GenerationContext<M, L>,
    ) -> bool {
        &&& before.matches_as_planned(
            prompt,
            before.plan_for(prompt, self.model.prefill()),
            (Place { device: self.device, conv_on_cpu: self.model.conv_place() }),
            matched,
            middle,
        )
        &&& if matched == Ok::<usize, LociError>(0) {
            exists|memory: Result<Vec<Option<MixedCache>>, String>| #[trigger]
                self.model.begins_with(memory) && match memory {
                    Ok(new_cache) => result == matched && middle.resets_to(new_cache, true, after),
                    Err(message) => {
                        &&& result is Err
                        &&& result->Err_0@ == ErrorView::ModelLoad(message@)
                        &&& after == middle
                    },
                }
        } else {
            result == matched && after == middle
        }
    }

    /// The supervisors and the forced tool of a new generation, and the handler that follows
    /// them.
    pub open spec fn starts<'e, S: Sampler>(
        &'e self,
        input: Seq<u32>,
        config: GenerationConfig,
        sampler: S,
        calling: Result<Option<ToolCallingSupervisor<'e, ToolFormatter, T>>, String>,
        template: Result<Option<Vec<u32>>, String>,
        result: Result<
            GenerationHandler<S, ReasoningSupervisor, ToolCallingSupervisor<'e, ToolFormatter, T>>,
            LociError,
        >,
    ) -> bool {
        &&& ToolCallingSupervisor::<'e, ToolFormatter, T>::is_new(
            self.supports_tool_calling,
            self.post_sampling_config,
            &self.tokenizer,
            calling,
        )
        &&& match calling {
            Err(message) => result is Err && result->Err_0@ == ErrorView::Inference(message@),
            Ok(supervisor) => {
                &&& match supervisor {
                    Some(supervisor) => supervisor.gives_template(
                        self.tokenizer.model(),
                        config.tool_choice.model(),
                        template,
                    ),
                    None => template matches Ok(None),
                }
                &&& match template {
                    Err(message) => result is Err && result->Err_0@ == ErrorView::Inference(
                        message@,
                    ),
                    Ok(template) => exists|
                        answers: Answers,
                        after: (
                            Option<ReasoningSupervisor>,
                            Option<ToolCallingSupervisor<'e, ToolFormatter, T>>,
                        ),
                        begun: Result<
                            GenerationHandler<
                                S,
                                ReasoningSupervisor,
                                ToolCallingSupervisor<'e, ToolFormatter, T>,
                            >,
                            String,
                        >,
                    |
                        #[trigger] GenerationHandler::begins(
                            (
                                supervisor_for(
                                    self.supports_reasoning,
                                    config.reasoning_effort,
                                    self.post_sampling_config,
                                ),
                                supervisor,
                            ),
                            input,
                            template_ids(template),
                            answers,
                            after,
                            begun,
                        ) && match begun {
                            Ok(handler) => {
                                &&& result is Ok
                                &&& result->Ok_0 == handler
                                &&& handler.sampler == sampler
                                &&& handler.eos_token_id == self.tokenizer.end_token()
                            },
                            Err(message) => {
                                &&& result is Err
                                &&& result->Err_0@ == ErrorView::Inference(message@)
                            },
                        },
                }
            },
        }
    }

    /// `answer` is what the model computes for an input at the end of the conversation.
    pub open spec fn model_answers<M: ModelCacheManagerInterface, L: CacheLoader>(
        &self,
        before: GenerationContext<M, L>,
        input: candle_core::Tensor,
        answer: Result<candle_core::Tensor, String>,
        after: GenerationContext<M, L>,
    ) -> bool {
        &&& self.model.computes(
            input,
            before.active_cache@,
            before.token_ids@.len() as usize,
            self.flash_attn,
            answer,
            after.active_cache@,
        )
        &&& after == (GenerationContext { active_cache: after.active_cache, ..before })
    }

    /// The model reads tokens: it is given exactly them, at the position where the conversation
    /// ends, and the scores are those that it gives for the token after the last of them.
    pub open spec fn reads<M: ModelCacheManagerInterface, L: CacheLoader>(
        &self,
        before: GenerationContext<M, L>,
        tokens: Seq<u32>,
        scores: candle_core::Tensor,
        after: GenerationContext<M, L>,
    ) -> bool {
        exists|
            input: candle_core::Tensor,
            logits: candle_core::Tensor,
            middle: GenerationContext<M, L>,
        |
            {
                &&& is_input_of(input, tokens, self.device)
                &&& #[trigger] self.model_answers(before, input, Ok(logits), middle)
                &&& are_scores(logits)
                &&& tensor_view(scores) == last_scores(tensor_view(logits))
                &&& middle.updates_to(tokens, after)
            }
    }

    /// Why the model cannot read tokens: there are more than can be counted, the device does not
    /// take them, the model fails, its answer is no scores, or its memory is too short to be cut
    /// as the conversation wants it.
    pub open spec fn reading_fails<M: ModelCacheManagerInterface, L: CacheLoader>(
        &self,
        before: GenerationContext<M, L>,
        tokens: Seq<u32>,
        error: LociError,
        after: GenerationContext<M, L>,
    ) -> bool {
        ||| {
            &&& before.token_ids@.len() + tokens.len() > usize::MAX
            &&& error@ == ErrorView::Inference("too many tokens"@)
            &&& after == before
        }
        ||| {
            &&& !device_on_cpu(self.device)
            &&& error@ is Inference
            &&& after == before
        }
        ||| exists|
            input: candle_core::Tensor,
            answer: Result<candle_core::Tensor, String>,
            middle: GenerationContext<M, L>,
        |
            {
                &&& is_input_of(input, tokens, self.device)
                &&& #[trigger] self.model_answers(before, input, answer, middle)
                &&& match answer {
                    Err(message) => error@ == ErrorView::Inference(message@) && after == middle,
                    Ok(logits) => if !are_scores(logits) {
                        error@ is Inference && after == middle
                    } else {
                        &&& exists|n: int| #[trigger]
                            middle.stops_at(tokens.len() as int, n, after.active_cache@)
                        &&& error@ is Cache
                        &&& after == (GenerationContext {
                            active_cache: after.active_cache,
                            ..middle
                        })
                    },
                }
            }
    }

    /// One turn: the model reads the tokens that wait, the handler picks a token and says what it
    /// is part of, the output is written and handed to the listener, and the end is queued where
    /// it is due.
    pub open spec fn turns<
        S: Sampler<Logits = candle_core::Tensor>,
        R: ReasoningSupervisorInterface,
        C: ToolCallingSupervisorInterface,
        M: ModelCacheManagerInterface,
        L: CacheLoader,
        K: StreamCallback,
    >(
        &self,
        config: GenerationConfig,
        before: Stage<S, R, C, M, L, K>,
        turn: Turn<S, R, C>,
        after: Stage<S, R, C, M, L, K>,
    ) -> bool {
        &&& self.reads(before.ctx, before.handler.input_tokens@, turn.scores, after.ctx)
        &&& turn.asked.input_tokens@ == Seq::<u32>::empty()
        &&& turn.asked == (GenerationHandler {
            input_tokens: turn.asked.input_tokens,
            ..before.handler
        })
        &&& turn.asked.advances_with(
            (turn.scores, config.logprobs, config.top_logprobs),
            turn.picked,
            turn.answers,
            Ok(turn.event),
            turn.advanced,
        )
        &&& before.progress.takes(
            self.tokenizer.model(),
            turn.event,
            config.max_tokens,
            turn.step,
            after.progress,
        )
        &&& told(before.listener, turn.step.frame, after.listener)
        &&& after.handler.tokens_to_force@ == turn.advanced.tokens_to_force@ + Seq::new(
            turn.step.ends as nat,
            |i: int| turn.advanced.eos_token_id,
        )
        &&& after.handler == (GenerationHandler {
            tokens_to_force: after.handler.tokens_to_force,
            ..turn.advanced
        })
    }

    /// A turn that fails after the model has read the tokens that wait: no token is picked, or a
    /// supervisor fails; the tokenizer cannot write the token; or the listener fails.
    pub open spec fn turn_breaks<
        S: Sampler<Logits = candle_core::Tensor>,
        R: ReasoningSupervisorInterface,
        C: ToolCallingSupervisorInterface,
        M: ModelCacheManagerInterface,
        L: CacheLoader,
        K: StreamCallback,
    >(
        &self,
        config: GenerationConfig,
        before: Stage<S, R, C, M, L, K>,
        turn: Turn<S, R, C>,
        advance: Result<GenerationEvent, String>,
        error: LociError,
        listener: K,
    ) -> bool {
        &&& turn.asked.input_tokens@ == Seq::<u32>::empty()
        &&& turn.asked == (GenerationHandler {
            input_tokens: turn.asked.input_tokens,
            ..before.handler
        })
        &&& turn.asked.advances_with(
            (turn.scores, config.logprobs, config.top_logprobs),
            turn.picked,
            turn.answers,
            advance,
            turn.advanced,
        )
        &&& match advance {
            Err(message) => {
                &&& error@ == ErrorView::Inference(message@)
                &&& listener == before.listener
            },
            Ok(event) => {
                ||| {
                    &&& text_token(event) matches Some(sampled)
                    &&& before.progress.decoding_after(self.tokenizer.model(), sampled).result
                        matches Err(source)
                    &&& error@ == (ErrorView::Tokenization { source })
                    &&& listener == before.listener
                }
                ||| exists|progress: Progress|
                    {
                        &&& #[trigger] before.progress.takes(
                            self.tokenizer.model(),
                            event,
                            config.max_tokens,
                            turn.step,
                            progress,
                        )
                        &&& turn.step.frame matches Some(frame)
                        &&& before.listener.hears(frame, Err(error), listener)
                    }
            },
        }
    }

    /// A turn that fails: there are more tokens than can be counted, or something fails that
    /// takes part in the turn.
    pub open spec fn turn_fails<
        S: Sampler<Logits = candle_core::Tensor>,
        R: ReasoningSupervisorInterface,
        C: ToolCallingSupervisorInterface,
        M: ModelCacheManagerInterface,
        L: CacheLoader,
        K: StreamCallback,
    >(
        &self,
        config: GenerationConfig,
        before: Stage<S, R, C, M, L, K>,
        error: LociError,
        ctx: GenerationContext<M, L>,
        listener: K,
    ) -> bool {
        ||| {
            &&& before.progress.steps == usize::MAX || before.reasoning_tokens() == u32::MAX - 1
            &&& error@ is Inference
            &&& ctx == before.ctx
            &&& listener == before.listener
        }
        ||| self.reading_fails(before.ctx, before.handler.input_tokens@, error, ctx) && listener
            == before.listener
        ||| exists|turn: Turn<S, R, C>, advance: Result<GenerationEvent, String>| #[trigger]
            self.turn_breaks(config, before, turn, advance, error, listener) && self.reads(
                before.ctx,
                before.handler.input_tokens@,
                turn.scores,
                ctx,
            )
    }

    /// The turn at an index is a turn between the stages around it.
    pub open spec fn turn_at<
        S: Sampler<Logits = candle_core::Tensor>,
        R: ReasoningSupervisorInterface,
        C: ToolCallingSupervisorInterface,
        M: ModelCacheManagerInterface,
        L: CacheLoader,
        K: StreamCallback,
    >(
        &self,
        config: GenerationConfig,
        stages: Seq<Stage<S, R, C, M, L, K>>,
        turns: Seq<Turn<S, R, C>>,
        i: int,
    ) -> bool {
        self.turns(config, stages[i], turns[i], stages[i + 1])
    }

    /// A generation: turns until the end token comes, and none after it.
    pub open spec fn is_run<
        S: Sampler<Logits = candle_core::Tensor>,
        R: ReasoningSupervisorInterface,
        C: ToolCallingSupervisorInterface,
        M: ModelCacheManagerInterface,
        L: CacheLoader,
        K: StreamCallback,
    >(
        &self,
        config: GenerationConfig,
        stages: Seq<Stage<S, R, C, M, L, K>>,
        turns: Seq<Turn<S, R, C>>,
    ) -> bool {
        &&& turns.len() > 0
        &&& stages.len() == turns.len() + 1
        &&& forall|i: int|
            0 <= i < turns.len() ==> #[trigger] self.turn_at(config, stages, turns, i)
        &&& forall|i: int|
            0 <= i < turns.len() ==> ((#[trigger] turns[i]).step.stop <==> i == turns.len() - 1)
    }

    /// The first stage of a generation: the sampler knows the prompt, the conversation holds what
    /// was found of it, and the handler is given the rest.
    pub open spec fn opens<
        'e,
        S: Sampler<Logits = candle_core::Tensor>,
        M: ModelCacheManagerInterface,
        L: CacheLoader,
        K: StreamCallback,
    >(
        &'e self,
        prompt: Seq<u32>,
        config: GenerationConfig,
        sampler: S,
        ctx: GenerationContext<M, L>,
        listener: K,
        found: usize,
        stage: Stage<
            S,
            ReasoningSupervisor,
            ToolCallingSupervisor<'e, ToolFormatter, T>,
            M,
            L,
            K,
        >,
    ) -> bool {
        &&& found <= prompt.len()
        &&& stage.ctx.token_ids@ == prompt.take(found as int)
        &&& stage.handler.input_tokens@ == prompt.skip(found as int)
        &&& exists|matched: Result<usize, LociError>, middle: GenerationContext<M, L>| #[trigger]
            self.prepares(ctx, prompt, matched, middle, Ok(found), stage.ctx)
        &&& exists|
            noted: S,
            calling: Result<Option<ToolCallingSupervisor<'e, ToolFormatter, T>>, String>,
            template: Result<Option<Vec<u32>>, String>,
        |
            notes_all(sampler, prompt, noted) && #[trigger] self.starts(
                prompt.skip(found as int),
                config,
                noted,
                calling,
                template,
                Ok(stage.handler),
            )
        &&& stage.progress.is_fresh(self.tokenizer.model(), config@.stop_tokens)
        &&& stage.listener == listener
    }

    /// The stages and turns of a whole generation and its report.
    pub open spec fn is_generation<
        'e,
        S: Sampler<Logits = candle_core::Tensor>,
        M: ModelCacheManagerInterface,
        L: CacheLoader,
        K: StreamCallback,
    >(
        &'e self,
        request: (Seq<u32>, GenerationConfig, S),
        before: (GenerationContext<M, L>, K),
        found: usize,
        stages: Seq<
            Stage<S, ReasoningSupervisor, ToolCallingSupervisor<'e, ToolFormatter, T>, M, L, K>,
        >,
        turns: Seq<Turn<S, ReasoningSupervisor, ToolCallingSupervisor<'e, ToolFormatter, T>>>,
        report: GenerationReport,
        after: (GenerationContext<M, L>, K),
    ) -> bool {
        &&& self.opens(request.0, request.1, request.2, before.0, before.1, found, stages[0])
        &&& self.is_run(request.1, stages, turns)
        &&& stages.last().is_reported(request.0.len() as int, report)
        &&& after.0 == stages.last().ctx
        &&& after.1 == stages.last().listener
    }

    /// A generation that fails before its first turn: the memory of the prompt cannot be had, or
    /// the handler cannot be made.
    pub open spec fn start_fails<
        'e,
        S: Sampler<Logits = candle_core::Tensor>,
        M: ModelCacheManagerInterface,
        L: CacheLoader,
    >(
        &'e self,
        prompt: Seq<u32>,
        config: GenerationConfig,
        sampler: S,
        before: GenerationContext<M, L>,
        found: Result<usize, LociError>,
        error: LociError,
        after: GenerationContext<M, L>,
    ) -> bool {
        &&& exists|matched: Result<usize, LociError>, middle: GenerationContext<M, L>| #[trigger]
            self.prepares(before, prompt, matched, middle, found, after)
        &&& match found {
            Err(cause) => cause == error,
            Ok(found) => {
                &&& found <= prompt.len()
                &&& exists|
                    noted: S,
                    calling: Result<Option<ToolCallingSupervisor<'e, ToolFormatter, T>>, String>,
                    template: Result<Option<Vec<u32>>, String>,
                |
                    notes_all(sampler, prompt, noted) && #[trigger] self.starts(
                        prompt.skip(found as int),
                        config,
                        noted,
                        calling,
                        template,
                        Err(error),
                    )
            },
        }
    }

    /// A generation that fails before its first turn, and what was found of the prompt until then.
    pub open spec fn never_starts<
        'e,
        S: Sampler<Logits = candle_core::Tensor>,
        M: ModelCacheManagerInterface,
        L: CacheLoader,
        K: StreamCallback,
    >(
        &'e self,
        request: (Seq<u32>, GenerationConfig, S),
        before: (GenerationContext<M, L>, K),
        found: Result<usize, LociError>,
        error: LociError,
        after: (GenerationContext<M, L>, K),
    ) -> bool {
        &&& self.start_fails(request.0, request.1, request.2, before.0, found, error, after.0)
        &&& after.1 == before.1
    }

    /// The stages and turns of a generation that fails in the turn after them.
    pub open spec fn is_cut_short<
        'e,
        S: Sampler<Logits = candle_core::Tensor>,
        M: ModelCacheManagerInterface,
        L: CacheLoader,
        K: StreamCallback,
    >(
        &'e self,
        request: (Seq<u32>, GenerationConfig, S),
        before: (GenerationContext<M, L>, K),
        found: usize,
        stages: Seq<
            Stage<S, ReasoningSupervisor, ToolCallingSupervisor<'e, ToolFormatter, T>, M, L, K>,
        >,
        turns: Seq<Turn<S, ReasoningSupervisor, ToolCallingSupervisor<'e, ToolFormatter, T>>>,
        error: LociError,
        after: (GenerationContext<M, L>, K),
    ) -> bool {
        &&& self.opens(request.0, request.1, request.2, before.0, before.1, found, stages[0])
        &&& stages.len() == turns.len() + 1
        &&& forall|i: int|
            0 <= i < turns.len() ==> #[trigger] self.turn_at(request.1, stages, turns, i)
        &&& forall|i: int| 0 <= i < turns.len() ==> !(#[trigger] turns[i]).step.stop
        &&& self.turn_fails(request.1, stages.last(), error, after.0, after.1)
    }

    /// `error` and `after` are a possible outcome of a generation after a prompt: it fails only
    /// where something fails that takes part in it.
    pub open spec fn fails<
        'e,
        S: Sampler<Logits = candle_core::Tensor>,
        M: ModelCacheManagerInterface,
        L: CacheLoader,
        K: StreamCallback,
    >(
        &'e self,
        request: (Seq<u32>, GenerationConfig, S),
        before: (GenerationContext<M, L>, K),
        error: LociError,
        after: (GenerationContext<M, L>, K),
    ) -> bool {
        ||| exists|found: Result<usize, LociError>| #[trigger]
            self.never_starts(request, before, found, error, after)
        ||| exists|
            found: usize,
            stages: Seq<
                Stage<
                    S,
                    ReasoningSupervisor,
                    ToolCallingSupervisor<'e, ToolFormatter, T>,
                    M,
                    L,
                    K,
                >,
            >,
            turns: Seq<
                Turn<S, ReasoningSupervisor, ToolCallingSupervisor<'e, ToolFormatter, T>>,
            >,
        | #[trigger]
            self.is_cut_short(request, before, found, stages, turns, error, after)
    }

    /// `result` and `after` are a possible outcome of a generation after a prompt.
    pub open spec fn comes_to<
        'e,
        S: Sampler<Logits = candle_core::Tensor>,
        M: ModelCacheManagerInterface,
        L: CacheLoader,
        K: StreamCallback,
    >(
        &'e self,
        request: (Seq<u32>, GenerationConfig, S),
        before: (GenerationContext<M, L>, K),
        result: Result<GenerationReport, LociError>,
        after: (GenerationContext<M, L>, K),
    ) -> bool {
        match result {
            Ok(report) => self.generates(request, before, report, after),
            Err(error) => self.fails(request, before, error, after),
        }
    }

    /// `report` and `after` are a possible outcome of a generation after a prompt.
    pub open spec fn generates<
        'e,
        S: Sampler<Logits = candle_core::Tensor>,
        M: ModelCacheManagerInterface,
        L: CacheLoader,
        K: StreamCallback,
    >(
        &'e self,
        request: (Seq<u32>, GenerationConfig, S),
        before: (GenerationContext<M, L>, K),
        report: GenerationReport,
        after: (GenerationContext<M, L>, K),
    ) -> bool {
        exists|
            found: usize,
            stages: Seq<
                Stage<
                    S,
                    ReasoningSupervisor,
                    ToolCallingSupervisor<'e, ToolFormatter, T>,
                    M,
                    L,
                    K,
                >,
            >,
            turns: Seq<
                Turn<S, ReasoningSupervisor, ToolCallingSupervisor<'e, ToolFormatter, T>>,
            >,
        | #[trigger]
            self.is_generation(request, before, found, stages, turns, report, after)
    }
}

/// The first tokens that were picked.
pub open spec fn picked_tokens<
    S: Sampler,
    R: ReasoningSupervisorInterface,
    C: ToolCallingSupervisorInterface,
>(turns: Seq<Turn<S, R, C>>, count: int) -> Seq<u32> {
    Seq::new(count as nat, |i: int| turns[i].picked->Ok_0.token)
}

/// The text of a kind that the listener was handed in the first turns.
pub open spec fn heard_text<
    S: Sampler,
    R: ReasoningSupervisorInterface,
    C: ToolCallingSupervisorInterface,
>(turns: Seq<Turn<S, R, C>>, count: int, kind: GenerationDataType) -> Seq<char>
    decreases count,
{
    if count <= 0 {
        seq![]
    } else {
        let before = heard_text(turns, count - 1, kind);
        match turns[count - 1].step.frame {
            Some(frame) if frame.output_type == kind => before + frame.output@,
            _ => before,
        }
    }
}

proof fn lemma_tokens_so_far<
    T: Tokenizer,
    D: Model,
    S: Sampler<Logits = candle_core::Tensor>,
    R: ReasoningSupervisorInterface,
    C: ToolCallingSupervisorInterface,
    M: ModelCacheManagerInterface,
    L: CacheLoader,
    K: StreamCallback,
>(
    engine: InferenceEngine<T, D>,
    config: GenerationConfig,
    prompt: Seq<u32>,
    stages: Seq<Stage<S, R, C, M, L, K>>,
    turns: Seq<Turn<S, R, C>>,
    i: int,
)
    requires
        engine.is_run(config, stages, turns),
        stages[0].ctx.token_ids@ + stages[0].handler.input_tokens@ == prompt,
        0 <= i < turns.len(),
    ensures
        stages[i].ctx.token_ids@ + stages[i].handler.input_tokens@ == prompt + picked_tokens(
            turns,
            i,
        ),
        stages[i + 1].ctx.token_ids@ == prompt + picked_tokens(turns, i),
    decreases i,
{
    if i > 0 {
        lemma_tokens_so_far(engine, config, prompt, stages, turns, i - 1);
        assert(engine.turn_at(config, stages, turns, i - 1));
        assert(!turns[i - 1].step.stop);
        assert(stages[i].handler.input_tokens@ == seq![turns[i - 1].picked->Ok_0.token]);
        assert(picked_tokens(turns, i) =~= picked_tokens(turns, i - 1).push(
            turns[i - 1].picked->Ok_0.token,
        ));
        assert(stages[i].ctx.token_ids@ + stages[i].handler.input_tokens@ =~= prompt
            + picked_tokens(turns, i));
    } else {
        assert(prompt + picked_tokens(turns, 0) =~= prompt);
    }
    assert(engine.turn_at(config, stages, turns, i));
}

/// After a generation the conversation holds the prompt and the tokens that were picked, but for
/// the end token, in their order: the model has read each of them once or found it in its memory.
pub proof fn law_conversation_grows_by_picked_tokens<
    T: Tokenizer,
    D: Model,
    S: Sampler<Logits = candle_core::Tensor>,
    R: ReasoningSupervisorInterface,
    C: ToolCallingSupervisorInterface,
    M: ModelCacheManagerInterface,
    L: CacheLoader,
    K: StreamCallback,
>(
    engine: InferenceEngine<T, D>,
    config: GenerationConfig,
    prompt: Seq<u32>,
    found: int,
    stages: Seq<Stage<S, R, C, M, L, K>>,
    turns: Seq<Turn<S, R, C>>,
)
    requires
        engine.is_run(config, stages, turns),
        0 <= found <= prompt.len(),
        stages[0].ctx.token_ids@ == prompt.take(found),
        stages[0].handler.input_tokens@ == prompt.skip(found),
    ensures
        stages.last().ctx.token_ids@ == prompt + picked_tokens(turns, turns.len() - 1),
{
    assert(prompt.take(found) + prompt.skip(found) =~= prompt);
    lemma_tokens_so_far(engine, config, prompt, stages, turns, turns.len() - 1);
}

proof fn lemma_written_so_far<
    T: Tokenizer,
    D: Model,
    S: Sampler<Logits = candle_core::Tensor>,
    R: ReasoningSupervisorInterface,
    C: ToolCallingSupervisorInterface,
    M: ModelCacheManagerInterface,
    L: CacheLoader,
    K: StreamCallback,
>(
    engine: InferenceEngine<T, D>,
    config: GenerationConfig,
    stages: Seq<Stage<S, R, C, M, L, K>>,
    turns: Seq<Turn<S, R, C>>,
    i: int,
)
    requires
        engine.is_run(config, stages, turns),
        stages[0].progress.content_text@ == Seq::<char>::empty(),
        stages[0].progress.reasoning_text@ == Seq::<char>::empty(),
        stages[0].progress.steps == 0,
        0 <= i <= turns.len(),
    ensures
        stages[i].progress.content_text@ == heard_text(
            turns,
            i,
            GenerationDataType::DirectContent,
        ),
        stages[i].progress.reasoning_text@ == heard_text(turns, i, GenerationDataType::Reasoning),
        stages[i].progress.steps == i,
    decreases i,
{
    if i > 0 {
        lemma_written_so_far(engine, config, stages, turns, i - 1);
        assert(engine.turn_at(config, stages, turns, i - 1));
    }
}

/// The answer that is reported is what the listener was handed as the answer, the reasoning what
/// it was handed as the reasoning, and the tokens are counted by the turns.
pub proof fn law_report_is_what_was_heard<
    T: Tokenizer,
    D: Model,
    S: Sampler<Logits = candle_core::Tensor>,
    R: ReasoningSupervisorInterface,
    C: ToolCallingSupervisorInterface,
    M: ModelCacheManagerInterface,
    L: CacheLoader,
    K: StreamCallback,
>(
    engine: InferenceEngine<T, D>,
    config: GenerationConfig,
    stages: Seq<Stage<S, R, C, M, L, K>>,
    turns: Seq<Turn<S, R, C>>,
)
    requires
        engine.is_run(config, stages, turns),
        stages[0].progress.content_text@ == Seq::<char>::empty(),
        stages[0].progress.reasoning_text@ == Seq::<char>::empty(),
        stages[0].progress.steps == 0,
    ensures
        stages.last().progress.content_text@ == heard_text(
            turns,
            turns.len() as int,
            GenerationDataType::DirectContent,
        ),
        stages.last().progress.reasoning_text@ == heard_text(
            turns,
            turns.len() as int,
            GenerationDataType::Reasoning,
        ),
        stages.last().progress.steps == turns.len(),
{
    lemma_written_so_far(engine, config, stages, turns, turns.len() as int);
}

/// A generation that comes to the limit of tokens is reported to have ended for its length.
pub proof fn law_limit_is_reported<
    T: Tokenizer,
    D: Model,
    S: Sampler<Logits = candle_core::Tensor>,
    R: ReasoningSupervisorInterface,
    C: ToolCallingSupervisorInterface,
    M: ModelCacheManagerInterface,
    L: CacheLoader,
    K: StreamCallback,
>(
    engine: InferenceEngine<T, D>,
    config: GenerationConfig,
    stages: Seq<Stage<S, R, C, M, L, K>>,
    turns: Seq<Turn<S, R, C>>,
)
    requires
        engine.is_run(config, stages, turns),
        stages[0].progress.content_text@ == Seq::<char>::empty(),
        stages[0].progress.reasoning_text@ == Seq::<char>::empty(),
        stages[0].progress.steps == 0,
        turns.len() >= 2,
        turns.len() >= config.max_tokens,
    ensures
        stages.last().progress.finish_reason == FinishReason::Length,
{
    let n = turns.len() as int;
    lemma_written_so_far(engine, config, stages, turns, n - 2);
    assert(engine.turn_at(config, stages, turns, n - 2));
    assert(!turns[n - 2].step.stop);
    assert(engine.turn_at(config, stages, turns, n - 1));
    assert(turns[n - 1].step.stop);
}

} // verus!
