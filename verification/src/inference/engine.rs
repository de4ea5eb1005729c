//! Runs a generation token by token.
use vstd::prelude::*;
use vstd::string::*;
use vstd::utf8::*;

use crate::config::generation_config::{
    copy_list, overridden, resolved_generation_config, GenerationConfig, GenerationConfigBuilder,
    GenerationOverrides,
};
use crate::config::inference_config::{default_inference_config, InferenceConfig};
use crate::config::model_config::ModelConfig;
use crate::error::{ErrorView, LociError};
use crate::float::{Float32, Float64};
use crate::inference::generation_context::{
    law_match_takes_over_prefix, most_cached, CacheLoader, GenerationContext,
    ModelCacheManagerInterface, Place,
};
use crate::inference::generation_handler::{
    law_queue_keeps_order, law_queued_end_stops, Answers, GenerationHandler,
};
use crate::inference::generation_run::{is_input_of, notes_all, told, Stage, Turn};
use crate::inference::reasoning_supervisor::{ReasoningSupervisor, ReasoningSupervisorInterface};
use crate::inference::sampler::Sampler;
use crate::inference::stop_pattern_matcher::StopPatternMatcher;
use crate::inference::tool_calling_supervisor::{
    ToolCallingSupervisor, ToolCallingSupervisorInterface,
};
use crate::inference::tool_formatter::ToolFormatter;
use crate::inference::types::{
    GenerationDataType, GenerationEvent, GenerationReport, PostSamplingConfig, SamplingResult,
    StreamFrame, TopKEntry,
};
use crate::model::{Model, ModelCacheInfo};
use crate::tensor::{
    as_batch, extent, ids_tensor, narrow, narrowed_view, rank_of, squeezed, squeezed_view,
    tensor_view, RawView,
};
use crate::text::{chars_of, list_of, string_of};
use crate::tokenizer::{fresh_stream, Decoding, StreamContext, Tokenizer, TokenizerView};
use crate::types::{
    ChatMessage, ChunkToolCall, CompletionTokensDetails, FinishReason, LogprobsContent,
    ReasoningEffort, Tool, TopLogprobs, Usage,
};

verus! {

/// The mathematical model of a token's log probability.
pub struct TopLogprobView {
    pub token: Seq<char>,
    pub logprob: Float32,
    pub bytes: Seq<u8>,
}

/// The mathematical model of the log probabilities of a token and its rivals.
pub struct LogprobsView {
    pub token: Seq<char>,
    pub logprob: Float32,
    pub bytes: Seq<u8>,
    pub top_logprobs: Option<Seq<TopLogprobView>>,
}

/// What an entry of log probabilities holds.
pub open spec fn top_view(entry: TopLogprobs) -> TopLogprobView {
    TopLogprobView { token: entry.token@, logprob: entry.logprob, bytes: entry.bytes@ }
}

/// What log probabilities hold.
pub open spec fn logprobs_view(logprobs: Option<LogprobsContent>) -> Option<LogprobsView> {
    match logprobs {
        Some(content) => Some(
            LogprobsView {
                token: content.token@,
                logprob: content.logprob,
                bytes: content.bytes@,
                top_logprobs: match content.top_logprobs {
                    Some(list) => Some(list@.map_values(|entry: TopLogprobs| top_view(entry))),
                    None => None,
                },
            },
        ),
        None => None,
    }
}

/// The rivals of a token in writing, if all of them can be written.
pub open spec fn written_rivals(tokenizer: TokenizerView, entries: Seq<TopKEntry>) -> Option<
    Seq<TopLogprobView>,
>
    decreases entries.len(),
{
    if entries.len() == 0 {
        Some(seq![])
    } else {
        match (
            written_rivals(tokenizer, entries.drop_last()),
            tokenizer.text(seq![entries.last().token_id], true),
        ) {
            (Some(list), Ok(token)) => Some(
                list.push(
                    TopLogprobView {
                        token,
                        logprob: entries.last().logprob,
                        bytes: encode_utf8(token),
                    },
                ),
            ),
            _ => None,
        }
    }
}

/// The log probabilities that are reported for a token that is written as `text`: none if none
/// were asked for.
pub open spec fn reported_logprobs(
    tokenizer: TokenizerView,
    text: Seq<char>,
    sampled: SamplingResult,
) -> Option<LogprobsView> {
    match sampled.logprob {
        Some(logprob) => Some(
            LogprobsView {
                token: text,
                logprob,
                bytes: encode_utf8(text),
                top_logprobs: match sampled.top_k_logprobs {
                    Some(entries) => written_rivals(tokenizer, entries@),
                    None => None,
                },
            },
        ),
        None => None,
    }
}

/// Rivals that cannot be written leave none that can, whatever follows.
proof fn lemma_unwritten(tokenizer: TokenizerView, entries: Seq<TopKEntry>, n: int)
    requires
        0 <= n <= entries.len(),
        written_rivals(tokenizer, entries.take(n)) is None,
    ensures
        written_rivals(tokenizer, entries) is None,
    decreases entries.len() - n,
{
    if n < entries.len() {
        assert(entries.take(n + 1).drop_last() =~= entries.take(n));
        lemma_unwritten(tokenizer, entries, n + 1);
    } else {
        assert(entries.take(n) =~= entries);
    }
}

fn write_rivals<T: Tokenizer>(tokenizer: &T, entries: &Vec<TopKEntry>) -> (result: Option<
    Vec<TopLogprobs>,
>)
    ensures
        match result {
            Some(list) => written_rivals(tokenizer.model(), entries@) == Some(
                list@.map_values(|entry: TopLogprobs| top_view(entry)),
            ),
            None => written_rivals(tokenizer.model(), entries@) is None,
        },
{
    let mut list: Vec<TopLogprobs> = Vec::new();
    let mut i: usize = 0;
    assert(list@.map_values(|entry: TopLogprobs| top_view(entry)) =~= Seq::<
        TopLogprobView,
    >::empty());
    while i < entries.len()
        invariant
            i <= entries@.len(),
            written_rivals(tokenizer.model(), entries@.take(i as int)) == Some(
                list@.map_values(|entry: TopLogprobs| top_view(entry)),
            ),
        decreases entries.len() - i,
    {
        let ghost before = list@;
        assert(entries@.take(i + 1).drop_last() =~= entries@.take(i as int));
        assert(entries@.take(i + 1).last() == entries@[i as int]);
        let ids: [u32; 1] = [entries[i].token_id];
        assert(ids@ =~= seq![entries@[i as int].token_id]);
        match tokenizer.decode(ids.as_slice(), true) {
            Ok(token) => {
                let bytes = token.as_str().as_bytes_vec();
                list.push(TopLogprobs { token, logprob: entries[i].logprob, bytes });
                assert(list@.map_values(|entry: TopLogprobs| top_view(entry)) =~= before.map_values(
                    |entry: TopLogprobs| top_view(entry),
                ).push(top_view(list@.last())));
            },
            Err(_) => {
                proof {
                    lemma_unwritten(tokenizer.model(), entries@, i + 1);
                }
                return None;
            },
        }
        i = i + 1;
    }
    assert(entries@.take(i as int) =~= entries@);
    Some(list)
}

/// The log probabilities that are reported for a token that is written as `chosen_token`.
pub fn decode_sampling_result<T: Tokenizer>(
    tokenizer: &T,
    chosen_token: &str,
    sampling_result: SamplingResult,
) -> (result: Option<LogprobsContent>)
    ensures
        logprobs_view(result) == reported_logprobs(
            tokenizer.model(),
            chosen_token@,
            sampling_result,
        ),
{
    match sampling_result.logprob {
        Some(logprob) => {
            let top_logprobs = match &sampling_result.top_k_logprobs {
                Some(entries) => write_rivals(tokenizer, entries),
                None => None,
            };
            Some(
                LogprobsContent {
                    token: String::from_str(chosen_token),
                    logprob,
                    bytes: chosen_token.as_bytes_vec(),
                    top_logprobs,
                },
            )
        },
        None => None,
    }
}

/// How far a generation has come.
pub struct Progress {
    pub content_text: String,
    pub reasoning_text: String,
    pub finish_reason: FinishReason,
    /// The tokens so far.
    pub steps: usize,
    pub stream_ctx: StreamContext,
    pub stop_pattern_matcher: StopPatternMatcher,
}

/// What a step asks for.
pub struct Step {
    /// The generation has ended.
    pub stop: bool,
    /// A piece of output for the listener.
    pub frame: Option<StreamFrame>,
    /// How many times the end is to be queued.
    pub ends: usize,
}

/// The last step before the limit, or one after it.
pub open spec fn at_limit(steps: int, max_tokens: int) -> bool {
    steps >= max_tokens - 1
}

/// The token of an event, if it is a part of the answer or of the reasoning.
pub open spec fn text_token(event: GenerationEvent) -> Option<SamplingResult> {
    match event {
        GenerationEvent::ContentSampled { sampling_result } => Some(sampling_result),
        GenerationEvent::ReasoningSampled { sampling_result } => Some(sampling_result),
        _ => None,
    }
}

/// The frame for a text that is complete, or none.
pub open spec fn text_frame(
    frame: Option<StreamFrame>,
    tokenizer: TokenizerView,
    text: Option<Seq<char>>,
    sampled: SamplingResult,
    output_type: GenerationDataType,
) -> bool {
    match text {
        Some(output) => {
            &&& frame is Some
            &&& frame->Some_0.output@ == output
            &&& frame->Some_0.tool_call_chunk is None
            &&& frame->Some_0.output_type == output_type
            &&& logprobs_view(frame->Some_0.logprobs) == reported_logprobs(
                tokenizer,
                output,
                sampled,
            )
        },
        None => frame is None,
    }
}

/// The frame for a piece of a tool call.
pub open spec fn chunk_frame(
    frame: Option<StreamFrame>,
    chunk: ChunkToolCall,
    output_type: GenerationDataType,
) -> bool {
    &&& frame is Some
    &&& frame->Some_0.output@ == Seq::<char>::empty()
    &&& frame->Some_0.tool_call_chunk == Some(chunk)
    &&& frame->Some_0.output_type == output_type
    &&& frame->Some_0.logprobs is None
}

/// A text with what is complete of the next piece.
pub open spec fn extended(text: Seq<char>, piece: Option<Seq<char>>) -> Seq<char> {
    match piece {
        Some(more) => text + more,
        None => text,
    }
}

impl Progress {
    pub open spec fn wf(&self) -> bool {
        self.stop_pattern_matcher.wf()
    }

    /// Why the generation ends if it ends after an event.
    pub open spec fn finish_after(&self, event: GenerationEvent, max_tokens: usize) -> FinishReason {
        if event is GenerationStopped {
            self.finish_reason
        } else if at_limit(self.steps + 1, max_tokens as int) {
            FinishReason::Length
        } else if event is ToolCallNameChunk {
            FinishReason::ToolCalls
        } else if text_token(event) matches Some(sampled) && self.stop_pattern_matcher.hits(
            sampled.token,
        ) {
            FinishReason::Stop
        } else {
            self.finish_reason
        }
    }

    /// How many times the end is queued after an event: once for a stop pattern and once for the
    /// limit.
    pub open spec fn ends_after(&self, event: GenerationEvent, max_tokens: usize) -> int {
        let hit: int = if text_token(event) matches Some(sampled)
            && self.stop_pattern_matcher.hits(sampled.token) {
            1
        } else {
            0
        };
        let full: int = if at_limit(self.steps + 1, max_tokens as int) {
            1
        } else {
            0
        };
        if event is GenerationStopped {
            0
        } else {
            hit + full
        }
    }

    /// The decoding of the token of an event.
    pub open spec fn decoding_after(&self, tokenizer: TokenizerView, sampled: SamplingResult) -> Decoding {
        tokenizer.decoding_of_one(self.stream_ctx@, sampled.token)
    }

    /// `step` and `after` are what an event leads to.
    pub open spec fn takes(
        &self,
        tokenizer: TokenizerView,
        event: GenerationEvent,
        max_tokens: usize,
        step: Step,
        after: Self,
    ) -> bool {
        &&& step.stop == (event is GenerationStopped)
        &&& step.ends == self.ends_after(event, max_tokens)
        &&& after.finish_reason == self.finish_after(event, max_tokens)
        &&& after.steps == self.steps + 1
        &&& match event {
            GenerationEvent::ContentSampled { sampling_result } => {
                let decoding = self.decoding_after(tokenizer, sampling_result);
                &&& decoding.result is Ok
                &&& text_frame(
                    step.frame,
                    tokenizer,
                    decoding.result->Ok_0,
                    sampling_result,
                    GenerationDataType::DirectContent,
                )
                &&& after.content_text@ == extended(self.content_text@, decoding.result->Ok_0)
                &&& after.reasoning_text == self.reasoning_text
                &&& after.stream_ctx@ == decoding.stream
                &&& self.stop_pattern_matcher.follows(
                    sampling_result.token,
                    after.stop_pattern_matcher,
                )
            },
            GenerationEvent::ReasoningSampled { sampling_result } => {
                let decoding = self.decoding_after(tokenizer, sampling_result);
                &&& decoding.result is Ok
                &&& text_frame(
                    step.frame,
                    tokenizer,
                    decoding.result->Ok_0,
                    sampling_result,
                    GenerationDataType::Reasoning,
                )
                &&& after.content_text == self.content_text
                &&& after.reasoning_text@ == extended(self.reasoning_text@, decoding.result->Ok_0)
                &&& after.stream_ctx@ == decoding.stream
                &&& self.stop_pattern_matcher.follows(
                    sampling_result.token,
                    after.stop_pattern_matcher,
                )
            },
            _ => {
                &&& match event {
                    GenerationEvent::ToolCallNameChunk { chunk } => chunk_frame(
                        step.frame,
                        chunk,
                        GenerationDataType::ToolCallName,
                    ),
                    GenerationEvent::ToolCallArgumentsChunk { chunk } => chunk_frame(
                        step.frame,
                        chunk,
                        GenerationDataType::ToolCallArguments,
                    ),
                    _ => step.frame is None,
                }
                &&& after.content_text == self.content_text
                &&& after.reasoning_text == self.reasoning_text
                &&& after.stream_ctx == self.stream_ctx
                &&& after.stop_pattern_matcher == self.stop_pattern_matcher
            },
        }
    }

    /// A generation that has not begun.
    pub open spec fn is_fresh(
        &self,
        tokenizer: TokenizerView,
        stop_tokens: Option<Seq<Seq<char>>>,
    ) -> bool {
        &&& self.content_text@ == Seq::<char>::empty()
        &&& self.reasoning_text@ == Seq::<char>::empty()
        &&& self.finish_reason == FinishReason::Stop
        &&& self.steps == 0
        &&& self.stream_ctx@ == fresh_stream()
        &&& self.stop_pattern_matcher.looks_for(tokenizer, stop_tokens)
    }

    pub fn new<T: Tokenizer>(stop_tokens: Option<Vec<String>>, tokenizer: &T) -> (result: Self)
        ensures
            result.wf(),
            result.is_fresh(tokenizer.model(), list_of(stop_tokens)),
    {
        Progress {
            content_text: String::new(),
            reasoning_text: String::new(),
            finish_reason: FinishReason::Stop,
            steps: 0,
            stream_ctx: StreamContext::with_capacity(16),
            stop_pattern_matcher: StopPatternMatcher::new(stop_tokens, tokenizer),
        }
    }

    /// Follows a token of the answer or of the reasoning: looks for stop patterns and writes what
    /// is complete with the token.
    fn take_text<T: Tokenizer>(
        &mut self,
        tokenizer: &T,
        sampling_result: SamplingResult,
        output_type: GenerationDataType,
    ) -> (result: Result<(bool, Option<StreamFrame>), LociError>)
        requires
            old(self).wf(),
        ensures
            final(self).wf(),
            ({
                let decoding = old(self).decoding_after(tokenizer.model(), sampling_result);
                match result {
                    Ok((hit, frame)) => {
                        &&& decoding.result is Ok
                        &&& hit == old(self).stop_pattern_matcher.hits(sampling_result.token)
                        &&& text_frame(
                            frame,
                            tokenizer.model(),
                            decoding.result->Ok_0,
                            sampling_result,
                            output_type,
                        )
                        &&& old(self).stop_pattern_matcher.follows(
                            sampling_result.token,
                            final(self).stop_pattern_matcher,
                        )
                        &&& final(self).stream_ctx@ == decoding.stream
                    },
                    Err(error) => decoding.result is Err && error@ == (ErrorView::Tokenization {
                        source: decoding.result->Err_0,
                    }),
                }
            }),
            *final(self) == (Progress {
                stream_ctx: final(self).stream_ctx,
                stop_pattern_matcher: final(self).stop_pattern_matcher,
                ..*old(self)
            }),
    {
        let hit = self.stop_pattern_matcher.matches(sampling_result.token);
        match tokenizer.process_token_stream(&mut self.stream_ctx, sampling_result.token) {
            Ok(Some(output)) => {
                let logprobs = decode_sampling_result(
                    tokenizer,
                    output.as_str(),
                    sampling_result,
                );
                Ok(
                    (
                        hit,
                        Some(StreamFrame { output, tool_call_chunk: None, output_type, logprobs }),
                    ),
                )
            },
            Ok(None) => Ok((hit, None)),
            Err(source) => Err(LociError::Tokenization { source }),
        }
    }

    /// Follows an event of the token stream and says what it asks for.
    pub fn take<T: Tokenizer>(
        &mut self,
        tokenizer: &T,
        event: GenerationEvent,
        max_tokens: usize,
    ) -> (result: Result<Step, LociError>)
        requires
            old(self).wf(),
            old(self).steps < usize::MAX,
            max_tokens > 0,
        ensures
            final(self).wf(),
            match result {
                Ok(step) => old(self).takes(
                    tokenizer.model(),
                    event,
                    max_tokens,
                    step,
                    *final(self),
                ),
                Err(error) => {
                    &&& text_token(event) matches Some(sampled)
                    &&& old(self).decoding_after(tokenizer.model(), sampled).result matches Err(
                        source,
                    )
                    &&& error@ == (ErrorView::Tokenization { source })
                },
            },
    {
        self.steps = self.steps + 1;
        let mut frame: Option<StreamFrame> = None;
        let mut ends: usize = 0;
        match event {
            GenerationEvent::GenerationStopped => {
                return Ok(Step { stop: true, frame: None, ends: 0 });
            },
            GenerationEvent::ContentSampled { sampling_result } => {
                let (hit, output) = match self.take_text(
                    tokenizer,
                    sampling_result,
                    GenerationDataType::DirectContent,
                ) {
                    Ok(outcome) => outcome,
                    Err(error) => {
                        return Err(error);
                    },
                };
                if hit {
                    self.finish_reason = FinishReason::Stop;
                    ends = ends + 1;
                }
                if let Some(piece) = &output {
                    self.content_text.append(piece.output.as_str());
                }
                frame = output;
            },
            GenerationEvent::ReasoningSampled { sampling_result } => {
                let (hit, output) = match self.take_text(
                    tokenizer,
                    sampling_result,
                    GenerationDataType::Reasoning,
                ) {
                    Ok(outcome) => outcome,
                    Err(error) => {
                        return Err(error);
                    },
                };
                if hit {
                    self.finish_reason = FinishReason::Stop;
                    ends = ends + 1;
                }
                if let Some(piece) = &output {
                    self.reasoning_text.append(piece.output.as_str());
                }
                frame = output;
            },
            GenerationEvent::ToolCallNameChunk { chunk } => {
                frame = Some(
                    StreamFrame {
                        output: String::new(),
                        tool_call_chunk: Some(chunk),
                        output_type: GenerationDataType::ToolCallName,
                        logprobs: None,
                    },
                );
                self.finish_reason = FinishReason::ToolCalls;
            },
            GenerationEvent::ToolCallArgumentsChunk { chunk } => {
                frame = Some(
                    StreamFrame {
                        output: String::new(),
                        tool_call_chunk: Some(chunk),
                        output_type: GenerationDataType::ToolCallArguments,
                        logprobs: None,
                    },
                );
            },
            _ => {},
        }
        if self.steps >= max_tokens - 1 {
            self.finish_reason = FinishReason::Length;
            ends = ends + 1;
        }
        Ok(Step { stop: false, frame, ends })
    }
}

/// A number as it is reported: its low 32 bits.
pub open spec fn reported_number(n: int) -> u32 {
    (n % 0x1_0000_0000) as u32
}

fn report_number(n: u64) -> (result: u32)
    ensures
        result == reported_number(n as int),
{
    (n % 0x1_0000_0000) as u32
}

/// The figures of a generation.
pub open spec fn usage_of(prompt: int, completion: int, reasoning: u32) -> Usage {
    Usage {
        prompt_tokens: reported_number(prompt),
        completion_tokens: reported_number(completion),
        total_tokens: reported_number(
            reported_number(prompt) + reported_number(completion),
        ),
        prompt_tokens_details: None,
        completion_tokens_details: Some(
            CompletionTokensDetails {
                reasoning_tokens: reasoning,
                audio_tokens: 0,
                accepted_prediction_tokens: 0,
                rejected_prediction_tokens: 0,
            },
        ),
    }
}

pub fn usage(prompt: usize, completion: usize, reasoning: u32) -> (result: Usage)
    ensures
        result == usage_of(prompt as int, completion as int, reasoning),
{
    let prompt_tokens: u32 = report_number(prompt as u64);
    let completion_tokens: u32 = report_number(completion as u64);
    Usage {
        prompt_tokens,
        completion_tokens,
        total_tokens: report_number(prompt_tokens as u64 + completion_tokens as u64),
        prompt_tokens_details: None,
        completion_tokens_details: Some(
            CompletionTokensDetails {
                reasoning_tokens: reasoning,
                audio_tokens: 0,
                accepted_prediction_tokens: 0,
                rejected_prediction_tokens: 0,
            },
        ),
    }
}

/// The scores of the token that comes next: those after the last token that was read.
pub open spec fn last_scores(raw: RawView) -> RawView {
    squeezed_view(squeezed_view(narrowed_view(raw, 1, raw.shape[1] - 1, 1)))
}

/// A tensor of scores: three dimensions, of which the second are the tokens that were read.
pub open spec fn are_scores(logits: candle_core::Tensor) -> bool {
    tensor_view(logits).shape.len() == 3 && tensor_view(logits).shape[1] > 0
}

/// Takes the scores of the token that comes next. Scores have three dimensions, of which the
/// second are the tokens that were read.
pub fn squeeze_logits(logits: candle_core::Tensor) -> (result: Result<candle_core::Tensor, String>)
    ensures
        result is Ok <==> are_scores(logits),
        result matches Ok(scores) ==> tensor_view(scores) == last_scores(tensor_view(logits)),
{
    if rank_of(&logits) != 3 {
        return Err(String::from_str("unexpected rank, expected: 3"));
    }
    let seq_len: usize = match extent(&logits, 1) {
        Ok(n) => n,
        Err(message) => {
            return Err(message);
        },
    };
    if seq_len == 0 {
        return Err(String::from_str("no scores"));
    }
    let last = match narrow(&logits, 1, seq_len - 1, 1) {
        Ok(part) => part,
        Err(message) => {
            return Err(message);
        },
    };
    let row = match squeezed(&last) {
        Ok(part) => part,
        Err(message) => {
            return Err(message);
        },
    };
    squeezed(&row)
}

/// Listens to the output of a generation. A listener that fails ends the generation.
/// An implementation that is not verified may leave the specification functions out.
pub trait StreamCallback: Sized {
    /// `result` and `after` are a possible outcome of `call`.
    closed spec fn hears(
        &self,
        frame: StreamFrame,
        result: Result<(), LociError>,
        after: Self,
    ) -> bool {
        arbitrary()
    }

    fn call(&mut self, frame: StreamFrame) -> (result: Result<(), LociError>)
        ensures
            old(self).hears(frame, result, *final(self)),
    ;
}

/// The characters that end the name of a directory.
pub open spec fn is_separator(c: char) -> bool {
    c == '/' || c == '\\'
}

/// The part of a path after the last separator.
pub open spec fn file_part(path: Seq<char>) -> Seq<char>
    decreases path.len(),
{
    if path.len() == 0 || is_separator(path.last()) {
        seq![]
    } else {
        file_part(path.drop_last()).push(path.last())
    }
}

/// The name of a model: the part of its path after the last separator.
pub fn model_name_of(path: &str) -> (result: String)
    ensures
        result@ == file_part(path@),
{
    let chars = chars_of(path);
    let n: usize = chars.len();
    let mut from: usize = n;
    assert(chars@.take(n as int) =~= chars@);
    assert(file_part(chars@) =~= file_part(chars@.take(n as int)) + chars@.subrange(
        n as int,
        n as int,
    ));
    while from > 0 && chars[from - 1] != '/' && chars[from - 1] != '\\'
        invariant
            from <= n == chars@.len(),
            file_part(chars@) == file_part(chars@.take(from as int)) + chars@.subrange(
                from as int,
                n as int,
            ),
        decreases from,
    {
        proof {
            let head = chars@.take(from as int);
            assert(head.drop_last() =~= chars@.take(from - 1));
            assert(head.last() == chars@[from - 1]);
            assert(file_part(head.drop_last()).push(head.last()) + chars@.subrange(
                from as int,
                n as int,
            ) =~= file_part(chars@.take(from - 1)) + chars@.subrange(from - 1, n as int));
        }
        from = from - 1;
    }
    proof {
        let head = chars@.take(from as int);
        if from > 0 {
            assert(head.last() == chars@[from - 1]);
        }
        assert(file_part(head) =~= Seq::<char>::empty());
        assert(file_part(chars@) =~= chars@.subrange(from as int, n as int));
    }
    string_of(&chars, from, n)
}

/// The part of a path after the last separator holds no separator, and what is before it ends in
/// one, if there is anything before it.
pub proof fn law_file_part(path: Seq<char>)
    ensures
        file_part(path).len() <= path.len(),
        path.skip(path.len() - file_part(path).len()) == file_part(path),
        forall|i: int|
            0 <= i < file_part(path).len() ==> !is_separator(#[trigger] file_part(path)[i]),
        file_part(path).len() < path.len() ==> is_separator(
            path[path.len() - file_part(path).len() - 1],
        ),
    decreases path.len(),
{
    if path.len() > 0 && !is_separator(path.last()) {
        let rest = path.drop_last();
        law_file_part(rest);
        let name = file_part(path);
        let inner = file_part(rest);
        assert(path.skip(path.len() - name.len()) =~= name) by {
            assert forall|i: int| 0 <= i < name.len() implies path.skip(path.len() - name.len())[i]
                == name[i] by {
                if i < inner.len() {
                    assert(rest.skip(rest.len() - inner.len())[i] == inner[i]);
                }
            }
        }
    } else {
        assert(path.skip(path.len() as int) =~= Seq::<char>::empty());
    }
}

/// A model with its tokenizer and its settings.
pub struct InferenceEngine<T: Tokenizer, D: Model> {
    pub tokenizer: T,
    pub device: candle_core::Device,
    pub model_name: String,
    pub vocab_size: usize,
    pub model: D,
    pub flash_attn: bool,
    pub supports_reasoning: bool,
    pub supports_tool_calling: bool,
    pub flatten_tools_to_functions: bool,
    pub post_sampling_config: PostSamplingConfig,
    pub gen_builder: GenerationConfigBuilder,
}

/// The token ids that have a meaning of their own for a model.
pub open spec fn marker_tokens(config: ModelConfig) -> PostSamplingConfig {
    PostSamplingConfig {
        tool_call_start_token_id: config.tool_call_start_token_id,
        tool_call_end_token_id: config.tool_call_end_token_id,
        reasoning_start_token_id: config.reasoning_start_token_id,
        reasoning_end_token_id: config.reasoning_end_token_id,
        tool_call_format_style: config.tool_call_format_style,
        arg_key_open_token_id: config.arg_key_open_token_id,
        arg_key_close_token_id: config.arg_key_close_token_id,
        arg_value_open_token_id: config.arg_value_open_token_id,
        arg_value_close_token_id: config.arg_value_close_token_id,
    }
}

proof fn lemma_end_moves_up<
    S: Sampler,
    R: ReasoningSupervisorInterface,
    C: ToolCallingSupervisorInterface,
>(
    before: GenerationHandler<S, R, C>,
    request: (S::Logits, bool, Option<usize>),
    picked: Result<SamplingResult, String>,
    answers: Answers,
    event: GenerationEvent,
    after: GenerationHandler<S, R, C>,
    end_at: int,
)
    requires
        before.advances_with(request, picked, answers, Ok(event), after),
        0 <= end_at < before.tokens_to_force@.len(),
        before.tokens_to_force@[end_at] == before.eos_token_id,
        !(event is GenerationStopped),
    ensures
        0 < end_at,
        end_at - 1 < after.tokens_to_force@.len(),
        after.tokens_to_force@[end_at - 1] == after.eos_token_id,
{
    law_queue_keeps_order(before, request, picked, answers, Ok(event), after);
    if end_at == 0 {
        law_queued_end_stops(before, request, picked, answers, Ok(event), after);
    } else {
        let rest = before.tokens_to_force@.skip(1);
        assert(rest[end_at - 1] == before.tokens_to_force@[end_at]);
        assert(after.tokens_to_force@[end_at - 1] == rest[end_at - 1]);
    }
}

/// A turn that does not end the generation brings a queued end nearer, and at the limit there is
/// one.
proof fn lemma_end_is_near<
    T: Tokenizer,
    D: Model,
    S: Sampler<Logits = candle_core::Tensor>,
    R: ReasoningSupervisorInterface,
    C: ToolCallingSupervisorInterface,
    M: ModelCacheManagerInterface,
    L: CacheLoader,
    K: StreamCallback,
>(
    engine: InferenceEngine<T, D>,
    config: GenerationConfig,
    before: Stage<S, R, C, M, L, K>,
    turn: Turn<S, R, C>,
    after: Stage<S, R, C, M, L, K>,
    end_at: int,
) -> (result: int)
    requires
        engine.turns(config, before, turn, after),
        config.max_tokens > 0,
        end_at < 0 && before.progress.steps < config.max_tokens || 0 <= end_at
            < before.handler.tokens_to_force@.len()
            && before.handler.tokens_to_force@[end_at] == before.handler.eos_token_id,
    ensures
        !turn.step.stop ==> {
            ||| result < 0 && end_at < 0 && after.progress.steps < config.max_tokens
            ||| 0 <= result < after.handler.tokens_to_force@.len()
                && after.handler.tokens_to_force@[result] == after.handler.eos_token_id && (end_at
                < 0 || result < end_at)
        },
{
    if turn.step.stop {
        return -1;
    }
    let request = (turn.scores, config.logprobs, config.top_logprobs);
    if end_at >= 0 {
        lemma_end_moves_up(
            turn.asked,
            request,
            turn.picked,
            turn.answers,
            turn.event,
            turn.advanced,
            end_at,
        );
        return end_at - 1;
    }
    if turn.step.ends > 0 {
        let place = turn.advanced.tokens_to_force@.len() as int;
        assert(after.handler.tokens_to_force@[place] == after.handler.eos_token_id);
        return place;
    }
    -1
}

impl<T: Tokenizer, D: Model> InferenceEngine<T, D> {
    /// An engine for a model. The name of the model is that of its file.
    pub fn new(
        model_path: &str,
        model_config: &ModelConfig,
        inference_config: Option<InferenceConfig>,
        gen_builder: GenerationConfigBuilder,
        tokenizer: T,
        model: D,
        device: candle_core::Device,
    ) -> (result: Self)
        ensures
            result.model_name@ == file_part(model_path@),
            result.vocab_size == model_config.vocab_size,
            result.flash_attn == (match inference_config {
                Some(config) => config.flash_attn,
                None => default_inference_config().flash_attn,
            }),
            result.supports_reasoning == model_config.supports_reasoning,
            result.supports_tool_calling == model_config.supports_tool_calling,
            result.flatten_tools_to_functions == model_config.flatten_tools_to_functions,
            result.post_sampling_config == marker_tokens(*model_config),
            result.gen_builder == gen_builder,
            result.tokenizer == tokenizer,
            result.model == model,
            result.device == device,
    {
        let inference_config = match inference_config {
            Some(config) => config,
            None => InferenceConfig::default(),
        };
        InferenceEngine {
            tokenizer,
            device,
            model_name: model_name_of(model_path),
            vocab_size: model_config.vocab_size,
            model,
            flash_attn: inference_config.flash_attn,
            supports_reasoning: model_config.supports_reasoning,
            supports_tool_calling: model_config.supports_tool_calling,
            flatten_tools_to_functions: model_config.flatten_tools_to_functions,
            post_sampling_config: PostSamplingConfig {
                tool_call_start_token_id: model_config.tool_call_start_token_id,
                tool_call_end_token_id: model_config.tool_call_end_token_id,
                reasoning_start_token_id: model_config.reasoning_start_token_id,
                reasoning_end_token_id: model_config.reasoning_end_token_id,
                tool_call_format_style: model_config.tool_call_format_style,
                arg_key_open_token_id: model_config.arg_key_open_token_id,
                arg_key_close_token_id: model_config.arg_key_close_token_id,
                arg_value_open_token_id: model_config.arg_value_open_token_id,
                arg_value_close_token_id: model_config.arg_value_close_token_id,
            },
            gen_builder,
        }
    }

    pub fn model_name(&self) -> (result: String)
        ensures
            result@ == self.model_name@,
    {
        String::from_str(self.model_name.as_str())
    }

    pub fn model_cache_info(&self) -> (result: ModelCacheInfo)
        ensures
            result.cache_type == self.model.cache_kind(),
            result.cache_seq_len_dim == self.model.seq_len_dim(),
            result.cache_block_size_hint == self.model.block_hint(),
            result.n_layers == self.model.layers(),
    {
        self.model.cache_info()
    }

    /// The configuration of one request.
    pub fn config_for(&self, overrides: GenerationOverrides) -> (result: GenerationConfig)
        ensures
            result@ == resolved_generation_config(overridden(self.gen_builder, overrides)),
    {
        self.gen_builder.resolve(overrides)
    }

    /// The tokens of a text.
    pub fn prompt_tokens(&self, prompt: &str) -> (result: Result<Vec<u32>, LociError>)
        ensures
            match self.tokenizer.model().encoding(prompt@, true) {
                Ok(ids) => result matches Ok(tokens) && tokens@ == ids,
                Err(source) => result matches Err(error) && error@ == (ErrorView::Tokenization {
                    source,
                }),
            },
    {
        match self.tokenizer.encode(prompt, true) {
            Ok(tokens) => Ok(tokens),
            Err(source) => Err(LociError::Tokenization { source }),
        }
    }

    /// The tokens of a text that the template of a conversation gave.
    pub fn template_tokens(&self, prompt: &str) -> (result: Result<Vec<u32>, LociError>)
        ensures
            match self.tokenizer.model().encoding(prompt@, false) {
                Ok(ids) => result matches Ok(tokens) && tokens@ == ids,
                Err(source) => result matches Err(error) && error@ == (ErrorView::Tokenization {
                    source,
                }),
            },
    {
        match self.tokenizer.encode(prompt, false) {
            Ok(tokens) => Ok(tokens),
            Err(source) => Err(LociError::Tokenization { source }),
        }
    }

    /// Whether the model is to reason.
    pub fn enables_thinking(&self, effort: ReasoningEffort) -> (result: bool)
        ensures
            result == (self.supports_reasoning && effort != ReasoningEffort::Off),
    {
        self.supports_reasoning && effort != ReasoningEffort::Off
    }

    /// `text` is a possible text of a conversation.
    pub open spec fn writes_chat(
        &self,
        messages: Vec<ChatMessage>,
        tools: Vec<Tool>,
        config: GenerationConfig,
        text: Result<String, String>,
    ) -> bool {
        self.tokenizer.templates(
            messages,
            tools,
            self.supports_reasoning && config.reasoning_effort != ReasoningEffort::Off,
            self.flatten_tools_to_functions,
            text,
        )
    }

    /// `result` are the tokens of the text of a conversation, or why there are none.
    pub open spec fn encodes_chat(
        &self,
        text: Result<String, String>,
        result: Result<Vec<u32>, LociError>,
    ) -> bool {
        match text {
            Ok(text) => match self.tokenizer.model().encoding(text@, false) {
                Ok(ids) => result matches Ok(tokens) && tokens@ == ids,
                Err(source) => result matches Err(error) && error@ == (ErrorView::Tokenization {
                    source,
                }),
            },
            Err(source) => result matches Err(error) && error@ == (ErrorView::Tokenization {
                source: source@,
            }),
        }
    }

    /// The tokens of a conversation, as the model expects it. The template may fail.
    pub fn chat_tokens(
        &self,
        messages: &Vec<ChatMessage>,
        tools: &Vec<Tool>,
        gen_config: &GenerationConfig,
    ) -> (result: Result<Vec<u32>, LociError>)
        ensures
            exists|text: Result<String, String>| #[trigger]
                self.writes_chat(*messages, *tools, *gen_config, text) && self.encodes_chat(
                    text,
                    result,
                ),
    {
        let text = self.tokenizer.apply_chat_template(
            messages,
            tools,
            self.enables_thinking(gen_config.reasoning_effort),
            self.flatten_tools_to_functions,
        );
        assert(self.writes_chat(*messages, *tools, *gen_config, text));
        match text {
            Ok(text) => self.template_tokens(text.as_str()),
            Err(source) => Err(LociError::Tokenization { source }),
        }
    }

    /// Looks for a memory of the beginning of a prompt; where there is none, begins anew.
    pub fn match_ctx_cache<M: ModelCacheManagerInterface, L: CacheLoader>(
        &self,
        ctx: &mut GenerationContext<M, L>,
        prompt_token_ids: &Vec<u32>,
    ) -> (result: Result<usize, LociError>)
        requires
            old(ctx).wf(),
            old(ctx).boundaries_complete(),
        ensures
            final(ctx).wf(),
            final(ctx).boundaries_complete(),
            exists|matched: Result<usize, LociError>, middle: GenerationContext<M, L>| #[trigger]
                self.prepares(
                    *old(ctx),
                    prompt_token_ids@,
                    matched,
                    middle,
                    result,
                    *final(ctx),
                ),
            result matches Ok(found) ==> found <= most_cached(
                prompt_token_ids@,
                self.model.prefill(),
            ) && final(ctx).token_ids@ == prompt_token_ids@.take(found as int),
    {
        let prompt_len: usize = prompt_token_ids.len();
        let prefix_count: usize = ctx.cache_metadata.len();
        let min_prefill: usize = self.model.min_prefill_tokens();
        let conv_on_cpu = self.model.conv_on_cpu();
        let ghost place = Place { device: self.device, conv_on_cpu };
        let matched = ctx.match_cache(
            prompt_token_ids.as_slice(),
            min_prefill,
            &self.device,
            conv_on_cpu,
        );
        let ghost middle = *ctx;
        let ghost answer = matched;
        let found: usize = match matched {
            Ok(found) => found,
            Err(error) => {
                assert(self.prepares(
                    *old(ctx),
                    prompt_token_ids@,
                    answer,
                    middle,
                    Err(error),
                    *ctx,
                ));
                return Err(error);
            },
        };
        proof {
            law_match_takes_over_prefix(
                *old(ctx),
                prompt_token_ids@,
                min_prefill,
                place,
                found,
                middle,
            );
        }
        if found == 0 {
            let memory = self.model.init_cache();
            assert(self.model.begins_with(memory));
            match memory {
                Ok(new_cache) => {
                    ctx.reset_active_cache(new_cache, true);
                    assert(ctx.token_ids@ =~= prompt_token_ids@.take(0));
                },
                Err(message) => {
                    let error = LociError::ModelLoad(message);
                    assert(self.prepares(
                        *old(ctx),
                        prompt_token_ids@,
                        answer,
                        middle,
                        Err(error),
                        *ctx,
                    ));
                    return Err(error);
                },
            }
        }
        assert(self.prepares(
            *old(ctx),
            prompt_token_ids@,
            answer,
            middle,
            Ok(found),
            *ctx,
        ));
        Ok(found)
    }

    /// Lets the model read tokens and gives the scores of the token that comes next.
    fn read_tokens<M: ModelCacheManagerInterface, L: CacheLoader>(
        &self,
        ctx: &mut GenerationContext<M, L>,
        input_tokens: Vec<u32>,
    ) -> (result: Result<candle_core::Tensor, LociError>)
        requires
            old(ctx).wf(),
            old(ctx).boundaries_complete(),
        ensures
            final(ctx).wf(),
            final(ctx).boundaries_complete(),
            match result {
                Ok(scores) => self.reads(*old(ctx), input_tokens@, scores, *final(ctx)),
                Err(error) => self.reading_fails(*old(ctx), input_tokens@, error, *final(ctx)),
            },
    {
        let pos: usize = ctx.token_ids.len();
        let count: usize = input_tokens.len();
        if count > usize::MAX - pos {
            return Err(LociError::Inference(String::from_str("too many tokens")));
        }
        let row = match ids_tensor(input_tokens.as_slice(), &self.device) {
            Ok(row) => row,
            Err(message) => {
                return Err(LociError::Inference(message));
            },
        };
        let input = match as_batch(&row) {
            Ok(input) => input,
            Err(message) => {
                return Err(LociError::Inference(message));
            },
        };
        assert(is_input_of(input, input_tokens@, self.device)) by {
            assert(seq![1usize] + seq![count] =~= seq![1usize, count]);
        }
        let answer = self.model.forward(&input, &mut ctx.active_cache, pos, self.flash_attn);
        let ghost middle = *ctx;
        let ghost given = answer;
        assert(self.model_answers(*old(ctx), input, given, middle));
        let logits = match answer {
            Ok(logits) => logits,
            Err(message) => {
                return Err(LociError::Inference(message));
            },
        };
        let scores = match squeeze_logits(logits) {
            Ok(scores) => scores,
            Err(message) => {
                return Err(LociError::Inference(message));
            },
        };
        match ctx.update(input_tokens) {
            Ok(_) => {
                assert(self.model_answers(*old(ctx), input, Ok(logits), middle));
                Ok(scores)
            },
            Err(error) => {
                assert(self.model_answers(*old(ctx), input, given, middle));
                Err(error)
            },
        }
    }

    /// The supervisors and the template for a configuration, and the handler that follows them.
    fn begin<'e, S: Sampler<Logits = candle_core::Tensor>>(
        &'e self,
        input_tokens: &[u32],
        gen_config: &GenerationConfig,
        sampler: S,
    ) -> (result: Result<
        GenerationHandler<S, ReasoningSupervisor, ToolCallingSupervisor<'e, ToolFormatter, T>>,
        LociError,
    >)
        ensures
            exists|
                calling: Result<Option<ToolCallingSupervisor<'e, ToolFormatter, T>>, String>,
                template: Result<Option<Vec<u32>>, String>,
            | #[trigger]
                self.starts(input_tokens@, *gen_config, sampler, calling, template, result),
            result matches Ok(handler) ==> handler.input_tokens@ == input_tokens@ && handler.wf(),
    {
        let reasoning_supervisor = ReasoningSupervisor::new(
            self.supports_reasoning,
            &gen_config.reasoning_effort,
            &self.post_sampling_config,
        );
        let calling = ToolCallingSupervisor::new(
            self.supports_tool_calling,
            &self.post_sampling_config,
            &self.tokenizer,
        );
        let ghost built = calling;
        let ghost mut chosen: Result<Option<Vec<u32>>, String> = Ok(None);
        let tool_calling_supervisor = match calling {
            Ok(supervisor) => supervisor,
            Err(message) => {
                let error = LociError::Inference(message);
                assert(self.starts(
                    input_tokens@,
                    *gen_config,
                    sampler,
                    built,
                    chosen,
                    Err(error),
                ));
                return Err(error);
            },
        };
        let template = match &tool_calling_supervisor {
            Some(supervisor) => {
                let answer = supervisor.get_tool_choice_template(
                    &self.tokenizer,
                    &gen_config.tool_choice,
                );
                proof {
                    chosen = answer;
                }
                match answer {
                    Ok(template) => template,
                    Err(message) => {
                        let error = LociError::Inference(message);
                        assert(self.starts(
                            input_tokens@,
                            *gen_config,
                            sampler,
                            built,
                            chosen,
                            Err(error),
                        ));
                        return Err(error);
                    },
                }
            },
            None => None,
        };
        match GenerationHandler::new(
            input_tokens,
            sampler,
            reasoning_supervisor,
            tool_calling_supervisor,
            self.tokenizer.eos_token_id(),
            template,
        ) {
            Ok(handler) => {
                assert(self.starts(
                    input_tokens@,
                    *gen_config,
                    sampler,
                    built,
                    chosen,
                    Ok(handler),
                ));
                Ok(handler)
            },
            Err(message) => {
                let error = LociError::Inference(message);
                assert(self.starts(
                    input_tokens@,
                    *gen_config,
                    sampler,
                    built,
                    chosen,
                    Err(error),
                ));
                Err(error)
            },
        }
    }

    /// One turn of a generation. Says whether the generation has ended.
    fn step_generation<
        'e,
        S: Sampler<Logits = candle_core::Tensor>,
        M: ModelCacheManagerInterface,
        L: CacheLoader,
        C: StreamCallback,
    >(
        &'e self,
        handler: &mut GenerationHandler<
            S,
            ReasoningSupervisor,
            ToolCallingSupervisor<'e, ToolFormatter, T>,
        >,
        ctx: &mut GenerationContext<M, L>,
        progress: &mut Progress,
        callback: &mut C,
        gen_config: &GenerationConfig,
    ) -> (result: Result<bool, LociError>)
        requires
            old(ctx).wf(),
            old(ctx).boundaries_complete(),
            old(progress).wf(),
            old(handler).wf(),
            gen_config.max_tokens > 0,
        ensures
            result is Ok ==> final(handler).wf(),
            final(ctx).wf(),
            final(ctx).boundaries_complete(),
            final(progress).wf(),
            ({
                let before = Stage {
                    handler: *old(handler),
                    ctx: *old(ctx),
                    progress: *old(progress),
                    listener: *old(callback),
                };
                let after = Stage {
                    handler: *final(handler),
                    ctx: *final(ctx),
                    progress: *final(progress),
                    listener: *final(callback),
                };
                match result {
                    Ok(stop) => exists|
                        turn: Turn<
                            S,
                            ReasoningSupervisor,
                            ToolCallingSupervisor<'e, ToolFormatter, T>,
                        >,
                    | #[trigger]
                        self.turns(*gen_config, before, turn, after) && turn.step.stop == stop,
                    Err(error) => self.turn_fails(
                        *gen_config,
                        before,
                        error,
                        after.ctx,
                        after.listener,
                    ),
                }
            }),
    {
        let ghost before = Stage {
            handler: *handler,
            ctx: *ctx,
            progress: *progress,
            listener: *callback,
        };
        if progress.steps == usize::MAX {
            return Err(LociError::Inference(String::from_str("too many tokens")));
        }
        let count: u32 = match &handler.reasoning_supervisor {
            Some(supervisor) => supervisor.reasoning_tokens,
            None => 0,
        };
        if count == u32::MAX {
            return Err(LociError::Inference(String::from_str("too many reasoning tokens")));
        }
        let mut input_tokens: Vec<u32> = Vec::new();
        std::mem::swap(&mut input_tokens, &mut handler.input_tokens);
        let ghost asked = *handler;
        let scores = match self.read_tokens(ctx, input_tokens) {
            Ok(scores) => scores,
            Err(error) => {
                return Err(error);
            },
        };
        let advance = handler.advance(&scores, gen_config.logprobs, gen_config.top_logprobs);
        let ghost outcome = advance;
        let ghost advanced = *handler;
        let ghost (picked, answers) = choose|
            picked: Result<SamplingResult, String>,
            answers: Answers,
        | #[trigger]
            asked.advances_with(
                (scores, gen_config.logprobs, gen_config.top_logprobs),
                picked,
                answers,
                outcome,
                advanced,
            );
        let ghost mut turn = Turn {
            scores,
            picked,
            answers,
            event: arbitrary(),
            step: arbitrary(),
            asked,
            advanced,
        };
        let event = match advance {
            Ok(event) => event,
            Err(message) => {
                let error = LociError::Inference(message);
                assert(self.turn_breaks(*gen_config, before, turn, outcome, error, *callback));
                return Err(error);
            },
        };
        let ghost happened = event;
        let step = match progress.take(&self.tokenizer, event, gen_config.max_tokens) {
            Ok(step) => step,
            Err(error) => {
                assert(self.turn_breaks(*gen_config, before, turn, outcome, error, *callback));
                return Err(error);
            },
        };
        let ghost whole = step;
        proof {
            turn = Turn { event: happened, step: whole, ..turn };
        }
        let stop = step.stop;
        let wanted: usize = step.ends;
        if let Some(frame) = step.frame {
            let heard = callback.call(frame);
            assert(before.listener.hears(frame, heard, *callback));
            match heard {
                Ok(_) => {},
                Err(error) => {
                    assert(self.turn_breaks(
                        *gen_config,
                        before,
                        turn,
                        outcome,
                        error,
                        *callback,
                    ));
                    return Err(error);
                },
            }
        }
        assert(told(before.listener, whole.frame, *callback));
        let mut ends: usize = 0;
        let ghost queued = handler.tokens_to_force@;
        assert(queued =~= queued + Seq::new(0, |i: int| advanced.eos_token_id));
        while ends < wanted
            invariant
                ends <= wanted,
                handler.tokens_to_force@ == queued + Seq::new(
                    ends as nat,
                    |i: int| advanced.eos_token_id,
                ),
                *handler == (GenerationHandler {
                    tokens_to_force: handler.tokens_to_force,
                    ..advanced
                }),
            decreases wanted - ends,
        {
            handler.soft_stop();
            ends = ends + 1;
            assert(handler.tokens_to_force@ =~= queued + Seq::new(
                ends as nat,
                |i: int| advanced.eos_token_id,
            ));
        }
        proof {
            let after = Stage {
                handler: *handler,
                ctx: *ctx,
                progress: *progress,
                listener: *callback,
            };
            assert(self.turns(*gen_config, before, turn, after));
        }
        Ok(stop)
    }

    /// Generates tokens after a prompt until the end token comes, and hands the output to a
    /// listener. A stop pattern or the limit queue the end token. The time that it took is left
    /// at zero: the caller knows it.
    pub fn generate_from_encoding<
        'e,
        S: Sampler<Logits = candle_core::Tensor>,
        M: ModelCacheManagerInterface,
        L: CacheLoader,
        C: StreamCallback,
    >(
        &'e self,
        prompt_token_ids: Vec<u32>,
        ctx: &mut GenerationContext<M, L>,
        gen_config: &GenerationConfig,
        sampler: S,
        callback: &mut C,
    ) -> (result: Result<GenerationReport, LociError>)
        requires
            old(ctx).wf(),
            old(ctx).boundaries_complete(),
            gen_config.max_tokens > 0,
        ensures
            final(ctx).wf(),
            final(ctx).boundaries_complete(),
            self.comes_to(
                (prompt_token_ids@, *gen_config, sampler),
                (*old(ctx), *old(callback)),
                result,
                (*final(ctx), *final(callback)),
            ),
    {
        let prompt_len: usize = prompt_token_ids.len();
        let mut noting = sampler;
        let mut seen: usize = 0;
        while seen < prompt_len
            invariant
                seen <= prompt_len == prompt_token_ids@.len(),
                notes_all(sampler, prompt_token_ids@.take(seen as int), noting),
            decreases prompt_len - seen,
        {
            let ghost known = noting;
            noting.add_token(prompt_token_ids[seen]);
            seen = seen + 1;
            proof {
                let noted = prompt_token_ids@.take(seen as int);
                assert(noted.drop_last() =~= prompt_token_ids@.take(seen - 1));
                assert(known.notes(noted.last(), noting));
            }
        }
        assert(prompt_token_ids@.take(seen as int) =~= prompt_token_ids@);
        let ghost request = (prompt_token_ids@, *gen_config, sampler);
        let place = self.match_ctx_cache(ctx, &prompt_token_ids);
        let ghost looked = place;
        let found: usize = match place {
            Ok(found) => found,
            Err(error) => {
                assert(self.never_starts(
                    request,
                    (*old(ctx), *old(callback)),
                    looked,
                    error,
                    (*ctx, *callback),
                ));
                return Err(error);
            },
        };
        assert(prompt_token_ids@.subrange(found as int, prompt_len as int)
            =~= prompt_token_ids@.skip(found as int));
        let mut handler = match self.begin(
            vstd::slice::slice_subrange(prompt_token_ids.as_slice(), found, prompt_len),
            gen_config,
            noting,
        ) {
            Ok(handler) => handler,
            Err(error) => {
                assert(self.never_starts(
                    request,
                    (*old(ctx), *old(callback)),
                    looked,
                    error,
                    (*ctx, *callback),
                ));
                return Err(error);
            },
        };
        let mut progress = Progress::new(
            copy_list(&gen_config.stop_tokens),
            &self.tokenizer,
        );
        let max_tokens: usize = gen_config.max_tokens;
        let ghost first = Stage { handler, ctx: *ctx, progress, listener: *callback };
        let ghost mut stages = seq![first];
        let ghost mut turns: Seq<
            Turn<S, ReasoningSupervisor, ToolCallingSupervisor<'e, ToolFormatter, T>>,
        > = seq![];
        assert(self.opens(
            prompt_token_ids@,
            *gen_config,
            sampler,
            *old(ctx),
            *old(callback),
            found,
            first,
        ));
        let ghost mut end_at: int = -1;
        let mut stopped = false;
        while !stopped
            invariant
                ctx.wf(),
                ctx.boundaries_complete(),
                progress.wf(),
                handler.wf(),
                max_tokens == gen_config.max_tokens,
                max_tokens > 0,
                request == (prompt_token_ids@, *gen_config, sampler),
                self.opens(
                    prompt_token_ids@,
                    *gen_config,
                    sampler,
                    *old(ctx),
                    *old(callback),
                    found,
                    first,
                ),
                stages.len() == turns.len() + 1,
                stages[0] == first,
                stages.last() == (Stage { handler, ctx: *ctx, progress, listener: *callback }),
                progress.steps == turns.len(),
                forall|i: int|
                    0 <= i < turns.len() ==> #[trigger] self.turn_at(
                        *gen_config,
                        stages,
                        turns,
                        i,
                    ),
                forall|i: int|
                    0 <= i < turns.len() ==> ((#[trigger] turns[i]).step.stop <==> stopped && i
                        == turns.len() - 1),
                stopped ==> turns.len() > 0,
                !stopped ==> {
                    ||| end_at < 0 && progress.steps < max_tokens
                    ||| 0 <= end_at < handler.tokens_to_force@.len()
                        && handler.tokens_to_force@[end_at] == handler.eos_token_id
                },
            decreases
                    (if stopped {
                        0
                    } else {
                        1int
                    }),
                    (if end_at >= 0 {
                        0
                    } else {
                        max_tokens - progress.steps
                    }),
                    (if end_at >= 0 {
                        end_at
                    } else {
                        0
                    }),
        {
            let ghost before = stages.last();
            stopped = match self.step_generation(
                &mut handler,
                ctx,
                &mut progress,
                callback,
                gen_config,
            ) {
                Ok(stop) => stop,
                Err(error) => {
                    assert(self.is_cut_short(
                        request,
                        (*old(ctx), *old(callback)),
                        found,
                        stages,
                        turns,
                        error,
                        (*ctx, *callback),
                    ));
                    return Err(error);
                },
            };
            proof {
                let after = Stage { handler, ctx: *ctx, progress, listener: *callback };
                let turn = choose|
                    turn: Turn<
                        S,
                        ReasoningSupervisor,
                        ToolCallingSupervisor<'e, ToolFormatter, T>,
                    >,
                | #[trigger]
                    self.turns(*gen_config, before, turn, after) && turn.step.stop == stopped;
                let old_stages = stages;
                let old_turns = turns;
                stages = stages.push(after);
                turns = turns.push(turn);
                assert forall|i: int| 0 <= i < turns.len() implies #[trigger] self.turn_at(
                    *gen_config,
                    stages,
                    turns,
                    i,
                ) by {
                    if i < old_turns.len() {
                        assert(self.turn_at(*gen_config, old_stages, old_turns, i));
                    }
                }
                end_at = lemma_end_is_near(
                    *self,
                    *gen_config,
                    before,
                    turn,
                    after,
                    end_at,
                );
            }
        }
        let reasoning: u32 = handler.reasoning_tokens_count();
        let report = GenerationReport::new(
            progress.content_text.as_str(),
            progress.reasoning_text.as_str(),
            handler.tool_calls(),
            progress.finish_reason,
            usage(prompt_len, progress.steps, reasoning),
            Float64 { bits: 0 },
        );
        proof {
            assert(stages.last().is_reported(prompt_len as int, report));
            assert(self.is_run(*gen_config, stages, turns));
            assert(self.is_generation(
                request,
                (*old(ctx), *old(callback)),
                found,
                stages,
                turns,
                report,
                (*ctx, *callback),
            ));
        }
        Ok(report)
    }

    /// Generates tokens after a text.
    pub fn generate_stream<
        'e,
        S: Sampler<Logits = candle_core::Tensor>,
        M: ModelCacheManagerInterface,
        L: CacheLoader,
        C: StreamCallback,
    >(
        &'e self,
        prompt: &str,
        ctx: &mut GenerationContext<M, L>,
        gen_config: &GenerationConfig,
        sampler: S,
        callback: &mut C,
    ) -> (result: Result<GenerationReport, LociError>)
        requires
            old(ctx).wf(),
            old(ctx).boundaries_complete(),
            gen_config.max_tokens > 0,
        ensures
            final(ctx).wf(),
            final(ctx).boundaries_complete(),
            match self.tokenizer.model().encoding(prompt@, true) {
                Ok(ids) => self.comes_to(
                    (ids, *gen_config, sampler),
                    (*old(ctx), *old(callback)),
                    result,
                    (*final(ctx), *final(callback)),
                ),
                Err(source) => result matches Err(error) && error@ == (ErrorView::Tokenization {
                    source,
                }) && *final(ctx) == *old(ctx) && *final(callback) == *old(callback),
            },
    {
        match self.prompt_tokens(prompt) {
            Ok(tokens) => self.generate_from_encoding(tokens, ctx, gen_config, sampler, callback),
            Err(error) => Err(error),
        }
    }

    /// Generates the next message of a conversation.
    pub fn generate_chat_stream<
        'e,
        S: Sampler<Logits = candle_core::Tensor>,
        M: ModelCacheManagerInterface,
        L: CacheLoader,
        C: StreamCallback,
    >(
        &'e self,
        messages: &Vec<ChatMessage>,
        tools: &Vec<Tool>,
        ctx: &mut GenerationContext<M, L>,
        gen_config: &GenerationConfig,
        sampler: S,
        callback: &mut C,
    ) -> (result: Result<GenerationReport, LociError>)
        requires
            old(ctx).wf(),
            old(ctx).boundaries_complete(),
            gen_config.max_tokens > 0,
        ensures
            final(ctx).wf(),
            final(ctx).boundaries_complete(),
            exists|text: Result<String, String>, tokens: Result<Vec<u32>, LociError>| #[trigger]
                self.writes_chat(*messages, *tools, *gen_config, text) && #[trigger]
                self.encodes_chat(text, tokens) && match tokens {
                    Ok(tokens) => self.comes_to(
                        (tokens@, *gen_config, sampler),
                        (*old(ctx), *old(callback)),
                        result,
                        (*final(ctx), *final(callback)),
                    ),
                    Err(error) => result == Err::<GenerationReport, LociError>(error)
                        && *final(ctx) == *old(ctx) && *final(callback) == *old(callback),
                },
    {
        let tokens = self.chat_tokens(messages, tools, gen_config);
        let ghost encoded = tokens;
        proof {
            let text = choose|text: Result<String, String>| #[trigger]
                self.writes_chat(*messages, *tools, *gen_config, text) && self.encodes_chat(
                    text,
                    encoded,
                );
            assert(self.writes_chat(*messages, *tools, *gen_config, text));
            assert(self.encodes_chat(text, encoded));
        }
        match tokens {
            Ok(tokens) => self.generate_from_encoding(tokens, ctx, gen_config, sampler, callback),
            Err(error) => Err(error),
        }
    }
}

} // verus!
