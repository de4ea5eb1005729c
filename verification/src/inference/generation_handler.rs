//! Decides, token by token, what the generated tokens are part of.
use vstd::prelude::*;

use crate::inference::reasoning_supervisor::ReasoningSupervisorInterface;
use crate::inference::sampler::Sampler;
use crate::inference::tool_calling_supervisor::ToolCallingSupervisorInterface;
use crate::inference::types::{GenerationDataType, GenerationEvent, SamplingResult};
use crate::types::{call_models, ToolCall};

verus! {

/// The state of a generation.
pub struct GenerationHandler<
    S: Sampler,
    R: ReasoningSupervisorInterface,
    C: ToolCallingSupervisorInterface,
> {
    /// The tokens that the model reads next.
    pub input_tokens: Vec<u32>,
    pub sampler: S,
    pub reasoning_supervisor: Option<R>,
    pub tool_calling_supervisor: Option<C>,
    /// What the tokens are part of at this point.
    pub ongoing_gen_type: GenerationDataType,
    /// Tokens that come next whatever the sampler says.
    pub tokens_to_force: Vec<u32>,
    pub eos_token_id: u32,
    /// Tokens that force a tool call, once the answer begins.
    pub tool_choice_template: Option<Vec<u32>>,
}

/// The part of the state that the supervisors' events act on.
#[verifier::ext_equal]
pub struct Course {
    pub ongoing: GenerationDataType,
    pub forced: Seq<u32>,
    pub template: Option<Seq<u32>>,
}

/// The ids of an optional template.
pub open spec fn template_ids(template: Option<Vec<u32>>) -> Option<Seq<u32>> {
    match template {
        Some(ids) => Some(ids@),
        None => None,
    }
}

/// The course after an event of the reasoning supervisor.
pub open spec fn after_reasoning(course: Course, event: GenerationEvent) -> Course {
    match event {
        GenerationEvent::ReasoningStarted => Course {
            ongoing: GenerationDataType::Reasoning,
            ..course
        },
        GenerationEvent::ReasoningStopped => Course {
            ongoing: GenerationDataType::DirectContent,
            ..course
        },
        GenerationEvent::ForceTokens { tokens } => Course {
            forced: course.forced + tokens@,
            ..course
        },
        _ => course,
    }
}

/// The token belongs to the reasoning.
pub open spec fn is_reasoning(course: Course, event: GenerationEvent) -> bool {
    event is ReasoningStopped || after_reasoning(course, event).ongoing is Reasoning
}

/// The course after an event of the tool calling supervisor.
pub open spec fn after_tool_calling(course: Course, event: GenerationEvent) -> Course {
    match event {
        GenerationEvent::ToolCallStarted => Course {
            ongoing: GenerationDataType::ToolCallName,
            ..course
        },
        GenerationEvent::ToolCallStopped { .. } => Course {
            ongoing: GenerationDataType::DirectContent,
            ..course
        },
        GenerationEvent::ToolCallNameChunk { .. } => Course {
            ongoing: GenerationDataType::ToolCallArguments,
            ..course
        },
        _ => course,
    }
}

/// What is reported for an event of the tool calling supervisor, if anything. The last piece of a
/// call is reported as what it is a piece of.
pub open spec fn reported(ongoing: GenerationDataType, event: GenerationEvent) -> Option<
    GenerationEvent,
> {
    match event {
        GenerationEvent::ToolCallStarted => Some(GenerationEvent::ToolCallStarted),
        GenerationEvent::ToolCallStopped { chunk } => match chunk {
            Some(piece) => if ongoing is ToolCallName {
                Some(GenerationEvent::ToolCallNameChunk { chunk: piece })
            } else {
                Some(GenerationEvent::ToolCallArgumentsChunk { chunk: piece })
            },
            None => Some(GenerationEvent::ToolCallStopped { chunk: None }),
        },
        GenerationEvent::ToolCallNameChunk { chunk } => Some(
            GenerationEvent::ToolCallNameChunk { chunk },
        ),
        GenerationEvent::ToolCallArgumentsChunk { chunk } => Some(
            GenerationEvent::ToolCallArgumentsChunk { chunk },
        ),
        _ => None,
    }
}

/// The course once a waiting template has been put in the queue: it is as soon as the tokens are
/// part of the answer.
pub open spec fn with_template(course: Course) -> Course {
    match course.template {
        Some(ids) if course.ongoing is DirectContent => Course {
            forced: course.forced + ids,
            template: None,
            ..course
        },
        _ => course,
    }
}

/// The events of the supervisors for one token, where they are asked.
pub struct Answers {
    pub reasoning: Option<GenerationEvent>,
    pub tool_calling: Option<Result<GenerationEvent, String>>,
}

/// The course after the reasoning supervisor, if there is one, was asked.
pub open spec fn reasoned(course: Course, answers: Answers) -> Course {
    match answers.reasoning {
        Some(event) => after_reasoning(course, event),
        None => course,
    }
}

/// The tool calling supervisor is not asked: the token belongs to the reasoning.
pub open spec fn settled_by_reasoning(course: Course, answers: Answers) -> bool {
    answers.reasoning matches Some(event) && is_reasoning(course, event)
}

/// The course after a token.
pub open spec fn course_after(course: Course, answers: Answers) -> Course {
    let middle = reasoned(course, answers);
    if settled_by_reasoning(course, answers) {
        middle
    } else {
        match answers.tool_calling {
            Some(Err(_)) => middle,
            Some(Ok(event)) => if reported(middle.ongoing, event) is Some {
                after_tool_calling(middle, event)
            } else {
                with_template(middle)
            },
            None => with_template(middle),
        }
    }
}

/// What is reported for a token.
pub open spec fn event_for(course: Course, answers: Answers, sampled: SamplingResult) -> Result<
    GenerationEvent,
    String,
> {
    let middle = reasoned(course, answers);
    if settled_by_reasoning(course, answers) {
        Ok(GenerationEvent::ReasoningSampled { sampling_result: sampled })
    } else {
        match answers.tool_calling {
            Some(Err(message)) => Err(message),
            Some(Ok(event)) if reported(middle.ongoing, event) is Some => Ok(
                reported(middle.ongoing, event)->Some_0,
            ),
            _ => if middle.ongoing is DirectContent {
                Ok(GenerationEvent::ContentSampled { sampling_result: sampled })
            } else {
                Ok(GenerationEvent::Nothing)
            },
        }
    }
}

fn extend(list: &mut Vec<u32>, more: &Vec<u32>)
    ensures
        final(list)@ == old(list)@ + more@,
{
    list.extend_from_slice(more.as_slice());
    assert(list@ =~= old(list)@ + more@);
}

impl<
    S: Sampler,
    R: ReasoningSupervisorInterface,
    C: ToolCallingSupervisorInterface,
> GenerationHandler<S, R, C> {
    pub open spec fn course(&self) -> Course {
        Course {
            ongoing: self.ongoing_gen_type,
            forced: self.tokens_to_force@,
            template: template_ids(self.tool_choice_template),
        }
    }

    /// The reasoning supervisor's event, if there is a supervisor, is a possible one.
    pub open spec fn reasoning_answer(
        before: Option<R>,
        token_ids: Seq<u32>,
        ongoing: GenerationDataType,
        event: Option<GenerationEvent>,
        after: Option<R>,
    ) -> bool {
        match before {
            Some(supervisor) => {
                &&& event is Some
                &&& after is Some
                &&& supervisor.advances(token_ids, ongoing, event->Some_0, after->Some_0)
            },
            None => event is None && after is None,
        }
    }

    /// The tool calling supervisor's result, if there is a supervisor, is a possible one.
    pub open spec fn tool_calling_answer(
        before: Option<C>,
        token_ids: Seq<u32>,
        ongoing: GenerationDataType,
        result: Option<Result<GenerationEvent, String>>,
        after: Option<C>,
    ) -> bool {
        match before {
            Some(supervisor) => {
                &&& result is Some
                &&& after is Some
                &&& supervisor.advances(token_ids, ongoing, result->Some_0, after->Some_0)
            },
            None => result is None && after is None,
        }
    }

    /// The supervisor of tool calls is in order, if there is one.
    pub open spec fn wf(&self) -> bool {
        self.tool_calling_supervisor matches Some(supervisor) ==> supervisor.wf()
    }

    /// How a generation begins whose supervisors, asked about the prompt, give these answers.
    pub open spec fn begins(
        before: (Option<R>, Option<C>),
        input_tokens: Seq<u32>,
        template: Option<Seq<u32>>,
        answers: Answers,
        after: (Option<R>, Option<C>),
        result: Result<Self, String>,
    ) -> bool {
        let start = Course {
            ongoing: GenerationDataType::DirectContent,
            forced: seq![],
            template,
        };
        let middle = reasoned(start, answers);
        &&& Self::reasoning_answer(
            before.0,
            input_tokens,
            start.ongoing,
            answers.reasoning,
            after.0,
        )
        &&& Self::tool_calling_answer(
            before.1,
            input_tokens,
            middle.ongoing,
            answers.tool_calling,
            after.1,
        )
        &&& match answers.tool_calling {
            Some(Err(message)) => result == Err::<Self, String>(message),
            _ => {
                &&& result is Ok
                &&& result->Ok_0.input_tokens@ == input_tokens
                &&& result->Ok_0.reasoning_supervisor == after.0
                &&& result->Ok_0.tool_calling_supervisor == after.1
                &&& result->Ok_0.course() == with_template(
                    if answers.tool_calling matches Some(Ok(GenerationEvent::ToolCallStarted)) {
                        Course { ongoing: GenerationDataType::ToolCallName, ..middle }
                    } else {
                        middle
                    },
                )
            },
        }
    }

    /// Begins a generation. The supervisors see the prompt; a prompt may end within the reasoning
    /// or a tool call.
    pub fn new(
        input_tokens: &[u32],
        sampler: S,
        reasoning_supervisor: Option<R>,
        tool_calling_supervisor: Option<C>,
        eos_token_id: u32,
        tool_choice_template: Option<Vec<u32>>,
    ) -> (result: Result<Self, String>)
        requires
            reasoning_supervisor matches Some(supervisor) ==> supervisor.can_advance(
                input_tokens@,
                GenerationDataType::DirectContent,
            ),
            tool_calling_supervisor matches Some(supervisor) ==> supervisor.wf(),
        ensures
            result matches Ok(handler) ==> handler.wf(),
            exists|answers: Answers, reasoning: Option<R>, tool_calling: Option<C>|
                #[trigger] Self::begins(
                    (reasoning_supervisor, tool_calling_supervisor),
                    input_tokens@,
                    template_ids(tool_choice_template),
                    answers,
                    (reasoning, tool_calling),
                    result,
                ) && (result matches Ok(handler) ==> handler.sampler == sampler
                    && handler.eos_token_id == eos_token_id),
    {
        let ghost reasoning_before = reasoning_supervisor;
        let ghost tool_calling_before = tool_calling_supervisor;
        let ghost template_before = tool_choice_template;
        let ghost start = Course {
            ongoing: GenerationDataType::DirectContent,
            forced: seq![],
            template: template_ids(tool_choice_template),
        };
        let mut reasoning_supervisor = reasoning_supervisor;
        let mut tool_calling_supervisor = tool_calling_supervisor;
        let mut ongoing_gen_type = GenerationDataType::DirectContent;
        let mut tokens_to_force: Vec<u32> = Vec::new();
        let ghost mut answers = Answers { reasoning: None, tool_calling: None };
        match reasoning_supervisor.as_mut() {
            Some(supervisor) => {
                let event = supervisor.advance(input_tokens, &ongoing_gen_type);
                proof {
                    answers = Answers { reasoning: Some(event), tool_calling: None };
                }
                match event {
                    GenerationEvent::ReasoningStarted => {
                        ongoing_gen_type = GenerationDataType::Reasoning;
                    },
                    GenerationEvent::ReasoningStopped => {
                        ongoing_gen_type = GenerationDataType::DirectContent;
                    },
                    GenerationEvent::ForceTokens { tokens } => {
                        extend(&mut tokens_to_force, &tokens);
                    },
                    _ => {},
                }
            },
            None => {},
        }
        let ghost middle = reasoned(start, answers);
        assert(Self::reasoning_answer(
            reasoning_before,
            input_tokens@,
            start.ongoing,
            answers.reasoning,
            reasoning_supervisor,
        ));
        assert(middle.ongoing == ongoing_gen_type);
        assert(middle.forced =~= tokens_to_force@);
        match tool_calling_supervisor.as_mut() {
            Some(supervisor) => {
                let outcome = supervisor.advance(input_tokens, &ongoing_gen_type);
                proof {
                    answers = Answers { tool_calling: Some(outcome), ..answers };
                }
                match outcome {
                    Ok(GenerationEvent::ToolCallStarted) => {
                        ongoing_gen_type = GenerationDataType::ToolCallName;
                    },
                    Ok(_) => {},
                    Err(message) => {
                        assert(Self::tool_calling_answer(
                            tool_calling_before,
                            input_tokens@,
                            middle.ongoing,
                            answers.tool_calling,
                            tool_calling_supervisor,
                        ));
                        assert(Self::begins(
                            (reasoning_before, tool_calling_before),
                            input_tokens@,
                            template_ids(template_before),
                            answers,
                            (reasoning_supervisor, tool_calling_supervisor),
                            Err(message),
                        ));
                        return Err(message);
                    },
                }
            },
            None => {},
        }
        assert(Self::tool_calling_answer(
            tool_calling_before,
            input_tokens@,
            middle.ongoing,
            answers.tool_calling,
            tool_calling_supervisor,
        ));
        let mut handler = GenerationHandler {
            input_tokens: vstd::slice::slice_to_vec(input_tokens),
            sampler,
            reasoning_supervisor,
            tool_calling_supervisor,
            ongoing_gen_type,
            tokens_to_force,
            eos_token_id,
            tool_choice_template,
        };
        handler.force_tool_choice();
        assert(Self::begins(
            (reasoning_before, tool_calling_before),
            input_tokens@,
            template_ids(template_before),
            answers,
            (handler.reasoning_supervisor, handler.tool_calling_supervisor),
            Ok(handler),
        ));
        Ok(handler)
    }

    /// The reasoning tokens so far; none without a supervisor.
    pub fn reasoning_tokens_count(&self) -> (result: u32)
        ensures
            result == (match self.reasoning_supervisor {
                Some(supervisor) => supervisor.tokens_count(),
                None => 0,
            }),
    {
        match &self.reasoning_supervisor {
            Some(supervisor) => supervisor.reasoning_tokens_count(),
            None => 0,
        }
    }

    pub fn set_input_tokens(&mut self, input_tokens: &[u32])
        ensures
            final(self).input_tokens@ == input_tokens@,
            *final(self) == (GenerationHandler {
                input_tokens: final(self).input_tokens,
                ..*old(self)
            }),
    {
        self.input_tokens = vstd::slice::slice_to_vec(input_tokens);
    }

    /// Ends the generation after the tokens that are already in the queue.
    pub fn soft_stop(&mut self)
        ensures
            final(self).tokens_to_force@ == old(self).tokens_to_force@.push(
                old(self).eos_token_id,
            ),
            *final(self) == (GenerationHandler {
                tokens_to_force: final(self).tokens_to_force,
                ..*old(self)
            }),
    {
        self.tokens_to_force.push(self.eos_token_id);
    }

    /// Puts a waiting template in the queue if the tokens are part of the answer.
    pub fn force_tool_choice(&mut self)
        ensures
            final(self).course() == with_template(old(self).course()),
            *final(self) == (GenerationHandler {
                tokens_to_force: final(self).tokens_to_force,
                tool_choice_template: final(self).tool_choice_template,
                ..*old(self)
            }),
    {
        if self.ongoing_gen_type == GenerationDataType::DirectContent {
            if let Some(template) = self.tool_choice_template.take() {
                extend(&mut self.tokens_to_force, &template);
            }
        }
    }

    /// The finished tool calls; none without a supervisor.
    pub fn tool_calls(&self) -> (result: Option<Vec<ToolCall>>)
        ensures
            match self.tool_calling_supervisor {
                Some(supervisor) => match result {
                    Some(list) => supervisor.calls() == Some(call_models(list@)),
                    None => supervisor.calls() is None,
                },
                None => result is None,
            },
    {
        match &self.tool_calling_supervisor {
            Some(supervisor) => supervisor.tool_calls(),
            None => None,
        }
    }

    /// Follows an event of the reasoning supervisor and says whether the token belongs to the
    /// reasoning.
    pub fn take_reasoning_event(&mut self, event: GenerationEvent) -> (result: bool)
        ensures
            final(self).course() == after_reasoning(old(self).course(), event),
            result == is_reasoning(old(self).course(), event),
            *final(self) == (GenerationHandler {
                tokens_to_force: final(self).tokens_to_force,
                ongoing_gen_type: final(self).ongoing_gen_type,
                ..*old(self)
            }),
    {
        match event {
            GenerationEvent::ReasoningStarted => {
                self.ongoing_gen_type = GenerationDataType::Reasoning;
            },
            GenerationEvent::ReasoningStopped => {
                self.ongoing_gen_type = GenerationDataType::DirectContent;
                return true;
            },
            GenerationEvent::ForceTokens { tokens } => {
                extend(&mut self.tokens_to_force, &tokens);
            },
            _ => {},
        }
        self.ongoing_gen_type == GenerationDataType::Reasoning
    }

    /// Follows an event of the tool calling supervisor and gives what is to be reported, if
    /// anything.
    pub fn take_tool_calling_event(&mut self, event: GenerationEvent) -> (result: Option<
        GenerationEvent,
    >)
        ensures
            result == reported(old(self).ongoing_gen_type, event),
            final(self).course() == after_tool_calling(old(self).course(), event),
            *final(self) == (GenerationHandler {
                ongoing_gen_type: final(self).ongoing_gen_type,
                ..*old(self)
            }),
    {
        match event {
            GenerationEvent::ToolCallStarted => {
                self.ongoing_gen_type = GenerationDataType::ToolCallName;
                Some(GenerationEvent::ToolCallStarted)
            },
            GenerationEvent::ToolCallStopped { chunk } => {
                let reported_event = match chunk {
                    Some(piece) => if self.ongoing_gen_type == GenerationDataType::ToolCallName {
                        GenerationEvent::ToolCallNameChunk { chunk: piece }
                    } else {
                        GenerationEvent::ToolCallArgumentsChunk { chunk: piece }
                    },
                    None => GenerationEvent::ToolCallStopped { chunk: None },
                };
                self.ongoing_gen_type = GenerationDataType::DirectContent;
                Some(reported_event)
            },
            GenerationEvent::ToolCallNameChunk { chunk } => {
                self.ongoing_gen_type = GenerationDataType::ToolCallArguments;
                Some(GenerationEvent::ToolCallNameChunk { chunk })
            },
            GenerationEvent::ToolCallArgumentsChunk { chunk } => Some(
                GenerationEvent::ToolCallArgumentsChunk { chunk },
            ),
            _ => None,
        }
    }

    /// The next token: the first one of the queue, or what the sampler picks.
    pub open spec fn next_token(
        &self,
        logits: S::Logits,
        with_logprobs: bool,
        top_k_logprobs: Option<usize>,
        result: Result<SamplingResult, String>,
        sampler: S,
    ) -> bool {
        if self.tokens_to_force@.len() > 0 {
            &&& sampler == self.sampler
            &&& result == Ok::<SamplingResult, String>(
                SamplingResult {
                    token: self.tokens_to_force@[0],
                    logprob: None,
                    top_k_logprobs: None,
                },
            )
        } else {
            let top_k = if with_logprobs {
                Some(
                    match top_k_logprobs {
                        Some(k) => k,
                        None => 0usize,
                    },
                )
            } else {
                None
            };
            self.sampler.samples(logits, top_k, result, sampler)
        }
    }

    fn pick_token(
        &mut self,
        logits: &S::Logits,
        with_logprobs: bool,
        top_k_logprobs: Option<usize>,
    ) -> (result: Result<SamplingResult, String>)
        ensures
            old(self).next_token(
                *logits,
                with_logprobs,
                top_k_logprobs,
                result,
                final(self).sampler,
            ),
            final(self).tokens_to_force@ == (if old(self).tokens_to_force@.len() > 0 {
                old(self).tokens_to_force@.skip(1)
            } else {
                old(self).tokens_to_force@
            }),
            *final(self) == (GenerationHandler {
                tokens_to_force: final(self).tokens_to_force,
                sampler: final(self).sampler,
                ..*old(self)
            }),
    {
        if self.tokens_to_force.len() > 0 {
            let token: u32 = self.tokens_to_force.remove(0);
            assert(self.tokens_to_force@ =~= old(self).tokens_to_force@.skip(1));
            Ok(SamplingResult { token, logprob: None, top_k_logprobs: None })
        } else if with_logprobs {
            let k: usize = match top_k_logprobs {
                Some(k) => k,
                None => 0,
            };
            self.sampler.sample(logits, Some(k))
        } else {
            self.sampler.sample(logits, None)
        }
    }

    /// The course before the supervisors see a token: the queue without the token, if it came
    /// from there.
    pub open spec fn picked_course(&self) -> Course {
        Course {
            forced: if self.tokens_to_force@.len() > 0 {
                self.tokens_to_force@.skip(1)
            } else {
                self.tokens_to_force@
            },
            ..self.course()
        }
    }

    /// The outcome of a step in which `token` is sampled, the supervisors answer `answers`, and
    /// the supervisors are `reasoning` and `tool_calling` afterwards.
    pub open spec fn steps(
        &self,
        sampled: SamplingResult,
        answers: Answers,
        result: Result<GenerationEvent, String>,
        after: Self,
    ) -> bool {
        let course = self.picked_course();
        if sampled.token == self.eos_token_id {
            &&& result == Ok::<GenerationEvent, String>(GenerationEvent::GenerationStopped)
            &&& after.course() == course
            &&& after.input_tokens == self.input_tokens
            &&& after.reasoning_supervisor == self.reasoning_supervisor
            &&& after.tool_calling_supervisor == self.tool_calling_supervisor
        } else {
            &&& after.input_tokens@ == seq![sampled.token]
            &&& Self::reasoning_answer(
                self.reasoning_supervisor,
                seq![sampled.token],
                course.ongoing,
                answers.reasoning,
                after.reasoning_supervisor,
            )
            &&& if settled_by_reasoning(course, answers) {
                after.tool_calling_supervisor == self.tool_calling_supervisor
            } else {
                Self::tool_calling_answer(
                    self.tool_calling_supervisor,
                    seq![sampled.token],
                    reasoned(course, answers).ongoing,
                    answers.tool_calling,
                    after.tool_calling_supervisor,
                )
            }
            &&& result == event_for(course, answers, sampled)
            &&& after.course() == course_after(course, answers)
        }
    }

    /// The outcome of a step in which `picked` is what the queue or the sampler gives and the
    /// supervisors answer `answers`.
    pub open spec fn advances_with(
        &self,
        request: (S::Logits, bool, Option<usize>),
        picked: Result<SamplingResult, String>,
        answers: Answers,
        result: Result<GenerationEvent, String>,
        after: Self,
    ) -> bool {
        &&& after.eos_token_id == self.eos_token_id
        &&& self.next_token(request.0, request.1, request.2, picked, after.sampler)
        &&& match picked {
            Err(message) => {
                &&& result == Err::<GenerationEvent, String>(message)
                &&& after.course() == self.course()
                &&& after.input_tokens == self.input_tokens
                &&& after.reasoning_supervisor == self.reasoning_supervisor
                &&& after.tool_calling_supervisor == self.tool_calling_supervisor
            },
            Ok(sampled) => self.steps(sampled, answers, result, after),
        }
    }

    /// One step: picks a token and lets the supervisors say what it is part of.
    pub fn advance(
        &mut self,
        logits: &S::Logits,
        with_logprobs: bool,
        top_k_logprobs: Option<usize>,
    ) -> (result: Result<GenerationEvent, String>)
        requires
            old(self).reasoning_supervisor matches Some(supervisor) ==> forall|token: u32|
                supervisor.can_advance(
                    #[trigger] seq![token],
                    old(self).ongoing_gen_type,
                ),
            old(self).wf(),
        ensures
            final(self).wf(),
            exists|picked: Result<SamplingResult, String>, answers: Answers|
                #[trigger] old(self).advances_with(
                    (*logits, with_logprobs, top_k_logprobs),
                    picked,
                    answers,
                    result,
                    *final(self),
                ),
    {
        let ghost start = *self;
        let ghost course = self.picked_course();
        let picked = self.pick_token(logits, with_logprobs, top_k_logprobs);
        let ghost picked_model = picked;
        let ghost mut answers = Answers { reasoning: None, tool_calling: None };
        let sampling_result = match picked {
            Ok(sampled) => sampled,
            Err(message) => {
                assert(start.advances_with(
                    (*logits, with_logprobs, top_k_logprobs),
                    picked_model,
                    answers,
                    Err(message),
                    *self,
                ));
                return Err(message);
            },
        };
        assert(self.course() == course);
        if sampling_result.token == self.eos_token_id {
            assert(start.advances_with(
                (*logits, with_logprobs, top_k_logprobs),
                picked_model,
                answers,
                Ok(GenerationEvent::GenerationStopped),
                *self,
            ));
            return Ok(GenerationEvent::GenerationStopped);
        }
        let token: u32 = sampling_result.token;
        let tokens: [u32; 1] = [token];
        assert(tokens@ =~= seq![token]);
        self.set_input_tokens(tokens.as_slice());
        let mut settled = false;
        let mut supervisor_slot = self.reasoning_supervisor.take();
        match supervisor_slot.as_mut() {
            Some(supervisor) => {
                let event = supervisor.advance(tokens.as_slice(), &self.ongoing_gen_type);
                proof {
                    answers = Answers { reasoning: Some(event), tool_calling: None };
                }
                settled = self.take_reasoning_event(event);
            },
            None => {},
        }
        self.reasoning_supervisor = supervisor_slot;
        assert(Self::reasoning_answer(
            start.reasoning_supervisor,
            seq![token],
            course.ongoing,
            answers.reasoning,
            self.reasoning_supervisor,
        ));
        assert(self.course() == reasoned(course, answers));
        assert(settled == settled_by_reasoning(course, answers));
        if settled {
            let result = GenerationEvent::ReasoningSampled { sampling_result };
            assert(start.advances_with(
                (*logits, with_logprobs, top_k_logprobs),
                picked_model,
                answers,
                Ok(result),
                *self,
            ));
            return Ok(result);
        }
        let ghost ongoing = self.ongoing_gen_type;
        let mut calling_slot = self.tool_calling_supervisor.take();
        match calling_slot.as_mut() {
            Some(supervisor) => {
                let outcome = supervisor.advance(tokens.as_slice(), &self.ongoing_gen_type);
                proof {
                    answers = Answers { tool_calling: Some(outcome), ..answers };
                }
                match outcome {
                    Ok(event) => {
                        let reported_event = self.take_tool_calling_event(event);
                        if let Some(result) = reported_event {
                            self.tool_calling_supervisor = calling_slot;
                            assert(start.advances_with(
                                (*logits, with_logprobs, top_k_logprobs),
                                picked_model,
                                answers,
                                Ok(result),
                                *self,
                            ));
                            return Ok(result);
                        }
                    },
                    Err(message) => {
                        self.tool_calling_supervisor = calling_slot;
                        assert(start.advances_with(
                            (*logits, with_logprobs, top_k_logprobs),
                            picked_model,
                            answers,
                            Err(message),
                            *self,
                        ));
                        return Err(message);
                    },
                }
            },
            None => {},
        }
        self.tool_calling_supervisor = calling_slot;
        assert(Self::tool_calling_answer(
            start.tool_calling_supervisor,
            seq![token],
            ongoing,
            answers.tool_calling,
            self.tool_calling_supervisor,
        ));
        self.force_tool_choice();
        let result = if self.ongoing_gen_type == GenerationDataType::DirectContent {
            GenerationEvent::ContentSampled { sampling_result }
        } else {
            GenerationEvent::Nothing
        };
        assert(start.advances_with(
            (*logits, with_logprobs, top_k_logprobs),
            picked_model,
            answers,
            Ok(result),
            *self,
        ));
        Ok(result)
    }
}

/// A queued end token ends the generation, whatever the sampler or the supervisors would say.
pub proof fn law_queued_end_stops<
    S: Sampler,
    R: ReasoningSupervisorInterface,
    C: ToolCallingSupervisorInterface,
>(
    before: GenerationHandler<S, R, C>,
    request: (S::Logits, bool, Option<usize>),
    picked: Result<SamplingResult, String>,
    answers: Answers,
    result: Result<GenerationEvent, String>,
    after: GenerationHandler<S, R, C>,
)
    requires
        before.advances_with(request, picked, answers, result, after),
        before.tokens_to_force@.len() > 0,
        before.tokens_to_force@[0] == before.eos_token_id,
    ensures
        result == Ok::<GenerationEvent, String>(GenerationEvent::GenerationStopped),
{
}

/// Queued tokens come in their order: a token that is taken from the queue leaves the rest of the
/// queue in front of whatever the step adds.
pub proof fn law_queue_keeps_order<
    S: Sampler,
    R: ReasoningSupervisorInterface,
    C: ToolCallingSupervisorInterface,
>(
    before: GenerationHandler<S, R, C>,
    request: (S::Logits, bool, Option<usize>),
    picked: Result<SamplingResult, String>,
    answers: Answers,
    result: Result<GenerationEvent, String>,
    after: GenerationHandler<S, R, C>,
)
    requires
        before.advances_with(request, picked, answers, result, after),
        before.tokens_to_force@.len() > 0,
    ensures
        picked is Ok,
        picked->Ok_0.token == before.tokens_to_force@[0],
        after.sampler == before.sampler,
        before.tokens_to_force@.skip(1).is_prefix_of(after.tokens_to_force@),
{
    let rest = before.tokens_to_force@.skip(1);
    let course = before.picked_course();
    let middle = reasoned(course, answers);
    assert(rest =~= middle.forced.subrange(0, rest.len() as int));
    assert(rest =~= with_template(middle).forced.subrange(0, rest.len() as int));
    assert(rest =~= after.course().forced.subrange(0, rest.len() as int));
}

} // verus!
