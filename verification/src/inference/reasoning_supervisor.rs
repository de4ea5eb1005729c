//! Watches the reasoning of a model and ends it when its budget is used up.
use vstd::prelude::*;

use crate::inference::types::{GenerationDataType, GenerationEvent, PostSamplingConfig};
use crate::types::ReasoningEffort;

verus! {

pub const HIGH_REASONING_BUDGET: u32 = 16384;

pub const MEDIUM_REASONING_BUDGET: u32 = 4096;

pub const LOW_REASONING_BUDGET: u32 = 1024;

/// A supervisor of the reasoning part of a generation.
/// An implementation that is not verified may leave the specification functions out.
pub trait ReasoningSupervisorInterface: Sized {
    /// The supervisor can count these tokens.
    closed spec fn can_advance(&self, token_ids: Seq<u32>, ongoing: GenerationDataType) -> bool {
        arbitrary()
    }

    /// `event` and `after` are a possible outcome of `advance`.
    closed spec fn advances(
        &self,
        token_ids: Seq<u32>,
        ongoing: GenerationDataType,
        event: GenerationEvent,
        after: Self,
    ) -> bool {
        arbitrary()
    }

    /// The answer of `reasoning_tokens_count`.
    closed spec fn tokens_count(&self) -> u32 {
        arbitrary()
    }

    /// The answer of `get_reasoning_budget`.
    closed spec fn budget(&self) -> u32 {
        arbitrary()
    }

    fn advance(&mut self, token_ids: &[u32], ongoing_gen_type: &GenerationDataType) -> (event:
        GenerationEvent)
        requires
            old(self).can_advance(token_ids@, *ongoing_gen_type),
        ensures
            old(self).advances(token_ids@, *ongoing_gen_type, event, *final(self)),
    ;

    fn reasoning_tokens_count(&self) -> (result: u32)
        ensures
            result == self.tokens_count(),
    ;

    fn get_reasoning_budget(&self) -> (result: u32)
        ensures
            result == self.budget(),
    ;
}

/// Counts the reasoning tokens and recognises the tokens that open and close the reasoning.
#[derive(Debug, Clone, Copy, PartialEq, Eq, Structural)]
pub struct ReasoningSupervisor {
    pub reasoning_budget: u32,
    pub reasoning_tokens: u32,
    pub reasoning_start_token_id: u32,
    pub reasoning_end_token_id: u32,
}

/// The last token is `id`.
pub open spec fn ends_in(token_ids: Seq<u32>, id: u32) -> bool {
    token_ids.len() > 0 && token_ids.last() == id
}

/// Whether the last token is `id`.
pub fn last_is(token_ids: &[u32], id: u32) -> (result: bool)
    ensures
        result == ends_in(token_ids@, id),
{
    token_ids.len() > 0 && token_ids[token_ids.len() - 1] == id
}

/// The tokens that count as reasoning: all but the one that opened it.
pub open spec fn counted(reasoning_tokens: u32) -> u32 {
    if reasoning_tokens == 0 {
        0
    } else {
        (reasoning_tokens - 1) as u32
    }
}

/// The budget for an effort.
pub open spec fn budget_of(effort: ReasoningEffort) -> u32 {
    match effort {
        ReasoningEffort::Off => 0,
        ReasoningEffort::Low => LOW_REASONING_BUDGET,
        ReasoningEffort::Medium => MEDIUM_REASONING_BUDGET,
        ReasoningEffort::High => HIGH_REASONING_BUDGET,
    }
}

/// The supervisor of a new generation, if there is one.
pub open spec fn supervisor_for(
    supports_reasoning: bool,
    effort: ReasoningEffort,
    config: PostSamplingConfig,
) -> Option<ReasoningSupervisor> {
    match (config.reasoning_start_token_id, config.reasoning_end_token_id) {
        (Some(start), Some(end)) => if supports_reasoning && effort != ReasoningEffort::Off {
            Some(
                ReasoningSupervisor {
                    reasoning_budget: budget_of(effort),
                    reasoning_tokens: 0,
                    reasoning_start_token_id: start,
                    reasoning_end_token_id: end,
                },
            )
        } else {
            None
        },
        _ => None,
    }
}

impl Default for ReasoningSupervisor {
    fn default() -> (result: Self)
        ensures
            result == (ReasoningSupervisor {
                reasoning_budget: 0,
                reasoning_tokens: 0,
                reasoning_start_token_id: 0,
                reasoning_end_token_id: 0,
            }),
    {
        ReasoningSupervisor {
            reasoning_budget: 0,
            reasoning_tokens: 0,
            reasoning_start_token_id: 0,
            reasoning_end_token_id: 0,
        }
    }
}

impl ReasoningSupervisorInterface for ReasoningSupervisor {
    open spec fn can_advance(&self, token_ids: Seq<u32>, ongoing: GenerationDataType) -> bool {
        ongoing is Reasoning ==> self.reasoning_tokens + token_ids.len() <= u32::MAX
    }

    open spec fn advances(
        &self,
        token_ids: Seq<u32>,
        ongoing: GenerationDataType,
        event: GenerationEvent,
        after: Self,
    ) -> bool {
        if ongoing is Reasoning {
            let total = (self.reasoning_tokens + token_ids.len()) as u32;
            &&& after == ReasoningSupervisor { reasoning_tokens: total, ..*self }
            &&& if ends_in(token_ids, self.reasoning_end_token_id) {
                event is ReasoningStopped
            } else if counted(total) >= self.reasoning_budget {
                event is ForceTokens && event->tokens@ == seq![self.reasoning_end_token_id]
            } else {
                event is Nothing
            }
        } else {
            &&& after == *self
            &&& if ends_in(token_ids, self.reasoning_start_token_id) {
                event is ReasoningStarted
            } else {
                event is Nothing
            }
        }
    }

    open spec fn tokens_count(&self) -> u32 {
        counted(self.reasoning_tokens)
    }

    open spec fn budget(&self) -> u32 {
        self.reasoning_budget
    }

    fn advance(&mut self, token_ids: &[u32], ongoing_gen_type: &GenerationDataType) -> (event:
        GenerationEvent) {
        if *ongoing_gen_type == GenerationDataType::Reasoning {
            self.reasoning_tokens = self.reasoning_tokens + token_ids.len() as u32;
            if self.detect_reasoning_end(token_ids) {
                GenerationEvent::ReasoningStopped
            } else if self.reasoning_budget_exceeded() {
                let tokens: Vec<u32> = vec![self.reasoning_end_token_id];
                assert(tokens@ =~= seq![self.reasoning_end_token_id]);
                GenerationEvent::ForceTokens { tokens }
            } else {
                GenerationEvent::Nothing
            }
        } else if self.detect_reasoning_start(token_ids) {
            GenerationEvent::ReasoningStarted
        } else {
            GenerationEvent::Nothing
        }
    }

    fn reasoning_tokens_count(&self) -> (result: u32) {
        if self.reasoning_tokens == 0 {
            0
        } else {
            self.reasoning_tokens - 1
        }
    }

    fn get_reasoning_budget(&self) -> (result: u32) {
        self.reasoning_budget
    }
}

impl ReasoningSupervisor {
    /// A supervisor, if the model reasons, some effort is asked for and the model's reasoning
    /// tokens are known.
    pub fn new(
        supports_reasoning: bool,
        reasoning_effort: &ReasoningEffort,
        config: &PostSamplingConfig,
    ) -> (result: Option<Self>)
        ensures
            result == supervisor_for(supports_reasoning, *reasoning_effort, *config),
    {
        if !supports_reasoning || *reasoning_effort == ReasoningEffort::Off {
            return None;
        }
        let reasoning_start_token_id: u32 = match config.reasoning_start_token_id {
            Some(id) => id,
            None => {
                return None;
            },
        };
        let reasoning_end_token_id: u32 = match config.reasoning_end_token_id {
            Some(id) => id,
            None => {
                return None;
            },
        };
        let reasoning_budget: u32 = match reasoning_effort {
            ReasoningEffort::Off => 0,
            ReasoningEffort::Low => LOW_REASONING_BUDGET,
            ReasoningEffort::Medium => MEDIUM_REASONING_BUDGET,
            ReasoningEffort::High => HIGH_REASONING_BUDGET,
        };
        Some(
            ReasoningSupervisor {
                reasoning_budget,
                reasoning_tokens: 0,
                reasoning_start_token_id,
                reasoning_end_token_id,
            },
        )
    }

    pub fn detect_reasoning_start(&self, token_ids: &[u32]) -> (result: bool)
        ensures
            result == ends_in(token_ids@, self.reasoning_start_token_id),
    {
        last_is(token_ids, self.reasoning_start_token_id)
    }

    pub fn detect_reasoning_end(&self, token_ids: &[u32]) -> (result: bool)
        ensures
            result == ends_in(token_ids@, self.reasoning_end_token_id),
    {
        last_is(token_ids, self.reasoning_end_token_id)
    }

    /// The counted tokens have reached the budget.
    pub fn reasoning_budget_exceeded(&self) -> (result: bool)
        ensures
            result == (counted(self.reasoning_tokens) >= self.reasoning_budget),
    {
        self.reasoning_tokens_count() >= self.reasoning_budget
    }
}

/// Reasoning that goes on token by token is ended by force as soon as the budget is reached, and
/// not before.
pub proof fn law_budget_is_enforced(
    before: ReasoningSupervisor,
    token: u32,
    event: GenerationEvent,
    after: ReasoningSupervisor,
)
    requires
        before.can_advance(seq![token], GenerationDataType::Reasoning),
        before.advances(seq![token], GenerationDataType::Reasoning, event, after),
        token != before.reasoning_end_token_id,
    ensures
        event is ForceTokens <==> after.tokens_count() >= after.budget(),
        event is ForceTokens || event is Nothing,
        after.tokens_count() <= before.tokens_count() + 1,
{
}

} // verus!
