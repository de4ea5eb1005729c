//! The interface to the sampler and its memory of recent tokens.
use vstd::prelude::*;

use crate::inference::types::SamplingResult;

verus! {

/// Picks tokens from the scores of a model.
/// An implementation that is not verified may leave the specification functions out.
pub trait Sampler: Sized {
    /// The scores of the next token.
    type Logits;

    /// `result` and `after` are a possible outcome of `sample`.
    closed spec fn samples(
        &self,
        logits: Self::Logits,
        top_k: Option<usize>,
        result: Result<SamplingResult, String>,
        after: Self,
    ) -> bool {
        arbitrary()
    }

    /// `after` is a possible outcome of `add_token`.
    closed spec fn notes(&self, token_id: u32, after: Self) -> bool {
        arbitrary()
    }

    /// Takes note of a token that was not picked here.
    fn add_token(&mut self, token_id: u32)
        ensures
            old(self).notes(token_id, *final(self)),
    ;

    /// Picks a token; with the log probabilities of the best `top_k` if that is asked for.
    fn sample(&mut self, logits: &Self::Logits, top_k: Option<usize>) -> (result: Result<
        SamplingResult,
        String,
    >)
        ensures
            old(self).samples(*logits, top_k, result, *final(self)),
    ;
}

/// The most log probabilities that are reported beside the token's own.
pub const MAX_TOP_K: usize = 5;

/// The number of log probabilities that are reported when `wanted` are asked for.
pub fn clamp_top_k(wanted: usize) -> (result: usize)
    ensures
        result == (if wanted < MAX_TOP_K {
            wanted
        } else {
            MAX_TOP_K
        }),
{
    if wanted < MAX_TOP_K {
        wanted
    } else {
        MAX_TOP_K
    }
}

/// The last tokens of a stream in a window of fixed size. A window that is not full yet is padded
/// with zeros.
pub struct TokenHistory {
    window: Vec<u32>,
    head: usize,
}

impl TokenHistory {
    pub closed spec fn wf(&self) -> bool {
        self.window@.len() == 0 && self.head == 0 || self.head < self.window@.len()
    }

    /// The tokens of the window, the oldest first.
    pub closed spec fn recent(&self) -> Seq<u32> {
        self.window@.skip(self.head as int) + self.window@.take(self.head as int)
    }

    pub fn new(size: usize) -> (result: Self)
        ensures
            result.wf(),
            result.recent() == Seq::new(size as nat, |i: int| 0u32),
    {
        let window: Vec<u32> = vec![0; size];
        let history = TokenHistory { window, head: 0 };
        assert(history.recent() =~= Seq::new(size as nat, |i: int| 0u32));
        history
    }

    /// Takes the next token; the oldest one falls out. A window of size zero stays empty.
    pub fn add_token(&mut self, token_id: u32)
        requires
            old(self).wf(),
        ensures
            final(self).wf(),
            final(self).recent() == (if old(self).recent().len() == 0 {
                old(self).recent()
            } else {
                old(self).recent().skip(1).push(token_id)
            }),
    {
        let n: usize = self.window.len();
        if n == 0 {
            return ;
        }
        self.window.set(self.head, token_id);
        self.head = if self.head + 1 == n {
            0
        } else {
            self.head + 1
        };
        assert(self.recent() =~= old(self).recent().skip(1).push(token_id));
    }

    /// The tokens of the window in no particular order.
    pub fn tokens(&self) -> (result: &Vec<u32>)
        requires
            self.wf(),
        ensures
            result@.to_multiset() == self.recent().to_multiset(),
    {
        proof {
            let h = self.head as int;
            let w = self.window@;
            vstd::seq_lib::lemma_multiset_commutative(w.take(h), w.skip(h));
            vstd::seq_lib::lemma_multiset_commutative(w.skip(h), w.take(h));
            assert(w.take(h) + w.skip(h) =~= w);
            assert(w.take(h).to_multiset().add(w.skip(h).to_multiset()) =~= w.skip(
                h,
            ).to_multiset().add(w.take(h).to_multiset()));
        }
        &self.window
    }
}

} // verus!
