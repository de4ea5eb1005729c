//! Streaming detection of stop sequences in the generated tokens.
use vstd::prelude::*;

use crate::text::{list_of, texts_of};
use crate::tokenizer::{Tokenizer, TokenizerView};

verus! {

/// The last `k` elements of `text` are the first `k` elements of `pattern`.
pub open spec fn ends_with_prefix(pattern: Seq<u32>, text: Seq<u32>, k: int) -> bool {
    &&& 0 <= k <= pattern.len()
    &&& k <= text.len()
    &&& text.subrange(text.len() - k, text.len() as int) == pattern.take(k)
}

/// `pattern` is a suffix of `text`.
pub open spec fn ends_with(pattern: Seq<u32>, text: Seq<u32>) -> bool {
    ends_with_prefix(pattern, text, pattern.len() as int)
}

/// `k` is the length of the longest prefix of `pattern` that `text` ends with.
pub open spec fn is_longest_match(pattern: Seq<u32>, text: Seq<u32>, k: int) -> bool {
    &&& ends_with_prefix(pattern, text, k)
    &&& forall|m: int| #[trigger] ends_with_prefix(pattern, text, m) ==> m <= k
}

/// `k` is the length of the longest proper prefix of `pattern` that is also a suffix of it.
pub open spec fn is_longest_border(pattern: Seq<u32>, k: int) -> bool {
    &&& k < pattern.len()
    &&& ends_with_prefix(pattern, pattern, k)
    &&& forall|m: int|
        m < pattern.len() && #[trigger] ends_with_prefix(pattern, pattern, m) ==> m <= k
}

proof fn lemma_prefix_index(pattern: Seq<u32>, text: Seq<u32>, k: int)
    requires
        0 <= k <= pattern.len(),
        k <= text.len(),
    ensures
        ends_with_prefix(pattern, text, k) <==> (forall|x: int|
            0 <= x < k ==> #[trigger] pattern[x] == text[text.len() - k + x]),
{
    let tail = text.subrange(text.len() - k, text.len() as int);
    if ends_with_prefix(pattern, text, k) {
        assert forall|x: int| 0 <= x < k implies #[trigger] pattern[x] == text[text.len() - k
            + x] by {
            assert(tail[x] == pattern.take(k)[x]);
        }
    }
    if forall|x: int| 0 <= x < k ==> #[trigger] pattern[x] == text[text.len() - k + x] {
        assert forall|x: int| 0 <= x < k implies tail[x] == pattern.take(k)[x] by {
            assert(pattern[x] == text[text.len() - k + x]);
        }
        assert(tail =~= pattern.take(k));
    }
}

/// Two matches of one text: the shorter one ends the longer one.
proof fn lemma_nested(pattern: Seq<u32>, text: Seq<u32>, k: int, m: int)
    requires
        ends_with_prefix(pattern, text, k),
        ends_with_prefix(pattern, text, m),
        m <= k,
    ensures
        ends_with_prefix(pattern, pattern.take(k), m),
        ends_with_prefix(pattern.take(k), pattern.take(k), m),
{
    lemma_prefix_index(pattern, text, k);
    lemma_prefix_index(pattern, text, m);
    assert forall|x: int| 0 <= x < m implies #[trigger] pattern[x] == pattern.take(k)[k - m
        + x] by {
        assert(pattern[k - m + x] == text[text.len() - k + (k - m + x)]);
    }
    lemma_prefix_index(pattern, pattern.take(k), m);
    assert forall|x: int| 0 <= x < m implies #[trigger] pattern.take(k)[x] == pattern.take(k)[k
        - m + x] by {
        assert(pattern[x] == pattern.take(k)[k - m + x]);
    }
    lemma_prefix_index(pattern.take(k), pattern.take(k), m);
}

/// A match of a match is a match.
proof fn lemma_chain(pattern: Seq<u32>, text: Seq<u32>, k: int, m: int)
    requires
        ends_with_prefix(pattern, text, k),
        ends_with_prefix(pattern.take(k), pattern.take(k), m),
    ensures
        ends_with_prefix(pattern, text, m),
{
    lemma_prefix_index(pattern, text, k);
    lemma_prefix_index(pattern.take(k), pattern.take(k), m);
    assert forall|x: int| 0 <= x < m implies #[trigger] pattern[x] == text[text.len() - m + x] by {
        assert(pattern.take(k)[x] == pattern.take(k)[k - m + x]);
        assert(pattern[k - m + x] == text[text.len() - k + (k - m + x)]);
    }
    lemma_prefix_index(pattern, text, m);
}

/// A match one longer is a match whose next pattern element is the new one.
proof fn lemma_extend(pattern: Seq<u32>, text: Seq<u32>, token: u32, k: int)
    requires
        0 <= k < pattern.len(),
    ensures
        ends_with_prefix(pattern, text.push(token), k + 1) <==> (ends_with_prefix(pattern, text, k)
            && pattern[k] == token),
{
    let longer = text.push(token);
    if k <= text.len() {
        lemma_prefix_index(pattern, text, k);
        lemma_prefix_index(pattern, longer, k + 1);
        if ends_with_prefix(pattern, longer, k + 1) {
            assert(pattern[k] == longer[longer.len() - (k + 1) + k]);
            assert forall|x: int| 0 <= x < k implies #[trigger] pattern[x] == text[text.len() - k
                + x] by {
                assert(pattern[x] == longer[longer.len() - (k + 1) + x]);
            }
        }
        if ends_with_prefix(pattern, text, k) && pattern[k] == token {
            assert forall|x: int| 0 <= x < k + 1 implies #[trigger] pattern[x]
                == longer[longer.len() - (k + 1) + x] by {
                if x < k {
                    assert(pattern[x] == text[text.len() - k + x]);
                }
            }
        }
    }
}

/// Only the elements up to the longest match matter for the matches after one more element.
proof fn lemma_longest_after_push(pattern: Seq<u32>, text: Seq<u32>, k: int, token: u32, m: int)
    requires
        is_longest_match(pattern, text, k),
    ensures
        ends_with_prefix(pattern, text.push(token), m) <==> ends_with_prefix(
            pattern,
            pattern.take(k).push(token),
            m,
        ),
{
    if m == 0 {
        lemma_prefix_index(pattern, text.push(token), 0);
        lemma_prefix_index(pattern, pattern.take(k).push(token), 0);
    } else if 0 < m <= pattern.len() {
        lemma_extend(pattern, text, token, m - 1);
        lemma_extend(pattern, pattern.take(k), token, m - 1);
        if ends_with_prefix(pattern, text, m - 1) {
            lemma_nested(pattern, text, k, m - 1);
        }
        if ends_with_prefix(pattern, pattern.take(k), m - 1) {
            lemma_prefix_index(pattern, pattern.take(k), m - 1);
            lemma_prefix_index(pattern.take(k), pattern.take(k), m - 1);
            assert forall|x: int| 0 <= x < m - 1 implies #[trigger] pattern.take(k)[x]
                == pattern.take(k)[k - (m - 1) + x] by {
                assert(pattern[x] == pattern.take(k)[k - (m - 1) + x]);
            }
            lemma_chain(pattern, text, k, m - 1);
        }
    }
}

/// A token sequence that is looked for in a stream of tokens.
pub struct StopPattern {
    pattern: Vec<u32>,
    match_elements_count: usize,
    // Fallback positions for self-overlapping patterns
    failure_table: Vec<usize>,
}

impl StopPattern {
    /// The sequence that is looked for.
    pub closed spec fn pattern(&self) -> Seq<u32> {
        self.pattern@
    }

    /// How many elements of the pattern the stream ends with at this point.
    pub closed spec fn matched(&self) -> int {
        self.match_elements_count as int
    }

    /// The fallback table is right for the pattern and the pattern is not wholly matched.
    pub closed spec fn wf(&self) -> bool {
        &&& self.failure_table@.len() == self.pattern@.len()
        &&& forall|i: int|
            0 <= i < self.pattern@.len() ==> is_longest_border(
                self.pattern@.take(i + 1),
                #[trigger] self.failure_table@[i] as int,
            )
        &&& self.match_elements_count == 0 || self.match_elements_count < self.pattern@.len()
    }

    pub fn new(pattern: Vec<u32>) -> (result: Self)
        ensures
            result.wf(),
            result.pattern() == pattern@,
            result.matched() == 0,
    {
        let n: usize = pattern.len();
        let mut failure_table: Vec<usize> = vec![0; n];
        let mut j: usize = 0;
        proof {
            if n > 0 {
                assert forall|m: int|
                    m < 1 && #[trigger] ends_with_prefix(
                        pattern@.take(1),
                        pattern@.take(1),
                        m,
                    ) implies m <= 0 by {}
                lemma_prefix_index(pattern@.take(1), pattern@.take(1), 0);
            }
        }
        let mut i: usize = 1;
        while i < n
            invariant
                1 <= i,
                n > 0 ==> i <= n,
                n == pattern@.len(),
                failure_table@.len() == n,
                n > 0 ==> j == failure_table@[i - 1],
                forall|q: int|
                    0 <= q < i && q < n ==> is_longest_border(
                        pattern@.take(q + 1),
                        #[trigger] failure_table@[q] as int,
                    ),
            decreases n - i,
        {
            let ghost head = pattern@.take(i as int);
            let ghost next = pattern@.take(i + 1);
            assert(next =~= head.push(pattern@[i as int]));
            assert(is_longest_border(head, j as int));
            proof {
                assert forall|m: int|
                    1 <= m < i + 1 && #[trigger] ends_with_prefix(next, next, m) implies m - 1
                    <= j by {
                    lemma_extend(next, head, pattern@[i as int], m - 1);
                    lemma_prefix_index(next, head, m - 1);
                    lemma_prefix_index(head, head, m - 1);
                    assert forall|x: int| 0 <= x < m - 1 implies #[trigger] head[x]
                        == head[head.len() - (m - 1) + x] by {
                        assert(next[x] == head[head.len() - (m - 1) + x]);
                    }
                }
            }
            while j > 0 && pattern[i] != pattern[j]
                invariant
                    1 <= i < n,
                    n == pattern@.len(),
                    failure_table@.len() == n,
                    head == pattern@.take(i as int),
                    next == pattern@.take(i + 1),
                    next == head.push(pattern@[i as int]),
                    j < i,
                    ends_with_prefix(head, head, j as int),
                    forall|q: int|
                        0 <= q < i ==> is_longest_border(
                            pattern@.take(q + 1),
                            #[trigger] failure_table@[q] as int,
                        ),
                    forall|m: int|
                        1 <= m < i + 1 && #[trigger] ends_with_prefix(next, next, m) ==> m - 1
                            <= j,
                decreases j,
            {
                let ghost shorter = failure_table@[j - 1] as int;
                proof {
                    assert(is_longest_border(pattern@.take(j as int), shorter));
                    assert(head.take(j as int) =~= pattern@.take(j as int));
                    lemma_chain(head, head, j as int, shorter);
                    assert forall|m: int|
                        1 <= m < i + 1 && #[trigger] ends_with_prefix(
                            next,
                            next,
                            m,
                        ) implies m - 1 <= shorter by {
                        lemma_extend(next, head, pattern@[i as int], m - 1);
                        assert(next[m - 1] == pattern@[m - 1]);
                        assert(m - 1 != j);
                        lemma_prefix_index(next, head, m - 1);
                        lemma_prefix_index(head, head, m - 1);
                        assert forall|x: int| 0 <= x < m - 1 implies #[trigger] head[x]
                            == head[head.len() - (m - 1) + x] by {
                            assert(next[x] == head[head.len() - (m - 1) + x]);
                        }
                        lemma_nested(head, head, j as int, m - 1);
                    }
                }
                j = failure_table[j - 1];
            }
            proof {
                lemma_extend(next, head, pattern@[i as int], j as int);
                lemma_prefix_index(next, head, j as int);
                lemma_prefix_index(head, head, j as int);
                assert forall|x: int| 0 <= x < j implies #[trigger] next[x] == head[head.len() - j
                    + x] by {
                    assert(head[x] == head[head.len() - j + x]);
                }
                lemma_prefix_index(next, next, 0);
            }
            if pattern[i] == pattern[j] {
                j = j + 1;
            }
            failure_table.set(i, j);
            proof {
                assert(is_longest_border(next, j as int)) by {
                    assert forall|m: int|
                        m < next.len() && #[trigger] ends_with_prefix(
                            next,
                            next,
                            m,
                        ) implies m <= j by {
                        if m >= 1 {
                            lemma_extend(next, head, pattern@[i as int], m - 1);
                            assert(next[m - 1] == pattern@[m - 1]);
                        }
                    }
                }
            }
            i = i + 1;
        }
        StopPattern { pattern, match_elements_count: 0, failure_table }
    }

    /// Takes the next token of the stream and says whether it completes the pattern. A completed
    /// match starts the search over; an empty pattern is never completed.
    pub fn advance_and_match(&mut self, token: u32) -> (result: bool)
        requires
            old(self).wf(),
        ensures
            final(self).wf(),
            final(self).pattern() == old(self).pattern(),
            result == (old(self).pattern().len() > 0 && ends_with(
                old(self).pattern(),
                old(self).pattern().take(old(self).matched()).push(token),
            )),
            result ==> final(self).matched() == 0,
            !result ==> is_longest_match(
                old(self).pattern(),
                old(self).pattern().take(old(self).matched()).push(token),
                final(self).matched(),
            ) || old(self).pattern().len() == 0 && final(self).matched() == 0,
    {
        if self.pattern.len() == 0 {
            return false;
        }
        let ghost p = self.pattern@;
        let ghost start = self.match_elements_count as int;
        let ghost head = p.take(start);
        let ghost text = head.push(token);
        proof {
            lemma_prefix_index(p, head, start);
            assert forall|m: int| 1 <= m && #[trigger] ends_with_prefix(p, text, m) implies m - 1
                <= start by {}
        }
        while self.match_elements_count > 0 && self.pattern[self.match_elements_count] != token
            invariant
                self.wf(),
                self.pattern@ == p,
                p.len() > 0,
                head == p.take(start),
                0 <= start < p.len(),
                text == head.push(token),
                self.match_elements_count < p.len(),
                ends_with_prefix(p, head, self.match_elements_count as int),
                forall|m: int|
                    1 <= m && #[trigger] ends_with_prefix(p, text, m) ==> m - 1
                        <= self.match_elements_count,
            decreases self.match_elements_count,
        {
            let ghost j = self.match_elements_count as int;
            let ghost shorter = self.failure_table@[j - 1] as int;
            proof {
                assert(is_longest_border(p.take(j), shorter));
                lemma_chain(p, head, j, shorter);
                assert forall|m: int|
                    1 <= m && #[trigger] ends_with_prefix(p, text, m) implies m - 1
                    <= shorter by {
                    lemma_extend(p, head, token, m - 1);
                    lemma_nested(p, head, j, m - 1);
                }
            }
            self.match_elements_count = self.failure_table[self.match_elements_count - 1];
        }
        let ghost reached = self.match_elements_count as int;
        proof {
            lemma_extend(p, head, token, reached);
            lemma_prefix_index(p, text, 0);
            if p[reached] != token {
                assert(reached == 0);
                assert forall|m: int| #[trigger] ends_with_prefix(p, text, m) implies m <= 0 by {
                    if m >= 1 {
                        lemma_extend(p, head, token, m - 1);
                    }
                }
            }
        }
        if self.pattern[self.match_elements_count] == token {
            self.match_elements_count = self.match_elements_count + 1;
        }
        if self.match_elements_count == self.pattern.len() {
            self.match_elements_count = 0;
            return true;
        }
        false
    }
}

/// A set of stop patterns that are looked for at the same time.
pub struct StopPatternMatcher {
    patterns: Option<Vec<StopPattern>>,
}

/// The encodings of the texts that can be encoded, in their order.
pub open spec fn encodings(tokenizer: TokenizerView, texts: Seq<Seq<char>>) -> Seq<Seq<u32>>
    decreases texts.len(),
{
    if texts.len() == 0 {
        seq![]
    } else {
        let rest = encodings(tokenizer, texts.drop_last());
        match tokenizer.encoding(texts.last(), false) {
            Ok(ids) => rest.push(ids),
            Err(_) => rest,
        }
    }
}

/// The token completes the pattern that has matched this far.
pub open spec fn completes(pattern: StopPattern, token: u32) -> bool {
    &&& pattern.pattern().len() > 0
    &&& ends_with(pattern.pattern(), pattern.pattern().take(pattern.matched()).push(token))
}

/// `after` is `before` once the token was fed to it.
pub open spec fn advanced(before: StopPattern, token: u32, after: StopPattern) -> bool {
    &&& after.pattern() == before.pattern()
    &&& if completes(before, token) || before.pattern().len() == 0 {
        after.matched() == 0
    } else {
        is_longest_match(
            before.pattern(),
            before.pattern().take(before.matched()).push(token),
            after.matched(),
        )
    }
}

impl StopPatternMatcher {
    /// The patterns with their progress.
    pub closed spec fn patterns(&self) -> Option<Seq<StopPattern>> {
        match self.patterns {
            Some(list) => Some(list@),
            None => None,
        }
    }

    pub open spec fn wf(&self) -> bool {
        self.patterns() matches Some(list) ==> forall|i: int|
            0 <= i < list.len() ==> (#[trigger] list[i]).wf()
    }

    /// The matcher looks for the encodings of the texts and has seen nothing.
    pub open spec fn looks_for(
        &self,
        tokenizer: TokenizerView,
        texts: Option<Seq<Seq<char>>>,
    ) -> bool {
        match texts {
            Some(texts) => {
                &&& self.patterns() matches Some(list)
                &&& list.map_values(|p: StopPattern| p.pattern()) == encodings(tokenizer, texts)
                &&& forall|i: int| 0 <= i < list.len() ==> (#[trigger] list[i]).matched() == 0
            },
            None => self.patterns() is None,
        }
    }

    /// Encodes the stop strings. A string that the tokenizer cannot encode is left out.
    pub fn new<T: Tokenizer>(patterns: Option<Vec<String>>, tokenizer: &T) -> (result: Self)
        ensures
            result.wf(),
            result.looks_for(tokenizer.model(), list_of(patterns)),
    {
        let texts = match patterns {
            Some(texts) => texts,
            None => {
                return StopPatternMatcher { patterns: None };
            },
        };
        let mut list: Vec<StopPattern> = Vec::new();
        assert(list@.map_values(|p: StopPattern| p.pattern()) =~= seq![]);
        let mut i: usize = 0;
        while i < texts.len()
            invariant
                i <= texts@.len(),
                encodings(tokenizer.model(), texts_of(texts@).take(i as int)) == list@.map_values(
                    |p: StopPattern| p.pattern(),
                ),
                forall|q: int|
                    0 <= q < list@.len() ==> (#[trigger] list@[q]).wf() && list@[q].matched() == 0,
            decreases texts.len() - i,
        {
            assert(texts_of(texts@).take(i + 1).drop_last() =~= texts_of(texts@).take(i as int));
            assert(texts_of(texts@).take(i + 1).last() == texts@[i as int]@);
            if let Ok(ids) = tokenizer.encode(texts[i].as_str(), false) {
                let ghost listed = list@;
                let pattern = StopPattern::new(ids);
                list.push(pattern);
                assert(list@.map_values(|p: StopPattern| p.pattern()) =~= listed.map_values(
                    |p: StopPattern| p.pattern(),
                ).push(ids@));
            }
            i = i + 1;
        }
        assert(texts_of(texts@).take(texts@.len() as int) =~= texts_of(texts@));
        StopPatternMatcher { patterns: Some(list) }
    }

    /// The token completes one of the patterns.
    pub open spec fn hits(&self, token: u32) -> bool {
        match self.patterns() {
            Some(list) => exists|i: int|
                0 <= i < list.len() && completes(#[trigger] list[i], token),
            None => false,
        }
    }

    /// The matcher after a token: the patterns up to the first one that it completes have seen
    /// it, the others not.
    pub open spec fn follows(&self, token: u32, after: Self) -> bool {
        match (self.patterns(), after.patterns()) {
            (Some(before), Some(list)) => {
                &&& list.len() == before.len()
                &&& forall|i: int|
                    0 <= i < before.len() ==> if (exists|h: int|
                        0 <= h < i && completes(#[trigger] before[h], token)) {
                        #[trigger] list[i] == before[i]
                    } else {
                        advanced(before[i], token, list[i])
                    }
            },
            (None, None) => true,
            _ => false,
        }
    }

    /// Feeds one token to the patterns in order, up to the first one that it completes. The
    /// patterns after that one do not see the token.
    pub fn matches(&mut self, token: u32) -> (result: bool)
        requires
            old(self).wf(),
        ensures
            final(self).wf(),
            result == old(self).hits(token),
            old(self).follows(token, *final(self)),
    {
        let mut list = match self.patterns.take() {
            Some(list) => list,
            None => {
                return false;
            },
        };
        let ghost before = list@;
        assert(old(self).patterns() == Some(before));
        assert forall|q: int| 0 <= q < before.len() implies (#[trigger] before[q]).wf() by {
            assert(old(self).patterns()->Some_0[q].wf());
        }
        let mut found = false;
        let mut i: usize = 0;
        while i < list.len() && !found
            invariant
                i <= list@.len(),
                list@.len() == before.len(),
                forall|q: int| 0 <= q < before.len() ==> (#[trigger] before[q]).wf(),
                forall|q: int| 0 <= q < list@.len() ==> (#[trigger] list@[q]).wf(),
                forall|q: int| 0 <= q < i ==> advanced(before[q], token, #[trigger] list@[q]),
                forall|q: int| i <= q < before.len() ==> #[trigger] list@[q] == before[q],
                found ==> i > 0 && completes(before[i - 1], token),
                forall|q: int|
                    0 <= q < i - 1 ==> !completes(#[trigger] before[q], token),
                !found && i > 0 ==> !completes(before[i - 1], token),
            decreases list.len() - i,
        {
            found = list[i].advance_and_match(token);
            i = i + 1;
        }
        assert(found ==> completes(before[i - 1], token) && old(self).patterns()->Some_0[i - 1]
            == before[i - 1]);
        assert(found == exists|q: int| 0 <= q < before.len() && completes(#[trigger] before[q], token));
        self.patterns = Some(list);
        found
    }
}

/// One more token never loses a match: if `matched` sums up the stream that was fed since the
/// last match, the token completes the pattern exactly if the pattern ends the whole stream, and
/// otherwise the new count sums up the longer stream.
pub proof fn law_stream_match(pattern: Seq<u32>, stream: Seq<u32>, matched: int, token: u32)
    requires
        is_longest_match(pattern, stream, matched),
    ensures
        ends_with(pattern, pattern.take(matched).push(token)) <==> ends_with(
            pattern,
            stream.push(token),
        ),
        forall|k: int|
            is_longest_match(pattern, pattern.take(matched).push(token), k) <==>
                #[trigger] is_longest_match(pattern, stream.push(token), k),
{
    assert forall|m: int|
        #[trigger] ends_with_prefix(pattern, stream.push(token), m) <==> ends_with_prefix(
            pattern,
            pattern.take(matched).push(token),
            m,
        ) by {
        lemma_longest_after_push(pattern, stream, matched, token, m);
    }
    lemma_longest_after_push(pattern, stream, matched, token, pattern.len() as int);
    assert forall|k: int|
        is_longest_match(pattern, pattern.take(matched).push(token), k) <==>
            #[trigger] is_longest_match(pattern, stream.push(token), k) by {
        lemma_longest_after_push(pattern, stream, matched, token, k);
        if is_longest_match(pattern, stream.push(token), k) {
            assert forall|m: int|
                #[trigger] ends_with_prefix(
                    pattern,
                    pattern.take(matched).push(token),
                    m,
                ) implies m <= k by {
                lemma_longest_after_push(pattern, stream, matched, token, m);
            }
        }
    }
}

/// A fresh search, and one that has just reported a match, sums up the empty stream.
pub proof fn law_fresh_stream(pattern: Seq<u32>)
    ensures
        is_longest_match(pattern, Seq::<u32>::empty(), 0),
{
    lemma_prefix_index(pattern, Seq::<u32>::empty(), 0);
}

/// A pattern that is complete is looked for anew; one that is not goes on from the longest beginning
/// of it that the stream ends with; and an empty one is never complete.
pub proof fn law_search_goes_on(before: StopPattern, token: u32, after: StopPattern)
    requires
        advanced(before, token, after),
    ensures
        after.pattern() == before.pattern(),
        completes(before, token) ==> after.matched() == 0,
        before.pattern().len() == 0 ==> !completes(before, token),
        before.pattern().len() > 0 && !completes(before, token) ==> is_longest_match(
            before.pattern(),
            before.pattern().take(before.matched()).push(token),
            after.matched(),
        ),
        before.pattern().len() == 1 ==> (completes(before, token) <==> token == before.pattern()[0]),
{
    if before.pattern().len() == 1 {
        let text = before.pattern().take(before.matched()).push(token);
        lemma_prefix_index(before.pattern(), text, 1);
    }
}

} // verus!
