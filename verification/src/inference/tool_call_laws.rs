//! What holds of every tool call that is read, and of what the tokens of a generation are part of.
use serde_json::Value;
use vstd::prelude::*;
use vstd::utf8::*;

use crate::inference::generation_handler::{
    course_after, event_for, with_template, Answers, Course, GenerationHandler,
};
use crate::inference::reasoning_supervisor::{
    supervisor_for, ReasoningSupervisor, ReasoningSupervisorInterface,
};
use crate::inference::sampler::Sampler;
use crate::inference::tool_calling_supervisor::{
    braced, json_object, step_from, CallParts, StateEnum, ToolCallingSupervisor,
    ToolCallingSupervisorInterface,
};
use crate::inference::notation_laws::{
    law_json_extraction, law_json_prefixes, law_python_extraction, law_xml_name,
};
use crate::inference::tool_formatter::{
    json_scan, EnclosedJsonFormatter, PythonCallFormatter, ToolArgFormatter, XmlArgPairsFormatter,
};
use crate::inference::types::{
    GenerationDataType, GenerationEvent, PostSamplingConfig, SamplingResult,
};
use crate::text::{byte_len, name_part, stands_at, text_after, text_before};
use crate::tokenizer::{StreamView, Tokenizer, TokenizerView};
use crate::types::ReasoningEffort;

verus! {

/// A call begins exactly where the answer goes over into the token that opens a call; within the
/// reasoning none does. Until then the supervisor stays as it is.
pub proof fn law_call_begins_with_start_token<'a, F: ToolArgFormatter, T: Tokenizer>(
    before: ToolCallingSupervisor<'a, F, T>,
    token: u32,
    ongoing: GenerationDataType,
    result: Result<GenerationEvent, String>,
    after: ToolCallingSupervisor<'a, F, T>,
)
    requires
        before.advances(seq![token], ongoing, result, after),
        ongoing is DirectContent || ongoing is Reasoning,
    ensures
        after == before,
        result matches Ok(event) && (event is ToolCallStarted || event is Nothing),
        result->Ok_0 is ToolCallStarted <==> ongoing is DirectContent && token
            == before.context.tool_call_start_token_id,
{
    assert(seq![token].last() == token);
}

/// A call ends exactly with the token that closes it.
pub proof fn law_call_ends_with_end_token<'a, F: ToolArgFormatter, T: Tokenizer>(
    before: ToolCallingSupervisor<'a, F, T>,
    token: u32,
    ongoing: GenerationDataType,
    result: Result<GenerationEvent, String>,
    after: ToolCallingSupervisor<'a, F, T>,
)
    requires
        before.advances(seq![token], ongoing, result, after),
        ongoing is ToolCallName || ongoing is ToolCallArguments,
    ensures
        token == before.context.tool_call_end_token_id ==> (result matches Ok(event)
            ==> event is ToolCallStopped),
        token != before.context.tool_call_end_token_id ==> (result matches Ok(event)
            ==> event is Nothing || event is ToolCallNameChunk || event is ToolCallArgumentsChunk),
        token != before.context.tool_call_end_token_id ==> after.calls() == before.calls(),
{
    let ids = before.parts().ids + seq![token];
    assert(ids.last() == token);
}

/// A finished call is what was read: the name, the id under which it was announced, and the
/// arguments that the JSON text says, to which nothing was added but a brace where it lacked one.
pub proof fn law_finished_call_is_what_was_read<'a, F: ToolArgFormatter, T: Tokenizer>(
    before: ToolCallingSupervisor<'a, F, T>,
    chunk: Option<crate::types::ChunkToolCall>,
    after: ToolCallingSupervisor<'a, F, T>,
)
    requires
        before.advances(
            seq![before.context.tool_call_end_token_id],
            GenerationDataType::ToolCallArguments,
            Ok(GenerationEvent::ToolCallStopped { chunk }),
            after,
        ),
        before.parts().ids.len() == 0,
    ensures
        ({
            let calls = after.calls()->Some_0;
            let text = before.parts().arguments;
            let whole = calls.last();
            &&& calls.drop_last() == before.calls()->Some_0
            &&& whole.id == before.context.current_tool_id@
            &&& whole.name == before.parts().name
            &&& whole.kind == seq!['f', 'u', 'n', 'c', 't', 'i', 'o', 'n']
            &&& after.parts().scratch == before.parts().scratch
            &&& after.parts().formatter == before.parts().formatter.cleared()
            &&& after.parts().stream.ids.len() == 0
            &&& after.parts().stream.prefix.len() == 0
            &&& text.len() == 0 ==> whole.arguments == Map::<Seq<char>, Value>::empty()
            &&& text.len() > 0 && !crate::text::is_whitespace(text.last()) ==> Ok::<
                Map<Seq<char>, Value>,
                Seq<char>,
            >(whole.arguments) == json_object(
                if text.last() == '}' {
                    text
                } else {
                    text.push('}')
                },
            )
        }),
{
    reveal_strlit("function");
    assert("function"@ =~= seq!['f', 'u', 'n', 'c', 't', 'i', 'o', 'n']);
    let end = before.context.tool_call_end_token_id;
    let token_ids = seq![end];
    let ongoing = GenerationDataType::ToolCallArguments;
    let result: Result<GenerationEvent, String> = Ok(GenerationEvent::ToolCallStopped { chunk });
    let waiting = choose|waiting: ToolCallingSupervisor<'a, F, T>|
        {
            &&& #[trigger] waiting.is_extended(before, token_ids)
            &&& if crate::inference::reasoning_supervisor::ends_in(waiting.parts().ids, end) {
                match result {
                    Ok(event) => exists|ended: ToolCallingSupervisor<'a, F, T>|
                        {
                            &&& event is ToolCallStopped
                            &&& #[trigger] ended.finalizes(
                                waiting,
                                ongoing,
                                Ok(event->ToolCallStopped_chunk),
                            )
                            &&& after.is_reset_of(ended)
                        },
                    Err(message) => after.finalizes(waiting, ongoing, Err(message)),
                }
            } else {
                after.reads_on(waiting, ongoing, result)
            }
        };
    assert(waiting.parts().ids =~= seq![end]);
    assert(seq![end].last() == end);
    assert(seq![end].drop_last() =~= Seq::<u32>::empty());
    let ended = choose|ended: ToolCallingSupervisor<'a, F, T>|
        {
            &&& #[trigger] ended.finalizes(waiting, ongoing, Ok(chunk))
            &&& after.is_reset_of(ended)
        };
    assert(ended.finalizes(waiting, ongoing, Ok(chunk)));
    assert(after.calls()->Some_0.drop_last() =~= before.calls()->Some_0);
}

/// The last piece that is handed out of a call whose arguments were all handed out is the brace that
/// they lacked; if they lacked none, there is no such piece.
pub proof fn law_last_piece_is_the_brace<'a, F: ToolArgFormatter, T: Tokenizer>(
    before: ToolCallingSupervisor<'a, F, T>,
    chunk: Option<crate::types::ChunkToolCall>,
    after: ToolCallingSupervisor<'a, F, T>,
)
    requires
        before.advances(
            seq![before.context.tool_call_end_token_id],
            GenerationDataType::ToolCallArguments,
            Ok(GenerationEvent::ToolCallStopped { chunk }),
            after,
        ),
        before.parts().ids.len() == 0,
        before.parts().arguments.len() > 0,
        !crate::text::is_whitespace(before.parts().arguments.last()),
        before.context.stream_args_pos == byte_len(before.parts().arguments),
    ensures
        before.parts().arguments.last() == '}' ==> chunk is None,
        before.parts().arguments.last() != '}' ==> (chunk matches Some(piece)
            && piece.model().arguments == seq!['}'] && piece.model().name is None
            && piece.model().id is None),
{
    let end = before.context.tool_call_end_token_id;
    let token_ids = seq![end];
    let ongoing = GenerationDataType::ToolCallArguments;
    let result: Result<GenerationEvent, String> = Ok(GenerationEvent::ToolCallStopped { chunk });
    let waiting = choose|waiting: ToolCallingSupervisor<'a, F, T>|
        {
            &&& #[trigger] waiting.is_extended(before, token_ids)
            &&& if crate::inference::reasoning_supervisor::ends_in(waiting.parts().ids, end) {
                match result {
                    Ok(event) => exists|ended: ToolCallingSupervisor<'a, F, T>|
                        {
                            &&& event is ToolCallStopped
                            &&& #[trigger] ended.finalizes(
                                waiting,
                                ongoing,
                                Ok(event->ToolCallStopped_chunk),
                            )
                            &&& after.is_reset_of(ended)
                        },
                    Err(message) => after.finalizes(waiting, ongoing, Err(message)),
                }
            } else {
                after.reads_on(waiting, ongoing, result)
            }
        };
    assert(waiting.parts().ids =~= seq![end]);
    assert(seq![end].last() == end);
    assert(seq![end].drop_last() =~= Seq::<u32>::empty());
    let ended = choose|ended: ToolCallingSupervisor<'a, F, T>|
        {
            &&& #[trigger] ended.finalizes(waiting, ongoing, Ok(chunk))
            &&& after.is_reset_of(ended)
        };
    assert(ended.finalizes(waiting, ongoing, Ok(chunk)));
    let text = before.parts().arguments;
    let grown = ended.parts().arguments;
    if text.last() != '}' {
        assert(grown == text.push('}'));
        assert(text =~= grown.subrange(0, text.len() as int));
        lemma_head_of(text, grown);
        assert(grown.skip(text.len() as int) =~= seq!['}']);
    }
}

/// A text is closed by a brace: one that ends in a brace stays as it is, one that ends in anything
/// else gets one, space at its end aside, and a blank one stays blank.
pub proof fn law_missing_brace_is_added(text: Seq<char>, c: char, blank: Seq<char>)
    requires
        !crate::text::is_whitespace(c),
        forall|i: int|
            0 <= i < blank.len() ==> crate::text::is_whitespace(#[trigger] blank[i]),
    ensures
        braced(text.push(c) + blank) == (if c == '}' {
            text.push(c) + blank
        } else {
            (text.push(c) + blank).push('}')
        }),
        braced(blank) == blank,
    decreases blank.len(),
{
    if blank.len() > 0 {
        let less = blank.drop_last();
        assert forall|i: int| 0 <= i < less.len() implies crate::text::is_whitespace(
            #[trigger] less[i],
        ) by {
            assert(less[i] == blank[i]);
        }
        law_missing_brace_is_added(text, c, less);
        assert(blank[blank.len() - 1] == blank.last());
        assert((text.push(c) + blank).drop_last() =~= text.push(c) + less);
        assert((text.push(c) + blank).last() == blank.last());
        assert((text.push(c) + less).push('}').len() == text.push(c).len() + less.len() + 1);
        assert(less.push('}').len() == less.len() + 1);
    } else {
        assert(text.push(c) + blank =~= text.push(c));
    }
}

/// While the arguments of a call are read, the listener is handed exactly what is added to them.
pub proof fn law_added_arguments_are_handed_out<'a, F: ToolArgFormatter, T: Tokenizer>(
    before: ToolCallingSupervisor<'a, F, T>,
    token: u32,
    event: GenerationEvent,
    after: ToolCallingSupervisor<'a, F, T>,
)
    requires
        before.advances(seq![token], GenerationDataType::ToolCallArguments, Ok(event), after),
        token != before.context.tool_call_end_token_id,
        before.context.stream_args_pos == byte_len(before.parts().arguments),
    ensures
        after.context.stream_args_pos == byte_len(after.parts().arguments),
        match event {
            GenerationEvent::ToolCallArgumentsChunk { chunk } => {
                &&& chunk.model().arguments.len() > 0
                &&& after.parts().arguments == before.parts().arguments + chunk.model().arguments
                &&& chunk.model().id is None
                &&& chunk.model().name is None
                &&& chunk.model().kind is None
                &&& chunk.model().index == 0
            },
            _ => event is Nothing && after.parts().arguments == before.parts().arguments,
        },
{
    let ids = before.parts().ids + seq![token];
    assert(ids.last() == token);
    let given = before.parts().arguments;
    let grown = after.parts().arguments;
    let parts = before.extended(seq![token]);
    let state = before.tool_call_parsing_state;
    assert(parts.arguments == given);
    assert(given.is_prefix_of(grown)) by {
        assert(given =~= grown.subrange(0, given.len() as int));
    }
    lemma_head_of(given, grown);
    let more = grown.skip(given.len() as int);
    assert(grown =~= given + more);
    if more.len() == 0 {
        assert(grown =~= given);
    }
}

proof fn lemma_bytes_of_pieces(first: Seq<char>, second: Seq<char>)
    ensures
        encode_utf8(first + second) == encode_utf8(first) + encode_utf8(second),
    decreases first.len(),
{
    if first.len() == 0 {
        assert(first + second =~= second);
        assert(encode_utf8(first) =~= Seq::<u8>::empty());
        assert(encode_utf8(first) + encode_utf8(second) =~= encode_utf8(second));
    } else {
        lemma_bytes_of_pieces(first.drop_first(), second);
        assert((first + second).drop_first() =~= first.drop_first() + second);
        let one = encode_scalar(first[0] as u32);
        assert(one + (encode_utf8(first.drop_first()) + encode_utf8(second)) =~= (one
            + encode_utf8(first.drop_first())) + encode_utf8(second));
    }
}

/// A text splits where one that it begins with ends.
proof fn lemma_head_of(text: Seq<char>, longer: Seq<char>)
    requires
        text.is_prefix_of(longer),
    ensures
        text_before(longer, byte_len(text) as int) == text,
        text_after(longer, byte_len(text) as int) == longer.skip(text.len() as int),
        byte_len(text) <= byte_len(longer),
        byte_len(text) == byte_len(longer) ==> longer == text,
{
    let more = longer.skip(text.len() as int);
    assert(longer =~= text + more);
    lemma_bytes_of_pieces(text, more);
    let bytes = encode_utf8(longer);
    assert(bytes.subrange(0, byte_len(text) as int) =~= encode_utf8(text));
    assert(bytes.subrange(byte_len(text) as int, bytes.len() as int) =~= encode_utf8(more));
    encode_utf8_decode_utf8(text);
    encode_utf8_decode_utf8(more);
    encode_utf8_decode_utf8(longer);
    if byte_len(text) == byte_len(longer) {
        assert(encode_utf8(text) =~= bytes);
    }
}

/// Decoding no tokens gives no text and leaves the decoder as it is.
pub open spec fn is_quiet(tokenizer: TokenizerView) -> bool {
    forall|stream: StreamView|
        (#[trigger] tokenizer.decoding(stream, Seq::<u32>::empty())).result == Ok::<
            Option<Seq<char>>,
            Seq<char>,
        >(None) && tokenizer.decoding(stream, Seq::<u32>::empty()).stream == stream
}

/// The waiting tokens decode to a text.
pub open spec fn decode_to<F>(tokenizer: TokenizerView, parts: CallParts<F>, text: Seq<char>) -> bool {
    tokenizer.decoding(parts.stream, parts.ids).result == Ok::<Option<Seq<char>>, Seq<char>>(
        Some(text),
    )
}

/// A call in the JSON notation, step by step: what follows the text before the name is kept for
/// the name; what stands before the closing quotation mark is the name, and what follows it is
/// kept; what follows the text before the arguments is the beginning of the arguments, repaired;
/// and every further text is added to them, repaired.
pub proof fn law_json_call_is_read(
    tokenizer: TokenizerView,
    parts: CallParts<EnclosedJsonFormatter>,
    text: Seq<char>,
    name: Seq<char>,
    rest: Seq<char>,
)
    requires
        is_quiet(tokenizer),
        decode_to(tokenizer, parts, text),
    ensures
        ({
            let mark = seq!['{', '"', 'n', 'a', 'm', 'e', '"', ':', ' ', '"'];
            let step = step_from(StateEnum::Idle, tokenizer, parts);
            parts.scratch + text == mark + rest && (forall|q: int|
                q > 0 ==> !#[trigger] stands_at(mark + rest, mark, q)) ==> {
                &&& step.result == Ok::<StateEnum, Seq<char>>(StateEnum::NameContent)
                &&& step.parts.scratch == rest
                &&& step.parts.arguments == parts.arguments
                &&& step.parts.ids.len() == 0
                &&& step == step_from(StateEnum::NamePrefix, tokenizer, parts)
            }
        }),
        ({
            let step = step_from(StateEnum::NameContent, tokenizer, parts);
            !rest.contains('"') && text == name + seq!['"'] + rest ==> {
                &&& step.result == Ok::<StateEnum, Seq<char>>(StateEnum::ArgumentsPrefix)
                &&& step.named
                &&& step.parts.name == name_part(parts.scratch + name)
                &&& step.parts.scratch == rest
                &&& step.parts.arguments == parts.arguments
                &&& step.parts.ids.len() == 0
            }
        }),
        ({
            let step = step_from(StateEnum::NameContent, tokenizer, parts);
            !text.contains('"') ==> {
                &&& step.result == Ok::<StateEnum, Seq<char>>(StateEnum::NameContent)
                &&& !step.named
                &&& step.parts.name == parts.name
                &&& step.parts.scratch == parts.scratch + text
                &&& step.parts.ids.len() == 0
            }
        }),
        ({
            let mark = seq!['"', 'a', 'r', 'g', 'u', 'm', 'e', 'n', 't', 's', '"', ':'];
            let step = step_from(StateEnum::ArgumentsPrefix, tokenizer, parts);
            parts.scratch + text == name + mark + rest && (forall|q: int|
                q > name.len() ==> !#[trigger] stands_at(name + mark + rest, mark, q)) ==> {
                &&& step.result == Ok::<StateEnum, Seq<char>>(StateEnum::ArgumentsContent)
                &&& step.parts.name == parts.name
                &&& step.parts.arguments == parts.arguments + json_scan(parts.formatter, rest).1
                &&& step.parts.formatter == json_scan(parts.formatter, rest).0
                &&& step.parts.scratch.len() == 0
                &&& step.parts.ids.len() == 0
            }
        }),
        ({
            let step = step_from(StateEnum::ArgumentsContent, tokenizer, parts);
            parts.scratch.len() == 0 ==> {
                &&& step.result == Ok::<StateEnum, Seq<char>>(StateEnum::ArgumentsContent)
                &&& step.parts.name == parts.name
                &&& step.parts.arguments == parts.arguments + json_scan(parts.formatter, text).1
                &&& step.parts.formatter == json_scan(parts.formatter, text).0
                &&& step.parts.scratch.len() == 0
                &&& step.parts.ids.len() == 0
            }
        }),
{
    let none = Seq::<char>::empty();
    let formatter = parts.formatter;
    assert(none + rest =~= rest);
    {
        let mark = seq!['{', '"', 'n', 'a', 'm', 'e', '"', ':', ' ', '"'];
        assert(none + mark + rest =~= mark + rest);
        law_json_prefixes(formatter, none, rest);
        assert(!none.contains('"'));
        let stream = tokenizer.decoding(parts.stream, parts.ids).stream;
        law_json_extraction(formatter, tokenizer, seq![], rest, stream, name, none);
    }
    if !rest.contains('"') {
        law_json_extraction(
            formatter,
            tokenizer,
            parts.ids,
            parts.scratch,
            parts.stream,
            name,
            rest,
        );
    }
    if !text.contains('"') {
        law_json_extraction(
            formatter,
            tokenizer,
            parts.ids,
            parts.scratch,
            parts.stream,
            name,
            text,
        );
    }
    law_json_prefixes(formatter, name, rest);
    if parts.scratch.len() == 0 {
        assert(parts.scratch + text =~= text);
    }
}

/// A script call, step by step: what stands before the opening bracket is the name, and what
/// follows it is kept; the arguments are rewritten as they come.
pub proof fn law_python_call_is_read(
    tokenizer: TokenizerView,
    parts: CallParts<PythonCallFormatter>,
    text: Seq<char>,
    name: Seq<char>,
    rest: Seq<char>,
)
    requires
        is_quiet(tokenizer),
        decode_to(tokenizer, parts, text),
        exists|i: int|
            0 <= i < (parts.scratch + name).len() && crate::text::is_alphanumeric(
                #[trigger] (parts.scratch + name)[i],
            ),
    ensures
        ({
            let step = step_from(StateEnum::NameContent, tokenizer, parts);
            !rest.contains('(') && text == name + seq!['('] + rest ==> {
                &&& step.result == Ok::<StateEnum, Seq<char>>(StateEnum::ArgumentsPrefix)
                &&& step.named
                &&& step.parts.name == name_part(parts.scratch + name)
                &&& step.parts.scratch == rest
                &&& step.parts.arguments == parts.arguments
                &&& step.parts.ids.len() == 0
            }
        }),
        ({
            let step = step_from(StateEnum::ArgumentsPrefix, tokenizer, parts);
            let word = name_part(parts.scratch + text);
            if word.len() > 0 {
                &&& step.result == Ok::<StateEnum, Seq<char>>(StateEnum::ArgumentsContent)
                &&& step.parts.arguments == parts.arguments + parts.formatter.fixed(
                    word,
                    parts.arguments.len() == 0,
                ).1
                &&& step.parts.scratch.len() == 0
            } else {
                &&& step.result == Ok::<StateEnum, Seq<char>>(StateEnum::ArgumentsPrefix)
                &&& step.parts.arguments == parts.arguments
            }
        }),
        ({
            let step = step_from(StateEnum::ArgumentsContent, tokenizer, parts);
            &&& step.result == Ok::<StateEnum, Seq<char>>(StateEnum::ArgumentsContent)
            &&& step.parts.name == parts.name
            &&& step.parts.arguments == parts.arguments + parts.formatter.fixed(
                parts.scratch + text,
                parts.arguments.len() == 0,
            ).1
            &&& step.parts.scratch.len() == 0
            &&& step.parts.ids.len() == 0
        }),
{
    if !rest.contains('(') {
        law_python_extraction(
            parts.formatter,
            tokenizer,
            parts.ids,
            parts.scratch,
            parts.stream,
            name,
            rest,
        );
    }
}

/// A call in the marked notation, step by step: the text before the marker of the first key is
/// the name, and the arguments are rewritten as they come.
pub proof fn law_xml_call_is_read(
    tokenizer: TokenizerView,
    parts: CallParts<XmlArgPairsFormatter>,
    text: Seq<char>,
)
    requires
        is_quiet(tokenizer),
    ensures
        ({
            let step = step_from(StateEnum::NameContent, tokenizer, parts);
            decode_to(tokenizer, parts, text) && !parts.ids.contains(
                parts.formatter.arg_key_open_token_id,
            ) ==> {
                &&& step.result == Ok::<StateEnum, Seq<char>>(StateEnum::NameContent)
                &&& !step.named
                &&& step.parts.scratch == parts.scratch + text
                &&& step.parts.ids.len() == 0
            }
        }),
        ({
            let step = step_from(StateEnum::NameContent, tokenizer, parts);
            parts.ids == seq![parts.formatter.arg_key_open_token_id] ==> {
                &&& step.result == Ok::<StateEnum, Seq<char>>(StateEnum::ArgumentsPrefix)
                &&& step.named
                &&& step.parts.name == name_part(parts.scratch)
                &&& step.parts.scratch.len() == 0
                &&& step.parts.arguments == parts.arguments
                &&& step.parts.ids.len() == 0
            }
        }),
        ({
            let step = step_from(StateEnum::ArgumentsContent, tokenizer, parts);
            let written = parts.formatter.formatted(
                tokenizer,
                parts.ids,
                parts.scratch,
                parts.stream,
            );
            written.result is Ok ==> {
                &&& step.result == Ok::<StateEnum, Seq<char>>(StateEnum::ArgumentsContent)
                &&& step.parts.name == parts.name
                &&& step.parts.arguments == parts.arguments + parts.formatter.fixed(
                    written.buffer,
                    parts.arguments.len() == 0,
                ).1
                &&& step.parts.scratch.len() == 0
                &&& step.parts.ids.len() == 0
            }
        }),
{
    law_xml_name(parts.formatter, tokenizer, parts.scratch, parts.stream, parts.ids);
}

/// What the tokens are part of, by the reasoning alone: from the token that opens it to the one
/// that closes it, both with it, every token is one of the reasoning, and no other is.
pub proof fn law_reasoning_is_marked<S: Sampler, C: ToolCallingSupervisorInterface>(
    before: GenerationHandler<S, ReasoningSupervisor, C>,
    sampled: SamplingResult,
    answers: Answers,
    result: Result<GenerationEvent, String>,
    after: GenerationHandler<S, ReasoningSupervisor, C>,
)
    requires
        before.steps(sampled, answers, result, after),
        before.reasoning_supervisor is Some,
        sampled.token != before.eos_token_id,
    ensures
        ({
            let supervisor = before.reasoning_supervisor->Some_0;
            let inside = before.ongoing_gen_type is Reasoning;
            let opens = !inside && sampled.token == supervisor.reasoning_start_token_id;
            let closes = inside && sampled.token == supervisor.reasoning_end_token_id;
            &&& inside || opens ==> result == Ok::<GenerationEvent, String>(
                GenerationEvent::ReasoningSampled { sampling_result: sampled },
            )
            &&& !inside && !opens ==> !(result matches Ok(GenerationEvent::ReasoningSampled { .. }))
            &&& opens || inside && !closes ==> after.ongoing_gen_type is Reasoning
            &&& closes ==> after.ongoing_gen_type is DirectContent
            &&& !inside && !opens ==> !(after.ongoing_gen_type is Reasoning)
            &&& inside || opens ==> after.tool_calling_supervisor == before.tool_calling_supervisor
            &&& after.reasoning_supervisor matches Some(watching)
            &&& watching.reasoning_tokens == (if inside {
                (supervisor.reasoning_tokens + 1) as u32
            } else {
                supervisor.reasoning_tokens
            })
            &&& watching.reasoning_budget == supervisor.reasoning_budget
            &&& after.input_tokens@ == seq![sampled.token]
        }),
{
    assert(seq![sampled.token].last() == sampled.token);
    assert(seq![sampled.token].len() == 1);
}

/// Reasoning that has used up its budget is closed by force: the closing token is queued, at the
/// end of the queue; otherwise reasoning queues nothing.
pub proof fn law_used_up_reasoning_is_closed<S: Sampler, C: ToolCallingSupervisorInterface>(
    before: GenerationHandler<S, ReasoningSupervisor, C>,
    sampled: SamplingResult,
    answers: Answers,
    result: Result<GenerationEvent, String>,
    after: GenerationHandler<S, ReasoningSupervisor, C>,
)
    requires
        before.steps(sampled, answers, result, after),
        before.reasoning_supervisor is Some,
        before.ongoing_gen_type is Reasoning,
        before.reasoning_supervisor->Some_0.reasoning_tokens < u32::MAX,
        sampled.token != before.eos_token_id,
    ensures
        ({
            let supervisor = before.reasoning_supervisor->Some_0;
            let waiting = if before.tokens_to_force@.len() > 0 {
                before.tokens_to_force@.skip(1)
            } else {
                before.tokens_to_force@
            };
            let over = supervisor.reasoning_tokens >= supervisor.reasoning_budget && sampled.token
                != supervisor.reasoning_end_token_id;
            after.tokens_to_force@ == (if over {
                waiting.push(supervisor.reasoning_end_token_id)
            } else {
                waiting
            })
        }),
{
    assert(seq![sampled.token].last() == sampled.token);
    assert(seq![sampled.token].len() == 1);
    let supervisor = before.reasoning_supervisor->Some_0;
    let waiting = before.picked_course().forced;
    assert(waiting + seq![supervisor.reasoning_end_token_id] =~= waiting.push(
        supervisor.reasoning_end_token_id,
    ));
    assert(after.course().forced == after.tokens_to_force@);
}

/// The reasoning of a request is watched exactly if the model reasons, effort is asked for and the
/// marking tokens are known; more effort is a larger budget.
pub proof fn law_reasoning_is_watched(
    supports: bool,
    effort: ReasoningEffort,
    config: PostSamplingConfig,
)
    ensures
        supervisor_for(supports, effort, config) is Some <==> supports && effort
            != ReasoningEffort::Off && config.reasoning_start_token_id is Some
            && config.reasoning_end_token_id is Some,
        supervisor_for(supports, effort, config) matches Some(supervisor) ==> {
            &&& config.reasoning_start_token_id == Some(supervisor.reasoning_start_token_id)
            &&& config.reasoning_end_token_id == Some(supervisor.reasoning_end_token_id)
            &&& supervisor.tokens_count() == 0
            &&& supervisor.reasoning_tokens == 0
            &&& supervisor.budget() == (match effort {
                ReasoningEffort::High => 16384u32,
                ReasoningEffort::Medium => 4096u32,
                _ => 1024u32,
            })
        },
{
}

/// What the tokens are part of, by tool calls alone: a call begins with its name, goes on with its
/// arguments once the name is known, and when it ends the answer goes on. A token that the
/// supervisor says nothing of is one of the answer, or nothing is reported within a call.
pub proof fn law_tool_call_course(course: Course, answers: Answers, sampled: SamplingResult)
    requires
        answers.reasoning is None,
    ensures
        ({
            let next = course_after(course, answers);
            let event = event_for(course, answers, sampled);
            match answers.tool_calling {
                None => {
                    &&& next.ongoing == course.ongoing
                    &&& course.ongoing is DirectContent ==> event == Ok::<GenerationEvent, String>(
                        GenerationEvent::ContentSampled { sampling_result: sampled },
                    )
                },
                Some(Err(message)) => event == Err::<GenerationEvent, String>(message),
                Some(Ok(GenerationEvent::ToolCallStarted)) => {
                    &&& next.ongoing is ToolCallName
                    &&& event matches Ok(GenerationEvent::ToolCallStarted)
                },
                Some(Ok(GenerationEvent::ToolCallNameChunk { chunk })) => {
                    &&& next.ongoing is ToolCallArguments
                    &&& event matches Ok(GenerationEvent::ToolCallNameChunk { chunk: reported })
                    &&& reported == chunk
                },
                Some(Ok(GenerationEvent::ToolCallArgumentsChunk { chunk })) => {
                    &&& next.ongoing == course.ongoing
                    &&& event matches Ok(
                        GenerationEvent::ToolCallArgumentsChunk { chunk: reported },
                    )
                    &&& reported == chunk
                },
                Some(Ok(GenerationEvent::ToolCallStopped { chunk })) => {
                    &&& next.ongoing is DirectContent
                    &&& chunk is None ==> (event matches Ok(
                        GenerationEvent::ToolCallStopped { chunk: last },
                    ) && last is None)
                    &&& chunk matches Some(piece) ==> if course.ongoing is ToolCallName {
                        event == Ok::<GenerationEvent, String>(
                            GenerationEvent::ToolCallNameChunk { chunk: piece },
                        )
                    } else {
                        event == Ok::<GenerationEvent, String>(
                            GenerationEvent::ToolCallArgumentsChunk { chunk: piece },
                        )
                    }
                },
                Some(Ok(GenerationEvent::Nothing)) => {
                    &&& next.ongoing == course.ongoing
                    &&& event == (if course.ongoing is DirectContent {
                        Ok::<GenerationEvent, String>(
                            GenerationEvent::ContentSampled { sampling_result: sampled },
                        )
                    } else {
                        Ok::<GenerationEvent, String>(GenerationEvent::Nothing)
                    })
                },
                _ => true,
            }
        }),
{
}

/// Without supervisors every token but the end token is one of the answer, in its own turn, and
/// nothing is queued.
pub proof fn law_plain_answer<
    S: Sampler,
    R: ReasoningSupervisorInterface,
    C: ToolCallingSupervisorInterface,
>(
    before: GenerationHandler<S, R, C>,
    sampled: SamplingResult,
    answers: Answers,
    result: Result<GenerationEvent, String>,
    after: GenerationHandler<S, R, C>,
)
    requires
        before.steps(sampled, answers, result, after),
        before.reasoning_supervisor is None,
        before.tool_calling_supervisor is None,
        before.ongoing_gen_type is DirectContent,
        before.tool_choice_template is None,
    ensures
        sampled.token == before.eos_token_id ==> result matches Ok(
            GenerationEvent::GenerationStopped,
        ),
        sampled.token != before.eos_token_id ==> {
            &&& result == Ok::<GenerationEvent, String>(
                GenerationEvent::ContentSampled { sampling_result: sampled },
            )
            &&& after.input_tokens@ == seq![sampled.token]
            &&& after.ongoing_gen_type is DirectContent
        },
        before.tokens_to_force@.len() == 0 ==> after.tokens_to_force@.len() == 0,
{
    assert(after.course().forced == after.tokens_to_force@);
    assert(after.course().ongoing == after.ongoing_gen_type);
    assert(before.course().template is None);
}

/// A forced tool waits while the model reasons and is queued once, behind what is queued already,
/// as soon as the tokens are part of the answer.
pub proof fn law_forced_tool_is_queued_once(course: Course, ids: Seq<u32>)
    requires
        course.template == Some(ids),
    ensures
        course.ongoing is DirectContent ==> {
            let next = with_template(course);
            &&& next.forced == course.forced + ids
            &&& next.template is None
            &&& next.ongoing is DirectContent
            &&& with_template(next) == next
        },
        !(course.ongoing is DirectContent) ==> with_template(course) == course,
        ({
            let answers = Answers { reasoning: None, tool_calling: None };
            course.ongoing is DirectContent ==> course_after(course, answers).forced
                == course.forced + ids
        }),
        ({
            let answers = Answers {
                reasoning: Some(GenerationEvent::Nothing),
                tool_calling: None,
            };
            course.ongoing is Reasoning ==> course_after(course, answers) == course
        }),
{
}

/// The next token is the first of the queue, without log probabilities and without the sampler,
/// or what the sampler picks from the scores; it is asked for log probabilities exactly if they
/// are wanted, for as many rivals as are wanted.
pub proof fn law_queue_before_sampler<
    S: Sampler,
    R: ReasoningSupervisorInterface,
    C: ToolCallingSupervisorInterface,
>(
    before: GenerationHandler<S, R, C>,
    scores: S::Logits,
    logprobs: bool,
    rivals: usize,
    picked: Result<SamplingResult, String>,
    sampler: S,
)
    ensures
        before.tokens_to_force@.len() > 0 && before.next_token(
            scores,
            logprobs,
            Some(rivals),
            picked,
            sampler,
        ) ==> {
            &&& picked matches Ok(sampled)
            &&& sampled.token == before.tokens_to_force@[0]
            &&& sampled.logprob is None
            &&& sampled.top_k_logprobs is None
            &&& sampler == before.sampler
        },
        before.tokens_to_force@.len() == 0 ==> {
            &&& before.next_token(scores, true, Some(rivals), picked, sampler)
                <==> before.sampler.samples(scores, Some(rivals), picked, sampler)
            &&& before.next_token(scores, true, None, picked, sampler)
                <==> before.sampler.samples(scores, Some(0usize), picked, sampler)
            &&& before.next_token(scores, false, Some(rivals), picked, sampler)
                <==> before.sampler.samples(scores, None, picked, sampler)
        },
{
}

/// A call is announced once its name is known: with the name, an id of its own and no arguments; and
/// not before.
pub proof fn law_name_is_announced<'a, F: ToolArgFormatter, T: Tokenizer>(
    before: ToolCallingSupervisor<'a, F, T>,
    token: u32,
    event: GenerationEvent,
    after: ToolCallingSupervisor<'a, F, T>,
)
    requires
        before.advances(seq![token], GenerationDataType::ToolCallName, Ok(event), after),
        token != before.context.tool_call_end_token_id,
    ensures
        after.parts().name.len() == 0 ==> event is Nothing,
        after.parts().name.len() > 0 ==> {
            &&& event matches GenerationEvent::ToolCallNameChunk { chunk }
            &&& chunk.model().name == Some(after.parts().name)
            &&& chunk.model().id == Some(after.context.current_tool_id@)
            &&& chunk.model().kind == Some(seq!['f', 'u', 'n', 'c', 't', 'i', 'o', 'n'])
            &&& chunk.model().index == 0
            &&& chunk.model().arguments.len() == 0
        },
        after.context.stream_args_pos == before.context.stream_args_pos,
{
    reveal_strlit("function");
    assert("function"@ =~= seq!['f', 'u', 'n', 'c', 't', 'i', 'o', 'n']);
    let ids = before.parts().ids + seq![token];
    assert(ids.last() == token);
}

/// A call that ends before its arguments begin is a call without arguments: its name is what was
/// read so far and what is left to decode.
pub proof fn law_call_without_arguments<'a, F: ToolArgFormatter, T: Tokenizer>(
    before: ToolCallingSupervisor<'a, F, T>,
    chunk: Option<crate::types::ChunkToolCall>,
    after: ToolCallingSupervisor<'a, F, T>,
)
    requires
        before.advances(
            seq![before.context.tool_call_end_token_id],
            GenerationDataType::ToolCallName,
            Ok(GenerationEvent::ToolCallStopped { chunk }),
            after,
        ),
        before.parts().ids.len() == 0,
        before.parts().arguments.len() == 0,
    ensures
        ({
            let calls = after.calls()->Some_0;
            let name = if before.parts().name.len() > 0 {
                before.parts().name
            } else {
                name_part(before.parts().scratch)
            };
            &&& calls.drop_last() == before.calls()->Some_0
            &&& calls.last().name == name
            &&& calls.last().arguments == Map::<Seq<char>, Value>::empty()
            &&& chunk matches Some(piece) && piece.model().name == Some(name)
                && piece.model().id == Some(calls.last().id)
        }),
{
    let end = before.context.tool_call_end_token_id;
    let token_ids = seq![end];
    let ongoing = GenerationDataType::ToolCallName;
    let result: Result<GenerationEvent, String> = Ok(GenerationEvent::ToolCallStopped { chunk });
    let waiting = choose|waiting: ToolCallingSupervisor<'a, F, T>|
        {
            &&& #[trigger] waiting.is_extended(before, token_ids)
            &&& if crate::inference::reasoning_supervisor::ends_in(waiting.parts().ids, end) {
                match result {
                    Ok(event) => exists|ended: ToolCallingSupervisor<'a, F, T>|
                        {
                            &&& event is ToolCallStopped
                            &&& #[trigger] ended.finalizes(
                                waiting,
                                ongoing,
                                Ok(event->ToolCallStopped_chunk),
                            )
                            &&& after.is_reset_of(ended)
                        },
                    Err(message) => after.finalizes(waiting, ongoing, Err(message)),
                }
            } else {
                after.reads_on(waiting, ongoing, result)
            }
        };
    assert(waiting.parts().ids =~= seq![end]);
    assert(seq![end].last() == end);
    assert(seq![end].drop_last() =~= Seq::<u32>::empty());
    let ended = choose|ended: ToolCallingSupervisor<'a, F, T>|
        {
            &&& #[trigger] ended.finalizes(waiting, ongoing, Ok(chunk))
            &&& after.is_reset_of(ended)
        };
    assert(ended.finalizes(waiting, ongoing, Ok(chunk)));
    assert(after.calls()->Some_0.drop_last() =~= before.calls()->Some_0);
}

} // verus!
