//! What the notations of tool calls come to: which texts become which names and which JSON.
use vstd::prelude::*;

use crate::inference::tool_formatter::{
    behind_last, call_name, formatter_for, json_scan, law_json_pieces, law_python_pieces,
    name_before, python_scan, xml_arguments, EnclosedJsonFormatter, PythonCallFormatter,
    ToolArgFormatter, ToolFormatter, XmlArgPairsFormatter,
};
use crate::inference::types::{PostSamplingConfig, ToolFormatStyle};
use crate::text::{
    last_place, law_name_part_keeps_names, lemma_last_place, split_at_last, stands_at,
};
use crate::tokenizer::{StreamView, TokenizerView};

verus! {

/// A text without quotation marks and backslashes.
pub open spec fn is_plain(text: Seq<char>) -> bool {
    !text.contains('"') && !text.contains('\\')
}

/// A text that means nothing to a notation outside quotation marks.
pub open spec fn is_word(text: Seq<char>) -> bool {
    &&& is_plain(text)
    &&& !text.contains('(')
    &&& !text.contains(')')
    &&& !text.contains('[')
    &&& !text.contains(']')
    &&& !text.contains('{')
    &&& !text.contains('}')
    &&& !text.contains('=')
    &&& !text.contains(',')
    &&& !text.contains(' ')
}

/// A text between quotation marks.
pub open spec fn quoted(text: Seq<char>) -> Seq<char> {
    seq!['"'] + text + seq!['"']
}

proof fn lemma_shorter(text: Seq<char>)
    requires
        text.len() > 0,
    ensures
        text.contains(text.last()),
        forall|c: char| text.drop_last().contains(c) ==> text.contains(c),
        is_plain(text) ==> is_plain(text.drop_last()),
        is_word(text) ==> is_word(text.drop_last()),
{
    assert(text[text.len() - 1] == text.last());
    assert forall|c: char| text.drop_last().contains(c) implies text.contains(c) by {
        let i = choose|i: int| 0 <= i < text.drop_last().len() && text.drop_last()[i] == c;
        assert(text[i] == c);
    }
}

/// The text of a quoted argument of a script call reaches the JSON unchanged.
pub proof fn law_python_string_stays(state: PythonCallFormatter, text: Seq<char>)
    requires
        state.in_string,
        !state.is_escaping,
        !state.envelope_closed,
        is_plain(text),
    ensures
        python_scan(state, text) == (state, text),
    decreases text.len(),
{
    if text.len() > 0 {
        lemma_shorter(text);
        law_python_string_stays(state, text.drop_last());
        assert(text =~= text.drop_last() + seq![text.last()]);
    } else {
        assert(text =~= seq![]);
    }
}

/// A character behind a backslash is written as it is, with the backslash, and changes nothing
/// else.
pub proof fn law_python_escape_stays(state: PythonCallFormatter, c: char)
    requires
        !state.is_escaping,
        !state.envelope_closed,
    ensures
        python_scan(state, seq!['\\', c]) == (state, seq!['\\', c]),
        json_scan(
            EnclosedJsonFormatter {
                in_string: state.in_string,
                is_escaping: false,
                bracket_depth: state.bracket_depth,
            },
            seq!['\\', c],
        ).1 == seq!['\\', c],
{
    reveal_with_fuel(python_scan, 3);
    reveal_with_fuel(json_scan, 3);
    let text = seq!['\\', c];
    assert(text.drop_last() =~= seq!['\\']);
    assert(text.drop_last().drop_last() =~= seq![]);
    assert(text.last() == c);
    assert(seq!['\\'].last() == '\\');
    assert(python_scan(state, text).1 =~= text);
    assert(json_scan(
        EnclosedJsonFormatter {
            in_string: state.in_string,
            is_escaping: false,
            bracket_depth: state.bracket_depth,
        },
        text,
    ).1 =~= text);
}

/// A word outside quotation marks is written as it is.
pub proof fn law_python_word_stays(state: PythonCallFormatter, text: Seq<char>)
    requires
        !state.in_string,
        !state.is_escaping,
        !state.envelope_closed,
        is_word(text),
    ensures
        python_scan(state, text) == (state, text),
    decreases text.len(),
{
    if text.len() > 0 {
        lemma_shorter(text);
        law_python_word_stays(state, text.drop_last());
        assert(text =~= text.drop_last() + seq![text.last()]);
    } else {
        assert(text =~= seq![]);
    }
}

proof fn lemma_python_one(state: PythonCallFormatter, c: char)
    requires
        !state.envelope_closed,
    ensures
        python_scan(state, seq![c]) == crate::inference::tool_formatter::python_step(state, c),
{
    reveal_with_fuel(python_scan, 2);
    assert(seq![c].drop_last() =~= seq![]);
    let piece = crate::inference::tool_formatter::python_step(state, c).1;
    assert(Seq::<char>::empty() + piece =~= piece);
}

/// A quoted text is written as it is, wherever it stands outside quotation marks.
pub proof fn law_python_quoted_stays(state: PythonCallFormatter, text: Seq<char>)
    requires
        !state.in_string,
        !state.is_escaping,
        !state.envelope_closed,
        is_plain(text),
    ensures
        python_scan(state, quoted(text)) == (state, quoted(text)),
{
    let inside = PythonCallFormatter { in_string: true, ..state };
    lemma_python_one(state, '"');
    lemma_python_one(inside, '"');
    law_python_string_stays(inside, text);
    law_python_pieces(state, seq!['"'], text);
    law_python_pieces(state, seq!['"'] + text, seq!['"']);
}

/// Outside quotation marks a space is left out, an equals sign ends a key and a comma begins one.
pub proof fn law_python_punctuation(state: PythonCallFormatter)
    requires
        !state.in_string,
        !state.is_escaping,
        !state.envelope_closed,
    ensures
        python_scan(state, seq![' ']) == (state, Seq::<char>::empty()),
        python_scan(state, seq!['=']) == (state, seq!['"', ':', ' ']),
        python_scan(state, seq![',']) == (state, seq![',', ' ', '"']),
{
    lemma_python_one(state, ' ');
    lemma_python_one(state, '=');
    lemma_python_one(state, ',');
}

/// A bracket that is opened outside quotation marks is closed by the next one, and both are
/// written, with the word between them.
pub proof fn law_python_brackets_stay(state: PythonCallFormatter, text: Seq<char>, round: bool)
    requires
        !state.in_string,
        !state.is_escaping,
        !state.envelope_closed,
        state.bracket_depth < usize::MAX,
        is_word(text),
    ensures
        ({
            let open = if round {
                '('
            } else {
                '['
            };
            let close = if round {
                ')'
            } else {
                ']'
            };
            let whole = seq![open] + text + seq![close];
            python_scan(state, whole) == (state, whole)
        }),
{
    let open = if round {
        '('
    } else {
        '['
    };
    let close = if round {
        ')'
    } else {
        ']'
    };
    let inside = PythonCallFormatter { bracket_depth: (state.bracket_depth + 1) as usize, ..state };
    lemma_python_one(state, open);
    lemma_python_one(inside, close);
    law_python_word_stays(inside, text);
    law_python_pieces(state, seq![open], text);
    law_python_pieces(state, seq![open] + text, seq![close]);
}

/// A bracket that closes the call closes the JSON object, and nothing is written after that.
pub proof fn law_python_call_ends(state: PythonCallFormatter, c: char, rest: Seq<char>, first: bool)
    requires
        !state.in_string,
        !state.is_escaping,
        !state.envelope_closed,
        state.bracket_depth == 0,
        c == ')' || c == ']',
    ensures
        python_scan(state, seq![c] + rest).1 == seq!['}'],
        python_scan(state, seq![c] + rest).0.envelope_closed,
        python_scan(state, seq![c] + rest).0.fixed(rest, first).1 == Seq::<char>::empty(),
{
    lemma_python_one(state, c);
    law_python_pieces(state, seq![c], rest);
    assert(seq!['}'] + Seq::<char>::empty() =~= seq!['}']);
}

/// A value that needs no rewriting: a quoted text or a word.
pub open spec fn is_value(text: Seq<char>) -> bool {
    ||| is_word(text)
    ||| exists|inner: Seq<char>| is_plain(inner) && text == #[trigger] quoted(inner)
}

/// Arguments as they stand in a script call.
pub open spec fn script_arguments(pairs: Seq<(Seq<char>, Seq<char>)>) -> Seq<char>
    decreases pairs.len(),
{
    if pairs.len() == 0 {
        seq![]
    } else {
        let (key, value) = pairs.last();
        if pairs.len() == 1 {
            key + seq!['='] + value
        } else {
            script_arguments(pairs.drop_last()) + seq![',', ' '] + (key + seq!['='] + value)
        }
    }
}

/// Arguments as they stand in a JSON object.
pub open spec fn json_members(pairs: Seq<(Seq<char>, Seq<char>)>) -> Seq<char>
    decreases pairs.len(),
{
    if pairs.len() == 0 {
        seq![]
    } else {
        let (key, value) = pairs.last();
        let member = quoted(key) + seq![':', ' '] + value;
        if pairs.len() == 1 {
            member
        } else {
            json_members(pairs.drop_last()) + seq![',', ' '] + member
        }
    }
}

proof fn lemma_python_value(state: PythonCallFormatter, value: Seq<char>)
    requires
        !state.in_string,
        !state.is_escaping,
        !state.envelope_closed,
        is_value(value),
    ensures
        python_scan(state, value) == (state, value),
{
    if is_word(value) {
        law_python_word_stays(state, value);
    } else {
        let inner = choose|inner: Seq<char>| is_plain(inner) && value == #[trigger] quoted(inner);
        law_python_quoted_stays(state, inner);
    }
}

proof fn lemma_python_pair(state: PythonCallFormatter, key: Seq<char>, value: Seq<char>)
    requires
        !state.in_string,
        !state.is_escaping,
        !state.envelope_closed,
        is_word(key),
        is_value(value),
    ensures
        python_scan(state, key + seq!['='] + value) == (
            state,
            key + seq!['"', ':', ' '] + value,
        ),
{
    law_python_word_stays(state, key);
    law_python_punctuation(state);
    lemma_python_value(state, value);
    law_python_pieces(state, key, seq!['=']);
    law_python_pieces(state, key + seq!['='], value);
}

proof fn lemma_python_pairs(state: PythonCallFormatter, pairs: Seq<(Seq<char>, Seq<char>)>)
    requires
        !state.in_string,
        !state.is_escaping,
        !state.envelope_closed,
        forall|i: int|
            0 <= i < pairs.len() ==> is_word((#[trigger] pairs[i]).0) && is_value(pairs[i].1),
    ensures
        python_scan(state, script_arguments(pairs)).0 == state,
        pairs.len() > 0 ==> seq!['"'] + python_scan(state, script_arguments(pairs)).1
            == json_members(pairs),
    decreases pairs.len(),
{
    if pairs.len() > 0 {
        let (key, value) = pairs.last();
        assert(pairs[pairs.len() - 1] == (key, value));
        lemma_python_pair(state, key, value);
        let last = key + seq!['='] + value;
        let written = key + seq!['"', ':', ' '] + value;
        let member = quoted(key) + seq![':', ' '] + value;
        assert(seq!['"'] + written =~= member);
        if pairs.len() > 1 {
            let rest = pairs.drop_last();
            assert forall|i: int| 0 <= i < rest.len() implies is_word((#[trigger] rest[i]).0)
                && is_value(rest[i].1) by {
                assert(rest[i] == pairs[i]);
            }
            lemma_python_pairs(state, rest);
            let head = script_arguments(rest);
            law_python_punctuation(state);
            law_python_pieces(state, seq![','], seq![' ']);
            assert(seq![','] + seq![' '] =~= seq![',', ' ']);
            assert(python_scan(state, seq![',', ' ']).1 =~= seq![',', ' ', '"']);
            law_python_pieces(state, head, seq![',', ' ']);
            law_python_pieces(state, head + seq![',', ' '], last);
            let before = python_scan(state, head).1;
            assert(seq!['"'] + (before + seq![',', ' ', '"'] + written) =~= (seq!['"'] + before)
                + seq![',', ' '] + (seq!['"'] + written));
        }
    }
}

/// The arguments of a script call become the JSON object with the same keys and values, in their
/// order, whatever follows the call.
pub proof fn law_python_call_becomes_json(
    state: PythonCallFormatter,
    pairs: Seq<(Seq<char>, Seq<char>)>,
    close: char,
    rest: Seq<char>,
)
    requires
        !state.in_string,
        !state.is_escaping,
        !state.envelope_closed,
        state.bracket_depth == 0,
        pairs.len() > 0,
        forall|i: int|
            0 <= i < pairs.len() ==> is_word((#[trigger] pairs[i]).0) && is_value(pairs[i].1),
        close == ')' || close == ']',
    ensures
        state.fixed(script_arguments(pairs) + seq![close] + rest, true).1 == seq!['{']
            + json_members(pairs) + seq!['}'],
{
    reveal_strlit("{\"");
    let text = script_arguments(pairs);
    lemma_python_pairs(state, pairs);
    law_python_call_ends(state, close, rest, false);
    law_python_pieces(state, text, seq![close] + rest);
    assert(text + (seq![close] + rest) =~= text + seq![close] + rest);
    let written = python_scan(state, text).1;
    assert("{\""@ =~= seq!['{', '"']);
    assert("{\""@ + (written + seq!['}']) =~= seq!['{'] + (seq!['"'] + written) + seq!['}']);
}

/// Only the first piece of the arguments is preceded by the opening of the JSON object.
pub proof fn law_python_object_opens_once(
    state: PythonCallFormatter,
    first: Seq<char>,
    second: Seq<char>,
)
    requires
        !state.envelope_closed,
        first.len() > 0,
    ensures
        ({
            let (middle, written_first) = state.fixed(first, true);
            let (after, written_second) = middle.fixed(second, false);
            state.fixed(first + second, true) == (after, written_first + written_second)
        }),
        state.fixed(Seq::<char>::empty(), true).1 == Seq::<char>::empty(),
{
    law_python_pieces(state, first, second);
    let (middle, written_first) = python_scan(state, first);
    let written_second = middle.fixed(second, false).1;
    assert("{\""@ + (written_first + written_second) =~= "{\""@ + written_first + written_second);
}

/// The text of a JSON string is kept as it is.
pub proof fn law_json_string_stays(state: EnclosedJsonFormatter, text: Seq<char>)
    requires
        state.in_string,
        !state.is_escaping,
        is_plain(text),
    ensures
        json_scan(state, text) == (state, text),
    decreases text.len(),
{
    if text.len() > 0 {
        lemma_shorter(text);
        law_json_string_stays(state, text.drop_last());
        assert(text =~= text.drop_last().push(text.last()));
    } else {
        assert(text =~= seq![]);
    }
}

/// What stands outside strings and holds no bracket is kept as it is, spaces and all.
pub proof fn law_json_outside_stays(state: EnclosedJsonFormatter, text: Seq<char>)
    requires
        !state.in_string,
        !state.is_escaping,
        is_plain(text),
        !text.contains('{'),
        !text.contains('}'),
        !text.contains('['),
        !text.contains(']'),
    ensures
        json_scan(state, text) == (state, text),
    decreases text.len(),
{
    if text.len() > 0 {
        lemma_shorter(text);
        law_json_outside_stays(state, text.drop_last());
        assert(text =~= text.drop_last().push(text.last()));
    } else {
        assert(text =~= seq![]);
    }
}

proof fn lemma_json_one(state: EnclosedJsonFormatter, c: char)
    ensures
        ({
            let (after, keep) = crate::inference::tool_formatter::json_step(state, c);
            json_scan(state, seq![c]) == (
                after,
                if keep {
                    seq![c]
                } else {
                    seq![]
                },
            )
        }),
{
    reveal_with_fuel(json_scan, 2);
    assert(seq![c].drop_last() =~= seq![]);
    assert(Seq::<char>::empty().push(c) =~= seq![c]);
}

/// A JSON string is kept with its quotation marks, wherever it stands.
pub proof fn law_json_quoted_stays(state: EnclosedJsonFormatter, text: Seq<char>)
    requires
        !state.in_string,
        !state.is_escaping,
        is_plain(text),
    ensures
        json_scan(state, quoted(text)) == (state, quoted(text)),
{
    let inside = EnclosedJsonFormatter { in_string: true, ..state };
    lemma_json_one(state, '"');
    lemma_json_one(inside, '"');
    law_json_string_stays(inside, text);
    law_json_pieces(state, seq!['"'], text);
    law_json_pieces(state, seq!['"'] + text, seq!['"']);
}

/// An object or a list around a text that is kept whole is kept whole.
pub proof fn law_json_nesting_stays(
    state: EnclosedJsonFormatter,
    inner: Seq<char>,
    open: char,
    close: char,
)
    requires
        !state.in_string,
        !state.is_escaping,
        state.bracket_depth < usize::MAX,
        open == '{' || open == '[',
        close == '}' || close == ']',
        ({
            let inside = EnclosedJsonFormatter {
                bracket_depth: (state.bracket_depth + 1) as usize,
                ..state
            };
            json_scan(inside, inner) == (inside, inner)
        }),
    ensures
        json_scan(state, seq![open] + inner + seq![close]) == (
            state,
            seq![open] + inner + seq![close],
        ),
{
    let inside = EnclosedJsonFormatter {
        bracket_depth: (state.bracket_depth + 1) as usize,
        ..state
    };
    lemma_json_one(state, open);
    lemma_json_one(inside, close);
    law_json_pieces(state, seq![open], inner);
    law_json_pieces(state, seq![open] + inner, seq![close]);
}

/// A bracket that closes nothing is left out and changes nothing: that of the object around the
/// arguments.
pub proof fn law_json_envelope_is_left_out(
    state: EnclosedJsonFormatter,
    text: Seq<char>,
    close: char,
)
    requires
        !state.in_string,
        !state.is_escaping,
        state.bracket_depth == 0,
        close == '}' || close == ']',
        json_scan(state, text) == (state, text),
    ensures
        json_scan(state, text + seq![close]) == (state, text),
        state.fixed(text + seq![close], true).1 == text,
{
    lemma_json_one(state, close);
    law_json_pieces(state, text, seq![close]);
    assert(text + Seq::<char>::empty() =~= text);
}

proof fn lemma_last_of(text: Seq<char>, pattern: Seq<char>, k: int)
    requires
        stands_at(text, pattern, k),
        forall|q: int| q > k ==> !#[trigger] stands_at(text, pattern, q),
    ensures
        last_place(text, pattern) == Some(k),
{
    lemma_last_place(text, pattern, text.len() - pattern.len());
}

/// What stands behind a prefix is what is left, if the prefix does not stand there again.
pub proof fn law_prefix_is_taken_off(before: Seq<char>, prefix: Seq<char>, behind: Seq<char>)
    requires
        forall|q: int|
            q > before.len() ==> !#[trigger] stands_at(before + prefix + behind, prefix, q),
    ensures
        behind_last(before + prefix + behind, prefix) == (true, behind),
{
    let text = before + prefix + behind;
    assert(text.subrange(before.len() as int, before.len() as int + prefix.len()) =~= prefix);
    lemma_last_of(text, prefix, before.len() as int);
    assert(text.skip(before.len() as int + prefix.len()) =~= behind);
}

/// Where the prefix does not stand, nothing is taken off.
pub proof fn law_no_prefix_no_change(text: Seq<char>, prefix: Seq<char>)
    requires
        forall|q: int| !#[trigger] stands_at(text, prefix, q),
    ensures
        behind_last(text, prefix) == (false, text),
{
    lemma_last_place(text, prefix, text.len() - prefix.len());
}

/// The name in the JSON notation: what stands before the last quotation mark, joined to what was
/// read before; the rest is left over.
pub proof fn law_json_name(buffer: Seq<char>, name: Seq<char>, rest: Seq<char>)
    requires
        !rest.contains('"'),
    ensures
        name_before(buffer, name + seq!['"'] + rest, seq!['"']) == (Some(buffer + name), rest),
        name_before(buffer, rest, seq!['"']) == (None::<Seq<char>>, buffer + rest),
{
    lemma_split_at_mark(name, '"', rest);
}

proof fn lemma_split_at_mark(head: Seq<char>, mark: char, rest: Seq<char>)
    requires
        !rest.contains(mark),
    ensures
        split_at_last(head + seq![mark] + rest, seq![mark]) == Some((head, rest)),
        split_at_last(rest, seq![mark]) is None,
{
    let text = head + seq![mark] + rest;
    assert(text.subrange(head.len() as int, head.len() as int + 1) =~= seq![mark]);
    assert forall|q: int| q > head.len() implies !#[trigger] stands_at(text, seq![mark], q) by {
        if stands_at(text, seq![mark], q) {
            assert(text.subrange(q, q + 1)[0] == mark);
            assert(rest[q - head.len() - 1] == mark);
        }
    }
    lemma_last_of(text, seq![mark], head.len() as int);
    assert(text.take(head.len() as int) =~= head);
    assert(text.skip(head.len() as int + 1) =~= rest);
    lemma_last_place(rest, seq![mark], rest.len() - 1);
    assert forall|q: int| !#[trigger] stands_at(rest, seq![mark], q) by {
        if stands_at(rest, seq![mark], q) {
            assert(rest.subrange(q, q + 1)[0] == mark);
            assert(rest[q] == mark);
        }
    }
}

/// The name in a script call: what stands before the last opening bracket, joined to what was
/// read before, if there is anything of a name in it.
pub proof fn law_python_name(buffer: Seq<char>, name: Seq<char>, rest: Seq<char>)
    requires
        !rest.contains('('),
    ensures
        (exists|i: int|
            0 <= i < (buffer + name).len() && crate::text::is_alphanumeric(
                #[trigger] (buffer + name)[i],
            ))
            ==> call_name(buffer, name + seq!['('] + rest) == (Some(buffer + name), rest),
        (forall|i: int|
            0 <= i < (buffer + name).len() ==> !crate::text::is_alphanumeric(
                #[trigger] (buffer + name)[i],
            ))
            ==> call_name(buffer, name + seq!['('] + rest) == (
            None::<Seq<char>>,
            buffer + name + rest,
        ),
        call_name(buffer, rest) == (None::<Seq<char>>, buffer + rest),
{
    reveal_strlit("(");
    assert("("@ =~= seq!['(']);
    lemma_split_at_mark(name, '(', rest);
}

/// Where the text that is decoded ends the name in the JSON notation, or does not.
pub proof fn law_json_extraction(
    formatter: EnclosedJsonFormatter,
    tokenizer: TokenizerView,
    ids: Seq<u32>,
    buffer: Seq<char>,
    stream: StreamView,
    name: Seq<char>,
    rest: Seq<char>,
)
    requires
        !rest.contains('"'),
    ensures
        ({
            let found = formatter.extraction(tokenizer, ids, buffer, stream);
            let decoded = tokenizer.decoding(stream, ids);
            &&& decoded.result == Ok::<Option<Seq<char>>, Seq<char>>(
                Some(name + seq!['"'] + rest),
            ) ==> found.result == Ok::<Option<Seq<char>>, Seq<char>>(Some(buffer + name))
                && found.buffer == rest
            &&& decoded.result == Ok::<Option<Seq<char>>, Seq<char>>(Some(rest)) ==> found.result
                == Ok::<Option<Seq<char>>, Seq<char>>(None) && found.buffer == buffer + rest
            &&& decoded.result == Ok::<Option<Seq<char>>, Seq<char>>(None) ==> found.result == Ok::<
                Option<Seq<char>>,
                Seq<char>,
            >(None) && found.buffer == buffer
            &&& decoded.result matches Err(message) ==> found.result == Err::<
                Option<Seq<char>>,
                Seq<char>,
            >(message)
            &&& found.stream == decoded.stream
        }),
{
    reveal_strlit("\"");
    assert("\""@ =~= seq!['"']);
    law_json_name(buffer, name, rest);
}

/// Where the text that is decoded ends the name of a script call, or does not.
pub proof fn law_python_extraction(
    formatter: PythonCallFormatter,
    tokenizer: TokenizerView,
    ids: Seq<u32>,
    buffer: Seq<char>,
    stream: StreamView,
    name: Seq<char>,
    rest: Seq<char>,
)
    requires
        !rest.contains('('),
        exists|i: int|
            0 <= i < (buffer + name).len() && crate::text::is_alphanumeric(
                #[trigger] (buffer + name)[i],
            ),
    ensures
        ({
            let found = formatter.extraction(tokenizer, ids, buffer, stream);
            let decoded = tokenizer.decoding(stream, ids);
            &&& decoded.result == Ok::<Option<Seq<char>>, Seq<char>>(
                Some(name + seq!['('] + rest),
            ) ==> found.result == Ok::<Option<Seq<char>>, Seq<char>>(Some(buffer + name))
                && found.buffer == rest
            &&& decoded.result == Ok::<Option<Seq<char>>, Seq<char>>(Some(rest)) ==> found.result
                == Ok::<Option<Seq<char>>, Seq<char>>(None) && found.buffer == buffer + rest
            &&& decoded.result == Ok::<Option<Seq<char>>, Seq<char>>(None) ==> found.result == Ok::<
                Option<Seq<char>>,
                Seq<char>,
            >(None) && found.buffer == buffer
            &&& decoded.result matches Err(message) ==> found.result == Err::<
                Option<Seq<char>>,
                Seq<char>,
            >(message)
            &&& found.stream == decoded.stream
        }),
{
    law_python_name(buffer, name, rest);
}

/// The text before the name and the text before the arguments in the JSON notation are taken off
/// with all that stands before them.
pub proof fn law_json_prefixes(formatter: EnclosedJsonFormatter, before: Seq<char>, behind: Seq<char>)
    ensures
        ({
            let name = seq!['{', '"', 'n', 'a', 'm', 'e', '"', ':', ' ', '"'];
            let text = before + name + behind;
            (forall|q: int| q > before.len() ==> !#[trigger] stands_at(text, name, q))
                ==> formatter.name_prefix_stripped(text) == (true, behind)
        }),
        ({
            let arguments = seq!['"', 'a', 'r', 'g', 'u', 'm', 'e', 'n', 't', 's', '"', ':'];
            let text = before + arguments + behind;
            (forall|q: int| q > before.len() ==> !#[trigger] stands_at(text, arguments, q))
                ==> formatter.arguments_prefix_stripped(text) == (true, behind)
        }),
{
    reveal_strlit("{\"name\": \"");
    reveal_strlit("\"arguments\":");
    let name = seq!['{', '"', 'n', 'a', 'm', 'e', '"', ':', ' ', '"'];
    let arguments = seq!['"', 'a', 'r', 'g', 'u', 'm', 'e', 'n', 't', 's', '"', ':'];
    assert("{\"name\": \""@ =~= name);
    assert("\"arguments\":"@ =~= arguments);
    if forall|q: int| q > before.len() ==> !#[trigger] stands_at(before + name + behind, name, q) {
        law_prefix_is_taken_off(before, name, behind);
    }
    if forall|q: int|
        q > before.len() ==> !#[trigger] stands_at(before + arguments + behind, arguments, q) {
        law_prefix_is_taken_off(before, arguments, behind);
    }
}

/// The other notations have nothing before the name, and the marked one nothing before the
/// arguments; before those of a script call stands what is no part of a name.
pub proof fn law_other_prefixes(
    xml: XmlArgPairsFormatter,
    python: PythonCallFormatter,
    noise: Seq<char>,
    word: Seq<char>,
)
    requires
        forall|i: int|
            0 <= i < noise.len() ==> !(crate::text::is_alphanumeric(#[trigger] noise[i])
                || noise[i] == '_'),
        forall|i: int|
            0 <= i < word.len() ==> crate::text::is_alphanumeric(#[trigger] word[i]) || word[i]
                == '_',
    ensures
        xml.name_prefix_stripped(noise + word) == (true, noise + word),
        xml.arguments_prefix_stripped(noise + word) == (true, noise + word),
        python.name_prefix_stripped(noise + word) == (true, noise + word),
        python.arguments_prefix_stripped(noise + word) == (word.len() > 0, word),
{
    law_name_part_keeps_names(noise, word);
}

/// How a notation opens a call: with the start token, and then, if the tool is given, the text
/// before its name and the name.
pub proof fn law_templates(
    tokenizer: TokenizerView,
    start: u32,
    name: Seq<char>,
    xml: XmlArgPairsFormatter,
    json: EnclosedJsonFormatter,
    python: PythonCallFormatter,
)
    ensures
        xml.template(tokenizer, start, None) == Ok::<Seq<u32>, Seq<char>>(seq![start]),
        python.template(tokenizer, start, None) == Ok::<Seq<u32>, Seq<char>>(seq![start]),
        match (xml.template(tokenizer, start, Some(name)), tokenizer.encoding(name, false)) {
            (Ok(ids), Ok(tail)) => ids[0] == start && ids.skip(1) == tail,
            (Err(message), Err(cause)) => message == cause,
            _ => false,
        },
        match (
            python.template(tokenizer, start, Some(name)),
            tokenizer.encoding(seq!['['] + name, false),
        ) {
            (Ok(ids), Ok(tail)) => ids[0] == start && ids.skip(1) == tail,
            (Err(message), Err(cause)) => message == cause,
            _ => false,
        },
        match (
            json.template(tokenizer, start, None),
            tokenizer.encoding(seq!['{', '"', 'n', 'a', 'm', 'e', '"', ':', '"'], false),
        ) {
            (Ok(ids), Ok(tail)) => ids[0] == start && ids.skip(1) == tail,
            (Err(message), Err(cause)) => message == cause,
            _ => false,
        },
        match (
            json.template(tokenizer, start, Some(name)),
            tokenizer.encoding(
                seq!['{', '"', 'n', 'a', 'm', 'e', '"', ':', '"'] + name + seq!['"'],
                false,
            ),
        ) {
            (Ok(ids), Ok(tail)) => ids[0] == start && ids.skip(1) == tail,
            (Err(message), Err(cause)) => message == cause,
            _ => false,
        },
{
    reveal_strlit("[");
    reveal_strlit("\"");
    reveal_strlit("{\"name\":\"");
    assert("["@ =~= seq!['[']);
    assert("\""@ =~= seq!['"']);
    assert("{\"name\":\""@ =~= seq!['{', '"', 'n', 'a', 'm', 'e', '"', ':', '"']);
    assert forall|tail: Seq<u32>| #[trigger] (seq![start] + tail).skip(1) =~= tail by {}
}

/// The tokens hold none of the markers.
pub open spec fn unmarked(formatter: XmlArgPairsFormatter, tokens: Seq<u32>) -> bool {
    forall|i: int|
        0 <= i < tokens.len() ==> {
            &&& #[trigger] tokens[i] != formatter.arg_key_open_token_id
            &&& tokens[i] != formatter.arg_key_close_token_id
            &&& tokens[i] != formatter.arg_value_open_token_id
            &&& tokens[i] != formatter.arg_value_close_token_id
        }
}

/// The text of tokens that are decoded one by one, and the decoder's memory after them; none if
/// one of them cannot be decoded.
pub open spec fn decoded_one_by_one(
    tokenizer: TokenizerView,
    stream: StreamView,
    tokens: Seq<u32>,
) -> Option<(Seq<char>, StreamView)>
    decreases tokens.len(),
{
    if tokens.len() == 0 {
        Some((seq![], stream))
    } else {
        match decoded_one_by_one(tokenizer, stream, tokens.drop_last()) {
            Some((text, middle)) => {
                let decoded = tokenizer.decoding_of_one(middle, tokens.last());
                match decoded.result {
                    Ok(Some(more)) => Some((text + more, decoded.stream)),
                    Ok(None) => Some((text, decoded.stream)),
                    Err(_) => None,
                }
            },
            None => None,
        }
    }
}

proof fn lemma_xml_prefix(
    formatter: XmlArgPairsFormatter,
    tokenizer: TokenizerView,
    tokens: Seq<u32>,
    more: Seq<u32>,
    n: nat,
    buffer: Seq<char>,
    stream: StreamView,
)
    requires
        n <= tokens.len(),
    ensures
        xml_arguments(formatter, tokenizer, tokens + more, n, buffer, stream) == xml_arguments(
            formatter,
            tokenizer,
            tokens,
            n,
            buffer,
            stream,
        ),
    decreases n,
{
    if n > 0 {
        lemma_xml_prefix(formatter, tokenizer, tokens, more, (n - 1) as nat, buffer, stream);
        assert((tokens + more)[n - 1] == tokens[n - 1]);
    }
}

/// Marked arguments are rewritten alike whether they arrive in one piece or in two.
pub proof fn law_xml_pieces(
    formatter: XmlArgPairsFormatter,
    tokenizer: TokenizerView,
    first: Seq<u32>,
    second: Seq<u32>,
    buffer: Seq<char>,
    stream: StreamView,
)
    ensures
        ({
            let middle = formatter.formatted(tokenizer, first, buffer, stream);
            formatter.formatted(tokenizer, first + second, buffer, stream) == if middle.result is Ok {
                formatter.formatted(tokenizer, second, middle.buffer, middle.stream)
            } else {
                middle
            }
        }),
    decreases second.len(),
{
    let middle = formatter.formatted(tokenizer, first, buffer, stream);
    if second.len() == 0 {
        assert(first + second =~= first);
    } else {
        let less = second.drop_last();
        law_xml_pieces(formatter, tokenizer, first, less, buffer, stream);
        assert(first + second =~= (first + less) + seq![second.last()]);
        assert(second =~= less + seq![second.last()]);
        lemma_xml_prefix(
            formatter,
            tokenizer,
            first + less,
            seq![second.last()],
            (first + less).len(),
            buffer,
            stream,
        );
        lemma_xml_prefix(
            formatter,
            tokenizer,
            less,
            seq![second.last()],
            less.len(),
            middle.buffer,
            middle.stream,
        );
    }
}

/// Tokens without markers are written as their text.
pub proof fn law_xml_text_stays(
    formatter: XmlArgPairsFormatter,
    tokenizer: TokenizerView,
    tokens: Seq<u32>,
    buffer: Seq<char>,
    stream: StreamView,
)
    requires
        unmarked(formatter, tokens),
    ensures
        ({
            let outcome = formatter.formatted(tokenizer, tokens, buffer, stream);
            match decoded_one_by_one(tokenizer, stream, tokens) {
                Some((text, after)) => {
                    &&& outcome.result is Ok
                    &&& outcome.buffer == buffer + text
                    &&& outcome.stream == after
                },
                None => outcome.result is Err,
            }
        }),
    decreases tokens.len(),
{
    if tokens.len() == 0 {
        assert(buffer + Seq::<char>::empty() =~= buffer);
    } else {
        let less = tokens.drop_last();
        let last = tokens.last();
        assert(tokens[tokens.len() - 1] == last);
        assert(unmarked(formatter, less)) by {
            assert forall|i: int| 0 <= i < less.len() implies {
                &&& #[trigger] less[i] != formatter.arg_key_open_token_id
                &&& less[i] != formatter.arg_key_close_token_id
                &&& less[i] != formatter.arg_value_open_token_id
                &&& less[i] != formatter.arg_value_close_token_id
            } by {
                assert(less[i] == tokens[i]);
            }
        }
        law_xml_text_stays(formatter, tokenizer, less, buffer, stream);
        law_xml_pieces(formatter, tokenizer, less, seq![last], buffer, stream);
        assert(tokens =~= less + seq![last]);
        reveal_with_fuel(xml_arguments, 2);
        if let Some((text, middle)) = decoded_one_by_one(tokenizer, stream, less) {
            if let Ok(Some(more)) = tokenizer.decoding_of_one(middle, last).result {
                assert(buffer + text + more =~= buffer + (text + more));
            }
        }
    }
}

/// The markers become the punctuation of JSON.
pub proof fn law_xml_markers(
    formatter: XmlArgPairsFormatter,
    tokenizer: TokenizerView,
    buffer: Seq<char>,
    stream: StreamView,
)
    requires
        formatter.arg_key_open_token_id != formatter.arg_key_close_token_id,
        formatter.arg_key_open_token_id != formatter.arg_value_open_token_id,
        formatter.arg_key_open_token_id != formatter.arg_value_close_token_id,
        formatter.arg_key_close_token_id != formatter.arg_value_open_token_id,
        formatter.arg_key_close_token_id != formatter.arg_value_close_token_id,
    ensures
        forall|marker: u32|
            ({
                let outcome = #[trigger] formatter.formatted(
                    tokenizer,
                    seq![marker],
                    buffer,
                    stream,
                );
                &&& marker == formatter.arg_key_open_token_id ==> outcome.buffer == buffer
                    + seq![',', ' ', '"']
                &&& marker == formatter.arg_key_close_token_id ==> outcome.buffer == buffer
                    + seq!['"', ':', ' ']
                &&& marker == formatter.arg_value_open_token_id || marker
                    == formatter.arg_value_close_token_id ==> outcome.buffer == buffer + seq!['"']
                &&& marker == formatter.arg_key_open_token_id || marker
                    == formatter.arg_key_close_token_id || marker
                    == formatter.arg_value_open_token_id || marker
                    == formatter.arg_value_close_token_id ==> outcome.result is Ok && outcome.stream
                    == stream
            }),
{
    reveal_strlit(", \"");
    reveal_strlit("\": ");
    reveal_strlit("\"");
    reveal_with_fuel(xml_arguments, 2);
    assert(", \""@ =~= seq![',', ' ', '"']);
    assert("\": "@ =~= seq!['"', ':', ' ']);
    assert("\""@ =~= seq!['"']);
}

/// A marked argument becomes a member of the JSON object: the text of its key between quotation
/// marks, and the text of its value.
pub proof fn law_xml_pair_becomes_member(
    formatter: XmlArgPairsFormatter,
    tokenizer: TokenizerView,
    key: Seq<u32>,
    value: Seq<u32>,
    stream: StreamView,
)
    requires
        formatter.arg_key_open_token_id != formatter.arg_key_close_token_id,
        formatter.arg_key_open_token_id != formatter.arg_value_open_token_id,
        formatter.arg_key_open_token_id != formatter.arg_value_close_token_id,
        formatter.arg_key_close_token_id != formatter.arg_value_open_token_id,
        formatter.arg_key_close_token_id != formatter.arg_value_close_token_id,
        unmarked(formatter, key),
        unmarked(formatter, value),
        decoded_one_by_one(tokenizer, stream, key) is Some,
        decoded_one_by_one(
            tokenizer,
            decoded_one_by_one(tokenizer, stream, key)->Some_0.1,
            value,
        ) is Some,
        decoded_one_by_one(tokenizer, stream, key)->Some_0.0.len() > 0,
    ensures
        ({
            let (key_text, middle) = decoded_one_by_one(tokenizer, stream, key)->Some_0;
            let (value_text, after) = decoded_one_by_one(tokenizer, middle, value)->Some_0;
            let tokens = key + seq![
                formatter.arg_key_close_token_id,
                formatter.arg_value_open_token_id,
            ] + value + seq![formatter.arg_value_close_token_id];
            let outcome = formatter.formatted(tokenizer, tokens, Seq::<char>::empty(), stream);
            &&& outcome.result is Ok
            &&& outcome.stream == after
            &&& formatter.fixed(outcome.buffer, true).1 == seq!['{'] + quoted(key_text) + seq![
                ':',
                ' ',
            ] + quoted(value_text)
            &&& formatter.fixed(outcome.buffer, false).1 == outcome.buffer
        }),
{
    reveal_strlit("{\"");
    let (key_text, middle) = decoded_one_by_one(tokenizer, stream, key)->Some_0;
    let (value_text, after) = decoded_one_by_one(tokenizer, middle, value)->Some_0;
    let close = seq![formatter.arg_key_close_token_id];
    let open = seq![formatter.arg_value_open_token_id];
    let end = seq![formatter.arg_value_close_token_id];
    let none = Seq::<char>::empty();
    law_xml_text_stays(formatter, tokenizer, key, none, stream);
    assert(none + key_text =~= key_text);
    law_xml_pieces(formatter, tokenizer, key, close, none, stream);
    law_xml_markers(formatter, tokenizer, key_text, middle);
    let one = key_text + seq!['"', ':', ' '];
    law_xml_pieces(formatter, tokenizer, key + close, open, none, stream);
    law_xml_markers(formatter, tokenizer, one, middle);
    let two = one + seq!['"'];
    law_xml_pieces(formatter, tokenizer, key + close + open, value, none, stream);
    law_xml_text_stays(formatter, tokenizer, value, two, middle);
    let three = two + value_text;
    law_xml_pieces(formatter, tokenizer, key + close + open + value, end, none, stream);
    law_xml_markers(formatter, tokenizer, three, after);
    let tokens = key + seq![
        formatter.arg_key_close_token_id,
        formatter.arg_value_open_token_id,
    ] + value + end;
    assert(key + close + open + value + end =~= tokens);
    assert("{\""@ =~= seq!['{', '"']);
    assert("{\""@ + (three + seq!['"']) =~= seq!['{'] + quoted(key_text) + seq![':', ' ']
        + quoted(value_text));
}

/// The name in the marked notation: the text in front of the first key, which the marker that
/// opens the key ends.
pub proof fn law_xml_name(
    formatter: XmlArgPairsFormatter,
    tokenizer: TokenizerView,
    buffer: Seq<char>,
    stream: StreamView,
    tokens: Seq<u32>,
)
    ensures
        ({
            let found = formatter.extraction(
                tokenizer,
                seq![formatter.arg_key_open_token_id],
                buffer,
                stream,
            );
            let decoded = tokenizer.decoding(stream, Seq::<u32>::empty());
            match decoded.result {
                Ok(None) => found.result == Ok::<Option<Seq<char>>, Seq<char>>(Some(buffer))
                    && found.buffer == Seq::<char>::empty(),
                Ok(Some(text)) => found.result == Ok::<Option<Seq<char>>, Seq<char>>(
                    Some(buffer + text),
                ) && found.buffer == Seq::<char>::empty(),
                Err(message) => found.result == Err::<Option<Seq<char>>, Seq<char>>(message),
            }
        }),
        !tokens.contains(formatter.arg_key_open_token_id) ==> {
            let found = formatter.extraction(tokenizer, tokens, buffer, stream);
            match tokenizer.decoding(stream, tokens).result {
                Ok(None) => found.result == Ok::<Option<Seq<char>>, Seq<char>>(None)
                    && found.buffer == buffer,
                Ok(Some(text)) => found.result == Ok::<Option<Seq<char>>, Seq<char>>(None)
                    && found.buffer == buffer + text,
                Err(message) => found.result == Err::<Option<Seq<char>>, Seq<char>>(message),
            }
        },
{
    let marker = formatter.arg_key_open_token_id;
    assert(seq![marker].skip(1) =~= Seq::<u32>::empty());
    assert(seq![marker].last() == marker);
    if !tokens.contains(marker) {
        lemma_no_token(tokens, marker);
    }
}

proof fn lemma_no_token(tokens: Seq<u32>, id: u32)
    requires
        !tokens.contains(id),
    ensures
        crate::inference::tool_formatter::last_token_place(tokens, id) is None,
    decreases tokens.len(),
{
    if tokens.len() > 0 {
        assert(tokens[tokens.len() - 1] == tokens.last());
        let less = tokens.drop_last();
        assert(!less.contains(id)) by {
            if less.contains(id) {
                let i = choose|i: int| 0 <= i < less.len() && less[i] == id;
                assert(tokens[i] == id);
            }
        }
        lemma_no_token(less, id);
    }
}

/// A model's notation has its formatter, which has seen nothing, with each marker in its place.
/// Only the marked notation can lack something.
pub proof fn law_formatter_of_notation(config: PostSamplingConfig)
    ensures
        config.tool_call_format_style == ToolFormatStyle::EnclosedJson ==> formatter_for(config)
            == Ok::<ToolFormatter, Seq<char>>(
            ToolFormatter::Json(
                EnclosedJsonFormatter { in_string: false, is_escaping: false, bracket_depth: 0 },
            ),
        ),
        config.tool_call_format_style == ToolFormatStyle::PythonCall ==> formatter_for(config)
            == Ok::<ToolFormatter, Seq<char>>(
            ToolFormatter::Python(
                PythonCallFormatter {
                    in_string: false,
                    is_escaping: false,
                    bracket_depth: 0,
                    envelope_closed: false,
                },
            ),
        ),
        config.tool_call_format_style == ToolFormatStyle::XmlArgPairs ==> {
            let whole = config.arg_key_open_token_id is Some && config.arg_key_close_token_id is Some
                && config.arg_value_open_token_id is Some && config.arg_value_close_token_id is Some;
            &&& formatter_for(config) is Ok <==> whole
            &&& whole ==> {
                &&& formatter_for(config)->Ok_0 matches ToolFormatter::Xml(formatter)
                &&& Some(formatter.arg_key_open_token_id) == config.arg_key_open_token_id
                &&& Some(formatter.arg_key_close_token_id) == config.arg_key_close_token_id
                &&& Some(formatter.arg_value_open_token_id) == config.arg_value_open_token_id
                &&& Some(formatter.arg_value_close_token_id) == config.arg_value_close_token_id
            }
        },
{
}

/// After a call the scanners are where they began, but that a script call was closed is not
/// forgotten.
pub proof fn law_cleared_formatters(json: EnclosedJsonFormatter, python: PythonCallFormatter)
    ensures
        Ok::<ToolFormatter, Seq<char>>(ToolFormatter::Json(json.cleared())) == formatter_for(
            PostSamplingConfig {
                tool_call_start_token_id: None,
                tool_call_end_token_id: None,
                reasoning_start_token_id: None,
                reasoning_end_token_id: None,
                tool_call_format_style: ToolFormatStyle::EnclosedJson,
                arg_key_open_token_id: None,
                arg_key_close_token_id: None,
                arg_value_open_token_id: None,
                arg_value_close_token_id: None,
            },
        ),
        !python.cleared().in_string,
        !python.cleared().is_escaping,
        python.cleared().bracket_depth == 0,
        python.cleared().envelope_closed == python.envelope_closed,
{
}

/// Where a key is opened among the tokens, those behind the last such marker are the rest of the name,
/// and those before it are left over.
pub proof fn law_xml_name_among_tokens(
    formatter: XmlArgPairsFormatter,
    tokenizer: TokenizerView,
    buffer: Seq<char>,
    stream: StreamView,
    front: Seq<u32>,
    back: Seq<u32>,
    name: Seq<char>,
    rest: Seq<char>,
)
    requires
        !back.contains(formatter.arg_key_open_token_id),
        front.len() > 0,
        tokenizer.decoding(stream, back).result == Ok::<Option<Seq<char>>, Seq<char>>(Some(name)),
        tokenizer.decoding(tokenizer.decoding(stream, back).stream, front).result == Ok::<
            Option<Seq<char>>,
            Seq<char>,
        >(Some(rest)),
    ensures
        ({
            let found = formatter.extraction(
                tokenizer,
                front + seq![formatter.arg_key_open_token_id] + back,
                buffer,
                stream,
            );
            &&& found.result == Ok::<Option<Seq<char>>, Seq<char>>(Some(buffer + name))
            &&& found.buffer == rest
        }),
{
    let marker = formatter.arg_key_open_token_id;
    let tokens = front + seq![marker] + back;
    lemma_last_token(front, marker, back);
    assert(tokens.skip(front.len() as int + 1) =~= back);
    assert(tokens.take(front.len() as int) =~= front);
    assert(Seq::<char>::empty() + rest =~= rest);
}

proof fn lemma_last_token(front: Seq<u32>, id: u32, back: Seq<u32>)
    requires
        !back.contains(id),
    ensures
        crate::inference::tool_formatter::last_token_place(front + seq![id] + back, id) == Some(
            front.len() as int,
        ),
    decreases back.len(),
{
    let tokens = front + seq![id] + back;
    if back.len() > 0 {
        let less = back.drop_last();
        assert(tokens.drop_last() =~= front + seq![id] + less);
        assert(tokens.last() == back.last());
        assert(back[back.len() - 1] == back.last());
        assert(!less.contains(id)) by {
            if less.contains(id) {
                let i = choose|i: int| 0 <= i < less.len() && less[i] == id;
                assert(back[i] == id);
            }
        }
        lemma_last_token(front, id, less);
    } else {
        assert(tokens.last() == id);
    }
}

} // verus!
