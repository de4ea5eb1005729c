//! The notations in which models write tool calls.
use vstd::prelude::*;
use vstd::string::*;

use crate::inference::types::{PostSamplingConfig, ToolFormatStyle};
use crate::text::{
    any_alphanumeric, chars_of, find_last, has_alphanumeric, keep_name_chars, last_place, name_part,
    rsplit_text, split_at_last, string_of,
};
use crate::tokenizer::{
    decoded_text, encoded_ids, fresh_stream, Decoding, StreamContext, StreamView, Tokenizer, TokenizerView,
};

verus! {

/// The outcome of the search for a function name: the name if it is complete, the text that is
/// left over, and the decoder's memory.
pub struct Extraction {
    pub result: Result<Option<Seq<char>>, Seq<char>>,
    pub buffer: Seq<char>,
    pub stream: StreamView,
}

/// The outcome of decoding arguments.
pub struct Formatting {
    pub result: Result<(), Seq<char>>,
    pub buffer: Seq<char>,
    pub stream: StreamView,
}

/// The model of a result without a value.
pub open spec fn unit_or_text(result: Result<(), String>) -> Result<(), Seq<char>> {
    match result {
        Ok(()) => Ok(()),
        Err(message) => Err(message@),
    }
}

/// A notation of tool calls: how a call is opened, where the name ends, and how the arguments
/// become JSON.
/// An implementation that is not verified may leave the specification functions out.
pub trait ToolArgFormatter: Sized {
    /// The answer of `build_tool_call_template`.
    closed spec fn template(
        &self,
        tokenizer: TokenizerView,
        start: u32,
        tool_name: Option<Seq<char>>,
    ) -> Result<Seq<u32>, Seq<char>> {
        arbitrary()
    }

    /// The answer of `try_strip_name_prefix` and the text that is left.
    closed spec fn name_prefix_stripped(&self, buffer: Seq<char>) -> (bool, Seq<char>) {
        arbitrary()
    }

    /// The outcome of `try_extract_function_name`.
    closed spec fn extraction(
        &self,
        tokenizer: TokenizerView,
        token_ids: Seq<u32>,
        buffer: Seq<char>,
        stream: StreamView,
    ) -> Extraction {
        arbitrary()
    }

    /// The answer of `try_strip_arguments_prefix` and the text that is left.
    closed spec fn arguments_prefix_stripped(&self, buffer: Seq<char>) -> (bool, Seq<char>) {
        arbitrary()
    }

    /// The formatter and the text after `fix_json`.
    closed spec fn fixed(&self, buffer: Seq<char>, first_chunk: bool) -> (Self, Seq<char>) {
        arbitrary()
    }

    /// The outcome of `format_args`.
    closed spec fn formatted(
        &self,
        tokenizer: TokenizerView,
        token_ids: Seq<u32>,
        buffer: Seq<char>,
        stream: StreamView,
    ) -> Formatting {
        arbitrary()
    }

    /// The formatter after `reset`.
    closed spec fn cleared(&self) -> Self {
        arbitrary()
    }

    /// The tokens that open a tool call, or the call of the named tool.
    fn build_tool_call_template<T: Tokenizer>(
        &self,
        tool_call_start_token_id: &u32,
        tool_name: Option<&str>,
        tokenizer: &T,
    ) -> (result: Result<Vec<u32>, String>)
        ensures
            encoded_ids(result) == self.template(
                tokenizer.model(),
                *tool_call_start_token_id,
                match tool_name {
                    Some(name) => Some(name@),
                    None => None,
                },
            ),
    ;

    /// Takes off what stands before the name of the function, if it is there.
    fn try_strip_name_prefix(&self, decoded_buffer: &mut String) -> (result: bool)
        ensures
            (result, final(decoded_buffer)@) == self.name_prefix_stripped(old(decoded_buffer)@),
    ;

    /// Decodes further tokens and takes off the name of the function, if it is complete.
    fn try_extract_function_name<T: Tokenizer>(
        &self,
        token_ids: &[u32],
        decoded_buffer: &mut String,
        tokenizer: &T,
        stream_ctx: &mut StreamContext,
    ) -> (result: Result<Option<String>, String>)
        ensures
            (Extraction {
                result: decoded_text(result),
                buffer: final(decoded_buffer)@,
                stream: final(stream_ctx)@,
            }) == self.extraction(
                tokenizer.model(),
                token_ids@,
                old(decoded_buffer)@,
                old(stream_ctx)@,
            ),
    ;

    /// Takes off what stands before the arguments, if it is there.
    fn try_strip_arguments_prefix(&self, decoded_buffer: &mut String) -> (result: bool)
        ensures
            (result, final(decoded_buffer)@) == self.arguments_prefix_stripped(
                old(decoded_buffer)@,
            ),
    ;

    /// Turns a piece of the arguments into the matching piece of JSON.
    fn fix_json(&mut self, decoded_buffer: &mut String, first_chunk: bool)
        ensures
            (*final(self), final(decoded_buffer)@) == old(self).fixed(
                old(decoded_buffer)@,
                first_chunk,
            ),
    ;

    /// Decodes further tokens of the arguments.
    fn format_args<T: Tokenizer>(
        &mut self,
        token_ids: &[u32],
        decoded_buffer: &mut String,
        tokenizer: &T,
        stream_ctx: &mut StreamContext,
    ) -> (result: Result<(), String>)
        ensures
            *final(self) == *old(self),
            (Formatting {
                result: unit_or_text(result),
                buffer: final(decoded_buffer)@,
                stream: final(stream_ctx)@,
            }) == old(self).formatted(
                tokenizer.model(),
                token_ids@,
                old(decoded_buffer)@,
                old(stream_ctx)@,
            ),
    ;

    /// Forgets what was seen of the last call.
    fn reset(&mut self)
        ensures
            *final(self) == old(self).cleared(),
    ;
}

/// The start token followed by an encoded text.
pub open spec fn start_and(start: u32, encoded: Result<Seq<u32>, Seq<char>>) -> Result<
    Seq<u32>,
    Seq<char>,
> {
    match encoded {
        Ok(ids) => Ok(seq![start] + ids),
        Err(message) => Err(message),
    }
}

fn start_and_encoding<T: Tokenizer>(start: u32, text: &str, tokenizer: &T) -> (result: Result<
    Vec<u32>,
    String,
>)
    ensures
        encoded_ids(result) == start_and(start, tokenizer.model().encoding(text@, false)),
{
    match tokenizer.encode(text, false) {
        Ok(mut ids) => {
            let mut all: Vec<u32> = vec![start];
            let ghost tail = ids@;
            all.append(&mut ids);
            assert(all@ =~= seq![start] + tail);
            Ok(all)
        },
        Err(message) => Err(message),
    }
}

fn only_start(start: u32) -> (result: Result<Vec<u32>, String>)
    ensures
        encoded_ids(result) == Ok::<Seq<u32>, Seq<char>>(seq![start]),
{
    let all: Vec<u32> = vec![start];
    assert(all@ =~= seq![start]);
    Ok(all)
}

/// The decoded text joined to the buffer.
pub open spec fn joined(buffer: Seq<char>, decoded: Decoding) -> Formatting {
    match decoded.result {
        Ok(Some(text)) => Formatting {
            result: Ok(()),
            buffer: buffer + text,
            stream: decoded.stream,
        },
        Ok(None) => Formatting { result: Ok(()), buffer, stream: decoded.stream },
        Err(message) => Formatting { result: Err(message), buffer, stream: decoded.stream },
    }
}

fn decode_into<T: Tokenizer>(
    token_ids: &[u32],
    decoded_buffer: &mut String,
    tokenizer: &T,
    stream_ctx: &mut StreamContext,
) -> (result: Result<(), String>)
    ensures
        (Formatting {
            result: unit_or_text(result),
            buffer: final(decoded_buffer)@,
            stream: final(stream_ctx)@,
        }) == joined(old(decoded_buffer)@, tokenizer.model().decoding(old(stream_ctx)@, token_ids@)),
{
    match tokenizer.process_multiple_token_stream(stream_ctx, token_ids) {
        Ok(Some(piece)) => {
            decoded_buffer.append(piece.as_str());
            Ok(())
        },
        Ok(None) => Ok(()),
        Err(message) => Err(message),
    }
}

/// A formatter chosen by its notation.
pub enum ToolFormatter {
    Xml(XmlArgPairsFormatter),
    Json(EnclosedJsonFormatter),
    Python(PythonCallFormatter),
}

/// Builds the formatter for a model's notation.
pub struct ToolArgFormatterBuilder<'a> {
    config: &'a PostSamplingConfig,
}

/// The formatter for a notation, or what is missing for it.
pub open spec fn formatter_for(config: PostSamplingConfig) -> Result<ToolFormatter, Seq<char>> {
    match config.tool_call_format_style {
        ToolFormatStyle::XmlArgPairs => match config.arg_key_open_token_id {
            None => Err("Missing arg_key_open_token_id for XmlArgPairsFormatter"@),
            Some(key_open) => match config.arg_key_close_token_id {
                None => Err("Missing arg_key_close_token_id for XmlArgPairsFormatter"@),
                Some(key_close) => match config.arg_value_open_token_id {
                    None => Err("Missing arg_value_open_token_id for XmlArgPairsFormatter"@),
                    Some(value_open) => match config.arg_value_close_token_id {
                        None => Err("Missing arg_value_close_token_id for XmlArgPairsFormatter"@),
                        Some(value_close) => Ok(
                            ToolFormatter::Xml(
                                XmlArgPairsFormatter {
                                    arg_key_open_token_id: key_open,
                                    arg_key_close_token_id: key_close,
                                    arg_value_open_token_id: value_open,
                                    arg_value_close_token_id: value_close,
                                },
                            ),
                        ),
                    },
                },
            },
        },
        ToolFormatStyle::EnclosedJson => Ok(
            ToolFormatter::Json(
                EnclosedJsonFormatter { in_string: false, is_escaping: false, bracket_depth: 0 },
            ),
        ),
        ToolFormatStyle::PythonCall => Ok(
            ToolFormatter::Python(
                PythonCallFormatter {
                    in_string: false,
                    is_escaping: false,
                    bracket_depth: 0,
                    envelope_closed: false,
                },
            ),
        ),
    }
}

impl<'a> ToolArgFormatterBuilder<'a> {
    pub closed spec fn config(&self) -> PostSamplingConfig {
        *self.config
    }

    pub fn new(config: &'a PostSamplingConfig) -> (result: Self)
        ensures
            result.config() == *config,
    {
        ToolArgFormatterBuilder { config }
    }

    pub fn build(self) -> (result: Result<ToolFormatter, String>)
        ensures
            match result {
                Ok(formatter) => formatter_for(self.config()) == Ok::<ToolFormatter, Seq<char>>(
                    formatter,
                ),
                Err(message) => formatter_for(self.config()) == Err::<ToolFormatter, Seq<char>>(
                    message@,
                ),
            },
    {
        match self.config.tool_call_format_style {
            ToolFormatStyle::XmlArgPairs => {
                let key_open: u32 = match self.config.arg_key_open_token_id {
                    Some(id) => id,
                    None => {
                        return Err(
                            String::from_str(
                                "Missing arg_key_open_token_id for XmlArgPairsFormatter",
                            ),
                        );
                    },
                };
                let key_close: u32 = match self.config.arg_key_close_token_id {
                    Some(id) => id,
                    None => {
                        return Err(
                            String::from_str(
                                "Missing arg_key_close_token_id for XmlArgPairsFormatter",
                            ),
                        );
                    },
                };
                let value_open: u32 = match self.config.arg_value_open_token_id {
                    Some(id) => id,
                    None => {
                        return Err(
                            String::from_str(
                                "Missing arg_value_open_token_id for XmlArgPairsFormatter",
                            ),
                        );
                    },
                };
                let value_close: u32 = match self.config.arg_value_close_token_id {
                    Some(id) => id,
                    None => {
                        return Err(
                            String::from_str(
                                "Missing arg_value_close_token_id for XmlArgPairsFormatter",
                            ),
                        );
                    },
                };
                match XmlArgPairsFormatter::new(key_open, key_close, value_open, value_close) {
                    Ok(formatter) => Ok(ToolFormatter::Xml(formatter)),
                    Err(message) => Err(message),
                }
            },
            ToolFormatStyle::EnclosedJson => match EnclosedJsonFormatter::new() {
                Ok(formatter) => Ok(ToolFormatter::Json(formatter)),
                Err(message) => Err(message),
            },
            ToolFormatStyle::PythonCall => match PythonCallFormatter::new() {
                Ok(formatter) => Ok(ToolFormatter::Python(formatter)),
                Err(message) => Err(message),
            },
        }
    }
}

/// Argument keys and values between marker tokens.
#[derive(Debug, Clone, Copy, PartialEq, Eq, Structural)]
pub struct XmlArgPairsFormatter {
    pub arg_key_open_token_id: u32,
    pub arg_key_close_token_id: u32,
    pub arg_value_open_token_id: u32,
    pub arg_value_close_token_id: u32,
}

/// The last place of a token.
pub open spec fn last_token_place(token_ids: Seq<u32>, id: u32) -> Option<int>
    decreases token_ids.len(),
{
    if token_ids.len() == 0 {
        None
    } else if token_ids.last() == id {
        Some(token_ids.len() - 1)
    } else {
        last_token_place(token_ids.drop_last(), id)
    }
}

fn find_last_token(token_ids: &[u32], id: u32) -> (result: Option<usize>)
    ensures
        match result {
            Some(k) => last_token_place(token_ids@, id) == Some(k as int) && k < token_ids@.len(),
            None => last_token_place(token_ids@, id) is None,
        },
{
    let mut n: usize = token_ids.len();
    assert(token_ids@.take(n as int) =~= token_ids@);
    while n > 0
        invariant
            n <= token_ids@.len(),
            last_token_place(token_ids@, id) == last_token_place(token_ids@.take(n as int), id),
        decreases n,
    {
        assert(token_ids@.take(n as int).drop_last() =~= token_ids@.take(n - 1));
        assert(token_ids@.take(n as int).last() == token_ids@[n - 1]);
        if token_ids[n - 1] == id {
            return Some(n - 1);
        }
        n = n - 1;
    }
    None
}

/// The decoded text of the name, joined to the buffer; nothing decoded resets the decoder.
pub open spec fn name_text(buffer: Seq<char>, decoded: Decoding) -> Formatting {
    match decoded.result {
        Ok(Some(text)) => Formatting {
            result: Ok(()),
            buffer: buffer + text,
            stream: decoded.stream,
        },
        Ok(None) => Formatting { result: Ok(()), buffer, stream: fresh_stream() },
        Err(message) => Formatting { result: Err(message), buffer, stream: decoded.stream },
    }
}

/// What a marker token stands for in JSON.
pub open spec fn marker_text(formatter: XmlArgPairsFormatter, id: u32) -> Option<Seq<char>> {
    if id == formatter.arg_key_open_token_id {
        Some(", \""@)
    } else if id == formatter.arg_key_close_token_id {
        Some("\": "@)
    } else if id == formatter.arg_value_open_token_id {
        Some("\""@)
    } else if id == formatter.arg_value_close_token_id {
        Some("\""@)
    } else {
        None
    }
}

/// The first `n` tokens of the arguments as text: markers as JSON punctuation, other tokens
/// decoded one by one. The first error ends it.
pub open spec fn xml_arguments(
    formatter: XmlArgPairsFormatter,
    tokenizer: TokenizerView,
    token_ids: Seq<u32>,
    n: nat,
    buffer: Seq<char>,
    stream: StreamView,
) -> Formatting
    decreases n,
{
    if n == 0 {
        Formatting { result: Ok(()), buffer, stream }
    } else {
        let before = xml_arguments(
            formatter,
            tokenizer,
            token_ids,
            (n - 1) as nat,
            buffer,
            stream,
        );
        if before.result is Err {
            before
        } else {
            match marker_text(formatter, token_ids[n - 1]) {
                Some(text) => Formatting {
                    result: Ok(()),
                    buffer: before.buffer + text,
                    stream: before.stream,
                },
                None => joined(
                    before.buffer,
                    tokenizer.decoding_of_one(before.stream, token_ids[n - 1]),
                ),
            }
        }
    }
}

proof fn lemma_xml_arguments_fail(
    formatter: XmlArgPairsFormatter,
    tokenizer: TokenizerView,
    token_ids: Seq<u32>,
    m: nat,
    n: nat,
    buffer: Seq<char>,
    stream: StreamView,
)
    requires
        m <= n,
        xml_arguments(formatter, tokenizer, token_ids, m, buffer, stream).result is Err,
    ensures
        xml_arguments(formatter, tokenizer, token_ids, n, buffer, stream) == xml_arguments(
            formatter,
            tokenizer,
            token_ids,
            m,
            buffer,
            stream,
        ),
    decreases n,
{
    if m < n {
        lemma_xml_arguments_fail(
            formatter,
            tokenizer,
            token_ids,
            m,
            (n - 1) as nat,
            buffer,
            stream,
        );
    }
}

impl XmlArgPairsFormatter {
    pub fn new(
        arg_key_open_token_id: u32,
        arg_key_close_token_id: u32,
        arg_value_open_token_id: u32,
        arg_value_close_token_id: u32,
    ) -> (result: Result<Self, String>)
        ensures
            result == Ok::<XmlArgPairsFormatter, String>(
                XmlArgPairsFormatter {
                    arg_key_open_token_id,
                    arg_key_close_token_id,
                    arg_value_open_token_id,
                    arg_value_close_token_id,
                },
            ),
    {
        Ok(
            XmlArgPairsFormatter {
                arg_key_open_token_id,
                arg_key_close_token_id,
                arg_value_open_token_id,
                arg_value_close_token_id,
            },
        )
    }

    fn decode_name<T: Tokenizer>(
        token_ids: &[u32],
        decoded_buffer: &mut String,
        tokenizer: &T,
        stream_ctx: &mut StreamContext,
    ) -> (result: Result<(), String>)
        ensures
            (Formatting {
                result: unit_or_text(result),
                buffer: final(decoded_buffer)@,
                stream: final(stream_ctx)@,
            }) == name_text(
                old(decoded_buffer)@,
                tokenizer.model().decoding(old(stream_ctx)@, token_ids@),
            ),
    {
        match tokenizer.process_multiple_token_stream(stream_ctx, token_ids) {
            Ok(Some(piece)) => {
                decoded_buffer.append(piece.as_str());
                Ok(())
            },
            Ok(None) => {
                stream_ctx.reset();
                Ok(())
            },
            Err(message) => Err(message),
        }
    }
}

fn taken(buffer: &mut String) -> (result: String)
    ensures
        result@ == old(buffer)@,
        final(buffer)@ == Seq::<char>::empty(),
{
    let mut out: String = String::new();
    std::mem::swap(&mut out, buffer);
    out
}

impl ToolArgFormatter for XmlArgPairsFormatter {
    open spec fn template(
        &self,
        tokenizer: TokenizerView,
        start: u32,
        tool_name: Option<Seq<char>>,
    ) -> Result<Seq<u32>, Seq<char>> {
        match tool_name {
            Some(name) => start_and(start, tokenizer.encoding(name, false)),
            None => Ok(seq![start]),
        }
    }

    open spec fn name_prefix_stripped(&self, buffer: Seq<char>) -> (bool, Seq<char>) {
        (true, buffer)
    }

    /// The last key marker ends the name. What stands behind it is decoded as the name, and what
    /// stands before it, if anything, as the text that is left over.
    open spec fn extraction(
        &self,
        tokenizer: TokenizerView,
        token_ids: Seq<u32>,
        buffer: Seq<char>,
        stream: StreamView,
    ) -> Extraction {
        match last_token_place(token_ids, self.arg_key_open_token_id) {
            Some(k) => {
                let name = name_text(buffer, tokenizer.decoding(stream, token_ids.skip(k + 1)));
                match name.result {
                    Err(message) => Extraction {
                        result: Err(message),
                        buffer: name.buffer,
                        stream: name.stream,
                    },
                    Ok(()) => if k == 0 {
                        Extraction {
                            result: Ok(Some(name.buffer)),
                            buffer: seq![],
                            stream: name.stream,
                        }
                    } else {
                        let rest = joined(
                            seq![],
                            tokenizer.decoding(name.stream, token_ids.take(k)),
                        );
                        Extraction {
                            result: match rest.result {
                                Ok(()) => Ok(Some(name.buffer)),
                                Err(message) => Err(message),
                            },
                            buffer: rest.buffer,
                            stream: rest.stream,
                        }
                    },
                }
            },
            None => {
                let text = joined(buffer, tokenizer.decoding(stream, token_ids));
                Extraction {
                    result: match text.result {
                        Ok(()) => Ok(None),
                        Err(message) => Err(message),
                    },
                    buffer: text.buffer,
                    stream: text.stream,
                }
            },
        }
    }

    open spec fn arguments_prefix_stripped(&self, buffer: Seq<char>) -> (bool, Seq<char>) {
        (true, buffer)
    }

    /// The first piece of the arguments is preceded by the opening of the JSON object.
    open spec fn fixed(&self, buffer: Seq<char>, first_chunk: bool) -> (Self, Seq<char>) {
        if first_chunk && buffer.len() > 0 {
            (*self, "{\""@ + buffer)
        } else {
            (*self, buffer)
        }
    }

    open spec fn formatted(
        &self,
        tokenizer: TokenizerView,
        token_ids: Seq<u32>,
        buffer: Seq<char>,
        stream: StreamView,
    ) -> Formatting {
        xml_arguments(*self, tokenizer, token_ids, token_ids.len(), buffer, stream)
    }

    open spec fn cleared(&self) -> Self {
        *self
    }

    fn build_tool_call_template<T: Tokenizer>(
        &self,
        tool_call_start_token_id: &u32,
        tool_name: Option<&str>,
        tokenizer: &T,
    ) -> (result: Result<Vec<u32>, String>) {
        match tool_name {
            Some(name) => start_and_encoding(*tool_call_start_token_id, name, tokenizer),
            None => only_start(*tool_call_start_token_id),
        }
    }

    fn try_strip_name_prefix(&self, decoded_buffer: &mut String) -> (result: bool) {
        true
    }

    fn try_extract_function_name<T: Tokenizer>(
        &self,
        token_ids: &[u32],
        decoded_buffer: &mut String,
        tokenizer: &T,
        stream_ctx: &mut StreamContext,
    ) -> (result: Result<Option<String>, String>) {
        match find_last_token(token_ids, self.arg_key_open_token_id) {
            Some(k) => {
                let n: usize = token_ids.len();
                let name_piece = vstd::slice::slice_subrange(token_ids, k + 1, n);
                let remainder = vstd::slice::slice_subrange(token_ids, 0, k);
                assert(name_piece@ =~= token_ids@.skip(k + 1));
                assert(remainder@ =~= token_ids@.take(k as int));
                match Self::decode_name(name_piece, decoded_buffer, tokenizer, stream_ctx) {
                    Ok(()) => {},
                    Err(message) => {
                        return Err(message);
                    },
                }
                let name = taken(decoded_buffer);
                if k > 0 {
                    match decode_into(remainder, decoded_buffer, tokenizer, stream_ctx) {
                        Ok(()) => {},
                        Err(message) => {
                            return Err(message);
                        },
                    }
                }
                Ok(Some(name))
            },
            None => match decode_into(token_ids, decoded_buffer, tokenizer, stream_ctx) {
                Ok(()) => Ok(None),
                Err(message) => Err(message),
            },
        }
    }

    fn try_strip_arguments_prefix(&self, decoded_buffer: &mut String) -> (result: bool) {
        true
    }

    fn fix_json(&mut self, decoded_buffer: &mut String, first_chunk: bool) {
        if first_chunk && !decoded_buffer.as_str().is_empty() {
            let text = taken(decoded_buffer);
            decoded_buffer.append("{\"");
            decoded_buffer.append(text.as_str());
            assert(decoded_buffer@ =~= "{\""@ + text@);
        }
    }

    fn format_args<T: Tokenizer>(
        &mut self,
        token_ids: &[u32],
        decoded_buffer: &mut String,
        tokenizer: &T,
        stream_ctx: &mut StreamContext,
    ) -> (result: Result<(), String>) {
        let ghost buffer = decoded_buffer@;
        let ghost stream = stream_ctx@;
        let mut i: usize = 0;
        while i < token_ids.len()
            invariant
                i <= token_ids@.len(),
                *self == *old(self),
                buffer == old(decoded_buffer)@,
                stream == old(stream_ctx)@,
                xml_arguments(*self, tokenizer.model(), token_ids@, i as nat, buffer, stream) == (
                Formatting {
                    result: Ok::<(), Seq<char>>(()),
                    buffer: decoded_buffer@,
                    stream: stream_ctx@,
                }),
            decreases token_ids.len() - i,
        {
            let id: u32 = token_ids[i];
            if id == self.arg_key_open_token_id {
                decoded_buffer.append(", \"");
            } else if id == self.arg_key_close_token_id {
                decoded_buffer.append("\": ");
            } else if id == self.arg_value_open_token_id {
                decoded_buffer.append("\"");
            } else if id == self.arg_value_close_token_id {
                decoded_buffer.append("\"");
            } else {
                match tokenizer.process_token_stream(stream_ctx, id) {
                    Ok(Some(piece)) => {
                        decoded_buffer.append(piece.as_str());
                    },
                    Ok(None) => {},
                    Err(message) => {
                        proof {
                            lemma_xml_arguments_fail(
                                *self,
                                tokenizer.model(),
                                token_ids@,
                                (i + 1) as nat,
                                token_ids@.len(),
                                buffer,
                                stream,
                            );
                        }
                        return Err(message);
                    },
                }
            }
            i = i + 1;
        }
        Ok(())
    }

    fn reset(&mut self) {
    }
}

/// A JSON object with the name and the arguments.
#[derive(Debug, Clone, Copy, PartialEq, Eq, Structural)]
pub struct EnclosedJsonFormatter {
    pub in_string: bool,
    pub is_escaping: bool,
    /// How many brackets are open; counted up to the largest machine word.
    pub bracket_depth: usize,
}

/// One more open bracket.
pub open spec fn deeper(depth: usize) -> usize {
    if depth < usize::MAX {
        (depth + 1) as usize
    } else {
        depth
    }
}

/// The scanner after a character, and whether the character is kept. Inside strings and behind a
/// backslash everything is kept; outside, a closing bracket is kept only if it closes one.
pub open spec fn json_step(state: EnclosedJsonFormatter, c: char) -> (EnclosedJsonFormatter, bool) {
    if state.is_escaping {
        (EnclosedJsonFormatter { is_escaping: false, ..state }, true)
    } else if c == '\\' {
        (EnclosedJsonFormatter { is_escaping: true, ..state }, true)
    } else if c == '"' {
        (EnclosedJsonFormatter { in_string: !state.in_string, ..state }, true)
    } else if state.in_string {
        (state, true)
    } else if c == '{' || c == '[' {
        (EnclosedJsonFormatter { bracket_depth: deeper(state.bracket_depth), ..state }, true)
    } else if c == '}' || c == ']' {
        if state.bracket_depth > 0 {
            (
                EnclosedJsonFormatter {
                    bracket_depth: (state.bracket_depth - 1) as usize,
                    ..state
                },
                true,
            )
        } else {
            (state, false)
        }
    } else {
        (state, true)
    }
}

/// The scanner after a text, and what is kept of the text.
pub open spec fn json_scan(state: EnclosedJsonFormatter, text: Seq<char>) -> (
    EnclosedJsonFormatter,
    Seq<char>,
)
    decreases text.len(),
{
    if text.len() == 0 {
        (state, seq![])
    } else {
        let (before, kept) = json_scan(state, text.drop_last());
        let (after, keep) = json_step(before, text.last());
        (
            after,
            if keep {
                kept.push(text.last())
            } else {
                kept
            },
        )
    }
}

impl EnclosedJsonFormatter {
    pub fn new() -> (result: Result<Self, String>)
        ensures
            result == Ok::<EnclosedJsonFormatter, String>(
                EnclosedJsonFormatter { in_string: false, is_escaping: false, bracket_depth: 0 },
            ),
    {
        Ok(EnclosedJsonFormatter { in_string: false, is_escaping: false, bracket_depth: 0 })
    }

    /// Takes the next character and says whether it is kept.
    fn step(&mut self, c: char) -> (keep: bool)
        ensures
            (*final(self), keep) == json_step(*old(self), c),
    {
        if self.is_escaping {
            self.is_escaping = false;
            return true;
        }
        if c == '\\' {
            self.is_escaping = true;
            return true;
        }
        if c == '"' {
            self.in_string = !self.in_string;
            return true;
        }
        if self.in_string {
            return true;
        }
        if c == '{' || c == '[' {
            if self.bracket_depth < usize::MAX {
                self.bracket_depth = self.bracket_depth + 1;
            }
            true
        } else if c == '}' || c == ']' {
            if self.bracket_depth > 0 {
                self.bracket_depth = self.bracket_depth - 1;
                true
            } else {
                false
            }
        } else {
            true
        }
    }
}

/// What stands behind the last place of a prefix, if the prefix is there.
pub open spec fn behind_last(buffer: Seq<char>, prefix: Seq<char>) -> (bool, Seq<char>) {
    match last_place(buffer, prefix) {
        Some(k) => (true, buffer.skip(k + prefix.len())),
        None => (false, buffer),
    }
}

fn strip_through(buffer: &mut String, prefix: &str) -> (result: bool)
    ensures
        (result, final(buffer)@) == behind_last(old(buffer)@, prefix@),
{
    let chars = chars_of(buffer.as_str());
    let wanted = chars_of(prefix);
    match find_last(&chars, &wanted) {
        Some(k) => {
            let n: usize = chars.len();
            *buffer = string_of(&chars, k + wanted.len(), n);
            assert(buffer@ =~= old(buffer)@.skip(k + prefix@.len()));
            true
        },
        None => false,
    }
}

/// The name and the text left over once a decoded piece has arrived: the last `suffix` of the
/// piece ends the name.
pub open spec fn name_before(buffer: Seq<char>, piece: Seq<char>, suffix: Seq<char>) -> (
    Option<Seq<char>>,
    Seq<char>,
) {
    match split_at_last(piece, suffix) {
        Some((name, rest)) => (Some(buffer + name), rest),
        None => (None, buffer + piece),
    }
}

/// Takes the name off the buffer and a decoded piece, if the piece ends it.
pub fn take_name(decoded_buffer: &mut String, piece: &str, suffix: &str) -> (result: Option<String>)
    ensures
        ({
            let expected = name_before(old(decoded_buffer)@, piece@, suffix@);
            &&& crate::text::text_of(result) == expected.0
            &&& final(decoded_buffer)@ == expected.1
        }),
{
    match rsplit_text(piece, suffix) {
        Some((name_piece, remainder)) => {
            decoded_buffer.append(name_piece.as_str());
            let name = taken(decoded_buffer);
            decoded_buffer.append(remainder.as_str());
            assert(decoded_buffer@ =~= remainder@);
            Some(name)
        },
        None => {
            decoded_buffer.append(piece);
            None
        },
    }
}

impl ToolArgFormatter for EnclosedJsonFormatter {
    open spec fn template(
        &self,
        tokenizer: TokenizerView,
        start: u32,
        tool_name: Option<Seq<char>>,
    ) -> Result<Seq<u32>, Seq<char>> {
        match tool_name {
            Some(name) => start_and(
                start,
                tokenizer.encoding("{\"name\":\""@ + name + "\""@, false),
            ),
            None => start_and(start, tokenizer.encoding("{\"name\":\""@, false)),
        }
    }

    open spec fn name_prefix_stripped(&self, buffer: Seq<char>) -> (bool, Seq<char>) {
        behind_last(buffer, "{\"name\": \""@)
    }

    /// The last quotation mark of the decoded piece ends the name.
    open spec fn extraction(
        &self,
        tokenizer: TokenizerView,
        token_ids: Seq<u32>,
        buffer: Seq<char>,
        stream: StreamView,
    ) -> Extraction {
        let decoded = tokenizer.decoding(stream, token_ids);
        match decoded.result {
            Err(message) => Extraction { result: Err(message), buffer, stream: decoded.stream },
            Ok(None) => Extraction { result: Ok(None), buffer, stream: decoded.stream },
            Ok(Some(piece)) => {
                let (name, rest) = name_before(buffer, piece, "\""@);
                Extraction { result: Ok(name), buffer: rest, stream: decoded.stream }
            },
        }
    }

    open spec fn arguments_prefix_stripped(&self, buffer: Seq<char>) -> (bool, Seq<char>) {
        behind_last(buffer, "\"arguments\":"@)
    }

    open spec fn fixed(&self, buffer: Seq<char>, first_chunk: bool) -> (Self, Seq<char>) {
        json_scan(*self, buffer)
    }

    open spec fn formatted(
        &self,
        tokenizer: TokenizerView,
        token_ids: Seq<u32>,
        buffer: Seq<char>,
        stream: StreamView,
    ) -> Formatting {
        joined(buffer, tokenizer.decoding(stream, token_ids))
    }

    open spec fn cleared(&self) -> Self {
        EnclosedJsonFormatter { in_string: false, is_escaping: false, bracket_depth: 0 }
    }

    fn build_tool_call_template<T: Tokenizer>(
        &self,
        tool_call_start_token_id: &u32,
        tool_name: Option<&str>,
        tokenizer: &T,
    ) -> (result: Result<Vec<u32>, String>) {
        let mut text = String::from_str("{\"name\":\"");
        if let Some(name) = tool_name {
            text.append(name);
            text.append("\"");
        }
        start_and_encoding(*tool_call_start_token_id, text.as_str(), tokenizer)
    }

    fn try_strip_name_prefix(&self, decoded_buffer: &mut String) -> (result: bool) {
        strip_through(decoded_buffer, "{\"name\": \"")
    }

    fn try_extract_function_name<T: Tokenizer>(
        &self,
        token_ids: &[u32],
        decoded_buffer: &mut String,
        tokenizer: &T,
        stream_ctx: &mut StreamContext,
    ) -> (result: Result<Option<String>, String>) {
        match tokenizer.process_multiple_token_stream(stream_ctx, token_ids) {
            Ok(Some(piece)) => Ok(take_name(decoded_buffer, piece.as_str(), "\"")),
            Ok(None) => Ok(None),
            Err(message) => Err(message),
        }
    }

    fn try_strip_arguments_prefix(&self, decoded_buffer: &mut String) -> (result: bool) {
        strip_through(decoded_buffer, "\"arguments\":")
    }

    fn fix_json(&mut self, decoded_buffer: &mut String, first_chunk: bool) {
        let chars = chars_of(decoded_buffer.as_str());
        let ghost start = *self;
        let mut out: String = String::new();
        let mut i: usize = 0;
        while i < chars.len()
            invariant
                i <= chars@.len(),
                (*self, out@) == json_scan(start, chars@.take(i as int)),
            decreases chars.len() - i,
        {
            let c: char = chars[i];
            assert(chars@.take(i + 1).drop_last() =~= chars@.take(i as int));
            if self.step(c) {
                out.push(c);
            }
            i = i + 1;
        }
        assert(chars@.take(chars@.len() as int) =~= chars@);
        *decoded_buffer = out;
    }

    fn format_args<T: Tokenizer>(
        &mut self,
        token_ids: &[u32],
        decoded_buffer: &mut String,
        tokenizer: &T,
        stream_ctx: &mut StreamContext,
    ) -> (result: Result<(), String>) {
        decode_into(token_ids, decoded_buffer, tokenizer, stream_ctx)
    }

    fn reset(&mut self) {
        self.in_string = false;
        self.is_escaping = false;
        self.bracket_depth = 0;
    }
}

/// A call in the syntax of a script.
#[derive(Debug, Clone, Copy, PartialEq, Eq, Structural)]
pub struct PythonCallFormatter {
    pub in_string: bool,
    pub is_escaping: bool,
    /// How many brackets are open; counted up to the largest machine word.
    pub bracket_depth: usize,
    pub envelope_closed: bool,
}

/// The scanner after a character, and what is written for the character. Inside strings and
/// behind a backslash it is the character itself; outside, an equals sign closes a key, a comma
/// opens the next one, a bracket that closes the call closes the JSON object, and spaces are left
/// out.
pub open spec fn python_step(state: PythonCallFormatter, c: char) -> (
    PythonCallFormatter,
    Seq<char>,
) {
    if state.is_escaping {
        (PythonCallFormatter { is_escaping: false, ..state }, seq![c])
    } else if c == '\\' {
        (PythonCallFormatter { is_escaping: true, ..state }, seq![c])
    } else if c == '"' {
        (PythonCallFormatter { in_string: !state.in_string, ..state }, seq![c])
    } else if state.in_string {
        (state, seq![c])
    } else if c == '(' || c == '[' {
        (
            PythonCallFormatter { bracket_depth: deeper(state.bracket_depth), ..state },
            seq![c],
        )
    } else if c == ')' || c == ']' {
        if state.bracket_depth > 0 {
            (
                PythonCallFormatter { bracket_depth: (state.bracket_depth - 1) as usize, ..state },
                seq![c],
            )
        } else {
            (PythonCallFormatter { envelope_closed: true, ..state }, seq!['}'])
        }
    } else if c == '=' {
        (state, seq!['"', ':', ' '])
    } else if c == ',' {
        (state, seq![',', ' ', '"'])
    } else if c == ' ' {
        (state, seq![])
    } else {
        (state, seq![c])
    }
}

/// The scanner after a text, and what is written for the text. Nothing is written once the call
/// is closed.
pub open spec fn python_scan(state: PythonCallFormatter, text: Seq<char>) -> (
    PythonCallFormatter,
    Seq<char>,
)
    decreases text.len(),
{
    if text.len() == 0 {
        (state, seq![])
    } else {
        let (before, written) = python_scan(state, text.drop_last());
        if before.envelope_closed {
            (before, written)
        } else {
            let (after, piece) = python_step(before, text.last());
            (after, written + piece)
        }
    }
}

proof fn lemma_python_closed(state: PythonCallFormatter, text: Seq<char>, n: int)
    requires
        0 <= n <= text.len(),
        python_scan(state, text.take(n)).0.envelope_closed,
    ensures
        python_scan(state, text) == python_scan(state, text.take(n)),
    decreases text.len() - n,
{
    if n < text.len() {
        assert(text.take(n + 1).drop_last() =~= text.take(n));
        lemma_python_closed(state, text, n + 1);
    } else {
        assert(text.take(n) =~= text);
    }
}

impl PythonCallFormatter {
    pub fn new() -> (result: Result<Self, String>)
        ensures
            result == Ok::<PythonCallFormatter, String>(
                PythonCallFormatter {
                    in_string: false,
                    is_escaping: false,
                    bracket_depth: 0,
                    envelope_closed: false,
                },
            ),
    {
        Ok(
            PythonCallFormatter {
                in_string: false,
                is_escaping: false,
                bracket_depth: 0,
                envelope_closed: false,
            },
        )
    }

    /// Takes the next character and writes what stands for it.
    fn step(&mut self, c: char, out: &mut String)
        ensures
            *final(self) == python_step(*old(self), c).0,
            final(out)@ == old(out)@ + python_step(*old(self), c).1,
    {
        if self.is_escaping {
            self.is_escaping = false;
            out.push(c);
        } else if c == '\\' {
            self.is_escaping = true;
            out.push(c);
        } else if c == '"' {
            self.in_string = !self.in_string;
            out.push(c);
        } else if self.in_string {
            out.push(c);
        } else if c == '(' || c == '[' {
            if self.bracket_depth < usize::MAX {
                self.bracket_depth = self.bracket_depth + 1;
            }
            out.push(c);
        } else if c == ')' || c == ']' {
            if self.bracket_depth > 0 {
                self.bracket_depth = self.bracket_depth - 1;
                out.push(c);
            } else {
                out.push('}');
                self.envelope_closed = true;
            }
        } else if c == '=' {
            out.push('"');
            out.push(':');
            out.push(' ');
        } else if c == ',' {
            out.push(',');
            out.push(' ');
            out.push('"');
        } else if c != ' ' {
            out.push(c);
        }
        assert(out@ =~= old(out)@ + python_step(*old(self), c).1);
    }
}

/// The name and the text left over once a decoded piece has arrived: the last opening bracket of
/// the piece ends the name, provided that there is something of a name before it.
pub open spec fn call_name(buffer: Seq<char>, piece: Seq<char>) -> (
    Option<Seq<char>>,
    Seq<char>,
) {
    match split_at_last(piece, "("@) {
        Some((name, rest)) => if has_alphanumeric(buffer + name) {
            (Some(buffer + name), rest)
        } else {
            (None, buffer + name + rest)
        },
        None => (None, buffer + piece),
    }
}

/// Takes the name off the buffer and a decoded piece, if the piece ends it.
pub fn take_call_name(decoded_buffer: &mut String, piece: &str) -> (result: Option<String>)
    ensures
        ({
            let expected = call_name(old(decoded_buffer)@, piece@);
            &&& crate::text::text_of(result) == expected.0
            &&& final(decoded_buffer)@ == expected.1
        }),
{
    match rsplit_text(piece, "(") {
        Some((name_piece, remainder)) => {
            decoded_buffer.append(name_piece.as_str());
            if any_alphanumeric(decoded_buffer.as_str()) {
                let name = taken(decoded_buffer);
                decoded_buffer.append(remainder.as_str());
                assert(decoded_buffer@ =~= remainder@);
                Some(name)
            } else {
                decoded_buffer.append(remainder.as_str());
                None
            }
        },
        None => {
            decoded_buffer.append(piece);
            None
        },
    }
}

impl ToolArgFormatter for PythonCallFormatter {
    open spec fn template(
        &self,
        tokenizer: TokenizerView,
        start: u32,
        tool_name: Option<Seq<char>>,
    ) -> Result<Seq<u32>, Seq<char>> {
        match tool_name {
            Some(name) => start_and(start, tokenizer.encoding("["@ + name, false)),
            None => Ok(seq![start]),
        }
    }

    open spec fn name_prefix_stripped(&self, buffer: Seq<char>) -> (bool, Seq<char>) {
        (true, buffer)
    }

    open spec fn extraction(
        &self,
        tokenizer: TokenizerView,
        token_ids: Seq<u32>,
        buffer: Seq<char>,
        stream: StreamView,
    ) -> Extraction {
        let decoded = tokenizer.decoding(stream, token_ids);
        match decoded.result {
            Err(message) => Extraction { result: Err(message), buffer, stream: decoded.stream },
            Ok(None) => Extraction { result: Ok(None), buffer, stream: decoded.stream },
            Ok(Some(piece)) => {
                let (name, rest) = call_name(buffer, piece);
                Extraction { result: Ok(name), buffer: rest, stream: decoded.stream }
            },
        }
    }

    /// Everything but name characters is taken out; the arguments begin once something is left.
    open spec fn arguments_prefix_stripped(&self, buffer: Seq<char>) -> (bool, Seq<char>) {
        (name_part(buffer).len() > 0, name_part(buffer))
    }

    open spec fn fixed(&self, buffer: Seq<char>, first_chunk: bool) -> (Self, Seq<char>) {
        if self.envelope_closed {
            (*self, seq![])
        } else {
            let (after, written) = python_scan(*self, buffer);
            (
                after,
                if first_chunk && buffer.len() > 0 {
                    "{\""@ + written
                } else {
                    written
                },
            )
        }
    }

    open spec fn formatted(
        &self,
        tokenizer: TokenizerView,
        token_ids: Seq<u32>,
        buffer: Seq<char>,
        stream: StreamView,
    ) -> Formatting {
        joined(buffer, tokenizer.decoding(stream, token_ids))
    }

    /// That the call is closed is not forgotten.
    open spec fn cleared(&self) -> Self {
        PythonCallFormatter {
            in_string: false,
            is_escaping: false,
            bracket_depth: 0,
            envelope_closed: self.envelope_closed,
        }
    }

    fn build_tool_call_template<T: Tokenizer>(
        &self,
        tool_call_start_token_id: &u32,
        tool_name: Option<&str>,
        tokenizer: &T,
    ) -> (result: Result<Vec<u32>, String>) {
        match tool_name {
            Some(name) => {
                let mut text = String::from_str("[");
                text.append(name);
                start_and_encoding(*tool_call_start_token_id, text.as_str(), tokenizer)
            },
            None => only_start(*tool_call_start_token_id),
        }
    }

    fn try_strip_name_prefix(&self, decoded_buffer: &mut String) -> (result: bool) {
        true
    }

    fn try_extract_function_name<T: Tokenizer>(
        &self,
        token_ids: &[u32],
        decoded_buffer: &mut String,
        tokenizer: &T,
        stream_ctx: &mut StreamContext,
    ) -> (result: Result<Option<String>, String>) {
        match tokenizer.process_multiple_token_stream(stream_ctx, token_ids) {
            Ok(Some(piece)) => Ok(take_call_name(decoded_buffer, piece.as_str())),
            Ok(None) => Ok(None),
            Err(message) => Err(message),
        }
    }

    fn try_strip_arguments_prefix(&self, decoded_buffer: &mut String) -> (result: bool) {
        *decoded_buffer = keep_name_chars(decoded_buffer.as_str());
        !decoded_buffer.as_str().is_empty()
    }

    fn fix_json(&mut self, decoded_buffer: &mut String, first_chunk: bool) {
        if self.envelope_closed {
            *decoded_buffer = String::new();
            return ;
        }
        let chars = chars_of(decoded_buffer.as_str());
        let ghost start = *self;
        let mut out: String = String::new();
        let mut i: usize = 0;
        while i < chars.len() && !self.envelope_closed
            invariant
                i <= chars@.len(),
                (*self, out@) == python_scan(start, chars@.take(i as int)),
            decreases chars.len() - i,
        {
            let c: char = chars[i];
            assert(chars@.take(i + 1).drop_last() =~= chars@.take(i as int));
            self.step(c, &mut out);
            i = i + 1;
        }
        proof {
            if self.envelope_closed {
                lemma_python_closed(start, chars@, i as int);
            } else {
                assert(chars@.take(chars@.len() as int) =~= chars@);
            }
        }
        if first_chunk && chars.len() > 0 {
            let mut text = String::from_str("{\"");
            text.append(out.as_str());
            *decoded_buffer = text;
        } else {
            *decoded_buffer = out;
        }
    }

    fn format_args<T: Tokenizer>(
        &mut self,
        token_ids: &[u32],
        decoded_buffer: &mut String,
        tokenizer: &T,
        stream_ctx: &mut StreamContext,
    ) -> (result: Result<(), String>) {
        decode_into(token_ids, decoded_buffer, tokenizer, stream_ctx)
    }

    fn reset(&mut self) {
        self.in_string = false;
        self.is_escaping = false;
        self.bracket_depth = 0;
    }
}

impl ToolArgFormatter for ToolFormatter {
    open spec fn template(
        &self,
        tokenizer: TokenizerView,
        start: u32,
        tool_name: Option<Seq<char>>,
    ) -> Result<Seq<u32>, Seq<char>> {
        match self {
            ToolFormatter::Xml(f) => f.template(tokenizer, start, tool_name),
            ToolFormatter::Json(f) => f.template(tokenizer, start, tool_name),
            ToolFormatter::Python(f) => f.template(tokenizer, start, tool_name),
        }
    }

    open spec fn name_prefix_stripped(&self, buffer: Seq<char>) -> (bool, Seq<char>) {
        match self {
            ToolFormatter::Xml(f) => f.name_prefix_stripped(buffer),
            ToolFormatter::Json(f) => f.name_prefix_stripped(buffer),
            ToolFormatter::Python(f) => f.name_prefix_stripped(buffer),
        }
    }

    open spec fn extraction(
        &self,
        tokenizer: TokenizerView,
        token_ids: Seq<u32>,
        buffer: Seq<char>,
        stream: StreamView,
    ) -> Extraction {
        match self {
            ToolFormatter::Xml(f) => f.extraction(tokenizer, token_ids, buffer, stream),
            ToolFormatter::Json(f) => f.extraction(tokenizer, token_ids, buffer, stream),
            ToolFormatter::Python(f) => f.extraction(tokenizer, token_ids, buffer, stream),
        }
    }

    open spec fn arguments_prefix_stripped(&self, buffer: Seq<char>) -> (bool, Seq<char>) {
        match self {
            ToolFormatter::Xml(f) => f.arguments_prefix_stripped(buffer),
            ToolFormatter::Json(f) => f.arguments_prefix_stripped(buffer),
            ToolFormatter::Python(f) => f.arguments_prefix_stripped(buffer),
        }
    }

    open spec fn fixed(&self, buffer: Seq<char>, first_chunk: bool) -> (Self, Seq<char>) {
        match self {
            ToolFormatter::Xml(f) => {
                let (after, text) = f.fixed(buffer, first_chunk);
                (ToolFormatter::Xml(after), text)
            },
            ToolFormatter::Json(f) => {
                let (after, text) = f.fixed(buffer, first_chunk);
                (ToolFormatter::Json(after), text)
            },
            ToolFormatter::Python(f) => {
                let (after, text) = f.fixed(buffer, first_chunk);
                (ToolFormatter::Python(after), text)
            },
        }
    }

    open spec fn formatted(
        &self,
        tokenizer: TokenizerView,
        token_ids: Seq<u32>,
        buffer: Seq<char>,
        stream: StreamView,
    ) -> Formatting {
        match self {
            ToolFormatter::Xml(f) => f.formatted(tokenizer, token_ids, buffer, stream),
            ToolFormatter::Json(f) => f.formatted(tokenizer, token_ids, buffer, stream),
            ToolFormatter::Python(f) => f.formatted(tokenizer, token_ids, buffer, stream),
        }
    }

    open spec fn cleared(&self) -> Self {
        match self {
            ToolFormatter::Xml(f) => ToolFormatter::Xml(f.cleared()),
            ToolFormatter::Json(f) => ToolFormatter::Json(f.cleared()),
            ToolFormatter::Python(f) => ToolFormatter::Python(f.cleared()),
        }
    }

    fn build_tool_call_template<T: Tokenizer>(
        &self,
        tool_call_start_token_id: &u32,
        tool_name: Option<&str>,
        tokenizer: &T,
    ) -> (result: Result<Vec<u32>, String>) {
        match self {
            ToolFormatter::Xml(f) => f.build_tool_call_template(
                tool_call_start_token_id,
                tool_name,
                tokenizer,
            ),
            ToolFormatter::Json(f) => f.build_tool_call_template(
                tool_call_start_token_id,
                tool_name,
                tokenizer,
            ),
            ToolFormatter::Python(f) => f.build_tool_call_template(
                tool_call_start_token_id,
                tool_name,
                tokenizer,
            ),
        }
    }

    fn try_strip_name_prefix(&self, decoded_buffer: &mut String) -> (result: bool) {
        match self {
            ToolFormatter::Xml(f) => f.try_strip_name_prefix(decoded_buffer),
            ToolFormatter::Json(f) => f.try_strip_name_prefix(decoded_buffer),
            ToolFormatter::Python(f) => f.try_strip_name_prefix(decoded_buffer),
        }
    }

    fn try_extract_function_name<T: Tokenizer>(
        &self,
        token_ids: &[u32],
        decoded_buffer: &mut String,
        tokenizer: &T,
        stream_ctx: &mut StreamContext,
    ) -> (result: Result<Option<String>, String>) {
        match self {
            ToolFormatter::Xml(f) => f.try_extract_function_name(
                token_ids,
                decoded_buffer,
                tokenizer,
                stream_ctx,
            ),
            ToolFormatter::Json(f) => f.try_extract_function_name(
                token_ids,
                decoded_buffer,
                tokenizer,
                stream_ctx,
            ),
            ToolFormatter::Python(f) => f.try_extract_function_name(
                token_ids,
                decoded_buffer,
                tokenizer,
                stream_ctx,
            ),
        }
    }

    fn try_strip_arguments_prefix(&self, decoded_buffer: &mut String) -> (result: bool) {
        match self {
            ToolFormatter::Xml(f) => f.try_strip_arguments_prefix(decoded_buffer),
            ToolFormatter::Json(f) => f.try_strip_arguments_prefix(decoded_buffer),
            ToolFormatter::Python(f) => f.try_strip_arguments_prefix(decoded_buffer),
        }
    }

    fn fix_json(&mut self, decoded_buffer: &mut String, first_chunk: bool) {
        match self {
            ToolFormatter::Xml(f) => f.fix_json(decoded_buffer, first_chunk),
            ToolFormatter::Json(f) => f.fix_json(decoded_buffer, first_chunk),
            ToolFormatter::Python(f) => f.fix_json(decoded_buffer, first_chunk),
        }
    }

    fn format_args<T: Tokenizer>(
        &mut self,
        token_ids: &[u32],
        decoded_buffer: &mut String,
        tokenizer: &T,
        stream_ctx: &mut StreamContext,
    ) -> (result: Result<(), String>) {
        match self {
            ToolFormatter::Xml(f) => f.format_args(
                token_ids,
                decoded_buffer,
                tokenizer,
                stream_ctx,
            ),
            ToolFormatter::Json(f) => f.format_args(
                token_ids,
                decoded_buffer,
                tokenizer,
                stream_ctx,
            ),
            ToolFormatter::Python(f) => f.format_args(
                token_ids,
                decoded_buffer,
                tokenizer,
                stream_ctx,
            ),
        }
    }

    fn reset(&mut self) {
        match self {
            ToolFormatter::Xml(f) => f.reset(),
            ToolFormatter::Json(f) => f.reset(),
            ToolFormatter::Python(f) => f.reset(),
        }
    }
}

/// A JSON text is repaired alike whether it arrives in one piece or in two.
pub proof fn law_json_pieces(state: EnclosedJsonFormatter, first: Seq<char>, second: Seq<char>)
    ensures
        ({
            let (middle, kept_first) = json_scan(state, first);
            let (after, kept_second) = json_scan(middle, second);
            json_scan(state, first + second) == (after, kept_first + kept_second)
        }),
    decreases second.len(),
{
    let (middle, kept_first) = json_scan(state, first);
    if second.len() == 0 {
        assert(first + second =~= first);
        assert(kept_first + Seq::<char>::empty() =~= kept_first);
    } else {
        law_json_pieces(state, first, second.drop_last());
        assert((first + second).drop_last() =~= first + second.drop_last());
        let (before, kept) = json_scan(middle, second.drop_last());
        assert((kept_first + kept).push(second.last()) =~= kept_first + kept.push(second.last()));
    }
}

/// What is kept of a JSON text is never longer than the text.
pub proof fn law_json_only_drops(state: EnclosedJsonFormatter, text: Seq<char>)
    ensures
        json_scan(state, text).1.len() <= text.len(),
    decreases text.len(),
{
    if text.len() > 0 {
        law_json_only_drops(state, text.drop_last());
    }
}

/// Repairing a repaired JSON text changes nothing more and leads to the same place.
pub proof fn law_json_repair_is_stable(state: EnclosedJsonFormatter, text: Seq<char>)
    ensures
        json_scan(state, json_scan(state, text).1) == json_scan(state, text),
    decreases text.len(),
{
    if text.len() > 0 {
        law_json_repair_is_stable(state, text.drop_last());
        let (before, kept) = json_scan(state, text.drop_last());
        let (after, keep) = json_step(before, text.last());
        if keep {
            assert(kept.push(text.last()).drop_last() =~= kept);
        }
    }
}

/// A script call is rewritten alike whether it arrives in one piece or in two.
pub proof fn law_python_pieces(state: PythonCallFormatter, first: Seq<char>, second: Seq<char>)
    requires
        !state.envelope_closed,
    ensures
        ({
            let (middle, written_first) = python_scan(state, first);
            let (after, written_second) = if middle.envelope_closed {
                (middle, seq![])
            } else {
                python_scan(middle, second)
            };
            python_scan(state, first + second) == (after, written_first + written_second)
        }),
    decreases second.len(),
{
    let (middle, written_first) = python_scan(state, first);
    if middle.envelope_closed {
        assert((first + second).take(first.len() as int) =~= first);
        lemma_python_closed(state, first + second, first.len() as int);
        assert(written_first + Seq::<char>::empty() =~= written_first);
    } else if second.len() == 0 {
        assert(first + second =~= first);
        assert(written_first + Seq::<char>::empty() =~= written_first);
    } else {
        law_python_pieces(state, first, second.drop_last());
        assert((first + second).drop_last() =~= first + second.drop_last());
        let (before, written) = python_scan(middle, second.drop_last());
        if !before.envelope_closed {
            let piece = python_step(before, second.last()).1;
            assert((written_first + written) + piece =~= written_first + (written + piece));
        }
    }
}

} // verus!
