//! What a listener at a terminal sees.
use vstd::prelude::*;
use vstd::string::*;

use crate::inference::types::{GenerationDataType, StreamFrame};

verus! {

/// How a piece of output is to look.
#[derive(Debug, Clone, Copy, PartialEq, Eq, Structural)]
pub enum OutputStyle {
    Plain,
    Content,
    ToolName,
    ToolArguments,
    Reasoning,
}

/// A piece of output with its look. A heading goes before the name of a tool.
#[derive(Debug, Clone, PartialEq)]
pub struct RenderedFrame {
    pub heading: bool,
    pub text: String,
    pub style: OutputStyle,
}

/// The mathematical model of a piece of output with its look.
pub struct RenderedView {
    pub heading: bool,
    pub text: Seq<char>,
    pub style: OutputStyle,
}

/// What is shown of a frame.
pub open spec fn shown(frame: StreamFrame) -> RenderedView {
    let nothing = RenderedView { heading: false, text: seq![], style: OutputStyle::Plain };
    match frame.output_type {
        GenerationDataType::DirectContent => RenderedView {
            heading: false,
            text: frame.output@,
            style: OutputStyle::Content,
        },
        GenerationDataType::ToolCallName => match frame.tool_call_chunk {
            Some(chunk) => match chunk.function.name {
                Some(name) => RenderedView {
                    heading: true,
                    text: name@ + ": "@,
                    style: OutputStyle::ToolName,
                },
                None => nothing,
            },
            None => nothing,
        },
        GenerationDataType::ToolCallArguments => match frame.tool_call_chunk {
            Some(chunk) => RenderedView {
                heading: false,
                text: chunk.function.arguments@,
                style: OutputStyle::ToolArguments,
            },
            None => nothing,
        },
        GenerationDataType::Reasoning => RenderedView {
            heading: false,
            text: frame.output@,
            style: OutputStyle::Reasoning,
        },
    }
}

fn nothing() -> (result: RenderedFrame)
    ensures
        !result.heading,
        result.text@ == Seq::<char>::empty(),
        result.style == OutputStyle::Plain,
{
    RenderedFrame { heading: false, text: String::new(), style: OutputStyle::Plain }
}

/// Says what is shown of a frame.
pub fn render_frame(frame: StreamFrame) -> (result: RenderedFrame)
    ensures
        (RenderedView { heading: result.heading, text: result.text@, style: result.style })
            == shown(frame),
{
    match frame.output_type {
        GenerationDataType::DirectContent => RenderedFrame {
            heading: false,
            text: frame.output,
            style: OutputStyle::Content,
        },
        GenerationDataType::ToolCallName => match frame.tool_call_chunk {
            Some(chunk) => match chunk.function.name {
                Some(name) => {
                    let mut text = name;
                    text.append(": ");
                    RenderedFrame { heading: true, text, style: OutputStyle::ToolName }
                },
                None => nothing(),
            },
            None => nothing(),
        },
        GenerationDataType::ToolCallArguments => match frame.tool_call_chunk {
            Some(chunk) => RenderedFrame {
                heading: false,
                text: chunk.function.arguments,
                style: OutputStyle::ToolArguments,
            },
            None => nothing(),
        },
        GenerationDataType::Reasoning => RenderedFrame {
            heading: false,
            text: frame.output,
            style: OutputStyle::Reasoning,
        },
    }
}

/// What a user sees of a frame: the text of the answer and of the reasoning as it is, the name of a
/// tool under a heading, and the pieces of its arguments as they are; each with its own look.
pub proof fn law_frames_are_shown(frame: StreamFrame)
    ensures
        frame.output_type is DirectContent ==> shown(frame).text == frame.output@ && shown(
            frame,
        ).style == OutputStyle::Content,
        frame.output_type is Reasoning ==> shown(frame).text == frame.output@ && shown(frame).style
            == OutputStyle::Reasoning,
        frame.output_type is ToolCallArguments ==> (frame.tool_call_chunk matches Some(chunk)
            ==> shown(frame).text == chunk.function.arguments@ && shown(frame).style
            == OutputStyle::ToolArguments),
        frame.output_type is ToolCallName ==> (frame.tool_call_chunk matches Some(chunk) ==> (
        chunk.function.name matches Some(name) ==> shown(frame).text == name@ + ": "@ && shown(
            frame,
        ).style == OutputStyle::ToolName)),
        shown(frame).heading <==> frame.output_type is ToolCallName && (frame.tool_call_chunk matches Some(
            chunk,
        ) && chunk.function.name is Some),
{
}

} // verus!
