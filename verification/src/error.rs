//! The library's error type.
use vstd::prelude::*;
use vstd::string::*;

use crate::text::{push_dec, push_dec_int};

verus! {

/// What went wrong. Errors of the operating system and of the text decoder are kept as the text
/// that they are reported with.
#[allow(inconsistent_fields)]
#[derive(Debug)]
pub enum LociError {
    ModelLoad(String),
    TokenizerBuild { reason: String },
    Tokenization { source: String },
    InvalidFileFormat(String),
    Config(String),
    InvalidFileMetadata { file_type: String, field: String, offset: u64, source: Box<LociError> },
    Io(String),
    IoWithContext { context: &'static str, source: String },
    UnknownGgufType(i32),
    InvalidUtf8 { offset: u64, source: String },
    Cache(String),
    CacheLoad(String),
    Inference(String),
    Stream(String),
}

/// The mathematical model of an error.
#[allow(inconsistent_fields)]
pub enum ErrorView {
    ModelLoad(Seq<char>),
    TokenizerBuild { reason: Seq<char> },
    Tokenization { source: Seq<char> },
    InvalidFileFormat(Seq<char>),
    Config(Seq<char>),
    InvalidFileMetadata {
        file_type: Seq<char>,
        field: Seq<char>,
        offset: u64,
        source: Box<ErrorView>,
    },
    Io(Seq<char>),
    IoWithContext { context: Seq<char>, source: Seq<char> },
    UnknownGgufType(i32),
    InvalidUtf8 { offset: u64, source: Seq<char> },
    Cache(Seq<char>),
    CacheLoad(Seq<char>),
    Inference(Seq<char>),
    Stream(Seq<char>),
}

impl View for LociError {
    type V = ErrorView;

    open spec fn view(&self) -> ErrorView {
        self.model()
    }
}

impl LociError {
    /// The mathematical model of this error.
    pub open spec fn model(&self) -> ErrorView
        decreases self,
    {
        match self {
            LociError::ModelLoad(m) => ErrorView::ModelLoad(m@),
            LociError::TokenizerBuild { reason } => ErrorView::TokenizerBuild { reason: reason@ },
            LociError::Tokenization { source } => ErrorView::Tokenization { source: source@ },
            LociError::InvalidFileFormat(m) => ErrorView::InvalidFileFormat(m@),
            LociError::Config(m) => ErrorView::Config(m@),
            LociError::InvalidFileMetadata { file_type, field, offset, source } => {
                ErrorView::InvalidFileMetadata {
                    file_type: file_type@,
                    field: field@,
                    offset: *offset,
                    source: Box::new(source.model()),
                }
            },
            LociError::Io(m) => ErrorView::Io(m@),
            LociError::IoWithContext { context, source } => ErrorView::IoWithContext {
                context: context@,
                source: source@,
            },
            LociError::UnknownGgufType(n) => ErrorView::UnknownGgufType(*n),
            LociError::InvalidUtf8 { offset, source } => ErrorView::InvalidUtf8 {
                offset: *offset,
                source: source@,
            },
            LociError::Cache(m) => ErrorView::Cache(m@),
            LociError::CacheLoad(m) => ErrorView::CacheLoad(m@),
            LociError::Inference(m) => ErrorView::Inference(m@),
            LociError::Stream(m) => ErrorView::Stream(m@),
        }
    }
}

/// The text of an error report.
pub open spec fn error_text(error: ErrorView) -> Seq<char> {
    match error {
        ErrorView::ModelLoad(m) => "Failed to load model: "@ + m,
        ErrorView::TokenizerBuild { reason } => "Tokenizer build error: "@ + reason,
        ErrorView::Tokenization { source } => "Tokenization failed: "@ + source,
        ErrorView::InvalidFileFormat(m) => "Invalid file format: "@ + m,
        ErrorView::Config(m) => "Configuration error: "@ + m,
        ErrorView::InvalidFileMetadata { file_type, field, offset, source } => "Invalid "@
            + file_type + " metadata for field '"@ + field + "' at offset "@ + crate::text::dec(
            offset as nat,
        ),
        ErrorView::Io(m) => "IO error: "@ + m,
        ErrorView::IoWithContext { context, source } => "IO error at "@ + context + ": "@ + source,
        ErrorView::UnknownGgufType(n) => "Unknown GGUF type ID: "@ + crate::text::dec_int(n as int),
        ErrorView::InvalidUtf8 { offset, source } => "Invalid string encoding at offset "@
            + crate::text::dec(offset as nat) + ": "@ + source,
        ErrorView::Cache(m) => "Cache error: "@ + m,
        ErrorView::CacheLoad(m) => "Cache load error: "@ + m,
        ErrorView::Inference(m) => "Inference error: "@ + m,
        ErrorView::Stream(m) => "Stream error: "@ + m,
    }
}

fn joined(head: &str, tail: &str) -> (result: String)
    ensures
        result@ == head@ + tail@,
{
    let mut out = String::from_str(head);
    out.append(tail);
    out
}

impl LociError {
    /// Says where in a file the error happened.
    pub fn with_meta_ctx(self, file_type: &str, field: &str, offset: u64) -> (result: Self)
        ensures
            result@ == (ErrorView::InvalidFileMetadata {
                file_type: file_type@,
                field: field@,
                offset,
                source: Box::new(self@),
            }),
    {
        LociError::InvalidFileMetadata {
            file_type: String::from_str(file_type),
            field: String::from_str(field),
            offset,
            source: Box::new(self),
        }
    }

    /// The text that the error is reported with.
    pub fn message(&self) -> (result: String)
        ensures
            result@ == error_text(self@),
    {
        match self {
            LociError::ModelLoad(m) => joined("Failed to load model: ", m.as_str()),
            LociError::TokenizerBuild { reason } => joined(
                "Tokenizer build error: ",
                reason.as_str(),
            ),
            LociError::Tokenization { source } => joined("Tokenization failed: ", source.as_str()),
            LociError::InvalidFileFormat(m) => joined("Invalid file format: ", m.as_str()),
            LociError::Config(m) => joined("Configuration error: ", m.as_str()),
            LociError::InvalidFileMetadata { file_type, field, offset, source: _ } => {
                let mut out = joined("Invalid ", file_type.as_str());
                out.append(" metadata for field '");
                out.append(field.as_str());
                out.append("' at offset ");
                push_dec(&mut out, *offset);
                out
            },
            LociError::Io(m) => joined("IO error: ", m.as_str()),
            LociError::IoWithContext { context, source } => {
                let mut out = joined("IO error at ", context);
                out.append(": ");
                out.append(source.as_str());
                out
            },
            LociError::UnknownGgufType(n) => {
                let mut out = String::from_str("Unknown GGUF type ID: ");
                push_dec_int(&mut out, *n as i64);
                out
            },
            LociError::InvalidUtf8 { offset, source } => {
                let mut out = String::from_str("Invalid string encoding at offset ");
                push_dec(&mut out, *offset);
                out.append(": ");
                out.append(source.as_str());
                out
            },
            LociError::Cache(m) => joined("Cache error: ", m.as_str()),
            LociError::CacheLoad(m) => joined("Cache load error: ", m.as_str()),
            LociError::Inference(m) => joined("Inference error: ", m.as_str()),
            LociError::Stream(m) => joined("Stream error: ", m.as_str()),
        }
    }
}

/// Gives a failed read or write the place where it happened.
pub trait LociContext<T>: Sized {
    /// The value that is there if nothing failed.
    spec fn outcome(self) -> Result<T, Seq<char>>;

    fn io_ctx(self, ctx: &'static str) -> (result: Result<T, LociError>)
        ensures
            match self.outcome() {
                Ok(value) => result == Ok::<T, LociError>(value),
                Err(text) => result is Err && result->Err_0@ == (ErrorView::IoWithContext {
                    context: ctx@,
                    source: text,
                }),
            },
    ;
}

/// A result whose error is the text of the failed operation.
impl<T> LociContext<T> for Result<T, String> {
    open spec fn outcome(self) -> Result<T, Seq<char>> {
        match self {
            Ok(value) => Ok(value),
            Err(text) => Err(text@),
        }
    }

    fn io_ctx(self, ctx: &'static str) -> (result: Result<T, LociError>) {
        match self {
            Ok(value) => Ok(value),
            Err(source) => Err(LociError::IoWithContext { context: ctx, source }),
        }
    }
}

/// What each error is reported as: what failed, and the reason.
pub proof fn law_error_texts(
    reason: Seq<char>,
    context: Seq<char>,
    offset: u64,
    code: i32,
    source: ErrorView,
)
    ensures
        error_text(ErrorView::ModelLoad(reason)) == "Failed to load model: "@ + reason,
        error_text(ErrorView::TokenizerBuild { reason }) == "Tokenizer build error: "@ + reason,
        error_text(ErrorView::Tokenization { source: reason }) == "Tokenization failed: "@ + reason,
        error_text(ErrorView::InvalidFileFormat(reason)) == "Invalid file format: "@ + reason,
        error_text(ErrorView::Config(reason)) == "Configuration error: "@ + reason,
        error_text(ErrorView::Io(reason)) == "IO error: "@ + reason,
        error_text(ErrorView::IoWithContext { context, source: reason }) == "IO error at "@ + context
            + ": "@ + reason,
        error_text(ErrorView::UnknownGgufType(code)) == "Unknown GGUF type ID: "@
            + crate::text::dec_int(code as int),
        error_text(ErrorView::InvalidUtf8 { offset, source: reason })
            == "Invalid string encoding at offset "@ + crate::text::dec(offset as nat) + ": "@
            + reason,
        error_text(
            ErrorView::InvalidFileMetadata {
                file_type: context,
                field: reason,
                offset,
                source: Box::new(source),
            },
        ) == "Invalid "@ + context + " metadata for field '"@ + reason + "' at offset "@
            + crate::text::dec(offset as nat),
        error_text(ErrorView::Cache(reason)) == "Cache error: "@ + reason,
        error_text(ErrorView::CacheLoad(reason)) == "Cache load error: "@ + reason,
        error_text(ErrorView::Inference(reason)) == "Inference error: "@ + reason,
        error_text(ErrorView::Stream(reason)) == "Stream error: "@ + reason,
{
}

} // verus!
