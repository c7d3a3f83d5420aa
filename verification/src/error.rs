//! The error type of the whole pipeline.
use vstd::prelude::*;

verus! {

/// Top-level error type for the algosketch pipeline.
#[derive(Debug, PartialEq, Eq)]
pub enum PseudoError {
    UnsupportedLanguage(String),
    UnknownLanguage,
    /// An input/output failure, with the underlying error's message.
    Io(String),
    Parse { file: String, message: String },
    Internal(String),
    /// A usage error, such as flags that contradict each other.
    Usage(String),
}

pub enum PseudoErrorV {
    UnsupportedLanguage(Seq<char>),
    UnknownLanguage,
    Io(Seq<char>),
    Parse { file: Seq<char>, message: Seq<char> },
    Internal(Seq<char>),
    Usage(Seq<char>),
}

impl View for PseudoError {
    type V = PseudoErrorV;

    open spec fn view(&self) -> PseudoErrorV {
        match self {
            PseudoError::UnsupportedLanguage(s) => PseudoErrorV::UnsupportedLanguage(s@),
            PseudoError::UnknownLanguage => PseudoErrorV::UnknownLanguage,
            PseudoError::Io(s) => PseudoErrorV::Io(s@),
            PseudoError::Parse { file, message } => PseudoErrorV::Parse {
                file: file@,
                message: message@,
            },
            PseudoError::Internal(s) => PseudoErrorV::Internal(s@),
            PseudoError::Usage(s) => PseudoErrorV::Usage(s@),
        }
    }
}

pub type Result<T> = core::result::Result<T, PseudoError>;

/// The process exit status that reports an error: user errors (unknown or
/// unsupported language, bad flags, unreadable input) give 1, parse errors 2,
/// internal errors 3.
pub open spec fn exit_code(e: PseudoErrorV) -> u8 {
    match e {
        PseudoErrorV::Parse { .. } => 2,
        PseudoErrorV::Internal(_) => 3,
        _ => 1,
    }
}

/// The message an error is reported with.
pub open spec fn error_message(e: PseudoErrorV) -> Seq<char> {
    match e {
        PseudoErrorV::UnsupportedLanguage(s) => "unsupported language: "@ + s,
        PseudoErrorV::UnknownLanguage => "cannot infer source language; pass --source-lang"@,
        PseudoErrorV::Io(s) => "io error: "@ + s,
        PseudoErrorV::Parse { file, message } => "parse error in "@ + file + ": "@ + message,
        PseudoErrorV::Internal(s) => "internal error: "@ + s,
        PseudoErrorV::Usage(s) => "invalid options: "@ + s,
    }
}

/// The process exit status for an error.
pub fn exit_code_for(e: &PseudoError) -> (code: u8)
    ensures
        code == exit_code(e@),
{
    match e {
        PseudoError::UnsupportedLanguage(_) | PseudoError::UnknownLanguage | PseudoError::Usage(
            _,
        ) => 1,
        PseudoError::Io(_) => 1,
        PseudoError::Parse { .. } => 2,
        PseudoError::Internal(_) => 3,
    }
}

impl PseudoError {
    /// The human-readable message of the error.
    pub fn message(&self) -> (s: String)
        ensures
            s@ == error_message(self@),
    {
        match self {
            PseudoError::UnsupportedLanguage(s) => {
                let mut m = String::from_str("unsupported language: ");
                m.append(s.as_str());
                m
            },
            PseudoError::UnknownLanguage => String::from_str(
                "cannot infer source language; pass --source-lang",
            ),
            PseudoError::Io(s) => {
                let mut m = String::from_str("io error: ");
                m.append(s.as_str());
                m
            },
            PseudoError::Parse { file, message } => {
                let mut m = String::from_str("parse error in ");
                m.append(file.as_str());
                m.append(": ");
                m.append(message.as_str());
                m
            },
            PseudoError::Internal(s) => {
                let mut m = String::from_str("internal error: ");
                m.append(s.as_str());
                m
            },
            PseudoError::Usage(s) => {
                let mut m = String::from_str("invalid options: ");
                m.append(s.as_str());
                m
            },
        }
    }
}

} // verus!
