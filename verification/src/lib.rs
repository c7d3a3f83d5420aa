//! Turn real source code into language-neutral pseudocode and
//! natural-language explanations.
use crate::text::{ascii_lower_text, lower_eq};
use vstd::prelude::*;

pub mod cli;
pub mod diagnostics;
pub mod error;
pub mod ir;
pub mod text;
pub mod parser;
pub mod renderer;
pub mod syntax;

pub use error::{PseudoError, Result};

verus! {

/// Source language tag carried by every parsed module.
#[derive(Debug, Clone, Copy, PartialEq, Eq, Hash)]
pub enum SourceLang {
    Python,
    Java,
    Cpp,
    Go,
}

/// The source language a file extension (without the dot) stands for,
/// ignoring ASCII case.
pub open spec fn extension_lang(ext: Seq<char>) -> Option<SourceLang> {
    let e = ascii_lower_text(ext);
    if e == "py"@ {
        Some(SourceLang::Python)
    } else if e == "java"@ {
        Some(SourceLang::Java)
    } else if e == "cpp"@ || e == "cc"@ || e == "cxx"@ || e == "hpp"@ || e == "h"@ {
        Some(SourceLang::Cpp)
    } else if e == "go"@ {
        Some(SourceLang::Go)
    } else {
        None
    }
}

/// Guessing the language from an extension ignores ASCII case.
pub proof fn lemma_extension_case_insensitive(ext: Seq<char>)
    ensures
        extension_lang(ext) == extension_lang(ascii_lower_text(ext)),
{
    assert(ascii_lower_text(ascii_lower_text(ext)) =~= ascii_lower_text(ext));
}

/// The lower-case name of a source language.
pub open spec fn lang_name(lang: SourceLang) -> Seq<char> {
    match lang {
        SourceLang::Python => "python"@,
        SourceLang::Java => "java"@,
        SourceLang::Cpp => "cpp"@,
        SourceLang::Go => "go"@,
    }
}

impl SourceLang {
    /// Guess source language from a file extension (without the dot).
    pub fn from_extension(ext: &str) -> (r: Option<Self>)
        ensures
            r == extension_lang(ext@),
    {
        if lower_eq(ext, "py") {
            Some(SourceLang::Python)
        } else if lower_eq(ext, "java") {
            Some(SourceLang::Java)
        } else if lower_eq(ext, "cpp") || lower_eq(ext, "cc") || lower_eq(ext, "cxx") || lower_eq(
            ext,
            "hpp",
        ) || lower_eq(ext, "h") {
            Some(SourceLang::Cpp)
        } else if lower_eq(ext, "go") {
            Some(SourceLang::Go)
        } else {
            None
        }
    }

    pub fn as_str(self) -> (s: &'static str)
        ensures
            s@ == lang_name(self),
    {
        match self {
            SourceLang::Python => "python",
            SourceLang::Java => "java",
            SourceLang::Cpp => "cpp",
            SourceLang::Go => "go",
        }
    }
}

/// Natural language for explanation output.
#[derive(Debug, Clone, Copy, PartialEq, Eq, Hash)]
pub enum NaturalLang {
    Zh,
    En,
}

} // verus!
