//! Language adapters: from a concrete syntax tree to the IR.
use crate::diagnostics::{DiagV, RawDiagnostics};
use crate::error::{PseudoError, PseudoErrorV};
use crate::ir::{Module, ModuleV};
use crate::SourceLang;
use vstd::prelude::*;

pub mod common;
pub mod cpp;
pub mod go;
pub mod java;
pub mod python;

pub use cpp::CppParser;
pub use go::GoParser;
pub use java::JavaParser;
pub use python::PythonParser;

verus! {

/// A source-language adapter.
pub trait LanguageParser {
    fn language(&self) -> SourceLang;

    /// Parses a source text into a module, with the raw-fallback
    /// diagnostics collected on the way.
    fn parse(&self, source: &str) -> core::result::Result<(Module, RawDiagnostics), PseudoError>;
}

/// The view of a parse result.
pub open spec fn parse_view(r: core::result::Result<(Module, RawDiagnostics), PseudoError>) -> core::result::Result<(ModuleV, DiagV), PseudoErrorV> {
    match r {
        Ok((m, d)) => Ok((m@, d@)),
        Err(e) => Err(e@),
    }
}

/// What parsing a source text in the given language gives.
pub open spec fn source_parse(lang: SourceLang, source: Seq<char>) -> core::result::Result<(ModuleV, DiagV), PseudoErrorV> {
    match lang {
        SourceLang::Python => python::python_parse(source),
        SourceLang::Java => java::java_parse(source),
        SourceLang::Cpp => cpp::cpp_parse(source),
        SourceLang::Go => go::go_parse(source),
    }
}

/// Whatever the language, a successful parse reports every raw fragment it
/// kept: the diagnostics count exactly the raw items and raw statements of
/// the module, and at least its raw expressions, each up to the largest
/// machine integer; and while no count has reached that bound, one line was
/// recorded for each count.
pub proof fn lemma_parse_reports_raw(lang: SourceLang, source: Seq<char>)
    ensures
        source_parse(lang, source) matches Ok((m, d)) ==> common::raw_counted(m.items, d),
{
    match lang {
        SourceLang::Python => match crate::syntax::python_tree(source) {
            crate::syntax::TreeOutcome::Parsed(root) => python::lemma_python_diagnostics_count_raw(root),
            _ => {},
        },
        SourceLang::Java => match crate::syntax::java_tree(source) {
            crate::syntax::TreeOutcome::Parsed(root) => java::lemma_java_diagnostics_count_raw(root),
            _ => {},
        },
        SourceLang::Cpp => match crate::syntax::cpp_tree(source) {
            crate::syntax::TreeOutcome::Parsed(root) => cpp::lemma_cpp_diagnostics_count_raw(root),
            _ => {},
        },
        SourceLang::Go => match crate::syntax::go_tree(source) {
            crate::syntax::TreeOutcome::Parsed(root) => go::lemma_go_diagnostics_count_raw(root),
            _ => {},
        },
    }
}

/// Parses a source text with the adapter of its language.
pub fn parse_source(lang: SourceLang, source: &str) -> (r: core::result::Result<(Module, RawDiagnostics), PseudoError>)
    ensures
        parse_view(r) == source_parse(lang, source@),
{
    match lang {
        SourceLang::Python => PythonParser::new().parse(source),
        SourceLang::Java => JavaParser::new().parse(source),
        SourceLang::Cpp => CppParser::new().parse(source),
        SourceLang::Go => GoParser::new().parse(source),
    }
}

} // verus!
