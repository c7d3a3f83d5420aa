use algosketch::cli::{
    detect_locale, format_raw_warning, lang_for_extension, render_output, resolve_natural_lang,
    resolve_source_lang, select_outputs, LocaleEnv, NaturalLangArg, OutFormat, OutputOptions,
};
use algosketch::diagnostics::RawDiagnostics;
use algosketch::error::{exit_code_for, PseudoError};
use algosketch::parser::{parse_source, LanguageParser, PythonParser};
use algosketch::{NaturalLang, SourceLang};

fn no_locale() -> LocaleEnv {
    LocaleEnv { algosketch_lang: None, lc_all: None, lc_messages: None, lang: None }
}

fn env_with(
    algosketch_lang: Option<&str>,
    lc_all: Option<&str>,
    lc_messages: Option<&str>,
    lang: Option<&str>,
) -> LocaleEnv {
    LocaleEnv {
        algosketch_lang: algosketch_lang.map(|s| s.to_string()),
        lc_all: lc_all.map(|s| s.to_string()),
        lc_messages: lc_messages.map(|s| s.to_string()),
        lang: lang.map(|s| s.to_string()),
    }
}

#[test]
fn resolves_explicit_natural_lang() {
    assert_eq!(resolve_natural_lang(NaturalLangArg::Zh, &no_locale()), NaturalLang::Zh);
    assert_eq!(resolve_natural_lang(NaturalLangArg::En, &no_locale()), NaturalLang::En);
}

#[test]
fn format_raw_warning_shows_all_lines_at_boundary() {
    let mut diag = RawDiagnostics::default();
    for line in 3..=7 {
        diag.record_statement(line);
    }
    let warning = format_raw_warning(&diag, "edge.py");
    assert_eq!(warning, "warning: 5 unparsed nodes in edge.py (lines 3, 4, 5, 6, 7)");
}

#[test]
fn format_raw_warning_sums_up_lines_past_five() {
    let mut diag = RawDiagnostics::default();
    for line in [12, 3, 45, 3, 67, 8, 9, 100] {
        diag.record_expression(line);
    }
    diag.record_item(1);
    let warning = format_raw_warning(&diag, "<stdin>");
    assert_eq!(
        warning,
        "warning: 9 unparsed nodes in <stdin> (lines 1, 3, 8, 9, 12, +3 more)"
    );
}

#[test]
fn format_raw_warning_single_line() {
    let mut diag = RawDiagnostics::default();
    diag.record_statement(12);
    diag.record_statement(12);
    assert_eq!(
        format_raw_warning(&diag, "input.cpp"),
        "warning: 2 unparsed nodes in input.cpp (lines 12)"
    );
}

#[test]
fn auto_lang_follows_the_locale() {
    assert_eq!(resolve_natural_lang(NaturalLangArg::Auto, &no_locale()), NaturalLang::En);
    let zh = env_with(None, None, None, Some("zh_CN.UTF-8"));
    assert_eq!(resolve_natural_lang(NaturalLangArg::Auto, &zh), NaturalLang::Zh);
    assert_eq!(resolve_natural_lang(NaturalLangArg::En, &zh), NaturalLang::En);
}

#[test]
fn algosketch_lang_overrides_the_locale() {
    let env = env_with(Some("zh"), None, None, Some("en_US.UTF-8"));
    assert_eq!(detect_locale(&env), NaturalLang::Zh);
    let env = env_with(Some("en"), Some("zh_CN.UTF-8"), None, None);
    assert_eq!(detect_locale(&env), NaturalLang::En);
}

#[test]
fn any_locale_variable_may_ask_for_chinese() {
    assert_eq!(detect_locale(&env_with(None, Some("zh_TW"), None, None)), NaturalLang::Zh);
    assert_eq!(detect_locale(&env_with(None, None, Some("zh"), None)), NaturalLang::Zh);
    assert_eq!(
        detect_locale(&env_with(None, Some("C"), Some("en_US"), Some("zh_CN.UTF-8"))),
        NaturalLang::Zh
    );
    assert_eq!(detect_locale(&env_with(Some("fr"), Some("C"), None, Some("en"))), NaturalLang::En);
}

#[test]
fn select_outputs_defaults_to_both() {
    assert_eq!(select_outputs(false, false, false, false).unwrap(), (true, true));
    assert_eq!(select_outputs(false, false, true, false).unwrap(), (true, false));
    assert_eq!(select_outputs(false, false, false, true).unwrap(), (false, true));
    assert_eq!(select_outputs(true, false, false, false).unwrap(), (false, true));
    assert_eq!(select_outputs(false, true, false, false).unwrap(), (true, false));
}

#[test]
fn select_outputs_rejects_contradicting_flags() {
    assert_eq!(
        select_outputs(true, false, true, false),
        Err(PseudoError::Usage("--pseudo-only cannot be combined with --no-pseudo".to_string()))
    );
    assert_eq!(
        select_outputs(false, true, false, true),
        Err(PseudoError::Usage("--explain-only cannot be combined with --no-explain".to_string()))
    );
    assert_eq!(
        select_outputs(true, true, false, false),
        Err(PseudoError::Usage(
            "both pseudocode and explanation output are disabled; enable at least one".to_string()
        ))
    );
    assert_eq!(exit_code_for(&select_outputs(true, true, false, false).unwrap_err()), 1);
}

#[test]
fn resolve_source_lang_prefers_the_given_language() {
    assert_eq!(resolve_source_lang(Some(SourceLang::Java), "x.py"), Ok(SourceLang::Java));
    assert_eq!(resolve_source_lang(Some(SourceLang::Python), "-"), Ok(SourceLang::Python));
}

#[test]
fn resolve_source_lang_guesses_from_the_extension() {
    assert_eq!(resolve_source_lang(None, "dir/binary_search.py"), Ok(SourceLang::Python));
    assert_eq!(resolve_source_lang(None, "Main.JAVA"), Ok(SourceLang::Java));
    assert_eq!(resolve_source_lang(None, "a.b/solution.cc"), Ok(SourceLang::Cpp));
    assert_eq!(resolve_source_lang(None, "main.go"), Ok(SourceLang::Go));
    assert_eq!(resolve_source_lang(None, "-"), Err(PseudoError::UnknownLanguage));
    assert_eq!(resolve_source_lang(None, "Makefile"), Err(PseudoError::UnknownLanguage));
    assert_eq!(resolve_source_lang(None, "lib.rs"), Err(PseudoError::UnknownLanguage));
    assert_eq!(resolve_source_lang(None, ".py"), Err(PseudoError::UnknownLanguage));
}

#[test]
fn resolve_source_lang_takes_the_last_extension_of_the_file_name() {
    assert_eq!(resolve_source_lang(None, "a.py.java"), Ok(SourceLang::Java));
    assert_eq!(resolve_source_lang(None, "src/x.cpp/"), Ok(SourceLang::Cpp));
    assert_eq!(resolve_source_lang(None, "dir.go/README"), Err(PseudoError::UnknownLanguage));
    assert_eq!(resolve_source_lang(None, "src/.go"), Err(PseudoError::UnknownLanguage));
    assert_eq!(resolve_source_lang(None, "pkg/.."), Err(PseudoError::UnknownLanguage));
    assert_eq!(resolve_source_lang(None, "foo.py"), Ok(SourceLang::Python));
    assert_eq!(resolve_source_lang(None, "dir/x.go/./"), Ok(SourceLang::Go));
    assert_eq!(resolve_source_lang(None, "./"), Err(PseudoError::UnknownLanguage));
}

#[test]
fn lang_for_extension_maps_missing_and_unknown_to_an_error() {
    assert_eq!(lang_for_extension(Some("hpp")), Ok(SourceLang::Cpp));
    assert_eq!(lang_for_extension(Some("txt")), Err(PseudoError::UnknownLanguage));
    assert_eq!(lang_for_extension(None), Err(PseudoError::UnknownLanguage));
}

fn options(format: OutFormat, show_pseudo: bool, show_explain: bool) -> OutputOptions {
    OutputOptions { format, show_pseudo, show_explain, indent: 2, lang: NaturalLang::En }
}

#[test]
fn markdown_multi_function_output_uses_single_blank_line_between_sections() {
    let source = "\ndef first():\n    return 1\n\ndef second():\n    return 2\n";
    let (module, _) = PythonParser::new().parse(source).unwrap();
    let output = render_output(&module, &options(OutFormat::Md, true, true));
    assert!(!output.contains("\n\n\n"), "output has excessive blank lines:\n{output}");
    assert!(
        output.contains("END FUNCTION\n```\n\n### Explanation"),
        "pseudocode and explanation should be separated by one blank line:\n{output}"
    );
    assert!(
        output.contains("Steps:\n  1. Return 1\n\n## second"),
        "functions should be separated by one blank line:\n{output}"
    );
}

#[test]
fn markdown_output_of_one_function_is_exact() {
    let (module, _) = PythonParser::new().parse("def one():\n    return 1\n").unwrap();
    let output = render_output(&module, &options(OutFormat::Md, true, false));
    assert_eq!(
        output,
        "## one\n\n```text\nFUNCTION one()\n  RETURN 1\nEND FUNCTION\n```"
    );
}

#[test]
fn text_output_joins_sections_with_one_line_break() {
    let source = "def a():\n    return 1\n\ndef b():\n    return 2\n";
    let (module, _) = PythonParser::new().parse(source).unwrap();
    let output = render_output(&module, &options(OutFormat::Text, true, false));
    assert_eq!(
        output,
        "FUNCTION a()\n  RETURN 1\nEND FUNCTION\nFUNCTION b()\n  RETURN 2\nEND FUNCTION"
    );
}

#[test]
fn explanation_only_output_is_titled_in_its_language() {
    let (module, _) = PythonParser::new().parse("def f():\n    return 1\n").unwrap();
    let mut o = options(OutFormat::Md, false, true);
    o.lang = NaturalLang::Zh;
    let output = render_output(&module, &o);
    assert!(output.starts_with("## f\n\n### 解释\n\n函数 f"), "{output}");
    assert!(!output.contains("FUNCTION f"));
    assert!(!output.contains("### Pseudocode"));
}

#[test]
fn module_without_functions_writes_nothing() {
    let (module, diag) = PythonParser::new().parse("x = 1\n").unwrap();
    assert_eq!(diag.items, 1);
    assert_eq!(render_output(&module, &options(OutFormat::Md, true, true)), "");
}

#[test]
fn parse_source_uses_the_adapter_of_the_language() {
    let (module, _) = parse_source(SourceLang::Go, "package main\n\nfunc f() {\n}\n").unwrap();
    assert_eq!(module.source_language, SourceLang::Go);
    let err = parse_source(SourceLang::Python, "def f(:\n    pass\n").unwrap_err();
    assert!(matches!(err, PseudoError::Parse { .. }));
    assert_eq!(exit_code_for(&err), 2);
}
