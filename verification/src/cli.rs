//! What the command-line front end decides, apart from reading and writing:
//! which outputs to produce, the explanation language, the source language
//! of the input, the warning about raw fallbacks, and the text written for
//! a parsed module.
use crate::diagnostics::{DiagV, RawDiagnostics, sorted_lines};
use crate::error::{PseudoError, PseudoErrorV};
use crate::ir::{FunctionV, Item, ItemV, Module, ModuleV};
use crate::renderer::explain::{ExplainRenderer, function_explanation};
use crate::renderer::pseudo::{PseudoRenderer, function_text, indent_unit};
use crate::text::{
    contains_text, nat_decimal, occurs_at, push_decimal, starts_with_text, str_eq, text_starts_with,
};
use crate::{NaturalLang, SourceLang, extension_lang};
use vstd::prelude::*;

verus! {

/// The `--lang` choice: a language, or the locale's.
#[derive(Debug, Clone, Copy, PartialEq, Eq)]
pub enum NaturalLangArg {
    Zh,
    En,
    Auto,
}

/// The output format.
#[derive(Debug, Clone, Copy, PartialEq, Eq, Structural)]
pub enum OutFormat {
    Md,
    Text,
}

/// The locale settings of the environment, as read at start-up (`None` for a
/// variable that is unset or not Unicode).
#[derive(Debug, Clone, PartialEq, Eq)]
pub struct LocaleEnv {
    /// `ALGOSKETCH_LANG`, the explicit override.
    pub algosketch_lang: Option<String>,
    /// `LC_ALL`.
    pub lc_all: Option<String>,
    /// `LC_MESSAGES`.
    pub lc_messages: Option<String>,
    /// `LANG`.
    pub lang: Option<String>,
}

// ---------------------------------------------------------------------------
// Explanation language
// ---------------------------------------------------------------------------

/// The variable is set and begins with `prefix`.
pub open spec fn begins_with(v: Option<String>, prefix: Seq<char>) -> bool {
    match v {
        Some(s) => starts_with_text(s@, prefix),
        None => false,
    }
}

/// The locale's language: `ALGOSKETCH_LANG` decides if it begins with `zh`
/// or `en`; else Chinese if any of `LC_ALL`, `LC_MESSAGES`, `LANG` begins
/// with `zh`; else English.
pub open spec fn locale_lang(env: LocaleEnv) -> NaturalLang {
    if begins_with(env.algosketch_lang, "zh"@) {
        NaturalLang::Zh
    } else if begins_with(env.algosketch_lang, "en"@) {
        NaturalLang::En
    } else if begins_with(env.lc_all, "zh"@) || begins_with(env.lc_messages, "zh"@) || begins_with(
        env.lang,
        "zh"@,
    ) {
        NaturalLang::Zh
    } else {
        NaturalLang::En
    }
}

/// The explanation language for a `--lang` choice.
pub open spec fn chosen_lang(arg: NaturalLangArg, env: LocaleEnv) -> NaturalLang {
    match arg {
        NaturalLangArg::Zh => NaturalLang::Zh,
        NaturalLangArg::En => NaturalLang::En,
        NaturalLangArg::Auto => locale_lang(env),
    }
}

fn var_begins_with(v: &Option<String>, prefix: &str) -> (r: bool)
    ensures
        r == begins_with(*v, prefix@),
{
    match v {
        Some(s) => text_starts_with(s.as_str(), prefix),
        None => false,
    }
}

/// The language the locale asks for.
pub fn detect_locale(env: &LocaleEnv) -> (r: NaturalLang)
    ensures
        r == locale_lang(*env),
{
    if var_begins_with(&env.algosketch_lang, "zh") {
        return NaturalLang::Zh;
    }
    if var_begins_with(&env.algosketch_lang, "en") {
        return NaturalLang::En;
    }
    if var_begins_with(&env.lc_all, "zh") || var_begins_with(&env.lc_messages, "zh")
        || var_begins_with(&env.lang, "zh") {
        return NaturalLang::Zh;
    }
    NaturalLang::En
}

/// The explanation language for a `--lang` choice.
pub fn resolve_natural_lang(arg: NaturalLangArg, env: &LocaleEnv) -> (r: NaturalLang)
    ensures
        r == chosen_lang(arg, *env),
{
    match arg {
        NaturalLangArg::Zh => NaturalLang::Zh,
        NaturalLangArg::En => NaturalLang::En,
        NaturalLangArg::Auto => detect_locale(env),
    }
}

// ---------------------------------------------------------------------------
// Which outputs
// ---------------------------------------------------------------------------

/// Which of pseudocode and explanation the flags ask for, or the usage
/// error: `--pseudo-only` with `--no-pseudo`, `--explain-only` with
/// `--no-explain`, or both outputs turned off.
pub open spec fn chosen_outputs(no_pseudo: bool, no_explain: bool, pseudo_only: bool, explain_only: bool) -> core::result::Result<(bool, bool), PseudoErrorV> {
    let show_pseudo = !no_pseudo && !explain_only;
    let show_explain = !no_explain && !pseudo_only;
    if pseudo_only && no_pseudo {
        Err(PseudoErrorV::Usage("--pseudo-only cannot be combined with --no-pseudo"@))
    } else if explain_only && no_explain {
        Err(PseudoErrorV::Usage("--explain-only cannot be combined with --no-explain"@))
    } else if !show_pseudo && !show_explain {
        Err(
            PseudoErrorV::Usage(
                "both pseudocode and explanation output are disabled; enable at least one"@,
            ),
        )
    } else {
        Ok((show_pseudo, show_explain))
    }
}

/// Whether to show pseudocode and explanation, from the four output flags.
pub fn select_outputs(no_pseudo: bool, no_explain: bool, pseudo_only: bool, explain_only: bool) -> (r: core::result::Result<(bool, bool), PseudoError>)
    ensures
        match r {
            Ok(shown) => chosen_outputs(no_pseudo, no_explain, pseudo_only, explain_only) == Ok::<(bool, bool), PseudoErrorV>(shown),
            Err(e) => chosen_outputs(no_pseudo, no_explain, pseudo_only, explain_only) == Err::<(bool, bool), PseudoErrorV>(e@),
        },
{
    if pseudo_only && no_pseudo {
        return Err(
            PseudoError::Usage(String::from_str("--pseudo-only cannot be combined with --no-pseudo")),
        );
    }
    if explain_only && no_explain {
        return Err(
            PseudoError::Usage(
                String::from_str("--explain-only cannot be combined with --no-explain"),
            ),
        );
    }
    let show_pseudo = !no_pseudo && !explain_only;
    let show_explain = !no_explain && !pseudo_only;
    if !show_pseudo && !show_explain {
        return Err(
            PseudoError::Usage(
                String::from_str(
                    "both pseudocode and explanation output are disabled; enable at least one",
                ),
            ),
        );
    }
    Ok((show_pseudo, show_explain))
}

// ---------------------------------------------------------------------------
// Source language
// ---------------------------------------------------------------------------

/// A path text that every platform splits the same way: no `\\`, no `:`,
/// and no leading `//` (so no Windows prefix, and `/` is the only
/// separator).
pub open spec fn is_plain_path(p: Seq<char>) -> bool {
    &&& !p.contains('\\')
    &&& !p.contains(':')
    &&& !(p.len() >= 2 && p[0] == '/' && p[1] == '/')
}

/// A path text without its trailing `/` and `/.` pieces.
pub open spec fn trim_trailing(p: Seq<char>) -> Seq<char>
    decreases p.len(),
{
    if p.len() > 0 && p.last() == '/' {
        trim_trailing(p.drop_last())
    } else if p.len() >= 2 && p.last() == '.' && p[p.len() - 2] == '/' {
        trim_trailing(p.subrange(0, p.len() - 2))
    } else {
        p
    }
}

/// Position of the last `/` in `p`, or -1.
pub open spec fn last_slash(p: Seq<char>) -> int
    decreases p.len(),
{
    if p.len() == 0 {
        -1
    } else if p.last() == '/' {
        p.len() - 1
    } else {
        last_slash(p.drop_last())
    }
}

/// The file name of a plain path: its last `/`-separated piece once the
/// trailing `/` and `/.` are gone; none where that piece is empty, `.` or
/// `..`.
pub open spec fn plain_file_name(p: Seq<char>) -> Option<Seq<char>> {
    let t = trim_trailing(p);
    let c = t.subrange(last_slash(t) + 1, t.len() as int);
    if c.len() == 0 || c == "."@ || c == ".."@ {
        None
    } else {
        Some(c)
    }
}

/// The text of an optional string.
pub open spec fn opt_string_view(o: Option<String>) -> Option<Seq<char>> {
    match o {
        Some(s) => Some(s@),
        None => None,
    }
}

/// The final component of a path, as `std::path::Path::file_name` finds it:
/// the last component if it is a normal one (not the root, a prefix, `.` or
/// `..`). Claimed: a file name is never empty; and on a plain path, where
/// `/` is the only separator on every platform, it is `plain_file_name` of
/// the text. On other paths (with `\\`, `:` or a leading `//`) how the text
/// is split depends on the platform, and nothing more is stated.
#[verifier::external_body]
fn file_name(path: &str) -> (r: Option<String>)
    ensures
        r matches Some(f) ==> f@.len() > 0,
        is_plain_path(path@) ==> opt_string_view(r) == plain_file_name(path@),
{
    std::path::Path::new(path).file_name().and_then(|f| f.to_str()).map(|f| f.to_string())
}

/// Position of the last `.` in `f`, or -1.
pub open spec fn last_dot(f: Seq<char>) -> int
    decreases f.len(),
{
    if f.len() == 0 {
        -1
    } else if f.last() == '.' {
        f.len() - 1
    } else {
        last_dot(f.drop_last())
    }
}

/// The extension of a file name: the part after its last dot. A name
/// without a dot, one whose only dot leads it, and `..` have none.
pub open spec fn name_extension(f: Seq<char>) -> Option<Seq<char>> {
    if f == ".."@ || last_dot(f) <= 0 {
        None
    } else {
        Some(f.subrange(last_dot(f) + 1, f.len() as int))
    }
}

/// The extension of a file name.
fn extension_of_name(f: &str) -> (r: Option<String>)
    ensures
        match r {
            Some(e) => name_extension(f@) == Some(e@),
            None => name_extension(f@) is None,
        },
{
    let n = f.unicode_len();
    let mut found = false;
    let mut pos: usize = 0;
    let mut j: usize = 0;
    while j < n
        invariant
            n == f@.len(),
            0 <= j <= n,
            last_dot(f@.subrange(0, j as int)) == if found {
                pos as int
            } else {
                -1
            },
            found ==> pos < j,
        decreases n - j,
    {
        proof {
            assert(f@.subrange(0, j + 1).drop_last() =~= f@.subrange(0, j as int));
            assert(f@.subrange(0, j + 1).last() == f@[j as int]);
        }
        if f.get_char(j) == '.' {
            found = true;
            pos = j;
        }
        j = j + 1;
    }
    assert(f@.subrange(0, n as int) =~= f@);
    proof {
        reveal_strlit("..");
    }
    if str_eq(f, "..") || !found || pos == 0 {
        return None;
    }
    Some(f.substring_char(pos + 1, n).to_string())
}

/// The source language of an extension: unknown if there is none or it is
/// not one of ours.
pub open spec fn lang_of_extension(ext: Option<Seq<char>>) -> core::result::Result<SourceLang, PseudoErrorV> {
    match ext {
        None => Err(PseudoErrorV::UnknownLanguage),
        Some(e) => match extension_lang(e) {
            Some(l) => Ok(l),
            None => Err(PseudoErrorV::UnknownLanguage),
        },
    }
}

/// The text of an optional string.
pub open spec fn opt_text(o: Option<&str>) -> Option<Seq<char>> {
    match o {
        Some(s) => Some(s@),
        None => None,
    }
}

/// The source language of an input whose file extension is `ext`.
pub fn lang_for_extension(ext: Option<&str>) -> (r: core::result::Result<SourceLang, PseudoError>)
    ensures
        match r {
            Ok(l) => lang_of_extension(opt_text(ext)) == Ok::<SourceLang, PseudoErrorV>(l),
            Err(e) => lang_of_extension(opt_text(ext)) == Err::<SourceLang, PseudoErrorV>(e@),
        },
{
    match ext {
        None => Err(PseudoError::UnknownLanguage),
        Some(e) => match SourceLang::from_extension(e) {
            Some(l) => Ok(l),
            None => Err(PseudoError::UnknownLanguage),
        },
    }
}

/// The language of a file name's extension.
pub open spec fn file_lang(f: Option<Seq<char>>) -> core::result::Result<SourceLang, PseudoErrorV> {
    match f {
        Some(name) => lang_of_extension(name_extension(name)),
        None => Err(PseudoErrorV::UnknownLanguage),
    }
}

/// The source language of the input: the one given, else guessed from the
/// extension of the path's file name; standard input (`-`) has none to
/// guess from.
pub fn resolve_source_lang(explicit: Option<SourceLang>, input: &str) -> (r: core::result::Result<SourceLang, PseudoError>)
    ensures
        explicit matches Some(l) ==> r == Ok::<SourceLang, PseudoError>(l),
        explicit is None && input@ == "-"@ ==> (r matches Err(e) && e@ == PseudoErrorV::UnknownLanguage),
        explicit is None && is_plain_path(input@) ==> match r {
            Ok(l) => file_lang(plain_file_name(input@)) == Ok::<SourceLang, PseudoErrorV>(l),
            Err(e) => file_lang(plain_file_name(input@)) == Err::<SourceLang, PseudoErrorV>(e@),
        },
        explicit is None ==> match r {
            Ok(l) => exists|f: Seq<char>|
                f.len() > 0 && file_lang(Some(f)) == Ok::<SourceLang, PseudoErrorV>(l),
            Err(e) => e@ == PseudoErrorV::UnknownLanguage,
        },
{
    match explicit {
        Some(l) => return Ok(l),
        None => {},
    }
    if str_eq(input, "-") {
        proof {
            reveal_strlit("-");
            reveal_strlit(".");
            reveal_strlit("..");
            assert(plain_file_name(input@) == Some("-"@)) by {
                assert(input@.len() == 1 && input@[0] == '-');
                assert(trim_trailing(input@) == input@);
                assert(input@.drop_last().len() == 0);
                assert(last_slash(input@.drop_last()) == -1);
                assert(last_slash(input@) == -1);
                assert(input@.subrange(0, 1) =~= input@);
                assert(input@ != "."@);
                assert(input@ != ".."@);
            }
            assert(last_dot("-"@.drop_last()) == -1);
        }
        return Err(PseudoError::UnknownLanguage);
    }
    match file_name(input) {
        None => Err(PseudoError::UnknownLanguage),
        Some(f) => {
            let ext = extension_of_name(f.as_str());
            let r = match ext {
                None => lang_for_extension(None),
                Some(e) => lang_for_extension(Some(e.as_str())),
            };
            proof {
                if r is Ok {
                    assert(f@.len() > 0 && file_lang(Some(f@)) == Ok::<SourceLang, PseudoErrorV>(r->Ok_0));
                }
            }
            r
        },
    }
}

// ---------------------------------------------------------------------------
// Raw-fallback warning
// ---------------------------------------------------------------------------

/// How many line numbers the warning lists before summing up the rest.
pub const MAX_WARNING_LINES: usize = 5;

/// Line numbers in decimal, separated by `, `.
pub open spec fn joined_lines(s: Seq<usize>) -> Seq<char>
    decreases s.len(),
{
    if s.len() == 0 {
        Seq::empty()
    } else if s.len() == 1 {
        nat_decimal(s[0] as nat)
    } else {
        joined_lines(s.drop_last()) + ", "@ + nat_decimal(s.last() as nat)
    }
}

/// The first lines of `s`, and how many more there are.
pub open spec fn line_summary(s: Seq<usize>) -> Seq<char> {
    if s.len() <= MAX_WARNING_LINES {
        joined_lines(s)
    } else {
        joined_lines(s.take(MAX_WARNING_LINES as int)) + ", +"@ + nat_decimal(
            (s.len() - MAX_WARNING_LINES) as nat,
        ) + " more"@
    }
}

/// The warning about raw fallbacks: how many, in which file, on which
/// lines (sorted, each once).
pub open spec fn raw_warning(d: DiagV, file: Seq<char>) -> Seq<char> {
    "warning: "@ + nat_decimal(d.items + d.statements + d.expressions) + " unparsed nodes in "@
        + file + " (lines "@ + line_summary(sorted_lines(d.lines)) + ")"@
}

/// The one-line warning about the raw fallbacks of a parse of `file`.
pub fn format_raw_warning(diag: &RawDiagnostics, file: &str) -> (r: String)
    requires
        diag.items + diag.statements + diag.expressions <= usize::MAX,
    ensures
        r@ == raw_warning(diag@, file@),
{
    let lines = diag.sorted_unique_lines();
    let mut out = String::from_str("warning: ");
    push_decimal(&mut out, diag.total() as u64);
    out.append(" unparsed nodes in ");
    out.append(file);
    out.append(" (lines ");
    let ghost head = out@;
    let shown: usize = if lines.len() < MAX_WARNING_LINES {
        lines.len()
    } else {
        MAX_WARNING_LINES
    };
    let mut i: usize = 0;
    while i < shown
        invariant
            shown <= lines.len(),
            i <= shown,
            out@ == head + joined_lines(lines@.take(i as int)),
        decreases shown - i,
    {
        let ghost before = out@;
        if i > 0 {
            out.append(", ");
        }
        push_decimal(&mut out, lines[i] as u64);
        proof {
            let t = lines@.take(i + 1);
            assert(t.drop_last() =~= lines@.take(i as int));
            if i == 0 {
                assert(lines@.take(0) =~= Seq::<usize>::empty());
                assert(out@ =~= head + joined_lines(t));
            } else {
                assert(out@ =~= head + joined_lines(t));
            }
        }
        i = i + 1;
    }
    if lines.len() > MAX_WARNING_LINES {
        out.append(", +");
        push_decimal(&mut out, (lines.len() - MAX_WARNING_LINES) as u64);
        out.append(" more");
    } else {
        assert(lines@.take(i as int) =~= lines@);
    }
    out.append(")");
    out
}

// ---------------------------------------------------------------------------
// Output text
// ---------------------------------------------------------------------------

/// How a module is written out.
#[derive(Debug, Clone, Copy, PartialEq, Eq)]
pub struct OutputOptions {
    pub format: OutFormat,
    pub show_pseudo: bool,
    pub show_explain: bool,
    /// Indent width of the pseudocode.
    pub indent: usize,
    /// Language of the explanation.
    pub lang: NaturalLang,
}

/// The Markdown title of the explanation.
pub open spec fn explanation_title(lang: NaturalLang) -> Seq<char> {
    match lang {
        NaturalLang::Zh => "### \u{89e3}\u{91ca}\n\n"@,
        NaturalLang::En => "### Explanation\n\n"@,
    }
}

/// What one function contributes: in Markdown a `##` heading, the
/// pseudocode in a `text` code block (under a `###` heading when the
/// explanation follows) and the titled explanation; in plain text the
/// pseudocode and the explanation as they are.
pub open spec fn section_text(f: FunctionV, o: OutputOptions) -> Seq<char> {
    let md = o.format == OutFormat::Md;
    let pseudo = function_text(f, indent_unit(o.indent));
    (if md {
        "## "@ + f.name + "\n\n"@
    } else {
        Seq::empty()
    }) + (if !o.show_pseudo {
        Seq::empty()
    } else if md {
        (if o.show_explain {
            "### Pseudocode\n\n"@
        } else {
            Seq::empty()
        }) + "```text\n"@ + pseudo + "```\n\n"@
    } else {
        pseudo
    }) + (if o.show_explain {
        (if md {
            explanation_title(o.lang)
        } else {
            Seq::empty()
        }) + function_explanation(o.lang, f) + "\n"@
    } else {
        Seq::empty()
    })
}

/// `s` without its trailing newlines.
pub open spec fn trim_newlines(s: Seq<char>) -> Seq<char>
    decreases s.len(),
{
    if s.len() > 0 && s.last() == '\n' {
        trim_newlines(s.drop_last())
    } else {
        s
    }
}

/// The sections of the functions among `items`, in order, each without its
/// trailing newlines.
pub open spec fn sections(items: Seq<ItemV>, o: OutputOptions) -> Seq<Seq<char>>
    decreases items.len(),
{
    if items.len() == 0 {
        Seq::empty()
    } else {
        sections(items.drop_last(), o) + match items.last() {
            ItemV::Function(f) => seq![trim_newlines(section_text(f, o))],
            _ => Seq::empty(),
        }
    }
}

/// The texts of `s` joined by `sep`.
pub open spec fn joined(s: Seq<Seq<char>>, sep: Seq<char>) -> Seq<char>
    decreases s.len(),
{
    if s.len() == 0 {
        Seq::empty()
    } else if s.len() == 1 {
        s[0]
    } else {
        joined(s.drop_last(), sep) + sep + s.last()
    }
}

/// The separator between sections: a blank line in Markdown, a line break
/// in plain text.
pub open spec fn section_separator(format: OutFormat) -> Seq<char> {
    match format {
        OutFormat::Md => "\n\n"@,
        OutFormat::Text => "\n"@,
    }
}

/// The text written for a module: the sections of its functions, joined.
pub open spec fn output_text(m: ModuleV, o: OutputOptions) -> Seq<char> {
    joined(sections(m.items, o), section_separator(o.format))
}

/// Each function of the module gives one section, in order; other items
/// give none.
pub proof fn lemma_sections_count(items: Seq<ItemV>, o: OutputOptions)
    ensures
        sections(items, o).len() == items.filter(|it: ItemV| it is Function).len(),
    decreases items.len(),
{
    reveal(Seq::filter);
    if items.len() > 0 {
        lemma_sections_count(items.drop_last(), o);
    }
}

/// A module without functions is written out as nothing.
pub proof fn lemma_output_without_functions(m: ModuleV, o: OutputOptions)
    requires
        forall|i: int| 0 <= i < m.items.len() ==> !(m.items[i] is Function),
    ensures
        output_text(m, o) == Seq::<char>::empty(),
{
    lemma_no_sections(m.items, o);
}

proof fn lemma_no_sections(items: Seq<ItemV>, o: OutputOptions)
    requires
        forall|i: int| 0 <= i < items.len() ==> !(items[i] is Function),
    ensures
        sections(items, o) == Seq::<Seq<char>>::empty(),
    decreases items.len(),
{
    if items.len() > 0 {
        lemma_no_sections(items.drop_last(), o);
        assert(!(items[items.len() - 1] is Function));
        assert(Seq::<Seq<char>>::empty() + Seq::<Seq<char>>::empty() =~= Seq::<Seq<char>>::empty());
    }
}

/// `s` without its trailing newlines.
fn trim_trailing_newlines(s: &str) -> (r: String)
    ensures
        r@ == trim_newlines(s@),
{
    let mut k: usize = s.unicode_len();
    assert(s@.subrange(0, k as int) =~= s@);
    while k > 0 && s.get_char(k - 1) == '\n'
        invariant
            k <= s@.len(),
            trim_newlines(s@) == trim_newlines(s@.subrange(0, k as int)),
        decreases k,
    {
        proof {
            assert(s@.subrange(0, k as int).drop_last() =~= s@.subrange(0, k - 1));
        }
        k = k - 1;
    }
    let t = s.substring_char(0, k);
    String::from_str(t)
}

/// One function's section.
fn render_section(f: &crate::ir::Function, o: &OutputOptions, pseudo: &PseudoRenderer, explain: &ExplainRenderer) -> (r: String)
    requires
        pseudo.indent_width == o.indent,
        explain.lang == o.lang,
    ensures
        r@ == section_text(f@, *o),
{
    let md = o.format == OutFormat::Md;
    let mut out = String::new();
    if md {
        out.append("## ");
        out.append(f.name.as_str());
        out.append("\n\n");
    }
    let ghost after_heading = out@;
    if o.show_pseudo {
        let p = pseudo.render_function(f);
        if md {
            if o.show_explain {
                out.append("### Pseudocode\n\n");
            }
            out.append("```text\n");
            out.append(p.as_str());
            out.append("```\n\n");
        } else {
            out.append(p.as_str());
        }
    }
    let ghost after_pseudo = out@;
    if o.show_explain {
        let e = explain.render_function(f);
        if md {
            match o.lang {
                NaturalLang::Zh => out.append("### \u{89e3}\u{91ca}\n\n"),
                NaturalLang::En => out.append("### Explanation\n\n"),
            }
        }
        out.append(e.as_str());
        out.append("\n");
    }
    proof {
        let md_s = o.format == OutFormat::Md;
        assert(md == md_s);
        assert(out@ =~= section_text(f@, *o));
    }
    out
}

/// The text written for a parsed module.
pub fn render_output(module: &Module, options: &OutputOptions) -> (r: String)
    ensures
        r@ == output_text(module@, *options),
{
    let pseudo = PseudoRenderer { indent_width: options.indent };
    let explain = ExplainRenderer::new(options.lang);
    let sep: &str = match options.format {
        OutFormat::Md => "\n\n",
        OutFormat::Text => "\n",
    };
    let ghost items = module@.items;
    let mut out = String::new();
    let mut count: usize = 0;
    let mut i: usize = 0;
    while i < module.items.len()
        invariant
            i <= module.items.len(),
            items == module@.items,
            items.len() == module.items.len(),
            pseudo.indent_width == options.indent,
            explain.lang == options.lang,
            sep@ == section_separator(options.format),
            count == sections(items.take(i as int), *options).len(),
            count <= i,
            out@ == joined(sections(items.take(i as int), *options), sep@),
        decreases module.items.len() - i,
    {
        let ghost before = sections(items.take(i as int), *options);
        proof {
            assert(items.take(i + 1).drop_last() =~= items.take(i as int));
            assert(items.take(i + 1).last() == items[i as int]);
        }
        match &module.items[i] {
            Item::Function(f) => {
                let section = render_section(f, options, &pseudo, &explain);
                let t = trim_trailing_newlines(section.as_str());
                if count > 0 {
                    out.append(sep);
                }
                out.append(t.as_str());
                count = count + 1;
                proof {
                    let now = sections(items.take(i + 1), *options);
                    assert(now =~= before.push(t@));
                    assert(now.drop_last() =~= before);
                    if before.len() == 0 {
                        assert(out@ =~= joined(now, sep@));
                    } else {
                        assert(out@ =~= joined(now, sep@));
                    }
                }
            },
            _ => {
                proof {
                    let now = sections(items.take(i + 1), *options);
                    assert(now =~= before);
                }
            },
        }
        i = i + 1;
    }
    assert(items.take(i as int) =~= items);
    out
}

} // verus!
