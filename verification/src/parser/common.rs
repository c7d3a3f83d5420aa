//! What the language adapters share: the result shape of their parsing
//! functions, error construction, raw-fallback recording, operator tables and
//! node lookups.
use crate::diagnostics::{DiagV, RawDiagnostics, diag_consistent, empty_diag};
use crate::error::{PseudoError, PseudoErrorV};
use crate::ir::{
    BinOp, Block, Expr, ExprV, Item, ItemV, Stmt, StmtV, TypeHint, UnOp, block_raw_exprs,
    block_raw_stmts, hint_view, items_raw_exprs,
    items_raw_items, items_raw_stmts,
};
use crate::syntax::{SyntaxNode, field_child, line_of};
use crate::text::str_eq;
use vstd::prelude::*;

verus! {

/// The outcome of a parsing step: a value and the diagnostics after it, or
/// an error.
pub type PRes<T> = core::result::Result<(T, DiagV), PseudoErrorV>;

/// The view of an executable parsing result together with the diagnostics
/// it left.
pub open spec fn outcome<T: View>(r: core::result::Result<T, PseudoError>, d: DiagV) -> PRes<T::V> {
    match r {
        Ok(v) => Ok((v@, d)),
        Err(e) => Err(e@),
    }
}

/// `s` in front of the list that `r` gives.
pub open spec fn cons<T>(s: T, r: PRes<Seq<T>>) -> PRes<Seq<T>> {
    match r {
        Ok((rest, d)) => Ok((seq![s] + rest, d)),
        Err(e) => Err(e),
    }
}

/// `pre` in front of the list that `r` gives.
pub open spec fn prepend<T>(pre: Seq<T>, r: PRes<Seq<T>>) -> PRes<Seq<T>> {
    match r {
        Ok((rest, d)) => Ok((pre + rest, d)),
        Err(e) => Err(e),
    }
}

pub proof fn lemma_prepend_cons<T>(pre: Seq<T>, s: T, r: PRes<Seq<T>>)
    ensures
        prepend(pre, cons(s, r)) == prepend(pre.push(s), r),
{
    match r {
        Ok((rest, d)) => {
            assert(pre + (seq![s] + rest) =~= pre.push(s) + rest);
        },
        Err(e) => {},
    }
}

pub proof fn lemma_prepend_prepend<T>(a: Seq<T>, b: Seq<T>, r: PRes<Seq<T>>)
    ensures
        prepend(a, prepend(b, r)) == prepend(a + b, r),
{
    match r {
        Ok((rest, d)) => {
            assert(a + (b + rest) =~= (a + b) + rest);
        },
        Err(e) => {},
    }
}

/// Prepending keeps an error as it is, and nothing else is an error.
pub proof fn lemma_prepend_err<T>(pre: Seq<T>, r: PRes<Seq<T>>)
    ensures
        prepend(pre, r) is Err <==> r is Err,
        r is Err ==> prepend(pre, r) == r,
{
}

pub proof fn lemma_prepend_empty<T>(pre: Seq<T>, d: DiagV)
    ensures
        prepend(pre, Ok((Seq::<T>::empty(), d))) == Ok::<(Seq<T>, DiagV), PseudoErrorV>((pre, d)),
{
    assert(pre + Seq::<T>::empty() =~= pre);
}

// ---------------------------------------------------------------------------
// How the diagnostics grow
// ---------------------------------------------------------------------------

/// A count that stops at the largest machine integer.
pub open spec fn sat(x: nat) -> nat {
    if x <= usize::MAX {
        x
    } else {
        usize::MAX as nat
    }
}

/// Counts that fit in machine integers.
pub open spec fn bounded(d: DiagV) -> bool {
    d.items <= usize::MAX && d.statements <= usize::MAX && d.expressions <= usize::MAX
}

/// `d2` is `d1` after recording `i` raw items, `s` raw statements and `e`
/// raw expressions: each count grew by as many (up to the largest machine
/// integer), and one line was recorded for each.
pub open spec fn advances(d1: DiagV, d2: DiagV, i: nat, s: nat, e: nat) -> bool {
    &&& d2.items == sat(d1.items + i)
    &&& d2.statements == sat(d1.statements + s)
    &&& d2.expressions == sat(d1.expressions + e)
    &&& d2.lines.len() == d1.lines.len() + i + s + e
}

pub proof fn lemma_advances_trans(
    d1: DiagV,
    d2: DiagV,
    d3: DiagV,
    i1: nat,
    s1: nat,
    e1: nat,
    i2: nat,
    s2: nat,
    e2: nat,
)
    requires
        bounded(d1),
        advances(d1, d2, i1, s1, e1),
        advances(d2, d3, i2, s2, e2),
    ensures
        advances(d1, d3, i1 + i2, s1 + s2, e1 + e2),
        bounded(d2),
        bounded(d3),
{
}

/// `d2` is `d1` after recording `i` raw items, `s` raw statements and at
/// least `e` raw expressions: an expression read before its statement fell
/// back to raw text stays recorded though the IR no longer holds it.
pub open spec fn recorded(d1: DiagV, d2: DiagV, i: nat, s: nat, e: nat) -> bool {
    exists|x: nat| x >= e && #[trigger] advances(d1, d2, i, s, x)
}

pub proof fn lemma_recorded_trans(
    d1: DiagV,
    d2: DiagV,
    d3: DiagV,
    i1: nat,
    s1: nat,
    e1: nat,
    i2: nat,
    s2: nat,
    e2: nat,
)
    requires
        bounded(d1),
        recorded(d1, d2, i1, s1, e1),
        recorded(d2, d3, i2, s2, e2),
    ensures
        recorded(d1, d3, i1 + i2, s1 + s2, e1 + e2),
        bounded(d2),
        bounded(d3),
{
    let x1 = choose|x: nat| x >= e1 && advances(d1, d2, i1, s1, x);
    let x2 = choose|x: nat| x >= e2 && advances(d2, d3, i2, s2, x);
    lemma_advances_trans(d1, d2, d3, i1, s1, x1, i2, s2, x2);
    assert(advances(d1, d3, i1 + i2, s1 + s2, x1 + x2));
}

/// Recorded expressions that the IR does not hold any more.
pub proof fn lemma_recorded_dropped(d1: DiagV, d2: DiagV, i: nat, s: nat, e: nat, k: nat)
    requires
        recorded(d1, d2, i, s, e + k),
    ensures
        recorded(d1, d2, i, s, e),
{
    let x = choose|x: nat| x >= e + k && advances(d1, d2, i, s, x);
    assert(x >= e && advances(d1, d2, i, s, x));
}

/// Counts reached by recording stay within machine integers.
pub proof fn lemma_recorded_bounded(d1: DiagV, d2: DiagV, i: nat, s: nat, e: nat)
    requires
        recorded(d1, d2, i, s, e),
    ensures
        bounded(d2),
{
    let x = choose|x: nat| x >= e && advances(d1, d2, i, s, x);
    assert(advances(d1, d2, i, s, x));
}

/// The raw statements and raw expressions of an optional block.
pub open spec fn opt_block_raw(b: Option<Seq<StmtV>>) -> (nat, nat) {
    match b {
        Some(x) => (block_raw_stmts(x), block_raw_exprs(x)),
        None => (0, 0),
    }
}

/// The diagnostics of a parse that gave `items` count its raw fragments:
/// exactly its raw items and statements, at least its raw expressions (each
/// up to the largest machine integer), and while no count has reached that
/// bound, one line for each count.
pub open spec fn raw_counted(items: Seq<ItemV>, d: DiagV) -> bool {
    &&& d.items == sat(items_raw_items(items))
    &&& d.statements == sat(items_raw_stmts(items))
    &&& d.expressions >= sat(items_raw_exprs(items))
    &&& (d.items < usize::MAX && d.statements < usize::MAX && d.expressions < usize::MAX
        ==> diag_consistent(d))
}

pub proof fn lemma_recorded_from_empty(items: Seq<ItemV>, d: DiagV)
    requires
        recorded(empty_diag(), d, items_raw_items(items), items_raw_stmts(items), items_raw_exprs(items)),
    ensures
        raw_counted(items, d),
{
    let x = choose|x: nat| x >= items_raw_exprs(items) && advances(empty_diag(), d, items_raw_items(items), items_raw_stmts(items), x);
}

/// Recording one raw node advances the diagnostics by one of its kind.
pub proof fn lemma_notes(d: DiagV, line: usize)
    requires
        bounded(d),
    ensures
        recorded(d, note_item(d, line), 1, 0, 0),
        recorded(d, note_stmt(d, line), 0, 1, 0),
        recorded(d, note_expr(d, line), 0, 0, 1),
        recorded(d, d, 0, 0, 0),
{
    assert(advances(d, note_item(d, line), 1, 0, 0));
    assert(advances(d, note_stmt(d, line), 0, 1, 0));
    assert(advances(d, note_expr(d, line), 0, 0, 1));
    assert(advances(d, d, 0, 0, 0));
}

/// A parse error in the input, with the given message.
pub open spec fn perr(message: Seq<char>) -> PseudoErrorV {
    PseudoErrorV::Parse { file: "input"@, message }
}

pub fn parse_err(msg: &str) -> (e: PseudoError)
    ensures
        e@ == perr(msg@),
{
    PseudoError::Parse { file: String::from_str("input"), message: String::from_str(msg) }
}

/// A parse error whose message ends with a piece of source text.
pub fn parse_err_with(msg: &str, text: &str) -> (e: PseudoError)
    ensures
        e@ == perr(msg@ + text@),
{
    let mut m = String::from_str(msg);
    m.append(text);
    PseudoError::Parse { file: String::from_str("input"), message: m }
}

/// Diagnostics after one more raw item found on `line` (the count stays put
/// once it is as large as a machine integer gets).
pub open spec fn note_item(d: DiagV, line: usize) -> DiagV {
    DiagV {
        items: if d.items < usize::MAX { d.items + 1 } else { d.items },
        lines: d.lines.push(line),
        ..d
    }
}

pub open spec fn note_stmt(d: DiagV, line: usize) -> DiagV {
    DiagV {
        statements: if d.statements < usize::MAX { d.statements + 1 } else { d.statements },
        lines: d.lines.push(line),
        ..d
    }
}

pub open spec fn note_expr(d: DiagV, line: usize) -> DiagV {
    DiagV {
        expressions: if d.expressions < usize::MAX { d.expressions + 1 } else { d.expressions },
        lines: d.lines.push(line),
        ..d
    }
}

/// The text of the child of `n` that fills field `f`.
pub open spec fn field_text(n: SyntaxNode, f: Seq<char>) -> Option<Seq<char>> {
    match field_child(n, f) {
        Some(c) => Some(c.text@),
        None => None,
    }
}

/// The text of the child that fills `field`, as a type annotation.
pub fn field_type_hint(node: &SyntaxNode, field: &str) -> (r: Option<TypeHint>)
    ensures
        hint_view(r) == field_text(*node, field@),
{
    match node.child_by_field_name(field) {
        Some(c) => Some(TypeHint(c.text.clone())),
        None => None,
    }
}

/// A block holding just one statement.
pub fn single_block(s: Stmt) -> (b: Block)
    ensures
        b@ == seq![s@],
{
    let ghost sv = s@;
    let mut v: Vec<Stmt> = Vec::new();
    v.push(s);
    let b = Block(v);
    assert(b@ =~= seq![sv]);
    b
}

/// Keeps an unmapped top-level node as raw text and records it.
pub fn record_raw_item(node: &SyntaxNode, diag: &mut RawDiagnostics) -> (it: Item)
    ensures
        it@ == ItemV::Raw(node.text@),
        final(diag)@ == note_item(old(diag)@, line_of(*node)),
{
    let line = node.line();
    if diag.items < usize::MAX {
        diag.record_item(line);
    } else {
        diag.lines.push(line);
    }
    Item::Raw(node.text.clone())
}

/// Keeps an unmapped statement as raw text and records it.
pub fn record_raw_stmt(node: &SyntaxNode, diag: &mut RawDiagnostics) -> (s: Stmt)
    ensures
        s@ == StmtV::Raw(node.text@),
        final(diag)@ == note_stmt(old(diag)@, line_of(*node)),
{
    let line = node.line();
    if diag.statements < usize::MAX {
        diag.record_statement(line);
    } else {
        diag.lines.push(line);
    }
    Stmt::Raw(node.text.clone())
}

/// Keeps an unmapped expression as raw text and records it.
pub fn record_raw_expr(node: &SyntaxNode, diag: &mut RawDiagnostics) -> (e: Expr)
    ensures
        e@ == ExprV::Raw(node.text@),
        final(diag)@ == note_expr(old(diag)@, line_of(*node)),
{
    let line = node.line();
    if diag.expressions < usize::MAX {
        diag.record_expression(line);
    } else {
        diag.lines.push(line);
    }
    Expr::Raw(node.text.clone())
}

// ---------------------------------------------------------------------------
// Operators
// ---------------------------------------------------------------------------

/// Python's arithmetic, logical and bitwise operator spellings.
pub open spec fn bin_op_spec(t: Seq<char>) -> Option<BinOp> {
    if t == "+"@ {
        Some(BinOp::Add)
    } else if t == "-"@ {
        Some(BinOp::Sub)
    } else if t == "*"@ {
        Some(BinOp::Mul)
    } else if t == "/"@ {
        Some(BinOp::Div)
    } else if t == "//"@ {
        Some(BinOp::IntDiv)
    } else if t == "%"@ {
        Some(BinOp::Mod)
    } else if t == "&&"@ || t == "and"@ {
        Some(BinOp::And)
    } else if t == "||"@ || t == "or"@ {
        Some(BinOp::Or)
    } else if t == "&"@ {
        Some(BinOp::BitAnd)
    } else if t == "|"@ {
        Some(BinOp::BitOr)
    } else if t == "^"@ {
        Some(BinOp::BitXor)
    } else if t == "<<"@ {
        Some(BinOp::Shl)
    } else if t == ">>"@ {
        Some(BinOp::Shr)
    } else {
        None
    }
}

pub open spec fn comparison_op_spec(t: Seq<char>) -> Option<BinOp> {
    if t == "=="@ {
        Some(BinOp::Eq)
    } else if t == "!="@ {
        Some(BinOp::Ne)
    } else if t == "<"@ {
        Some(BinOp::Lt)
    } else if t == "<="@ {
        Some(BinOp::Le)
    } else if t == ">"@ {
        Some(BinOp::Gt)
    } else if t == ">="@ {
        Some(BinOp::Ge)
    } else {
        None
    }
}

/// The C family's binary operators; `/` reads as integer division.
pub open spec fn c_family_bin_op_spec(t: Seq<char>) -> Option<BinOp> {
    if t == "=="@ {
        Some(BinOp::Eq)
    } else if t == "!="@ {
        Some(BinOp::Ne)
    } else if t == "<"@ {
        Some(BinOp::Lt)
    } else if t == "<="@ {
        Some(BinOp::Le)
    } else if t == ">"@ {
        Some(BinOp::Gt)
    } else if t == ">="@ {
        Some(BinOp::Ge)
    } else if t == "/"@ {
        Some(BinOp::IntDiv)
    } else if t == "+"@ {
        Some(BinOp::Add)
    } else if t == "-"@ {
        Some(BinOp::Sub)
    } else if t == "*"@ {
        Some(BinOp::Mul)
    } else if t == "%"@ {
        Some(BinOp::Mod)
    } else if t == "&&"@ {
        Some(BinOp::And)
    } else if t == "||"@ {
        Some(BinOp::Or)
    } else if t == "&"@ {
        Some(BinOp::BitAnd)
    } else if t == "|"@ {
        Some(BinOp::BitOr)
    } else if t == "^"@ {
        Some(BinOp::BitXor)
    } else if t == "<<"@ {
        Some(BinOp::Shl)
    } else if t == ">>"@ {
        Some(BinOp::Shr)
    } else {
        None
    }
}

pub open spec fn un_op_spec(t: Seq<char>) -> Option<UnOp> {
    if t == "-"@ {
        Some(UnOp::Neg)
    } else if t == "not"@ || t == "!"@ {
        Some(UnOp::Not)
    } else if t == "~"@ {
        Some(UnOp::BitNot)
    } else {
        None
    }
}

pub fn parse_bin_op(text: &str) -> (r: Option<BinOp>)
    ensures
        r == bin_op_spec(text@),
{
    if str_eq(text, "+") {
        Some(BinOp::Add)
    } else if str_eq(text, "-") {
        Some(BinOp::Sub)
    } else if str_eq(text, "*") {
        Some(BinOp::Mul)
    } else if str_eq(text, "/") {
        Some(BinOp::Div)
    } else if str_eq(text, "//") {
        Some(BinOp::IntDiv)
    } else if str_eq(text, "%") {
        Some(BinOp::Mod)
    } else if str_eq(text, "&&") || str_eq(text, "and") {
        Some(BinOp::And)
    } else if str_eq(text, "||") || str_eq(text, "or") {
        Some(BinOp::Or)
    } else if str_eq(text, "&") {
        Some(BinOp::BitAnd)
    } else if str_eq(text, "|") {
        Some(BinOp::BitOr)
    } else if str_eq(text, "^") {
        Some(BinOp::BitXor)
    } else if str_eq(text, "<<") {
        Some(BinOp::Shl)
    } else if str_eq(text, ">>") {
        Some(BinOp::Shr)
    } else {
        None
    }
}

pub fn parse_comparison_op(text: &str) -> (r: Option<BinOp>)
    ensures
        r == comparison_op_spec(text@),
{
    if str_eq(text, "==") {
        Some(BinOp::Eq)
    } else if str_eq(text, "!=") {
        Some(BinOp::Ne)
    } else if str_eq(text, "<") {
        Some(BinOp::Lt)
    } else if str_eq(text, "<=") {
        Some(BinOp::Le)
    } else if str_eq(text, ">") {
        Some(BinOp::Gt)
    } else if str_eq(text, ">=") {
        Some(BinOp::Ge)
    } else {
        None
    }
}

pub fn parse_c_family_bin_op(text: &str) -> (r: Option<BinOp>)
    ensures
        r == c_family_bin_op_spec(text@),
{
    if str_eq(text, "==") {
        Some(BinOp::Eq)
    } else if str_eq(text, "!=") {
        Some(BinOp::Ne)
    } else if str_eq(text, "<") {
        Some(BinOp::Lt)
    } else if str_eq(text, "<=") {
        Some(BinOp::Le)
    } else if str_eq(text, ">") {
        Some(BinOp::Gt)
    } else if str_eq(text, ">=") {
        Some(BinOp::Ge)
    } else if str_eq(text, "/") {
        Some(BinOp::IntDiv)
    } else if str_eq(text, "+") {
        Some(BinOp::Add)
    } else if str_eq(text, "-") {
        Some(BinOp::Sub)
    } else if str_eq(text, "*") {
        Some(BinOp::Mul)
    } else if str_eq(text, "%") {
        Some(BinOp::Mod)
    } else if str_eq(text, "&&") {
        Some(BinOp::And)
    } else if str_eq(text, "||") {
        Some(BinOp::Or)
    } else if str_eq(text, "&") {
        Some(BinOp::BitAnd)
    } else if str_eq(text, "|") {
        Some(BinOp::BitOr)
    } else if str_eq(text, "^") {
        Some(BinOp::BitXor)
    } else if str_eq(text, "<<") {
        Some(BinOp::Shl)
    } else if str_eq(text, ">>") {
        Some(BinOp::Shr)
    } else {
        None
    }
}

pub fn parse_un_op(text: &str) -> (r: Option<UnOp>)
    ensures
        r == un_op_spec(text@),
{
    if str_eq(text, "-") {
        Some(UnOp::Neg)
    } else if str_eq(text, "not") || str_eq(text, "!") {
        Some(UnOp::Not)
    } else if str_eq(text, "~") {
        Some(UnOp::BitNot)
    } else {
        None
    }
}

// ---------------------------------------------------------------------------
// Node lookups
// ---------------------------------------------------------------------------

/// Punctuation that never stands for an operator.
pub open spec fn is_punctuation(t: Seq<char>) -> bool {
    t == "("@ || t == ")"@ || t == "["@ || t == "]"@ || t == "{"@ || t == "}"@ || t == ","@ || t
        == "."@ || t == ":"@ || t == ";"@
}

pub open spec fn anon_op_index_from(c: Seq<SyntaxNode>, k: int) -> int
    decreases c.len() - k,
{
    if k < 0 || k >= c.len() {
        -1
    } else if !c[k].named && !is_punctuation(c[k].text@) {
        k
    } else {
        anon_op_index_from(c, k + 1)
    }
}

/// The text of the first anonymous child that is not punctuation: the
/// operator of an operator node.
pub open spec fn anon_operator(n: SyntaxNode) -> Option<Seq<char>> {
    let j = anon_op_index_from(n.children@, 0);
    if 0 <= j < n.children.len() {
        Some(n.children@[j].text@)
    } else {
        None
    }
}

fn is_punctuation_text(t: &str) -> (r: bool)
    ensures
        r == is_punctuation(t@),
{
    str_eq(t, "(") || str_eq(t, ")") || str_eq(t, "[") || str_eq(t, "]") || str_eq(t, "{")
        || str_eq(t, "}") || str_eq(t, ",") || str_eq(t, ".") || str_eq(t, ":") || str_eq(t, ";")
}

pub fn find_anon_operator(node: &SyntaxNode) -> (r: Option<&str>)
    ensures
        r matches Some(t) ==> anon_operator(*node) == Some(t@),
        r is None ==> anon_operator(*node) is None,
{
    let ghost c = node.children@;
    let mut k: usize = 0;
    while k < node.children.len()
        invariant
            c == node.children@,
            0 <= k <= c.len(),
            anon_op_index_from(c, 0) == anon_op_index_from(c, k as int),
        decreases c.len() - k,
    {
        let child = &node.children[k];
        if !child.named && !is_punctuation_text(child.text.as_str()) {
            return Some(child.text.as_str());
        }
        k = k + 1;
    }
    None
}

} // verus!
