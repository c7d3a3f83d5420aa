//! Go adapter: from a tree-sitter-go syntax tree to the IR.
//!
//! Package clauses, imports and comments carry no algorithmic content and
//! are skipped silently; functions and methods become function items; any
//! other top-level declaration is kept raw.
use crate::diagnostics::{DiagV, RawDiagnostics, empty_diag};
use crate::error::{PseudoError, PseudoErrorV};
use crate::ir::{
    block_raw_exprs, block_raw_stmts, expr_raw_count, exprs_raw_count, items_raw_exprs,
    items_raw_items, items_raw_stmts, lemma_block_raw_concat, lemma_block_raw_cons,
    lemma_exprs_raw_cons, lemma_exprs_raw_small, lemma_items_raw_cons, stmt_raw_exprs,
    stmt_raw_stmts, BinOp, Block, Expr, ExprV, ForKind, ForKindV, Function, FunctionV, Item, ItemV, Literal, LiteralV,
    Module, ModuleV, Param, ParamV, Span, Stmt, StmtV, UnOp, VarDecl, VarDeclV, exprs_view,
    items_view, params_view, stmts_view,
};
use crate::parser::common::{
    PRes, bounded, lemma_notes, lemma_recorded_bounded, lemma_recorded_dropped,
    lemma_recorded_from_empty, lemma_recorded_trans, opt_block_raw, raw_counted, recorded,
    c_family_bin_op_spec, cons, lemma_prepend_cons, lemma_prepend_empty, lemma_prepend_err,
    lemma_prepend_prepend, note_expr, note_item, note_stmt, outcome, parse_c_family_bin_op,
    parse_err, parse_un_op, perr, prepend, record_raw_expr, record_raw_item, record_raw_stmt, single_block,
    un_op_spec,
};
use crate::parser::{LanguageParser, parse_view};
use crate::syntax::{
    SyntaxNode, TreeOutcome, child_of_kind, count_of_kind, field_child, field_index_from, go_tree,
    line_of, named_child, named_child_count, parse_go_tree,
};
use crate::text::{parse_i64, parse_i64_spec, str_eq, trim_matching, trim_pair};
use crate::SourceLang;
use vstd::prelude::*;

verus! {

pub struct GoParser;

// ---------------------------------------------------------------------------
// Lookups
// ---------------------------------------------------------------------------

/// The texts of the children of `c`, from position `k` on, that fill field
/// `f` (a field may be filled several times: `low, high int`).
pub open spec fn field_texts_from(c: Seq<SyntaxNode>, f: Seq<char>, k: int) -> Seq<Seq<char>>
    decreases c.len() - k,
{
    if k < 0 || k >= c.len() {
        Seq::empty()
    } else {
        (if c[k].field matches Some(name) && name@ == f {
            seq![c[k].text@]
        } else {
            Seq::empty()
        }) + field_texts_from(c, f, k + 1)
    }
}

/// The view of a list of strings, element by element.
pub open spec fn strings_view(v: Seq<String>) -> Seq<Seq<char>> {
    Seq::new(v.len(), |i: int| v[i]@)
}

/// The texts of every child of `n` that fills field `f`, in order.
pub open spec fn field_texts(n: SyntaxNode, f: Seq<char>) -> Seq<Seq<char>> {
    field_texts_from(n.children@, f, 0)
}

/// The names of a list of plain identifiers, from its `i`-th named child on;
/// `None` if one of them is anything else.
pub open spec fn ident_names_from(n: SyntaxNode, i: int) -> Option<Seq<Seq<char>>>
    decreases named_child_count(n) - i,
{
    if i < 0 || i >= named_child_count(n) {
        Some(Seq::empty())
    } else {
        match named_child(n, i) {
            None => Some(Seq::empty()),
            Some(c) => if c.kind@ != "identifier"@ {
                None
            } else {
                match ident_names_from(n, i + 1) {
                    None => None,
                    Some(rest) => Some(seq![c.text@] + rest),
                }
            },
        }
    }
}

/// The names on the left of `:=` or of a range clause: all plain
/// identifiers, and at least one.
pub open spec fn identifier_names(n: SyntaxNode) -> Option<Seq<Seq<char>>> {
    match ident_names_from(n, 0) {
        Some(s) => if s.len() > 0 {
            Some(s)
        } else {
            None
        },
        None => None,
    }
}

/// The position among the named children of `n`, from the `i`-th on, of the
/// first one that is not a comment, or -1.
pub open spec fn first_non_comment_index(n: SyntaxNode, i: int) -> int
    decreases named_child_count(n) - i,
{
    if i < 0 || i >= named_child_count(n) {
        -1
    } else {
        match named_child(n, i) {
            None => -1,
            Some(c) => if c.kind@ != "comment"@ {
                i
            } else {
                first_non_comment_index(n, i + 1)
            },
        }
    }
}

/// The first named child of `n` that is not a comment.
pub open spec fn first_non_comment(n: SyntaxNode) -> Option<SyntaxNode> {
    let j = first_non_comment_index(n, 0);
    if j >= 0 {
        named_child(n, j)
    } else {
        None
    }
}

/// Whether position `k` of a `for` statement's children `c` holds a part of
/// its header: a named node that is neither a comment nor the body (at
/// position `body`).
pub open spec fn is_loop_part(c: Seq<SyntaxNode>, body: int, k: int) -> bool {
    c[k].named && c[k].kind@ != "comment"@ && k != body
}

/// How many header parts there are in `c` from position `k` on.
pub open spec fn loop_part_count_from(c: Seq<SyntaxNode>, body: int, k: int) -> nat
    decreases c.len() - k,
{
    if k < 0 || k >= c.len() {
        0
    } else {
        loop_part_count_from(c, body, k + 1) + if is_loop_part(c, body, k) {
            1nat
        } else {
            0nat
        }
    }
}

/// The position of the first header part in `c` from position `k` on, or -1.
pub open spec fn first_loop_part_from(c: Seq<SyntaxNode>, body: int, k: int) -> int
    decreases c.len() - k,
{
    if k < 0 || k >= c.len() {
        -1
    } else if is_loop_part(c, body, k) {
        k
    } else {
        first_loop_part_from(c, body, k + 1)
    }
}

/// The position of a `for` statement's body among its children.
pub open spec fn body_index(n: SyntaxNode) -> int {
    field_index_from(n.children@, "body"@, 0)
}

/// How many named children a `for` statement has besides its body and
/// comments.
pub open spec fn loop_part_count(n: SyntaxNode) -> nat {
    loop_part_count_from(n.children@, body_index(n), 0)
}

/// The position of the first of them.
pub open spec fn first_loop_part(n: SyntaxNode) -> int {
    first_loop_part_from(n.children@, body_index(n), 0)
}

/// One expression as itself, several (or none) as a tuple.
pub open spec fn single_or_tuple(s: Seq<ExprV>) -> ExprV {
    if s.len() == 1 {
        s[0]
    } else {
        ExprV::Tuple(s)
    }
}

/// A declaration of `name` without type or value.
pub open spec fn bare_decl(name: Seq<char>) -> StmtV {
    StmtV::VarDecl(VarDeclV { name, type_hint: None, init: None })
}

/// The names as a tuple of identifiers.
pub open spec fn ident_tuple(names: Seq<Seq<char>>) -> ExprV {
    ExprV::Tuple(names.map_values(|s: Seq<char>| ExprV::Ident(s)))
}

/// What `names := values` (or `var names = values`) stands for: one name is
/// a declaration; several names with no value declare each; several names
/// with one (multi-value) expression, or as many values as names, assign to
/// a tuple. `None`: counts that valid Go does not produce.
pub open spec fn declare_or_assign(names: Seq<Seq<char>>, values: Seq<ExprV>) -> Option<Seq<StmtV>> {
    if names.len() == 1 && values.len() == 0 {
        Some(seq![bare_decl(names[0])])
    } else if names.len() == 1 && values.len() == 1 {
        Some(seq![StmtV::VarDecl(VarDeclV { name: names[0], type_hint: None, init: Some(values[0]) })])
    } else if values.len() == 0 {
        Some(names.map_values(|s: Seq<char>| bare_decl(s)))
    } else if values.len() == 1 {
        Some(seq![StmtV::Assign { target: ident_tuple(names), value: values[0] }])
    } else if names.len() == values.len() {
        Some(seq![StmtV::Assign { target: ident_tuple(names), value: ExprV::Tuple(values) }])
    } else {
        None
    }
}

// ---------------------------------------------------------------------------
// What the adapter does, stated over syntax trees
// ---------------------------------------------------------------------------

/// The IR of a Go expression node; anything unmapped stays raw, never an
/// error.
pub open spec fn go_expr(n: SyntaxNode, d: DiagV) -> PRes<ExprV>
    decreases n, 1nat, 0nat,
{
    let k = n.kind@;
    if k == "identifier"@ {
        Ok((ExprV::Ident(n.text@), d))
    } else if k == "true"@ {
        Ok((ExprV::Literal(LiteralV::Bool(true)), d))
    } else if k == "false"@ {
        Ok((ExprV::Literal(LiteralV::Bool(false)), d))
    } else if k == "nil"@ {
        Ok((ExprV::Literal(LiteralV::Nil), d))
    } else if k == "int_literal"@ {
        match parse_i64_spec(n.text@) {
            Some(v) => Ok((ExprV::Literal(LiteralV::Int(v)), d)),
            None => Ok((ExprV::Raw(n.text@), note_expr(d, line_of(n)))),
        }
    } else if k == "float_literal"@ {
        Ok((ExprV::Literal(LiteralV::Float(n.text@)), d))
    } else if k == "interpreted_string_literal"@ || k == "raw_string_literal"@ {
        Ok((ExprV::Literal(LiteralV::Str(trim_pair(n.text@, '"', '`'))), d))
    } else if k == "parenthesized_expression"@ {
        match first_non_comment(n) {
            None => Err(perr("parenthesized_expression empty"@)),
            Some(inner) => go_expr(inner, d),
        }
    } else if k == "binary_expression"@ {
        go_binary(n, d)
    } else if k == "unary_expression"@ {
        go_unary(n, d)
    } else if k == "call_expression"@ {
        go_call(n, d)
    } else if k == "index_expression"@ {
        go_index(n, d)
    } else if k == "selector_expression"@ {
        go_selector(n, d)
    } else {
        Ok((ExprV::Raw(n.text@), note_expr(d, line_of(n))))
    }
}

/// The IR operator of a binary expression's `operator` child.
pub open spec fn go_bin_op(n: SyntaxNode) -> Option<BinOp> {
    match field_child(n, "operator"@) {
        None => None,
        Some(op) => c_family_bin_op_spec(op.text@),
    }
}

/// A binary operation; a missing side or an unmapped operator stays raw.
pub open spec fn go_binary(n: SyntaxNode, d: DiagV) -> PRes<ExprV>
    decreases n, 0nat, 1nat,
{
    match (field_child(n, "left"@), field_child(n, "right"@)) {
        (Some(lhs), Some(rhs)) => match go_bin_op(n) {
            None => Ok((ExprV::Raw(n.text@), note_expr(d, line_of(n)))),
            Some(op) => match go_expr(lhs, d) {
                Err(e) => Err(e),
                Ok((l, d1)) => match go_expr(rhs, d1) {
                    Err(e) => Err(e),
                    Ok((r, d2)) => Ok(
                        (ExprV::Binary { op, lhs: Box::new(l), rhs: Box::new(r) }, d2),
                    ),
                },
            },
        },
        _ => Ok((ExprV::Raw(n.text@), note_expr(d, line_of(n)))),
    }
}

/// The IR operator of a unary expression's `operator` child.
pub open spec fn go_un_op(n: SyntaxNode) -> Option<UnOp> {
    match field_child(n, "operator"@) {
        None => None,
        Some(op) => un_op_spec(op.text@),
    }
}

/// A unary operation; operators without an IR counterpart (`^`, `&`, `*`,
/// `<-`) stay raw.
pub open spec fn go_unary(n: SyntaxNode, d: DiagV) -> PRes<ExprV>
    decreases n, 0nat, 1nat,
{
    match go_un_op(n) {
        None => Ok((ExprV::Raw(n.text@), note_expr(d, line_of(n)))),
        Some(op) => match field_child(n, "operand"@) {
            None => Err(perr("unary_expression missing operand"@)),
            Some(operand) => match go_expr(operand, d) {
                Err(e) => Err(e),
                Ok((x, d1)) => Ok((ExprV::Unary { op, expr: Box::new(x) }, d1)),
            },
        },
    }
}

/// A call: the arguments first, then the callee.
pub open spec fn go_call(n: SyntaxNode, d: DiagV) -> PRes<ExprV>
    decreases n, 0nat, 1nat,
{
    match field_child(n, "function"@) {
        None => Err(perr("call_expression missing function"@)),
        Some(f) => match field_child(n, "arguments"@) {
            None => Err(perr("call_expression missing arguments"@)),
            Some(an) => match go_exprs_from(an, 0, d) {
                Err(e) => Err(e),
                Ok((args, d1)) => match go_expr(f, d1) {
                    Err(e) => Err(e),
                    Ok((c, d2)) => Ok((ExprV::Call { callee: Box::new(c), args }, d2)),
                },
            },
        },
    }
}

/// `operand[index]`.
pub open spec fn go_index(n: SyntaxNode, d: DiagV) -> PRes<ExprV>
    decreases n, 0nat, 1nat,
{
    match field_child(n, "operand"@) {
        None => Err(perr("index_expression missing operand"@)),
        Some(obj) => match field_child(n, "index"@) {
            None => Err(perr("index_expression missing index"@)),
            Some(index) => match go_expr(obj, d) {
                Err(e) => Err(e),
                Ok((o, d1)) => match go_expr(index, d1) {
                    Err(e) => Err(e),
                    Ok((i, d2)) => Ok((ExprV::Index { obj: Box::new(o), index: Box::new(i) }, d2)),
                },
            },
        },
    }
}

/// `operand.field`.
pub open spec fn go_selector(n: SyntaxNode, d: DiagV) -> PRes<ExprV>
    decreases n, 0nat, 1nat,
{
    match field_child(n, "operand"@) {
        None => Err(perr("selector_expression missing operand"@)),
        Some(obj) => match field_child(n, "field"@) {
            None => Err(perr("selector_expression missing field"@)),
            Some(field) => match go_expr(obj, d) {
                Err(e) => Err(e),
                Ok((o, d1)) => Ok((ExprV::Field { obj: Box::new(o), name: field.text@ }, d1)),
            },
        },
    }
}

/// The IR of the named children of `n` from the `i`-th on, comments left
/// out.
pub open spec fn go_exprs_from(n: SyntaxNode, i: int, d: DiagV) -> PRes<Seq<ExprV>>
    decreases n, 0nat, named_child_count(n) - i,
{
    if i < 0 || i >= named_child_count(n) {
        Ok((Seq::empty(), d))
    } else {
        match named_child(n, i) {
            None => Ok((Seq::empty(), d)),
            Some(c) => if c.kind@ == "comment"@ {
                go_exprs_from(n, i + 1, d)
            } else {
                match go_expr(c, d) {
                    Err(e) => Err(e),
                    Ok((x, d1)) => cons(x, go_exprs_from(n, i + 1, d1)),
                }
            },
        }
    }
}

/// The IR of a Go statement node.
pub open spec fn go_stmt(n: SyntaxNode, d: DiagV) -> PRes<StmtV>
    decreases n, 3nat, 0nat,
{
    let k = n.kind@;
    if k == "expression_statement"@ {
        match named_child(n, 0) {
            None => Err(perr("expression_statement empty"@)),
            Some(inner) => match go_expr(inner, d) {
                Err(e) => Err(e),
                Ok((x, d1)) => Ok((StmtV::ExprStmt(x), d1)),
            },
        }
    } else if k == "short_var_declaration"@ {
        go_short_var(n, d)
    } else if k == "assignment_statement"@ {
        go_assignment(n, d)
    } else if k == "return_statement"@ {
        let values: PRes<Seq<ExprV>> = match child_of_kind(n, "expression_list"@) {
            Some(list) => go_exprs_from(list, 0, d),
            None => Ok((Seq::empty(), d)),
        };
        match values {
            Err(e) => Err(e),
            Ok((vs, d1)) => Ok(
                (
                    StmtV::Return(
                        if vs.len() == 0 {
                            None
                        } else if vs.len() == 1 {
                            Some(vs[0])
                        } else {
                            Some(ExprV::Tuple(vs))
                        },
                    ),
                    d1,
                ),
            ),
        }
    } else if k == "break_statement"@ {
        Ok((StmtV::Break, d))
    } else if k == "continue_statement"@ {
        Ok((StmtV::Continue, d))
    } else if k == "if_statement"@ {
        go_if(n, d)
    } else if k == "for_statement"@ {
        go_for(n, d)
    } else {
        Ok((StmtV::Raw(n.text@), note_stmt(d, line_of(n))))
    }
}

/// `names := values`: it must stand for exactly one statement, else it
/// stays raw.
pub open spec fn go_short_var(n: SyntaxNode, d: DiagV) -> PRes<StmtV>
    decreases n, 2nat, 0nat,
{
    match (field_child(n, "left"@), field_child(n, "right"@)) {
        (Some(left), Some(right)) => match go_exprs_from(right, 0, d) {
            Err(e) => Err(e),
            Ok((values, d1)) => {
                let stmts = match identifier_names(left) {
                    None => None,
                    Some(names) => declare_or_assign(names, values),
                };
                match stmts {
                    Some(ss) => if ss.len() == 1 {
                        Ok((ss[0], d1))
                    } else {
                        Ok((StmtV::Raw(n.text@), note_stmt(d1, line_of(n))))
                    },
                    None => Ok((StmtV::Raw(n.text@), note_stmt(d1, line_of(n)))),
                }
            },
        },
        _ => Ok((StmtV::Raw(n.text@), note_stmt(d, line_of(n)))),
    }
}

/// `targets = values`; compound assignments (`+=`, ...) stay raw.
pub open spec fn go_assignment(n: SyntaxNode, d: DiagV) -> PRes<StmtV>
    decreases n, 2nat, 0nat,
{
    if field_child(n, "operator"@) matches Some(op) && op.text@ != "="@ {
        Ok((StmtV::Raw(n.text@), note_stmt(d, line_of(n))))
    } else {
        match (field_child(n, "left"@), field_child(n, "right"@)) {
            (Some(left), Some(right)) => match go_exprs_from(left, 0, d) {
                Err(e) => Err(e),
                Ok((targets, d1)) => match go_exprs_from(right, 0, d1) {
                    Err(e) => Err(e),
                    Ok((values, d2)) => Ok(
                        (
                            StmtV::Assign {
                                target: single_or_tuple(targets),
                                value: single_or_tuple(values),
                            },
                            d2,
                        ),
                    ),
                },
            },
            _ => Ok((StmtV::Raw(n.text@), note_stmt(d, line_of(n)))),
        }
    }
}

/// `if cond {} else if ... {} else {}`: the else branch is read first, then
/// the condition, then the then branch; an `else if` nests the inner `if`
/// alone in the else branch.
pub open spec fn go_if(n: SyntaxNode, d: DiagV) -> PRes<StmtV>
    decreases n, 2nat, 0nat,
{
    match field_child(n, "condition"@) {
        None => Err(perr("if missing condition"@)),
        Some(cond) => match field_child(n, "consequence"@) {
            None => Err(perr("if missing consequence"@)),
            Some(cons_node) => {
                let els: PRes<Option<Seq<StmtV>>> = match field_child(n, "alternative"@) {
                    None => Ok((None, d)),
                    Some(alt) => if alt.kind@ == "if_statement"@ {
                        match go_if(alt, d) {
                            Err(e) => Err(e),
                            Ok((s, d1)) => Ok((Some(seq![s]), d1)),
                        }
                    } else {
                        match go_block(alt, d) {
                            Err(e) => Err(e),
                            Ok((b, d1)) => Ok((Some(b), d1)),
                        }
                    },
                };
                match els {
                    Err(e) => Err(e),
                    Ok((else_block, d1)) => match go_expr(cond, d1) {
                        Err(e) => Err(e),
                        Ok((c, d2)) => match go_block(cons_node, d2) {
                            Err(e) => Err(e),
                            Ok((t, d3)) => Ok(
                                (StmtV::If { cond: c, then_block: t, else_block }, d3),
                            ),
                        },
                    },
                }
            },
        },
    }
}

/// A `for` statement. Its shape comes from its named children: a
/// `for_clause` is a counted loop (the update, `i++` and the like, is kept
/// raw; a clause missing a part keeps the whole loop raw); a `range_clause`
/// with one loop variable iterates (two variables keep the loop raw); else
/// the one other child is a while condition, and none loops while true.
pub open spec fn go_for(n: SyntaxNode, d: DiagV) -> PRes<StmtV>
    decreases n, 2nat, 0nat,
{
    match field_child(n, "body"@) {
        None => Err(perr("for missing body"@)),
        Some(body) => match child_of_kind(n, "for_clause"@) {
            Some(clause) => match (
                field_child(clause, "initializer"@),
                field_child(clause, "condition"@),
                field_child(clause, "update"@),
            ) {
                (Some(init), Some(cond), Some(update)) => match go_stmt(init, d) {
                    Err(e) => Err(e),
                    Ok((i, d1)) => match go_expr(cond, d1) {
                        Err(e) => Err(e),
                        Ok((c, d2)) => match go_block(body, note_expr(d2, line_of(update))) {
                            Err(e) => Err(e),
                            Ok((b, d3)) => Ok(
                                (
                                    StmtV::For {
                                        kind: ForKindV::CStyle {
                                            init: Box::new(i),
                                            cond: c,
                                            step: ExprV::Raw(update.text@),
                                        },
                                        body: b,
                                    },
                                    d3,
                                ),
                            ),
                        },
                    },
                },
                _ => Ok((StmtV::Raw(n.text@), note_stmt(d, line_of(n)))),
            },
            None => match child_of_kind(n, "range_clause"@) {
                Some(clause) => match (field_child(clause, "left"@), field_child(clause, "right"@)) {
                    (Some(left), Some(right)) => match identifier_names(left) {
                        Some(names) => if names.len() == 1 {
                            match go_expr(right, d) {
                                Err(e) => Err(e),
                                Ok((x, d1)) => match go_block(body, d1) {
                                    Err(e) => Err(e),
                                    Ok((b, d2)) => Ok(
                                        (
                                            StmtV::For {
                                                kind: ForKindV::ForEach { var: names[0], iter: x },
                                                body: b,
                                            },
                                            d2,
                                        ),
                                    ),
                                },
                            }
                        } else {
                            Ok((StmtV::Raw(n.text@), note_stmt(d, line_of(n))))
                        },
                        None => Ok((StmtV::Raw(n.text@), note_stmt(d, line_of(n)))),
                    },
                    _ => Ok((StmtV::Raw(n.text@), note_stmt(d, line_of(n)))),
                },
                None => {
                    let j = first_loop_part(n);
                    if loop_part_count(n) == 0 {
                        match go_block(body, d) {
                            Err(e) => Err(e),
                            Ok((b, d1)) => Ok(
                                (
                                    StmtV::While {
                                        cond: ExprV::Literal(LiteralV::Bool(true)),
                                        body: b,
                                    },
                                    d1,
                                ),
                            ),
                        }
                    } else if loop_part_count(n) == 1 && 0 <= j < n.children.len() {
                        match go_expr(n.children@[j], d) {
                            Err(e) => Err(e),
                            Ok((c, d1)) => match go_block(body, d1) {
                                Err(e) => Err(e),
                                Ok((b, d2)) => Ok((StmtV::While { cond: c, body: b }, d2)),
                            },
                        }
                    } else {
                        Ok((StmtV::Raw(n.text@), note_stmt(d, line_of(n))))
                    }
                },
            },
        },
    }
}

/// A body: the statements of its `statement_list`, if it has one.
pub open spec fn go_block(n: SyntaxNode, d: DiagV) -> PRes<Seq<StmtV>>
    decreases n, 4nat, 0nat,
{
    match child_of_kind(n, "statement_list"@) {
        None => Ok((Seq::empty(), d)),
        Some(list) => go_list_from(list, 0, d),
    }
}

/// The statements of a statement list from its `i`-th named child on:
/// comments are skipped, a `var`/`const` declaration gives one statement
/// per declared name or spec.
pub open spec fn go_list_from(n: SyntaxNode, i: int, d: DiagV) -> PRes<Seq<StmtV>>
    decreases n, 0nat, named_child_count(n) - i,
{
    if i < 0 || i >= named_child_count(n) {
        Ok((Seq::empty(), d))
    } else {
        match named_child(n, i) {
            None => Ok((Seq::empty(), d)),
            Some(c) => if c.kind@ == "comment"@ {
                go_list_from(n, i + 1, d)
            } else if c.kind@ == "var_declaration"@ || c.kind@ == "const_declaration"@ {
                match go_var_declaration(c, d) {
                    Err(e) => Err(e),
                    Ok((ss, d1)) => prepend(ss, go_list_from(n, i + 1, d1)),
                }
            } else {
                match go_stmt(c, d) {
                    Err(e) => Err(e),
                    Ok((x, d1)) => cons(x, go_list_from(n, i + 1, d1)),
                }
            },
        }
    }
}

/// The kind of the specs of a `var` or `const` declaration.
pub open spec fn spec_kind(n: SyntaxNode) -> Seq<char> {
    if n.kind@ == "var_declaration"@ {
        "var_spec"@
    } else {
        "const_spec"@
    }
}

/// The node whose named children are the specs of a declaration: the
/// declaration itself, or its `var_spec_list` for a grouped one.
pub open spec fn spec_holder(n: SyntaxNode) -> SyntaxNode {
    if count_of_kind(n, spec_kind(n)) == 0 && child_of_kind(n, "var_spec_list"@) is Some {
        child_of_kind(n, "var_spec_list"@)->0
    } else {
        n
    }
}

/// The statements of one spec: what its names and values stand for, or the
/// spec kept raw.
pub open spec fn go_spec(s: SyntaxNode, d: DiagV) -> PRes<Seq<StmtV>> {
    let values: PRes<Seq<ExprV>> = match field_child(s, "value"@) {
        Some(list) => go_exprs_from(list, 0, d),
        None => Ok((Seq::empty(), d)),
    };
    match values {
        Err(e) => Err(e),
        Ok((vs, d1)) => match declare_or_assign(field_texts(s, "name"@), vs) {
            Some(ss) => Ok((ss, d1)),
            None => Ok((seq![StmtV::Raw(s.text@)], note_stmt(d1, line_of(s)))),
        },
    }
}

/// The statements of the specs of kind `k` among the named children of `h`
/// from the `i`-th on.
pub open spec fn go_specs_from(h: SyntaxNode, k: Seq<char>, i: int, d: DiagV) -> PRes<Seq<StmtV>>
    decreases named_child_count(h) - i,
{
    if i < 0 || i >= named_child_count(h) {
        Ok((Seq::empty(), d))
    } else {
        match named_child(h, i) {
            None => Ok((Seq::empty(), d)),
            Some(c) => if c.kind@ == k {
                match go_spec(c, d) {
                    Err(e) => Err(e),
                    Ok((ss, d1)) => prepend(ss, go_specs_from(h, k, i + 1, d1)),
                }
            } else {
                go_specs_from(h, k, i + 1, d)
            },
        }
    }
}

/// `var x int = 3`, `var y, z int`, `const k = 10`, `var ( ... )`: the
/// statements of all specs; a declaration that yields none stays raw.
pub open spec fn go_var_declaration(n: SyntaxNode, d: DiagV) -> PRes<Seq<StmtV>> {
    match go_specs_from(spec_holder(n), spec_kind(n), 0, d) {
        Err(e) => Err(e),
        Ok((ss, d1)) => if ss.len() == 0 {
            Ok((seq![StmtV::Raw(n.text@)], note_stmt(d1, line_of(n))))
        } else {
            Ok((ss, d1))
        },
    }
}

/// The parameters of a parameter list: every name of every declaration, in
/// order (`low, high int` gives two).
pub open spec fn go_params_from(n: SyntaxNode, i: int) -> Seq<ParamV>
    decreases named_child_count(n) - i,
{
    if i < 0 || i >= named_child_count(n) {
        Seq::empty()
    } else {
        match named_child(n, i) {
            None => Seq::empty(),
            Some(c) => (if c.kind@ == "parameter_declaration"@ {
                field_texts(c, "name"@).map_values(|s: Seq<char>| ParamV { name: s, type_hint: None })
            } else {
                Seq::empty()
            }) + go_params_from(n, i + 1),
        }
    }
}

/// The parameters of a function: a method's receiver first.
pub open spec fn go_params(n: SyntaxNode, pn: SyntaxNode) -> Seq<ParamV> {
    (match field_child(n, "receiver"@) {
        Some(r) => go_params_from(r, 0),
        None => Seq::empty(),
    }) + go_params_from(pn, 0)
}

/// A function or method declaration; one without a body stays a raw item.
pub open spec fn go_function(n: SyntaxNode, d: DiagV) -> PRes<ItemV> {
    match field_child(n, "name"@) {
        None => Err(perr("function missing name"@)),
        Some(name) => match field_child(n, "parameters"@) {
            None => Err(perr("function missing parameters"@)),
            Some(pn) => match field_child(n, "body"@) {
                None => Ok((ItemV::Raw(n.text@), note_item(d, line_of(n)))),
                Some(body) => match go_block(body, d) {
                    Err(e) => Err(e),
                    Ok((b, d1)) => Ok(
                        (
                            ItemV::Function(
                                FunctionV {
                                    name: name.text@,
                                    params: go_params(n, pn),
                                    return_type: None,
                                    body: b,
                                    span: Span { start: n.start_byte, end: n.end_byte },
                                },
                            ),
                            d1,
                        ),
                    ),
                },
            },
        },
    }
}

/// The items of a source file from its `i`-th top-level node on.
pub open spec fn go_items_from(root: SyntaxNode, i: int, d: DiagV) -> PRes<Seq<ItemV>>
    decreases named_child_count(root) - i,
{
    if i < 0 || i >= named_child_count(root) {
        Ok((Seq::empty(), d))
    } else {
        match named_child(root, i) {
            None => Ok((Seq::empty(), d)),
            Some(c) => {
                let k = c.kind@;
                if k == "package_clause"@ || k == "import_declaration"@ || k == "comment"@ {
                    go_items_from(root, i + 1, d)
                } else if k == "function_declaration"@ || k == "method_declaration"@ {
                    match go_function(c, d) {
                        Err(e) => Err(e),
                        Ok((it, d1)) => cons(it, go_items_from(root, i + 1, d1)),
                    }
                } else {
                    cons(ItemV::Raw(c.text@), go_items_from(root, i + 1, note_item(d, line_of(c))))
                }
            },
        }
    }
}

/// What parsing a Go source text gives.
pub open spec fn go_parse(source: Seq<char>) -> core::result::Result<(ModuleV, DiagV), PseudoErrorV> {
    match go_tree(source) {
        TreeOutcome::GrammarRejected(m) => Err(PseudoErrorV::Internal("tree-sitter init: "@ + m@)),
        TreeOutcome::NoTree => Err(perr("parse failed"@)),
        TreeOutcome::Parsed(root) => go_module(root),
    }
}

/// What the Go adapter makes of a syntax tree.
pub open spec fn go_module(root: SyntaxNode) -> core::result::Result<(ModuleV, DiagV), PseudoErrorV> {
    if root.has_error {
        Err(perr("syntax error"@))
    } else {
        match go_items_from(root, 0, empty_diag()) {
            Err(e) => Err(e),
            Ok((items, d)) => Ok((ModuleV { source_language: SourceLang::Go, items }, d)),
        }
    }
}

// ---------------------------------------------------------------------------
// The diagnostics count the raw fragments
// ---------------------------------------------------------------------------

/// A tuple of identifiers holds no raw expression.
proof fn lemma_ident_tuple_counts(names: Seq<Seq<char>>)
    ensures
        exprs_raw_count(names.map_values(|s: Seq<char>| ExprV::Ident(s))) == 0,
        expr_raw_count(ident_tuple(names)) == 0,
    decreases names.len(),
{
    let m = names.map_values(|s: Seq<char>| ExprV::Ident(s));
    assert(ident_tuple(names) == ExprV::Tuple(m));
    if names.len() == 0 {
        assert(m.len() == 0);
    } else {
        assert(m.drop_last() =~= names.drop_last().map_values(|s: Seq<char>| ExprV::Ident(s)));
        assert(m.last() == ExprV::Ident(names.last()));
        assert(expr_raw_count(ExprV::Ident(names.last())) == 0);
        lemma_ident_tuple_counts(names.drop_last());
        assert(exprs_raw_count(m) == exprs_raw_count(m.drop_last()) + expr_raw_count(m.last()));
    }
    assert(exprs_raw_count(m) == 0);
}

/// Declarations without values hold no raw fragment.
proof fn lemma_bare_decls_counts(names: Seq<Seq<char>>)
    ensures
        block_raw_stmts(names.map_values(|s: Seq<char>| bare_decl(s))) == 0,
        block_raw_exprs(names.map_values(|s: Seq<char>| bare_decl(s))) == 0,
    decreases names.len(),
{
    let m = names.map_values(|s: Seq<char>| bare_decl(s));
    if names.len() == 0 {
        assert(m.len() == 0);
    } else {
        assert(m.drop_last() =~= names.drop_last().map_values(|s: Seq<char>| bare_decl(s)));
        assert(m.last() == bare_decl(names.last()));
        assert(stmt_raw_stmts(bare_decl(names.last())) == 0);
        assert(stmt_raw_exprs(bare_decl(names.last())) == 0);
        lemma_bare_decls_counts(names.drop_last());
        assert(block_raw_stmts(m) == block_raw_stmts(m.drop_last()) + stmt_raw_stmts(m.last()));
        assert(block_raw_exprs(m) == block_raw_exprs(m.drop_last()) + stmt_raw_exprs(m.last()));
    }
    assert(block_raw_stmts(m) == 0);
}

/// What `names := values` stands for holds no raw statement, and no more raw
/// expressions than the values.
proof fn lemma_declare_or_assign_counts(names: Seq<Seq<char>>, values: Seq<ExprV>)
    ensures
        declare_or_assign(names, values) matches Some(ss) ==> block_raw_stmts(ss) == 0
            && block_raw_exprs(ss) <= exprs_raw_count(values),
{
    lemma_exprs_raw_small(values);
    lemma_ident_tuple_counts(names);
    lemma_bare_decls_counts(names);
    assert(exprs_raw_count(Seq::<ExprV>::empty()) == 0);
    if names.len() == 1 && values.len() == 0 {
        lemma_block_raw_cons(bare_decl(names[0]), Seq::empty());
    } else if names.len() == 1 && values.len() == 1 {
        lemma_block_raw_cons(
            StmtV::VarDecl(VarDeclV { name: names[0], type_hint: None, init: Some(values[0]) }),
            Seq::empty(),
        );
    } else if values.len() == 0 {
    } else if values.len() == 1 {
        lemma_block_raw_cons(StmtV::Assign { target: ident_tuple(names), value: values[0] }, Seq::empty());
    } else if names.len() == values.len() {
        lemma_block_raw_cons(
            StmtV::Assign { target: ident_tuple(names), value: ExprV::Tuple(values) },
            Seq::empty(),
        );
    }
}

/// One expression or a tuple of several holds the raw expressions of all.
proof fn lemma_single_or_tuple_counts(s: Seq<ExprV>)
    ensures
        expr_raw_count(single_or_tuple(s)) == exprs_raw_count(s),
{
    lemma_exprs_raw_small(s);
}

proof fn lemma_go_expr_counts(n: SyntaxNode, d: DiagV)
    requires
        bounded(d),
    ensures
        go_expr(n, d) matches Ok((x, d2)) ==> recorded(d, d2, 0, 0, expr_raw_count(x)),
    decreases n, 1nat, 0nat,
{
    lemma_notes(d, line_of(n));
    let k = n.kind@;
    if k == "parenthesized_expression"@ {
        match first_non_comment(n) {
            Some(inner) => lemma_go_expr_counts(inner, d),
            None => {},
        }
    } else if k == "binary_expression"@ {
        lemma_go_binary_counts(n, d);
    } else if k == "unary_expression"@ {
        lemma_go_unary_counts(n, d);
    } else if k == "call_expression"@ {
        lemma_go_call_counts(n, d);
    } else if k == "index_expression"@ {
        lemma_go_index_counts(n, d);
    } else if k == "selector_expression"@ {
        lemma_go_selector_counts(n, d);
    }
}

proof fn lemma_go_binary_counts(n: SyntaxNode, d: DiagV)
    requires
        bounded(d),
    ensures
        go_binary(n, d) matches Ok((x, d2)) ==> recorded(d, d2, 0, 0, expr_raw_count(x)),
    decreases n, 0nat, 1nat,
{
    lemma_notes(d, line_of(n));
    match (field_child(n, "left"@), field_child(n, "right"@)) {
        (Some(lhs), Some(rhs)) => {
            lemma_go_expr_counts(lhs, d);
            match go_expr(lhs, d) {
                Ok((x, d1)) => {
                    lemma_go_expr_counts(rhs, d1);
                    match go_expr(rhs, d1) {
                        Ok((y, d2)) => {
                            lemma_recorded_trans(d, d1, d2, 0, 0, expr_raw_count(x), 0, 0, expr_raw_count(y));
                        },
                        Err(_) => {},
                    }
                },
                Err(_) => {},
            }
        },
        _ => {},
    }
}

proof fn lemma_go_unary_counts(n: SyntaxNode, d: DiagV)
    requires
        bounded(d),
    ensures
        go_unary(n, d) matches Ok((x, d2)) ==> recorded(d, d2, 0, 0, expr_raw_count(x)),
    decreases n, 0nat, 1nat,
{
    lemma_notes(d, line_of(n));
    match field_child(n, "operand"@) {
        Some(operand) => lemma_go_expr_counts(operand, d),
        None => {},
    }
}

proof fn lemma_go_call_counts(n: SyntaxNode, d: DiagV)
    requires
        bounded(d),
    ensures
        go_call(n, d) matches Ok((x, d2)) ==> recorded(d, d2, 0, 0, expr_raw_count(x)),
    decreases n, 0nat, 1nat,
{
    match (field_child(n, "function"@), field_child(n, "arguments"@)) {
        (Some(f), Some(an)) => {
            lemma_go_exprs_from_counts(an, 0, d);
            match go_exprs_from(an, 0, d) {
                Ok((args, d1)) => {
                    lemma_go_expr_counts(f, d1);
                    match go_expr(f, d1) {
                        Ok((c, d2)) => {
                            lemma_recorded_trans(d, d1, d2, 0, 0, exprs_raw_count(args), 0, 0, expr_raw_count(c));
                        },
                        Err(_) => {},
                    }
                },
                Err(_) => {},
            }
        },
        _ => {},
    }
}

proof fn lemma_go_index_counts(n: SyntaxNode, d: DiagV)
    requires
        bounded(d),
    ensures
        go_index(n, d) matches Ok((x, d2)) ==> recorded(d, d2, 0, 0, expr_raw_count(x)),
    decreases n, 0nat, 1nat,
{
    match (field_child(n, "operand"@), field_child(n, "index"@)) {
        (Some(obj), Some(index)) => {
            lemma_go_expr_counts(obj, d);
            match go_expr(obj, d) {
                Ok((x, d1)) => {
                    lemma_go_expr_counts(index, d1);
                    match go_expr(index, d1) {
                        Ok((y, d2)) => {
                            lemma_recorded_trans(d, d1, d2, 0, 0, expr_raw_count(x), 0, 0, expr_raw_count(y));
                        },
                        Err(_) => {},
                    }
                },
                Err(_) => {},
            }
        },
        _ => {},
    }
}

proof fn lemma_go_selector_counts(n: SyntaxNode, d: DiagV)
    requires
        bounded(d),
    ensures
        go_selector(n, d) matches Ok((x, d2)) ==> recorded(d, d2, 0, 0, expr_raw_count(x)),
    decreases n, 0nat, 1nat,
{
    match field_child(n, "operand"@) {
        Some(obj) => lemma_go_expr_counts(obj, d),
        None => {},
    }
}

proof fn lemma_go_exprs_from_counts(n: SyntaxNode, i: int, d: DiagV)
    requires
        bounded(d),
    ensures
        go_exprs_from(n, i, d) matches Ok((xs, d2)) ==> recorded(d, d2, 0, 0, exprs_raw_count(xs)),
    decreases n, 0nat, named_child_count(n) - i,
{
    lemma_notes(d, 0);
    assert(exprs_raw_count(Seq::<ExprV>::empty()) == 0);
    if 0 <= i < named_child_count(n) {
        match named_child(n, i) {
            Some(c) => if c.kind@ == "comment"@ {
                lemma_go_exprs_from_counts(n, i + 1, d);
            } else {
                lemma_go_expr_counts(c, d);
                match go_expr(c, d) {
                    Ok((x, d1)) => {
                        lemma_go_exprs_from_counts(n, i + 1, d1);
                        match go_exprs_from(n, i + 1, d1) {
                            Ok((rest, d2)) => {
                                lemma_exprs_raw_cons(x, rest);
                                lemma_recorded_trans(d, d1, d2, 0, 0, expr_raw_count(x), 0, 0, exprs_raw_count(rest));
                            },
                            Err(_) => {},
                        }
                    },
                    Err(_) => {},
                }
            },
            None => {},
        }
    }
}

proof fn lemma_go_stmt_counts(n: SyntaxNode, d: DiagV)
    requires
        bounded(d),
    ensures
        go_stmt(n, d) matches Ok((s, d2)) ==> recorded(d, d2, 0, stmt_raw_stmts(s), stmt_raw_exprs(s)),
    decreases n, 3nat, 0nat,
{
    lemma_notes(d, line_of(n));
    let k = n.kind@;
    if k == "expression_statement"@ {
        match named_child(n, 0) {
            Some(inner) => lemma_go_expr_counts(inner, d),
            None => {},
        }
    } else if k == "short_var_declaration"@ {
        lemma_go_short_var_counts(n, d);
    } else if k == "assignment_statement"@ {
        lemma_go_assignment_counts(n, d);
    } else if k == "return_statement"@ {
        assert(exprs_raw_count(Seq::<ExprV>::empty()) == 0);
        match child_of_kind(n, "expression_list"@) {
            Some(list) => {
                lemma_go_exprs_from_counts(list, 0, d);
                match go_exprs_from(list, 0, d) {
                    Ok((vs, d1)) => lemma_exprs_raw_small(vs),
                    Err(_) => {},
                }
            },
            None => {},
        }
    } else if k == "if_statement"@ {
        lemma_go_if_counts(n, d);
    } else if k == "for_statement"@ {
        lemma_go_for_counts(n, d);
    }
}

proof fn lemma_go_short_var_counts(n: SyntaxNode, d: DiagV)
    requires
        bounded(d),
    ensures
        go_short_var(n, d) matches Ok((s, d2)) ==> recorded(d, d2, 0, stmt_raw_stmts(s), stmt_raw_exprs(s)),
    decreases n, 2nat, 0nat,
{
    lemma_notes(d, line_of(n));
    match (field_child(n, "left"@), field_child(n, "right"@)) {
        (Some(left), Some(right)) => {
            lemma_go_exprs_from_counts(right, 0, d);
            match go_exprs_from(right, 0, d) {
                Ok((values, d1)) => {
                    let e = exprs_raw_count(values);
                    lemma_recorded_bounded(d, d1, 0, 0, e);
                    lemma_notes(d1, line_of(n));
                    lemma_recorded_trans(d, d1, note_stmt(d1, line_of(n)), 0, 0, e, 0, 1, 0);
                    lemma_recorded_dropped(d, note_stmt(d1, line_of(n)), 0, 1, 0, e);
                    match identifier_names(left) {
                        Some(names) => {
                            lemma_declare_or_assign_counts(names, values);
                            match declare_or_assign(names, values) {
                                Some(ss) => if ss.len() == 1 {
                                    assert(ss =~= seq![ss[0]]);
                                    lemma_block_raw_cons(ss[0], Seq::empty());
                                    lemma_recorded_dropped(d, d1, 0, 0, stmt_raw_exprs(ss[0]), (e - stmt_raw_exprs(ss[0])) as nat);
                                },
                                None => {},
                            }
                        },
                        None => {},
                    }
                },
                Err(_) => {},
            }
        },
        _ => {},
    }
}

proof fn lemma_go_assignment_counts(n: SyntaxNode, d: DiagV)
    requires
        bounded(d),
    ensures
        go_assignment(n, d) matches Ok((s, d2)) ==> recorded(d, d2, 0, stmt_raw_stmts(s), stmt_raw_exprs(s)),
    decreases n, 2nat, 0nat,
{
    lemma_notes(d, line_of(n));
    match (field_child(n, "left"@), field_child(n, "right"@)) {
        (Some(left), Some(right)) => {
            lemma_go_exprs_from_counts(left, 0, d);
            match go_exprs_from(left, 0, d) {
                Ok((targets, d1)) => {
                    lemma_go_exprs_from_counts(right, 0, d1);
                    match go_exprs_from(right, 0, d1) {
                        Ok((values, d2)) => {
                            lemma_single_or_tuple_counts(targets);
                            lemma_single_or_tuple_counts(values);
                            lemma_recorded_trans(d, d1, d2, 0, 0, exprs_raw_count(targets), 0, 0, exprs_raw_count(values));
                        },
                        Err(_) => {},
                    }
                },
                Err(_) => {},
            }
        },
        _ => {},
    }
}

#[verifier::spinoff_prover]
proof fn lemma_go_if_counts(n: SyntaxNode, d: DiagV)
    requires
        bounded(d),
    ensures
        go_if(n, d) matches Ok((s, d2)) ==> recorded(d, d2, 0, stmt_raw_stmts(s), stmt_raw_exprs(s)),
    decreases n, 2nat, 0nat,
{
    lemma_notes(d, 0);
    match (field_child(n, "condition"@), field_child(n, "consequence"@)) {
        (Some(cond), Some(cons_node)) => {
            let els: PRes<Option<Seq<StmtV>>> = match field_child(n, "alternative"@) {
                None => Ok((None, d)),
                Some(alt) => if alt.kind@ == "if_statement"@ {
                    match go_if(alt, d) {
                        Err(e) => Err(e),
                        Ok((s, d1)) => Ok((Some(seq![s]), d1)),
                    }
                } else {
                    match go_block(alt, d) {
                        Err(e) => Err(e),
                        Ok((b, d1)) => Ok((Some(b), d1)),
                    }
                },
            };
            match field_child(n, "alternative"@) {
                None => {},
                Some(alt) => if alt.kind@ == "if_statement"@ {
                    lemma_go_if_counts(alt, d);
                    match go_if(alt, d) {
                        Ok((s, d1)) => lemma_block_raw_cons(s, Seq::empty()),
                        Err(_) => {},
                    }
                } else {
                    lemma_go_block_counts(alt, d);
                },
            }
            match els {
                Ok((eb, d1)) => {
                    let (es, ee) = opt_block_raw(eb);
                    lemma_go_expr_counts(cond, d1);
                    match go_expr(cond, d1) {
                        Ok((c, d2)) => {
                            lemma_go_block_counts(cons_node, d2);
                            match go_block(cons_node, d2) {
                                Ok((t, d3)) => {
                                    lemma_recorded_trans(d, d1, d2, 0, es, ee, 0, 0, expr_raw_count(c));
                                    lemma_recorded_trans(d, d2, d3, 0, es, ee + expr_raw_count(c), 0, block_raw_stmts(t), block_raw_exprs(t));
                                },
                                Err(_) => {},
                            }
                        },
                        Err(_) => {},
                    }
                },
                Err(_) => {},
            }
        },
        _ => {},
    }
}

proof fn lemma_go_for_counts(n: SyntaxNode, d: DiagV)
    requires
        bounded(d),
    ensures
        go_for(n, d) matches Ok((s, d2)) ==> recorded(d, d2, 0, stmt_raw_stmts(s), stmt_raw_exprs(s)),
    decreases n, 2nat, 0nat,
{
    lemma_notes(d, line_of(n));
    match field_child(n, "body"@) {
        Some(body) => match child_of_kind(n, "for_clause"@) {
            Some(clause) => match (
                field_child(clause, "initializer"@),
                field_child(clause, "condition"@),
                field_child(clause, "update"@),
            ) {
                (Some(init), Some(cond), Some(update)) => {
                    lemma_go_stmt_counts(init, d);
                    match go_stmt(init, d) {
                        Ok((i, d1)) => {
                            lemma_go_expr_counts(cond, d1);
                            match go_expr(cond, d1) {
                                Ok((c, d2)) => {
                                    let si = stmt_raw_stmts(i);
                                    let ei = stmt_raw_exprs(i);
                                    let ec = expr_raw_count(c);
                                    let d2n = note_expr(d2, line_of(update));
                                    lemma_recorded_trans(d, d1, d2, 0, si, ei, 0, 0, ec);
                                    lemma_notes(d2, line_of(update));
                                    lemma_recorded_trans(d, d2, d2n, 0, si, ei + ec, 0, 0, 1);
                                    lemma_go_block_counts(body, d2n);
                                    match go_block(body, d2n) {
                                        Ok((b, d3)) => {
                                            lemma_recorded_trans(d, d2n, d3, 0, si, ei + ec + 1, 0, block_raw_stmts(b), block_raw_exprs(b));
                                        },
                                        Err(_) => {},
                                    }
                                },
                                Err(_) => {},
                            }
                        },
                        Err(_) => {},
                    }
                },
                _ => {},
            },
            None => match child_of_kind(n, "range_clause"@) {
                Some(clause) => match (field_child(clause, "left"@), field_child(clause, "right"@)) {
                    (Some(left), Some(right)) => {
                        lemma_go_expr_counts(right, d);
                        match go_expr(right, d) {
                            Ok((x, d1)) => {
                                lemma_go_block_counts(body, d1);
                                match go_block(body, d1) {
                                    Ok((b, d2)) => {
                                        lemma_recorded_trans(d, d1, d2, 0, 0, expr_raw_count(x), 0, block_raw_stmts(b), block_raw_exprs(b));
                                    },
                                    Err(_) => {},
                                }
                            },
                            Err(_) => {},
                        }
                    },
                    _ => {},
                },
                None => {
                    let j = first_loop_part(n);
                    lemma_go_block_counts(body, d);
                    if loop_part_count(n) == 1 && 0 <= j < n.children.len() {
                        lemma_go_expr_counts(n.children@[j], d);
                        match go_expr(n.children@[j], d) {
                            Ok((c, d1)) => {
                                lemma_go_block_counts(body, d1);
                                match go_block(body, d1) {
                                    Ok((b, d2)) => {
                                        lemma_recorded_trans(d, d1, d2, 0, 0, expr_raw_count(c), 0, block_raw_stmts(b), block_raw_exprs(b));
                                    },
                                    Err(_) => {},
                                }
                            },
                            Err(_) => {},
                        }
                    }
                },
            },
        },
        None => {},
    }
}

proof fn lemma_go_block_counts(n: SyntaxNode, d: DiagV)
    requires
        bounded(d),
    ensures
        go_block(n, d) matches Ok((b, d2)) ==> recorded(d, d2, 0, block_raw_stmts(b), block_raw_exprs(b)),
    decreases n, 4nat, 0nat,
{
    assert(block_raw_stmts(Seq::<StmtV>::empty()) == 0);
    assert(block_raw_exprs(Seq::<StmtV>::empty()) == 0);
    lemma_notes(d, 0);
    match child_of_kind(n, "statement_list"@) {
        Some(list) => lemma_go_list_from_counts(list, 0, d),
        None => {},
    }
}

proof fn lemma_go_list_from_counts(n: SyntaxNode, i: int, d: DiagV)
    requires
        bounded(d),
    ensures
        go_list_from(n, i, d) matches Ok((b, d2)) ==> recorded(d, d2, 0, block_raw_stmts(b), block_raw_exprs(b)),
    decreases n, 0nat, named_child_count(n) - i,
{
    assert(block_raw_stmts(Seq::<StmtV>::empty()) == 0);
    assert(block_raw_exprs(Seq::<StmtV>::empty()) == 0);
    lemma_notes(d, 0);
    if 0 <= i < named_child_count(n) {
        match named_child(n, i) {
            Some(c) => if c.kind@ == "comment"@ {
                lemma_go_list_from_counts(n, i + 1, d);
            } else if c.kind@ == "var_declaration"@ || c.kind@ == "const_declaration"@ {
                lemma_go_var_declaration_counts(c, d);
                match go_var_declaration(c, d) {
                    Ok((ss, d1)) => {
                        lemma_go_list_from_counts(n, i + 1, d1);
                        match go_list_from(n, i + 1, d1) {
                            Ok((rest, d2)) => {
                                lemma_block_raw_concat(ss, rest);
                                lemma_recorded_trans(d, d1, d2, 0, block_raw_stmts(ss), block_raw_exprs(ss), 0, block_raw_stmts(rest), block_raw_exprs(rest));
                            },
                            Err(_) => {},
                        }
                    },
                    Err(_) => {},
                }
            } else {
                lemma_go_stmt_counts(c, d);
                match go_stmt(c, d) {
                    Ok((x, d1)) => {
                        lemma_go_list_from_counts(n, i + 1, d1);
                        match go_list_from(n, i + 1, d1) {
                            Ok((rest, d2)) => {
                                lemma_block_raw_cons(x, rest);
                                lemma_recorded_trans(d, d1, d2, 0, stmt_raw_stmts(x), stmt_raw_exprs(x), 0, block_raw_stmts(rest), block_raw_exprs(rest));
                            },
                            Err(_) => {},
                        }
                    },
                    Err(_) => {},
                }
            },
            None => {},
        }
    }
}

proof fn lemma_go_spec_counts(s: SyntaxNode, d: DiagV)
    requires
        bounded(d),
    ensures
        go_spec(s, d) matches Ok((b, d2)) ==> recorded(d, d2, 0, block_raw_stmts(b), block_raw_exprs(b)),
{
    lemma_notes(d, 0);
    assert(exprs_raw_count(Seq::<ExprV>::empty()) == 0);
    let values: PRes<Seq<ExprV>> = match field_child(s, "value"@) {
        Some(list) => go_exprs_from(list, 0, d),
        None => Ok((Seq::empty(), d)),
    };
    match field_child(s, "value"@) {
        Some(list) => lemma_go_exprs_from_counts(list, 0, d),
        None => {},
    }
    match values {
        Ok((vs, d1)) => {
            let e = exprs_raw_count(vs);
            lemma_recorded_bounded(d, d1, 0, 0, e);
            lemma_declare_or_assign_counts(field_texts(s, "name"@), vs);
            match declare_or_assign(field_texts(s, "name"@), vs) {
                Some(ss) => {
                    lemma_recorded_dropped(d, d1, 0, 0, block_raw_exprs(ss), (e - block_raw_exprs(ss)) as nat);
                },
                None => {
                    lemma_block_raw_cons(StmtV::Raw(s.text@), Seq::empty());
                    lemma_notes(d1, line_of(s));
                    lemma_recorded_trans(d, d1, note_stmt(d1, line_of(s)), 0, 0, e, 0, 1, 0);
                    lemma_recorded_dropped(d, note_stmt(d1, line_of(s)), 0, 1, 0, e);
                },
            }
        },
        Err(_) => {},
    }
}

proof fn lemma_go_specs_from_counts(h: SyntaxNode, k: Seq<char>, i: int, d: DiagV)
    requires
        bounded(d),
    ensures
        go_specs_from(h, k, i, d) matches Ok((b, d2)) ==> recorded(d, d2, 0, block_raw_stmts(b), block_raw_exprs(b)),
    decreases named_child_count(h) - i,
{
    assert(block_raw_stmts(Seq::<StmtV>::empty()) == 0);
    assert(block_raw_exprs(Seq::<StmtV>::empty()) == 0);
    lemma_notes(d, 0);
    if 0 <= i < named_child_count(h) {
        match named_child(h, i) {
            Some(c) => if c.kind@ == k {
                lemma_go_spec_counts(c, d);
                match go_spec(c, d) {
                    Ok((ss, d1)) => {
                        lemma_go_specs_from_counts(h, k, i + 1, d1);
                        match go_specs_from(h, k, i + 1, d1) {
                            Ok((rest, d2)) => {
                                lemma_block_raw_concat(ss, rest);
                                lemma_recorded_trans(d, d1, d2, 0, block_raw_stmts(ss), block_raw_exprs(ss), 0, block_raw_stmts(rest), block_raw_exprs(rest));
                            },
                            Err(_) => {},
                        }
                    },
                    Err(_) => {},
                }
            } else {
                lemma_go_specs_from_counts(h, k, i + 1, d);
            },
            None => {},
        }
    }
}

proof fn lemma_go_var_declaration_counts(n: SyntaxNode, d: DiagV)
    requires
        bounded(d),
    ensures
        go_var_declaration(n, d) matches Ok((b, d2)) ==> recorded(d, d2, 0, block_raw_stmts(b), block_raw_exprs(b)),
{
    assert(block_raw_stmts(Seq::<StmtV>::empty()) == 0);
    assert(block_raw_exprs(Seq::<StmtV>::empty()) == 0);
    lemma_go_specs_from_counts(spec_holder(n), spec_kind(n), 0, d);
    match go_specs_from(spec_holder(n), spec_kind(n), 0, d) {
        Ok((ss, d1)) => if ss.len() == 0 {
            assert(ss =~= Seq::<StmtV>::empty());
            lemma_recorded_bounded(d, d1, 0, 0, 0);
            lemma_notes(d1, line_of(n));
            lemma_block_raw_cons(StmtV::Raw(n.text@), Seq::empty());
            lemma_recorded_trans(d, d1, note_stmt(d1, line_of(n)), 0, 0, 0, 0, 1, 0);
        },
        Err(_) => {},
    }
}

proof fn lemma_go_function_counts(n: SyntaxNode, d: DiagV)
    requires
        bounded(d),
    ensures
        go_function(n, d) matches Ok((it, d2)) ==> recorded(
            d,
            d2,
            items_raw_items(seq![it]),
            items_raw_stmts(seq![it]),
            items_raw_exprs(seq![it]),
        ),
{
    lemma_notes(d, line_of(n));
    lemma_items_raw_cons(ItemV::Raw(n.text@), Seq::empty());
    match field_child(n, "body"@) {
        Some(body) => {
            lemma_go_block_counts(body, d);
            match go_function(n, d) {
                Ok((it, d1)) => lemma_items_raw_cons(it, Seq::empty()),
                Err(_) => {},
            }
        },
        None => {},
    }
}

proof fn lemma_go_items_from_counts(root: SyntaxNode, i: int, d: DiagV)
    requires
        bounded(d),
    ensures
        go_items_from(root, i, d) matches Ok((items, d2)) ==> recorded(d, d2, items_raw_items(items), items_raw_stmts(items), items_raw_exprs(items)),
    decreases named_child_count(root) - i,
{
    lemma_notes(d, 0);
    assert(items_raw_items(Seq::<ItemV>::empty()) == 0);
    assert(items_raw_stmts(Seq::<ItemV>::empty()) == 0);
    assert(items_raw_exprs(Seq::<ItemV>::empty()) == 0);
    if 0 <= i < named_child_count(root) {
        match named_child(root, i) {
            Some(c) => {
                let k = c.kind@;
                if k == "package_clause"@ || k == "import_declaration"@ || k == "comment"@ {
                    lemma_go_items_from_counts(root, i + 1, d);
                } else if k == "function_declaration"@ || k == "method_declaration"@ {
                    lemma_go_function_counts(c, d);
                    match go_function(c, d) {
                        Ok((it, d1)) => {
                            let one = seq![it];
                            lemma_recorded_bounded(d, d1, items_raw_items(one), items_raw_stmts(one), items_raw_exprs(one));
                            lemma_go_items_from_counts(root, i + 1, d1);
                            match go_items_from(root, i + 1, d1) {
                                Ok((rest, d2)) => {
                                    lemma_items_raw_cons(it, rest);
                                    lemma_recorded_trans(d, d1, d2, items_raw_items(one), items_raw_stmts(one), items_raw_exprs(one), items_raw_items(rest), items_raw_stmts(rest), items_raw_exprs(rest));
                                },
                                Err(_) => {},
                            }
                        },
                        Err(_) => {},
                    }
                } else {
                    let raw = ItemV::Raw(c.text@);
                    let d1 = note_item(d, line_of(c));
                    lemma_notes(d, line_of(c));
                    lemma_recorded_bounded(d, d1, 1, 0, 0);
                    lemma_go_items_from_counts(root, i + 1, d1);
                    match go_items_from(root, i + 1, d1) {
                        Ok((rest, d2)) => {
                            lemma_items_raw_cons(raw, rest);
                            lemma_recorded_trans(d, d1, d2, 1, 0, 0, items_raw_items(rest), items_raw_stmts(rest), items_raw_exprs(rest));
                        },
                        Err(_) => {},
                    }
                }
            },
            None => {},
        }
    }
}

/// An index expression `xs[i]` becomes an index whose object is the IR of
/// its `operand` child and whose index is the IR of its `index` child, read
/// in that order: the operand first, then the index.
pub proof fn lemma_go_index_operand_then_index(
    n: SyntaxNode,
    d: DiagV,
    obj: SyntaxNode,
    index: SyntaxNode,
)
    requires
        n.kind@ == "index_expression"@,
        field_child(n, "operand"@) == Some(obj),
        field_child(n, "index"@) == Some(index),
    ensures
        match go_expr(obj, d) {
            Err(e) => go_expr(n, d) == Err::<(ExprV, DiagV), PseudoErrorV>(e),
            Ok((o, d1)) => match go_expr(index, d1) {
                Err(e) => go_expr(n, d) == Err::<(ExprV, DiagV), PseudoErrorV>(e),
                Ok((i, d2)) => go_expr(n, d) == Ok::<(ExprV, DiagV), PseudoErrorV>(
                    (ExprV::Index { obj: Box::new(o), index: Box::new(i) }, d2),
                ),
            },
        },
{
    reveal_strlit("identifier");
    reveal_strlit("true");
    reveal_strlit("false");
    reveal_strlit("nil");
    reveal_strlit("int_literal");
    reveal_strlit("float_literal");
    reveal_strlit("interpreted_string_literal");
    reveal_strlit("raw_string_literal");
    reveal_strlit("parenthesized_expression");
    reveal_strlit("binary_expression");
    reveal_strlit("unary_expression");
    reveal_strlit("call_expression");
    reveal_strlit("index_expression");
    assert(n.kind@.len() == 16 && n.kind@[0] == 'i');
    assert("unary_expression"@[0] == 'u');
    assert(go_expr(n, d) == go_index(n, d));
}

/// A binary operation keeps its operands in source order: the left one is
/// the IR of its `left` child, read first, the right one the IR of its
/// `right` child; the operator is the one its `operator` child names.
pub proof fn lemma_go_binary_left_then_right(n: SyntaxNode, d: DiagV, a: SyntaxNode, b: SyntaxNode, op: BinOp)
    requires
        n.kind@ == "binary_expression"@,
        field_child(n, "left"@) == Some(a),
        field_child(n, "right"@) == Some(b),
        go_bin_op(n) == Some(op),
    ensures
        match go_expr(a, d) {
            Err(e) => go_expr(n, d) == Err::<(ExprV, DiagV), PseudoErrorV>(e),
            Ok((x, d1)) => match go_expr(b, d1) {
                Err(e) => go_expr(n, d) == Err::<(ExprV, DiagV), PseudoErrorV>(e),
                Ok((y, d2)) => go_expr(n, d) == Ok::<(ExprV, DiagV), PseudoErrorV>((ExprV::Binary { op, lhs: Box::new(x), rhs: Box::new(y) }, d2)),
            },
        },
{
    reveal_strlit("identifier");
    reveal_strlit("true");
    reveal_strlit("false");
    reveal_strlit("nil");
    reveal_strlit("int_literal");
    reveal_strlit("float_literal");
    reveal_strlit("interpreted_string_literal");
    reveal_strlit("raw_string_literal");
    reveal_strlit("parenthesized_expression");
    reveal_strlit("binary_expression");
    assert(n.kind@.len() == 17);
    assert(go_expr(n, d) == go_binary(n, d));
}

/// Every raw fragment of a parsed Go module is recorded: the diagnostics
/// count exactly its raw items and raw statements, and at least its raw
/// expressions (values read before their declaration fell back to raw text
/// stay counted), each up to the largest machine integer; and while no count
/// has reached that bound, every count recorded one line.
pub proof fn lemma_go_diagnostics_count_raw(root: SyntaxNode)
    ensures
        go_module(root) matches Ok((m, d)) ==> raw_counted(m.items, d),
{
    if !root.has_error {
        lemma_go_items_from_counts(root, 0, empty_diag());
        match go_items_from(root, 0, empty_diag()) {
            Ok((items, d)) => lemma_recorded_from_empty(items, d),
            Err(_) => {},
        }
    }
}

// ---------------------------------------------------------------------------
// Executable adapter: lookups and building blocks
// ---------------------------------------------------------------------------

fn field_texts_of(node: &SyntaxNode, field: &str) -> (r: Vec<String>)
    ensures
        strings_view(r@) == field_texts(*node, field@),
{
    let ghost c = node.children@;
    let mut out: Vec<String> = Vec::new();
    let mut k: usize = 0;
    assert(field_texts_from(c, field@, 0) =~= strings_view(out@) + field_texts_from(c, field@, 0));
    while k < node.children.len()
        invariant
            c == node.children@,
            k <= c.len(),
            field_texts_from(c, field@, 0) == strings_view(out@) + field_texts_from(c, field@, k as int),
        decreases c.len() - k,
    {
        let ghost before = strings_view(out@);
        let ghost rest = field_texts_from(c, field@, k + 1);
        let mut hit = false;
        match &node.children[k].field {
            Some(f) => {
                if str_eq(f.as_str(), field) {
                    out.push(node.children[k].text.clone());
                    hit = true;
                    proof {
                        assert(strings_view(out@) =~= before + seq![c[k as int].text@]);
                        assert(before + (seq![c[k as int].text@] + rest) =~= strings_view(out@) + rest);
                    }
                }
            },
            None => {},
        }
        if !hit {
            assert(before + (Seq::<Seq<char>>::empty() + rest) =~= before + rest);
        }
        k = k + 1;
    }
    assert(strings_view(out@) + field_texts_from(c, field@, k as int) =~= strings_view(out@));
    out
}

fn ident_names(node: &SyntaxNode) -> (r: Option<Vec<String>>)
    ensures
        match r {
            Some(v) => identifier_names(*node) == Some(strings_view(v@)),
            None => identifier_names(*node) is None,
        },
{
    let count = node.named_child_count();
    let mut out: Vec<String> = Vec::new();
    let mut i: usize = 0;
    while i < count
        invariant
            count == named_child_count(*node),
            ident_names_from(*node, 0) == (match ident_names_from(*node, i as int) {
                None => None,
                Some(rest) => Some(strings_view(out@) + rest),
            }),
        decreases count - i,
    {
        match node.named_child(i) {
            None => {
                i = count;
                continue;
            },
            Some(c) => {
                if !c.is_kind("identifier") {
                    return None;
                }
                let ghost before = strings_view(out@);
                out.push(c.text.clone());
                proof {
                    match ident_names_from(*node, i + 1) {
                        None => {},
                        Some(rest) => {
                            assert(before + (seq![c.text@] + rest) =~= strings_view(out@) + rest);
                        },
                    }
                }
            },
        }
        i = i + 1;
    }
    assert(strings_view(out@) + Seq::<Seq<char>>::empty() =~= strings_view(out@));
    if out.len() == 0 {
        None
    } else {
        Some(out)
    }
}

fn first_non_comment_of(node: &SyntaxNode) -> (r: Option<&SyntaxNode>)
    ensures
        r matches Some(c) ==> first_non_comment(*node) == Some(*c),
        r is None ==> first_non_comment(*node) is None,
{
    let count = node.named_child_count();
    let mut i: usize = 0;
    while i < count
        invariant
            count == named_child_count(*node),
            first_non_comment_index(*node, 0) == first_non_comment_index(*node, i as int),
        decreases count - i,
    {
        match node.named_child(i) {
            None => return None,
            Some(c) => {
                if !c.is_kind("comment") {
                    return Some(c);
                }
            },
        }
        i = i + 1;
    }
    None
}

/// The position of the first child that fills `field`.
fn field_index(node: &SyntaxNode, field: &str) -> (r: Option<usize>)
    ensures
        match r {
            Some(k) => field_index_from(node.children@, field@, 0) == k as int && k < node.children.len(),
            None => field_index_from(node.children@, field@, 0) == -1,
        },
{
    let ghost c = node.children@;
    let mut k: usize = 0;
    while k < node.children.len()
        invariant
            c == node.children@,
            k <= c.len(),
            field_index_from(c, field@, 0) == field_index_from(c, field@, k as int),
        decreases c.len() - k,
    {
        match &node.children[k].field {
            Some(f) => {
                if str_eq(f.as_str(), field) {
                    return Some(k);
                }
            },
            None => {},
        }
        k = k + 1;
    }
    None
}

/// How many named children a `for` statement has besides its body and
/// comments, and where the first of them stands.
fn loop_header_parts(node: &SyntaxNode) -> (r: (usize, usize))
    ensures
        r.0 == loop_part_count(*node),
        r.0 >= 1 ==> r.1 as int == first_loop_part(*node) && r.1 < node.children.len(),
{
    let ghost c = node.children@;
    let ghost b = body_index(*node);
    let body = field_index(node, "body");
    let mut k: usize = 0;
    let mut count: usize = 0;
    let mut first: usize = 0;
    while k < node.children.len()
        invariant
            c == node.children@,
            b == body_index(*node),
            match body {
                Some(p) => b == p as int,
                None => b == -1,
            },
            k <= c.len(),
            count <= k,
            loop_part_count_from(c, b, 0) == count + loop_part_count_from(c, b, k as int),
            count >= 1 ==> first as int == first_loop_part_from(c, b, 0) && first < c.len(),
            count == 0 ==> first_loop_part_from(c, b, 0) == first_loop_part_from(c, b, k as int),
        decreases c.len() - k,
    {
        let at_body = match body {
            Some(p) => p == k,
            None => false,
        };
        let part = node.children[k].named && !str_eq(node.children[k].kind.as_str(), "comment") && !at_body;
        assert(part == is_loop_part(c, b, k as int));
        if part {
            if count == 0 {
                first = k;
            }
            count = count + 1;
        }
        k = k + 1;
    }
    (count, first)
}

fn strings_from_names(names: &Vec<String>) -> (r: Vec<Expr>)
    ensures
        exprs_view(r@) == strings_view(names@).map_values(|s: Seq<char>| ExprV::Ident(s)),
{
    let mut out: Vec<Expr> = Vec::new();
    let mut i: usize = 0;
    while i < names.len()
        invariant
            i <= names.len(),
            out.len() == i,
            forall|j: int| 0 <= j < i ==> #[trigger] out@[j]@ == ExprV::Ident(names@[j]@),
        decreases names.len() - i,
    {
        out.push(Expr::Ident(names[i].clone()));
        i = i + 1;
    }
    assert(exprs_view(out@) =~= strings_view(names@).map_values(|s: Seq<char>| ExprV::Ident(s)));
    out
}

/// The names as a tuple of identifiers.
fn ident_tuple_of(names: &Vec<String>) -> (r: Expr)
    ensures
        r@ == ident_tuple(strings_view(names@)),
{
    let items = strings_from_names(names);
    let e = Expr::Tuple(items);
    assert(e@->Tuple_0 =~= exprs_view(e->Tuple_0@));
    e
}

fn bare_decls(names: &Vec<String>) -> (r: Vec<Stmt>)
    ensures
        stmts_view(r@) == strings_view(names@).map_values(|s: Seq<char>| bare_decl(s)),
{
    let mut out: Vec<Stmt> = Vec::new();
    let mut i: usize = 0;
    while i < names.len()
        invariant
            i <= names.len(),
            out.len() == i,
            forall|j: int| 0 <= j < i ==> #[trigger] out@[j]@ == bare_decl(names@[j]@),
        decreases names.len() - i,
    {
        out.push(Stmt::VarDecl(VarDecl { name: names[i].clone(), type_hint: None, init: None }));
        i = i + 1;
    }
    assert(stmts_view(out@) =~= strings_view(names@).map_values(|s: Seq<char>| bare_decl(s)));
    out
}

/// A list holding just one statement.
fn one_stmt(s: Stmt) -> (r: Vec<Stmt>)
    ensures
        stmts_view(r@) == seq![s@],
{
    let ghost sv = s@;
    let mut v: Vec<Stmt> = Vec::new();
    v.push(s);
    assert(stmts_view(v@) =~= seq![sv]);
    v
}

fn declare_or_assign_stmts(names: Vec<String>, values: Vec<Expr>) -> (r: Option<Vec<Stmt>>)
    ensures
        match r {
            Some(v) => declare_or_assign(strings_view(names@), exprs_view(values@)) == Some(stmts_view(v@)),
            None => declare_or_assign(strings_view(names@), exprs_view(values@)) is None,
        },
{
    let ghost nv = strings_view(names@);
    let ghost vv = exprs_view(values@);
    let mut values = values;
    if names.len() == 1 && values.len() == 0 {
        let s = Stmt::VarDecl(VarDecl { name: names[0].clone(), type_hint: None, init: None });
        Some(one_stmt(s))
    } else if names.len() == 1 && values.len() == 1 {
        let v = values.remove(0);
        let s = Stmt::VarDecl(VarDecl { name: names[0].clone(), type_hint: None, init: Some(v) });
        Some(one_stmt(s))
    } else if values.len() == 0 {
        Some(bare_decls(&names))
    } else if values.len() == 1 {
        let v = values.remove(0);
        let s = Stmt::Assign { target: ident_tuple_of(&names), value: v };
        Some(one_stmt(s))
    } else if names.len() == values.len() {
        let target = ident_tuple_of(&names);
        let value = Expr::Tuple(values);
        assert(value@->Tuple_0 =~= vv);
        let s = Stmt::Assign { target, value };
        Some(one_stmt(s))
    } else {
        None
    }
}

fn single_or_tuple_expr(exprs: Vec<Expr>) -> (r: Expr)
    ensures
        r@ == single_or_tuple(exprs_view(exprs@)),
{
    let mut exprs = exprs;
    if exprs.len() == 1 {
        exprs.remove(0)
    } else {
        let e = Expr::Tuple(exprs);
        assert(e@->Tuple_0 =~= exprs_view(e->Tuple_0@));
        e
    }
}

// ---------------------------------------------------------------------------
// Executable adapter: expressions
// ---------------------------------------------------------------------------

/// Parses the named children of `node` from the `start`-th on as
/// expressions, skipping comments.
fn parse_expr_list(node: &SyntaxNode, start: usize, diag: &mut RawDiagnostics) -> (r: Result<Vec<Expr>, PseudoError>)
    ensures
        match r {
            Ok(v) => go_exprs_from(*node, start as int, old(diag)@) == Ok::<(Seq<ExprV>, DiagV), PseudoErrorV>((exprs_view(v@), final(diag)@)),
            Err(e) => go_exprs_from(*node, start as int, old(diag)@) == Err::<(Seq<ExprV>, DiagV), PseudoErrorV>(e@),
        },
    decreases node, 0nat, named_child_count(*node) - start,
{
    let count = node.named_child_count();
    let mut out: Vec<Expr> = Vec::new();
    let mut i: usize = start;
    let ghost d0 = diag@;
    while i < count
        invariant
            count == named_child_count(*node),
            start <= i,
            d0 == old(diag)@,
            go_exprs_from(*node, start as int, d0) == prepend(exprs_view(out@), go_exprs_from(*node, i as int, diag@)),
        decreases count - i,
    {
        match node.named_child(i) {
            Some(c) => {
                if !c.is_kind("comment") {
                    let ghost dc = diag@;
                    match parse_expr(c, diag) {
                        Ok(x) => {
                            proof {
                                lemma_prepend_cons(exprs_view(out@), x@, go_exprs_from(*node, i + 1, diag@));
                            }
                            let ghost before = out@;
                            out.push(x);
                            proof {
                                assert(exprs_view(out@) =~= exprs_view(before).push(x@));
                            }
                        },
                        Err(e) => {
                            assert(go_exprs_from(*node, i as int, dc) == Err::<(Seq<ExprV>, DiagV), PseudoErrorV>(e@));
                            return Err(e);
                        },
                    }
                }
            },
            None => {
                i = count;
                continue;
            },
        }
        i = i + 1;
    }
    proof {
        lemma_prepend_empty(exprs_view(out@), diag@);
    }
    Ok(out)
}

pub fn parse_expr(node: &SyntaxNode, diag: &mut RawDiagnostics) -> (r: Result<Expr, PseudoError>)
    ensures
        outcome(r, final(diag)@) == go_expr(*node, old(diag)@),
    decreases node, 1nat, 0nat,
{
    if node.is_kind("identifier") {
        Ok(Expr::Ident(node.text.clone()))
    } else if node.is_kind("true") {
        Ok(Expr::Literal(Literal::Bool(true)))
    } else if node.is_kind("false") {
        Ok(Expr::Literal(Literal::Bool(false)))
    } else if node.is_kind("nil") {
        Ok(Expr::Literal(Literal::Nil))
    } else if node.is_kind("int_literal") {
        match parse_i64(node.text.as_str()) {
            Some(v) => Ok(Expr::Literal(Literal::Int(v))),
            None => Ok(record_raw_expr(node, diag)),
        }
    } else if node.is_kind("float_literal") {
        Ok(Expr::Literal(Literal::Float(node.text.clone())))
    } else if node.is_kind("interpreted_string_literal") || node.is_kind("raw_string_literal") {
        Ok(Expr::Literal(Literal::Str(trim_matching(node.text.as_str(), '"', '`'))))
    } else if node.is_kind("parenthesized_expression") {
        match first_non_comment_of(node) {
            None => Err(parse_err("parenthesized_expression empty")),
            Some(inner) => parse_expr(inner, diag),
        }
    } else if node.is_kind("binary_expression") {
        parse_binary(node, diag)
    } else if node.is_kind("unary_expression") {
        parse_unary(node, diag)
    } else if node.is_kind("call_expression") {
        parse_call(node, diag)
    } else if node.is_kind("index_expression") {
        parse_index(node, diag)
    } else if node.is_kind("selector_expression") {
        parse_selector(node, diag)
    } else {
        Ok(record_raw_expr(node, diag))
    }
}

fn bin_op_of(node: &SyntaxNode) -> (r: Option<BinOp>)
    ensures
        r == go_bin_op(*node),
{
    match node.child_by_field_name("operator") {
        None => None,
        Some(op) => parse_c_family_bin_op(op.text.as_str()),
    }
}

fn parse_binary(node: &SyntaxNode, diag: &mut RawDiagnostics) -> (r: Result<Expr, PseudoError>)
    ensures
        outcome(r, final(diag)@) == go_binary(*node, old(diag)@),
    decreases node, 0nat, 1nat,
{
    let lhs = match node.child_by_field_name("left") {
        Some(c) => c,
        None => return Ok(record_raw_expr(node, diag)),
    };
    let rhs = match node.child_by_field_name("right") {
        Some(c) => c,
        None => return Ok(record_raw_expr(node, diag)),
    };
    let op = match bin_op_of(node) {
        Some(op) => op,
        None => return Ok(record_raw_expr(node, diag)),
    };
    let lhs = match parse_expr(lhs, diag) {
        Ok(v) => v,
        Err(e) => return Err(e),
    };
    let rhs = match parse_expr(rhs, diag) {
        Ok(v) => v,
        Err(e) => return Err(e),
    };
    Ok(Expr::Binary { op, lhs: Box::new(lhs), rhs: Box::new(rhs) })
}

fn un_op_of(node: &SyntaxNode) -> (r: Option<UnOp>)
    ensures
        r == go_un_op(*node),
{
    match node.child_by_field_name("operator") {
        None => None,
        Some(op) => parse_un_op(op.text.as_str()),
    }
}

fn parse_unary(node: &SyntaxNode, diag: &mut RawDiagnostics) -> (r: Result<Expr, PseudoError>)
    ensures
        outcome(r, final(diag)@) == go_unary(*node, old(diag)@),
    decreases node, 0nat, 1nat,
{
    let op = match un_op_of(node) {
        Some(op) => op,
        None => return Ok(record_raw_expr(node, diag)),
    };
    let operand = match node.child_by_field_name("operand") {
        Some(c) => c,
        None => return Err(parse_err("unary_expression missing operand")),
    };
    let inner = match parse_expr(operand, diag) {
        Ok(v) => v,
        Err(e) => return Err(e),
    };
    Ok(Expr::Unary { op, expr: Box::new(inner) })
}

fn parse_call(node: &SyntaxNode, diag: &mut RawDiagnostics) -> (r: Result<Expr, PseudoError>)
    ensures
        outcome(r, final(diag)@) == go_call(*node, old(diag)@),
    decreases node, 0nat, 1nat,
{
    let callee = match node.child_by_field_name("function") {
        Some(c) => c,
        None => return Err(parse_err("call_expression missing function")),
    };
    let args_node = match node.child_by_field_name("arguments") {
        Some(c) => c,
        None => return Err(parse_err("call_expression missing arguments")),
    };
    let args = match parse_expr_list(args_node, 0, diag) {
        Ok(v) => v,
        Err(e) => return Err(e),
    };
    let callee = match parse_expr(callee, diag) {
        Ok(v) => v,
        Err(e) => return Err(e),
    };
    let e = Expr::Call { callee: Box::new(callee), args };
    proof {
        assert(e@->args =~= exprs_view(args@));
    }
    Ok(e)
}

fn parse_index(node: &SyntaxNode, diag: &mut RawDiagnostics) -> (r: Result<Expr, PseudoError>)
    ensures
        outcome(r, final(diag)@) == go_index(*node, old(diag)@),
    decreases node, 0nat, 1nat,
{
    let obj = match node.child_by_field_name("operand") {
        Some(c) => c,
        None => return Err(parse_err("index_expression missing operand")),
    };
    let index = match node.child_by_field_name("index") {
        Some(c) => c,
        None => return Err(parse_err("index_expression missing index")),
    };
    let obj = match parse_expr(obj, diag) {
        Ok(v) => v,
        Err(e) => return Err(e),
    };
    let index = match parse_expr(index, diag) {
        Ok(v) => v,
        Err(e) => return Err(e),
    };
    Ok(Expr::Index { obj: Box::new(obj), index: Box::new(index) })
}

fn parse_selector(node: &SyntaxNode, diag: &mut RawDiagnostics) -> (r: Result<Expr, PseudoError>)
    ensures
        outcome(r, final(diag)@) == go_selector(*node, old(diag)@),
    decreases node, 0nat, 1nat,
{
    let obj = match node.child_by_field_name("operand") {
        Some(c) => c,
        None => return Err(parse_err("selector_expression missing operand")),
    };
    let field = match node.child_by_field_name("field") {
        Some(c) => c,
        None => return Err(parse_err("selector_expression missing field")),
    };
    let obj = match parse_expr(obj, diag) {
        Ok(v) => v,
        Err(e) => return Err(e),
    };
    Ok(Expr::Field { obj: Box::new(obj), name: field.text.clone() })
}

// ---------------------------------------------------------------------------
// Executable adapter: statements
// ---------------------------------------------------------------------------

proof fn lemma_stmts_view_concat(a: Seq<Stmt>, b: Seq<Stmt>)
    ensures
        stmts_view(a + b) == stmts_view(a) + stmts_view(b),
{
    assert(stmts_view(a + b) =~= stmts_view(a) + stmts_view(b));
}

pub fn parse_stmt(node: &SyntaxNode, diag: &mut RawDiagnostics) -> (r: Result<Stmt, PseudoError>)
    ensures
        outcome(r, final(diag)@) == go_stmt(*node, old(diag)@),
    decreases node, 3nat, 0nat,
{
    if node.is_kind("expression_statement") {
        let inner = match node.named_child(0) {
            Some(c) => c,
            None => return Err(parse_err("expression_statement empty")),
        };
        match parse_expr(inner, diag) {
            Ok(x) => Ok(Stmt::ExprStmt(x)),
            Err(e) => Err(e),
        }
    } else if node.is_kind("short_var_declaration") {
        parse_short_var(node, diag)
    } else if node.is_kind("assignment_statement") {
        parse_assignment(node, diag)
    } else if node.is_kind("return_statement") {
        let values = match node.named_child_by_kind("expression_list") {
            Some(list) => match parse_expr_list(list, 0, diag) {
                Ok(v) => v,
                Err(e) => return Err(e),
            },
            None => Vec::new(),
        };
        let ghost vv = exprs_view(values@);
        let mut values = values;
        if values.len() == 0 {
            Ok(Stmt::Return(None))
        } else if values.len() == 1 {
            Ok(Stmt::Return(Some(values.remove(0))))
        } else {
            let e = Expr::Tuple(values);
            assert(e@->Tuple_0 =~= vv);
            Ok(Stmt::Return(Some(e)))
        }
    } else if node.is_kind("break_statement") {
        Ok(Stmt::Break)
    } else if node.is_kind("continue_statement") {
        Ok(Stmt::Continue)
    } else if node.is_kind("if_statement") {
        parse_if(node, diag)
    } else if node.is_kind("for_statement") {
        parse_for(node, diag)
    } else {
        Ok(record_raw_stmt(node, diag))
    }
}

fn parse_short_var(node: &SyntaxNode, diag: &mut RawDiagnostics) -> (r: Result<Stmt, PseudoError>)
    ensures
        outcome(r, final(diag)@) == go_short_var(*node, old(diag)@),
    decreases node, 2nat, 0nat,
{
    let left = match node.child_by_field_name("left") {
        Some(c) => c,
        None => return Ok(record_raw_stmt(node, diag)),
    };
    let right = match node.child_by_field_name("right") {
        Some(c) => c,
        None => return Ok(record_raw_stmt(node, diag)),
    };
    let values = match parse_expr_list(right, 0, diag) {
        Ok(v) => v,
        Err(e) => return Err(e),
    };
    let stmts = match ident_names(left) {
        None => None,
        Some(names) => declare_or_assign_stmts(names, values),
    };
    match stmts {
        Some(ss) => {
            let mut ss = ss;
            if ss.len() == 1 {
                Ok(ss.remove(0))
            } else {
                Ok(record_raw_stmt(node, diag))
            }
        },
        None => Ok(record_raw_stmt(node, diag)),
    }
}

fn parse_assignment(node: &SyntaxNode, diag: &mut RawDiagnostics) -> (r: Result<Stmt, PseudoError>)
    ensures
        outcome(r, final(diag)@) == go_assignment(*node, old(diag)@),
    decreases node, 2nat, 0nat,
{
    match node.child_by_field_name("operator") {
        Some(op) => {
            if !str_eq(op.text.as_str(), "=") {
                return Ok(record_raw_stmt(node, diag));
            }
        },
        None => {},
    }
    let left = match node.child_by_field_name("left") {
        Some(c) => c,
        None => return Ok(record_raw_stmt(node, diag)),
    };
    let right = match node.child_by_field_name("right") {
        Some(c) => c,
        None => return Ok(record_raw_stmt(node, diag)),
    };
    let targets = match parse_expr_list(left, 0, diag) {
        Ok(v) => v,
        Err(e) => return Err(e),
    };
    let values = match parse_expr_list(right, 0, diag) {
        Ok(v) => v,
        Err(e) => return Err(e),
    };
    Ok(Stmt::Assign { target: single_or_tuple_expr(targets), value: single_or_tuple_expr(values) })
}

fn parse_if(node: &SyntaxNode, diag: &mut RawDiagnostics) -> (r: Result<Stmt, PseudoError>)
    ensures
        outcome(r, final(diag)@) == go_if(*node, old(diag)@),
    decreases node, 2nat, 0nat,
{
    let cond = match node.child_by_field_name("condition") {
        Some(c) => c,
        None => return Err(parse_err("if missing condition")),
    };
    let cons_node = match node.child_by_field_name("consequence") {
        Some(c) => c,
        None => return Err(parse_err("if missing consequence")),
    };
    let else_block = match node.child_by_field_name("alternative") {
        None => None,
        Some(alt) => if alt.is_kind("if_statement") {
            match parse_if(alt, diag) {
                Ok(s) => Some(single_block(s)),
                Err(e) => return Err(e),
            }
        } else {
            match parse_block(alt, diag) {
                Ok(b) => Some(b),
                Err(e) => return Err(e),
            }
        },
    };
    let cond = match parse_expr(cond, diag) {
        Ok(v) => v,
        Err(e) => return Err(e),
    };
    let then_block = match parse_block(cons_node, diag) {
        Ok(v) => v,
        Err(e) => return Err(e),
    };
    let s = Stmt::If { cond, then_block, else_block };
    proof {
        assert(s@->then_block =~= s->then_block@);
        if s@->If_else_block is Some {
            assert(s@->If_else_block->0 =~= s->If_else_block->0@);
        }
    }
    Ok(s)
}

fn parse_for(node: &SyntaxNode, diag: &mut RawDiagnostics) -> (r: Result<Stmt, PseudoError>)
    ensures
        outcome(r, final(diag)@) == go_for(*node, old(diag)@),
    decreases node, 2nat, 0nat,
{
    let body = match node.child_by_field_name("body") {
        Some(c) => c,
        None => return Err(parse_err("for missing body")),
    };
    match node.named_child_by_kind("for_clause") {
        Some(clause) => {
            let init = match clause.child_by_field_name("initializer") {
                Some(c) => c,
                None => return Ok(record_raw_stmt(node, diag)),
            };
            let cond = match clause.child_by_field_name("condition") {
                Some(c) => c,
                None => return Ok(record_raw_stmt(node, diag)),
            };
            let update = match clause.child_by_field_name("update") {
                Some(c) => c,
                None => return Ok(record_raw_stmt(node, diag)),
            };
            let first = match parse_stmt(init, diag) {
                Ok(s) => s,
                Err(e) => return Err(e),
            };
            let cond = match parse_expr(cond, diag) {
                Ok(v) => v,
                Err(e) => return Err(e),
            };
            let step = record_raw_expr(update, diag);
            let body = match parse_block(body, diag) {
                Ok(v) => v,
                Err(e) => return Err(e),
            };
            let s = Stmt::For { kind: ForKind::CStyle { init: Box::new(first), cond, step }, body };
            assert(s@->For_body =~= s->For_body@);
            return Ok(s);
        },
        None => {},
    }
    match node.named_child_by_kind("range_clause") {
        Some(clause) => {
            let left = match clause.child_by_field_name("left") {
                Some(c) => c,
                None => return Ok(record_raw_stmt(node, diag)),
            };
            let right = match clause.child_by_field_name("right") {
                Some(c) => c,
                None => return Ok(record_raw_stmt(node, diag)),
            };
            let names = match ident_names(left) {
                Some(v) => v,
                None => return Ok(record_raw_stmt(node, diag)),
            };
            if names.len() != 1 {
                return Ok(record_raw_stmt(node, diag));
            }
            let iter = match parse_expr(right, diag) {
                Ok(v) => v,
                Err(e) => return Err(e),
            };
            let body = match parse_block(body, diag) {
                Ok(v) => v,
                Err(e) => return Err(e),
            };
            let s = Stmt::For { kind: ForKind::ForEach { var: names[0].clone(), iter }, body };
            assert(s@->For_body =~= s->For_body@);
            return Ok(s);
        },
        None => {},
    }
    let (count, first) = loop_header_parts(node);
    if count == 0 {
        let body = match parse_block(body, diag) {
            Ok(v) => v,
            Err(e) => return Err(e),
        };
        let s = Stmt::While { cond: Expr::Literal(Literal::Bool(true)), body };
        assert(s@->While_body =~= s->While_body@);
        Ok(s)
    } else if count == 1 {
        let cond = match parse_expr(&node.children[first], diag) {
            Ok(v) => v,
            Err(e) => return Err(e),
        };
        let body = match parse_block(body, diag) {
            Ok(v) => v,
            Err(e) => return Err(e),
        };
        let s = Stmt::While { cond, body };
        assert(s@->While_body =~= s->While_body@);
        Ok(s)
    } else {
        Ok(record_raw_stmt(node, diag))
    }
}

fn parse_block(node: &SyntaxNode, diag: &mut RawDiagnostics) -> (r: Result<Block, PseudoError>)
    ensures
        match r {
            Ok(b) => go_block(*node, old(diag)@) == Ok::<(Seq<StmtV>, DiagV), PseudoErrorV>((b@, final(diag)@)),
            Err(e) => go_block(*node, old(diag)@) == Err::<(Seq<StmtV>, DiagV), PseudoErrorV>(e@),
        },
    decreases node, 4nat, 0nat,
{
    match node.named_child_by_kind("statement_list") {
        None => {
            let b = Block(Vec::new());
            assert(b@ =~= Seq::<StmtV>::empty());
            Ok(b)
        },
        Some(list) => match parse_list_from(list, 0, diag) {
            Ok(v) => Ok(Block(v)),
            Err(e) => Err(e),
        },
    }
}

/// Parses a statement list from its `start`-th named child on.
fn parse_list_from(node: &SyntaxNode, start: usize, diag: &mut RawDiagnostics) -> (r: Result<Vec<Stmt>, PseudoError>)
    ensures
        match r {
            Ok(v) => go_list_from(*node, start as int, old(diag)@) == Ok::<(Seq<StmtV>, DiagV), PseudoErrorV>((stmts_view(v@), final(diag)@)),
            Err(e) => go_list_from(*node, start as int, old(diag)@) == Err::<(Seq<StmtV>, DiagV), PseudoErrorV>(e@),
        },
    decreases node, 0nat, named_child_count(*node) - start,
{
    let count = node.named_child_count();
    let mut out: Vec<Stmt> = Vec::new();
    let mut i: usize = start;
    let ghost d0 = diag@;
    while i < count
        invariant
            count == named_child_count(*node),
            start <= i,
            d0 == old(diag)@,
            go_list_from(*node, start as int, d0) == prepend(stmts_view(out@), go_list_from(*node, i as int, diag@)),
        decreases count - i,
    {
        match node.named_child(i) {
            Some(c) => {
                let ghost dc = diag@;
                if c.is_kind("comment") {
                } else if c.is_kind("var_declaration") || c.is_kind("const_declaration") {
                    match parse_var_declaration(c, diag) {
                        Ok(ss) => {
                            let ghost before = out@;
                            let mut ss = ss;
                            let ghost ssq = ss@;
                            proof {
                                lemma_prepend_prepend(stmts_view(before), stmts_view(ssq), go_list_from(*node, i + 1, diag@));
                            }
                            out.append(&mut ss);
                            proof {
                                lemma_stmts_view_concat(before, ssq);
                            }
                        },
                        Err(e) => {
                            assert(go_list_from(*node, i as int, dc) == Err::<(Seq<StmtV>, DiagV), PseudoErrorV>(e@));
                            return Err(e);
                        },
                    }
                } else {
                    match parse_stmt(c, diag) {
                        Ok(x) => {
                            proof {
                                lemma_prepend_cons(stmts_view(out@), x@, go_list_from(*node, i + 1, diag@));
                            }
                            let ghost before = out@;
                            out.push(x);
                            proof {
                                assert(stmts_view(out@) =~= stmts_view(before).push(x@));
                            }
                        },
                        Err(e) => {
                            assert(go_list_from(*node, i as int, dc) == Err::<(Seq<StmtV>, DiagV), PseudoErrorV>(e@));
                            return Err(e);
                        },
                    }
                }
            },
            None => {
                i = count;
                continue;
            },
        }
        i = i + 1;
    }
    proof {
        lemma_prepend_empty(stmts_view(out@), diag@);
    }
    Ok(out)
}

/// The statements of a `var` or `const` declaration.
fn parse_var_declaration(node: &SyntaxNode, diag: &mut RawDiagnostics) -> (r: Result<Vec<Stmt>, PseudoError>)
    ensures
        match r {
            Ok(v) => go_var_declaration(*node, old(diag)@) == Ok::<(Seq<StmtV>, DiagV), PseudoErrorV>((stmts_view(v@), final(diag)@)),
            Err(e) => go_var_declaration(*node, old(diag)@) == Err::<(Seq<StmtV>, DiagV), PseudoErrorV>(e@),
        },
{
    let kind: &str = if node.is_kind("var_declaration") {
        "var_spec"
    } else {
        "const_spec"
    };
    let holder = if node.count_of_kind(kind) == 0 {
        match node.named_child_by_kind("var_spec_list") {
            Some(list) => list,
            None => node,
        }
    } else {
        node
    };
    let mut stmts = match parse_specs_from(holder, kind, 0, diag) {
        Ok(v) => v,
        Err(e) => return Err(e),
    };
    if stmts.len() == 0 {
        let ghost before = stmts@;
        let s = record_raw_stmt(node, diag);
        let ghost sv = s@;
        stmts.push(s);
        assert(stmts_view(stmts@) =~= seq![sv]);
    }
    Ok(stmts)
}

/// The statements of the specs of kind `kind` among the named children of
/// `node` from the `start`-th on.
fn parse_specs_from(node: &SyntaxNode, kind: &str, start: usize, diag: &mut RawDiagnostics) -> (r: Result<Vec<Stmt>, PseudoError>)
    ensures
        match r {
            Ok(v) => go_specs_from(*node, kind@, start as int, old(diag)@) == Ok::<(Seq<StmtV>, DiagV), PseudoErrorV>((stmts_view(v@), final(diag)@)),
            Err(e) => go_specs_from(*node, kind@, start as int, old(diag)@) == Err::<(Seq<StmtV>, DiagV), PseudoErrorV>(e@),
        },
{
    let count = node.named_child_count();
    let mut out: Vec<Stmt> = Vec::new();
    let mut i: usize = start;
    let ghost d0 = diag@;
    while i < count
        invariant
            count == named_child_count(*node),
            start <= i,
            d0 == old(diag)@,
            go_specs_from(*node, kind@, start as int, d0) == prepend(stmts_view(out@), go_specs_from(*node, kind@, i as int, diag@)),
        decreases count - i,
    {
        match node.named_child(i) {
            Some(c) => {
                let ghost dc = diag@;
                if c.is_kind(kind) {
                    match parse_spec(c, diag) {
                        Ok(ss) => {
                            let ghost before = out@;
                            let mut ss = ss;
                            let ghost ssq = ss@;
                            proof {
                                lemma_prepend_prepend(stmts_view(before), stmts_view(ssq), go_specs_from(*node, kind@, i + 1, diag@));
                            }
                            out.append(&mut ss);
                            proof {
                                lemma_stmts_view_concat(before, ssq);
                            }
                        },
                        Err(e) => {
                            assert(go_specs_from(*node, kind@, i as int, dc) == Err::<(Seq<StmtV>, DiagV), PseudoErrorV>(e@));
                            return Err(e);
                        },
                    }
                }
            },
            None => {
                i = count;
                continue;
            },
        }
        i = i + 1;
    }
    proof {
        lemma_prepend_empty(stmts_view(out@), diag@);
    }
    Ok(out)
}

/// The statements of one spec.
fn parse_spec(node: &SyntaxNode, diag: &mut RawDiagnostics) -> (r: Result<Vec<Stmt>, PseudoError>)
    ensures
        match r {
            Ok(v) => go_spec(*node, old(diag)@) == Ok::<(Seq<StmtV>, DiagV), PseudoErrorV>((stmts_view(v@), final(diag)@)),
            Err(e) => go_spec(*node, old(diag)@) == Err::<(Seq<StmtV>, DiagV), PseudoErrorV>(e@),
        },
{
    let values = match node.child_by_field_name("value") {
        Some(list) => match parse_expr_list(list, 0, diag) {
            Ok(v) => v,
            Err(e) => return Err(e),
        },
        None => Vec::new(),
    };
    let names = field_texts_of(node, "name");
    match declare_or_assign_stmts(names, values) {
        Some(ss) => Ok(ss),
        None => Ok(one_stmt(record_raw_stmt(node, diag))),
    }
}

// ---------------------------------------------------------------------------
// Executable adapter: functions and module
// ---------------------------------------------------------------------------

fn params_from_names(names: &Vec<String>) -> (r: Vec<Param>)
    ensures
        params_view(r@) == strings_view(names@).map_values(|s: Seq<char>| ParamV { name: s, type_hint: None }),
{
    let mut out: Vec<Param> = Vec::new();
    let mut i: usize = 0;
    while i < names.len()
        invariant
            i <= names.len(),
            out.len() == i,
            forall|j: int| 0 <= j < i ==> #[trigger] out@[j]@ == (ParamV { name: names@[j]@, type_hint: None }),
        decreases names.len() - i,
    {
        out.push(Param { name: names[i].clone(), type_hint: None });
        i = i + 1;
    }
    assert(params_view(out@) =~= strings_view(names@).map_values(|s: Seq<char>| ParamV { name: s, type_hint: None }));
    out
}

proof fn lemma_params_view_concat(a: Seq<Param>, b: Seq<Param>)
    ensures
        params_view(a + b) == params_view(a) + params_view(b),
{
    assert(params_view(a + b) =~= params_view(a) + params_view(b));
}

fn parse_param_list(node: &SyntaxNode) -> (r: Vec<Param>)
    ensures
        params_view(r@) == go_params_from(*node, 0),
{
    let count = node.named_child_count();
    let mut out: Vec<Param> = Vec::new();
    let mut i: usize = 0;
    while i < count
        invariant
            count == named_child_count(*node),
            go_params_from(*node, 0) == params_view(out@) + go_params_from(*node, i as int),
        decreases count - i,
    {
        let ghost before = params_view(out@);
        match node.named_child(i) {
            Some(c) => {
                if c.is_kind("parameter_declaration") {
                    let names = field_texts_of(c, "name");
                    let mut ps = params_from_names(&names);
                    let ghost psq = ps@;
                    let ghost outq = out@;
                    out.append(&mut ps);
                    proof {
                        lemma_params_view_concat(outq, psq);
                        assert(before + (params_view(psq) + go_params_from(*node, i + 1)) =~= params_view(out@) + go_params_from(*node, i + 1));
                    }
                } else {
                    assert(before + (Seq::<ParamV>::empty() + go_params_from(*node, i + 1)) =~= before + go_params_from(*node, i + 1));
                }
            },
            None => {
                i = count;
                continue;
            },
        }
        i = i + 1;
    }
    assert(params_view(out@) + Seq::<ParamV>::empty() =~= params_view(out@));
    out
}

fn parse_function(node: &SyntaxNode, diag: &mut RawDiagnostics) -> (r: Result<Item, PseudoError>)
    ensures
        outcome(r, final(diag)@) == go_function(*node, old(diag)@),
{
    let name = match node.child_by_field_name("name") {
        Some(c) => c,
        None => return Err(parse_err("function missing name")),
    };
    let params_node = match node.child_by_field_name("parameters") {
        Some(c) => c,
        None => return Err(parse_err("function missing parameters")),
    };
    let body_node = match node.child_by_field_name("body") {
        Some(c) => c,
        None => return Ok(record_raw_item(node, diag)),
    };
    let mut params = match node.child_by_field_name("receiver") {
        Some(r) => parse_param_list(r),
        None => Vec::new(),
    };
    let mut rest = parse_param_list(params_node);
    let ghost pq = params@;
    let ghost rq = rest@;
    params.append(&mut rest);
    proof {
        lemma_params_view_concat(pq, rq);
        assert(params_view(pq) =~= match field_child(*node, "receiver"@) {
            Some(r) => go_params_from(r, 0),
            None => Seq::<ParamV>::empty(),
        });
    }
    let body = match parse_block(body_node, diag) {
        Ok(b) => b,
        Err(e) => return Err(e),
    };
    let f = Function {
        name: name.text.clone(),
        params,
        return_type: None,
        body,
        span: Span { start: node.start_byte, end: node.end_byte },
    };
    proof {
        assert(f@.params =~= params_view(f.params@));
    }
    Ok(Item::Function(f))
}

/// The items of the source file rooted at `root`.
fn parse_items(root: &SyntaxNode, diag: &mut RawDiagnostics) -> (r: Result<Vec<Item>, PseudoError>)
    ensures
        match r {
            Ok(v) => go_items_from(*root, 0, old(diag)@) == Ok::<(Seq<ItemV>, DiagV), PseudoErrorV>((items_view(v@), final(diag)@)),
            Err(e) => go_items_from(*root, 0, old(diag)@) == Err::<(Seq<ItemV>, DiagV), PseudoErrorV>(e@),
        },
{
    let count = root.named_child_count();
    let mut items: Vec<Item> = Vec::new();
    let mut i: usize = 0;
    let ghost d0 = diag@;
    while i < count
        invariant
            count == named_child_count(*root),
            d0 == old(diag)@,
            go_items_from(*root, 0, d0) == prepend(items_view(items@), go_items_from(*root, i as int, diag@)),
        decreases count - i,
    {
        match root.named_child(i) {
            Some(c) => {
                let ghost dc = diag@;
                let ghost before = items_view(items@);
                if c.is_kind("package_clause") || c.is_kind("import_declaration") || c.is_kind("comment") {
                } else if c.is_kind("function_declaration") || c.is_kind("method_declaration") {
                    match parse_function(c, diag) {
                        Ok(it) => {
                            proof {
                                lemma_prepend_cons(before, it@, go_items_from(*root, i + 1, diag@));
                            }
                            items.push(it);
                            assert(items_view(items@) =~= before.push(items@[items.len() - 1]@));
                        },
                        Err(e) => {
                            assert(go_items_from(*root, i as int, dc) == Err::<(Seq<ItemV>, DiagV), PseudoErrorV>(e@));
                            return Err(e);
                        },
                    }
                } else {
                    let it = record_raw_item(c, diag);
                    proof {
                        lemma_prepend_cons(before, it@, go_items_from(*root, i + 1, diag@));
                    }
                    items.push(it);
                    assert(items_view(items@) =~= before.push(items@[items.len() - 1]@));
                }
            },
            None => {
                i = count;
                continue;
            },
        }
        i = i + 1;
    }
    proof {
        lemma_prepend_empty(items_view(items@), diag@);
    }
    Ok(items)
}

impl Default for GoParser {
    fn default() -> (r: Self)
        ensures
            r == GoParser,
    {
        GoParser::new()
    }
}

impl GoParser {
    pub fn new() -> Self {
        GoParser
    }

    /// What the adapter makes of a syntax tree: the module and its raw
    /// diagnostics, or an error.
    pub fn parse_tree(root: &SyntaxNode) -> (r: Result<(Module, RawDiagnostics), PseudoError>)
        ensures
            parse_view(r) == go_module(*root),
    {
        if root.has_error {
            return Err(parse_err("syntax error"));
        }
        let mut diag = RawDiagnostics::new();
        match parse_items(root, &mut diag) {
            Ok(items) => {
                let m = Module { source_language: SourceLang::Go, items };
                proof {
                    assert(m@.items =~= items_view(m.items@));
                }
                Ok((m, diag))
            },
            Err(e) => Err(e),
        }
    }
}

impl LanguageParser for GoParser {
    fn language(&self) -> (r: SourceLang)
        ensures
            r == SourceLang::Go,
    {
        SourceLang::Go
    }

    fn parse(&self, source: &str) -> (r: Result<(Module, RawDiagnostics), PseudoError>)
        ensures
            parse_view(r) == go_parse(source@),
    {
        match parse_go_tree(source) {
            TreeOutcome::GrammarRejected(m) => {
                let mut msg = String::from_str("tree-sitter init: ");
                msg.append(m.as_str());
                Err(PseudoError::Internal(msg))
            },
            TreeOutcome::NoTree => Err(parse_err("parse failed")),
            TreeOutcome::Parsed(root) => GoParser::parse_tree(&root),
        }
    }
}

} // verus!
