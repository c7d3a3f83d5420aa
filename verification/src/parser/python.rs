//! Python adapter: from a tree-sitter-python syntax tree to the IR.
use crate::diagnostics::{DiagV, RawDiagnostics, empty_diag};
use crate::error::{PseudoError, PseudoErrorV};
use crate::ir::{
    BinOp,
    block_raw_exprs, block_raw_stmts, expr_raw_count, exprs_raw_count, for_kind_raw_exprs, items_raw_exprs,
    items_raw_items, items_raw_stmts, lemma_block_raw_cons, lemma_exprs_raw_cons,
    lemma_exprs_raw_small, lemma_items_raw_cons, opt_expr_raw_count, stmt_raw_exprs, stmt_raw_stmts, Block, Expr, ExprV, ForKind, ForKindV, Function, FunctionV, Item, ItemV, Literal, LiteralV,
    Module, ModuleV, Param, ParamV, Span, Stmt, StmtV, TypeHint, VarDecl, VarDeclV, exprs_view,
    opt_block_view, stmts_view,
};
use crate::parser::common::{
    PRes, bounded, lemma_notes, lemma_recorded_dropped, lemma_recorded_from_empty,
    lemma_recorded_trans, opt_block_raw, raw_counted, recorded, anon_operator, bin_op_spec, comparison_op_spec, cons, find_anon_operator,
    lemma_prepend_cons, lemma_prepend_empty, note_expr, note_item, note_stmt, outcome,
    parse_bin_op, parse_comparison_op, parse_err, parse_err_with, parse_un_op, perr, prepend,
    record_raw_expr, record_raw_item, record_raw_stmt, un_op_spec,
};
use crate::parser::{LanguageParser, parse_view};
use crate::syntax::{
    SyntaxNode, TreeOutcome, child_of_kind, field_child, line_of, named_child, named_child_count,
    parse_python_tree, python_tree,
};
use crate::text::{parse_i64, parse_i64_spec, str_eq, trim_matching, trim_pair};
use crate::SourceLang;
use vstd::prelude::*;

verus! {

pub struct PythonParser;

// ---------------------------------------------------------------------------
// What the adapter does, stated over syntax trees
// ---------------------------------------------------------------------------

/// A named child, looked up by field, or else by kind.
pub open spec fn field_or_kind(n: SyntaxNode, field: Seq<char>, kind: Seq<char>) -> Option<SyntaxNode> {
    match field_child(n, field) {
        Some(c) => Some(c),
        None => child_of_kind(n, kind),
    }
}

/// A child looked up by field, or else by position among the named ones.
pub open spec fn field_or_nth(n: SyntaxNode, field: Seq<char>, i: int) -> Option<SyntaxNode> {
    match field_child(n, field) {
        Some(c) => Some(c),
        None => named_child(n, i),
    }
}

/// The IR of a Python expression node.
pub open spec fn py_expr(n: SyntaxNode, d: DiagV) -> PRes<ExprV>
    decreases n, 1nat, 0nat,
{
    let k = n.kind@;
    if k == "identifier"@ {
        Ok((ExprV::Ident(n.text@), d))
    } else if k == "integer"@ {
        match parse_i64_spec(n.text@) {
            Some(v) => Ok((ExprV::Literal(LiteralV::Int(v)), d)),
            None => Err(perr("invalid integer literal: "@ + n.text@)),
        }
    } else if k == "string"@ {
        Ok((ExprV::Literal(LiteralV::Str(trim_pair(n.text@, '"', '\''))), d))
    } else if k == "true"@ {
        Ok((ExprV::Literal(LiteralV::Bool(true)), d))
    } else if k == "false"@ {
        Ok((ExprV::Literal(LiteralV::Bool(false)), d))
    } else if k == "none"@ {
        Ok((ExprV::Literal(LiteralV::Nil), d))
    } else if k == "call"@ {
        py_call(n, d)
    } else if k == "subscript"@ {
        py_subscript(n, d)
    } else if k == "attribute"@ {
        py_attribute(n, d)
    } else if k == "parenthesized_expression"@ {
        match named_child(n, 0) {
            None => Err(perr("parenthesized_expression empty"@)),
            Some(inner) => py_expr(inner, d),
        }
    } else if k == "binary_operator"@ {
        py_binary(n, d)
    } else if k == "comparison_operator"@ {
        py_comparison(n, d)
    } else if k == "unary_operator"@ {
        py_unary(n, d)
    } else if k == "pattern_list"@ || k == "expression_list"@ || k == "tuple"@ {
        match py_exprs_from(n, 0, d) {
            Err(e) => Err(e),
            Ok((items, d1)) => Ok((ExprV::Tuple(items), d1)),
        }
    } else {
        Ok((ExprV::Raw(n.text@), note_expr(d, line_of(n))))
    }
}

/// A call: arguments first, then the callee.
pub open spec fn py_call(n: SyntaxNode, d: DiagV) -> PRes<ExprV>
    decreases n, 0nat, 1nat,
{
    match named_child(n, 0) {
        None => Err(perr("call missing callee"@)),
        Some(callee) => match named_child(n, 1) {
            None => Err(perr("call missing args"@)),
            Some(an) => match py_exprs_from(an, 0, d) {
                Err(e) => Err(e),
                Ok((args, d1)) => match py_expr(callee, d1) {
                    Err(e) => Err(e),
                    Ok((c, d2)) => Ok((ExprV::Call { callee: Box::new(c), args }, d2)),
                },
            },
        },
    }
}

/// An index expression.
pub open spec fn py_subscript(n: SyntaxNode, d: DiagV) -> PRes<ExprV>
    decreases n, 0nat, 1nat,
{
    match named_child(n, 0) {
        None => Err(perr("subscript missing object"@)),
        Some(obj) => match named_child(n, 1) {
            None => Err(perr("subscript missing index"@)),
            Some(index) => match py_expr(obj, d) {
                Err(e) => Err(e),
                Ok((o, d1)) => match py_expr(index, d1) {
                    Err(e) => Err(e),
                    Ok((i, d2)) => Ok((ExprV::Index { obj: Box::new(o), index: Box::new(i) }, d2)),
                },
            },
        },
    }
}

/// A field access.
pub open spec fn py_attribute(n: SyntaxNode, d: DiagV) -> PRes<ExprV>
    decreases n, 0nat, 1nat,
{
    match named_child(n, 0) {
        None => Err(perr("attribute missing object"@)),
        Some(obj) => match named_child(n, 1) {
            None => Err(perr("attribute missing name"@)),
            Some(name) => match py_expr(obj, d) {
                Err(e) => Err(e),
                Ok((o, d1)) => Ok((ExprV::Field { obj: Box::new(o), name: name.text@ }, d1)),
            },
        },
    }
}

/// An arithmetic, logical or bitwise operation; operators without an IR
/// counterpart (`**`, `@`, ...) stay raw.
pub open spec fn py_binary(n: SyntaxNode, d: DiagV) -> PRes<ExprV>
    decreases n, 0nat, 1nat,
{
    match named_child(n, 0) {
        None => Err(perr("binary_operator missing lhs"@)),
        Some(lhs) => match named_child(n, 1) {
            None => Err(perr("binary_operator missing rhs"@)),
            Some(rhs) => match anon_operator(n) {
                None => Err(perr("binary_operator missing operator"@)),
                Some(t) => match bin_op_spec(t) {
                    None => Ok((ExprV::Raw(n.text@), note_expr(d, line_of(n)))),
                    Some(op) => match py_expr(lhs, d) {
                        Err(e) => Err(e),
                        Ok((l, d1)) => match py_expr(rhs, d1) {
                            Err(e) => Err(e),
                            Ok((r, d2)) => Ok(
                                (ExprV::Binary { op, lhs: Box::new(l), rhs: Box::new(r) }, d2),
                            ),
                        },
                    },
                },
            },
        },
    }
}

/// A comparison; comparisons without an IR operator (`in`, `is`, ...) stay raw.
pub open spec fn py_comparison(n: SyntaxNode, d: DiagV) -> PRes<ExprV>
    decreases n, 0nat, 1nat,
{
    match named_child(n, 0) {
        None => Err(perr("comparison_operator missing lhs"@)),
        Some(lhs) => match named_child(n, 1) {
            None => Err(perr("comparison_operator missing rhs"@)),
            Some(rhs) => match anon_operator(n) {
                None => Err(perr("comparison_operator missing operator"@)),
                Some(t) => match comparison_op_spec(t) {
                    None => Ok((ExprV::Raw(n.text@), note_expr(d, line_of(n)))),
                    Some(op) => match py_expr(lhs, d) {
                        Err(e) => Err(e),
                        Ok((l, d1)) => match py_expr(rhs, d1) {
                            Err(e) => Err(e),
                            Ok((r, d2)) => Ok(
                                (ExprV::Binary { op, lhs: Box::new(l), rhs: Box::new(r) }, d2),
                            ),
                        },
                    },
                },
            },
        },
    }
}

/// A unary operation; operators without an IR counterpart (`+`) stay raw.
pub open spec fn py_unary(n: SyntaxNode, d: DiagV) -> PRes<ExprV>
    decreases n, 0nat, 1nat,
{
    match anon_operator(n) {
        None => Err(perr("unary_operator missing operator"@)),
        Some(t) => match un_op_spec(t) {
            None => Ok((ExprV::Raw(n.text@), note_expr(d, line_of(n)))),
            Some(op) => match named_child(n, 0) {
                None => Err(perr("unary_operator missing operand"@)),
                Some(operand) => match py_expr(operand, d) {
                    Err(e) => Err(e),
                    Ok((x, d1)) => Ok((ExprV::Unary { op, expr: Box::new(x) }, d1)),
                },
            },
        },
    }
}

/// The IR of the named children of `n` from the `i`-th on, in order.
pub open spec fn py_exprs_from(n: SyntaxNode, i: int, d: DiagV) -> PRes<Seq<ExprV>>
    decreases n, 0nat, named_child_count(n) - i,
{
    if i < 0 || i >= named_child_count(n) {
        Ok((Seq::empty(), d))
    } else {
        match named_child(n, i) {
            None => Ok((Seq::empty(), d)),
            Some(c) => match py_expr(c, d) {
                Err(e) => Err(e),
                Ok((x, d1)) => cons(x, py_exprs_from(n, i + 1, d1)),
            },
        }
    }
}

/// The IR of a statement node; a statement that only yields stays raw.
pub open spec fn py_stmt(n: SyntaxNode, d: DiagV) -> PRes<StmtV>
    decreases n, 3nat, 0nat,
{
    let k = n.kind@;
    if k == "expression_statement"@ {
        match named_child(n, 0) {
            None => Err(perr("expression_statement empty"@)),
            Some(inner) => if inner.kind@ == "assignment"@ {
                py_assignment(inner, d)
            } else if inner.kind@ == "typed_assignment"@ {
                py_typed_assignment(inner, d)
            } else if inner.kind@ == "yield"@ {
                Ok((StmtV::Raw(n.text@), note_stmt(d, line_of(n))))
            } else {
                match py_expr(inner, d) {
                    Err(e) => Err(e),
                    Ok((x, d1)) => Ok((StmtV::ExprStmt(x), d1)),
                }
            },
        }
    } else if k == "while_statement"@ {
        match named_child(n, 0) {
            None => Err(perr("while missing condition"@)),
            Some(cond) => match named_child(n, 1) {
                None => Err(perr("while missing body"@)),
                Some(body) => match py_expr(cond, d) {
                    Err(e) => Err(e),
                    Ok((c, d1)) => match py_block_from(body, 0, d1) {
                        Err(e) => Err(e),
                        Ok((b, d2)) => Ok((StmtV::While { cond: c, body: b }, d2)),
                    },
                },
            },
        }
    } else if k == "for_statement"@ {
        py_for_stmt(n, d)
    } else if k == "if_statement"@ {
        py_if(n, d)
    } else if k == "return_statement"@ {
        match named_child(n, 0) {
            None => Ok((StmtV::Return(None), d)),
            Some(c) => match py_expr(c, d) {
                Err(e) => Err(e),
                Ok((x, d1)) => Ok((StmtV::Return(Some(x)), d1)),
            },
        }
    } else if k == "break_statement"@ {
        Ok((StmtV::Break, d))
    } else if k == "continue_statement"@ {
        Ok((StmtV::Continue, d))
    } else {
        Ok((StmtV::Raw(n.text@), note_stmt(d, line_of(n))))
    }
}

/// `target = value`; an annotated `name: T = value` declares `name`.
pub open spec fn py_assignment(n: SyntaxNode, d: DiagV) -> PRes<StmtV> {
    match field_or_nth(n, "left"@, 0) {
        None => Err(perr("assignment missing target"@)),
        Some(target) => match field_or_nth(n, "right"@, 1) {
            None => Err(perr("assignment missing value"@)),
            Some(value) => if field_child(n, "type"@) is Some && target.kind@ == "identifier"@ {
                match py_expr(value, d) {
                    Err(e) => Err(e),
                    Ok((v, d1)) => Ok(
                        (
                            StmtV::VarDecl(
                                VarDeclV {
                                    name: target.text@,
                                    type_hint: Some(field_child(n, "type"@)->0.text@),
                                    init: Some(v),
                                },
                            ),
                            d1,
                        ),
                    ),
                }
            } else {
                match py_expr(target, d) {
                    Err(e) => Err(e),
                    Ok((t, d1)) => match py_expr(value, d1) {
                        Err(e) => Err(e),
                        Ok((v, d2)) => Ok((StmtV::Assign { target: t, value: v }, d2)),
                    },
                }
            },
        },
    }
}

/// `name: T` or `name: T = value` declares `name`; other targets stay raw.
pub open spec fn py_typed_assignment(n: SyntaxNode, d: DiagV) -> PRes<StmtV> {
    match field_child(n, "left"@) {
        None => Err(perr("typed_assignment missing target"@)),
        Some(target) => {
            let value: PRes<Option<ExprV>> = match field_child(n, "right"@) {
                None => Ok((None, d)),
                Some(v) => match py_expr(v, d) {
                    Err(e) => Err(e),
                    Ok((x, d1)) => Ok((Some(x), d1)),
                },
            };
            match value {
                Err(e) => Err(e),
                Ok((init, d1)) => if target.kind@ != "identifier"@ {
                    Ok((StmtV::Raw(n.text@), note_stmt(d1, line_of(n))))
                } else {
                    Ok(
                        (
                            StmtV::VarDecl(
                                VarDeclV {
                                    name: target.text@,
                                    type_hint: match field_child(n, "type"@) {
                                        Some(t) => Some(t.text@),
                                        None => None,
                                    },
                                    init,
                                },
                            ),
                            d1,
                        ),
                    )
                },
            }
        },
    }
}

/// The loop shape of `for var in iter`: `range(...)` with one to three
/// arguments is a counted loop, anything else iterates over a collection.
pub open spec fn py_for_kind(var: Seq<char>, iter: SyntaxNode, d: DiagV) -> PRes<ForKindV> {
    let for_each: PRes<ForKindV> = match py_expr(iter, d) {
        Err(e) => Err(e),
        Ok((x, d1)) => Ok((ForKindV::ForEach { var, iter: x }, d1)),
    };
    if iter.kind@ == "call"@ {
        match named_child(iter, 0) {
            None => Err(perr("call missing callee"@)),
            Some(callee) => if callee.kind@ == "identifier"@ && callee.text@ == "range"@ {
                match named_child(iter, 1) {
                    None => Err(perr("call missing args"@)),
                    Some(an) => match py_exprs_from(an, 0, d) {
                        Err(e) => Err(e),
                        Ok((args, d1)) => if args.len() == 1 {
                            Ok(
                                (
                                    ForKindV::Range {
                                        var,
                                        start: ExprV::Literal(LiteralV::Int(0)),
                                        end: args[0],
                                        step: None,
                                    },
                                    d1,
                                ),
                            )
                        } else if args.len() == 2 {
                            Ok((ForKindV::Range { var, start: args[0], end: args[1], step: None }, d1))
                        } else if args.len() == 3 {
                            Ok(
                                (
                                    ForKindV::Range {
                                        var,
                                        start: args[0],
                                        end: args[1],
                                        step: Some(args[2]),
                                    },
                                    d1,
                                ),
                            )
                        } else {
                            match py_expr(iter, d1) {
                                Err(e) => Err(e),
                                Ok((x, d2)) => Ok((ForKindV::ForEach { var, iter: x }, d2)),
                            }
                        },
                    },
                }
            } else {
                for_each
            },
        }
    } else {
        for_each
    }
}

/// `for target in iter: body`; targets other than a plain name stay raw.
pub open spec fn py_for_stmt(n: SyntaxNode, d: DiagV) -> PRes<StmtV>
    decreases n, 2nat, 0nat,
{
    match named_child(n, 0) {
        None => Err(perr("for missing target"@)),
        Some(target) => match named_child(n, 1) {
            None => Err(perr("for missing iterable"@)),
            Some(iter) => match named_child(n, 2) {
                None => Err(perr("for missing body"@)),
                Some(body) => if target.kind@ != "identifier"@ {
                    Ok((StmtV::Raw(n.text@), note_stmt(d, line_of(n))))
                } else {
                    match py_for_kind(target.text@, iter, d) {
                        Err(e) => Err(e),
                        Ok((kind, d1)) => match py_block_from(body, 0, d1) {
                            Err(e) => Err(e),
                            Ok((b, d2)) => Ok((StmtV::For { kind, body: b }, d2)),
                        },
                    }
                },
            },
        },
    }
}

/// `if cond: ... elif ...: ... else: ...`; the elif/else clauses are read
/// first.
pub open spec fn py_if(n: SyntaxNode, d: DiagV) -> PRes<StmtV>
    decreases n, 2nat, 0nat,
{
    match named_child(n, 0) {
        None => Err(perr("if missing condition"@)),
        Some(cond) => match named_child(n, 1) {
            None => Err(perr("if missing then block"@)),
            Some(then_node) => match py_else_chain(n, 2, d) {
                Err(e) => Err(e),
                Ok((else_block, d1)) => match py_expr(cond, d1) {
                    Err(e) => Err(e),
                    Ok((c, d2)) => match py_block_from(then_node, 0, d2) {
                        Err(e) => Err(e),
                        Ok((t, d3)) => Ok(
                            (StmtV::If { cond: c, then_block: t, else_block }, d3),
                        ),
                    },
                },
            },
        },
    }
}

/// The else branch built from the clauses of `ifn` from its `k`-th named
/// child on: `elif` nests a new `if` in it, `else` gives its block.
pub open spec fn py_else_chain(ifn: SyntaxNode, k: int, d: DiagV) -> PRes<Option<Seq<StmtV>>>
    decreases ifn, 0nat, named_child_count(ifn) - k,
{
    if k < 0 || k >= named_child_count(ifn) {
        Ok((None, d))
    } else {
        match named_child(ifn, k) {
            None => Ok((None, d)),
            Some(first) => if first.kind@ == "elif_clause"@ {
                match named_child(first, 0) {
                    None => Err(perr("elif missing condition"@)),
                    Some(cond) => match named_child(first, 1) {
                        None => Err(perr("elif missing body"@)),
                        Some(body) => match py_expr(cond, d) {
                            Err(e) => Err(e),
                            Ok((c, d1)) => match py_block_from(body, 0, d1) {
                                Err(e) => Err(e),
                                Ok((b, d2)) => match py_else_chain(ifn, k + 1, d2) {
                                    Err(e) => Err(e),
                                    Ok((rest, d3)) => Ok(
                                        (
                                            Some(
                                                seq![
                                                    StmtV::If {
                                                        cond: c,
                                                        then_block: b,
                                                        else_block: rest,
                                                    },
                                                ],
                                            ),
                                            d3,
                                        ),
                                    ),
                                },
                            },
                        },
                    },
                }
            } else if first.kind@ == "else_clause"@ {
                match named_child(first, 0) {
                    None => Err(perr("else missing body"@)),
                    Some(body) => match py_block_from(body, 0, d) {
                        Err(e) => Err(e),
                        Ok((b, d1)) => Ok((Some(b), d1)),
                    },
                }
            } else {
                Ok((None, d))
            },
        }
    }
}

/// The statements of the named children of `n` from the `i`-th on.
pub open spec fn py_block_from(n: SyntaxNode, i: int, d: DiagV) -> PRes<Seq<StmtV>>
    decreases n, 0nat, named_child_count(n) - i,
{
    if i < 0 || i >= named_child_count(n) {
        Ok((Seq::empty(), d))
    } else {
        match named_child(n, i) {
            None => Ok((Seq::empty(), d)),
            Some(c) => match py_stmt(c, d) {
                Err(e) => Err(e),
                Ok((x, d1)) => cons(x, py_block_from(n, i + 1, d1)),
            },
        }
    }
}

/// The parameters of a parameter list: its plain names.
pub open spec fn py_params_from(n: SyntaxNode, i: int) -> Seq<ParamV>
    decreases named_child_count(n) - i,
{
    if i < 0 || i >= named_child_count(n) {
        Seq::empty()
    } else {
        match named_child(n, i) {
            None => Seq::empty(),
            Some(c) => (if c.kind@ == "identifier"@ {
                seq![ParamV { name: c.text@, type_hint: None }]
            } else {
                Seq::empty()
            }) + py_params_from(n, i + 1),
        }
    }
}

/// A `def`.
pub open spec fn py_function(n: SyntaxNode, d: DiagV) -> PRes<FunctionV> {
    match field_or_kind(n, "name"@, "identifier"@) {
        None => Err(perr("function missing name"@)),
        Some(name) => match field_or_kind(n, "parameters"@, "parameters"@) {
            None => Err(perr("function missing parameters"@)),
            Some(pn) => match field_or_kind(n, "body"@, "block"@) {
                None => Err(perr("function missing body"@)),
                Some(body) => match py_block_from(body, 0, d) {
                    Err(e) => Err(e),
                    Ok((b, d1)) => Ok(
                        (
                            FunctionV {
                                name: name.text@,
                                params: py_params_from(pn, 0),
                                return_type: None,
                                body: b,
                                span: Span { start: 0, end: 0 },
                            },
                            d1,
                        ),
                    ),
                },
            },
        },
    }
}

/// The items of a module: each `def` becomes a function, anything else stays
/// raw.
pub open spec fn py_items_from(root: SyntaxNode, i: int, d: DiagV) -> PRes<Seq<ItemV>>
    decreases named_child_count(root) - i,
{
    if i < 0 || i >= named_child_count(root) {
        Ok((Seq::empty(), d))
    } else {
        match named_child(root, i) {
            None => Ok((Seq::empty(), d)),
            Some(c) => if c.kind@ == "function_definition"@ {
                match py_function(c, d) {
                    Err(e) => Err(e),
                    Ok((f, d1)) => cons(ItemV::Function(f), py_items_from(root, i + 1, d1)),
                }
            } else {
                cons(ItemV::Raw(c.text@), py_items_from(root, i + 1, note_item(d, line_of(c))))
            },
        }
    }
}

/// What parsing a Python source text gives: the module and its raw-fallback
/// diagnostics, or the error.
pub open spec fn python_parse(source: Seq<char>) -> core::result::Result<(ModuleV, DiagV), PseudoErrorV> {
    match python_tree(source) {
        TreeOutcome::GrammarRejected(m) => Err(PseudoErrorV::Internal("tree-sitter init: "@ + m@)),
        TreeOutcome::NoTree => Err(perr("parse failed"@)),
        TreeOutcome::Parsed(root) => python_module(root),
    }
}

/// What the Python adapter makes of a syntax tree.
pub open spec fn python_module(root: SyntaxNode) -> core::result::Result<(ModuleV, DiagV), PseudoErrorV> {
    if root.has_error {
        Err(perr("syntax error"@))
    } else {
        match py_items_from(root, 0, empty_diag()) {
            Err(e) => Err(e),
            Ok((items, d)) => Ok((ModuleV { source_language: SourceLang::Python, items }, d)),
        }
    }
}

// ---------------------------------------------------------------------------
// The diagnostics count the raw fragments
// ---------------------------------------------------------------------------

proof fn lemma_py_expr_counts(n: SyntaxNode, d: DiagV)
    requires
        bounded(d),
    ensures
        py_expr(n, d) matches Ok((x, d2)) ==> recorded(d, d2, 0, 0, expr_raw_count(x)),
    decreases n, 1nat, 0nat,
{
    lemma_notes(d, line_of(n));
    let k = n.kind@;
    if k == "call"@ {
        lemma_py_call_counts(n, d);
    } else if k == "subscript"@ {
        lemma_py_subscript_counts(n, d);
    } else if k == "attribute"@ {
        lemma_py_attribute_counts(n, d);
    } else if k == "parenthesized_expression"@ {
        match named_child(n, 0) {
            Some(inner) => lemma_py_expr_counts(inner, d),
            None => {},
        }
    } else if k == "binary_operator"@ {
        lemma_py_binary_counts(n, d);
    } else if k == "comparison_operator"@ {
        lemma_py_comparison_counts(n, d);
    } else if k == "unary_operator"@ {
        lemma_py_unary_counts(n, d);
    } else if k == "pattern_list"@ || k == "expression_list"@ || k == "tuple"@ {
        lemma_py_exprs_from_counts(n, 0, d);
    }
}

proof fn lemma_py_call_counts(n: SyntaxNode, d: DiagV)
    requires
        bounded(d),
    ensures
        py_call(n, d) matches Ok((x, d2)) ==> recorded(d, d2, 0, 0, expr_raw_count(x)),
    decreases n, 0nat, 1nat,
{
    match (named_child(n, 0), named_child(n, 1)) {
        (Some(callee), Some(an)) => {
            lemma_py_exprs_from_counts(an, 0, d);
            match py_exprs_from(an, 0, d) {
                Ok((args, d1)) => {
                    lemma_py_expr_counts(callee, d1);
                    match py_expr(callee, d1) {
                        Ok((c, d2)) => {
                            lemma_recorded_trans(d, d1, d2, 0, 0, exprs_raw_count(args), 0, 0, expr_raw_count(c));
                        },
                        Err(_) => {},
                    }
                },
                Err(_) => {},
            }
        },
        _ => {},
    }
}

proof fn lemma_py_subscript_counts(n: SyntaxNode, d: DiagV)
    requires
        bounded(d),
    ensures
        py_subscript(n, d) matches Ok((x, d2)) ==> recorded(d, d2, 0, 0, expr_raw_count(x)),
    decreases n, 0nat, 1nat,
{
    match (named_child(n, 0), named_child(n, 1)) {
        (Some(obj), Some(index)) => {
            lemma_py_expr_counts(obj, d);
            match py_expr(obj, d) {
                Ok((o, d1)) => {
                    lemma_py_expr_counts(index, d1);
                    match py_expr(index, d1) {
                        Ok((i, d2)) => {
                            lemma_recorded_trans(d, d1, d2, 0, 0, expr_raw_count(o), 0, 0, expr_raw_count(i));
                        },
                        Err(_) => {},
                    }
                },
                Err(_) => {},
            }
        },
        _ => {},
    }
}

proof fn lemma_py_attribute_counts(n: SyntaxNode, d: DiagV)
    requires
        bounded(d),
    ensures
        py_attribute(n, d) matches Ok((x, d2)) ==> recorded(d, d2, 0, 0, expr_raw_count(x)),
    decreases n, 0nat, 1nat,
{
    match named_child(n, 0) {
        Some(obj) => lemma_py_expr_counts(obj, d),
        None => {},
    }
}

proof fn lemma_py_binary_counts(n: SyntaxNode, d: DiagV)
    requires
        bounded(d),
    ensures
        py_binary(n, d) matches Ok((x, d2)) ==> recorded(d, d2, 0, 0, expr_raw_count(x)),
    decreases n, 0nat, 1nat,
{
    lemma_notes(d, line_of(n));
    match (named_child(n, 0), named_child(n, 1)) {
        (Some(lhs), Some(rhs)) => {
            lemma_py_expr_counts(lhs, d);
            match py_expr(lhs, d) {
                Ok((l, d1)) => {
                    lemma_py_expr_counts(rhs, d1);
                    match py_expr(rhs, d1) {
                        Ok((r, d2)) => {
                            lemma_recorded_trans(d, d1, d2, 0, 0, expr_raw_count(l), 0, 0, expr_raw_count(r));
                        },
                        Err(_) => {},
                    }
                },
                Err(_) => {},
            }
        },
        _ => {},
    }
}

proof fn lemma_py_comparison_counts(n: SyntaxNode, d: DiagV)
    requires
        bounded(d),
    ensures
        py_comparison(n, d) matches Ok((x, d2)) ==> recorded(d, d2, 0, 0, expr_raw_count(x)),
    decreases n, 0nat, 1nat,
{
    lemma_notes(d, line_of(n));
    match (named_child(n, 0), named_child(n, 1)) {
        (Some(lhs), Some(rhs)) => {
            lemma_py_expr_counts(lhs, d);
            match py_expr(lhs, d) {
                Ok((l, d1)) => {
                    lemma_py_expr_counts(rhs, d1);
                    match py_expr(rhs, d1) {
                        Ok((r, d2)) => {
                            lemma_recorded_trans(d, d1, d2, 0, 0, expr_raw_count(l), 0, 0, expr_raw_count(r));
                        },
                        Err(_) => {},
                    }
                },
                Err(_) => {},
            }
        },
        _ => {},
    }
}

proof fn lemma_py_unary_counts(n: SyntaxNode, d: DiagV)
    requires
        bounded(d),
    ensures
        py_unary(n, d) matches Ok((x, d2)) ==> recorded(d, d2, 0, 0, expr_raw_count(x)),
    decreases n, 0nat, 1nat,
{
    lemma_notes(d, line_of(n));
    match named_child(n, 0) {
        Some(operand) => lemma_py_expr_counts(operand, d),
        None => {},
    }
}

proof fn lemma_py_exprs_from_counts(n: SyntaxNode, i: int, d: DiagV)
    requires
        bounded(d),
    ensures
        py_exprs_from(n, i, d) matches Ok((xs, d2)) ==> recorded(d, d2, 0, 0, exprs_raw_count(xs)),
    decreases n, 0nat, named_child_count(n) - i,
{
    lemma_notes(d, 0);
    if 0 <= i < named_child_count(n) {
        match named_child(n, i) {
            Some(c) => {
                lemma_py_expr_counts(c, d);
                match py_expr(c, d) {
                    Ok((x, d1)) => {
                        lemma_py_exprs_from_counts(n, i + 1, d1);
                        match py_exprs_from(n, i + 1, d1) {
                            Ok((rest, d2)) => {
                                lemma_exprs_raw_cons(x, rest);
                                lemma_recorded_trans(d, d1, d2, 0, 0, expr_raw_count(x), 0, 0, exprs_raw_count(rest));
                            },
                            Err(_) => {},
                        }
                    },
                    Err(_) => {},
                }
            },
            None => {},
        }
    }
}

proof fn lemma_py_stmt_counts(n: SyntaxNode, d: DiagV)
    requires
        bounded(d),
    ensures
        py_stmt(n, d) matches Ok((s, d2)) ==> recorded(d, d2, 0, stmt_raw_stmts(s), stmt_raw_exprs(s)),
    decreases n, 3nat, 0nat,
{
    lemma_notes(d, line_of(n));
    let k = n.kind@;
    if k == "expression_statement"@ {
        match named_child(n, 0) {
            Some(inner) => {
                if inner.kind@ == "assignment"@ {
                    lemma_py_assignment_counts(inner, d);
                } else if inner.kind@ == "typed_assignment"@ {
                    lemma_py_typed_assignment_counts(inner, d);
                } else if inner.kind@ != "yield"@ {
                    lemma_py_expr_counts(inner, d);
                }
            },
            None => {},
        }
    } else if k == "while_statement"@ {
        match (named_child(n, 0), named_child(n, 1)) {
            (Some(cond), Some(body)) => {
                lemma_py_expr_counts(cond, d);
                match py_expr(cond, d) {
                    Ok((c, d1)) => {
                        lemma_py_block_from_counts(body, 0, d1);
                        match py_block_from(body, 0, d1) {
                            Ok((b, d2)) => {
                                lemma_recorded_trans(d, d1, d2, 0, 0, expr_raw_count(c), 0, block_raw_stmts(b), block_raw_exprs(b));
                            },
                            Err(_) => {},
                        }
                    },
                    Err(_) => {},
                }
            },
            _ => {},
        }
    } else if k == "for_statement"@ {
        lemma_py_for_stmt_counts(n, d);
    } else if k == "if_statement"@ {
        lemma_py_if_counts(n, d);
    } else if k == "return_statement"@ {
        match named_child(n, 0) {
            Some(c) => lemma_py_expr_counts(c, d),
            None => {},
        }
    }
}

proof fn lemma_py_assignment_counts(n: SyntaxNode, d: DiagV)
    requires
        bounded(d),
    ensures
        py_assignment(n, d) matches Ok((s, d2)) ==> recorded(d, d2, 0, stmt_raw_stmts(s), stmt_raw_exprs(s)),
{
    match (field_or_nth(n, "left"@, 0), field_or_nth(n, "right"@, 1)) {
        (Some(target), Some(value)) => {
            if field_child(n, "type"@) is Some && target.kind@ == "identifier"@ {
                lemma_py_expr_counts(value, d);
            } else {
                lemma_py_expr_counts(target, d);
                match py_expr(target, d) {
                    Ok((t, d1)) => {
                        lemma_py_expr_counts(value, d1);
                        match py_expr(value, d1) {
                            Ok((v, d2)) => {
                                lemma_recorded_trans(d, d1, d2, 0, 0, expr_raw_count(t), 0, 0, expr_raw_count(v));
                            },
                            Err(_) => {},
                        }
                    },
                    Err(_) => {},
                }
            }
        },
        _ => {},
    }
}

proof fn lemma_py_typed_assignment_counts(n: SyntaxNode, d: DiagV)
    requires
        bounded(d),
    ensures
        py_typed_assignment(n, d) matches Ok((s, d2)) ==> recorded(d, d2, 0, stmt_raw_stmts(s), stmt_raw_exprs(s)),
{
    match field_child(n, "left"@) {
        Some(target) => {
            match field_child(n, "right"@) {
                Some(v) => {
                    lemma_py_expr_counts(v, d);
                    match py_expr(v, d) {
                        Ok((x, d1)) => {
                            lemma_notes(d1, line_of(n));
                            lemma_recorded_trans(d, d1, note_stmt(d1, line_of(n)), 0, 0, expr_raw_count(x), 0, 1, 0);
                            lemma_recorded_dropped(d, note_stmt(d1, line_of(n)), 0, 1, 0, expr_raw_count(x));
                        },
                        Err(_) => {},
                    }
                },
                None => {
                    lemma_notes(d, line_of(n));
                },
            }
        },
        None => {},
    }
}

proof fn lemma_py_for_kind_counts(var: Seq<char>, iter: SyntaxNode, d: DiagV)
    requires
        bounded(d),
    ensures
        py_for_kind(var, iter, d) matches Ok((k, d2)) ==> recorded(d, d2, 0, 0, for_kind_raw_exprs(k)),
{
    lemma_py_expr_counts(iter, d);
    if iter.kind@ == "call"@ {
        match named_child(iter, 0) {
            Some(callee) => {
                if callee.kind@ == "identifier"@ && callee.text@ == "range"@ {
                    match named_child(iter, 1) {
                        Some(an) => {
                            lemma_py_exprs_from_counts(an, 0, d);
                            match py_exprs_from(an, 0, d) {
                                Ok((args, d1)) => {
                                    lemma_exprs_raw_small(args);
                                    if args.len() < 1 || args.len() > 3 {
                                        lemma_py_expr_counts(iter, d1);
                                        match py_expr(iter, d1) {
                                            Ok((x, d2)) => {
                                                lemma_recorded_trans(d, d1, d2, 0, 0, exprs_raw_count(args), 0, 0, expr_raw_count(x));
                                            },
                                            Err(_) => {},
                                        }
                                    }
                                },
                                Err(_) => {},
                            }
                        },
                        None => {},
                    }
                }
            },
            None => {},
        }
    }
}

proof fn lemma_py_for_stmt_counts(n: SyntaxNode, d: DiagV)
    requires
        bounded(d),
    ensures
        py_for_stmt(n, d) matches Ok((s, d2)) ==> recorded(d, d2, 0, stmt_raw_stmts(s), stmt_raw_exprs(s)),
    decreases n, 2nat, 0nat,
{
    lemma_notes(d, line_of(n));
    match (named_child(n, 0), named_child(n, 1), named_child(n, 2)) {
        (Some(target), Some(iter), Some(body)) => {
            if target.kind@ == "identifier"@ {
                lemma_py_for_kind_counts(target.text@, iter, d);
                match py_for_kind(target.text@, iter, d) {
                    Ok((kind, d1)) => {
                        lemma_py_block_from_counts(body, 0, d1);
                        match py_block_from(body, 0, d1) {
                            Ok((b, d2)) => {
                                let ke = for_kind_raw_exprs(kind);
                                lemma_recorded_trans(d, d1, d2, 0, 0, ke, 0, block_raw_stmts(b), block_raw_exprs(b));
                            },
                            Err(_) => {},
                        }
                    },
                    Err(_) => {},
                }
            }
        },
        _ => {},
    }
}

proof fn lemma_py_if_counts(n: SyntaxNode, d: DiagV)
    requires
        bounded(d),
    ensures
        py_if(n, d) matches Ok((s, d2)) ==> recorded(d, d2, 0, stmt_raw_stmts(s), stmt_raw_exprs(s)),
    decreases n, 2nat, 0nat,
{
    match (named_child(n, 0), named_child(n, 1)) {
        (Some(cond), Some(then_node)) => {
            lemma_py_else_chain_counts(n, 2, d);
            match py_else_chain(n, 2, d) {
                Ok((eb, d1)) => {
                    lemma_py_expr_counts(cond, d1);
                    match py_expr(cond, d1) {
                        Ok((c, d2)) => {
                            lemma_py_block_from_counts(then_node, 0, d2);
                            match py_block_from(then_node, 0, d2) {
                                Ok((t, d3)) => {
                                    let (es, ee) = opt_block_raw(eb);
                                    lemma_recorded_trans(d, d1, d2, 0, es, ee, 0, 0, expr_raw_count(c));
                                    lemma_recorded_trans(d, d2, d3, 0, es, ee + expr_raw_count(c), 0, block_raw_stmts(t), block_raw_exprs(t));
                                },
                                Err(_) => {},
                            }
                        },
                        Err(_) => {},
                    }
                },
                Err(_) => {},
            }
        },
        _ => {},
    }
}

proof fn lemma_py_else_chain_counts(ifn: SyntaxNode, k: int, d: DiagV)
    requires
        bounded(d),
    ensures
        py_else_chain(ifn, k, d) matches Ok((eb, d2)) ==> recorded(d, d2, 0, opt_block_raw(eb).0, opt_block_raw(eb).1),
    decreases ifn, 0nat, named_child_count(ifn) - k,
{
    lemma_notes(d, 0);
    if 0 <= k < named_child_count(ifn) {
        match named_child(ifn, k) {
            Some(first) => {
                if first.kind@ == "elif_clause"@ {
                    match (named_child(first, 0), named_child(first, 1)) {
                        (Some(cond), Some(body)) => {
                            lemma_py_expr_counts(cond, d);
                            match py_expr(cond, d) {
                                Ok((c, d1)) => {
                                    lemma_py_block_from_counts(body, 0, d1);
                                    match py_block_from(body, 0, d1) {
                                        Ok((b, d2)) => {
                                            lemma_py_else_chain_counts(ifn, k + 1, d2);
                                            match py_else_chain(ifn, k + 1, d2) {
                                                Ok((rest, d3)) => {
                                                    let (rs, re) = opt_block_raw(rest);
                                                    lemma_recorded_trans(d, d1, d2, 0, 0, expr_raw_count(c), 0, block_raw_stmts(b), block_raw_exprs(b));
                                                    lemma_recorded_trans(d, d2, d3, 0, block_raw_stmts(b), expr_raw_count(c) + block_raw_exprs(b), 0, rs, re);
                                                    let nested = StmtV::If { cond: c, then_block: b, else_block: rest };
                                                    lemma_block_raw_cons(nested, Seq::empty());
                                                },
                                                Err(_) => {},
                                            }
                                        },
                                        Err(_) => {},
                                    }
                                },
                                Err(_) => {},
                            }
                        },
                        _ => {},
                    }
                } else if first.kind@ == "else_clause"@ {
                    match named_child(first, 0) {
                        Some(body) => lemma_py_block_from_counts(body, 0, d),
                        None => {},
                    }
                }
            },
            None => {},
        }
    }
}

proof fn lemma_py_block_from_counts(n: SyntaxNode, i: int, d: DiagV)
    requires
        bounded(d),
    ensures
        py_block_from(n, i, d) matches Ok((b, d2)) ==> recorded(d, d2, 0, block_raw_stmts(b), block_raw_exprs(b)),
    decreases n, 0nat, named_child_count(n) - i,
{
    lemma_notes(d, 0);
    if 0 <= i < named_child_count(n) {
        match named_child(n, i) {
            Some(c) => {
                lemma_py_stmt_counts(c, d);
                match py_stmt(c, d) {
                    Ok((x, d1)) => {
                        lemma_py_block_from_counts(n, i + 1, d1);
                        match py_block_from(n, i + 1, d1) {
                            Ok((rest, d2)) => {
                                lemma_block_raw_cons(x, rest);
                                lemma_recorded_trans(d, d1, d2, 0, stmt_raw_stmts(x), stmt_raw_exprs(x), 0, block_raw_stmts(rest), block_raw_exprs(rest));
                            },
                            Err(_) => {},
                        }
                    },
                    Err(_) => {},
                }
            },
            None => {},
        }
    }
}

proof fn lemma_py_function_counts(n: SyntaxNode, d: DiagV)
    requires
        bounded(d),
    ensures
        py_function(n, d) matches Ok((f, d2)) ==> recorded(d, d2, 0, block_raw_stmts(f.body), block_raw_exprs(f.body)),
{
    match (field_or_kind(n, "name"@, "identifier"@), field_or_kind(n, "parameters"@, "parameters"@), field_or_kind(n, "body"@, "block"@)) {
        (Some(name), Some(pn), Some(body)) => lemma_py_block_from_counts(body, 0, d),
        _ => {},
    }
}

proof fn lemma_py_items_from_counts(root: SyntaxNode, i: int, d: DiagV)
    requires
        bounded(d),
    ensures
        py_items_from(root, i, d) matches Ok((items, d2)) ==> recorded(d, d2, items_raw_items(items), items_raw_stmts(items), items_raw_exprs(items)),
    decreases named_child_count(root) - i,
{
    lemma_notes(d, 0);
    if 0 <= i < named_child_count(root) {
        match named_child(root, i) {
            Some(c) => {
                if c.kind@ == "function_definition"@ {
                    lemma_py_function_counts(c, d);
                    match py_function(c, d) {
                        Ok((f, d1)) => {
                            lemma_py_items_from_counts(root, i + 1, d1);
                            match py_items_from(root, i + 1, d1) {
                                Ok((rest, d2)) => {
                                    let it = ItemV::Function(f);
                                    lemma_items_raw_cons(it, rest);
                                    assert(seq![it].drop_last() =~= Seq::<ItemV>::empty());
                                    lemma_recorded_trans(d, d1, d2, 0, block_raw_stmts(f.body), block_raw_exprs(f.body), items_raw_items(rest), items_raw_stmts(rest), items_raw_exprs(rest));
                                },
                                Err(_) => {},
                            }
                        },
                        Err(_) => {},
                    }
                } else {
                    let d1 = note_item(d, line_of(c));
                    lemma_notes(d, line_of(c));
                    lemma_py_items_from_counts(root, i + 1, d1);
                    match py_items_from(root, i + 1, d1) {
                        Ok((rest, d2)) => {
                            let it = ItemV::Raw(c.text@);
                            lemma_items_raw_cons(it, rest);
                            assert(seq![it].drop_last() =~= Seq::<ItemV>::empty());
                            lemma_recorded_trans(d, d1, d2, 1, 0, 0, items_raw_items(rest), items_raw_stmts(rest), items_raw_exprs(rest));
                        },
                        Err(_) => {},
                    }
                }
            },
            None => {},
        }
    }
}

/// A subscript `a[i]` becomes an index whose object is the IR of its first
/// named child and whose index is the IR of its second, read in that order.
pub proof fn lemma_py_subscript_object_then_index(n: SyntaxNode, d: DiagV, a: SyntaxNode, b: SyntaxNode)
    requires
        n.kind@ == "subscript"@,
        named_child(n, 0) == Some(a),
        named_child(n, 1) == Some(b),
    ensures
        match py_expr(a, d) {
            Err(e) => py_expr(n, d) == Err::<(ExprV, DiagV), PseudoErrorV>(e),
            Ok((x, d1)) => match py_expr(b, d1) {
                Err(e) => py_expr(n, d) == Err::<(ExprV, DiagV), PseudoErrorV>(e),
                Ok((y, d2)) => py_expr(n, d) == Ok::<(ExprV, DiagV), PseudoErrorV>((ExprV::Index { obj: Box::new(x), index: Box::new(y) }, d2)),
            },
        },
{
    reveal_strlit("identifier");
    reveal_strlit("integer");
    reveal_strlit("string");
    reveal_strlit("true");
    reveal_strlit("false");
    reveal_strlit("none");
    reveal_strlit("call");
    reveal_strlit("subscript");
    assert(n.kind@.len() == 9);
    assert(py_expr(n, d) == py_subscript(n, d));
}

/// A binary operation keeps its operands in source order: the left one is
/// the IR of the first named child, read first, the right one the IR of the
/// second; the operator is the one its text names.
pub proof fn lemma_py_binary_left_then_right(n: SyntaxNode, d: DiagV, a: SyntaxNode, b: SyntaxNode, t: Seq<char>, op: BinOp)
    requires
        n.kind@ == "binary_operator"@,
        named_child(n, 0) == Some(a),
        named_child(n, 1) == Some(b),
        anon_operator(n) == Some(t),
        bin_op_spec(t) == Some(op),
    ensures
        match py_expr(a, d) {
            Err(e) => py_expr(n, d) == Err::<(ExprV, DiagV), PseudoErrorV>(e),
            Ok((x, d1)) => match py_expr(b, d1) {
                Err(e) => py_expr(n, d) == Err::<(ExprV, DiagV), PseudoErrorV>(e),
                Ok((y, d2)) => py_expr(n, d) == Ok::<(ExprV, DiagV), PseudoErrorV>((ExprV::Binary { op, lhs: Box::new(x), rhs: Box::new(y) }, d2)),
            },
        },
{
    reveal_strlit("identifier");
    reveal_strlit("integer");
    reveal_strlit("string");
    reveal_strlit("true");
    reveal_strlit("false");
    reveal_strlit("none");
    reveal_strlit("call");
    reveal_strlit("subscript");
    reveal_strlit("attribute");
    reveal_strlit("parenthesized_expression");
    reveal_strlit("binary_operator");
    assert(n.kind@.len() == 15);
    assert(py_expr(n, d) == py_binary(n, d));
}

/// A comparison keeps its operands in source order: the left one is the IR
/// of the first named child, read first, the right one the IR of the
/// second; the operator is the one its text names.
pub proof fn lemma_py_comparison_left_then_right(n: SyntaxNode, d: DiagV, a: SyntaxNode, b: SyntaxNode, t: Seq<char>, op: BinOp)
    requires
        n.kind@ == "comparison_operator"@,
        named_child(n, 0) == Some(a),
        named_child(n, 1) == Some(b),
        anon_operator(n) == Some(t),
        comparison_op_spec(t) == Some(op),
    ensures
        match py_expr(a, d) {
            Err(e) => py_expr(n, d) == Err::<(ExprV, DiagV), PseudoErrorV>(e),
            Ok((x, d1)) => match py_expr(b, d1) {
                Err(e) => py_expr(n, d) == Err::<(ExprV, DiagV), PseudoErrorV>(e),
                Ok((y, d2)) => py_expr(n, d) == Ok::<(ExprV, DiagV), PseudoErrorV>((ExprV::Binary { op, lhs: Box::new(x), rhs: Box::new(y) }, d2)),
            },
        },
{
    reveal_strlit("identifier");
    reveal_strlit("integer");
    reveal_strlit("string");
    reveal_strlit("true");
    reveal_strlit("false");
    reveal_strlit("none");
    reveal_strlit("call");
    reveal_strlit("subscript");
    reveal_strlit("attribute");
    reveal_strlit("parenthesized_expression");
    reveal_strlit("binary_operator");
    reveal_strlit("comparison_operator");
    assert(n.kind@.len() == 19);
    assert(py_expr(n, d) == py_comparison(n, d));
}

/// Every raw fragment of a parsed Python module is recorded: the
/// diagnostics count exactly its raw items and raw statements, and at least
/// its raw expressions (an expression read before its statement fell back to
/// raw text stays counted), each up to the largest machine integer; and
/// while no count has reached that bound, every count recorded one line.
pub proof fn lemma_python_diagnostics_count_raw(root: SyntaxNode)
    ensures
        python_module(root) matches Ok((m, d)) ==> raw_counted(m.items, d),
{
    if !root.has_error {
        lemma_py_items_from_counts(root, 0, empty_diag());
        match py_items_from(root, 0, empty_diag()) {
            Ok((items, d)) => lemma_recorded_from_empty(items, d),
            Err(_) => {},
        }
    }
}

// ---------------------------------------------------------------------------
// Executable adapter
// ---------------------------------------------------------------------------

/// Parses the named children of `node` from the `start`-th on as expressions.
fn parse_expr_list(node: &SyntaxNode, start: usize, diag: &mut RawDiagnostics) -> (r: Result<Vec<Expr>, PseudoError>)
    ensures
        match r {
            Ok(v) => py_exprs_from(*node, start as int, old(diag)@) == Ok::<(Seq<ExprV>, DiagV), PseudoErrorV>((exprs_view(v@), final(diag)@)),
            Err(e) => py_exprs_from(*node, start as int, old(diag)@) == Err::<(Seq<ExprV>, DiagV), PseudoErrorV>(e@),
        },
    decreases node, 0nat, named_child_count(*node) - start,
{
    let count = node.named_child_count();
    let mut out: Vec<Expr> = Vec::new();
    let mut i: usize = start;
    let ghost d0 = diag@;
    while i < count
        invariant
            count == named_child_count(*node),
            start <= i,
            i <= count || i == start,
            d0 == old(diag)@,
            py_exprs_from(*node, start as int, d0) == prepend(exprs_view(out@), py_exprs_from(*node, i as int, diag@)),
        decreases count - i,
    {
        match node.named_child(i) {
            Some(c) => {
                let ghost dc = diag@;
                match parse_expr(c, diag) {
                    Ok(x) => {
                        proof {
                            lemma_prepend_cons(exprs_view(out@), x@, py_exprs_from(*node, i + 1, diag@));
                        }
                        let ghost before = out@;
                        out.push(x);
                        proof {
                            assert(exprs_view(out@) =~= exprs_view(before).push(x@));
                        }
                    },
                    Err(e) => {
                        assert(py_exprs_from(*node, i as int, dc) == Err::<(Seq<ExprV>, DiagV), PseudoErrorV>(e@));
                        return Err(e);
                    },
                }
            },
            None => {
                i = count;
                continue;
            },
        }
        i = i + 1;
    }
    proof {
        lemma_prepend_empty(exprs_view(out@), diag@);
    }
    Ok(out)
}

pub fn parse_expr(node: &SyntaxNode, diag: &mut RawDiagnostics) -> (r: Result<Expr, PseudoError>)
    ensures
        outcome(r, final(diag)@) == py_expr(*node, old(diag)@),
    decreases node, 1nat, 0nat,
{
    if node.is_kind("identifier") {
        Ok(Expr::Ident(node.text.clone()))
    } else if node.is_kind("integer") {
        match parse_i64(node.text.as_str()) {
            Some(v) => Ok(Expr::Literal(Literal::Int(v))),
            None => Err(parse_err_with("invalid integer literal: ", node.text.as_str())),
        }
    } else if node.is_kind("string") {
        Ok(Expr::Literal(Literal::Str(trim_matching(node.text.as_str(), '"', '\''))))
    } else if node.is_kind("true") {
        Ok(Expr::Literal(Literal::Bool(true)))
    } else if node.is_kind("false") {
        Ok(Expr::Literal(Literal::Bool(false)))
    } else if node.is_kind("none") {
        Ok(Expr::Literal(Literal::Nil))
    } else if node.is_kind("call") {
        parse_call(node, diag)
    } else if node.is_kind("subscript") {
        parse_subscript(node, diag)
    } else if node.is_kind("attribute") {
        parse_attribute(node, diag)
    } else if node.is_kind("parenthesized_expression") {
        match node.named_child(0) {
            None => Err(parse_err("parenthesized_expression empty")),
            Some(inner) => parse_expr(inner, diag),
        }
    } else if node.is_kind("binary_operator") {
        parse_binary(node, diag)
    } else if node.is_kind("comparison_operator") {
        parse_comparison(node, diag)
    } else if node.is_kind("unary_operator") {
        parse_unary(node, diag)
    } else if node.is_kind("pattern_list") || node.is_kind("expression_list") || node.is_kind("tuple") {
        let items = match parse_expr_list(node, 0, diag) {
        Ok(v) => v,
        Err(e) => return Err(e),
    };
        proof {
            assert(exprs_view(items@) =~= Expr::Tuple(items)@->Tuple_0);
        }
        Ok(Expr::Tuple(items))
    } else {
        Ok(record_raw_expr(node, diag))
    }
}

fn parse_call(node: &SyntaxNode, diag: &mut RawDiagnostics) -> (r: Result<Expr, PseudoError>)
    ensures
        outcome(r, final(diag)@) == py_call(*node, old(diag)@),
    decreases node, 0nat, 1nat,
{
    let callee = match node.named_child(0) {
        Some(c) => c,
        None => return Err(parse_err("call missing callee")),
    };
    let args_node = match node.named_child(1) {
        Some(c) => c,
        None => return Err(parse_err("call missing args")),
    };
    let args = match parse_expr_list(args_node, 0, diag) {
        Ok(v) => v,
        Err(e) => return Err(e),
    };
    let callee = match parse_expr(callee, diag) {
        Ok(v) => v,
        Err(e) => return Err(e),
    };
    let e = Expr::Call { callee: Box::new(callee), args };
    proof {
        assert(e@->args =~= exprs_view(args@));
    }
    Ok(e)
}

fn parse_subscript(node: &SyntaxNode, diag: &mut RawDiagnostics) -> (r: Result<Expr, PseudoError>)
    ensures
        outcome(r, final(diag)@) == py_subscript(*node, old(diag)@),
    decreases node, 0nat, 1nat,
{
    let obj = match node.named_child(0) {
        Some(c) => c,
        None => return Err(parse_err("subscript missing object")),
    };
    let index = match node.named_child(1) {
        Some(c) => c,
        None => return Err(parse_err("subscript missing index")),
    };
    let obj = match parse_expr(obj, diag) {
        Ok(v) => v,
        Err(e) => return Err(e),
    };
    let index = match parse_expr(index, diag) {
        Ok(v) => v,
        Err(e) => return Err(e),
    };
    Ok(Expr::Index { obj: Box::new(obj), index: Box::new(index) })
}

fn parse_attribute(node: &SyntaxNode, diag: &mut RawDiagnostics) -> (r: Result<Expr, PseudoError>)
    ensures
        outcome(r, final(diag)@) == py_attribute(*node, old(diag)@),
    decreases node, 0nat, 1nat,
{
    let obj = match node.named_child(0) {
        Some(c) => c,
        None => return Err(parse_err("attribute missing object")),
    };
    let name = match node.named_child(1) {
        Some(c) => c,
        None => return Err(parse_err("attribute missing name")),
    };
    let obj = match parse_expr(obj, diag) {
        Ok(v) => v,
        Err(e) => return Err(e),
    };
    Ok(Expr::Field { obj: Box::new(obj), name: name.text.clone() })
}

fn parse_binary(node: &SyntaxNode, diag: &mut RawDiagnostics) -> (r: Result<Expr, PseudoError>)
    ensures
        outcome(r, final(diag)@) == py_binary(*node, old(diag)@),
    decreases node, 0nat, 1nat,
{
    let lhs = match node.named_child(0) {
        Some(c) => c,
        None => return Err(parse_err("binary_operator missing lhs")),
    };
    let rhs = match node.named_child(1) {
        Some(c) => c,
        None => return Err(parse_err("binary_operator missing rhs")),
    };
    let op_text = match find_anon_operator(node) {
        Some(t) => t,
        None => return Err(parse_err("binary_operator missing operator")),
    };
    let op = match parse_bin_op(op_text) {
        Some(v) => v,
        None => return Ok(record_raw_expr(node, diag)),
    };
    let lhs = match parse_expr(lhs, diag) {
        Ok(v) => v,
        Err(e) => return Err(e),
    };
    let rhs = match parse_expr(rhs, diag) {
        Ok(v) => v,
        Err(e) => return Err(e),
    };
    Ok(Expr::Binary { op, lhs: Box::new(lhs), rhs: Box::new(rhs) })
}

fn parse_comparison(node: &SyntaxNode, diag: &mut RawDiagnostics) -> (r: Result<Expr, PseudoError>)
    ensures
        outcome(r, final(diag)@) == py_comparison(*node, old(diag)@),
    decreases node, 0nat, 1nat,
{
    let lhs = match node.named_child(0) {
        Some(c) => c,
        None => return Err(parse_err("comparison_operator missing lhs")),
    };
    let rhs = match node.named_child(1) {
        Some(c) => c,
        None => return Err(parse_err("comparison_operator missing rhs")),
    };
    let op_text = match find_anon_operator(node) {
        Some(t) => t,
        None => return Err(parse_err("comparison_operator missing operator")),
    };
    let op = match parse_comparison_op(op_text) {
        Some(op) => op,
        None => return Ok(record_raw_expr(node, diag)),
    };
    let lhs = match parse_expr(lhs, diag) {
        Ok(v) => v,
        Err(e) => return Err(e),
    };
    let rhs = match parse_expr(rhs, diag) {
        Ok(v) => v,
        Err(e) => return Err(e),
    };
    Ok(Expr::Binary { op, lhs: Box::new(lhs), rhs: Box::new(rhs) })
}

fn parse_unary(node: &SyntaxNode, diag: &mut RawDiagnostics) -> (r: Result<Expr, PseudoError>)
    ensures
        outcome(r, final(diag)@) == py_unary(*node, old(diag)@),
    decreases node, 0nat, 1nat,
{
    let op_text = match find_anon_operator(node) {
        Some(t) => t,
        None => return Err(parse_err("unary_operator missing operator")),
    };
    let op = match parse_un_op(op_text) {
        Some(v) => v,
        None => return Ok(record_raw_expr(node, diag)),
    };
    let operand = match node.named_child(0) {
        Some(c) => c,
        None => return Err(parse_err("unary_operator missing operand")),
    };
    let inner = match parse_expr(operand, diag) {
        Ok(v) => v,
        Err(e) => return Err(e),
    };
    Ok(Expr::Unary { op, expr: Box::new(inner) })
}


/// Parses the named children of `node` from the `start`-th on as statements.
fn parse_block_from(node: &SyntaxNode, start: usize, diag: &mut RawDiagnostics) -> (r: Result<Vec<Stmt>, PseudoError>)
    ensures
        match r {
            Ok(v) => py_block_from(*node, start as int, old(diag)@) == Ok::<(Seq<StmtV>, DiagV), PseudoErrorV>((stmts_view(v@), final(diag)@)),
            Err(e) => py_block_from(*node, start as int, old(diag)@) == Err::<(Seq<StmtV>, DiagV), PseudoErrorV>(e@),
        },
    decreases node, 0nat, named_child_count(*node) - start,
{
    let count = node.named_child_count();
    let mut out: Vec<Stmt> = Vec::new();
    let mut i: usize = start;
    let ghost d0 = diag@;
    while i < count
        invariant
            count == named_child_count(*node),
            start <= i,
            d0 == old(diag)@,
            py_block_from(*node, start as int, d0) == prepend(stmts_view(out@), py_block_from(*node, i as int, diag@)),
        decreases count - i,
    {
        match node.named_child(i) {
            Some(c) => {
                let ghost dc = diag@;
                match parse_stmt(c, diag) {
                    Ok(x) => {
                        proof {
                            lemma_prepend_cons(stmts_view(out@), x@, py_block_from(*node, i + 1, diag@));
                        }
                        let ghost before = out@;
                        out.push(x);
                        proof {
                            assert(stmts_view(out@) =~= stmts_view(before).push(x@));
                        }
                    },
                    Err(e) => {
                        assert(py_block_from(*node, i as int, dc) == Err::<(Seq<StmtV>, DiagV), PseudoErrorV>(e@));
                        return Err(e);
                    },
                }
            },
            None => {
                i = count;
                continue;
            },
        }
        i = i + 1;
    }
    proof {
        lemma_prepend_empty(stmts_view(out@), diag@);
    }
    Ok(out)
}

fn parse_block(node: &SyntaxNode, diag: &mut RawDiagnostics) -> (r: Result<Block, PseudoError>)
    ensures
        match r {
            Ok(b) => py_block_from(*node, 0, old(diag)@) == Ok::<(Seq<StmtV>, DiagV), PseudoErrorV>((b@, final(diag)@)),
            Err(e) => py_block_from(*node, 0, old(diag)@) == Err::<(Seq<StmtV>, DiagV), PseudoErrorV>(e@),
        },
    decreases node, 0nat, named_child_count(*node) + 1,
{
    match parse_block_from(node, 0, diag) {
        Ok(v) => Ok(Block(v)),
        Err(e) => Err(e),
    }
}

pub fn parse_stmt(node: &SyntaxNode, diag: &mut RawDiagnostics) -> (r: Result<Stmt, PseudoError>)
    ensures
        outcome(r, final(diag)@) == py_stmt(*node, old(diag)@),
    decreases node, 3nat, 0nat,
{
    if node.is_kind("expression_statement") {
        let inner = match node.named_child(0) {
            Some(c) => c,
            None => return Err(parse_err("expression_statement empty")),
        };
        if inner.is_kind("assignment") {
            parse_assignment(inner, diag)
        } else if inner.is_kind("typed_assignment") {
            parse_typed_assignment(inner, diag)
        } else if inner.is_kind("yield") {
            Ok(record_raw_stmt(node, diag))
        } else {
            match parse_expr(inner, diag) {
                Ok(x) => Ok(Stmt::ExprStmt(x)),
                Err(e) => Err(e),
            }
        }
    } else if node.is_kind("while_statement") {
        let cond = match node.named_child(0) {
            Some(c) => c,
            None => return Err(parse_err("while missing condition")),
        };
        let body = match node.named_child(1) {
            Some(c) => c,
            None => return Err(parse_err("while missing body")),
        };
        let cond = match parse_expr(cond, diag) {
            Ok(v) => v,
            Err(e) => return Err(e),
        };
        let body = match parse_block(body, diag) {
            Ok(v) => v,
            Err(e) => return Err(e),
        };
        let s = Stmt::While { cond, body };
        assert(s@->While_body =~= s->While_body@);
        Ok(s)
    } else if node.is_kind("for_statement") {
        parse_for_stmt(node, diag)
    } else if node.is_kind("if_statement") {
        parse_if_stmt(node, diag)
    } else if node.is_kind("return_statement") {
        match node.named_child(0) {
            None => Ok(Stmt::Return(None)),
            Some(c) => match parse_expr(c, diag) {
                Ok(x) => Ok(Stmt::Return(Some(x))),
                Err(e) => Err(e),
            },
        }
    } else if node.is_kind("break_statement") {
        Ok(Stmt::Break)
    } else if node.is_kind("continue_statement") {
        Ok(Stmt::Continue)
    } else {
        Ok(record_raw_stmt(node, diag))
    }
}

/// The first child filling `field`, or else the `i`-th named child.
fn child_by_field_or_nth<'a>(node: &'a SyntaxNode, field: &str, i: usize) -> (r: Option<&'a SyntaxNode>)
    ensures
        r matches Some(c) ==> field_or_nth(*node, field@, i as int) == Some(*c),
        r is None ==> field_or_nth(*node, field@, i as int) is None,
{
    match node.child_by_field_name(field) {
        Some(c) => Some(c),
        None => node.named_child(i),
    }
}

/// The first child filling `field`, or else the first named child of `kind`.
fn child_by_field_or_kind<'a>(node: &'a SyntaxNode, field: &str, kind: &str) -> (r: Option<&'a SyntaxNode>)
    ensures
        r matches Some(c) ==> field_or_kind(*node, field@, kind@) == Some(*c),
        r is None ==> field_or_kind(*node, field@, kind@) is None,
{
    match node.child_by_field_name(field) {
        Some(c) => Some(c),
        None => node.named_child_by_kind(kind),
    }
}

fn parse_assignment(node: &SyntaxNode, diag: &mut RawDiagnostics) -> (r: Result<Stmt, PseudoError>)
    ensures
        outcome(r, final(diag)@) == py_assignment(*node, old(diag)@),
{
    let target = match child_by_field_or_nth(node, "left", 0) {
        Some(c) => c,
        None => return Err(parse_err("assignment missing target")),
    };
    let value = match child_by_field_or_nth(node, "right", 1) {
        Some(c) => c,
        None => return Err(parse_err("assignment missing value")),
    };
    match node.child_by_field_name("type") {
        Some(type_node) => {
            if target.is_kind("identifier") {
                let init = match parse_expr(value, diag) {
                    Ok(v) => v,
                    Err(e) => return Err(e),
                };
                return Ok(
                    Stmt::VarDecl(
                        VarDecl {
                            name: target.text.clone(),
                            type_hint: Some(TypeHint(type_node.text.clone())),
                            init: Some(init),
                        },
                    ),
                );
            }
        },
        None => {},
    }
    let target = match parse_expr(target, diag) {
        Ok(v) => v,
        Err(e) => return Err(e),
    };
    let value = match parse_expr(value, diag) {
        Ok(v) => v,
        Err(e) => return Err(e),
    };
    Ok(Stmt::Assign { target, value })
}

fn parse_typed_assignment(node: &SyntaxNode, diag: &mut RawDiagnostics) -> (r: Result<Stmt, PseudoError>)
    ensures
        outcome(r, final(diag)@) == py_typed_assignment(*node, old(diag)@),
{
    let target = match node.child_by_field_name("left") {
        Some(c) => c,
        None => return Err(parse_err("typed_assignment missing target")),
    };
    let type_node = node.child_by_field_name("type");
    let value = match node.child_by_field_name("right") {
        None => None,
        Some(v) => match parse_expr(v, diag) {
            Ok(x) => Some(x),
            Err(e) => return Err(e),
        },
    };
    if !target.is_kind("identifier") {
        return Ok(record_raw_stmt(node, diag));
    }
    Ok(
        Stmt::VarDecl(
            VarDecl {
                name: target.text.clone(),
                type_hint: match type_node {
                    Some(t) => Some(TypeHint(t.text.clone())),
                    None => None,
                },
                init: value,
            },
        ),
    )
}

fn parse_for_stmt(node: &SyntaxNode, diag: &mut RawDiagnostics) -> (r: Result<Stmt, PseudoError>)
    ensures
        outcome(r, final(diag)@) == py_for_stmt(*node, old(diag)@),
    decreases node, 2nat, 0nat,
{
    let target = match node.named_child(0) {
        Some(c) => c,
        None => return Err(parse_err("for missing target")),
    };
    let iter = match node.named_child(1) {
        Some(c) => c,
        None => return Err(parse_err("for missing iterable")),
    };
    let body = match node.named_child(2) {
        Some(c) => c,
        None => return Err(parse_err("for missing body")),
    };
    if !target.is_kind("identifier") {
        return Ok(record_raw_stmt(node, diag));
    }
    let kind = match python_for_kind(target.text.clone(), iter, diag) {
        Ok(k) => k,
        Err(e) => return Err(e),
    };
    let body = match parse_block(body, diag) {
        Ok(b) => b,
        Err(e) => return Err(e),
    };
    let s = Stmt::For { kind, body };
    assert(s@->For_body =~= s->For_body@);
    Ok(s)
}

fn python_for_kind(var: String, iter: &SyntaxNode, diag: &mut RawDiagnostics) -> (r: Result<ForKind, PseudoError>)
    ensures
        outcome(r, final(diag)@) == py_for_kind(var@, *iter, old(diag)@),
{
    if iter.is_kind("call") {
        let callee = match iter.named_child(0) {
            Some(c) => c,
            None => return Err(parse_err("call missing callee")),
        };
        if callee.is_kind("identifier") && str_eq(callee.text.as_str(), "range") {
            let args_node = match iter.named_child(1) {
                Some(c) => c,
                None => return Err(parse_err("call missing args")),
            };
            let mut args = match parse_expr_list(args_node, 0, diag) {
                Ok(v) => v,
                Err(e) => return Err(e),
            };
            let ghost av = exprs_view(args@);
            if args.len() == 1 {
                let end = args.remove(0);
                return Ok(
                    ForKind::Range { var, start: Expr::Literal(Literal::Int(0)), end, step: None },
                );
            } else if args.len() == 2 {
                let end = args.remove(1);
                let start = args.remove(0);
                return Ok(ForKind::Range { var, start, end, step: None });
            } else if args.len() == 3 {
                let step = args.remove(2);
                let end = args.remove(1);
                let start = args.remove(0);
                return Ok(ForKind::Range { var, start, end, step: Some(step) });
            } else {
                return match parse_expr(iter, diag) {
                    Ok(x) => Ok(ForKind::ForEach { var, iter: x }),
                    Err(e) => Err(e),
                };
            }
        }
    }
    match parse_expr(iter, diag) {
        Ok(x) => Ok(ForKind::ForEach { var, iter: x }),
        Err(e) => Err(e),
    }
}

fn parse_if_stmt(node: &SyntaxNode, diag: &mut RawDiagnostics) -> (r: Result<Stmt, PseudoError>)
    ensures
        outcome(r, final(diag)@) == py_if(*node, old(diag)@),
    decreases node, 2nat, 0nat,
{
    let cond = match node.named_child(0) {
        Some(c) => c,
        None => return Err(parse_err("if missing condition")),
    };
    let then_node = match node.named_child(1) {
        Some(c) => c,
        None => return Err(parse_err("if missing then block")),
    };
    let else_block = match build_else_chain(node, 2, diag) {
        Ok(b) => b,
        Err(e) => return Err(e),
    };
    let cond = match parse_expr(cond, diag) {
        Ok(v) => v,
        Err(e) => return Err(e),
    };
    let then_block = match parse_block(then_node, diag) {
        Ok(v) => v,
        Err(e) => return Err(e),
    };
    let s = Stmt::If { cond, then_block, else_block };
    proof {
        assert(s@->then_block =~= then_block@);
        if s@->If_else_block is Some {
            assert(s@->If_else_block->0 =~= s->If_else_block->0@);
        }
    }
    Ok(s)
}

/// Builds the else branch from the clauses of `node` from its `k`-th named
/// child on.
fn build_else_chain(node: &SyntaxNode, k: usize, diag: &mut RawDiagnostics) -> (r: Result<Option<Block>, PseudoError>)
    ensures
        match r {
            Ok(b) => py_else_chain(*node, k as int, old(diag)@) == Ok::<(Option<Seq<StmtV>>, DiagV), PseudoErrorV>((opt_block_view(b), final(diag)@)),
            Err(e) => py_else_chain(*node, k as int, old(diag)@) == Err::<(Option<Seq<StmtV>>, DiagV), PseudoErrorV>(e@),
        },
    decreases node, 0nat, named_child_count(*node) - k,
{
    if k >= node.named_child_count() {
        return Ok(None);
    }
    let first = match node.named_child(k) {
        Some(c) => c,
        None => return Ok(None),
    };
    if first.is_kind("elif_clause") {
        let cond = match first.named_child(0) {
            Some(c) => c,
            None => return Err(parse_err("elif missing condition")),
        };
        let body = match first.named_child(1) {
            Some(c) => c,
            None => return Err(parse_err("elif missing body")),
        };
        let cond = match parse_expr(cond, diag) {
            Ok(v) => v,
            Err(e) => return Err(e),
        };
        let then_block = match parse_block(body, diag) {
            Ok(v) => v,
            Err(e) => return Err(e),
        };
        let else_block = match build_else_chain(node, k + 1, diag) {
            Ok(v) => v,
            Err(e) => return Err(e),
        };
        let nested = Stmt::If { cond, then_block, else_block };
        let ghost nv = nested@;
        proof {
            assert(nv->then_block =~= nested->then_block@);
            if nv->If_else_block is Some {
                assert(nv->If_else_block->0 =~= nested->If_else_block->0@);
            }
        }
        let mut stmts = Vec::new();
        stmts.push(nested);
        let b = Block(stmts);
        proof {
            assert(b@ =~= seq![nv]);
        }
        Ok(Some(b))
    } else if first.is_kind("else_clause") {
        let body = match first.named_child(0) {
            Some(c) => c,
            None => return Err(parse_err("else missing body")),
        };
        match parse_block(body, diag) {
            Ok(b) => Ok(Some(b)),
            Err(e) => Err(e),
        }
    } else {
        Ok(None)
    }
}

fn parse_params(node: &SyntaxNode) -> (r: Vec<Param>)
    ensures
        Seq::new(r.len() as nat, |i: int| r@[i]@) == py_params_from(*node, 0),
{
    let count = node.named_child_count();
    let mut out: Vec<Param> = Vec::new();
    let mut i: usize = 0;
    while i < count
        invariant
            count == named_child_count(*node),
            py_params_from(*node, 0) == Seq::new(out.len() as nat, |j: int| out@[j]@) + py_params_from(*node, i as int),
        decreases count - i,
    {
        let ghost before = Seq::new(out.len() as nat, |j: int| out@[j]@);
        match node.named_child(i) {
            Some(c) => {
                if c.is_kind("identifier") {
                    out.push(Param { name: c.text.clone(), type_hint: None });
                    proof {
                        assert(Seq::new(out.len() as nat, |j: int| out@[j]@) =~= before + seq![ParamV { name: c.text@, type_hint: None }]);
                    }
                } else {
                    assert(before + Seq::<ParamV>::empty() =~= before);
                }
                assert(before + py_params_from(*node, i as int) =~= Seq::new(out.len() as nat, |j: int| out@[j]@) + py_params_from(*node, i + 1));
            },
            None => {
                i = count;
                continue;
            },
        }
        i = i + 1;
    }
    assert(Seq::new(out.len() as nat, |j: int| out@[j]@) + Seq::<ParamV>::empty() =~= Seq::new(out.len() as nat, |j: int| out@[j]@));
    out
}

fn parse_function(node: &SyntaxNode, diag: &mut RawDiagnostics) -> (r: Result<Function, PseudoError>)
    ensures
        outcome(r, final(diag)@) == py_function(*node, old(diag)@),
{
    let name = match child_by_field_or_kind(node, "name", "identifier") {
        Some(n) => n.text.clone(),
        None => return Err(parse_err("function missing name")),
    };
    let params_node = match child_by_field_or_kind(node, "parameters", "parameters") {
        Some(n) => n,
        None => return Err(parse_err("function missing parameters")),
    };
    let params = parse_params(params_node);
    let body_node = match child_by_field_or_kind(node, "body", "block") {
        Some(n) => n,
        None => return Err(parse_err("function missing body")),
    };
    let body = match parse_block(body_node, diag) {
        Ok(b) => b,
        Err(e) => return Err(e),
    };
    let f = Function { name, params, return_type: None, body, span: Span { start: 0, end: 0 } };
    proof {
        assert(f@.params =~= py_params_from(*params_node, 0));
    }
    Ok(f)
}

/// The items of the module rooted at `root`.
fn parse_items(root: &SyntaxNode, diag: &mut RawDiagnostics) -> (r: Result<Vec<Item>, PseudoError>)
    ensures
        match r {
            Ok(v) => py_items_from(*root, 0, old(diag)@) == Ok::<(Seq<ItemV>, DiagV), PseudoErrorV>((Seq::new(v.len() as nat, |j: int| v@[j]@), final(diag)@)),
            Err(e) => py_items_from(*root, 0, old(diag)@) == Err::<(Seq<ItemV>, DiagV), PseudoErrorV>(e@),
        },
{
    let count = root.named_child_count();
    let mut items: Vec<Item> = Vec::new();
    let mut i: usize = 0;
    let ghost d0 = diag@;
    while i < count
        invariant
            count == named_child_count(*root),
            d0 == old(diag)@,
            py_items_from(*root, 0, d0) == prepend(Seq::new(items.len() as nat, |j: int| items@[j]@), py_items_from(*root, i as int, diag@)),
        decreases count - i,
    {
        let ghost before = Seq::new(items.len() as nat, |j: int| items@[j]@);
        match root.named_child(i) {
            Some(c) => {
                let ghost dc = diag@;
                if c.is_kind("function_definition") {
                    match parse_function(c, diag) {
                        Ok(f) => {
                            proof {
                                lemma_prepend_cons(before, ItemV::Function(f@), py_items_from(*root, i + 1, diag@));
                            }
                            items.push(Item::Function(f));
                        },
                        Err(e) => {
                            assert(py_items_from(*root, i as int, dc) == Err::<(Seq<ItemV>, DiagV), PseudoErrorV>(e@));
                            return Err(e);
                        },
                    }
                } else {
                    let it = record_raw_item(c, diag);
                    proof {
                        lemma_prepend_cons(before, it@, py_items_from(*root, i + 1, diag@));
                    }
                    items.push(it);
                }
                assert(Seq::new(items.len() as nat, |j: int| items@[j]@) =~= before.push(items@[items.len() - 1]@));
            },
            None => {
                i = count;
                continue;
            },
        }
        i = i + 1;
    }
    proof {
        lemma_prepend_empty(Seq::new(items.len() as nat, |j: int| items@[j]@), diag@);
    }
    Ok(items)
}

impl Default for PythonParser {
    fn default() -> (r: Self)
        ensures
            r == PythonParser,
    {
        PythonParser::new()
    }
}

impl PythonParser {
    pub fn new() -> Self {
        PythonParser
    }

    /// What the adapter makes of a syntax tree: the module and its raw
    /// diagnostics, or an error.
    pub fn parse_tree(root: &SyntaxNode) -> (r: Result<(Module, RawDiagnostics), PseudoError>)
        ensures
            parse_view(r) == python_module(*root),
    {
        if root.has_error {
            return Err(parse_err("syntax error"));
        }
        let mut diag = RawDiagnostics::new();
        match parse_items(root, &mut diag) {
            Ok(items) => {
                let m = Module { source_language: SourceLang::Python, items };
                proof {
                    assert(m@.items =~= Seq::new(items.len() as nat, |j: int| items@[j]@));
                }
                Ok((m, diag))
            },
            Err(e) => Err(e),
        }
    }
}

impl LanguageParser for PythonParser {
    fn language(&self) -> (r: SourceLang)
        ensures
            r == SourceLang::Python,
    {
        SourceLang::Python
    }

    fn parse(&self, source: &str) -> (r: Result<(Module, RawDiagnostics), PseudoError>)
        ensures
            parse_view(r) == python_parse(source@),
    {
        match parse_python_tree(source) {
            TreeOutcome::GrammarRejected(m) => {
                let mut msg = String::from_str("tree-sitter init: ");
                msg.append(m.as_str());
                Err(PseudoError::Internal(msg))
            },
            TreeOutcome::NoTree => Err(parse_err("parse failed")),
            TreeOutcome::Parsed(root) => PythonParser::parse_tree(&root),
        }
    }
}

} // verus!
