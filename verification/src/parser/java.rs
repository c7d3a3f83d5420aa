//! Java adapter: from a tree-sitter-java syntax tree to the IR.
//!
//! Every method with a body, wherever it is nested (classes, inner classes,
//! ...), becomes a function item; everything else in the file is skipped.
use crate::diagnostics::{DiagV, RawDiagnostics, empty_diag};
use crate::error::{PseudoError, PseudoErrorV};
use crate::ir::{
    BinOp,
    block_raw_exprs, block_raw_stmts, expr_raw_count, exprs_raw_count, items_raw_exprs,
    items_raw_items, items_raw_stmts, lemma_block_raw_cons, lemma_exprs_raw_cons,
    lemma_items_raw_concat, lemma_items_raw_cons, stmt_raw_exprs, stmt_raw_stmts, Block, Expr, ExprV, ForKind, ForKindV, Function, FunctionV, Item, ItemV, Literal, LiteralV,
    Module, ModuleV, Param, ParamV, Span, Stmt, StmtV, VarDecl, VarDeclV, exprs_view,
    items_view, opt_block_view, params_view, stmts_view,
};
use crate::parser::common::{
    PRes, bounded, lemma_notes, lemma_recorded_from_empty, lemma_recorded_trans, opt_block_raw,
    raw_counted, recorded, anon_operator, c_family_bin_op_spec, cons, field_text, field_type_hint,
    find_anon_operator, lemma_prepend_cons, lemma_prepend_empty, lemma_prepend_err,
    lemma_prepend_prepend,
    note_expr, note_stmt, outcome, parse_c_family_bin_op, parse_err, parse_un_op, perr,
    prepend, record_raw_expr, record_raw_stmt, single_block, un_op_spec,
};
use crate::parser::{LanguageParser, parse_view};
use crate::syntax::{
    SyntaxNode, TreeOutcome, child_of_kind, count_of_kind, field_child, java_tree, line_of,
    named_child, named_child_count, parse_java_tree,
};
use crate::text::{parse_i64, parse_i64_spec, str_eq, trim_matching, trim_pair};
use crate::SourceLang;
use vstd::prelude::*;

verus! {

pub struct JavaParser;

// ---------------------------------------------------------------------------
// What the adapter does, stated over syntax trees
// ---------------------------------------------------------------------------

/// The IR of a Java expression node.
pub open spec fn java_expr(n: SyntaxNode, d: DiagV) -> PRes<ExprV>
    decreases n, 1nat, 0nat,
{
    let k = n.kind@;
    if k == "identifier"@ {
        Ok((ExprV::Ident(n.text@), d))
    } else if k == "decimal_integer_literal"@ {
        match parse_i64_spec(n.text@) {
            Some(v) => Ok((ExprV::Literal(LiteralV::Int(v)), d)),
            None => Ok((ExprV::Raw(n.text@), note_expr(d, line_of(n)))),
        }
    } else if k == "string_literal"@ {
        Ok((ExprV::Literal(LiteralV::Str(trim_pair(n.text@, '"', '\''))), d))
    } else if k == "true"@ {
        Ok((ExprV::Literal(LiteralV::Bool(true)), d))
    } else if k == "false"@ {
        Ok((ExprV::Literal(LiteralV::Bool(false)), d))
    } else if k == "null_literal"@ {
        Ok((ExprV::Literal(LiteralV::Nil), d))
    } else if k == "binary_expression"@ {
        java_binary(n, d)
    } else if k == "unary_expression"@ {
        java_unary(n, d)
    } else if k == "parenthesized_expression"@ {
        match named_child(n, 0) {
            None => Err(perr("parenthesized_expression empty"@)),
            Some(inner) => java_expr(inner, d),
        }
    } else if k == "method_invocation"@ {
        java_invocation(n, d)
    } else if k == "array_access"@ {
        java_array_access(n, d)
    } else if k == "field_access"@ {
        java_field_access(n, d)
    } else {
        Ok((ExprV::Raw(n.text@), note_expr(d, line_of(n))))
    }
}

/// A binary operation; operators without an IR counterpart (`>>>`, ...) stay
/// raw.
pub open spec fn java_binary(n: SyntaxNode, d: DiagV) -> PRes<ExprV>
    decreases n, 0nat, 1nat,
{
    match field_child(n, "left"@) {
        None => Err(perr("binary_expression missing lhs"@)),
        Some(lhs) => match field_child(n, "right"@) {
            None => Err(perr("binary_expression missing rhs"@)),
            Some(rhs) => match anon_operator(n) {
                None => Err(perr("binary_expression missing operator"@)),
                Some(t) => match c_family_bin_op_spec(t) {
                    None => Ok((ExprV::Raw(n.text@), note_expr(d, line_of(n)))),
                    Some(op) => match java_expr(lhs, d) {
                        Err(e) => Err(e),
                        Ok((l, d1)) => match java_expr(rhs, d1) {
                            Err(e) => Err(e),
                            Ok((r, d2)) => Ok(
                                (ExprV::Binary { op, lhs: Box::new(l), rhs: Box::new(r) }, d2),
                            ),
                        },
                    },
                },
            },
        },
    }
}

/// A unary operation; operators without an IR counterpart (`+`) stay raw.
pub open spec fn java_unary(n: SyntaxNode, d: DiagV) -> PRes<ExprV>
    decreases n, 0nat, 1nat,
{
    match anon_operator(n) {
        None => Err(perr("unary_expression missing operator"@)),
        Some(t) => match un_op_spec(t) {
            None => Ok((ExprV::Raw(n.text@), note_expr(d, line_of(n)))),
            Some(op) => match field_child(n, "operand"@) {
                None => Err(perr("unary_expression missing operand"@)),
                Some(operand) => match java_expr(operand, d) {
                    Err(e) => Err(e),
                    Ok((x, d1)) => Ok((ExprV::Unary { op, expr: Box::new(x) }, d1)),
                },
            },
        },
    }
}

/// `obj.name(args)` or `name(args)`: the receiver first, then the arguments.
pub open spec fn java_invocation(n: SyntaxNode, d: DiagV) -> PRes<ExprV>
    decreases n, 0nat, 1nat,
{
    match field_child(n, "name"@) {
        None => Err(perr("method_invocation missing name"@)),
        Some(name) => match java_callee(n, name.text@, d) {
            Err(e) => Err(e),
            Ok((c, d1)) => match field_child(n, "arguments"@) {
                None => Err(perr("method_invocation missing arguments"@)),
                Some(an) => match java_exprs_from(an, 0, d1) {
                    Err(e) => Err(e),
                    Ok((args, d2)) => Ok((ExprV::Call { callee: Box::new(c), args }, d2)),
                },
            },
        },
    }
}

/// What an invocation calls: a method of its receiver, or a plain name.
pub open spec fn java_callee(n: SyntaxNode, name: Seq<char>, d: DiagV) -> PRes<ExprV>
    decreases n, 0nat, 0nat,
{
    match field_child(n, "object"@) {
        Some(obj) => match java_expr(obj, d) {
            Err(e) => Err(e),
            Ok((o, d1)) => Ok((ExprV::Field { obj: Box::new(o), name }, d1)),
        },
        None => Ok((ExprV::Ident(name), d)),
    }
}

/// `array[index]`.
pub open spec fn java_array_access(n: SyntaxNode, d: DiagV) -> PRes<ExprV>
    decreases n, 0nat, 1nat,
{
    match field_child(n, "array"@) {
        None => Err(perr("array_access missing array"@)),
        Some(arr) => match field_child(n, "index"@) {
            None => Err(perr("array_access missing index"@)),
            Some(index) => match java_expr(arr, d) {
                Err(e) => Err(e),
                Ok((o, d1)) => match java_expr(index, d1) {
                    Err(e) => Err(e),
                    Ok((i, d2)) => Ok((ExprV::Index { obj: Box::new(o), index: Box::new(i) }, d2)),
                },
            },
        },
    }
}

/// `object.field`.
pub open spec fn java_field_access(n: SyntaxNode, d: DiagV) -> PRes<ExprV>
    decreases n, 0nat, 1nat,
{
    match field_child(n, "object"@) {
        None => Err(perr("field_access missing object"@)),
        Some(obj) => match field_child(n, "field"@) {
            None => Err(perr("field_access missing field"@)),
            Some(field) => match java_expr(obj, d) {
                Err(e) => Err(e),
                Ok((o, d1)) => Ok((ExprV::Field { obj: Box::new(o), name: field.text@ }, d1)),
            },
        },
    }
}

/// The IR of the named children of `n` from the `i`-th on, in order.
pub open spec fn java_exprs_from(n: SyntaxNode, i: int, d: DiagV) -> PRes<Seq<ExprV>>
    decreases n, 0nat, named_child_count(n) - i,
{
    if i < 0 || i >= named_child_count(n) {
        Ok((Seq::empty(), d))
    } else {
        match named_child(n, i) {
            None => Ok((Seq::empty(), d)),
            Some(c) => match java_expr(c, d) {
                Err(e) => Err(e),
                Ok((x, d1)) => cons(x, java_exprs_from(n, i + 1, d1)),
            },
        }
    }
}

/// The IR of a Java statement node.
pub open spec fn java_stmt(n: SyntaxNode, d: DiagV) -> PRes<StmtV>
    decreases n, 3nat, 0nat,
{
    let k = n.kind@;
    if k == "local_variable_declaration"@ {
        java_var_decl(n, d)
    } else if k == "expression_statement"@ {
        match named_child(n, 0) {
            None => Err(perr("expression_statement empty"@)),
            Some(inner) => if inner.kind@ == "assignment_expression"@ {
                java_assignment(inner, d)
            } else {
                match java_expr(inner, d) {
                    Err(e) => Err(e),
                    Ok((x, d1)) => Ok((StmtV::ExprStmt(x), d1)),
                }
            },
        }
    } else if k == "while_statement"@ {
        match field_child(n, "condition"@) {
            None => Err(perr("while missing condition"@)),
            Some(cond) => match field_child(n, "body"@) {
                None => Err(perr("while missing body"@)),
                Some(body) => match java_expr(cond, d) {
                    Err(e) => Err(e),
                    Ok((c, d1)) => match java_block(body, d1) {
                        Err(e) => Err(e),
                        Ok((b, d2)) => Ok((StmtV::While { cond: c, body: b }, d2)),
                    },
                },
            },
        }
    } else if k == "if_statement"@ {
        java_if(n, d)
    } else if k == "return_statement"@ {
        match named_child(n, 0) {
            None => Ok((StmtV::Return(None), d)),
            Some(c) => match java_expr(c, d) {
                Err(e) => Err(e),
                Ok((x, d1)) => Ok((StmtV::Return(Some(x)), d1)),
            },
        }
    } else if k == "break_statement"@ {
        Ok((StmtV::Break, d))
    } else if k == "continue_statement"@ {
        Ok((StmtV::Continue, d))
    } else if k == "for_statement"@ {
        java_for(n, d)
    } else if k == "enhanced_for_statement"@ {
        java_enhanced_for(n, d)
    } else {
        Ok((StmtV::Raw(n.text@), note_stmt(d, line_of(n))))
    }
}

/// A body: a `{ ... }` block gives its statements, a single statement gives
/// itself.
pub open spec fn java_block(n: SyntaxNode, d: DiagV) -> PRes<Seq<StmtV>>
    decreases n, 4nat, 0nat,
{
    if n.kind@ != "block"@ {
        match java_stmt(n, d) {
            Err(e) => Err(e),
            Ok((s, d1)) => Ok((seq![s], d1)),
        }
    } else {
        java_stmts_from(n, 0, d)
    }
}

/// The statements of the named children of `n` from the `i`-th on.
pub open spec fn java_stmts_from(n: SyntaxNode, i: int, d: DiagV) -> PRes<Seq<StmtV>>
    decreases n, 0nat, named_child_count(n) - i,
{
    if i < 0 || i >= named_child_count(n) {
        Ok((Seq::empty(), d))
    } else {
        match named_child(n, i) {
            None => Ok((Seq::empty(), d)),
            Some(c) => match java_stmt(c, d) {
                Err(e) => Err(e),
                Ok((x, d1)) => cons(x, java_stmts_from(n, i + 1, d1)),
            },
        }
    }
}

/// A local declaration of exactly one variable; several declarators at once
/// stay raw.
pub open spec fn java_var_decl(n: SyntaxNode, d: DiagV) -> PRes<StmtV>
    decreases n, 2nat, 0nat,
{
    if count_of_kind(n, "variable_declarator"@) != 1 {
        Ok((StmtV::Raw(n.text@), note_stmt(d, line_of(n))))
    } else {
        match child_of_kind(n, "variable_declarator"@) {
            None => Ok((StmtV::Raw(n.text@), note_stmt(d, line_of(n)))),
            Some(decl) => match field_child(decl, "name"@) {
                None => Err(perr("variable_declarator missing name"@)),
                Some(name) => {
                    let init: PRes<Option<ExprV>> = match field_child(decl, "value"@) {
                        None => Ok((None, d)),
                        Some(v) => match java_expr(v, d) {
                            Err(e) => Err(e),
                            Ok((x, d1)) => Ok((Some(x), d1)),
                        },
                    };
                    match init {
                        Err(e) => Err(e),
                        Ok((i, d1)) => Ok(
                            (
                                StmtV::VarDecl(
                                    VarDeclV {
                                        name: name.text@,
                                        type_hint: field_text(n, "type"@),
                                        init: i,
                                    },
                                ),
                                d1,
                            ),
                        ),
                    }
                },
            },
        }
    }
}

/// `target = value`; compound assignments (`+=`, ...) stay raw.
pub open spec fn java_assignment(n: SyntaxNode, d: DiagV) -> PRes<StmtV>
    decreases n, 2nat, 0nat,
{
    match field_child(n, "operator"@) {
        None => Err(perr("assignment missing operator"@)),
        Some(op) => if op.text@ != "="@ {
            Ok((StmtV::Raw(n.text@), note_stmt(d, line_of(n))))
        } else {
            match field_child(n, "left"@) {
                None => Err(perr("assignment missing target"@)),
                Some(target) => match field_child(n, "right"@) {
                    None => Err(perr("assignment missing value"@)),
                    Some(value) => match java_expr(target, d) {
                        Err(e) => Err(e),
                        Ok((t, d1)) => match java_expr(value, d1) {
                            Err(e) => Err(e),
                            Ok((v, d2)) => Ok((StmtV::Assign { target: t, value: v }, d2)),
                        },
                    },
                },
            }
        },
    }
}

/// `if`; an `else if` nests the inner `if` alone in the else branch. The
/// else branch is read first, then the condition, then the then branch.
pub open spec fn java_if(n: SyntaxNode, d: DiagV) -> PRes<StmtV>
    decreases n, 2nat, 0nat,
{
    match field_child(n, "condition"@) {
        None => Err(perr("if missing condition"@)),
        Some(cond) => match field_child(n, "consequence"@) {
            None => Err(perr("if missing consequence"@)),
            Some(cons_node) => {
                let els: PRes<Option<Seq<StmtV>>> = match field_child(n, "alternative"@) {
                    None => Ok((None, d)),
                    Some(alt) => if alt.kind@ == "if_statement"@ {
                        match java_if(alt, d) {
                            Err(e) => Err(e),
                            Ok((s, d1)) => Ok((Some(seq![s]), d1)),
                        }
                    } else {
                        match java_block(alt, d) {
                            Err(e) => Err(e),
                            Ok((b, d1)) => Ok((Some(b), d1)),
                        }
                    },
                };
                match els {
                    Err(e) => Err(e),
                    Ok((else_block, d1)) => match java_expr(cond, d1) {
                        Err(e) => Err(e),
                        Ok((c, d2)) => match java_block(cons_node, d2) {
                            Err(e) => Err(e),
                            Ok((t, d3)) => Ok(
                                (StmtV::If { cond: c, then_block: t, else_block }, d3),
                            ),
                        },
                    },
                }
            },
        },
    }
}

/// `for (init; cond; update) body`; a header missing a part stays raw.
pub open spec fn java_for(n: SyntaxNode, d: DiagV) -> PRes<StmtV>
    decreases n, 2nat, 0nat,
{
    match (field_child(n, "init"@), field_child(n, "condition"@), field_child(n, "update"@)) {
        (Some(init), Some(cond), Some(update)) => match field_child(n, "body"@) {
            None => Err(perr("for missing body"@)),
            Some(body) => {
                match java_for_init(init, d) {
                    Err(e) => Err(e),
                    Ok((i, d1)) => match java_expr(cond, d1) {
                        Err(e) => Err(e),
                        Ok((c, d2)) => match java_expr(update, d2) {
                            Err(e) => Err(e),
                            Ok((s, d3)) => match java_block(body, d3) {
                                Err(e) => Err(e),
                                Ok((b, d4)) => Ok(
                                    (
                                        StmtV::For {
                                            kind: ForKindV::CStyle {
                                                init: Box::new(i),
                                                cond: c,
                                                step: s,
                                            },
                                            body: b,
                                        },
                                        d4,
                                    ),
                                ),
                            },
                        },
                    },
                }
            },
        },
        _ => Ok((StmtV::Raw(n.text@), note_stmt(d, line_of(n)))),
    }
}

/// The initialiser of a counted `for`: a declaration, an assignment, or an
/// expression.
pub open spec fn java_for_init(init: SyntaxNode, d: DiagV) -> PRes<StmtV>
    decreases init, 2nat, 1nat,
{
    if init.kind@ == "local_variable_declaration"@ {
        java_var_decl(init, d)
    } else if init.kind@ == "assignment_expression"@ {
        java_assignment(init, d)
    } else {
        match java_expr(init, d) {
            Err(e) => Err(e),
            Ok((x, d1)) => Ok((StmtV::ExprStmt(x), d1)),
        }
    }
}

/// `for (T name : value) body`.
pub open spec fn java_enhanced_for(n: SyntaxNode, d: DiagV) -> PRes<StmtV>
    decreases n, 2nat, 0nat,
{
    match field_child(n, "name"@) {
        None => Err(perr("enhanced for missing name"@)),
        Some(name) => match field_child(n, "value"@) {
            None => Err(perr("enhanced for missing value"@)),
            Some(value) => match field_child(n, "body"@) {
                None => Err(perr("enhanced for missing body"@)),
                Some(body) => match java_expr(value, d) {
                    Err(e) => Err(e),
                    Ok((x, d1)) => match java_block(body, d1) {
                        Err(e) => Err(e),
                        Ok((b, d2)) => Ok(
                            (
                                StmtV::For {
                                    kind: ForKindV::ForEach { var: name.text@, iter: x },
                                    body: b,
                                },
                                d2,
                            ),
                        ),
                    },
                },
            },
        },
    }
}

/// The parameters of a parameter list: each formal parameter with a name,
/// with its type.
pub open spec fn java_params_from(n: SyntaxNode, i: int) -> Seq<ParamV>
    decreases named_child_count(n) - i,
{
    if i < 0 || i >= named_child_count(n) {
        Seq::empty()
    } else {
        match named_child(n, i) {
            None => Seq::empty(),
            Some(c) => (if c.kind@ == "formal_parameter"@ && field_child(c, "name"@) is Some {
                seq![
                    ParamV {
                        name: field_child(c, "name"@)->0.text@,
                        type_hint: field_text(c, "type"@),
                    },
                ]
            } else {
                Seq::empty()
            }) + java_params_from(n, i + 1),
        }
    }
}

/// A method with a body.
pub open spec fn java_method(n: SyntaxNode, d: DiagV) -> PRes<FunctionV> {
    match field_child(n, "name"@) {
        None => Err(perr("method missing name"@)),
        Some(name) => match field_child(n, "parameters"@) {
            None => Err(perr("method missing parameters"@)),
            Some(pn) => match field_child(n, "body"@) {
                None => Err(perr("method missing body"@)),
                Some(body) => match java_block(body, d) {
                    Err(e) => Err(e),
                    Ok((b, d1)) => Ok(
                        (
                            FunctionV {
                                name: name.text@,
                                params: java_params_from(pn, 0),
                                return_type: field_text(n, "type"@),
                                body: b,
                                span: Span { start: 0, end: 0 },
                            },
                            d1,
                        ),
                    ),
                },
            },
        },
    }
}

/// The methods with a body found in the tree rooted at `n`, in source order;
/// a method's own body is not searched further.
pub open spec fn java_collect(n: SyntaxNode, d: DiagV) -> PRes<Seq<ItemV>>
    decreases n, 1nat, 0nat,
{
    if n.kind@ == "method_declaration"@ {
        if field_child(n, "body"@) is Some {
            match java_method(n, d) {
                Err(e) => Err(e),
                Ok((f, d1)) => Ok((seq![ItemV::Function(f)], d1)),
            }
        } else {
            Ok((Seq::empty(), d))
        }
    } else {
        java_collect_from(n, 0, d)
    }
}

/// The methods found under the named children of `n` from the `i`-th on.
pub open spec fn java_collect_from(n: SyntaxNode, i: int, d: DiagV) -> PRes<Seq<ItemV>>
    decreases n, 0nat, named_child_count(n) - i,
{
    if i < 0 || i >= named_child_count(n) {
        Ok((Seq::empty(), d))
    } else {
        match named_child(n, i) {
            None => Ok((Seq::empty(), d)),
            Some(c) => match java_collect(c, d) {
                Err(e) => Err(e),
                Ok((xs, d1)) => prepend(xs, java_collect_from(n, i + 1, d1)),
            },
        }
    }
}

/// What parsing a Java source text gives.
pub open spec fn java_parse(source: Seq<char>) -> core::result::Result<(ModuleV, DiagV), PseudoErrorV> {
    match java_tree(source) {
        TreeOutcome::GrammarRejected(m) => Err(PseudoErrorV::Internal("tree-sitter init: "@ + m@)),
        TreeOutcome::NoTree => Err(perr("parse failed"@)),
        TreeOutcome::Parsed(root) => java_module(root),
    }
}

/// What the Java adapter makes of a syntax tree.
pub open spec fn java_module(root: SyntaxNode) -> core::result::Result<(ModuleV, DiagV), PseudoErrorV> {
    if root.has_error {
        Err(perr("syntax error"@))
    } else {
        match java_collect(root, empty_diag()) {
            Err(e) => Err(e),
            Ok((items, d)) => Ok((ModuleV { source_language: SourceLang::Java, items }, d)),
        }
    }
}

// ---------------------------------------------------------------------------
// The diagnostics count the raw fragments
// ---------------------------------------------------------------------------

proof fn lemma_java_expr_counts(n: SyntaxNode, d: DiagV)
    requires
        bounded(d),
    ensures
        java_expr(n, d) matches Ok((x, d2)) ==> recorded(d, d2, 0, 0, expr_raw_count(x)),
    decreases n, 1nat, 0nat,
{
    lemma_notes(d, line_of(n));
    let k = n.kind@;
    if k == "binary_expression"@ {
        lemma_java_binary_counts(n, d);
    } else if k == "unary_expression"@ {
        lemma_java_unary_counts(n, d);
    } else if k == "parenthesized_expression"@ {
        match named_child(n, 0) {
            Some(inner) => lemma_java_expr_counts(inner, d),
            None => {},
        }
    } else if k == "method_invocation"@ {
        lemma_java_invocation_counts(n, d);
    } else if k == "array_access"@ {
        lemma_java_array_access_counts(n, d);
    } else if k == "field_access"@ {
        lemma_java_field_access_counts(n, d);
    }
}

/// Two expressions read one after the other.
proof fn lemma_java_pair_counts(a: SyntaxNode, b: SyntaxNode, d: DiagV)
    requires
        bounded(d),
    ensures
        java_expr(a, d) matches Ok((x, d1)) ==> (java_expr(b, d1) matches Ok((y, d2)) ==> recorded(
            d,
            d2,
            0,
            0,
            expr_raw_count(x) + expr_raw_count(y),
        )),
{
    lemma_java_expr_counts(a, d);
    match java_expr(a, d) {
        Ok((x, d1)) => {
            lemma_java_expr_counts(b, d1);
            match java_expr(b, d1) {
                Ok((y, d2)) => {
                    lemma_recorded_trans(d, d1, d2, 0, 0, expr_raw_count(x), 0, 0, expr_raw_count(y));
                },
                Err(_) => {},
            }
        },
        Err(_) => {},
    }
}

proof fn lemma_java_binary_counts(n: SyntaxNode, d: DiagV)
    requires
        bounded(d),
    ensures
        java_binary(n, d) matches Ok((x, d2)) ==> recorded(d, d2, 0, 0, expr_raw_count(x)),
    decreases n, 0nat, 1nat,
{
    lemma_notes(d, line_of(n));
    match (field_child(n, "left"@), field_child(n, "right"@)) {
        (Some(lhs), Some(rhs)) => {
            lemma_java_expr_counts(lhs, d);
            match java_expr(lhs, d) {
                Ok((x, d1)) => {
                    lemma_java_expr_counts(rhs, d1);
                    match java_expr(rhs, d1) {
                        Ok((y, d2)) => {
                            lemma_recorded_trans(d, d1, d2, 0, 0, expr_raw_count(x), 0, 0, expr_raw_count(y));
                        },
                        Err(_) => {},
                    }
                },
                Err(_) => {},
            }
        },
        _ => {},
    }
}

proof fn lemma_java_array_access_counts(n: SyntaxNode, d: DiagV)
    requires
        bounded(d),
    ensures
        java_array_access(n, d) matches Ok((x, d2)) ==> recorded(d, d2, 0, 0, expr_raw_count(x)),
    decreases n, 0nat, 1nat,
{
    match (field_child(n, "array"@), field_child(n, "index"@)) {
        (Some(arr), Some(index)) => {
            lemma_java_expr_counts(arr, d);
            match java_expr(arr, d) {
                Ok((x, d1)) => {
                    lemma_java_expr_counts(index, d1);
                    match java_expr(index, d1) {
                        Ok((y, d2)) => {
                            lemma_recorded_trans(d, d1, d2, 0, 0, expr_raw_count(x), 0, 0, expr_raw_count(y));
                        },
                        Err(_) => {},
                    }
                },
                Err(_) => {},
            }
        },
        _ => {},
    }
}

proof fn lemma_java_unary_counts(n: SyntaxNode, d: DiagV)
    requires
        bounded(d),
    ensures
        java_unary(n, d) matches Ok((x, d2)) ==> recorded(d, d2, 0, 0, expr_raw_count(x)),
    decreases n, 0nat, 1nat,
{
    lemma_notes(d, line_of(n));
    match field_child(n, "operand"@) {
        Some(operand) => lemma_java_expr_counts(operand, d),
        None => {},
    }
}

proof fn lemma_java_field_access_counts(n: SyntaxNode, d: DiagV)
    requires
        bounded(d),
    ensures
        java_field_access(n, d) matches Ok((x, d2)) ==> recorded(d, d2, 0, 0, expr_raw_count(x)),
    decreases n, 0nat, 1nat,
{
    match field_child(n, "object"@) {
        Some(obj) => lemma_java_expr_counts(obj, d),
        None => {},
    }
}

proof fn lemma_java_invocation_counts(n: SyntaxNode, d: DiagV)
    requires
        bounded(d),
    ensures
        java_invocation(n, d) matches Ok((x, d2)) ==> recorded(d, d2, 0, 0, expr_raw_count(x)),
    decreases n, 0nat, 1nat,
{
    match field_child(n, "name"@) {
        Some(name) => {
            lemma_notes(d, 0);
            match field_child(n, "object"@) {
                Some(obj) => lemma_java_expr_counts(obj, d),
                None => {},
            }
            match java_callee(n, name.text@, d) {
                Ok((c, d1)) => {
                    match field_child(n, "arguments"@) {
                        Some(an) => {
                            lemma_java_exprs_from_counts(an, 0, d1);
                            match java_exprs_from(an, 0, d1) {
                                Ok((args, d2)) => {
                                    lemma_recorded_trans(d, d1, d2, 0, 0, expr_raw_count(c), 0, 0, exprs_raw_count(args));
                                },
                                Err(_) => {},
                            }
                        },
                        None => {},
                    }
                },
                Err(_) => {},
            }
        },
        None => {},
    }
}

proof fn lemma_java_exprs_from_counts(n: SyntaxNode, i: int, d: DiagV)
    requires
        bounded(d),
    ensures
        java_exprs_from(n, i, d) matches Ok((xs, d2)) ==> recorded(d, d2, 0, 0, exprs_raw_count(xs)),
    decreases n, 0nat, named_child_count(n) - i,
{
    lemma_notes(d, 0);
    if 0 <= i < named_child_count(n) {
        match named_child(n, i) {
            Some(c) => {
                lemma_java_expr_counts(c, d);
                match java_expr(c, d) {
                    Ok((x, d1)) => {
                        lemma_java_exprs_from_counts(n, i + 1, d1);
                        match java_exprs_from(n, i + 1, d1) {
                            Ok((rest, d2)) => {
                                lemma_exprs_raw_cons(x, rest);
                                lemma_recorded_trans(d, d1, d2, 0, 0, expr_raw_count(x), 0, 0, exprs_raw_count(rest));
                            },
                            Err(_) => {},
                        }
                    },
                    Err(_) => {},
                }
            },
            None => {},
        }
    }
}

proof fn lemma_java_stmt_counts(n: SyntaxNode, d: DiagV)
    requires
        bounded(d),
    ensures
        java_stmt(n, d) matches Ok((s, d2)) ==> recorded(d, d2, 0, stmt_raw_stmts(s), stmt_raw_exprs(s)),
    decreases n, 3nat, 0nat,
{
    lemma_notes(d, line_of(n));
    let k = n.kind@;
    if k == "local_variable_declaration"@ {
        lemma_java_var_decl_counts(n, d);
    } else if k == "expression_statement"@ {
        match named_child(n, 0) {
            Some(inner) => {
                if inner.kind@ == "assignment_expression"@ {
                    lemma_java_assignment_counts(inner, d);
                } else {
                    lemma_java_expr_counts(inner, d);
                }
            },
            None => {},
        }
    } else if k == "while_statement"@ {
        match (field_child(n, "condition"@), field_child(n, "body"@)) {
            (Some(cond), Some(body)) => {
                lemma_java_expr_counts(cond, d);
                match java_expr(cond, d) {
                    Ok((c, d1)) => {
                        lemma_java_block_counts(body, d1);
                        match java_block(body, d1) {
                            Ok((b, d2)) => {
                                lemma_recorded_trans(d, d1, d2, 0, 0, expr_raw_count(c), 0, block_raw_stmts(b), block_raw_exprs(b));
                            },
                            Err(_) => {},
                        }
                    },
                    Err(_) => {},
                }
            },
            _ => {},
        }
    } else if k == "if_statement"@ {
        lemma_java_if_counts(n, d);
    } else if k == "return_statement"@ {
        match named_child(n, 0) {
            Some(c) => lemma_java_expr_counts(c, d),
            None => {},
        }
    } else if k == "for_statement"@ {
        lemma_java_for_counts(n, d);
    } else if k == "enhanced_for_statement"@ {
        lemma_java_enhanced_for_counts(n, d);
    }
}

proof fn lemma_java_block_counts(n: SyntaxNode, d: DiagV)
    requires
        bounded(d),
    ensures
        java_block(n, d) matches Ok((b, d2)) ==> recorded(d, d2, 0, block_raw_stmts(b), block_raw_exprs(b)),
    decreases n, 4nat, 0nat,
{
    if n.kind@ != "block"@ {
        lemma_java_stmt_counts(n, d);
        match java_stmt(n, d) {
            Ok((s, d1)) => lemma_block_raw_cons(s, Seq::empty()),
            Err(_) => {},
        }
    } else {
        lemma_java_stmts_from_counts(n, 0, d);
    }
}

proof fn lemma_java_stmts_from_counts(n: SyntaxNode, i: int, d: DiagV)
    requires
        bounded(d),
    ensures
        java_stmts_from(n, i, d) matches Ok((b, d2)) ==> recorded(d, d2, 0, block_raw_stmts(b), block_raw_exprs(b)),
    decreases n, 0nat, named_child_count(n) - i,
{
    lemma_notes(d, 0);
    if 0 <= i < named_child_count(n) {
        match named_child(n, i) {
            Some(c) => {
                lemma_java_stmt_counts(c, d);
                match java_stmt(c, d) {
                    Ok((x, d1)) => {
                        lemma_java_stmts_from_counts(n, i + 1, d1);
                        match java_stmts_from(n, i + 1, d1) {
                            Ok((rest, d2)) => {
                                lemma_block_raw_cons(x, rest);
                                lemma_recorded_trans(d, d1, d2, 0, stmt_raw_stmts(x), stmt_raw_exprs(x), 0, block_raw_stmts(rest), block_raw_exprs(rest));
                            },
                            Err(_) => {},
                        }
                    },
                    Err(_) => {},
                }
            },
            None => {},
        }
    }
}

proof fn lemma_java_var_decl_counts(n: SyntaxNode, d: DiagV)
    requires
        bounded(d),
    ensures
        java_var_decl(n, d) matches Ok((s, d2)) ==> recorded(d, d2, 0, stmt_raw_stmts(s), stmt_raw_exprs(s)),
    decreases n, 2nat, 0nat,
{
    lemma_notes(d, line_of(n));
    match child_of_kind(n, "variable_declarator"@) {
        Some(decl) => match field_child(decl, "value"@) {
            Some(v) => lemma_java_expr_counts(v, d),
            None => {},
        },
        None => {},
    }
}

proof fn lemma_java_assignment_counts(n: SyntaxNode, d: DiagV)
    requires
        bounded(d),
    ensures
        java_assignment(n, d) matches Ok((s, d2)) ==> recorded(d, d2, 0, stmt_raw_stmts(s), stmt_raw_exprs(s)),
    decreases n, 2nat, 0nat,
{
    lemma_notes(d, line_of(n));
    match (field_child(n, "left"@), field_child(n, "right"@)) {
        (Some(target), Some(value)) => lemma_java_pair_counts(target, value, d),
        _ => {},
    }
}

proof fn lemma_java_if_counts(n: SyntaxNode, d: DiagV)
    requires
        bounded(d),
    ensures
        java_if(n, d) matches Ok((s, d2)) ==> recorded(d, d2, 0, stmt_raw_stmts(s), stmt_raw_exprs(s)),
    decreases n, 2nat, 0nat,
{
    lemma_notes(d, 0);
    match (field_child(n, "condition"@), field_child(n, "consequence"@)) {
        (Some(cond), Some(cons_node)) => {
            let els: PRes<Option<Seq<StmtV>>> = match field_child(n, "alternative"@) {
                None => Ok((None, d)),
                Some(alt) => if alt.kind@ == "if_statement"@ {
                    match java_if(alt, d) {
                        Err(e) => Err(e),
                        Ok((s, d1)) => Ok((Some(seq![s]), d1)),
                    }
                } else {
                    match java_block(alt, d) {
                        Err(e) => Err(e),
                        Ok((b, d1)) => Ok((Some(b), d1)),
                    }
                },
            };
            match field_child(n, "alternative"@) {
                None => {},
                Some(alt) => if alt.kind@ == "if_statement"@ {
                    lemma_java_if_counts(alt, d);
                    match java_if(alt, d) {
                        Ok((s, d1)) => lemma_block_raw_cons(s, Seq::empty()),
                        Err(_) => {},
                    }
                } else {
                    lemma_java_block_counts(alt, d);
                },
            }
            match els {
                Ok((eb, d1)) => {
                    let (es, ee) = opt_block_raw(eb);
                    lemma_java_expr_counts(cond, d1);
                    match java_expr(cond, d1) {
                        Ok((c, d2)) => {
                            lemma_java_block_counts(cons_node, d2);
                            match java_block(cons_node, d2) {
                                Ok((t, d3)) => {
                                    lemma_recorded_trans(d, d1, d2, 0, es, ee, 0, 0, expr_raw_count(c));
                                    lemma_recorded_trans(d, d2, d3, 0, es, ee + expr_raw_count(c), 0, block_raw_stmts(t), block_raw_exprs(t));
                                },
                                Err(_) => {},
                            }
                        },
                        Err(_) => {},
                    }
                },
                Err(_) => {},
            }
        },
        _ => {},
    }
}

proof fn lemma_java_for_init_counts(init: SyntaxNode, d: DiagV)
    requires
        bounded(d),
    ensures
        java_for_init(init, d) matches Ok((s, d2)) ==> recorded(d, d2, 0, stmt_raw_stmts(s), stmt_raw_exprs(s)),
    decreases init, 2nat, 1nat,
{
    if init.kind@ == "local_variable_declaration"@ {
        lemma_java_var_decl_counts(init, d);
    } else if init.kind@ == "assignment_expression"@ {
        lemma_java_assignment_counts(init, d);
    } else {
        lemma_java_expr_counts(init, d);
    }
}

proof fn lemma_java_for_counts(n: SyntaxNode, d: DiagV)
    requires
        bounded(d),
    ensures
        java_for(n, d) matches Ok((s, d2)) ==> recorded(d, d2, 0, stmt_raw_stmts(s), stmt_raw_exprs(s)),
    decreases n, 2nat, 0nat,
{
    lemma_notes(d, line_of(n));
    match (field_child(n, "init"@), field_child(n, "condition"@), field_child(n, "update"@)) {
        (Some(init), Some(cond), Some(update)) => match field_child(n, "body"@) {
            Some(body) => {
                lemma_java_for_init_counts(init, d);
                match java_for_init(init, d) {
                    Ok((i, d1)) => {
                        lemma_java_pair_counts(cond, update, d1);
                        match java_expr(cond, d1) {
                            Ok((c, d2)) => match java_expr(update, d2) {
                                Ok((st, d3)) => {
                                    lemma_java_block_counts(body, d3);
                                    match java_block(body, d3) {
                                        Ok((b, d4)) => {
                                            let ce = expr_raw_count(c) + expr_raw_count(st);
                                            lemma_recorded_trans(d, d1, d3, 0, stmt_raw_stmts(i), stmt_raw_exprs(i), 0, 0, ce);
                                            lemma_recorded_trans(d, d3, d4, 0, stmt_raw_stmts(i), stmt_raw_exprs(i) + ce, 0, block_raw_stmts(b), block_raw_exprs(b));
                                        },
                                        Err(_) => {},
                                    }
                                },
                                Err(_) => {},
                            },
                            Err(_) => {},
                        }
                    },
                    Err(_) => {},
                }
            },
            None => {},
        },
        _ => {},
    }
}

proof fn lemma_java_enhanced_for_counts(n: SyntaxNode, d: DiagV)
    requires
        bounded(d),
    ensures
        java_enhanced_for(n, d) matches Ok((s, d2)) ==> recorded(d, d2, 0, stmt_raw_stmts(s), stmt_raw_exprs(s)),
    decreases n, 2nat, 0nat,
{
    match (field_child(n, "name"@), field_child(n, "value"@), field_child(n, "body"@)) {
        (Some(name), Some(value), Some(body)) => {
            lemma_java_expr_counts(value, d);
            match java_expr(value, d) {
                Ok((x, d1)) => {
                    lemma_java_block_counts(body, d1);
                    match java_block(body, d1) {
                        Ok((b, d2)) => {
                            lemma_recorded_trans(d, d1, d2, 0, 0, expr_raw_count(x), 0, block_raw_stmts(b), block_raw_exprs(b));
                        },
                        Err(_) => {},
                    }
                },
                Err(_) => {},
            }
        },
        _ => {},
    }
}

proof fn lemma_java_method_counts(n: SyntaxNode, d: DiagV)
    requires
        bounded(d),
    ensures
        java_method(n, d) matches Ok((f, d2)) ==> recorded(d, d2, 0, block_raw_stmts(f.body), block_raw_exprs(f.body)),
{
    match field_child(n, "body"@) {
        Some(body) => lemma_java_block_counts(body, d),
        None => {},
    }
}

proof fn lemma_java_collect_counts(n: SyntaxNode, d: DiagV)
    requires
        bounded(d),
    ensures
        java_collect(n, d) matches Ok((items, d2)) ==> recorded(d, d2, items_raw_items(items), items_raw_stmts(items), items_raw_exprs(items)),
    decreases n, 1nat, 0nat,
{
    lemma_notes(d, 0);
    assert(items_raw_items(Seq::<ItemV>::empty()) == 0);
    assert(items_raw_stmts(Seq::<ItemV>::empty()) == 0);
    assert(items_raw_exprs(Seq::<ItemV>::empty()) == 0);
    if n.kind@ == "method_declaration"@ {
        if field_child(n, "body"@) is Some {
            lemma_java_method_counts(n, d);
            match java_method(n, d) {
                Ok((f, d1)) => lemma_items_raw_cons(ItemV::Function(f), Seq::empty()),
                Err(_) => {},
            }
        }
    } else {
        lemma_java_collect_from_counts(n, 0, d);
    }
}

proof fn lemma_java_collect_from_counts(n: SyntaxNode, i: int, d: DiagV)
    requires
        bounded(d),
    ensures
        java_collect_from(n, i, d) matches Ok((items, d2)) ==> recorded(d, d2, items_raw_items(items), items_raw_stmts(items), items_raw_exprs(items)),
    decreases n, 0nat, named_child_count(n) - i,
{
    lemma_notes(d, 0);
    assert(items_raw_items(Seq::<ItemV>::empty()) == 0);
    assert(items_raw_stmts(Seq::<ItemV>::empty()) == 0);
    assert(items_raw_exprs(Seq::<ItemV>::empty()) == 0);
    if 0 <= i < named_child_count(n) {
        match named_child(n, i) {
            Some(c) => {
                lemma_java_collect_counts(c, d);
                match java_collect(c, d) {
                    Ok((xs, d1)) => {
                        lemma_java_collect_from_counts(n, i + 1, d1);
                        match java_collect_from(n, i + 1, d1) {
                            Ok((rest, d2)) => {
                                lemma_items_raw_concat(xs, rest);
                                lemma_recorded_trans(d, d1, d2, items_raw_items(xs), items_raw_stmts(xs), items_raw_exprs(xs), items_raw_items(rest), items_raw_stmts(rest), items_raw_exprs(rest));
                            },
                            Err(_) => {},
                        }
                    },
                    Err(_) => {},
                }
            },
            None => {},
        }
    }
}

/// An array access `a[i]` becomes an index whose object is the IR of its
/// `array` child and whose index is the IR of its `index` child, read in that
/// order.
pub proof fn lemma_java_array_access_array_then_index(n: SyntaxNode, d: DiagV, a: SyntaxNode, b: SyntaxNode)
    requires
        n.kind@ == "array_access"@,
        field_child(n, "array"@) == Some(a),
        field_child(n, "index"@) == Some(b),
    ensures
        match java_expr(a, d) {
            Err(e) => java_expr(n, d) == Err::<(ExprV, DiagV), PseudoErrorV>(e),
            Ok((x, d1)) => match java_expr(b, d1) {
                Err(e) => java_expr(n, d) == Err::<(ExprV, DiagV), PseudoErrorV>(e),
                Ok((y, d2)) => java_expr(n, d) == Ok::<(ExprV, DiagV), PseudoErrorV>((ExprV::Index { obj: Box::new(x), index: Box::new(y) }, d2)),
            },
        },
{
    reveal_strlit("identifier");
    reveal_strlit("decimal_integer_literal");
    reveal_strlit("string_literal");
    reveal_strlit("true");
    reveal_strlit("false");
    reveal_strlit("null_literal");
    reveal_strlit("binary_expression");
    reveal_strlit("unary_expression");
    reveal_strlit("parenthesized_expression");
    reveal_strlit("method_invocation");
    reveal_strlit("array_access");
    assert(n.kind@.len() == 12);
    assert(n.kind@[0] == 'a' && "null_literal"@[0] == 'n');
    assert(java_expr(n, d) == java_array_access(n, d));
}

/// A binary operation keeps its operands in source order: the left one is
/// the IR of its `left` child, read first, the right one the IR of its
/// `right` child; the operator is the one its text names.
pub proof fn lemma_java_binary_left_then_right(n: SyntaxNode, d: DiagV, a: SyntaxNode, b: SyntaxNode, t: Seq<char>, op: BinOp)
    requires
        n.kind@ == "binary_expression"@,
        field_child(n, "left"@) == Some(a),
        field_child(n, "right"@) == Some(b),
        anon_operator(n) == Some(t),
        c_family_bin_op_spec(t) == Some(op),
    ensures
        match java_expr(a, d) {
            Err(e) => java_expr(n, d) == Err::<(ExprV, DiagV), PseudoErrorV>(e),
            Ok((x, d1)) => match java_expr(b, d1) {
                Err(e) => java_expr(n, d) == Err::<(ExprV, DiagV), PseudoErrorV>(e),
                Ok((y, d2)) => java_expr(n, d) == Ok::<(ExprV, DiagV), PseudoErrorV>((ExprV::Binary { op, lhs: Box::new(x), rhs: Box::new(y) }, d2)),
            },
        },
{
    reveal_strlit("identifier");
    reveal_strlit("decimal_integer_literal");
    reveal_strlit("string_literal");
    reveal_strlit("true");
    reveal_strlit("false");
    reveal_strlit("null_literal");
    reveal_strlit("binary_expression");
    assert(n.kind@.len() == 17);
    assert(java_expr(n, d) == java_binary(n, d));
}

/// Every raw fragment of a parsed Java module is recorded: the diagnostics
/// count exactly its raw statements (a Java module has no raw items), and at
/// least its raw expressions, each up to the largest machine integer; and
/// while no count has reached that bound, every count recorded one line.
pub proof fn lemma_java_diagnostics_count_raw(root: SyntaxNode)
    ensures
        java_module(root) matches Ok((m, d)) ==> raw_counted(m.items, d),
{
    if !root.has_error {
        lemma_java_collect_counts(root, empty_diag());
        match java_collect(root, empty_diag()) {
            Ok((items, d)) => lemma_recorded_from_empty(items, d),
            Err(_) => {},
        }
    }
}

// ---------------------------------------------------------------------------
// Executable adapter
// ---------------------------------------------------------------------------

/// Parses the named children of `node` from the `start`-th on as expressions.
fn parse_expr_list(node: &SyntaxNode, start: usize, diag: &mut RawDiagnostics) -> (r: Result<Vec<Expr>, PseudoError>)
    ensures
        match r {
            Ok(v) => java_exprs_from(*node, start as int, old(diag)@) == Ok::<(Seq<ExprV>, DiagV), PseudoErrorV>((exprs_view(v@), final(diag)@)),
            Err(e) => java_exprs_from(*node, start as int, old(diag)@) == Err::<(Seq<ExprV>, DiagV), PseudoErrorV>(e@),
        },
    decreases node, 0nat, named_child_count(*node) - start,
{
    let count = node.named_child_count();
    let mut out: Vec<Expr> = Vec::new();
    let mut i: usize = start;
    let ghost d0 = diag@;
    while i < count
        invariant
            count == named_child_count(*node),
            start <= i,
            d0 == old(diag)@,
            java_exprs_from(*node, start as int, d0) == prepend(exprs_view(out@), java_exprs_from(*node, i as int, diag@)),
        decreases count - i,
    {
        match node.named_child(i) {
            Some(c) => {
                let ghost dc = diag@;
                match parse_expr(c, diag) {
                    Ok(x) => {
                        proof {
                            lemma_prepend_cons(exprs_view(out@), x@, java_exprs_from(*node, i + 1, diag@));
                        }
                        let ghost before = out@;
                        out.push(x);
                        proof {
                            assert(exprs_view(out@) =~= exprs_view(before).push(x@));
                        }
                    },
                    Err(e) => {
                        assert(java_exprs_from(*node, i as int, dc) == Err::<(Seq<ExprV>, DiagV), PseudoErrorV>(e@));
                        return Err(e);
                    },
                }
            },
            None => {
                i = count;
                continue;
            },
        }
        i = i + 1;
    }
    proof {
        lemma_prepend_empty(exprs_view(out@), diag@);
    }
    Ok(out)
}

pub fn parse_expr(node: &SyntaxNode, diag: &mut RawDiagnostics) -> (r: Result<Expr, PseudoError>)
    ensures
        outcome(r, final(diag)@) == java_expr(*node, old(diag)@),
    decreases node, 1nat, 0nat,
{
    if node.is_kind("identifier") {
        Ok(Expr::Ident(node.text.clone()))
    } else if node.is_kind("decimal_integer_literal") {
        match parse_i64(node.text.as_str()) {
            Some(v) => Ok(Expr::Literal(Literal::Int(v))),
            None => Ok(record_raw_expr(node, diag)),
        }
    } else if node.is_kind("string_literal") {
        Ok(Expr::Literal(Literal::Str(trim_matching(node.text.as_str(), '"', '\''))))
    } else if node.is_kind("true") {
        Ok(Expr::Literal(Literal::Bool(true)))
    } else if node.is_kind("false") {
        Ok(Expr::Literal(Literal::Bool(false)))
    } else if node.is_kind("null_literal") {
        Ok(Expr::Literal(Literal::Nil))
    } else if node.is_kind("binary_expression") {
        parse_binary(node, diag)
    } else if node.is_kind("unary_expression") {
        parse_unary(node, diag)
    } else if node.is_kind("parenthesized_expression") {
        match node.named_child(0) {
            None => Err(parse_err("parenthesized_expression empty")),
            Some(inner) => parse_expr(inner, diag),
        }
    } else if node.is_kind("method_invocation") {
        parse_invocation(node, diag)
    } else if node.is_kind("array_access") {
        parse_array_access(node, diag)
    } else if node.is_kind("field_access") {
        parse_field_access(node, diag)
    } else {
        Ok(record_raw_expr(node, diag))
    }
}

fn parse_binary(node: &SyntaxNode, diag: &mut RawDiagnostics) -> (r: Result<Expr, PseudoError>)
    ensures
        outcome(r, final(diag)@) == java_binary(*node, old(diag)@),
    decreases node, 0nat, 1nat,
{
    let lhs = match node.child_by_field_name("left") {
        Some(c) => c,
        None => return Err(parse_err("binary_expression missing lhs")),
    };
    let rhs = match node.child_by_field_name("right") {
        Some(c) => c,
        None => return Err(parse_err("binary_expression missing rhs")),
    };
    let op_text = match find_anon_operator(node) {
        Some(t) => t,
        None => return Err(parse_err("binary_expression missing operator")),
    };
    let op = match parse_c_family_bin_op(op_text) {
        Some(op) => op,
        None => return Ok(record_raw_expr(node, diag)),
    };
    let lhs = match parse_expr(lhs, diag) {
        Ok(v) => v,
        Err(e) => return Err(e),
    };
    let rhs = match parse_expr(rhs, diag) {
        Ok(v) => v,
        Err(e) => return Err(e),
    };
    Ok(Expr::Binary { op, lhs: Box::new(lhs), rhs: Box::new(rhs) })
}

fn parse_unary(node: &SyntaxNode, diag: &mut RawDiagnostics) -> (r: Result<Expr, PseudoError>)
    ensures
        outcome(r, final(diag)@) == java_unary(*node, old(diag)@),
    decreases node, 0nat, 1nat,
{
    let op_text = match find_anon_operator(node) {
        Some(t) => t,
        None => return Err(parse_err("unary_expression missing operator")),
    };
    let op = match parse_un_op(op_text) {
        Some(v) => v,
        None => return Ok(record_raw_expr(node, diag)),
    };
    let operand = match node.child_by_field_name("operand") {
        Some(c) => c,
        None => return Err(parse_err("unary_expression missing operand")),
    };
    let inner = match parse_expr(operand, diag) {
        Ok(v) => v,
        Err(e) => return Err(e),
    };
    Ok(Expr::Unary { op, expr: Box::new(inner) })
}

fn parse_invocation(node: &SyntaxNode, diag: &mut RawDiagnostics) -> (r: Result<Expr, PseudoError>)
    ensures
        outcome(r, final(diag)@) == java_invocation(*node, old(diag)@),
    decreases node, 0nat, 1nat,
{
    let name = match node.child_by_field_name("name") {
        Some(c) => c,
        None => return Err(parse_err("method_invocation missing name")),
    };
    let callee = match parse_callee(node, name.text.as_str(), diag) {
        Ok(c) => c,
        Err(e) => return Err(e),
    };
    let args_node = match node.child_by_field_name("arguments") {
        Some(c) => c,
        None => return Err(parse_err("method_invocation missing arguments")),
    };
    let args = match parse_expr_list(args_node, 0, diag) {
        Ok(v) => v,
        Err(e) => return Err(e),
    };
    let e = Expr::Call { callee: Box::new(callee), args };
    proof {
        assert(e@->args =~= exprs_view(args@));
    }
    Ok(e)
}

fn parse_callee(node: &SyntaxNode, name: &str, diag: &mut RawDiagnostics) -> (r: Result<Expr, PseudoError>)
    ensures
        outcome(r, final(diag)@) == java_callee(*node, name@, old(diag)@),
    decreases node, 0nat, 0nat,
{
    match node.child_by_field_name("object") {
        Some(obj) => match parse_expr(obj, diag) {
            Ok(o) => Ok(Expr::Field { obj: Box::new(o), name: name.to_string() }),
            Err(e) => Err(e),
        },
        None => Ok(Expr::Ident(name.to_string())),
    }
}

fn parse_array_access(node: &SyntaxNode, diag: &mut RawDiagnostics) -> (r: Result<Expr, PseudoError>)
    ensures
        outcome(r, final(diag)@) == java_array_access(*node, old(diag)@),
    decreases node, 0nat, 1nat,
{
    let arr = match node.child_by_field_name("array") {
        Some(c) => c,
        None => return Err(parse_err("array_access missing array")),
    };
    let index = match node.child_by_field_name("index") {
        Some(c) => c,
        None => return Err(parse_err("array_access missing index")),
    };
    let obj = match parse_expr(arr, diag) {
        Ok(v) => v,
        Err(e) => return Err(e),
    };
    let index = match parse_expr(index, diag) {
        Ok(v) => v,
        Err(e) => return Err(e),
    };
    Ok(Expr::Index { obj: Box::new(obj), index: Box::new(index) })
}

fn parse_field_access(node: &SyntaxNode, diag: &mut RawDiagnostics) -> (r: Result<Expr, PseudoError>)
    ensures
        outcome(r, final(diag)@) == java_field_access(*node, old(diag)@),
    decreases node, 0nat, 1nat,
{
    let obj = match node.child_by_field_name("object") {
        Some(c) => c,
        None => return Err(parse_err("field_access missing object")),
    };
    let field = match node.child_by_field_name("field") {
        Some(c) => c,
        None => return Err(parse_err("field_access missing field")),
    };
    let obj = match parse_expr(obj, diag) {
        Ok(v) => v,
        Err(e) => return Err(e),
    };
    Ok(Expr::Field { obj: Box::new(obj), name: field.text.clone() })
}

/// Parses the named children of `node` from the `start`-th on as statements.
fn parse_stmts_from(node: &SyntaxNode, start: usize, diag: &mut RawDiagnostics) -> (r: Result<Vec<Stmt>, PseudoError>)
    ensures
        match r {
            Ok(v) => java_stmts_from(*node, start as int, old(diag)@) == Ok::<(Seq<StmtV>, DiagV), PseudoErrorV>((stmts_view(v@), final(diag)@)),
            Err(e) => java_stmts_from(*node, start as int, old(diag)@) == Err::<(Seq<StmtV>, DiagV), PseudoErrorV>(e@),
        },
    decreases node, 0nat, named_child_count(*node) - start,
{
    let count = node.named_child_count();
    let mut out: Vec<Stmt> = Vec::new();
    let mut i: usize = start;
    let ghost d0 = diag@;
    while i < count
        invariant
            count == named_child_count(*node),
            start <= i,
            d0 == old(diag)@,
            java_stmts_from(*node, start as int, d0) == prepend(stmts_view(out@), java_stmts_from(*node, i as int, diag@)),
        decreases count - i,
    {
        match node.named_child(i) {
            Some(c) => {
                let ghost dc = diag@;
                match parse_stmt(c, diag) {
                    Ok(x) => {
                        proof {
                            lemma_prepend_cons(stmts_view(out@), x@, java_stmts_from(*node, i + 1, diag@));
                        }
                        let ghost before = out@;
                        out.push(x);
                        proof {
                            assert(stmts_view(out@) =~= stmts_view(before).push(x@));
                        }
                    },
                    Err(e) => {
                        assert(java_stmts_from(*node, i as int, dc) == Err::<(Seq<StmtV>, DiagV), PseudoErrorV>(e@));
                        return Err(e);
                    },
                }
            },
            None => {
                i = count;
                continue;
            },
        }
        i = i + 1;
    }
    proof {
        lemma_prepend_empty(stmts_view(out@), diag@);
    }
    Ok(out)
}

fn parse_block(node: &SyntaxNode, diag: &mut RawDiagnostics) -> (r: Result<Block, PseudoError>)
    ensures
        match r {
            Ok(b) => java_block(*node, old(diag)@) == Ok::<(Seq<StmtV>, DiagV), PseudoErrorV>((b@, final(diag)@)),
            Err(e) => java_block(*node, old(diag)@) == Err::<(Seq<StmtV>, DiagV), PseudoErrorV>(e@),
        },
    decreases node, 4nat, 0nat,
{
    if !node.is_kind("block") {
        let s = match parse_stmt(node, diag) {
            Ok(s) => s,
            Err(e) => return Err(e),
        };
        let ghost sv = s@;
        let mut v: Vec<Stmt> = Vec::new();
        v.push(s);
        let b = Block(v);
        proof {
            assert(b@ =~= seq![sv]);
        }
        return Ok(b);
    }
    match parse_stmts_from(node, 0, diag) {
        Ok(v) => Ok(Block(v)),
        Err(e) => Err(e),
    }
}

pub fn parse_stmt(node: &SyntaxNode, diag: &mut RawDiagnostics) -> (r: Result<Stmt, PseudoError>)
    ensures
        outcome(r, final(diag)@) == java_stmt(*node, old(diag)@),
    decreases node, 3nat, 0nat,
{
    if node.is_kind("local_variable_declaration") {
        parse_var_decl(node, diag)
    } else if node.is_kind("expression_statement") {
        let inner = match node.named_child(0) {
            Some(c) => c,
            None => return Err(parse_err("expression_statement empty")),
        };
        if inner.is_kind("assignment_expression") {
            parse_assignment(inner, diag)
        } else {
            match parse_expr(inner, diag) {
                Ok(x) => Ok(Stmt::ExprStmt(x)),
                Err(e) => Err(e),
            }
        }
    } else if node.is_kind("while_statement") {
        let cond = match node.child_by_field_name("condition") {
            Some(c) => c,
            None => return Err(parse_err("while missing condition")),
        };
        let body = match node.child_by_field_name("body") {
            Some(c) => c,
            None => return Err(parse_err("while missing body")),
        };
        let cond = match parse_expr(cond, diag) {
            Ok(v) => v,
            Err(e) => return Err(e),
        };
        let body = match parse_block(body, diag) {
            Ok(v) => v,
            Err(e) => return Err(e),
        };
        let s = Stmt::While { cond, body };
        assert(s@->While_body =~= s->While_body@);
        Ok(s)
    } else if node.is_kind("if_statement") {
        parse_if(node, diag)
    } else if node.is_kind("return_statement") {
        match node.named_child(0) {
            None => Ok(Stmt::Return(None)),
            Some(c) => match parse_expr(c, diag) {
                Ok(x) => Ok(Stmt::Return(Some(x))),
                Err(e) => Err(e),
            },
        }
    } else if node.is_kind("break_statement") {
        Ok(Stmt::Break)
    } else if node.is_kind("continue_statement") {
        Ok(Stmt::Continue)
    } else if node.is_kind("for_statement") {
        parse_for(node, diag)
    } else if node.is_kind("enhanced_for_statement") {
        parse_enhanced_for(node, diag)
    } else {
        Ok(record_raw_stmt(node, diag))
    }
}

fn parse_var_decl(node: &SyntaxNode, diag: &mut RawDiagnostics) -> (r: Result<Stmt, PseudoError>)
    ensures
        outcome(r, final(diag)@) == java_var_decl(*node, old(diag)@),
    decreases node, 2nat, 0nat,
{
    if node.count_of_kind("variable_declarator") != 1 {
        return Ok(record_raw_stmt(node, diag));
    }
    let decl = match node.named_child_by_kind("variable_declarator") {
        Some(c) => c,
        None => return Ok(record_raw_stmt(node, diag)),
    };
    let name = match decl.child_by_field_name("name") {
        Some(c) => c,
        None => return Err(parse_err("variable_declarator missing name")),
    };
    let init = match decl.child_by_field_name("value") {
        None => None,
        Some(v) => match parse_expr(v, diag) {
            Ok(x) => Some(x),
            Err(e) => return Err(e),
        },
    };
    Ok(
        Stmt::VarDecl(
            VarDecl { name: name.text.clone(), type_hint: field_type_hint(node, "type"), init },
        ),
    )
}

fn parse_assignment(node: &SyntaxNode, diag: &mut RawDiagnostics) -> (r: Result<Stmt, PseudoError>)
    ensures
        outcome(r, final(diag)@) == java_assignment(*node, old(diag)@),
    decreases node, 2nat, 0nat,
{
    let op = match node.child_by_field_name("operator") {
        Some(c) => c,
        None => return Err(parse_err("assignment missing operator")),
    };
    if !str_eq(op.text.as_str(), "=") {
        return Ok(record_raw_stmt(node, diag));
    }
    let target = match node.child_by_field_name("left") {
        Some(c) => c,
        None => return Err(parse_err("assignment missing target")),
    };
    let value = match node.child_by_field_name("right") {
        Some(c) => c,
        None => return Err(parse_err("assignment missing value")),
    };
    let target = match parse_expr(target, diag) {
        Ok(v) => v,
        Err(e) => return Err(e),
    };
    let value = match parse_expr(value, diag) {
        Ok(v) => v,
        Err(e) => return Err(e),
    };
    Ok(Stmt::Assign { target, value })
}

fn parse_if(node: &SyntaxNode, diag: &mut RawDiagnostics) -> (r: Result<Stmt, PseudoError>)
    ensures
        outcome(r, final(diag)@) == java_if(*node, old(diag)@),
    decreases node, 2nat, 0nat,
{
    let cond = match node.child_by_field_name("condition") {
        Some(c) => c,
        None => return Err(parse_err("if missing condition")),
    };
    let cons_node = match node.child_by_field_name("consequence") {
        Some(c) => c,
        None => return Err(parse_err("if missing consequence")),
    };
    let else_block = match node.child_by_field_name("alternative") {
        None => None,
        Some(alt) => if alt.is_kind("if_statement") {
            match parse_if(alt, diag) {
                Ok(s) => Some(single_block(s)),
                Err(e) => return Err(e),
            }
        } else {
            match parse_block(alt, diag) {
                Ok(b) => Some(b),
                Err(e) => return Err(e),
            }
        },
    };
    let cond = match parse_expr(cond, diag) {
        Ok(v) => v,
        Err(e) => return Err(e),
    };
    let then_block = match parse_block(cons_node, diag) {
        Ok(v) => v,
        Err(e) => return Err(e),
    };
    let s = Stmt::If { cond, then_block, else_block };
    proof {
        assert(s@->then_block =~= s->then_block@);
        if s@->If_else_block is Some {
            assert(s@->If_else_block->0 =~= s->If_else_block->0@);
        }
    }
    Ok(s)
}

fn parse_for(node: &SyntaxNode, diag: &mut RawDiagnostics) -> (r: Result<Stmt, PseudoError>)
    ensures
        outcome(r, final(diag)@) == java_for(*node, old(diag)@),
    decreases node, 2nat, 0nat,
{
    let init = match node.child_by_field_name("init") {
        Some(c) => c,
        None => return Ok(record_raw_stmt(node, diag)),
    };
    let cond = match node.child_by_field_name("condition") {
        Some(c) => c,
        None => return Ok(record_raw_stmt(node, diag)),
    };
    let update = match node.child_by_field_name("update") {
        Some(c) => c,
        None => return Ok(record_raw_stmt(node, diag)),
    };
    let body = match node.child_by_field_name("body") {
        Some(c) => c,
        None => return Err(parse_err("for missing body")),
    };
    let first = match parse_for_init(init, diag) {
        Ok(s) => s,
        Err(e) => return Err(e),
    };
    let cond = match parse_expr(cond, diag) {
        Ok(v) => v,
        Err(e) => return Err(e),
    };
    let step = match parse_expr(update, diag) {
        Ok(v) => v,
        Err(e) => return Err(e),
    };
    let body = match parse_block(body, diag) {
        Ok(v) => v,
        Err(e) => return Err(e),
    };
    let s = Stmt::For { kind: ForKind::CStyle { init: Box::new(first), cond, step }, body };
    assert(s@->For_body =~= s->For_body@);
    Ok(s)
}

fn parse_for_init(init: &SyntaxNode, diag: &mut RawDiagnostics) -> (r: Result<Stmt, PseudoError>)
    ensures
        outcome(r, final(diag)@) == java_for_init(*init, old(diag)@),
    decreases init, 2nat, 1nat,
{
    if init.is_kind("local_variable_declaration") {
        parse_var_decl(init, diag)
    } else if init.is_kind("assignment_expression") {
        parse_assignment(init, diag)
    } else {
        match parse_expr(init, diag) {
            Ok(x) => Ok(Stmt::ExprStmt(x)),
            Err(e) => Err(e),
        }
    }
}

fn parse_enhanced_for(node: &SyntaxNode, diag: &mut RawDiagnostics) -> (r: Result<Stmt, PseudoError>)
    ensures
        outcome(r, final(diag)@) == java_enhanced_for(*node, old(diag)@),
    decreases node, 2nat, 0nat,
{
    let name = match node.child_by_field_name("name") {
        Some(c) => c,
        None => return Err(parse_err("enhanced for missing name")),
    };
    let value = match node.child_by_field_name("value") {
        Some(c) => c,
        None => return Err(parse_err("enhanced for missing value")),
    };
    let body = match node.child_by_field_name("body") {
        Some(c) => c,
        None => return Err(parse_err("enhanced for missing body")),
    };
    let iter = match parse_expr(value, diag) {
        Ok(v) => v,
        Err(e) => return Err(e),
    };
    let body = match parse_block(body, diag) {
        Ok(v) => v,
        Err(e) => return Err(e),
    };
    let s = Stmt::For { kind: ForKind::ForEach { var: name.text.clone(), iter }, body };
    assert(s@->For_body =~= s->For_body@);
    Ok(s)
}

fn parse_params(node: &SyntaxNode) -> (r: Vec<Param>)
    ensures
        params_view(r@) == java_params_from(*node, 0),
{
    let count = node.named_child_count();
    let mut out: Vec<Param> = Vec::new();
    let mut i: usize = 0;
    while i < count
        invariant
            count == named_child_count(*node),
            java_params_from(*node, 0) == params_view(out@) + java_params_from(*node, i as int),
        decreases count - i,
    {
        let ghost before = params_view(out@);
        match node.named_child(i) {
            Some(c) => {
                let mut added = false;
                if c.is_kind("formal_parameter") {
                    match c.child_by_field_name("name") {
                        Some(name) => {
                            let p = Param { name: name.text.clone(), type_hint: field_type_hint(c, "type") };
                            let ghost pv = p@;
                            out.push(p);
                            added = true;
                            proof {
                                assert(params_view(out@) =~= before + seq![pv]);
                            }
                        },
                        None => {},
                    }
                }
                if !added {
                    assert(before + Seq::<ParamV>::empty() =~= before);
                }
                assert(before + java_params_from(*node, i as int) =~= params_view(out@) + java_params_from(*node, i + 1));
            },
            None => {
                i = count;
                continue;
            },
        }
        i = i + 1;
    }
    assert(params_view(out@) + Seq::<ParamV>::empty() =~= params_view(out@));
    out
}

fn parse_method(node: &SyntaxNode, diag: &mut RawDiagnostics) -> (r: Result<Function, PseudoError>)
    ensures
        outcome(r, final(diag)@) == java_method(*node, old(diag)@),
{
    let name = match node.child_by_field_name("name") {
        Some(c) => c,
        None => return Err(parse_err("method missing name")),
    };
    let params_node = match node.child_by_field_name("parameters") {
        Some(c) => c,
        None => return Err(parse_err("method missing parameters")),
    };
    let body_node = match node.child_by_field_name("body") {
        Some(c) => c,
        None => return Err(parse_err("method missing body")),
    };
    let params = parse_params(params_node);
    let body = match parse_block(body_node, diag) {
        Ok(b) => b,
        Err(e) => return Err(e),
    };
    let f = Function {
        name: name.text.clone(),
        params,
        return_type: field_type_hint(node, "type"),
        body,
        span: Span { start: 0, end: 0 },
    };
    proof {
        assert(f@.params =~= params_view(f.params@));
    }
    Ok(f)
}

/// Appends to `items` the methods with a body found in the tree rooted at
/// `node`.
fn collect_methods(node: &SyntaxNode, items: &mut Vec<Item>, diag: &mut RawDiagnostics) -> (r: Result<(), PseudoError>)
    ensures
        match r {
            Ok(_) => prepend(items_view(old(items)@), java_collect(*node, old(diag)@)) == Ok::<(Seq<ItemV>, DiagV), PseudoErrorV>((items_view(final(items)@), final(diag)@)),
            Err(e) => java_collect(*node, old(diag)@) == Err::<(Seq<ItemV>, DiagV), PseudoErrorV>(e@),
        },
    decreases node, 1nat, 0nat,
{
    if node.is_kind("method_declaration") {
        if node.child_by_field_name("body").is_some() {
            match parse_method(node, diag) {
                Ok(f) => {
                    let ghost before = items_view(items@);
                    let it = Item::Function(f);
                    let ghost iv = it@;
                    items.push(it);
                    proof {
                        assert(items_view(items@) =~= before + seq![iv]);
                    }
                },
                Err(e) => return Err(e),
            }
        } else {
            proof {
                lemma_prepend_empty(items_view(items@), diag@);
            }
        }
        return Ok(());
    }
    let count = node.named_child_count();
    let mut i: usize = 0;
    let ghost d0 = diag@;
    let ghost pre = items_view(items@);
    while i < count
        invariant
            count == named_child_count(*node),
            d0 == old(diag)@,
            pre == items_view(old(items)@),
            node.kind@ != "method_declaration"@,
            prepend(pre, java_collect_from(*node, 0, d0)) == prepend(items_view(items@), java_collect_from(*node, i as int, diag@)),
        decreases count - i,
    {
        match node.named_child(i) {
            Some(c) => {
                let ghost dc = diag@;
                let ghost ic = items_view(items@);
                match collect_methods(c, items, diag) {
                    Ok(_) => {
                        proof {
                            let xs = java_collect(*c, dc)->Ok_0.0;
                            lemma_prepend_prepend(ic, xs, java_collect_from(*node, i + 1, diag@));
                        }
                    },
                    Err(e) => {
                        assert(java_collect_from(*node, i as int, dc) == Err::<(Seq<ItemV>, DiagV), PseudoErrorV>(e@));
                        proof {
                            lemma_prepend_err(ic, java_collect_from(*node, i as int, dc));
                            lemma_prepend_err(pre, java_collect_from(*node, 0, d0));
                        }
                        return Err(e);
                    },
                }
            },
            None => {
                i = count;
                continue;
            },
        }
        i = i + 1;
    }
    proof {
        lemma_prepend_empty(items_view(items@), diag@);
    }
    Ok(())
}

impl Default for JavaParser {
    fn default() -> (r: Self)
        ensures
            r == JavaParser,
    {
        JavaParser::new()
    }
}

impl JavaParser {
    pub fn new() -> Self {
        JavaParser
    }

    /// What the adapter makes of a syntax tree: the module and its raw
    /// diagnostics, or an error.
    pub fn parse_tree(root: &SyntaxNode) -> (r: Result<(Module, RawDiagnostics), PseudoError>)
        ensures
            parse_view(r) == java_module(*root),
    {
        if root.has_error {
            return Err(parse_err("syntax error"));
        }
        let mut diag = RawDiagnostics::new();
        let mut items: Vec<Item> = Vec::new();
        proof {
            assert(items_view(items@) =~= Seq::<ItemV>::empty());
        }
        match collect_methods(root, &mut items, &mut diag) {
            Ok(_) => {
                proof {
                    match java_collect(*root, empty_diag()) {
                        Ok((xs, d)) => {
                            assert(Seq::<ItemV>::empty() + xs =~= xs);
                        },
                        Err(e) => {},
                    }
                }
                let m = Module { source_language: SourceLang::Java, items };
                proof {
                    assert(m@.items =~= items_view(m.items@));
                }
                Ok((m, diag))
            },
            Err(e) => Err(e),
        }
    }
}

impl LanguageParser for JavaParser {
    fn language(&self) -> (r: SourceLang)
        ensures
            r == SourceLang::Java,
    {
        SourceLang::Java
    }

    fn parse(&self, source: &str) -> (r: Result<(Module, RawDiagnostics), PseudoError>)
        ensures
            parse_view(r) == java_parse(source@),
    {
        match parse_java_tree(source) {
            TreeOutcome::GrammarRejected(m) => {
                let mut msg = String::from_str("tree-sitter init: ");
                msg.append(m.as_str());
                Err(PseudoError::Internal(msg))
            },
            TreeOutcome::NoTree => Err(parse_err("parse failed")),
            TreeOutcome::Parsed(root) => JavaParser::parse_tree(&root),
        }
    }
}

} // verus!
