//! C++ adapter: from a tree-sitter-cpp syntax tree to the IR.
//!
//! Every function definition with a body, wherever it is nested
//! (namespaces, classes, ...), becomes a function item; everything else in
//! the file is skipped.
use crate::diagnostics::{DiagV, RawDiagnostics, empty_diag};
use crate::error::{PseudoError, PseudoErrorV};
use crate::ir::{
    BinOp,
    block_raw_exprs, block_raw_stmts, expr_raw_count, exprs_raw_count, items_raw_exprs,
    items_raw_items, items_raw_stmts, lemma_block_raw_cons, lemma_exprs_raw_cons,
    lemma_items_raw_concat, lemma_items_raw_cons, opt_expr_raw_count, stmt_raw_exprs,
    stmt_raw_stmts, Block, Expr, ExprV, ForKind, ForKindV, Function, FunctionV, Item, ItemV, Literal, LiteralV,
    Module, ModuleV, Param, ParamV, Span, Stmt, StmtV, VarDecl, VarDeclV, exprs_view,
    items_view, opt_expr_view, params_view, stmts_view,
};
use crate::parser::common::{
    PRes, bounded, lemma_notes, lemma_recorded_bounded, lemma_recorded_dropped,
    lemma_recorded_from_empty, lemma_recorded_trans, opt_block_raw, raw_counted, recorded,
    anon_operator, c_family_bin_op_spec, cons, field_text, field_type_hint,
    find_anon_operator, lemma_prepend_cons, lemma_prepend_empty, lemma_prepend_err,
    lemma_prepend_prepend, note_expr, note_stmt, outcome, parse_c_family_bin_op,
    parse_err, parse_un_op, perr, prepend, record_raw_expr, record_raw_stmt, single_block, un_op_spec,
};
use crate::parser::{LanguageParser, parse_view};
use crate::syntax::{
    SyntaxNode, TreeOutcome, child_of_kind, count_of_kind, cpp_tree, field_child, line_of,
    named_child, named_child_count, parse_cpp_tree,
};
use crate::text::{parse_i64, parse_i64_spec, str_eq, trim_matching, trim_pair};
use crate::SourceLang;
use vstd::prelude::*;

verus! {

pub struct CppParser;

// ---------------------------------------------------------------------------
// Declarators
// ---------------------------------------------------------------------------

/// Node kinds that are a declared name.
pub open spec fn is_name_kind(k: Seq<char>) -> bool {
    k == "identifier"@ || k == "field_identifier"@ || k == "qualified_identifier"@
}

/// The name a declarator declares: the node itself if it is a name, else
/// the first name found under its `declarator`, `name` or `field` child, else
/// under its named children in order.
pub open spec fn decl_name(n: SyntaxNode) -> Option<SyntaxNode>
    decreases n, 2nat, 0nat,
{
    if is_name_kind(n.kind@) {
        Some(n)
    } else {
        match decl_name_in_field(n, "declarator"@) {
            Some(x) => Some(x),
            None => match decl_name_in_field(n, "name"@) {
                Some(x) => Some(x),
                None => match decl_name_in_field(n, "field"@) {
                    Some(x) => Some(x),
                    None => decl_name_from(n, 0),
                },
            },
        }
    }
}

/// The name declared under the child of `n` that fills field `f`.
pub open spec fn decl_name_in_field(n: SyntaxNode, f: Seq<char>) -> Option<SyntaxNode>
    decreases n, 1nat, 0nat,
{
    match field_child(n, f) {
        None => None,
        Some(c) => decl_name(c),
    }
}

/// The first name declared under the named children of `n` from the `i`-th
/// on.
pub open spec fn decl_name_from(n: SyntaxNode, i: int) -> Option<SyntaxNode>
    decreases n, 0nat, named_child_count(n) - i,
{
    if i < 0 || i >= named_child_count(n) {
        None
    } else {
        match named_child(n, i) {
            None => None,
            Some(c) => match decl_name(c) {
                Some(x) => Some(x),
                None => decl_name_from(n, i + 1),
            },
        }
    }
}

/// The first node of kind `kind` in the tree rooted at `n`, in pre-order over
/// named nodes.
pub open spec fn find_kind(n: SyntaxNode, kind: Seq<char>) -> Option<SyntaxNode>
    decreases n, 1nat, 0nat,
{
    if n.kind@ == kind {
        Some(n)
    } else {
        find_kind_from(n, kind, 0)
    }
}

pub open spec fn find_kind_from(n: SyntaxNode, kind: Seq<char>, i: int) -> Option<SyntaxNode>
    decreases n, 0nat, named_child_count(n) - i,
{
    if i < 0 || i >= named_child_count(n) {
        None
    } else {
        match named_child(n, i) {
            None => None,
            Some(c) => match find_kind(c, kind) {
                Some(x) => Some(x),
                None => find_kind_from(n, kind, i + 1),
            },
        }
    }
}

/// Node kinds that spell a type in a declaration.
pub open spec fn is_type_kind(k: Seq<char>) -> bool {
    k == "primitive_type"@ || k == "template_type"@ || k == "type_identifier"@
}

/// The named nodes of `c` from position `k` on that are not types: the
/// declarators of a declaration.
pub open spec fn declarators_from(c: Seq<SyntaxNode>, k: int) -> Seq<SyntaxNode>
    decreases c.len() - k,
{
    if k < 0 || k >= c.len() {
        Seq::empty()
    } else {
        (if c[k].named && !is_type_kind(c[k].kind@) {
            seq![c[k]]
        } else {
            Seq::empty()
        }) + declarators_from(c, k + 1)
    }
}

/// The declarator of a declaration that declares exactly one thing.
pub open spec fn sole_declarator(n: SyntaxNode) -> Option<SyntaxNode> {
    let ds = declarators_from(n.children@, 0);
    if ds.len() == 1 {
        Some(ds[0])
    } else {
        None
    }
}

/// The position among the named children of `n`, from the `i`-th on, of the
/// first one after the `condition_clause` (`seen`: the clause was passed
/// already), or -1.
pub open spec fn after_condition_index(n: SyntaxNode, i: int, seen: bool) -> int
    decreases named_child_count(n) - i,
{
    if i < 0 || i >= named_child_count(n) {
        -1
    } else {
        match named_child(n, i) {
            None => -1,
            Some(c) => if c.kind@ == "condition_clause"@ {
                after_condition_index(n, i + 1, true)
            } else if seen {
                i
            } else {
                after_condition_index(n, i + 1, seen)
            },
        }
    }
}

// ---------------------------------------------------------------------------
// What the adapter does, stated over syntax trees
// ---------------------------------------------------------------------------

/// The IR of a C++ expression node.
pub open spec fn cpp_expr(n: SyntaxNode, d: DiagV) -> PRes<ExprV>
    decreases n, 1nat, 0nat,
{
    let k = n.kind@;
    if k == "identifier"@ {
        Ok((ExprV::Ident(n.text@), d))
    } else if k == "number_literal"@ {
        match parse_i64_spec(n.text@) {
            Some(v) => Ok((ExprV::Literal(LiteralV::Int(v)), d)),
            None => Ok((ExprV::Raw(n.text@), note_expr(d, line_of(n)))),
        }
    } else if k == "string_literal"@ {
        Ok((ExprV::Literal(LiteralV::Str(trim_pair(n.text@, '"', '\''))), d))
    } else if k == "true"@ {
        Ok((ExprV::Literal(LiteralV::Bool(true)), d))
    } else if k == "false"@ {
        Ok((ExprV::Literal(LiteralV::Bool(false)), d))
    } else if k == "nullptr"@ || k == "nullptr_literal"@ {
        Ok((ExprV::Literal(LiteralV::Nil), d))
    } else if k == "binary_expression"@ {
        cpp_binary(n, d)
    } else if k == "unary_expression"@ {
        cpp_unary(n, d)
    } else if k == "parenthesized_expression"@ {
        match named_child(n, 0) {
            None => Err(perr("parenthesized_expression empty"@)),
            Some(inner) => cpp_expr(inner, d),
        }
    } else if k == "call_expression"@ {
        cpp_call(n, d)
    } else if k == "subscript_expression"@ {
        cpp_subscript(n, d)
    } else if k == "field_expression"@ {
        cpp_field(n, d)
    } else {
        Ok((ExprV::Raw(n.text@), note_expr(d, line_of(n))))
    }
}

/// A binary operation; operators without an IR counterpart stay raw.
pub open spec fn cpp_binary(n: SyntaxNode, d: DiagV) -> PRes<ExprV>
    decreases n, 0nat, 1nat,
{
    match field_child(n, "left"@) {
        None => Err(perr("binary_expression missing lhs"@)),
        Some(lhs) => match field_child(n, "right"@) {
            None => Err(perr("binary_expression missing rhs"@)),
            Some(rhs) => match anon_operator(n) {
                None => Err(perr("binary_expression missing operator"@)),
                Some(t) => match c_family_bin_op_spec(t) {
                    None => Ok((ExprV::Raw(n.text@), note_expr(d, line_of(n)))),
                    Some(op) => match cpp_expr(lhs, d) {
                        Err(e) => Err(e),
                        Ok((l, d1)) => match cpp_expr(rhs, d1) {
                            Err(e) => Err(e),
                            Ok((r, d2)) => Ok(
                                (ExprV::Binary { op, lhs: Box::new(l), rhs: Box::new(r) }, d2),
                            ),
                        },
                    },
                },
            },
        },
    }
}

/// The operand of a unary expression: its `argument`, or else its `operand`.
pub open spec fn unary_operand(n: SyntaxNode) -> Option<SyntaxNode> {
    match field_child(n, "argument"@) {
        Some(c) => Some(c),
        None => field_child(n, "operand"@),
    }
}

/// A unary operation; operators without an IR counterpart (`+`) stay raw.
pub open spec fn cpp_unary(n: SyntaxNode, d: DiagV) -> PRes<ExprV>
    decreases n, 0nat, 1nat,
{
    match anon_operator(n) {
        None => Err(perr("unary_expression missing operator"@)),
        Some(t) => match un_op_spec(t) {
            None => Ok((ExprV::Raw(n.text@), note_expr(d, line_of(n)))),
            Some(op) => match unary_operand(n) {
                None => Err(perr("unary_expression missing operand"@)),
                Some(operand) => match cpp_expr(operand, d) {
                    Err(e) => Err(e),
                    Ok((x, d1)) => Ok((ExprV::Unary { op, expr: Box::new(x) }, d1)),
                },
            },
        },
    }
}

/// A call: the arguments first, then the callee.
pub open spec fn cpp_call(n: SyntaxNode, d: DiagV) -> PRes<ExprV>
    decreases n, 0nat, 1nat,
{
    match field_child(n, "function"@) {
        None => Err(perr("call_expression missing function"@)),
        Some(f) => match field_child(n, "arguments"@) {
            None => Err(perr("call_expression missing arguments"@)),
            Some(an) => match cpp_exprs_from(an, 0, d) {
                Err(e) => Err(e),
                Ok((args, d1)) => match cpp_expr(f, d1) {
                    Err(e) => Err(e),
                    Ok((c, d2)) => Ok((ExprV::Call { callee: Box::new(c), args }, d2)),
                },
            },
        },
    }
}

/// The index list of a subscript: its `indices`, or else its
/// `subscript_argument_list` child.
pub open spec fn subscript_indices(n: SyntaxNode) -> Option<SyntaxNode> {
    match field_child(n, "indices"@) {
        Some(c) => Some(c),
        None => child_of_kind(n, "subscript_argument_list"@),
    }
}

/// `a[i]`: the first index only.
pub open spec fn cpp_subscript(n: SyntaxNode, d: DiagV) -> PRes<ExprV>
    decreases n, 0nat, 1nat,
{
    match field_child(n, "argument"@) {
        None => Err(perr("subscript_expression missing argument"@)),
        Some(obj) => match subscript_indices(n) {
            None => Err(perr("subscript_expression missing indices"@)),
            Some(args) => match named_child(args, 0) {
                None => Err(perr("subscript_argument_list empty"@)),
                Some(index) => match cpp_expr(obj, d) {
                    Err(e) => Err(e),
                    Ok((o, d1)) => match cpp_expr(index, d1) {
                        Err(e) => Err(e),
                        Ok((i, d2)) => Ok(
                            (ExprV::Index { obj: Box::new(o), index: Box::new(i) }, d2),
                        ),
                    },
                },
            },
        },
    }
}

/// `obj.field` or `obj->field`.
pub open spec fn cpp_field(n: SyntaxNode, d: DiagV) -> PRes<ExprV>
    decreases n, 0nat, 1nat,
{
    match field_child(n, "argument"@) {
        None => Err(perr("field_expression missing argument"@)),
        Some(obj) => match field_child(n, "field"@) {
            None => Err(perr("field_expression missing field"@)),
            Some(field) => match cpp_expr(obj, d) {
                Err(e) => Err(e),
                Ok((o, d1)) => Ok((ExprV::Field { obj: Box::new(o), name: field.text@ }, d1)),
            },
        },
    }
}

/// The IR of the named children of `n` from the `i`-th on, in order.
pub open spec fn cpp_exprs_from(n: SyntaxNode, i: int, d: DiagV) -> PRes<Seq<ExprV>>
    decreases n, 0nat, named_child_count(n) - i,
{
    if i < 0 || i >= named_child_count(n) {
        Ok((Seq::empty(), d))
    } else {
        match named_child(n, i) {
            None => Ok((Seq::empty(), d)),
            Some(c) => match cpp_expr(c, d) {
                Err(e) => Err(e),
                Ok((x, d1)) => cons(x, cpp_exprs_from(n, i + 1, d1)),
            },
        }
    }
}

/// A condition: the expression inside a `condition_clause`, or the node
/// itself.
pub open spec fn cpp_condition(n: SyntaxNode, d: DiagV) -> PRes<ExprV>
    decreases n, 2nat, 0nat,
{
    if n.kind@ == "condition_clause"@ {
        match named_child(n, 0) {
            None => Err(perr("condition_clause empty"@)),
            Some(inner) => cpp_expr(inner, d),
        }
    } else {
        cpp_expr(n, d)
    }
}

/// The IR of a C++ statement node.
pub open spec fn cpp_stmt(n: SyntaxNode, d: DiagV) -> PRes<StmtV>
    decreases n, 3nat, 0nat,
{
    let k = n.kind@;
    if k == "declaration"@ {
        cpp_var_decl(n, d)
    } else if k == "expression_statement"@ {
        match named_child(n, 0) {
            None => Ok((StmtV::Raw(n.text@), note_stmt(d, line_of(n)))),
            Some(inner) => if inner.kind@ == "assignment_expression"@ {
                cpp_assignment(n, inner, d)
            } else {
                match cpp_expr(inner, d) {
                    Err(e) => Err(e),
                    Ok((x, d1)) => Ok((StmtV::ExprStmt(x), d1)),
                }
            },
        }
    } else if k == "while_statement"@ {
        match field_child(n, "condition"@) {
            None => Err(perr("while missing condition"@)),
            Some(cond) => match field_child(n, "body"@) {
                None => Err(perr("while missing body"@)),
                Some(body) => match cpp_condition(cond, d) {
                    Err(e) => Err(e),
                    Ok((c, d1)) => match cpp_block(body, d1) {
                        Err(e) => Err(e),
                        Ok((b, d2)) => Ok((StmtV::While { cond: c, body: b }, d2)),
                    },
                },
            },
        }
    } else if k == "if_statement"@ {
        cpp_if(n, d)
    } else if k == "return_statement"@ {
        match named_child(n, 0) {
            None => Ok((StmtV::Return(None), d)),
            Some(c) => match cpp_expr(c, d) {
                Err(e) => Err(e),
                Ok((x, d1)) => Ok((StmtV::Return(Some(x)), d1)),
            },
        }
    } else if k == "break_statement"@ {
        Ok((StmtV::Break, d))
    } else if k == "continue_statement"@ {
        Ok((StmtV::Continue, d))
    } else if k == "for_statement"@ {
        cpp_for(n, d)
    } else if k == "for_range_loop"@ {
        cpp_range_for(n, d)
    } else {
        Ok((StmtV::Raw(n.text@), note_stmt(d, line_of(n))))
    }
}

/// A body: a `{ ... }` compound statement gives its statements, a single
/// statement gives itself.
pub open spec fn cpp_block(n: SyntaxNode, d: DiagV) -> PRes<Seq<StmtV>>
    decreases n, 4nat, 0nat,
{
    if n.kind@ != "compound_statement"@ {
        match cpp_stmt(n, d) {
            Err(e) => Err(e),
            Ok((s, d1)) => Ok((seq![s], d1)),
        }
    } else {
        cpp_stmts_from(n, 0, d)
    }
}

/// The statements of the named children of `n` from the `i`-th on.
pub open spec fn cpp_stmts_from(n: SyntaxNode, i: int, d: DiagV) -> PRes<Seq<StmtV>>
    decreases n, 0nat, named_child_count(n) - i,
{
    if i < 0 || i >= named_child_count(n) {
        Ok((Seq::empty(), d))
    } else {
        match named_child(n, i) {
            None => Ok((Seq::empty(), d)),
            Some(c) => match cpp_stmt(c, d) {
                Err(e) => Err(e),
                Ok((x, d1)) => cons(x, cpp_stmts_from(n, i + 1, d1)),
            },
        }
    }
}

/// The declarator of a declaration and its initialiser: from its one
/// `init_declarator`, or else from its one plain declarator.
pub open spec fn cpp_decl_parts(n: SyntaxNode, d: DiagV) -> PRes<Option<(SyntaxNode, Option<ExprV>)>>
    decreases n, 1nat, 1nat,
{
    match child_of_kind(n, "init_declarator"@) {
        Some(id) => match field_child(id, "declarator"@) {
            None => Err(perr("init_declarator missing declarator"@)),
            Some(decl) => match field_child(id, "value"@) {
                None => Ok((Some((decl, None)), d)),
                Some(v) => match cpp_expr(v, d) {
                    Err(e) => Err(e),
                    Ok((x, d1)) => Ok((Some((decl, Some(x))), d1)),
                },
            },
        },
        None => match sole_declarator(n) {
            None => Ok((None, d)),
            Some(decl) => Ok((Some((decl, None)), d)),
        },
    }
}

/// A declaration of exactly one plain variable; anything else (several
/// variables, pointers, references, ...) stays raw.
pub open spec fn cpp_var_decl(n: SyntaxNode, d: DiagV) -> PRes<StmtV>
    decreases n, 2nat, 0nat,
{
    if count_of_kind(n, "init_declarator"@) > 1 {
        Ok((StmtV::Raw(n.text@), note_stmt(d, line_of(n))))
    } else {
        match cpp_decl_parts(n, d) {
            Err(e) => Err(e),
            Ok((None, d1)) => Ok((StmtV::Raw(n.text@), note_stmt(d1, line_of(n)))),
            Ok((Some((decl, init)), d1)) => if decl.kind@ != "identifier"@ {
                Ok((StmtV::Raw(n.text@), note_stmt(d1, line_of(n))))
            } else {
                Ok(
                    (
                        StmtV::VarDecl(
                            VarDeclV { name: decl.text@, type_hint: field_text(n, "type"@), init },
                        ),
                        d1,
                    ),
                )
            },
        }
    }
}

/// `target = value` inside `stmt`; compound assignments keep `stmt` raw.
pub open spec fn cpp_assignment(stmt: SyntaxNode, n: SyntaxNode, d: DiagV) -> PRes<StmtV>
    decreases n, 2nat, 0nat,
{
    match field_child(n, "operator"@) {
        None => Err(perr("assignment missing operator"@)),
        Some(op) => if op.text@ != "="@ {
            Ok((StmtV::Raw(stmt.text@), note_stmt(d, line_of(stmt))))
        } else {
            match field_child(n, "left"@) {
                None => Err(perr("assignment missing target"@)),
                Some(target) => match field_child(n, "right"@) {
                    None => Err(perr("assignment missing value"@)),
                    Some(value) => match cpp_expr(target, d) {
                        Err(e) => Err(e),
                        Ok((t, d1)) => match cpp_expr(value, d1) {
                            Err(e) => Err(e),
                            Ok((v, d2)) => Ok((StmtV::Assign { target: t, value: v }, d2)),
                        },
                    },
                },
            }
        },
    }
}

/// The then branch of an `if`: its `consequence`, or else the first named
/// child after its condition.
pub open spec fn if_consequence(n: SyntaxNode) -> Option<SyntaxNode> {
    match field_child(n, "consequence"@) {
        Some(c) => Some(c),
        None => {
            let j = after_condition_index(n, 0, false);
            if j >= 0 {
                named_child(n, j)
            } else {
                None
            }
        },
    }
}

/// `if`: the else branch is read first, then the condition, then the then
/// branch.
pub open spec fn cpp_if(n: SyntaxNode, d: DiagV) -> PRes<StmtV>
    decreases n, 2nat, 0nat,
{
    match field_child(n, "condition"@) {
        None => Err(perr("if missing condition"@)),
        Some(cond) => match if_consequence(n) {
            None => Err(perr("if missing consequence"@)),
            Some(cons_node) => {
                let els: PRes<Option<Seq<StmtV>>> = match field_child(n, "alternative"@) {
                    None => Ok((None, d)),
                    Some(alt) => match cpp_else(alt, d) {
                        Err(e) => Err(e),
                        Ok((b, d1)) => Ok((Some(b), d1)),
                    },
                };
                match els {
                    Err(e) => Err(e),
                    Ok((else_block, d1)) => match cpp_condition(cond, d1) {
                        Err(e) => Err(e),
                        Ok((c, d2)) => match cpp_block(cons_node, d2) {
                            Err(e) => Err(e),
                            Ok((t, d3)) => Ok(
                                (StmtV::If { cond: c, then_block: t, else_block }, d3),
                            ),
                        },
                    },
                }
            },
        },
    }
}

/// The else branch of an `if`: an `else if` nests the inner `if` alone.
pub open spec fn cpp_else(n: SyntaxNode, d: DiagV) -> PRes<Seq<StmtV>>
    decreases n, 5nat, 0nat,
{
    if n.kind@ == "if_statement"@ {
        match cpp_if(n, d) {
            Err(e) => Err(e),
            Ok((s, d1)) => Ok((seq![s], d1)),
        }
    } else if n.kind@ == "else_clause"@ && named_child(n, 0) is Some {
        let child = named_child(n, 0)->0;
        if child.kind@ == "if_statement"@ {
            match cpp_if(child, d) {
                Err(e) => Err(e),
                Ok((s, d1)) => Ok((seq![s], d1)),
            }
        } else {
            cpp_block(child, d)
        }
    } else {
        cpp_block(n, d)
    }
}

/// The initialiser of a counted `for`: a declaration, an assignment, or an
/// expression.
pub open spec fn cpp_for_init(init: SyntaxNode, d: DiagV) -> PRes<StmtV>
    decreases init, 2nat, 1nat,
{
    if init.kind@ == "declaration"@ {
        cpp_var_decl(init, d)
    } else if init.kind@ == "assignment_expression"@ {
        cpp_assignment(init, init, d)
    } else {
        match cpp_expr(init, d) {
            Err(e) => Err(e),
            Ok((x, d1)) => Ok((StmtV::ExprStmt(x), d1)),
        }
    }
}

/// `for (init; cond; update) body`; a header missing a part stays raw.
pub open spec fn cpp_for(n: SyntaxNode, d: DiagV) -> PRes<StmtV>
    decreases n, 2nat, 0nat,
{
    match (
        field_child(n, "initializer"@),
        field_child(n, "condition"@),
        field_child(n, "update"@),
    ) {
        (Some(init), Some(cond), Some(update)) => match field_child(n, "body"@) {
            None => Err(perr("for missing body"@)),
            Some(body) => match cpp_for_init(init, d) {
                Err(e) => Err(e),
                Ok((i, d1)) => match cpp_expr(cond, d1) {
                    Err(e) => Err(e),
                    Ok((c, d2)) => match cpp_expr(update, d2) {
                        Err(e) => Err(e),
                        Ok((s, d3)) => match cpp_block(body, d3) {
                            Err(e) => Err(e),
                            Ok((b, d4)) => Ok(
                                (
                                    StmtV::For {
                                        kind: ForKindV::CStyle {
                                            init: Box::new(i),
                                            cond: c,
                                            step: s,
                                        },
                                        body: b,
                                    },
                                    d4,
                                ),
                            ),
                        },
                    },
                },
            },
        },
        _ => Ok((StmtV::Raw(n.text@), note_stmt(d, line_of(n)))),
    }
}

/// The name a range `for` declares.
pub open spec fn range_for_name(n: SyntaxNode) -> Option<SyntaxNode> {
    match field_child(n, "declarator"@) {
        None => None,
        Some(c) => decl_name(c),
    }
}

/// `for (T x : xs) body`.
pub open spec fn cpp_range_for(n: SyntaxNode, d: DiagV) -> PRes<StmtV>
    decreases n, 2nat, 0nat,
{
    match range_for_name(n) {
        None => Err(perr("range for missing declarator"@)),
        Some(name) => match field_child(n, "right"@) {
            None => Err(perr("range for missing iterator"@)),
            Some(iter) => match field_child(n, "body"@) {
                None => Err(perr("range for missing body"@)),
                Some(body) => match cpp_expr(iter, d) {
                    Err(e) => Err(e),
                    Ok((x, d1)) => match cpp_block(body, d1) {
                        Err(e) => Err(e),
                        Ok((b, d2)) => Ok(
                            (
                                StmtV::For {
                                    kind: ForKindV::ForEach { var: name.text@, iter: x },
                                    body: b,
                                },
                                d2,
                            ),
                        ),
                    },
                },
            },
        },
    }
}

/// The name a parameter declaration declares.
pub open spec fn param_name(c: SyntaxNode) -> Option<SyntaxNode> {
    match field_child(c, "declarator"@) {
        None => None,
        Some(dc) => decl_name(dc),
    }
}

/// The parameters of a parameter list: each declaration that names its
/// parameter, with its type.
pub open spec fn cpp_params_from(n: SyntaxNode, i: int) -> Seq<ParamV>
    decreases named_child_count(n) - i,
{
    if i < 0 || i >= named_child_count(n) {
        Seq::empty()
    } else {
        match named_child(n, i) {
            None => Seq::empty(),
            Some(c) => (if c.kind@ == "parameter_declaration"@ && param_name(c) is Some {
                seq![ParamV { name: param_name(c)->0.text@, type_hint: field_text(c, "type"@) }]
            } else {
                Seq::empty()
            }) + cpp_params_from(n, i + 1),
        }
    }
}

/// The `function_declarator` of a definition's declarator.
pub open spec fn function_declarator(decl: SyntaxNode) -> Option<SyntaxNode> {
    if decl.kind@ == "function_declarator"@ {
        Some(decl)
    } else {
        find_kind(decl, "function_declarator"@)
    }
}

/// The name a function declarator declares.
pub open spec fn function_name(fd: SyntaxNode) -> Option<SyntaxNode> {
    match field_child(fd, "declarator"@) {
        None => None,
        Some(c) => decl_name(c),
    }
}

/// A function definition with a body.
pub open spec fn cpp_function(n: SyntaxNode, d: DiagV) -> PRes<FunctionV> {
    match field_child(n, "declarator"@) {
        None => Err(perr("function_definition missing declarator"@)),
        Some(decl) => match function_declarator(decl) {
            None => Err(perr("function_definition missing function_declarator"@)),
            Some(fd) => match function_name(fd) {
                None => Err(perr("function_declarator missing name"@)),
                Some(name) => match field_child(fd, "parameters"@) {
                    None => Err(perr("function_declarator missing parameters"@)),
                    Some(pn) => match field_child(n, "body"@) {
                        None => Err(perr("function_definition missing body"@)),
                        Some(body) => match cpp_block(body, d) {
                            Err(e) => Err(e),
                            Ok((b, d1)) => Ok(
                                (
                                    FunctionV {
                                        name: name.text@,
                                        params: cpp_params_from(pn, 0),
                                        return_type: field_text(n, "type"@),
                                        body: b,
                                        span: Span { start: 0, end: 0 },
                                    },
                                    d1,
                                ),
                            ),
                        },
                    },
                },
            },
        },
    }
}

/// The function definitions with a body found in the tree rooted at `n`, in
/// source order; a function's own body is not searched further.
pub open spec fn cpp_collect(n: SyntaxNode, d: DiagV) -> PRes<Seq<ItemV>>
    decreases n, 1nat, 0nat,
{
    if n.kind@ == "function_definition"@ {
        if field_child(n, "body"@) is Some {
            match cpp_function(n, d) {
                Err(e) => Err(e),
                Ok((f, d1)) => Ok((seq![ItemV::Function(f)], d1)),
            }
        } else {
            Ok((Seq::empty(), d))
        }
    } else {
        cpp_collect_from(n, 0, d)
    }
}

/// The functions found under the named children of `n` from the `i`-th on.
pub open spec fn cpp_collect_from(n: SyntaxNode, i: int, d: DiagV) -> PRes<Seq<ItemV>>
    decreases n, 0nat, named_child_count(n) - i,
{
    if i < 0 || i >= named_child_count(n) {
        Ok((Seq::empty(), d))
    } else {
        match named_child(n, i) {
            None => Ok((Seq::empty(), d)),
            Some(c) => match cpp_collect(c, d) {
                Err(e) => Err(e),
                Ok((xs, d1)) => prepend(xs, cpp_collect_from(n, i + 1, d1)),
            },
        }
    }
}

/// What parsing a C++ source text gives.
pub open spec fn cpp_parse(source: Seq<char>) -> core::result::Result<(ModuleV, DiagV), PseudoErrorV> {
    match cpp_tree(source) {
        TreeOutcome::GrammarRejected(m) => Err(PseudoErrorV::Internal("tree-sitter init: "@ + m@)),
        TreeOutcome::NoTree => Err(perr("parse failed"@)),
        TreeOutcome::Parsed(root) => cpp_module(root),
    }
}

/// What the C++ adapter makes of a syntax tree.
pub open spec fn cpp_module(root: SyntaxNode) -> core::result::Result<(ModuleV, DiagV), PseudoErrorV> {
    if root.has_error {
        Err(perr("syntax error"@))
    } else {
        match cpp_collect(root, empty_diag()) {
            Err(e) => Err(e),
            Ok((items, d)) => Ok((ModuleV { source_language: SourceLang::Cpp, items }, d)),
        }
    }
}

// ---------------------------------------------------------------------------
// The diagnostics count the raw fragments
// ---------------------------------------------------------------------------

proof fn lemma_cpp_expr_counts(n: SyntaxNode, d: DiagV)
    requires
        bounded(d),
    ensures
        cpp_expr(n, d) matches Ok((x, d2)) ==> recorded(d, d2, 0, 0, expr_raw_count(x)),
    decreases n, 1nat, 0nat,
{
    lemma_notes(d, line_of(n));
    let k = n.kind@;
    if k == "binary_expression"@ {
        lemma_cpp_binary_counts(n, d);
    } else if k == "unary_expression"@ {
        lemma_cpp_unary_counts(n, d);
    } else if k == "parenthesized_expression"@ {
        match named_child(n, 0) {
            Some(inner) => lemma_cpp_expr_counts(inner, d),
            None => {},
        }
    } else if k == "call_expression"@ {
        lemma_cpp_call_counts(n, d);
    } else if k == "subscript_expression"@ {
        lemma_cpp_subscript_counts(n, d);
    } else if k == "field_expression"@ {
        lemma_cpp_field_counts(n, d);
    }
}

/// Two expressions read one after the other.
proof fn lemma_cpp_pair_counts(a: SyntaxNode, b: SyntaxNode, d: DiagV)
    requires
        bounded(d),
    ensures
        cpp_expr(a, d) matches Ok((x, d1)) ==> (cpp_expr(b, d1) matches Ok((y, d2)) ==> recorded(
            d,
            d2,
            0,
            0,
            expr_raw_count(x) + expr_raw_count(y),
        )),
{
            lemma_cpp_expr_counts(a, d);
            match cpp_expr(a, d) {
                Ok((x, d1)) => {
                    lemma_cpp_expr_counts(b, d1);
                    match cpp_expr(b, d1) {
                        Ok((y, d2)) => {
                            lemma_recorded_trans(d, d1, d2, 0, 0, expr_raw_count(x), 0, 0, expr_raw_count(y));
                        },
                        Err(_) => {},
                    }
                },
                Err(_) => {},
            }
        }

proof fn lemma_cpp_binary_counts(n: SyntaxNode, d: DiagV)
    requires
        bounded(d),
    ensures
        cpp_binary(n, d) matches Ok((x, d2)) ==> recorded(d, d2, 0, 0, expr_raw_count(x)),
    decreases n, 0nat, 1nat,
{
    lemma_notes(d, line_of(n));
    match (field_child(n, "left"@), field_child(n, "right"@)) {
        (Some(lhs), Some(rhs)) => {
            lemma_cpp_expr_counts(lhs, d);
            match cpp_expr(lhs, d) {
                Ok((x, d1)) => {
                    lemma_cpp_expr_counts(rhs, d1);
                    match cpp_expr(rhs, d1) {
                        Ok((y, d2)) => {
                            lemma_recorded_trans(d, d1, d2, 0, 0, expr_raw_count(x), 0, 0, expr_raw_count(y));
                        },
                        Err(_) => {},
                    }
                },
                Err(_) => {},
            }
        },
        _ => {},
    }
}

proof fn lemma_cpp_unary_counts(n: SyntaxNode, d: DiagV)
    requires
        bounded(d),
    ensures
        cpp_unary(n, d) matches Ok((x, d2)) ==> recorded(d, d2, 0, 0, expr_raw_count(x)),
    decreases n, 0nat, 1nat,
{
    lemma_notes(d, line_of(n));
    match unary_operand(n) {
        Some(operand) => lemma_cpp_expr_counts(operand, d),
        None => {},
    }
}

proof fn lemma_cpp_call_counts(n: SyntaxNode, d: DiagV)
    requires
        bounded(d),
    ensures
        cpp_call(n, d) matches Ok((x, d2)) ==> recorded(d, d2, 0, 0, expr_raw_count(x)),
    decreases n, 0nat, 1nat,
{
    match (field_child(n, "function"@), field_child(n, "arguments"@)) {
        (Some(f), Some(an)) => {
            lemma_cpp_exprs_from_counts(an, 0, d);
            match cpp_exprs_from(an, 0, d) {
                Ok((args, d1)) => {
                    lemma_cpp_expr_counts(f, d1);
                    match cpp_expr(f, d1) {
                        Ok((c, d2)) => {
                            lemma_recorded_trans(d, d1, d2, 0, 0, exprs_raw_count(args), 0, 0, expr_raw_count(c));
                        },
                        Err(_) => {},
                    }
                },
                Err(_) => {},
            }
        },
        _ => {},
    }
}

proof fn lemma_cpp_subscript_counts(n: SyntaxNode, d: DiagV)
    requires
        bounded(d),
    ensures
        cpp_subscript(n, d) matches Ok((x, d2)) ==> recorded(d, d2, 0, 0, expr_raw_count(x)),
    decreases n, 0nat, 1nat,
{
    match (field_child(n, "argument"@), subscript_indices(n)) {
        (Some(obj), Some(args)) => match named_child(args, 0) {
            Some(index) => {
            lemma_cpp_expr_counts(obj, d);
            match cpp_expr(obj, d) {
                Ok((x, d1)) => {
                    lemma_cpp_expr_counts(index, d1);
                    match cpp_expr(index, d1) {
                        Ok((y, d2)) => {
                            lemma_recorded_trans(d, d1, d2, 0, 0, expr_raw_count(x), 0, 0, expr_raw_count(y));
                        },
                        Err(_) => {},
                    }
                },
                Err(_) => {},
            }
        },
            None => {},
        },
        _ => {},
    }
}

proof fn lemma_cpp_field_counts(n: SyntaxNode, d: DiagV)
    requires
        bounded(d),
    ensures
        cpp_field(n, d) matches Ok((x, d2)) ==> recorded(d, d2, 0, 0, expr_raw_count(x)),
    decreases n, 0nat, 1nat,
{
    match field_child(n, "argument"@) {
        Some(obj) => lemma_cpp_expr_counts(obj, d),
        None => {},
    }
}

proof fn lemma_cpp_exprs_from_counts(n: SyntaxNode, i: int, d: DiagV)
    requires
        bounded(d),
    ensures
        cpp_exprs_from(n, i, d) matches Ok((xs, d2)) ==> recorded(d, d2, 0, 0, exprs_raw_count(xs)),
    decreases n, 0nat, named_child_count(n) - i,
{
    lemma_notes(d, 0);
    if 0 <= i < named_child_count(n) {
        match named_child(n, i) {
            Some(c) => {
                lemma_cpp_expr_counts(c, d);
                match cpp_expr(c, d) {
                    Ok((x, d1)) => {
                        lemma_cpp_exprs_from_counts(n, i + 1, d1);
                        match cpp_exprs_from(n, i + 1, d1) {
                            Ok((rest, d2)) => {
                                lemma_exprs_raw_cons(x, rest);
                                lemma_recorded_trans(d, d1, d2, 0, 0, expr_raw_count(x), 0, 0, exprs_raw_count(rest));
                            },
                            Err(_) => {},
                        }
                    },
                    Err(_) => {},
                }
            },
            None => {},
        }
    }
}

proof fn lemma_cpp_condition_counts(n: SyntaxNode, d: DiagV)
    requires
        bounded(d),
    ensures
        cpp_condition(n, d) matches Ok((x, d2)) ==> recorded(d, d2, 0, 0, expr_raw_count(x)),
    decreases n, 2nat, 0nat,
{
    if n.kind@ == "condition_clause"@ {
        match named_child(n, 0) {
            Some(inner) => lemma_cpp_expr_counts(inner, d),
            None => {},
        }
    } else {
        lemma_cpp_expr_counts(n, d);
    }
}

proof fn lemma_cpp_stmt_counts(n: SyntaxNode, d: DiagV)
    requires
        bounded(d),
    ensures
        cpp_stmt(n, d) matches Ok((s, d2)) ==> recorded(d, d2, 0, stmt_raw_stmts(s), stmt_raw_exprs(s)),
    decreases n, 3nat, 0nat,
{
    lemma_notes(d, line_of(n));
    let k = n.kind@;
    if k == "declaration"@ {
        lemma_cpp_var_decl_counts(n, d);
    } else if k == "expression_statement"@ {
        match named_child(n, 0) {
            Some(inner) => {
                if inner.kind@ == "assignment_expression"@ {
                    lemma_cpp_assignment_counts(n, inner, d);
                } else {
                    lemma_cpp_expr_counts(inner, d);
                }
            },
            None => {},
        }
    } else if k == "while_statement"@ {
        match (field_child(n, "condition"@), field_child(n, "body"@)) {
            (Some(cond), Some(body)) => {
                lemma_cpp_condition_counts(cond, d);
                match cpp_condition(cond, d) {
                    Ok((c, d1)) => {
                        lemma_cpp_block_counts(body, d1);
                        match cpp_block(body, d1) {
                            Ok((b, d2)) => {
                                lemma_recorded_trans(d, d1, d2, 0, 0, expr_raw_count(c), 0, block_raw_stmts(b), block_raw_exprs(b));
                            },
                            Err(_) => {},
                        }
                    },
                    Err(_) => {},
                }
            },
            _ => {},
        }
    } else if k == "if_statement"@ {
        lemma_cpp_if_counts(n, d);
    } else if k == "return_statement"@ {
        match named_child(n, 0) {
            Some(c) => lemma_cpp_expr_counts(c, d),
            None => {},
        }
    } else if k == "for_statement"@ {
        lemma_cpp_for_counts(n, d);
    } else if k == "for_range_loop"@ {
        lemma_cpp_range_for_counts(n, d);
    }
}

proof fn lemma_cpp_block_counts(n: SyntaxNode, d: DiagV)
    requires
        bounded(d),
    ensures
        cpp_block(n, d) matches Ok((b, d2)) ==> recorded(d, d2, 0, block_raw_stmts(b), block_raw_exprs(b)),
    decreases n, 4nat, 0nat,
{
    if n.kind@ != "compound_statement"@ {
        lemma_cpp_stmt_counts(n, d);
        match cpp_stmt(n, d) {
            Ok((s, d1)) => lemma_block_raw_cons(s, Seq::empty()),
            Err(_) => {},
        }
    } else {
        lemma_cpp_stmts_from_counts(n, 0, d);
    }
}

proof fn lemma_cpp_stmts_from_counts(n: SyntaxNode, i: int, d: DiagV)
    requires
        bounded(d),
    ensures
        cpp_stmts_from(n, i, d) matches Ok((b, d2)) ==> recorded(d, d2, 0, block_raw_stmts(b), block_raw_exprs(b)),
    decreases n, 0nat, named_child_count(n) - i,
{
    lemma_notes(d, 0);
    if 0 <= i < named_child_count(n) {
        match named_child(n, i) {
            Some(c) => {
                lemma_cpp_stmt_counts(c, d);
                match cpp_stmt(c, d) {
                    Ok((x, d1)) => {
                        lemma_cpp_stmts_from_counts(n, i + 1, d1);
                        match cpp_stmts_from(n, i + 1, d1) {
                            Ok((rest, d2)) => {
                                lemma_block_raw_cons(x, rest);
                                lemma_recorded_trans(d, d1, d2, 0, stmt_raw_stmts(x), stmt_raw_exprs(x), 0, block_raw_stmts(rest), block_raw_exprs(rest));
                            },
                            Err(_) => {},
                        }
                    },
                    Err(_) => {},
                }
            },
            None => {},
        }
    }
}

/// The raw expressions of a declaration's initialiser.
spec fn parts_raw_exprs(p: Option<(SyntaxNode, Option<ExprV>)>) -> nat {
    match p {
        Some((_, init)) => opt_expr_raw_count(init),
        None => 0,
    }
}

proof fn lemma_cpp_decl_parts_counts(n: SyntaxNode, d: DiagV)
    requires
        bounded(d),
    ensures
        cpp_decl_parts(n, d) matches Ok((p, d2)) ==> recorded(d, d2, 0, 0, parts_raw_exprs(p)),
    decreases n, 1nat, 1nat,
{
    lemma_notes(d, 0);
    match child_of_kind(n, "init_declarator"@) {
        Some(id) => match field_child(id, "value"@) {
            Some(v) => lemma_cpp_expr_counts(v, d),
            None => {},
        },
        None => {},
    }
}

proof fn lemma_cpp_var_decl_counts(n: SyntaxNode, d: DiagV)
    requires
        bounded(d),
    ensures
        cpp_var_decl(n, d) matches Ok((s, d2)) ==> recorded(d, d2, 0, stmt_raw_stmts(s), stmt_raw_exprs(s)),
    decreases n, 2nat, 0nat,
{
    lemma_notes(d, line_of(n));
    if count_of_kind(n, "init_declarator"@) <= 1 {
        lemma_cpp_decl_parts_counts(n, d);
        match cpp_decl_parts(n, d) {
            Ok((p, d1)) => {
                let e = parts_raw_exprs(p);
                lemma_recorded_bounded(d, d1, 0, 0, e);
                lemma_notes(d1, line_of(n));
                lemma_recorded_trans(d, d1, note_stmt(d1, line_of(n)), 0, 0, e, 0, 1, 0);
                lemma_recorded_dropped(d, note_stmt(d1, line_of(n)), 0, 1, 0, e);
            },
            Err(_) => {},
        }
    }
}

proof fn lemma_cpp_assignment_counts(stmt: SyntaxNode, n: SyntaxNode, d: DiagV)
    requires
        bounded(d),
    ensures
        cpp_assignment(stmt, n, d) matches Ok((s, d2)) ==> recorded(d, d2, 0, stmt_raw_stmts(s), stmt_raw_exprs(s)),
    decreases n, 2nat, 0nat,
{
    lemma_notes(d, line_of(stmt));
    match (field_child(n, "left"@), field_child(n, "right"@)) {
        (Some(target), Some(value)) => lemma_cpp_pair_counts(target, value, d),
        _ => {},
    }
}

proof fn lemma_cpp_if_counts(n: SyntaxNode, d: DiagV)
    requires
        bounded(d),
    ensures
        cpp_if(n, d) matches Ok((s, d2)) ==> recorded(d, d2, 0, stmt_raw_stmts(s), stmt_raw_exprs(s)),
    decreases n, 2nat, 0nat,
{
    lemma_notes(d, 0);
    match (field_child(n, "condition"@), if_consequence(n)) {
        (Some(cond), Some(cons_node)) => {
            let els: PRes<Option<Seq<StmtV>>> = match field_child(n, "alternative"@) {
                None => Ok((None, d)),
                Some(alt) => match cpp_else(alt, d) {
                    Err(e) => Err(e),
                    Ok((b, d1)) => Ok((Some(b), d1)),
                },
            };
            match field_child(n, "alternative"@) {
                None => {},
                Some(alt) => lemma_cpp_else_counts(alt, d),
            }
            match els {
                Ok((eb, d1)) => {
                    let (es, ee) = opt_block_raw(eb);
                    lemma_cpp_condition_counts(cond, d1);
                    match cpp_condition(cond, d1) {
                        Ok((c, d2)) => {
                            lemma_cpp_block_counts(cons_node, d2);
                            match cpp_block(cons_node, d2) {
                                Ok((t, d3)) => {
                                    lemma_recorded_trans(d, d1, d2, 0, es, ee, 0, 0, expr_raw_count(c));
                                    lemma_recorded_trans(d, d2, d3, 0, es, ee + expr_raw_count(c), 0, block_raw_stmts(t), block_raw_exprs(t));
                                },
                                Err(_) => {},
                            }
                        },
                        Err(_) => {},
                    }
                },
                Err(_) => {},
            }
        },
        _ => {},
    }
}

proof fn lemma_cpp_else_counts(n: SyntaxNode, d: DiagV)
    requires
        bounded(d),
    ensures
        cpp_else(n, d) matches Ok((b, d2)) ==> recorded(d, d2, 0, block_raw_stmts(b), block_raw_exprs(b)),
    decreases n, 5nat, 0nat,
{
    if n.kind@ == "if_statement"@ {
        lemma_cpp_if_counts(n, d);
        match cpp_if(n, d) {
            Ok((s, d1)) => lemma_block_raw_cons(s, Seq::empty()),
            Err(_) => {},
        }
    } else if n.kind@ == "else_clause"@ && named_child(n, 0) is Some {
        let child = named_child(n, 0)->0;
        if child.kind@ == "if_statement"@ {
            lemma_cpp_if_counts(child, d);
            match cpp_if(child, d) {
                Ok((s, d1)) => lemma_block_raw_cons(s, Seq::empty()),
                Err(_) => {},
            }
        } else {
            lemma_cpp_block_counts(child, d);
        }
    } else {
        lemma_cpp_block_counts(n, d);
    }
}

proof fn lemma_cpp_for_init_counts(init: SyntaxNode, d: DiagV)
    requires
        bounded(d),
    ensures
        cpp_for_init(init, d) matches Ok((s, d2)) ==> recorded(d, d2, 0, stmt_raw_stmts(s), stmt_raw_exprs(s)),
    decreases init, 2nat, 1nat,
{
    if init.kind@ == "declaration"@ {
        lemma_cpp_var_decl_counts(init, d);
    } else if init.kind@ == "assignment_expression"@ {
        lemma_cpp_assignment_counts(init, init, d);
    } else {
        lemma_cpp_expr_counts(init, d);
    }
}

proof fn lemma_cpp_for_counts(n: SyntaxNode, d: DiagV)
    requires
        bounded(d),
    ensures
        cpp_for(n, d) matches Ok((s, d2)) ==> recorded(d, d2, 0, stmt_raw_stmts(s), stmt_raw_exprs(s)),
    decreases n, 2nat, 0nat,
{
    lemma_notes(d, line_of(n));
    match (field_child(n, "initializer"@), field_child(n, "condition"@), field_child(n, "update"@)) {
        (Some(init), Some(cond), Some(update)) => match field_child(n, "body"@) {
            Some(body) => {
                lemma_cpp_for_init_counts(init, d);
                match cpp_for_init(init, d) {
                    Ok((i, d1)) => {
                        lemma_cpp_pair_counts(cond, update, d1);
                        match cpp_expr(cond, d1) {
                            Ok((c, d2)) => match cpp_expr(update, d2) {
                                Ok((st, d3)) => {
                                    lemma_cpp_block_counts(body, d3);
                                    match cpp_block(body, d3) {
                                        Ok((b, d4)) => {
                                            let ce = expr_raw_count(c) + expr_raw_count(st);
                                            lemma_recorded_trans(d, d1, d3, 0, stmt_raw_stmts(i), stmt_raw_exprs(i), 0, 0, ce);
                                            lemma_recorded_trans(d, d3, d4, 0, stmt_raw_stmts(i), stmt_raw_exprs(i) + ce, 0, block_raw_stmts(b), block_raw_exprs(b));
                                        },
                                        Err(_) => {},
                                    }
                                },
                                Err(_) => {},
                            },
                            Err(_) => {},
                        }
                    },
                    Err(_) => {},
                }
            },
            None => {},
        },
        _ => {},
    }
}

proof fn lemma_cpp_range_for_counts(n: SyntaxNode, d: DiagV)
    requires
        bounded(d),
    ensures
        cpp_range_for(n, d) matches Ok((s, d2)) ==> recorded(d, d2, 0, stmt_raw_stmts(s), stmt_raw_exprs(s)),
    decreases n, 2nat, 0nat,
{
    match (range_for_name(n), field_child(n, "right"@), field_child(n, "body"@)) {
        (Some(name), Some(iter), Some(body)) => {
            lemma_cpp_expr_counts(iter, d);
            match cpp_expr(iter, d) {
                Ok((x, d1)) => {
                    lemma_cpp_block_counts(body, d1);
                    match cpp_block(body, d1) {
                        Ok((b, d2)) => {
                            lemma_recorded_trans(d, d1, d2, 0, 0, expr_raw_count(x), 0, block_raw_stmts(b), block_raw_exprs(b));
                        },
                        Err(_) => {},
                    }
                },
                Err(_) => {},
            }
        },
        _ => {},
    }
}

proof fn lemma_cpp_function_counts(n: SyntaxNode, d: DiagV)
    requires
        bounded(d),
    ensures
        cpp_function(n, d) matches Ok((f, d2)) ==> recorded(d, d2, 0, block_raw_stmts(f.body), block_raw_exprs(f.body)),
{
    match field_child(n, "body"@) {
        Some(body) => lemma_cpp_block_counts(body, d),
        None => {},
    }
}

proof fn lemma_cpp_collect_counts(n: SyntaxNode, d: DiagV)
    requires
        bounded(d),
    ensures
        cpp_collect(n, d) matches Ok((items, d2)) ==> recorded(d, d2, items_raw_items(items), items_raw_stmts(items), items_raw_exprs(items)),
    decreases n, 1nat, 0nat,
{
    lemma_notes(d, 0);
    assert(items_raw_items(Seq::<ItemV>::empty()) == 0);
    assert(items_raw_stmts(Seq::<ItemV>::empty()) == 0);
    assert(items_raw_exprs(Seq::<ItemV>::empty()) == 0);
    if n.kind@ == "function_definition"@ {
        if field_child(n, "body"@) is Some {
            lemma_cpp_function_counts(n, d);
            match cpp_function(n, d) {
                Ok((f, d1)) => lemma_items_raw_cons(ItemV::Function(f), Seq::empty()),
                Err(_) => {},
            }
        }
    } else {
        lemma_cpp_collect_from_counts(n, 0, d);
    }
}

proof fn lemma_cpp_collect_from_counts(n: SyntaxNode, i: int, d: DiagV)
    requires
        bounded(d),
    ensures
        cpp_collect_from(n, i, d) matches Ok((items, d2)) ==> recorded(d, d2, items_raw_items(items), items_raw_stmts(items), items_raw_exprs(items)),
    decreases n, 0nat, named_child_count(n) - i,
{
    lemma_notes(d, 0);
    assert(items_raw_items(Seq::<ItemV>::empty()) == 0);
    assert(items_raw_stmts(Seq::<ItemV>::empty()) == 0);
    assert(items_raw_exprs(Seq::<ItemV>::empty()) == 0);
    if 0 <= i < named_child_count(n) {
        match named_child(n, i) {
            Some(c) => {
                lemma_cpp_collect_counts(c, d);
                match cpp_collect(c, d) {
                    Ok((xs, d1)) => {
                        lemma_cpp_collect_from_counts(n, i + 1, d1);
                        match cpp_collect_from(n, i + 1, d1) {
                            Ok((rest, d2)) => {
                                lemma_items_raw_concat(xs, rest);
                                lemma_recorded_trans(d, d1, d2, items_raw_items(xs), items_raw_stmts(xs), items_raw_exprs(xs), items_raw_items(rest), items_raw_stmts(rest), items_raw_exprs(rest));
                            },
                            Err(_) => {},
                        }
                    },
                    Err(_) => {},
                }
            },
            None => {},
        }
    }
}

/// A subscript `a[i]` becomes an index whose object is the IR of the
/// subscripted expression (the `argument` child) and whose index is the IR
/// of the first entry of its index list, read in that order: the object
/// first, then the index.
pub proof fn lemma_cpp_subscript_object_then_index(
    n: SyntaxNode,
    d: DiagV,
    obj: SyntaxNode,
    args: SyntaxNode,
    index: SyntaxNode,
)
    requires
        n.kind@ == "subscript_expression"@,
        field_child(n, "argument"@) == Some(obj),
        subscript_indices(n) == Some(args),
        named_child(args, 0) == Some(index),
    ensures
        match cpp_expr(obj, d) {
            Err(e) => cpp_expr(n, d) == Err::<(ExprV, DiagV), PseudoErrorV>(e),
            Ok((o, d1)) => match cpp_expr(index, d1) {
                Err(e) => cpp_expr(n, d) == Err::<(ExprV, DiagV), PseudoErrorV>(e),
                Ok((i, d2)) => cpp_expr(n, d) == Ok::<(ExprV, DiagV), PseudoErrorV>(
                    (ExprV::Index { obj: Box::new(o), index: Box::new(i) }, d2),
                ),
            },
        },
{
    reveal_strlit("identifier");
    reveal_strlit("number_literal");
    reveal_strlit("string_literal");
    reveal_strlit("true");
    reveal_strlit("false");
    reveal_strlit("nullptr");
    reveal_strlit("nullptr_literal");
    reveal_strlit("binary_expression");
    reveal_strlit("unary_expression");
    reveal_strlit("parenthesized_expression");
    reveal_strlit("call_expression");
    reveal_strlit("subscript_expression");
    assert(n.kind@.len() == 20);
    assert(cpp_expr(n, d) == cpp_subscript(n, d));
}

/// A binary operation keeps its operands in source order: the left one is
/// the IR of its `left` child, read first, the right one the IR of its
/// `right` child; the operator is the one its text names.
pub proof fn lemma_cpp_binary_left_then_right(n: SyntaxNode, d: DiagV, a: SyntaxNode, b: SyntaxNode, t: Seq<char>, op: BinOp)
    requires
        n.kind@ == "binary_expression"@,
        field_child(n, "left"@) == Some(a),
        field_child(n, "right"@) == Some(b),
        anon_operator(n) == Some(t),
        c_family_bin_op_spec(t) == Some(op),
    ensures
        match cpp_expr(a, d) {
            Err(e) => cpp_expr(n, d) == Err::<(ExprV, DiagV), PseudoErrorV>(e),
            Ok((x, d1)) => match cpp_expr(b, d1) {
                Err(e) => cpp_expr(n, d) == Err::<(ExprV, DiagV), PseudoErrorV>(e),
                Ok((y, d2)) => cpp_expr(n, d) == Ok::<(ExprV, DiagV), PseudoErrorV>((ExprV::Binary { op, lhs: Box::new(x), rhs: Box::new(y) }, d2)),
            },
        },
{
    reveal_strlit("identifier");
    reveal_strlit("number_literal");
    reveal_strlit("string_literal");
    reveal_strlit("true");
    reveal_strlit("false");
    reveal_strlit("nullptr");
    reveal_strlit("nullptr_literal");
    reveal_strlit("binary_expression");
    assert(n.kind@.len() == 17);
    assert(cpp_expr(n, d) == cpp_binary(n, d));
}

/// Every raw fragment of a parsed C++ module is recorded: the diagnostics
/// count exactly its raw statements (a C++ module has no raw items), and at
/// least its raw expressions (an initialiser read before its declaration
/// fell back to raw text stays counted), each up to the largest machine
/// integer; and while no count has reached that bound, every count recorded
/// one line.
pub proof fn lemma_cpp_diagnostics_count_raw(root: SyntaxNode)
    ensures
        cpp_module(root) matches Ok((m, d)) ==> raw_counted(m.items, d),
{
    if !root.has_error {
        lemma_cpp_collect_counts(root, empty_diag());
        match cpp_collect(root, empty_diag()) {
            Ok((items, d)) => lemma_recorded_from_empty(items, d),
            Err(_) => {},
        }
    }
}

// ---------------------------------------------------------------------------
// Executable adapter: lookups
// ---------------------------------------------------------------------------

fn is_name_kind_text(k: &str) -> (r: bool)
    ensures
        r == is_name_kind(k@),
{
    str_eq(k, "identifier") || str_eq(k, "field_identifier") || str_eq(k, "qualified_identifier")
}

fn is_type_kind_text(k: &str) -> (r: bool)
    ensures
        r == is_type_kind(k@),
{
    str_eq(k, "primitive_type") || str_eq(k, "template_type") || str_eq(k, "type_identifier")
}

/// The name a declarator declares.
fn declarator_name(node: &SyntaxNode) -> (r: Option<&SyntaxNode>)
    ensures
        r matches Some(c) ==> decl_name(*node) == Some(*c),
        r is None ==> decl_name(*node) is None,
    decreases node, 2nat, 0nat,
{
    if is_name_kind_text(node.kind.as_str()) {
        return Some(node);
    }
    match declarator_name_in_field(node, "declarator") {
        Some(x) => return Some(x),
        None => {},
    }
    match declarator_name_in_field(node, "name") {
        Some(x) => return Some(x),
        None => {},
    }
    match declarator_name_in_field(node, "field") {
        Some(x) => return Some(x),
        None => {},
    }
    let count = node.named_child_count();
    let mut i: usize = 0;
    while i < count
        invariant
            count == named_child_count(*node),
            decl_name(*node) == decl_name_from(*node, 0),
            decl_name_from(*node, 0) == decl_name_from(*node, i as int),
        decreases count - i,
    {
        match node.named_child(i) {
            None => return None,
            Some(c) => match declarator_name(c) {
                Some(x) => return Some(x),
                None => {},
            },
        }
        i = i + 1;
    }
    None
}

fn declarator_name_in_field<'a>(node: &'a SyntaxNode, field: &str) -> (r: Option<&'a SyntaxNode>)
    ensures
        r matches Some(c) ==> decl_name_in_field(*node, field@) == Some(*c),
        r is None ==> decl_name_in_field(*node, field@) is None,
    decreases node, 1nat, 0nat,
{
    match node.child_by_field_name(field) {
        None => None,
        Some(c) => declarator_name(c),
    }
}

/// The first node of the given kind in the tree rooted at `node`.
fn find_descendant<'a>(node: &'a SyntaxNode, kind: &str) -> (r: Option<&'a SyntaxNode>)
    ensures
        r matches Some(c) ==> find_kind(*node, kind@) == Some(*c),
        r is None ==> find_kind(*node, kind@) is None,
    decreases node, 1nat, 0nat,
{
    if node.is_kind(kind) {
        return Some(node);
    }
    let count = node.named_child_count();
    let mut i: usize = 0;
    while i < count
        invariant
            count == named_child_count(*node),
            find_kind(*node, kind@) == find_kind_from(*node, kind@, 0),
            find_kind_from(*node, kind@, 0) == find_kind_from(*node, kind@, i as int),
        decreases count - i,
    {
        match node.named_child(i) {
            None => return None,
            Some(c) => match find_descendant(c, kind) {
                Some(x) => return Some(x),
                None => {},
            },
        }
        i = i + 1;
    }
    None
}

/// The declarator of a declaration that declares exactly one thing.
fn sole_declarator_of(node: &SyntaxNode) -> (r: Option<&SyntaxNode>)
    ensures
        r matches Some(c) ==> sole_declarator(*node) == Some(*c),
        r is None ==> sole_declarator(*node) is None,
{
    let ghost c = node.children@;
    let mut k: usize = 0;
    let mut count: usize = 0;
    let mut first: Option<&SyntaxNode> = None;
    let ghost mut pre: Seq<SyntaxNode> = Seq::empty();
    assert(declarators_from(c, 0) =~= pre + declarators_from(c, 0));
    while k < node.children.len()
        invariant
            c == node.children@,
            k <= c.len(),
            declarators_from(c, 0) == pre + declarators_from(c, k as int),
            count == pre.len(),
            count <= k,
            first matches Some(f) ==> pre.len() >= 1 && pre[0] == *f,
            pre.len() >= 1 ==> first is Some,
        decreases c.len() - k,
    {
        let ch = &node.children[k];
        let ghost rest = declarators_from(c, k + 1);
        if ch.named && !is_type_kind_text(ch.kind.as_str()) {
            if count == 0 {
                first = Some(ch);
            }
            count = count + 1;
            proof {
                assert(pre + (seq![c[k as int]] + rest) =~= pre.push(c[k as int]) + rest);
                pre = pre.push(c[k as int]);
            }
        } else {
            assert(pre + (Seq::<SyntaxNode>::empty() + rest) =~= pre + rest);
        }
        k = k + 1;
    }
    assert(pre + declarators_from(c, k as int) =~= pre);
    if count == 1 {
        first
    } else {
        None
    }
}

/// The then branch of an `if`.
fn consequence_of(node: &SyntaxNode) -> (r: Option<&SyntaxNode>)
    ensures
        r matches Some(c) ==> if_consequence(*node) == Some(*c),
        r is None ==> if_consequence(*node) is None,
{
    match node.child_by_field_name("consequence") {
        Some(c) => return Some(c),
        None => {},
    }
    let count = node.named_child_count();
    let mut i: usize = 0;
    let mut seen = false;
    while i < count
        invariant
            count == named_child_count(*node),
            field_child(*node, "consequence"@) is None,
            after_condition_index(*node, 0, false) == after_condition_index(*node, i as int, seen),
        decreases count - i,
    {
        match node.named_child(i) {
            None => return None,
            Some(c) => {
                if c.is_kind("condition_clause") {
                    seen = true;
                } else if seen {
                    return Some(c);
                }
            },
        }
        i = i + 1;
    }
    None
}

// ---------------------------------------------------------------------------
// Executable adapter: expressions
// ---------------------------------------------------------------------------

/// Parses the named children of `node` from the `start`-th on as expressions.
fn parse_expr_list(node: &SyntaxNode, start: usize, diag: &mut RawDiagnostics) -> (r: Result<Vec<Expr>, PseudoError>)
    ensures
        match r {
            Ok(v) => cpp_exprs_from(*node, start as int, old(diag)@) == Ok::<(Seq<ExprV>, DiagV), PseudoErrorV>((exprs_view(v@), final(diag)@)),
            Err(e) => cpp_exprs_from(*node, start as int, old(diag)@) == Err::<(Seq<ExprV>, DiagV), PseudoErrorV>(e@),
        },
    decreases node, 0nat, named_child_count(*node) - start,
{
    let count = node.named_child_count();
    let mut out: Vec<Expr> = Vec::new();
    let mut i: usize = start;
    let ghost d0 = diag@;
    while i < count
        invariant
            count == named_child_count(*node),
            start <= i,
            d0 == old(diag)@,
            cpp_exprs_from(*node, start as int, d0) == prepend(exprs_view(out@), cpp_exprs_from(*node, i as int, diag@)),
        decreases count - i,
    {
        match node.named_child(i) {
            Some(c) => {
                let ghost dc = diag@;
                match parse_expr(c, diag) {
                    Ok(x) => {
                        proof {
                            lemma_prepend_cons(exprs_view(out@), x@, cpp_exprs_from(*node, i + 1, diag@));
                        }
                        let ghost before = out@;
                        out.push(x);
                        proof {
                            assert(exprs_view(out@) =~= exprs_view(before).push(x@));
                        }
                    },
                    Err(e) => {
                        assert(cpp_exprs_from(*node, i as int, dc) == Err::<(Seq<ExprV>, DiagV), PseudoErrorV>(e@));
                        return Err(e);
                    },
                }
            },
            None => {
                i = count;
                continue;
            },
        }
        i = i + 1;
    }
    proof {
        lemma_prepend_empty(exprs_view(out@), diag@);
    }
    Ok(out)
}

pub fn parse_expr(node: &SyntaxNode, diag: &mut RawDiagnostics) -> (r: Result<Expr, PseudoError>)
    ensures
        outcome(r, final(diag)@) == cpp_expr(*node, old(diag)@),
    decreases node, 1nat, 0nat,
{
    if node.is_kind("identifier") {
        Ok(Expr::Ident(node.text.clone()))
    } else if node.is_kind("number_literal") {
        match parse_i64(node.text.as_str()) {
            Some(v) => Ok(Expr::Literal(Literal::Int(v))),
            None => Ok(record_raw_expr(node, diag)),
        }
    } else if node.is_kind("string_literal") {
        Ok(Expr::Literal(Literal::Str(trim_matching(node.text.as_str(), '"', '\''))))
    } else if node.is_kind("true") {
        Ok(Expr::Literal(Literal::Bool(true)))
    } else if node.is_kind("false") {
        Ok(Expr::Literal(Literal::Bool(false)))
    } else if node.is_kind("nullptr") || node.is_kind("nullptr_literal") {
        Ok(Expr::Literal(Literal::Nil))
    } else if node.is_kind("binary_expression") {
        parse_binary(node, diag)
    } else if node.is_kind("unary_expression") {
        parse_unary(node, diag)
    } else if node.is_kind("parenthesized_expression") {
        match node.named_child(0) {
            None => Err(parse_err("parenthesized_expression empty")),
            Some(inner) => parse_expr(inner, diag),
        }
    } else if node.is_kind("call_expression") {
        parse_call(node, diag)
    } else if node.is_kind("subscript_expression") {
        parse_subscript(node, diag)
    } else if node.is_kind("field_expression") {
        parse_field(node, diag)
    } else {
        Ok(record_raw_expr(node, diag))
    }
}

fn parse_binary(node: &SyntaxNode, diag: &mut RawDiagnostics) -> (r: Result<Expr, PseudoError>)
    ensures
        outcome(r, final(diag)@) == cpp_binary(*node, old(diag)@),
    decreases node, 0nat, 1nat,
{
    let lhs = match node.child_by_field_name("left") {
        Some(c) => c,
        None => return Err(parse_err("binary_expression missing lhs")),
    };
    let rhs = match node.child_by_field_name("right") {
        Some(c) => c,
        None => return Err(parse_err("binary_expression missing rhs")),
    };
    let op_text = match find_anon_operator(node) {
        Some(t) => t,
        None => return Err(parse_err("binary_expression missing operator")),
    };
    let op = match parse_c_family_bin_op(op_text) {
        Some(op) => op,
        None => return Ok(record_raw_expr(node, diag)),
    };
    let lhs = match parse_expr(lhs, diag) {
        Ok(v) => v,
        Err(e) => return Err(e),
    };
    let rhs = match parse_expr(rhs, diag) {
        Ok(v) => v,
        Err(e) => return Err(e),
    };
    Ok(Expr::Binary { op, lhs: Box::new(lhs), rhs: Box::new(rhs) })
}

fn operand_of(node: &SyntaxNode) -> (r: Option<&SyntaxNode>)
    ensures
        r matches Some(c) ==> unary_operand(*node) == Some(*c),
        r is None ==> unary_operand(*node) is None,
{
    match node.child_by_field_name("argument") {
        Some(c) => Some(c),
        None => node.child_by_field_name("operand"),
    }
}

fn parse_unary(node: &SyntaxNode, diag: &mut RawDiagnostics) -> (r: Result<Expr, PseudoError>)
    ensures
        outcome(r, final(diag)@) == cpp_unary(*node, old(diag)@),
    decreases node, 0nat, 1nat,
{
    let op_text = match find_anon_operator(node) {
        Some(t) => t,
        None => return Err(parse_err("unary_expression missing operator")),
    };
    let op = match parse_un_op(op_text) {
        Some(v) => v,
        None => return Ok(record_raw_expr(node, diag)),
    };
    let operand = match operand_of(node) {
        Some(c) => c,
        None => return Err(parse_err("unary_expression missing operand")),
    };
    let inner = match parse_expr(operand, diag) {
        Ok(v) => v,
        Err(e) => return Err(e),
    };
    Ok(Expr::Unary { op, expr: Box::new(inner) })
}

fn parse_call(node: &SyntaxNode, diag: &mut RawDiagnostics) -> (r: Result<Expr, PseudoError>)
    ensures
        outcome(r, final(diag)@) == cpp_call(*node, old(diag)@),
    decreases node, 0nat, 1nat,
{
    let callee = match node.child_by_field_name("function") {
        Some(c) => c,
        None => return Err(parse_err("call_expression missing function")),
    };
    let args_node = match node.child_by_field_name("arguments") {
        Some(c) => c,
        None => return Err(parse_err("call_expression missing arguments")),
    };
    let args = match parse_expr_list(args_node, 0, diag) {
        Ok(v) => v,
        Err(e) => return Err(e),
    };
    let callee = match parse_expr(callee, diag) {
        Ok(v) => v,
        Err(e) => return Err(e),
    };
    let e = Expr::Call { callee: Box::new(callee), args };
    proof {
        assert(e@->args =~= exprs_view(args@));
    }
    Ok(e)
}

fn indices_of(node: &SyntaxNode) -> (r: Option<&SyntaxNode>)
    ensures
        r matches Some(c) ==> subscript_indices(*node) == Some(*c),
        r is None ==> subscript_indices(*node) is None,
{
    match node.child_by_field_name("indices") {
        Some(c) => Some(c),
        None => node.named_child_by_kind("subscript_argument_list"),
    }
}

fn parse_subscript(node: &SyntaxNode, diag: &mut RawDiagnostics) -> (r: Result<Expr, PseudoError>)
    ensures
        outcome(r, final(diag)@) == cpp_subscript(*node, old(diag)@),
    decreases node, 0nat, 1nat,
{
    let obj = match node.child_by_field_name("argument") {
        Some(c) => c,
        None => return Err(parse_err("subscript_expression missing argument")),
    };
    let args = match indices_of(node) {
        Some(c) => c,
        None => return Err(parse_err("subscript_expression missing indices")),
    };
    let index = match args.named_child(0) {
        Some(c) => c,
        None => return Err(parse_err("subscript_argument_list empty")),
    };
    let obj = match parse_expr(obj, diag) {
        Ok(v) => v,
        Err(e) => return Err(e),
    };
    let index = match parse_expr(index, diag) {
        Ok(v) => v,
        Err(e) => return Err(e),
    };
    Ok(Expr::Index { obj: Box::new(obj), index: Box::new(index) })
}

fn parse_field(node: &SyntaxNode, diag: &mut RawDiagnostics) -> (r: Result<Expr, PseudoError>)
    ensures
        outcome(r, final(diag)@) == cpp_field(*node, old(diag)@),
    decreases node, 0nat, 1nat,
{
    let obj = match node.child_by_field_name("argument") {
        Some(c) => c,
        None => return Err(parse_err("field_expression missing argument")),
    };
    let field = match node.child_by_field_name("field") {
        Some(c) => c,
        None => return Err(parse_err("field_expression missing field")),
    };
    let obj = match parse_expr(obj, diag) {
        Ok(v) => v,
        Err(e) => return Err(e),
    };
    Ok(Expr::Field { obj: Box::new(obj), name: field.text.clone() })
}

fn parse_condition(node: &SyntaxNode, diag: &mut RawDiagnostics) -> (r: Result<Expr, PseudoError>)
    ensures
        outcome(r, final(diag)@) == cpp_condition(*node, old(diag)@),
    decreases node, 2nat, 0nat,
{
    if node.is_kind("condition_clause") {
        match node.named_child(0) {
            None => Err(parse_err("condition_clause empty")),
            Some(inner) => parse_expr(inner, diag),
        }
    } else {
        parse_expr(node, diag)
    }
}

// ---------------------------------------------------------------------------
// Executable adapter: statements
// ---------------------------------------------------------------------------

/// Parses the named children of `node` from the `start`-th on as statements.
fn parse_stmts_from(node: &SyntaxNode, start: usize, diag: &mut RawDiagnostics) -> (r: Result<Vec<Stmt>, PseudoError>)
    ensures
        match r {
            Ok(v) => cpp_stmts_from(*node, start as int, old(diag)@) == Ok::<(Seq<StmtV>, DiagV), PseudoErrorV>((stmts_view(v@), final(diag)@)),
            Err(e) => cpp_stmts_from(*node, start as int, old(diag)@) == Err::<(Seq<StmtV>, DiagV), PseudoErrorV>(e@),
        },
    decreases node, 0nat, named_child_count(*node) - start,
{
    let count = node.named_child_count();
    let mut out: Vec<Stmt> = Vec::new();
    let mut i: usize = start;
    let ghost d0 = diag@;
    while i < count
        invariant
            count == named_child_count(*node),
            start <= i,
            d0 == old(diag)@,
            cpp_stmts_from(*node, start as int, d0) == prepend(stmts_view(out@), cpp_stmts_from(*node, i as int, diag@)),
        decreases count - i,
    {
        match node.named_child(i) {
            Some(c) => {
                let ghost dc = diag@;
                match parse_stmt(c, diag) {
                    Ok(x) => {
                        proof {
                            lemma_prepend_cons(stmts_view(out@), x@, cpp_stmts_from(*node, i + 1, diag@));
                        }
                        let ghost before = out@;
                        out.push(x);
                        proof {
                            assert(stmts_view(out@) =~= stmts_view(before).push(x@));
                        }
                    },
                    Err(e) => {
                        assert(cpp_stmts_from(*node, i as int, dc) == Err::<(Seq<StmtV>, DiagV), PseudoErrorV>(e@));
                        return Err(e);
                    },
                }
            },
            None => {
                i = count;
                continue;
            },
        }
        i = i + 1;
    }
    proof {
        lemma_prepend_empty(stmts_view(out@), diag@);
    }
    Ok(out)
}

fn parse_block(node: &SyntaxNode, diag: &mut RawDiagnostics) -> (r: Result<Block, PseudoError>)
    ensures
        match r {
            Ok(b) => cpp_block(*node, old(diag)@) == Ok::<(Seq<StmtV>, DiagV), PseudoErrorV>((b@, final(diag)@)),
            Err(e) => cpp_block(*node, old(diag)@) == Err::<(Seq<StmtV>, DiagV), PseudoErrorV>(e@),
        },
    decreases node, 4nat, 0nat,
{
    if !node.is_kind("compound_statement") {
        return match parse_stmt(node, diag) {
            Ok(s) => Ok(single_block(s)),
            Err(e) => Err(e),
        };
    }
    match parse_stmts_from(node, 0, diag) {
        Ok(v) => Ok(Block(v)),
        Err(e) => Err(e),
    }
}

pub fn parse_stmt(node: &SyntaxNode, diag: &mut RawDiagnostics) -> (r: Result<Stmt, PseudoError>)
    ensures
        outcome(r, final(diag)@) == cpp_stmt(*node, old(diag)@),
    decreases node, 3nat, 0nat,
{
    if node.is_kind("declaration") {
        parse_var_decl(node, diag)
    } else if node.is_kind("expression_statement") {
        let inner = match node.named_child(0) {
            Some(c) => c,
            None => return Ok(record_raw_stmt(node, diag)),
        };
        if inner.is_kind("assignment_expression") {
            parse_assignment(node, inner, diag)
        } else {
            match parse_expr(inner, diag) {
                Ok(x) => Ok(Stmt::ExprStmt(x)),
                Err(e) => Err(e),
            }
        }
    } else if node.is_kind("while_statement") {
        let cond = match node.child_by_field_name("condition") {
            Some(c) => c,
            None => return Err(parse_err("while missing condition")),
        };
        let body = match node.child_by_field_name("body") {
            Some(c) => c,
            None => return Err(parse_err("while missing body")),
        };
        let cond = match parse_condition(cond, diag) {
            Ok(v) => v,
            Err(e) => return Err(e),
        };
        let body = match parse_block(body, diag) {
            Ok(v) => v,
            Err(e) => return Err(e),
        };
        let s = Stmt::While { cond, body };
        assert(s@->While_body =~= s->While_body@);
        Ok(s)
    } else if node.is_kind("if_statement") {
        parse_if(node, diag)
    } else if node.is_kind("return_statement") {
        match node.named_child(0) {
            None => Ok(Stmt::Return(None)),
            Some(c) => match parse_expr(c, diag) {
                Ok(x) => Ok(Stmt::Return(Some(x))),
                Err(e) => Err(e),
            },
        }
    } else if node.is_kind("break_statement") {
        Ok(Stmt::Break)
    } else if node.is_kind("continue_statement") {
        Ok(Stmt::Continue)
    } else if node.is_kind("for_statement") {
        parse_for(node, diag)
    } else if node.is_kind("for_range_loop") {
        parse_range_for(node, diag)
    } else {
        Ok(record_raw_stmt(node, diag))
    }
}

/// The declarator of a declaration and its parsed initialiser.
fn parse_decl_parts<'a>(node: &'a SyntaxNode, diag: &mut RawDiagnostics) -> (r: Result<Option<(&'a SyntaxNode, Option<Expr>)>, PseudoError>)
    ensures
        match r {
            Ok(None) => cpp_decl_parts(*node, old(diag)@) == Ok::<(Option<(SyntaxNode, Option<ExprV>)>, DiagV), PseudoErrorV>((None, final(diag)@)),
            Ok(Some((decl, init))) => cpp_decl_parts(*node, old(diag)@) == Ok::<(Option<(SyntaxNode, Option<ExprV>)>, DiagV), PseudoErrorV>((Some((*decl, opt_expr_view(init))), final(diag)@)),
            Err(e) => cpp_decl_parts(*node, old(diag)@) == Err::<(Option<(SyntaxNode, Option<ExprV>)>, DiagV), PseudoErrorV>(e@),
        },
    decreases node, 1nat, 1nat,
{
    match node.named_child_by_kind("init_declarator") {
        Some(id) => {
            let decl = match id.child_by_field_name("declarator") {
                Some(c) => c,
                None => return Err(parse_err("init_declarator missing declarator")),
            };
            match id.child_by_field_name("value") {
                None => Ok(Some((decl, None))),
                Some(v) => match parse_expr(v, diag) {
                    Ok(x) => Ok(Some((decl, Some(x)))),
                    Err(e) => Err(e),
                },
            }
        },
        None => match sole_declarator_of(node) {
            None => Ok(None),
            Some(decl) => Ok(Some((decl, None))),
        },
    }
}

fn parse_var_decl(node: &SyntaxNode, diag: &mut RawDiagnostics) -> (r: Result<Stmt, PseudoError>)
    ensures
        outcome(r, final(diag)@) == cpp_var_decl(*node, old(diag)@),
    decreases node, 2nat, 0nat,
{
    if node.count_of_kind("init_declarator") > 1 {
        return Ok(record_raw_stmt(node, diag));
    }
    let parts = match parse_decl_parts(node, diag) {
        Ok(p) => p,
        Err(e) => return Err(e),
    };
    match parts {
        None => Ok(record_raw_stmt(node, diag)),
        Some((decl, init)) => if !decl.is_kind("identifier") {
            Ok(record_raw_stmt(node, diag))
        } else {
            Ok(
                Stmt::VarDecl(
                    VarDecl {
                        name: decl.text.clone(),
                        type_hint: field_type_hint(node, "type"),
                        init,
                    },
                ),
            )
        },
    }
}

fn parse_assignment(stmt: &SyntaxNode, node: &SyntaxNode, diag: &mut RawDiagnostics) -> (r: Result<Stmt, PseudoError>)
    ensures
        outcome(r, final(diag)@) == cpp_assignment(*stmt, *node, old(diag)@),
    decreases node, 2nat, 0nat,
{
    let op = match node.child_by_field_name("operator") {
        Some(c) => c,
        None => return Err(parse_err("assignment missing operator")),
    };
    if !str_eq(op.text.as_str(), "=") {
        return Ok(record_raw_stmt(stmt, diag));
    }
    let target = match node.child_by_field_name("left") {
        Some(c) => c,
        None => return Err(parse_err("assignment missing target")),
    };
    let value = match node.child_by_field_name("right") {
        Some(c) => c,
        None => return Err(parse_err("assignment missing value")),
    };
    let target = match parse_expr(target, diag) {
        Ok(v) => v,
        Err(e) => return Err(e),
    };
    let value = match parse_expr(value, diag) {
        Ok(v) => v,
        Err(e) => return Err(e),
    };
    Ok(Stmt::Assign { target, value })
}

fn parse_if(node: &SyntaxNode, diag: &mut RawDiagnostics) -> (r: Result<Stmt, PseudoError>)
    ensures
        outcome(r, final(diag)@) == cpp_if(*node, old(diag)@),
    decreases node, 2nat, 0nat,
{
    let cond = match node.child_by_field_name("condition") {
        Some(c) => c,
        None => return Err(parse_err("if missing condition")),
    };
    let cons_node = match consequence_of(node) {
        Some(c) => c,
        None => return Err(parse_err("if missing consequence")),
    };
    let else_block = match node.child_by_field_name("alternative") {
        None => None,
        Some(alt) => match parse_else(alt, diag) {
            Ok(b) => Some(b),
            Err(e) => return Err(e),
        },
    };
    let cond = match parse_condition(cond, diag) {
        Ok(v) => v,
        Err(e) => return Err(e),
    };
    let then_block = match parse_block(cons_node, diag) {
        Ok(v) => v,
        Err(e) => return Err(e),
    };
    let s = Stmt::If { cond, then_block, else_block };
    proof {
        assert(s@->then_block =~= s->then_block@);
        if s@->If_else_block is Some {
            assert(s@->If_else_block->0 =~= s->If_else_block->0@);
        }
    }
    Ok(s)
}

fn parse_else(node: &SyntaxNode, diag: &mut RawDiagnostics) -> (r: Result<Block, PseudoError>)
    ensures
        match r {
            Ok(b) => cpp_else(*node, old(diag)@) == Ok::<(Seq<StmtV>, DiagV), PseudoErrorV>((b@, final(diag)@)),
            Err(e) => cpp_else(*node, old(diag)@) == Err::<(Seq<StmtV>, DiagV), PseudoErrorV>(e@),
        },
    decreases node, 5nat, 0nat,
{
    if node.is_kind("if_statement") {
        return match parse_if(node, diag) {
            Ok(s) => Ok(single_block(s)),
            Err(e) => Err(e),
        };
    }
    if node.is_kind("else_clause") {
        match node.named_child(0) {
            Some(child) => {
                if child.is_kind("if_statement") {
                    return match parse_if(child, diag) {
                        Ok(s) => Ok(single_block(s)),
                        Err(e) => Err(e),
                    };
                }
                return parse_block(child, diag);
            },
            None => {},
        }
    }
    parse_block(node, diag)
}

fn parse_for_init(init: &SyntaxNode, diag: &mut RawDiagnostics) -> (r: Result<Stmt, PseudoError>)
    ensures
        outcome(r, final(diag)@) == cpp_for_init(*init, old(diag)@),
    decreases init, 2nat, 1nat,
{
    if init.is_kind("declaration") {
        parse_var_decl(init, diag)
    } else if init.is_kind("assignment_expression") {
        parse_assignment(init, init, diag)
    } else {
        match parse_expr(init, diag) {
            Ok(x) => Ok(Stmt::ExprStmt(x)),
            Err(e) => Err(e),
        }
    }
}

fn parse_for(node: &SyntaxNode, diag: &mut RawDiagnostics) -> (r: Result<Stmt, PseudoError>)
    ensures
        outcome(r, final(diag)@) == cpp_for(*node, old(diag)@),
    decreases node, 2nat, 0nat,
{
    let init = match node.child_by_field_name("initializer") {
        Some(c) => c,
        None => return Ok(record_raw_stmt(node, diag)),
    };
    let cond = match node.child_by_field_name("condition") {
        Some(c) => c,
        None => return Ok(record_raw_stmt(node, diag)),
    };
    let update = match node.child_by_field_name("update") {
        Some(c) => c,
        None => return Ok(record_raw_stmt(node, diag)),
    };
    let body = match node.child_by_field_name("body") {
        Some(c) => c,
        None => return Err(parse_err("for missing body")),
    };
    let first = match parse_for_init(init, diag) {
        Ok(s) => s,
        Err(e) => return Err(e),
    };
    let cond = match parse_expr(cond, diag) {
        Ok(v) => v,
        Err(e) => return Err(e),
    };
    let step = match parse_expr(update, diag) {
        Ok(v) => v,
        Err(e) => return Err(e),
    };
    let body = match parse_block(body, diag) {
        Ok(v) => v,
        Err(e) => return Err(e),
    };
    let s = Stmt::For { kind: ForKind::CStyle { init: Box::new(first), cond, step }, body };
    assert(s@->For_body =~= s->For_body@);
    Ok(s)
}

fn range_name_of(node: &SyntaxNode) -> (r: Option<&SyntaxNode>)
    ensures
        r matches Some(c) ==> range_for_name(*node) == Some(*c),
        r is None ==> range_for_name(*node) is None,
{
    match node.child_by_field_name("declarator") {
        None => None,
        Some(c) => declarator_name(c),
    }
}

fn parse_range_for(node: &SyntaxNode, diag: &mut RawDiagnostics) -> (r: Result<Stmt, PseudoError>)
    ensures
        outcome(r, final(diag)@) == cpp_range_for(*node, old(diag)@),
    decreases node, 2nat, 0nat,
{
    let name = match range_name_of(node) {
        Some(c) => c,
        None => return Err(parse_err("range for missing declarator")),
    };
    let iter = match node.child_by_field_name("right") {
        Some(c) => c,
        None => return Err(parse_err("range for missing iterator")),
    };
    let body = match node.child_by_field_name("body") {
        Some(c) => c,
        None => return Err(parse_err("range for missing body")),
    };
    let iter = match parse_expr(iter, diag) {
        Ok(v) => v,
        Err(e) => return Err(e),
    };
    let body = match parse_block(body, diag) {
        Ok(v) => v,
        Err(e) => return Err(e),
    };
    let s = Stmt::For { kind: ForKind::ForEach { var: name.text.clone(), iter }, body };
    assert(s@->For_body =~= s->For_body@);
    Ok(s)
}

// ---------------------------------------------------------------------------
// Executable adapter: functions and module
// ---------------------------------------------------------------------------

fn param_name_of(c: &SyntaxNode) -> (r: Option<&SyntaxNode>)
    ensures
        r matches Some(x) ==> param_name(*c) == Some(*x),
        r is None ==> param_name(*c) is None,
{
    match c.child_by_field_name("declarator") {
        None => None,
        Some(dc) => declarator_name(dc),
    }
}

fn parse_params(node: &SyntaxNode) -> (r: Vec<Param>)
    ensures
        params_view(r@) == cpp_params_from(*node, 0),
{
    let count = node.named_child_count();
    let mut out: Vec<Param> = Vec::new();
    let mut i: usize = 0;
    while i < count
        invariant
            count == named_child_count(*node),
            cpp_params_from(*node, 0) == params_view(out@) + cpp_params_from(*node, i as int),
        decreases count - i,
    {
        let ghost before = params_view(out@);
        match node.named_child(i) {
            Some(c) => {
                let mut added = false;
                if c.is_kind("parameter_declaration") {
                    match param_name_of(c) {
                        Some(name) => {
                            let p = Param { name: name.text.clone(), type_hint: field_type_hint(c, "type") };
                            let ghost pv = p@;
                            out.push(p);
                            added = true;
                            proof {
                                assert(params_view(out@) =~= before + seq![pv]);
                            }
                        },
                        None => {},
                    }
                }
                if !added {
                    assert(before + Seq::<ParamV>::empty() =~= before);
                }
                assert(before + cpp_params_from(*node, i as int) =~= params_view(out@) + cpp_params_from(*node, i + 1));
            },
            None => {
                i = count;
                continue;
            },
        }
        i = i + 1;
    }
    assert(params_view(out@) + Seq::<ParamV>::empty() =~= params_view(out@));
    out
}

fn function_declarator_of(decl: &SyntaxNode) -> (r: Option<&SyntaxNode>)
    ensures
        r matches Some(x) ==> function_declarator(*decl) == Some(*x),
        r is None ==> function_declarator(*decl) is None,
{
    if decl.is_kind("function_declarator") {
        Some(decl)
    } else {
        find_descendant(decl, "function_declarator")
    }
}

fn function_name_of(fd: &SyntaxNode) -> (r: Option<&SyntaxNode>)
    ensures
        r matches Some(x) ==> function_name(*fd) == Some(*x),
        r is None ==> function_name(*fd) is None,
{
    match fd.child_by_field_name("declarator") {
        None => None,
        Some(c) => declarator_name(c),
    }
}

fn parse_function(node: &SyntaxNode, diag: &mut RawDiagnostics) -> (r: Result<Function, PseudoError>)
    ensures
        outcome(r, final(diag)@) == cpp_function(*node, old(diag)@),
{
    let decl = match node.child_by_field_name("declarator") {
        Some(c) => c,
        None => return Err(parse_err("function_definition missing declarator")),
    };
    let fd = match function_declarator_of(decl) {
        Some(c) => c,
        None => return Err(parse_err("function_definition missing function_declarator")),
    };
    let name = match function_name_of(fd) {
        Some(c) => c,
        None => return Err(parse_err("function_declarator missing name")),
    };
    let params_node = match fd.child_by_field_name("parameters") {
        Some(c) => c,
        None => return Err(parse_err("function_declarator missing parameters")),
    };
    let body_node = match node.child_by_field_name("body") {
        Some(c) => c,
        None => return Err(parse_err("function_definition missing body")),
    };
    let params = parse_params(params_node);
    let body = match parse_block(body_node, diag) {
        Ok(b) => b,
        Err(e) => return Err(e),
    };
    let f = Function {
        name: name.text.clone(),
        params,
        return_type: field_type_hint(node, "type"),
        body,
        span: Span { start: 0, end: 0 },
    };
    proof {
        assert(f@.params =~= params_view(f.params@));
    }
    Ok(f)
}

/// Appends to `items` the function definitions with a body found in the
/// tree rooted at `node`.
fn collect_functions(node: &SyntaxNode, items: &mut Vec<Item>, diag: &mut RawDiagnostics) -> (r: Result<(), PseudoError>)
    ensures
        match r {
            Ok(_) => prepend(items_view(old(items)@), cpp_collect(*node, old(diag)@)) == Ok::<(Seq<ItemV>, DiagV), PseudoErrorV>((items_view(final(items)@), final(diag)@)),
            Err(e) => cpp_collect(*node, old(diag)@) == Err::<(Seq<ItemV>, DiagV), PseudoErrorV>(e@),
        },
    decreases node, 1nat, 0nat,
{
    if node.is_kind("function_definition") {
        if node.child_by_field_name("body").is_some() {
            match parse_function(node, diag) {
                Ok(f) => {
                    let ghost before = items_view(items@);
                    let it = Item::Function(f);
                    let ghost iv = it@;
                    items.push(it);
                    proof {
                        assert(items_view(items@) =~= before + seq![iv]);
                    }
                },
                Err(e) => return Err(e),
            }
        } else {
            proof {
                lemma_prepend_empty(items_view(items@), diag@);
            }
        }
        return Ok(());
    }
    let count = node.named_child_count();
    let mut i: usize = 0;
    let ghost d0 = diag@;
    let ghost pre = items_view(items@);
    while i < count
        invariant
            count == named_child_count(*node),
            d0 == old(diag)@,
            pre == items_view(old(items)@),
            node.kind@ != "function_definition"@,
            prepend(pre, cpp_collect_from(*node, 0, d0)) == prepend(items_view(items@), cpp_collect_from(*node, i as int, diag@)),
        decreases count - i,
    {
        match node.named_child(i) {
            Some(c) => {
                let ghost dc = diag@;
                let ghost ic = items_view(items@);
                match collect_functions(c, items, diag) {
                    Ok(_) => {
                        proof {
                            let xs = cpp_collect(*c, dc)->Ok_0.0;
                            lemma_prepend_prepend(ic, xs, cpp_collect_from(*node, i + 1, diag@));
                        }
                    },
                    Err(e) => {
                        assert(cpp_collect_from(*node, i as int, dc) == Err::<(Seq<ItemV>, DiagV), PseudoErrorV>(e@));
                        proof {
                            lemma_prepend_err(ic, cpp_collect_from(*node, i as int, dc));
                            lemma_prepend_err(pre, cpp_collect_from(*node, 0, d0));
                        }
                        return Err(e);
                    },
                }
            },
            None => {
                i = count;
                continue;
            },
        }
        i = i + 1;
    }
    proof {
        lemma_prepend_empty(items_view(items@), diag@);
    }
    Ok(())
}

impl Default for CppParser {
    fn default() -> (r: Self)
        ensures
            r == CppParser,
    {
        CppParser::new()
    }
}

impl CppParser {
    pub fn new() -> Self {
        CppParser
    }

    /// What the adapter makes of a syntax tree: the module and its raw
    /// diagnostics, or an error.
    pub fn parse_tree(root: &SyntaxNode) -> (r: Result<(Module, RawDiagnostics), PseudoError>)
        ensures
            parse_view(r) == cpp_module(*root),
    {
        if root.has_error {
            return Err(parse_err("syntax error"));
        }
        let mut diag = RawDiagnostics::new();
        let mut items: Vec<Item> = Vec::new();
        proof {
            assert(items_view(items@) =~= Seq::<ItemV>::empty());
        }
        match collect_functions(root, &mut items, &mut diag) {
            Ok(_) => {
                proof {
                    match cpp_collect(*root, empty_diag()) {
                        Ok((xs, d)) => {
                            assert(Seq::<ItemV>::empty() + xs =~= xs);
                        },
                        Err(e) => {},
                    }
                }
                let m = Module { source_language: SourceLang::Cpp, items };
                proof {
                    assert(m@.items =~= items_view(m.items@));
                }
                Ok((m, diag))
            },
            Err(e) => Err(e),
        }
    }
}

impl LanguageParser for CppParser {
    fn language(&self) -> (r: SourceLang)
        ensures
            r == SourceLang::Cpp,
    {
        SourceLang::Cpp
    }

    fn parse(&self, source: &str) -> (r: Result<(Module, RawDiagnostics), PseudoError>)
        ensures
            parse_view(r) == cpp_parse(source@),
    {
        match parse_cpp_tree(source) {
            TreeOutcome::GrammarRejected(m) => {
                let mut msg = String::from_str("tree-sitter init: ");
                msg.append(m.as_str());
                Err(PseudoError::Internal(msg))
            },
            TreeOutcome::NoTree => Err(parse_err("parse failed")),
            TreeOutcome::Parsed(root) => CppParser::parse_tree(&root),
        }
    }
}

} // verus!
