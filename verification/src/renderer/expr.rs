//! Pseudocode notation for expressions, shared by both renderers.
use crate::ir::{BinOp, Expr, ExprV, Literal, LiteralV, UnOp, exprs_view};
use crate::parser::common::{bin_op_spec, c_family_bin_op_spec, comparison_op_spec, un_op_spec};
use crate::text::{i64_to_text, int_decimal, lemma_pieces_in_order, occur_in_order, str_eq};
use vstd::prelude::*;

verus! {

/// Pseudocode spelling of a binary operator.
pub open spec fn binop_text(op: BinOp) -> Seq<char> {
    match op {
        BinOp::Add => "+"@,
        BinOp::Sub => "-"@,
        BinOp::Mul => "*"@,
        BinOp::Div => "/"@,
        BinOp::IntDiv => "DIV"@,
        BinOp::Mod => "MOD"@,
        BinOp::Eq => "="@,
        BinOp::Ne => "\u{2260}"@,
        BinOp::Lt => "<"@,
        BinOp::Le => "\u{2264}"@,
        BinOp::Gt => ">"@,
        BinOp::Ge => "\u{2265}"@,
        BinOp::And => "AND"@,
        BinOp::Or => "OR"@,
        BinOp::BitAnd => "&"@,
        BinOp::BitOr => "|"@,
        BinOp::BitXor => "^"@,
        BinOp::Shl => "<<"@,
        BinOp::Shr => ">>"@,
    }
}

/// Pseudocode spelling of a unary operator (including its trailing space,
/// where it has one).
pub open spec fn unop_text(op: UnOp) -> Seq<char> {
    match op {
        UnOp::Neg => "-"@,
        UnOp::Not => "NOT "@,
        UnOp::BitNot => "~"@,
    }
}

pub open spec fn literal_text(l: LiteralV) -> Seq<char> {
    match l {
        LiteralV::Int(n) => int_decimal(n as int),
        LiteralV::Float(s) => s,
        LiteralV::Str(s) => "\""@ + s + "\""@,
        LiteralV::Bool(b) => if b {
            "TRUE"@
        } else {
            "FALSE"@
        },
        LiteralV::Nil => "NIL"@,
    }
}

/// `len(x)`, `x.size()` and `x.length()` all read as `LENGTH(x)`, and so
/// does the field `x.length`.
pub open spec fn is_length_call(callee: ExprV, args: Seq<ExprV>) -> bool {
    ||| (callee matches ExprV::Ident(n) && n == "len"@ && args.len() == 1)
    ||| (callee matches ExprV::Field { name, .. } && (name == "size"@ || name == "length"@)
        && args.len() == 0)
}

/// The pseudocode text of an expression.
pub open spec fn expr_text(e: ExprV) -> Seq<char>
    decreases e, 0nat,
{
    match e {
        ExprV::Literal(l) => literal_text(l),
        ExprV::Ident(n) => n,
        ExprV::Binary { op, lhs, rhs } => operand_text(*lhs) + " "@ + binop_text(op) + " "@
            + operand_text(*rhs),
        ExprV::Unary { op, expr } => unop_text(op) + expr_text(*expr),
        ExprV::Call { callee, args } => if (*callee matches ExprV::Ident(n) && n == "len"@
            && args.len() == 1) {
            "LENGTH("@ + expr_text(args[0]) + ")"@
        } else if (*callee matches ExprV::Field { name, .. } && (name == "size"@ || name
            == "length"@) && args.len() == 0) {
            "LENGTH("@ + expr_text(*callee->Field_obj) + ")"@
        } else {
            expr_text(*callee) + "("@ + join_exprs(args) + ")"@
        },
        ExprV::Index { obj, index } => expr_text(*obj) + "["@ + expr_text(*index) + "]"@,
        ExprV::Field { obj, name } => if name == "length"@ {
            "LENGTH("@ + expr_text(*obj) + ")"@
        } else {
            expr_text(*obj) + "."@ + name
        },
        ExprV::Tuple(items) => join_exprs(items),
        ExprV::Raw(t) => t,
    }
}

/// An operand of a binary operator: nested binary expressions are
/// parenthesised.
pub open spec fn operand_text(e: ExprV) -> Seq<char>
    decreases e, 1nat,
{
    if e is Binary {
        "("@ + expr_text(e) + ")"@
    } else {
        expr_text(e)
    }
}

/// Expressions separated by `, `.
pub open spec fn join_exprs(s: Seq<ExprV>) -> Seq<char>
    decreases s, 0nat,
{
    if s.len() == 0 {
        Seq::empty()
    } else if s.len() == 1 {
        expr_text(s[0])
    } else {
        join_exprs(s.drop_last()) + ", "@ + expr_text(s.last())
    }
}

pub fn render_binop(op: BinOp) -> (s: &'static str)
    ensures
        s@ == binop_text(op),
{
    match op {
        BinOp::Add => "+",
        BinOp::Sub => "-",
        BinOp::Mul => "*",
        BinOp::Div => "/",
        BinOp::IntDiv => "DIV",
        BinOp::Mod => "MOD",
        BinOp::Eq => "=",
        BinOp::Ne => "\u{2260}",
        BinOp::Lt => "<",
        BinOp::Le => "\u{2264}",
        BinOp::Gt => ">",
        BinOp::Ge => "\u{2265}",
        BinOp::And => "AND",
        BinOp::Or => "OR",
        BinOp::BitAnd => "&",
        BinOp::BitOr => "|",
        BinOp::BitXor => "^",
        BinOp::Shl => "<<",
        BinOp::Shr => ">>",
    }
}

pub fn render_unop(op: UnOp) -> (s: &'static str)
    ensures
        s@ == unop_text(op),
{
    match op {
        UnOp::Neg => "-",
        UnOp::Not => "NOT ",
        UnOp::BitNot => "~",
    }
}

pub fn render_literal(lit: &Literal) -> (s: String)
    ensures
        s@ == literal_text(lit@),
{
    match lit {
        Literal::Int(n) => i64_to_text(*n),
        Literal::Float(s) => s.clone(),
        Literal::Str(s) => {
            let mut out = String::from_str("\"");
            out.append(s.as_str());
            out.append("\"");
            out
        },
        Literal::Bool(b) => {
            if *b {
                String::from_str("TRUE")
            } else {
                String::from_str("FALSE")
            }
        },
        Literal::Nil => String::from_str("NIL"),
    }
}

/// Renders an expression in pseudocode notation.
pub fn render_expr(expr: &Expr) -> (s: String)
    ensures
        s@ == expr_text(expr@),
    decreases expr, 1nat,
{
    match expr {
        Expr::Literal(lit) => render_literal(lit),
        Expr::Ident(name) => name.clone(),
        Expr::Binary { op, lhs, rhs } => {
            let mut out = render_binary_operand(lhs);
            out.append(" ");
            out.append(render_binop(*op));
            out.append(" ");
            let r = render_binary_operand(rhs);
            out.append(r.as_str());
            out
        },
        Expr::Unary { op, expr: inner } => {
            let mut out = String::from_str(render_unop(*op));
            let r = render_expr(inner);
            out.append(r.as_str());
            out
        },
        Expr::Call { .. } => render_call(expr),
        Expr::Index { obj, index } => {
            let mut out = render_expr(obj);
            out.append("[");
            let r = render_expr(index);
            out.append(r.as_str());
            out.append("]");
            out
        },
        Expr::Field { obj, name } => {
            if str_eq(name.as_str(), "length") {
                proof {
                    reveal_strlit("length");
                }
                let mut out = String::from_str("LENGTH(");
                let r = render_expr(obj);
                out.append(r.as_str());
                out.append(")");
                return out;
            }
            let mut out = render_expr(obj);
            out.append(".");
            out.append(name.as_str());
            out
        },
        Expr::Tuple(items) => {
            proof {
                assert(expr@->Tuple_0 =~= exprs_view(items@));
            }
            render_joined(items)
        },
        Expr::Raw(text) => text.clone(),
    }
}

/// Renders an operand of a binary operator, parenthesising nested binary
/// expressions.
pub fn render_binary_operand(expr: &Expr) -> (s: String)
    ensures
        s@ == operand_text(expr@),
    decreases expr, 2nat,
{
    match expr {
        Expr::Binary { .. } => {
            let mut out = String::from_str("(");
            let r = render_expr(expr);
            out.append(r.as_str());
            out.append(")");
            out
        },
        _ => render_expr(expr),
    }
}

/// Renders expressions separated by `, `.
fn render_joined(items: &Vec<Expr>) -> (s: String)
    ensures
        s@ == join_exprs(exprs_view(items@)),
    decreases items, 0nat,
{
    let ghost v = exprs_view(items@);
    let mut out = String::new();
    let mut i: usize = 0;
    while i < items.len()
        invariant
            0 <= i <= items.len(),
            v == exprs_view(items@),
            out@ == join_exprs(v.take(i as int)),
        decreases items.len() - i,
    {
        proof {
            assert(decreases_to!(items@ => items@[i as int]));
        }
        let r = render_expr(&items[i]);
        if i > 0 {
            out.append(", ");
        }
        out.append(r.as_str());
        proof {
            assert(v.take(i + 1).drop_last() =~= v.take(i as int));
            if i == 0 {
                assert(v.take(1)[0] == v[0]);
            }
        }
        i = i + 1;
    }
    assert(v.take(items.len() as int) =~= v);
    out
}

/// Renders a call, reading `len(x)`, `x.size()` and `x.length()` as
/// `LENGTH(x)`.
fn render_call(call: &Expr) -> (s: String)
    requires
        call is Call,
    ensures
        s@ == expr_text(call@),
    decreases call, 0nat,
{
    match call {
        Expr::Call { callee, args } => {
            proof {
                assert(call@->args =~= exprs_view(args@));
            }
            match &**callee {
                Expr::Ident(name) => {
                    if args.len() == 1 && str_eq(name.as_str(), "len") {
                        proof {
                            assert(decreases_to!(args@ => args@[0]));
                            assert((**callee)@ == ExprV::Ident(name@));
                        }
                        let mut out = String::from_str("LENGTH(");
                        let r = render_expr(&args[0]);
                        out.append(r.as_str());
                        out.append(")");
                        return out;
                    }
                },
                Expr::Field { obj, name } => {
                    if args.len() == 0 && (str_eq(name.as_str(), "size") || str_eq(
                        name.as_str(),
                        "length",
                    )) {
                        proof {
                            assert((**callee)@ == ExprV::Field { obj: Box::new((**obj)@), name: name@ });
                        }
                        let mut out = String::from_str("LENGTH(");
                        let r = render_expr(obj);
                        out.append(r.as_str());
                        out.append(")");
                        return out;
                    }
                },
                _ => {},
            }
            let mut out = render_expr(callee);
            out.append("(");
            let r = render_joined(args);
            out.append(r.as_str());
            out.append(")");
            proof {
                assert(call@->args =~= exprs_view(args@));
            }
            out
        },
        _ => String::new(),
    }
}


// ---------------------------------------------------------------------------
// Operators keep their meaning from source to pseudocode
// ---------------------------------------------------------------------------

/// The pseudocode spelling of a source operator whose meaning is the same in
/// every source language: comparisons in mathematical notation, `%` as
/// `MOD`, `//` as `DIV`, the logical connectives as words; the others are
/// written as in the source.
pub open spec fn clrs_spelling(t: Seq<char>) -> Seq<char> {
    if t == "=="@ {
        "="@
    } else if t == "!="@ {
        "\u{2260}"@
    } else if t == "<="@ {
        "\u{2264}"@
    } else if t == ">="@ {
        "\u{2265}"@
    } else if t == "%"@ {
        "MOD"@
    } else if t == "//"@ {
        "DIV"@
    } else if t == "&&"@ || t == "and"@ {
        "AND"@
    } else if t == "||"@ || t == "or"@ {
        "OR"@
    } else {
        t
    }
}

/// The pseudocode spelling of a source unary operator: negation as `NOT `.
pub open spec fn clrs_unary_spelling(t: Seq<char>) -> Seq<char> {
    if t == "not"@ || t == "!"@ {
        "NOT "@
    } else {
        t
    }
}

/// Distinct operators are written differently.
pub proof fn lemma_binop_text_injective(a: BinOp, b: BinOp)
    ensures
        binop_text(a) == binop_text(b) ==> a == b,
{
    reveal_strlit("==");
    reveal_strlit("!=");
    reveal_strlit("<");
    reveal_strlit("<=");
    reveal_strlit(">");
    reveal_strlit(">=");
    reveal_strlit("+");
    reveal_strlit("-");
    reveal_strlit("*");
    reveal_strlit("/");
    reveal_strlit("//");
    reveal_strlit("%");
    reveal_strlit("&&");
    reveal_strlit("and");
    reveal_strlit("||");
    reveal_strlit("or");
    reveal_strlit("&");
    reveal_strlit("|");
    reveal_strlit("^");
    reveal_strlit("<<");
    reveal_strlit(">>");
    reveal_strlit("not");
    reveal_strlit("!");
    reveal_strlit("~");
    reveal_strlit("=");
    reveal_strlit("\u{2260}");
    reveal_strlit("\u{2264}");
    reveal_strlit("\u{2265}");
    reveal_strlit("DIV");
    reveal_strlit("MOD");
    reveal_strlit("AND");
    reveal_strlit("OR");
    reveal_strlit("NOT ");
    if binop_text(a) == binop_text(b) {
        assert(binop_text(a).len() == binop_text(b).len());
        match a {
            BinOp::Add => { assert(binop_text(a)[0] == binop_text(b)[0]); },
            BinOp::Sub => { assert(binop_text(a)[0] == binop_text(b)[0]); },
            BinOp::Mul => { assert(binop_text(a)[0] == binop_text(b)[0]); },
            BinOp::Div => { assert(binop_text(a)[0] == binop_text(b)[0]); },
            BinOp::IntDiv => { assert(binop_text(a)[0] == binop_text(b)[0]); },
            BinOp::Mod => { assert(binop_text(a)[0] == binop_text(b)[0]); },
            BinOp::Eq => { assert(binop_text(a)[0] == binop_text(b)[0]); },
            BinOp::Ne => { assert(binop_text(a)[0] == binop_text(b)[0]); },
            BinOp::Lt => { assert(binop_text(a)[0] == binop_text(b)[0]); },
            BinOp::Le => { assert(binop_text(a)[0] == binop_text(b)[0]); },
            BinOp::Gt => { assert(binop_text(a)[0] == binop_text(b)[0]); },
            BinOp::Ge => { assert(binop_text(a)[0] == binop_text(b)[0]); },
            BinOp::And => { assert(binop_text(a)[0] == binop_text(b)[0]); },
            BinOp::Or => { assert(binop_text(a)[0] == binop_text(b)[0]); },
            BinOp::BitAnd => { assert(binop_text(a)[0] == binop_text(b)[0]); },
            BinOp::BitOr => { assert(binop_text(a)[0] == binop_text(b)[0]); },
            BinOp::BitXor => { assert(binop_text(a)[0] == binop_text(b)[0]); },
            BinOp::Shl => { assert(binop_text(a)[1] == binop_text(b)[1]); },
            BinOp::Shr => { assert(binop_text(a)[1] == binop_text(b)[1]); },
        }
    }
}

/// Distinct unary operators are written differently.
pub proof fn lemma_unop_text_injective(a: UnOp, b: UnOp)
    ensures
        unop_text(a) == unop_text(b) ==> a == b,
{
    reveal_strlit("==");
    reveal_strlit("!=");
    reveal_strlit("<");
    reveal_strlit("<=");
    reveal_strlit(">");
    reveal_strlit(">=");
    reveal_strlit("+");
    reveal_strlit("-");
    reveal_strlit("*");
    reveal_strlit("/");
    reveal_strlit("//");
    reveal_strlit("%");
    reveal_strlit("&&");
    reveal_strlit("and");
    reveal_strlit("||");
    reveal_strlit("or");
    reveal_strlit("&");
    reveal_strlit("|");
    reveal_strlit("^");
    reveal_strlit("<<");
    reveal_strlit(">>");
    reveal_strlit("not");
    reveal_strlit("!");
    reveal_strlit("~");
    reveal_strlit("=");
    reveal_strlit("\u{2260}");
    reveal_strlit("\u{2264}");
    reveal_strlit("\u{2265}");
    reveal_strlit("DIV");
    reveal_strlit("MOD");
    reveal_strlit("AND");
    reveal_strlit("OR");
    reveal_strlit("NOT ");
    if unop_text(a) == unop_text(b) {
        assert(unop_text(a).len() == unop_text(b).len());
        assert(unop_text(a)[0] == unop_text(b)[0]);
    }
}

/// A Python operator read by the parser is written back in pseudocode with
/// the spelling its meaning calls for: `a >= b` becomes `a ≥ b`, `a != b`
/// becomes `a ≠ b`, `a // b` becomes `a DIV b`, and so on.
pub proof fn lemma_python_operators_keep_their_meaning(t: Seq<char>)
    ensures
        bin_op_spec(t) matches Some(op) ==> binop_text(op) == clrs_spelling(t),
        comparison_op_spec(t) matches Some(op) ==> binop_text(op) == clrs_spelling(t),
        un_op_spec(t) matches Some(op) ==> unop_text(op) == clrs_unary_spelling(t),
{
    reveal_strlit("==");
    reveal_strlit("!=");
    reveal_strlit("<");
    reveal_strlit("<=");
    reveal_strlit(">");
    reveal_strlit(">=");
    reveal_strlit("+");
    reveal_strlit("-");
    reveal_strlit("*");
    reveal_strlit("/");
    reveal_strlit("//");
    reveal_strlit("%");
    reveal_strlit("&&");
    reveal_strlit("and");
    reveal_strlit("||");
    reveal_strlit("or");
    reveal_strlit("&");
    reveal_strlit("|");
    reveal_strlit("^");
    reveal_strlit("<<");
    reveal_strlit(">>");
    reveal_strlit("not");
    reveal_strlit("!");
    reveal_strlit("~");
    reveal_strlit("=");
    reveal_strlit("\u{2260}");
    reveal_strlit("\u{2264}");
    reveal_strlit("\u{2265}");
    reveal_strlit("DIV");
    reveal_strlit("MOD");
    reveal_strlit("AND");
    reveal_strlit("OR");
    reveal_strlit("NOT ");
    assert("=="@ =~= seq!['=', '=']);
    assert("=="@.len() == 2 && "=="@[0] == '=' && "=="@[1] == '=');
    assert("!="@ =~= seq!['!', '=']);
    assert("!="@.len() == 2 && "!="@[0] == '!' && "!="@[1] == '=');
    assert("<"@ =~= seq!['<']);
    assert("<"@.len() == 1 && "<"@[0] == '<');
    assert("<="@ =~= seq!['<', '=']);
    assert("<="@.len() == 2 && "<="@[0] == '<' && "<="@[1] == '=');
    assert(">"@ =~= seq!['>']);
    assert(">"@.len() == 1 && ">"@[0] == '>');
    assert(">="@ =~= seq!['>', '=']);
    assert(">="@.len() == 2 && ">="@[0] == '>' && ">="@[1] == '=');
    assert("+"@ =~= seq!['+']);
    assert("+"@.len() == 1 && "+"@[0] == '+');
    assert("-"@ =~= seq!['-']);
    assert("-"@.len() == 1 && "-"@[0] == '-');
    assert("*"@ =~= seq!['*']);
    assert("*"@.len() == 1 && "*"@[0] == '*');
    assert("/"@ =~= seq!['/']);
    assert("/"@.len() == 1 && "/"@[0] == '/');
    assert("//"@ =~= seq!['/', '/']);
    assert("//"@.len() == 2 && "//"@[0] == '/' && "//"@[1] == '/');
    assert("%"@ =~= seq!['%']);
    assert("%"@.len() == 1 && "%"@[0] == '%');
    assert("&&"@ =~= seq!['&', '&']);
    assert("&&"@.len() == 2 && "&&"@[0] == '&' && "&&"@[1] == '&');
    assert("and"@ =~= seq!['a', 'n', 'd']);
    assert("and"@.len() == 3 && "and"@[0] == 'a' && "and"@[1] == 'n' && "and"@[2] == 'd');
    assert("||"@ =~= seq!['|', '|']);
    assert("||"@.len() == 2 && "||"@[0] == '|' && "||"@[1] == '|');
    assert("or"@ =~= seq!['o', 'r']);
    assert("or"@.len() == 2 && "or"@[0] == 'o' && "or"@[1] == 'r');
    assert("&"@ =~= seq!['&']);
    assert("&"@.len() == 1 && "&"@[0] == '&');
    assert("|"@ =~= seq!['|']);
    assert("|"@.len() == 1 && "|"@[0] == '|');
    assert("^"@ =~= seq!['^']);
    assert("^"@.len() == 1 && "^"@[0] == '^');
    assert("<<"@ =~= seq!['<', '<']);
    assert("<<"@.len() == 2 && "<<"@[0] == '<' && "<<"@[1] == '<');
    assert(">>"@ =~= seq!['>', '>']);
    assert(">>"@.len() == 2 && ">>"@[0] == '>' && ">>"@[1] == '>');
    assert("not"@ =~= seq!['n', 'o', 't']);
    assert("not"@.len() == 3 && "not"@[0] == 'n' && "not"@[1] == 'o' && "not"@[2] == 't');
    assert("!"@ =~= seq!['!']);
    assert("!"@.len() == 1 && "!"@[0] == '!');
    assert("~"@ =~= seq!['~']);
    assert("~"@.len() == 1 && "~"@[0] == '~');
    if t == "+"@ {
        assert(t =~= seq!['+']);
        assert(t.len() == 1 && t[0] == '+');
    } else if t == "-"@ {
        assert(t =~= seq!['-']);
        assert(t.len() == 1 && t[0] == '-');
    } else if t == "*"@ {
        assert(t =~= seq!['*']);
        assert(t.len() == 1 && t[0] == '*');
    } else if t == "/"@ {
        assert(t =~= seq!['/']);
        assert(t.len() == 1 && t[0] == '/');
    } else if t == "//"@ {
        assert(t =~= seq!['/', '/']);
        assert(t.len() == 2 && t[0] == '/' && t[1] == '/');
    } else if t == "%"@ {
        assert(t =~= seq!['%']);
        assert(t.len() == 1 && t[0] == '%');
    } else if t == "&&"@ {
        assert(t =~= seq!['&', '&']);
        assert(t.len() == 2 && t[0] == '&' && t[1] == '&');
    } else if t == "and"@ {
        assert(t =~= seq!['a', 'n', 'd']);
        assert(t.len() == 3 && t[0] == 'a' && t[1] == 'n' && t[2] == 'd');
    } else if t == "||"@ {
        assert(t =~= seq!['|', '|']);
        assert(t.len() == 2 && t[0] == '|' && t[1] == '|');
    } else if t == "or"@ {
        assert(t =~= seq!['o', 'r']);
        assert(t.len() == 2 && t[0] == 'o' && t[1] == 'r');
    } else if t == "&"@ {
        assert(t =~= seq!['&']);
        assert(t.len() == 1 && t[0] == '&');
    } else if t == "|"@ {
        assert(t =~= seq!['|']);
        assert(t.len() == 1 && t[0] == '|');
    } else if t == "^"@ {
        assert(t =~= seq!['^']);
        assert(t.len() == 1 && t[0] == '^');
    } else if t == "<<"@ {
        assert(t =~= seq!['<', '<']);
        assert(t.len() == 2 && t[0] == '<' && t[1] == '<');
    } else if t == ">>"@ {
        assert(t =~= seq!['>', '>']);
        assert(t.len() == 2 && t[0] == '>' && t[1] == '>');
    } else if t == "=="@ {
        assert(t =~= seq!['=', '=']);
        assert(t.len() == 2 && t[0] == '=' && t[1] == '=');
    } else if t == "!="@ {
        assert(t =~= seq!['!', '=']);
        assert(t.len() == 2 && t[0] == '!' && t[1] == '=');
    } else if t == "<"@ {
        assert(t =~= seq!['<']);
        assert(t.len() == 1 && t[0] == '<');
    } else if t == "<="@ {
        assert(t =~= seq!['<', '=']);
        assert(t.len() == 2 && t[0] == '<' && t[1] == '=');
    } else if t == ">"@ {
        assert(t =~= seq!['>']);
        assert(t.len() == 1 && t[0] == '>');
    } else if t == ">="@ {
        assert(t =~= seq!['>', '=']);
        assert(t.len() == 2 && t[0] == '>' && t[1] == '=');
    } else if t == "not"@ {
        assert(t =~= seq!['n', 'o', 't']);
        assert(t.len() == 3 && t[0] == 'n' && t[1] == 'o' && t[2] == 't');
    } else if t == "!"@ {
        assert(t =~= seq!['!']);
        assert(t.len() == 1 && t[0] == '!');
    } else if t == "~"@ {
        assert(t =~= seq!['~']);
        assert(t.len() == 1 && t[0] == '~');
    }
}

/// A Java, C++ or Go operator read by the parser is written back in
/// pseudocode with the spelling its meaning calls for; `/` between integers
/// of these languages is integer division, written `DIV`.
pub proof fn lemma_c_family_operators_keep_their_meaning(t: Seq<char>)
    ensures
        c_family_bin_op_spec(t) matches Some(op) ==> binop_text(op) == (if t == "/"@ {
            "DIV"@
        } else {
            clrs_spelling(t)
        }),
{
    reveal_strlit("==");
    reveal_strlit("!=");
    reveal_strlit("<");
    reveal_strlit("<=");
    reveal_strlit(">");
    reveal_strlit(">=");
    reveal_strlit("+");
    reveal_strlit("-");
    reveal_strlit("*");
    reveal_strlit("/");
    reveal_strlit("//");
    reveal_strlit("%");
    reveal_strlit("&&");
    reveal_strlit("and");
    reveal_strlit("||");
    reveal_strlit("or");
    reveal_strlit("&");
    reveal_strlit("|");
    reveal_strlit("^");
    reveal_strlit("<<");
    reveal_strlit(">>");
    reveal_strlit("not");
    reveal_strlit("!");
    reveal_strlit("~");
    reveal_strlit("=");
    reveal_strlit("\u{2260}");
    reveal_strlit("\u{2264}");
    reveal_strlit("\u{2265}");
    reveal_strlit("DIV");
    reveal_strlit("MOD");
    reveal_strlit("AND");
    reveal_strlit("OR");
    reveal_strlit("NOT ");
    assert("=="@ =~= seq!['=', '=']);
    assert("=="@.len() == 2 && "=="@[0] == '=' && "=="@[1] == '=');
    assert("!="@ =~= seq!['!', '=']);
    assert("!="@.len() == 2 && "!="@[0] == '!' && "!="@[1] == '=');
    assert("<"@ =~= seq!['<']);
    assert("<"@.len() == 1 && "<"@[0] == '<');
    assert("<="@ =~= seq!['<', '=']);
    assert("<="@.len() == 2 && "<="@[0] == '<' && "<="@[1] == '=');
    assert(">"@ =~= seq!['>']);
    assert(">"@.len() == 1 && ">"@[0] == '>');
    assert(">="@ =~= seq!['>', '=']);
    assert(">="@.len() == 2 && ">="@[0] == '>' && ">="@[1] == '=');
    assert("+"@ =~= seq!['+']);
    assert("+"@.len() == 1 && "+"@[0] == '+');
    assert("-"@ =~= seq!['-']);
    assert("-"@.len() == 1 && "-"@[0] == '-');
    assert("*"@ =~= seq!['*']);
    assert("*"@.len() == 1 && "*"@[0] == '*');
    assert("/"@ =~= seq!['/']);
    assert("/"@.len() == 1 && "/"@[0] == '/');
    assert("//"@ =~= seq!['/', '/']);
    assert("//"@.len() == 2 && "//"@[0] == '/' && "//"@[1] == '/');
    assert("%"@ =~= seq!['%']);
    assert("%"@.len() == 1 && "%"@[0] == '%');
    assert("&&"@ =~= seq!['&', '&']);
    assert("&&"@.len() == 2 && "&&"@[0] == '&' && "&&"@[1] == '&');
    assert("and"@ =~= seq!['a', 'n', 'd']);
    assert("and"@.len() == 3 && "and"@[0] == 'a' && "and"@[1] == 'n' && "and"@[2] == 'd');
    assert("||"@ =~= seq!['|', '|']);
    assert("||"@.len() == 2 && "||"@[0] == '|' && "||"@[1] == '|');
    assert("or"@ =~= seq!['o', 'r']);
    assert("or"@.len() == 2 && "or"@[0] == 'o' && "or"@[1] == 'r');
    assert("&"@ =~= seq!['&']);
    assert("&"@.len() == 1 && "&"@[0] == '&');
    assert("|"@ =~= seq!['|']);
    assert("|"@.len() == 1 && "|"@[0] == '|');
    assert("^"@ =~= seq!['^']);
    assert("^"@.len() == 1 && "^"@[0] == '^');
    assert("<<"@ =~= seq!['<', '<']);
    assert("<<"@.len() == 2 && "<<"@[0] == '<' && "<<"@[1] == '<');
    assert(">>"@ =~= seq!['>', '>']);
    assert(">>"@.len() == 2 && ">>"@[0] == '>' && ">>"@[1] == '>');
    assert("not"@ =~= seq!['n', 'o', 't']);
    assert("not"@.len() == 3 && "not"@[0] == 'n' && "not"@[1] == 'o' && "not"@[2] == 't');
    assert("!"@ =~= seq!['!']);
    assert("!"@.len() == 1 && "!"@[0] == '!');
    assert("~"@ =~= seq!['~']);
    assert("~"@.len() == 1 && "~"@[0] == '~');
    if t == "=="@ {
        assert(t =~= seq!['=', '=']);
        assert(t.len() == 2 && t[0] == '=' && t[1] == '=');
    } else if t == "!="@ {
        assert(t =~= seq!['!', '=']);
        assert(t.len() == 2 && t[0] == '!' && t[1] == '=');
    } else if t == "<"@ {
        assert(t =~= seq!['<']);
        assert(t.len() == 1 && t[0] == '<');
    } else if t == "<="@ {
        assert(t =~= seq!['<', '=']);
        assert(t.len() == 2 && t[0] == '<' && t[1] == '=');
    } else if t == ">"@ {
        assert(t =~= seq!['>']);
        assert(t.len() == 1 && t[0] == '>');
    } else if t == ">="@ {
        assert(t =~= seq!['>', '=']);
        assert(t.len() == 2 && t[0] == '>' && t[1] == '=');
    } else if t == "/"@ {
        assert(t =~= seq!['/']);
        assert(t.len() == 1 && t[0] == '/');
    } else if t == "+"@ {
        assert(t =~= seq!['+']);
        assert(t.len() == 1 && t[0] == '+');
    } else if t == "-"@ {
        assert(t =~= seq!['-']);
        assert(t.len() == 1 && t[0] == '-');
    } else if t == "*"@ {
        assert(t =~= seq!['*']);
        assert(t.len() == 1 && t[0] == '*');
    } else if t == "%"@ {
        assert(t =~= seq!['%']);
        assert(t.len() == 1 && t[0] == '%');
    } else if t == "&&"@ {
        assert(t =~= seq!['&', '&']);
        assert(t.len() == 2 && t[0] == '&' && t[1] == '&');
    } else if t == "||"@ {
        assert(t =~= seq!['|', '|']);
        assert(t.len() == 2 && t[0] == '|' && t[1] == '|');
    } else if t == "&"@ {
        assert(t =~= seq!['&']);
        assert(t.len() == 1 && t[0] == '&');
    } else if t == "|"@ {
        assert(t =~= seq!['|']);
        assert(t.len() == 1 && t[0] == '|');
    } else if t == "^"@ {
        assert(t =~= seq!['^']);
        assert(t.len() == 1 && t[0] == '^');
    } else if t == "<<"@ {
        assert(t =~= seq!['<', '<']);
        assert(t.len() == 2 && t[0] == '<' && t[1] == '<');
    } else if t == ">>"@ {
        assert(t =~= seq!['>', '>']);
        assert(t.len() == 2 && t[0] == '>' && t[1] == '>');
    }
}


/// Pseudocode keeps the parts of an expression in source order: an index
/// shows its object, then the bracket, then its index; a binary operation its
/// left operand, its operator and its right operand.
pub proof fn lemma_expr_text_keeps_order(e: ExprV)
    ensures
        e matches ExprV::Index { obj, index } ==> occur_in_order(
            expr_text(e),
            expr_text(*obj),
            "["@,
            expr_text(*index),
        ),
        e matches ExprV::Binary { op, lhs, rhs } ==> occur_in_order(
            expr_text(e),
            operand_text(*lhs),
            binop_text(op),
            operand_text(*rhs),
        ),
{
    let z = Seq::<char>::empty();
    match e {
        ExprV::Index { obj, index } => {
            lemma_pieces_in_order(z, expr_text(*obj), z, "["@, z, expr_text(*index), "]"@);
            assert(expr_text(e) =~= z + expr_text(*obj) + z + "["@ + z + expr_text(*index) + "]"@);
        },
        ExprV::Binary { op, lhs, rhs } => {
            lemma_pieces_in_order(z, operand_text(*lhs), " "@, binop_text(op), " "@, operand_text(*rhs), z);
            assert(expr_text(e) =~= z + operand_text(*lhs) + " "@ + binop_text(op) + " "@ + operand_text(*rhs) + z);
        },
        _ => {},
    }
}

} // verus!
