//! Pseudocode renderer (CLRS-style).
//!
//! Walks the IR and emits CLRS-style pseudocode: uppercase keywords, `←` for
//! assignment, `≤ ≥ ≠`, `DIV`, `MOD`, and `LENGTH(...)` for length-of
//! operations.
use crate::ir::{
    Block, Expr, ForKind, ForKindV, Function, FunctionV, Item, ItemV, Module, ModuleV, Param,
    ParamV, Stmt, StmtV, VarDecl, VarDeclV, stmts_view,
};
use crate::renderer::expr::{expr_text, render_expr};
use vstd::prelude::*;

verus! {

#[derive(Debug, Default, Clone, Copy)]
pub struct PseudoRenderer {
    pub indent_width: usize,
}

/// `n` spaces.
pub open spec fn spaces(n: nat) -> Seq<char> {
    Seq::new(n, |i: int| ' ')
}

/// The indentation of one nesting level: the configured width, or 4 when it
/// is 0.
pub open spec fn indent_unit(width: usize) -> nat {
    if width == 0 {
        4
    } else {
        width as nat
    }
}

/// The indentation of a line at nesting depth `depth`.
pub open spec fn indentation(depth: nat, unit: nat) -> Seq<char> {
    spaces(depth * unit)
}

pub open spec fn var_decl_text(v: VarDeclV) -> Seq<char> {
    match v.init {
        Some(init) => v.name + " \u{2190} "@ + expr_text(init),
        None => "DECLARE "@ + v.name,
    }
}

/// A statement written on one line (the initialiser of a C-style loop).
pub open spec fn inline_stmt_text(s: StmtV) -> Seq<char> {
    match s {
        StmtV::Assign { target, value } => expr_text(target) + " \u{2190} "@ + expr_text(value),
        StmtV::VarDecl(v) => var_decl_text(v),
        StmtV::ExprStmt(e) => expr_text(e),
        StmtV::Raw(t) => t,
        _ => "<unsupported stmt>"@,
    }
}

pub open spec fn for_header_text(kind: ForKindV) -> Seq<char> {
    match kind {
        ForKindV::ForEach { var, iter } => "FOR EACH "@ + var + " IN "@ + expr_text(iter),
        ForKindV::Range { var, start, end, step } => "FOR "@ + var + " \u{2190} "@ + expr_text(start)
            + " TO "@ + expr_text(end) + " - 1"@ + match step {
            Some(s) => " STEP "@ + expr_text(s),
            None => Seq::empty(),
        },
        ForKindV::CStyle { init, cond, step } => "FOR "@ + inline_stmt_text(*init) + "; "@
            + expr_text(cond) + "; "@ + expr_text(step),
    }
}

/// The pseudocode lines of one statement at nesting depth `depth`.
pub open spec fn stmt_lines(s: StmtV, depth: nat, unit: nat) -> Seq<char>
    decreases s, 0nat,
{
    let p = indentation(depth, unit);
    match s {
        StmtV::Assign { target, value } => p + expr_text(target) + " \u{2190} "@ + expr_text(value)
            + "\n"@,
        StmtV::While { cond, body } => p + "WHILE "@ + expr_text(cond) + "\n"@ + block_lines(
            body,
            depth + 1,
            unit,
        ) + p + "END WHILE\n"@,
        StmtV::If { cond, then_block, else_block } => p + "IF "@ + expr_text(cond) + " THEN\n"@
            + block_lines(then_block, depth + 1, unit) + match else_block {
            Some(b) => else_lines(b, depth, unit),
            None => Seq::empty(),
        } + p + "END IF\n"@,
        StmtV::Return(e) => match e {
            Some(v) => p + "RETURN "@ + expr_text(v) + "\n"@,
            None => p + "RETURN\n"@,
        },
        StmtV::For { kind, body } => p + for_header_text(kind) + "\n"@ + block_lines(
            body,
            depth + 1,
            unit,
        ) + p + "END FOR\n"@,
        StmtV::Break => p + "BREAK\n"@,
        StmtV::Continue => p + "CONTINUE\n"@,
        StmtV::ExprStmt(e) => p + expr_text(e) + "\n"@,
        StmtV::Raw(t) => p + t + " // <unparsed>\n"@,
        StmtV::VarDecl(v) => p + var_decl_text(v) + "\n"@,
    }
}

/// The lines of a block: its statements' lines in order.
pub open spec fn block_lines(b: Seq<StmtV>, depth: nat, unit: nat) -> Seq<char>
    decreases b, 0nat,
{
    if b.len() == 0 {
        Seq::empty()
    } else {
        block_lines(b.drop_last(), depth, unit) + stmt_lines(b.last(), depth, unit)
    }
}

/// The lines of an else branch. An else block that holds exactly one `if`
/// (the shape `elif` / `else if` produce) reads as `ELSE IF`.
pub open spec fn else_lines(b: Seq<StmtV>, depth: nat, unit: nat) -> Seq<char>
    decreases b, 1nat,
{
    let p = indentation(depth, unit);
    if b.len() == 1 && b[0] is If {
        p + "ELSE IF "@ + expr_text(b[0]->If_cond) + " THEN\n"@ + block_lines(
            b[0]->then_block,
            depth + 1,
            unit,
        ) + match b[0]->else_block {
            Some(nested) => else_lines(nested, depth, unit),
            None => Seq::empty(),
        }
    } else {
        p + "ELSE\n"@ + block_lines(b, depth + 1, unit)
    }
}

/// Parameter names separated by `, `.
pub open spec fn param_names_text(ps: Seq<ParamV>) -> Seq<char>
    decreases ps.len(),
{
    if ps.len() == 0 {
        Seq::empty()
    } else if ps.len() == 1 {
        ps[0].name
    } else {
        param_names_text(ps.drop_last()) + ", "@ + ps.last().name
    }
}

/// The pseudocode of a function: header, body at depth 1, footer.
pub open spec fn function_text(f: FunctionV, unit: nat) -> Seq<char> {
    "FUNCTION "@ + f.name + "("@ + param_names_text(f.params) + ")\n"@ + block_lines(f.body, 1, unit)
        + "END FUNCTION\n"@
}

/// What a module item contributes: functions are rendered, raw items are
/// copied (ending with a newline), classes, imports and globals contribute
/// nothing.
pub open spec fn item_text(item: ItemV, unit: nat) -> Seq<char> {
    match item {
        ItemV::Function(f) => function_text(f, unit),
        ItemV::Raw(t) => if t.len() > 0 && t.last() == '\n' {
            t
        } else {
            t + "\n"@
        },
        _ => Seq::empty(),
    }
}

pub open spec fn items_text(items: Seq<ItemV>, unit: nat) -> Seq<char>
    decreases items.len(),
{
    if items.len() == 0 {
        Seq::empty()
    } else {
        items_text(items.drop_last(), unit) + item_text(items.last(), unit)
    }
}

/// The pseudocode of a module: its items' texts in order.
pub open spec fn module_text(m: ModuleV, unit: nat) -> Seq<char> {
    items_text(m.items, unit)
}

/// The pseudocode of consecutive items is the pseudocode of the first ones
/// followed by that of the rest.
pub proof fn lemma_items_text_append(a: Seq<ItemV>, b: Seq<ItemV>, unit: nat)
    ensures
        items_text(a + b, unit) == items_text(a, unit) + items_text(b, unit),
    decreases b.len(),
{
    if b.len() == 0 {
        assert(a + b =~= a);
        assert(items_text(a, unit) + Seq::<char>::empty() =~= items_text(a, unit));
    } else {
        assert((a + b).drop_last() =~= a + b.drop_last());
        assert((a + b).last() == b.last());
        lemma_items_text_append(a, b.drop_last(), unit);
        assert(items_text(a, unit) + items_text(b.drop_last(), unit) + item_text(b.last(), unit)
            =~= items_text(a, unit) + (items_text(b.drop_last(), unit) + item_text(b.last(), unit)));
    }
}

/// The pseudocode of a module depends on its items alone, not on the
/// language the module was parsed from: inputs in different languages that
/// parse to the same items render the same.
pub proof fn lemma_module_text_language_independent(m1: ModuleV, m2: ModuleV, unit: nat)
    requires
        m1.items == m2.items,
    ensures
        module_text(m1, unit) == module_text(m2, unit),
{
}

impl PseudoRenderer {
    pub fn new() -> (r: Self)
        ensures
            r.indent_width == 4,
    {
        Self { indent_width: 4 }
    }

    pub fn render_module(&self, module: &Module) -> (out: String)
        ensures
            out@ == module_text(module@, indent_unit(self.indent_width)),
    {
        let ghost unit = indent_unit(self.indent_width);
        let ghost items = module@.items;
        let mut out = String::new();
        let mut i: usize = 0;
        while i < module.items.len()
            invariant
                0 <= i <= module.items.len(),
                unit == indent_unit(self.indent_width),
                items == module@.items,
                items.len() == module.items.len(),
                out@ == items_text(items.take(i as int), unit),
            decreases module.items.len() - i,
        {
            self.render_item(&module.items[i], &mut out);
            proof {
                assert(items.take(i + 1).drop_last() =~= items.take(i as int));
            }
            i = i + 1;
        }
        assert(items.take(module.items.len() as int) =~= items);
        out
    }

    /// Renders a single function as pseudocode.
    pub fn render_function(&self, f: &Function) -> (out: String)
        ensures
            out@ == function_text(f@, indent_unit(self.indent_width)),
    {
        let mut out = String::new();
        self.render_function_into(f, &mut out);
        out
    }

    fn indent_step(&self) -> (n: usize)
        ensures
            n == indent_unit(self.indent_width),
    {
        if self.indent_width == 0 {
            4
        } else {
            self.indent_width
        }
    }

    fn render_item(&self, item: &Item, out: &mut String)
        ensures
            final(out)@ == old(out)@ + item_text(item@, indent_unit(self.indent_width)),
    {
        match item {
            Item::Function(f) => self.render_function_into(f, out),
            Item::Class(_) | Item::Import(_) | Item::GlobalVar(_) => {
                assert(old(out)@ + Seq::<char>::empty() =~= old(out)@);
            },
            Item::Raw(text) => {
                out.append(text.as_str());
                let n = text.unicode_len();
                if !(n > 0 && text.as_str().get_char(n - 1) == '\n') {
                    out.append("\n");
                }
            },
        }
    }

    fn render_function_into(&self, f: &Function, out: &mut String)
        ensures
            final(out)@ == old(out)@ + function_text(f@, indent_unit(self.indent_width)),
    {
        let ghost start = out@;
        out.append("FUNCTION ");
        out.append(f.name.as_str());
        out.append("(");
        let ghost ps = f@.params;
        let mut i: usize = 0;
        while i < f.params.len()
            invariant
                0 <= i <= f.params.len(),
                ps == f@.params,
                ps.len() == f.params.len(),
                out@ == start + "FUNCTION "@ + f.name@ + "("@ + param_names_text(ps.take(i as int)),
            decreases f.params.len() - i,
        {
            if i > 0 {
                out.append(", ");
            }
            out.append(f.params[i].name.as_str());
            proof {
                assert(ps.take(i + 1).drop_last() =~= ps.take(i as int));
            }
            i = i + 1;
        }
        assert(ps.take(f.params.len() as int) =~= ps);
        out.append(")\n");
        proof {
            reveal_strlit("");
            assert(""@ =~= indentation(0, indent_unit(self.indent_width)));
        }
        let inner = self.pad("", Ghost(0));
        self.render_block(&f.body, inner.as_str(), Ghost(1), out);
        out.append("END FUNCTION\n");
    }

    fn render_block(&self, block: &Block, pad: &str, Ghost(depth): Ghost<nat>, out: &mut String)
        requires
            pad@ == indentation(depth, indent_unit(self.indent_width)),
        ensures
            final(out)@ == old(out)@ + block_lines(block@, depth, indent_unit(self.indent_width)),
        decreases block, 0nat,
    {
        let ghost unit = indent_unit(self.indent_width);
        let ghost b = block@;
        let ghost start = out@;
        let mut i: usize = 0;
        while i < block.0.len()
            invariant
                0 <= i <= block.0.len(),
                b == block@,
                b == stmts_view(block.0@),
                unit == indent_unit(self.indent_width),
                pad@ == indentation(depth, unit),
                out@ == start + block_lines(b.take(i as int), depth, unit),
            decreases block.0.len() - i,
        {
            proof {
                assert(decreases_to!(block => block.0));
                assert(decreases_to!(block.0@ => block.0@[i as int]));
            }
            self.render_stmt(&block.0[i], pad, Ghost(depth), out);
            proof {
                assert(b.take(i + 1).drop_last() =~= b.take(i as int));
            }
            i = i + 1;
        }
        assert(b.take(block.0.len() as int) =~= b);
    }

    /// The indentation of the next nesting level below `pad`.
    fn pad(&self, pad: &str, Ghost(depth): Ghost<nat>) -> (s: String)
        requires
            pad@ == indentation(depth, indent_unit(self.indent_width)),
        ensures
            s@ == indentation(depth + 1, indent_unit(self.indent_width)),
    {
        let step = self.indent_step();
        let mut s = String::from_str(pad);
        let mut k: usize = 0;
        while k < step
            invariant
                0 <= k <= step,
                step == indent_unit(self.indent_width),
                s@ == spaces((depth * step + k) as nat),
            decreases step - k,
        {
            proof {
                reveal_strlit(" ");
            }
            s.append(" ");
            assert(s@ =~= spaces((depth * step + k + 1) as nat));
            k = k + 1;
        }
        assert(depth * step + step == (depth + 1) * step) by (nonlinear_arith);
        s
    }

    #[verifier::rlimit(60)]
    #[verifier::spinoff_prover]
    fn render_stmt(&self, stmt: &Stmt, pad: &str, Ghost(depth): Ghost<nat>, out: &mut String)
        requires
            pad@ == indentation(depth, indent_unit(self.indent_width)),
        ensures
            final(out)@ == old(out)@ + stmt_lines(stmt@, depth, indent_unit(self.indent_width)),
        decreases stmt, 0nat,
    {
        let ghost unit = indent_unit(self.indent_width);
        let ghost p = pad@;
        let ghost start = out@;
        match stmt {
            Stmt::Assign { target, value } => {
                out.append(pad);
                out.append(render_expr(target).as_str());
                out.append(" \u{2190} ");
                out.append(render_expr(value).as_str());
                out.append("\n");
            },
            Stmt::While { cond, body } => {
                out.append(pad);
                out.append("WHILE ");
                out.append(render_expr(cond).as_str());
                out.append("\n");
                proof {
                    assert(body@ =~= stmt@->While_body);
                }
                let inner = self.pad(pad, Ghost(depth));
                self.render_block(body, inner.as_str(), Ghost(depth + 1), out);
                out.append(pad);
                out.append("END WHILE\n");
            },
            Stmt::If { cond, then_block, else_block } => {
                out.append(pad);
                out.append("IF ");
                out.append(render_expr(cond).as_str());
                out.append(" THEN\n");
                proof {
                    assert(then_block@ =~= stmt@->then_block);
                }
                let inner = self.pad(pad, Ghost(depth));
                    self.render_block(then_block, inner.as_str(), Ghost(depth + 1), out);
                let ghost mid = out@;
                match else_block {
                    Some(else_blk) => {
                        proof {
                            assert(else_blk@ =~= stmt@->If_else_block->0);
                        }
                        self.render_else(else_blk, pad, Ghost(depth), out);
                    },
                    None => {},
                }
                out.append(pad);
                out.append("END IF\n");
            },
            Stmt::Return(expr) => {
                match expr {
                    Some(e) => {
                        out.append(pad);
                        out.append("RETURN ");
                        out.append(render_expr(e).as_str());
                        out.append("\n");
                    },
                    None => {
                        out.append(pad);
                        out.append("RETURN\n");
                    },
                }
            },
            Stmt::For { kind, body } => {
                out.append(pad);
                out.append(render_for_header(kind).as_str());
                out.append("\n");
                proof {
                    assert(body@ =~= stmt@->For_body);
                    assert(kind@ == stmt@->kind);
                }
                let inner = self.pad(pad, Ghost(depth));
                self.render_block(body, inner.as_str(), Ghost(depth + 1), out);
                out.append(pad);
                out.append("END FOR\n");
            },
            Stmt::Break => {
                out.append(pad);
                out.append("BREAK\n");
            },
            Stmt::Continue => {
                out.append(pad);
                out.append("CONTINUE\n");
            },
            Stmt::ExprStmt(e) => {
                out.append(pad);
                out.append(render_expr(e).as_str());
                out.append("\n");
            },
            Stmt::Raw(text) => {
                out.append(pad);
                out.append(text.as_str());
                out.append(" // <unparsed>\n");
            },
            Stmt::VarDecl(var) => {
                out.append(pad);
                out.append(render_var_decl(var).as_str());
                out.append("\n");
            },
        }
    }

    fn render_else(&self, else_block: &Block, pad: &str, Ghost(depth): Ghost<nat>, out: &mut String)
        requires
            pad@ == indentation(depth, indent_unit(self.indent_width)),
        ensures
            final(out)@ == old(out)@ + else_lines(else_block@, depth, indent_unit(self.indent_width)),
        decreases else_block, 1nat,
    {
        let ghost b = else_block@;
        if else_block.0.len() == 1 {
            proof {
                assert(decreases_to!(else_block => else_block.0));
                assert(decreases_to!(else_block.0@ => else_block.0@[0]));
            }
            match &else_block.0[0] {
                Stmt::If { cond, then_block, else_block: nested_else } => {
                    out.append(pad);
                    out.append("ELSE IF ");
                    out.append(render_expr(cond).as_str());
                    out.append(" THEN\n");
                    proof {
                        assert(then_block@ =~= b[0]->then_block);
                    }
                    let inner = self.pad(pad, Ghost(depth));
                    self.render_block(then_block, inner.as_str(), Ghost(depth + 1), out);
                    match nested_else {
                        Some(nested) => {
                            proof {
                                assert(nested@ =~= b[0]->If_else_block->0);
                            }
                            self.render_else(nested, pad, Ghost(depth), out);
                        },
                        None => {},
                    }
                    return ;
                },
                _ => {},
            }
        }
        out.append(pad);
        out.append("ELSE\n");
        let inner = self.pad(pad, Ghost(depth));
        self.render_block(else_block, inner.as_str(), Ghost(depth + 1), out);
    }
}

fn render_for_header(kind: &ForKind) -> (s: String)
    ensures
        s@ == for_header_text(kind@),
{
    match kind {
        ForKind::ForEach { var, iter } => {
            let mut s = String::from_str("FOR EACH ");
            s.append(var.as_str());
            s.append(" IN ");
            s.append(render_expr(iter).as_str());
            s
        },
        ForKind::Range { var, start, end, step } => {
            let mut header = String::from_str("FOR ");
            header.append(var.as_str());
            header.append(" \u{2190} ");
            header.append(render_expr(start).as_str());
            header.append(" TO ");
            header.append(render_expr(end).as_str());
            header.append(" - 1");
            match step {
                Some(step) => {
                    header.append(" STEP ");
                    header.append(render_expr(step).as_str());
                },
                None => {},
            }
            header
        },
        ForKind::CStyle { init, cond, step } => {
            let mut s = String::from_str("FOR ");
            s.append(render_inline_stmt(init).as_str());
            s.append("; ");
            s.append(render_expr(cond).as_str());
            s.append("; ");
            s.append(render_expr(step).as_str());
            s
        },
    }
}

fn render_inline_stmt(stmt: &Stmt) -> (s: String)
    ensures
        s@ == inline_stmt_text(stmt@),
{
    match stmt {
        Stmt::Assign { target, value } => {
            let mut s = render_expr(target);
            s.append(" \u{2190} ");
            s.append(render_expr(value).as_str());
            s
        },
        Stmt::VarDecl(var) => render_var_decl(var),
        Stmt::ExprStmt(expr) => render_expr(expr),
        Stmt::Raw(text) => text.clone(),
        _ => String::from_str("<unsupported stmt>"),
    }
}

fn render_var_decl(var: &VarDecl) -> (s: String)
    ensures
        s@ == var_decl_text(var@),
{
    match &var.init {
        Some(init) => {
            let mut s = var.name.clone();
            s.append(" \u{2190} ");
            s.append(render_expr(init).as_str());
            s
        },
        None => {
            let mut s = String::from_str("DECLARE ");
            s.append(var.name.as_str());
            s
        },
    }
}

} // verus!
