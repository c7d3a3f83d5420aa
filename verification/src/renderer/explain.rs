//! Natural-language explanation renderer (Chinese or English).
use crate::ir::{
    Block, Expr, ExprV, ForKind, ForKindV, Function, FunctionV, Item, ItemV, Module, ModuleV, Stmt,
    StmtV, VarDeclV, exprs_view, stmts_view,
};
use crate::renderer::expr::{expr_text, render_expr};
use crate::renderer::pseudo::param_names_text;
use crate::text::{
    ascii_lower_text, contains_text, lemma_pieces_in_order, lower_contains, occur_in_order, nat_decimal, newlines_to_spaces, push_decimal,
    str_eq, trim_to_one_line, trim_ws,
};
use crate::NaturalLang;
use vstd::prelude::*;

verus! {

#[derive(Debug)]
pub struct ExplainRenderer {
    pub lang: NaturalLang,
}

/// Two spaces per nesting level.
pub open spec fn step_indent(depth: nat) -> Seq<char> {
    Seq::new(2 * depth, |i: int| ' ')
}

pub open spec fn assign_sentence(lang: NaturalLang, target: ExprV, value: ExprV) -> Seq<char> {
    match lang {
        NaturalLang::Zh => "将 "@ + expr_text(target) + " 赋值为 "@ + expr_text(value),
        NaturalLang::En => "Assign "@ + expr_text(target) + " to "@ + expr_text(value),
    }
}

pub open spec fn declare_sentence(lang: NaturalLang, v: VarDeclV) -> Seq<char> {
    match v.init {
        Some(init) => match lang {
            NaturalLang::Zh => "声明 "@ + v.name + " 并赋值为 "@ + expr_text(init),
            NaturalLang::En => "Declare "@ + v.name + " and set it to "@ + expr_text(init),
        },
        None => match lang {
            NaturalLang::Zh => "声明 "@ + v.name,
            NaturalLang::En => "Declare "@ + v.name,
        },
    }
}

/// The sentence that heads a step, without its line break.
pub open spec fn simple_sentence(lang: NaturalLang, s: StmtV) -> Seq<char> {
    match s {
        StmtV::Assign { target, value } => assign_sentence(lang, target, value),
        StmtV::Return(e) => match (lang, e) {
            (NaturalLang::Zh, Some(v)) => "返回 "@ + expr_text(v),
            (NaturalLang::En, Some(v)) => "Return "@ + expr_text(v),
            (NaturalLang::Zh, None) => "返回"@,
            (NaturalLang::En, None) => "Return"@,
        },
        StmtV::Break => match lang {
            NaturalLang::Zh => "跳出循环"@,
            NaturalLang::En => "Break out of loop"@,
        },
        StmtV::Continue => match lang {
            NaturalLang::Zh => "继续下一次迭代"@,
            NaturalLang::En => "Continue to next iteration"@,
        },
        StmtV::ExprStmt(e) => expr_text(e),
        StmtV::Raw(_) => match lang {
            NaturalLang::Zh => "> 此处源代码未能结构化解析，已原样保留。"@,
            NaturalLang::En => "> Unparsed source preserved as-is."@,
        },
        StmtV::VarDecl(v) => declare_sentence(lang, v),
        StmtV::If { cond, .. } => match lang {
            NaturalLang::Zh => "如果 "@ + expr_text(cond) + "，则："@,
            NaturalLang::En => "If "@ + expr_text(cond) + ", then:"@,
        },
        StmtV::While { cond, .. } => match lang {
            NaturalLang::Zh => "当 "@ + expr_text(cond) + " 时重复以下步骤："@,
            NaturalLang::En => "While "@ + expr_text(cond) + ", repeat:"@,
        },
        StmtV::For { .. } => Seq::empty(),
    }
}

/// The explanation of one statement at nesting depth `depth` (what follows
/// the step number).
pub open spec fn stmt_explanation(lang: NaturalLang, s: StmtV, depth: nat) -> Seq<char>
    decreases s, 0nat,
{
    match s {
        StmtV::If { then_block, else_block, .. } => simple_sentence(lang, s) + "\n"@ + steps_text(
            lang,
            then_block,
            depth + 1,
        ) + match else_block {
            Some(b) => else_explanation(lang, b, depth),
            None => Seq::empty(),
        },
        StmtV::While { body, .. } => simple_sentence(lang, s) + "\n"@ + steps_text(
            lang,
            body,
            depth + 1,
        ),
        StmtV::For { kind, body } => for_header_explanation(lang, kind) + "\n"@ + steps_text(
            lang,
            body,
            depth + 1,
        ),
        _ => simple_sentence(lang, s) + "\n"@,
    }
}

/// Numbered steps, one per statement, at nesting depth `depth`.
pub open spec fn steps_text(lang: NaturalLang, b: Seq<StmtV>, depth: nat) -> Seq<char>
    decreases b, 0nat,
{
    if b.len() == 0 {
        Seq::empty()
    } else {
        steps_text(lang, b.drop_last(), depth) + step_indent(depth) + nat_decimal(b.len()) + ". "@
            + stmt_explanation(lang, b.last(), depth)
    }
}

/// The explanation of an else branch; a lone nested `if` reads as
/// "otherwise if".
pub open spec fn else_explanation(lang: NaturalLang, b: Seq<StmtV>, depth: nat) -> Seq<char>
    decreases b, 1nat,
{
    let indent = step_indent(depth);
    if b.len() == 1 && b[0] is If {
        indent + match lang {
            NaturalLang::Zh => "否则如果 "@ + expr_text(b[0]->If_cond) + "，则："@,
            NaturalLang::En => "Otherwise if "@ + expr_text(b[0]->If_cond) + ", then:"@,
        } + "\n"@ + steps_text(lang, b[0]->then_block, depth + 1) + match b[0]->else_block {
            Some(nested) => else_explanation(lang, nested, depth),
            None => Seq::empty(),
        }
    } else {
        indent + match lang {
            NaturalLang::Zh => "否则："@,
            NaturalLang::En => "Otherwise:"@,
        } + "\n"@ + steps_text(lang, b, depth + 1)
    }
}

/// The header of a loop.
pub open spec fn for_header_explanation(lang: NaturalLang, kind: ForKindV) -> Seq<char>
    decreases kind, 0nat,
{
    match kind {
        ForKindV::ForEach { var, iter } => match lang {
            NaturalLang::Zh => "对 "@ + expr_text(iter) + " 中的每个 "@ + var + "，重复以下步骤："@,
            NaturalLang::En => "For each "@ + var + " in "@ + expr_text(iter) + ", repeat:"@,
        },
        ForKindV::Range { var, start, end, step } => match lang {
            NaturalLang::Zh => "令 "@ + var + " 从 "@ + expr_text(start) + " 到 "@ + expr_text(end)
                + match step {
                Some(s) => "，步长为 "@ + expr_text(s),
                None => Seq::empty(),
            } + "，重复以下步骤："@,
            NaturalLang::En => "For "@ + var + " from "@ + expr_text(start) + " to "@ + expr_text(end)
                + match step {
                Some(s) => ", step "@ + expr_text(s),
                None => Seq::empty(),
            } + ", repeat:"@,
        },
        ForKindV::CStyle { init, cond, step } => match lang {
            NaturalLang::Zh => "按初始化 "@ + inline_explanation(lang, *init) + "、条件 "@ + expr_text(
                cond,
            ) + " 和步进 "@ + expr_text(step) + " 循环执行："@,
            NaturalLang::En => "Loop with init "@ + inline_explanation(lang, *init) + ", condition "@
                + expr_text(cond) + ", and step "@ + expr_text(step) + ", repeat:"@,
        },
    }
}

/// A statement explained on one line.
pub open spec fn inline_explanation(lang: NaturalLang, s: StmtV) -> Seq<char>
    decreases s, 1nat,
{
    match s {
        StmtV::Assign { target, value } => assign_sentence(lang, target, value),
        StmtV::VarDecl(v) => declare_sentence(lang, v),
        StmtV::ExprStmt(e) => expr_text(e),
        StmtV::Raw(t) => t,
        _ => newlines_to_spaces(trim_ws(stmt_explanation(lang, s, 0))),
    }
}

/// The explanation of a module: the steps of each function, in order.
pub open spec fn module_explanation(lang: NaturalLang, items: Seq<ItemV>) -> Seq<char>
    decreases items.len(),
{
    if items.len() == 0 {
        Seq::empty()
    } else {
        module_explanation(lang, items.drop_last()) + match items.last() {
            ItemV::Function(f) => steps_text(lang, f.body, 1),
            _ => Seq::empty(),
        }
    }
}

/// A module without functions has an empty explanation.
pub proof fn lemma_module_explanation_without_functions(lang: NaturalLang, items: Seq<ItemV>)
    requires
        forall|i: int| 0 <= i < items.len() ==> !(items[i] is Function),
    ensures
        module_explanation(lang, items) == Seq::<char>::empty(),
    decreases items.len(),
{
    if items.len() > 0 {
        lemma_module_explanation_without_functions(lang, items.drop_last());
        assert(!(items[items.len() - 1] is Function));
        assert(Seq::<char>::empty() + Seq::<char>::empty() =~= Seq::<char>::empty());
    }
}

// ---------------------------------------------------------------------------
// Purpose detection
// ---------------------------------------------------------------------------

pub open spec fn stmt_has_loop(s: StmtV) -> bool
    decreases s, 0nat,
{
    match s {
        StmtV::If { then_block, else_block, .. } => block_has_loop(then_block) || match else_block {
            Some(b) => block_has_loop(b),
            None => false,
        },
        StmtV::While { .. } => true,
        StmtV::For { .. } => true,
        _ => false,
    }
}

/// Some statement of the block, or of an `if` nested in it, is a loop.
pub open spec fn block_has_loop(b: Seq<StmtV>) -> bool
    decreases b, 0nat,
{
    b.len() > 0 && (block_has_loop(b.drop_last()) || stmt_has_loop(b.last()))
}

pub open spec fn expr_calls(e: ExprV, name: Seq<char>) -> bool
    decreases e, 1nat,
{
    match e {
        ExprV::Call { callee, args } => (*callee matches ExprV::Ident(n) && n == name)
            || exprs_call(args, name),
        ExprV::Binary { lhs, rhs, .. } => expr_calls(*lhs, name) || expr_calls(*rhs, name),
        ExprV::Unary { expr, .. } => expr_calls(*expr, name),
        ExprV::Tuple(items) => exprs_call(items, name),
        ExprV::Index { obj, index } => expr_calls(*obj, name) || expr_calls(*index, name),
        ExprV::Field { obj, .. } => expr_calls(*obj, name),
        _ => false,
    }
}

pub open spec fn exprs_call(s: Seq<ExprV>, name: Seq<char>) -> bool
    decreases s, 0nat,
{
    s.len() > 0 && (exprs_call(s.drop_last(), name) || expr_calls(s.last(), name))
}

pub open spec fn stmt_calls(s: StmtV, name: Seq<char>) -> bool
    decreases s, 0nat,
{
    match s {
        StmtV::Return(Some(e)) => expr_calls(e, name),
        StmtV::ExprStmt(e) => expr_calls(e, name),
        StmtV::Assign { value, .. } => expr_calls(value, name),
        StmtV::VarDecl(v) => match v.init {
            Some(e) => expr_calls(e, name),
            None => false,
        },
        StmtV::If { then_block, else_block, .. } => block_calls(then_block, name) || match else_block {
            Some(b) => block_calls(b, name),
            None => false,
        },
        StmtV::While { body, .. } => block_calls(body, name),
        StmtV::For { body, .. } => block_calls(body, name),
        _ => false,
    }
}

/// Some statement of the block calls the function `name` (looking into
/// nested blocks and sub-expressions).
pub open spec fn block_calls(b: Seq<StmtV>, name: Seq<char>) -> bool
    decreases b, 0nat,
{
    b.len() > 0 && (block_calls(b.drop_last(), name) || stmt_calls(b.last(), name))
}

pub open spec fn action_text(lang: NaturalLang, name: Seq<char>) -> Seq<char> {
    let lower = ascii_lower_text(name);
    if contains_text(lower, "search"@) || contains_text(lower, "find"@) {
        match lang {
            NaturalLang::Zh => "查找"@,
            NaturalLang::En => "search for"@,
        }
    } else if contains_text(lower, "sort"@) {
        match lang {
            NaturalLang::Zh => "排序"@,
            NaturalLang::En => "sort"@,
        }
    } else if contains_text(lower, "reverse"@) {
        match lang {
            NaturalLang::Zh => "反转"@,
            NaturalLang::En => "reverse"@,
        }
    } else {
        match lang {
            NaturalLang::Zh => "处理"@,
            NaturalLang::En => "process"@,
        }
    }
}

pub open spec fn method_text(lang: NaturalLang, f: FunctionV) -> Seq<char> {
    if block_calls(f.body, f.name) {
        match lang {
            NaturalLang::Zh => "（递归）"@,
            NaturalLang::En => " (recursively)"@,
        }
    } else if block_has_loop(f.body) {
        match lang {
            NaturalLang::Zh => "（迭代）"@,
            NaturalLang::En => " (iteratively)"@,
        }
    } else {
        Seq::empty()
    }
}

/// The one-line purpose of a function, guessed from its name and shape.
pub open spec fn purpose_text(lang: NaturalLang, f: FunctionV) -> Seq<char> {
    match lang {
        NaturalLang::Zh => action_text(lang, f.name) + "输入数据"@ + method_text(lang, f),
        NaturalLang::En => action_text(lang, f.name) + " the input"@ + method_text(lang, f),
    }
}

/// The full explanation of one function: header, purpose and steps.
pub open spec fn function_explanation(lang: NaturalLang, f: FunctionV) -> Seq<char> {
    match lang {
        NaturalLang::Zh => "函数 "@ + f.name + "("@ + param_names_text(f.params) + ")\n\n目的："@
            + purpose_text(lang, f) + "\n\n步骤：\n"@ + steps_text(lang, f.body, 1),
        NaturalLang::En => "Function "@ + f.name + "("@ + param_names_text(f.params)
            + ")\n\nPurpose: "@ + purpose_text(lang, f) + "\n\nSteps:\n"@ + steps_text(lang, f.body, 1),
    }
}


/// Two more spaces of indentation.
fn deeper(indent: &str, Ghost(depth): Ghost<nat>) -> (r: String)
    requires
        indent@ == step_indent(depth),
    ensures
        r@ == step_indent(depth + 1),
{
    let mut r = String::from_str(indent);
    proof {
        reveal_strlit("  ");
    }
    r.append("  ");
    assert(r@ =~= step_indent(depth + 1));
    r
}

/// Renders an expression in pseudocode notation (the notation explanations
/// quote expressions in).
pub fn expr_to_text(expr: &Expr) -> (s: String)
    ensures
        s@ == expr_text(expr@),
{
    render_expr(expr)
}

impl ExplainRenderer {
    pub fn new(lang: NaturalLang) -> (r: Self)
        ensures
            r.lang == lang,
    {
        Self { lang }
    }

    /// The numbered steps of every function of the module, in order.
    pub fn render_module(&self, module: &Module) -> (out: String)
        ensures
            out@ == module_explanation(self.lang, module@.items),
    {
        let ghost items = module@.items;
        let mut out = String::new();
        let mut i: usize = 0;
        while i < module.items.len()
            invariant
                0 <= i <= module.items.len(),
                items == module@.items,
                items.len() == module.items.len(),
                out@ == module_explanation(self.lang, items.take(i as int)),
            decreases module.items.len() - i,
        {
            match &module.items[i] {
                Item::Function(f) => {
                    proof {
                        reveal_strlit("  ");
                        assert("  "@ =~= step_indent(1));
                    }
                    let steps = self.render_steps(&f.body, "  ", Ghost(1));
                    out.append(steps.as_str());
                },
                _ => {},
            }
            proof {
                assert(items.take(i + 1).drop_last() =~= items.take(i as int));
            }
            i = i + 1;
        }
        assert(items.take(module.items.len() as int) =~= items);
        out
    }

    /// The full explanation of one function: a header with its signature,
    /// its purpose, and its numbered steps.
    pub fn render_function(&self, f: &Function) -> (out: String)
        ensures
            out@ == function_explanation(self.lang, f@),
    {
        let mut out = match self.lang {
            NaturalLang::Zh => String::from_str("函数 "),
            NaturalLang::En => String::from_str("Function "),
        };
        out.append(f.name.as_str());
        out.append("(");
        let ghost ps = f@.params;
        let ghost start = out@;
        let mut i: usize = 0;
        while i < f.params.len()
            invariant
                0 <= i <= f.params.len(),
                ps == f@.params,
                ps.len() == f.params.len(),
                out@ == start + param_names_text(ps.take(i as int)),
            decreases f.params.len() - i,
        {
            if i > 0 {
                out.append(", ");
            }
            out.append(f.params[i].name.as_str());
            proof {
                assert(ps.take(i + 1).drop_last() =~= ps.take(i as int));
            }
            i = i + 1;
        }
        assert(ps.take(f.params.len() as int) =~= ps);
        let purpose = self.detect_purpose(f);
        match self.lang {
            NaturalLang::Zh => out.append(")\n\n目的："),
            NaturalLang::En => out.append(")\n\nPurpose: "),
        }
        out.append(purpose.as_str());
        match self.lang {
            NaturalLang::Zh => out.append("\n\n步骤：\n"),
            NaturalLang::En => out.append("\n\nSteps:\n"),
        }
        proof {
            reveal_strlit("  ");
            assert("  "@ =~= step_indent(1));
        }
        let steps = self.render_steps(&f.body, "  ", Ghost(1));
        out.append(steps.as_str());
        out
    }

    fn render_steps(&self, block: &Block, indent: &str, Ghost(depth): Ghost<nat>) -> (out: String)
        requires
            indent@ == step_indent(depth),
        ensures
            out@ == steps_text(self.lang, block@, depth),
        decreases block, 0nat,
    {
        let ghost b = block@;
        let mut out = String::new();
        let mut i: usize = 0;
        while i < block.0.len()
            invariant
                0 <= i <= block.0.len(),
                b == block@,
                b == stmts_view(block.0@),
                indent@ == step_indent(depth),
                out@ == steps_text(self.lang, b.take(i as int), depth),
            decreases block.0.len() - i,
        {
            proof {
                assert(decreases_to!(block => block.0));
                assert(decreases_to!(block.0@ => block.0@[i as int]));
            }
            out.append(indent);
            push_decimal(&mut out, (i + 1) as u64);
            out.append(". ");
            self.explain_stmt(&block.0[i], indent, Ghost(depth), &mut out);
            proof {
                assert(b.take(i + 1).drop_last() =~= b.take(i as int));
            }
            i = i + 1;
        }
        assert(b.take(block.0.len() as int) =~= b);
        out
    }

    /// Appends the explanation of `stmt` at nesting depth `depth`.
    pub fn render_stmt(&self, stmt: &Stmt, depth: usize, out: &mut String)
        ensures
            final(out)@ == old(out)@ + stmt_explanation(self.lang, stmt@, depth as nat),
    {
        let mut indent = String::new();
        let mut d: usize = 0;
        proof {
            assert(indent@ =~= step_indent(0));
        }
        while d < depth
            invariant
                0 <= d <= depth,
                indent@ == step_indent(d as nat),
            decreases depth - d,
        {
            indent = deeper(indent.as_str(), Ghost(d as nat));
            d = d + 1;
        }
        self.explain_stmt(stmt, indent.as_str(), Ghost(depth as nat), out);
    }

    fn simple_sentence(&self, stmt: &Stmt) -> (s: String)
        requires
            !(stmt is For),
        ensures
            s@ == simple_sentence(self.lang, stmt@),
    {
        match stmt {
            Stmt::Assign { target, value } => self.assign_sentence(target, value),
            Stmt::Return(expr) => match (self.lang, expr) {
                (NaturalLang::Zh, Some(e)) => {
                    let mut s = String::from_str("返回 ");
                    s.append(expr_to_text(e).as_str());
                    s
                },
                (NaturalLang::En, Some(e)) => {
                    let mut s = String::from_str("Return ");
                    s.append(expr_to_text(e).as_str());
                    s
                },
                (NaturalLang::Zh, None) => String::from_str("返回"),
                (NaturalLang::En, None) => String::from_str("Return"),
            },
            Stmt::Break => match self.lang {
                NaturalLang::Zh => String::from_str("跳出循环"),
                NaturalLang::En => String::from_str("Break out of loop"),
            },
            Stmt::Continue => match self.lang {
                NaturalLang::Zh => String::from_str("继续下一次迭代"),
                NaturalLang::En => String::from_str("Continue to next iteration"),
            },
            Stmt::ExprStmt(e) => expr_to_text(e),
            Stmt::Raw(_) => match self.lang {
                NaturalLang::Zh => String::from_str("> 此处源代码未能结构化解析，已原样保留。"),
                NaturalLang::En => String::from_str("> Unparsed source preserved as-is."),
            },
            Stmt::VarDecl(var) => self.declare_sentence(var),
            Stmt::If { cond, .. } => match self.lang {
                NaturalLang::Zh => {
                    let mut s = String::from_str("如果 ");
                    s.append(expr_to_text(cond).as_str());
                    s.append("，则：");
                    s
                },
                NaturalLang::En => {
                    let mut s = String::from_str("If ");
                    s.append(expr_to_text(cond).as_str());
                    s.append(", then:");
                    s
                },
            },
            Stmt::While { cond, .. } => match self.lang {
                NaturalLang::Zh => {
                    let mut s = String::from_str("当 ");
                    s.append(expr_to_text(cond).as_str());
                    s.append(" 时重复以下步骤：");
                    s
                },
                NaturalLang::En => {
                    let mut s = String::from_str("While ");
                    s.append(expr_to_text(cond).as_str());
                    s.append(", repeat:");
                    s
                },
            },
            Stmt::For { .. } => String::new(),
        }
    }

    fn assign_sentence(&self, target: &Expr, value: &Expr) -> (s: String)
        ensures
            s@ == assign_sentence(self.lang, target@, value@),
    {
        match self.lang {
            NaturalLang::Zh => {
                let mut s = String::from_str("将 ");
                s.append(expr_to_text(target).as_str());
                s.append(" 赋值为 ");
                s.append(expr_to_text(value).as_str());
                s
            },
            NaturalLang::En => {
                let mut s = String::from_str("Assign ");
                s.append(expr_to_text(target).as_str());
                s.append(" to ");
                s.append(expr_to_text(value).as_str());
                s
            },
        }
    }

    fn declare_sentence(&self, var: &crate::ir::VarDecl) -> (s: String)
        ensures
            s@ == declare_sentence(self.lang, var@),
    {
        match &var.init {
            Some(init) => match self.lang {
                NaturalLang::Zh => {
                    let mut s = String::from_str("声明 ");
                    s.append(var.name.as_str());
                    s.append(" 并赋值为 ");
                    s.append(expr_to_text(init).as_str());
                    s
                },
                NaturalLang::En => {
                    let mut s = String::from_str("Declare ");
                    s.append(var.name.as_str());
                    s.append(" and set it to ");
                    s.append(expr_to_text(init).as_str());
                    s
                },
            },
            None => match self.lang {
                NaturalLang::Zh => {
                    let mut s = String::from_str("声明 ");
                    s.append(var.name.as_str());
                    s
                },
                NaturalLang::En => {
                    let mut s = String::from_str("Declare ");
                    s.append(var.name.as_str());
                    s
                },
            },
        }
    }

    #[verifier::rlimit(40)]
    fn explain_stmt(&self, stmt: &Stmt, indent: &str, Ghost(depth): Ghost<nat>, out: &mut String)
        requires
            indent@ == step_indent(depth),
        ensures
            final(out)@ == old(out)@ + stmt_explanation(self.lang, stmt@, depth),
        decreases stmt, 0nat,
    {
        match stmt {
            Stmt::If { then_block, else_block, .. } => {
                let line = self.simple_sentence(stmt);
                out.append(line.as_str());
                out.append("\n");
                let inner = deeper(indent, Ghost(depth));
                proof {
                    assert(then_block@ =~= stmt@->then_block);
                }
                let steps = self.render_steps(then_block, inner.as_str(), Ghost(depth + 1));
                out.append(steps.as_str());
                match else_block {
                    Some(b) => {
                        proof {
                            assert(b@ =~= stmt@->If_else_block->0);
                        }
                        self.render_else(b, indent, Ghost(depth), out);
                    },
                    None => {},
                }
            },
            Stmt::While { body, .. } => {
                let line = self.simple_sentence(stmt);
                out.append(line.as_str());
                out.append("\n");
                let inner = deeper(indent, Ghost(depth));
                proof {
                    assert(body@ =~= stmt@->While_body);
                }
                let steps = self.render_steps(body, inner.as_str(), Ghost(depth + 1));
                out.append(steps.as_str());
            },
            Stmt::For { kind, body } => {
                let line = self.render_for_header(kind);
                out.append(line.as_str());
                out.append("\n");
                let inner = deeper(indent, Ghost(depth));
                proof {
                    assert(body@ =~= stmt@->For_body);
                    assert(kind@ == stmt@->kind);
                }
                let steps = self.render_steps(body, inner.as_str(), Ghost(depth + 1));
                out.append(steps.as_str());
            },
            _ => {
                let line = self.simple_sentence(stmt);
                out.append(line.as_str());
                out.append("\n");
            },
        }
    }

    fn render_else(&self, else_block: &Block, indent: &str, Ghost(depth): Ghost<nat>, out: &mut String)
        requires
            indent@ == step_indent(depth),
        ensures
            final(out)@ == old(out)@ + else_explanation(self.lang, else_block@, depth),
        decreases else_block, 1nat,
    {
        let ghost b = else_block@;
        if else_block.0.len() == 1 {
            proof {
                assert(decreases_to!(else_block => else_block.0));
                assert(decreases_to!(else_block.0@ => else_block.0@[0]));
            }
            match &else_block.0[0] {
                Stmt::If { cond, then_block, else_block: nested_else } => {
                    out.append(indent);
                    match self.lang {
                        NaturalLang::Zh => {
                            out.append("否则如果 ");
                            out.append(expr_to_text(cond).as_str());
                            out.append("，则：");
                        },
                        NaturalLang::En => {
                            out.append("Otherwise if ");
                            out.append(expr_to_text(cond).as_str());
                            out.append(", then:");
                        },
                    }
                    out.append("\n");
                    let inner = deeper(indent, Ghost(depth));
                    proof {
                        assert(then_block@ =~= b[0]->then_block);
                    }
                    let steps = self.render_steps(then_block, inner.as_str(), Ghost(depth + 1));
                    out.append(steps.as_str());
                    match nested_else {
                        Some(nested) => {
                            proof {
                                assert(nested@ =~= b[0]->If_else_block->0);
                            }
                            self.render_else(nested, indent, Ghost(depth), out);
                        },
                        None => {},
                    }
                    return ;
                },
                _ => {},
            }
        }
        out.append(indent);
        match self.lang {
            NaturalLang::Zh => out.append("否则："),
            NaturalLang::En => out.append("Otherwise:"),
        }
        out.append("\n");
        let inner = deeper(indent, Ghost(depth));
        let steps = self.render_steps(else_block, inner.as_str(), Ghost(depth + 1));
        out.append(steps.as_str());
    }

    fn render_for_header(&self, kind: &ForKind) -> (s: String)
        ensures
            s@ == for_header_explanation(self.lang, kind@),
        decreases kind, 0nat,
    {
        match kind {
            ForKind::ForEach { var, iter } => match self.lang {
                NaturalLang::Zh => {
                    let mut s = String::from_str("对 ");
                    s.append(expr_to_text(iter).as_str());
                    s.append(" 中的每个 ");
                    s.append(var.as_str());
                    s.append("，重复以下步骤：");
                    s
                },
                NaturalLang::En => {
                    let mut s = String::from_str("For each ");
                    s.append(var.as_str());
                    s.append(" in ");
                    s.append(expr_to_text(iter).as_str());
                    s.append(", repeat:");
                    s
                },
            },
            ForKind::Range { var, start, end, step } => match self.lang {
                NaturalLang::Zh => {
                    let mut s = String::from_str("令 ");
                    s.append(var.as_str());
                    s.append(" 从 ");
                    s.append(expr_to_text(start).as_str());
                    s.append(" 到 ");
                    s.append(expr_to_text(end).as_str());
                    match step {
                        Some(st) => {
                            s.append("，步长为 ");
                            s.append(expr_to_text(st).as_str());
                        },
                        None => {},
                    }
                    s.append("，重复以下步骤：");
                    s
                },
                NaturalLang::En => {
                    let mut s = String::from_str("For ");
                    s.append(var.as_str());
                    s.append(" from ");
                    s.append(expr_to_text(start).as_str());
                    s.append(" to ");
                    s.append(expr_to_text(end).as_str());
                    match step {
                        Some(st) => {
                            s.append(", step ");
                            s.append(expr_to_text(st).as_str());
                        },
                        None => {},
                    }
                    s.append(", repeat:");
                    s
                },
            },
            ForKind::CStyle { init, cond, step } => {
                let init_text = self.render_stmt_inline(init);
                match self.lang {
                    NaturalLang::Zh => {
                        let mut s = String::from_str("按初始化 ");
                        s.append(init_text.as_str());
                        s.append("、条件 ");
                        s.append(expr_to_text(cond).as_str());
                        s.append(" 和步进 ");
                        s.append(expr_to_text(step).as_str());
                        s.append(" 循环执行：");
                        s
                    },
                    NaturalLang::En => {
                        let mut s = String::from_str("Loop with init ");
                        s.append(init_text.as_str());
                        s.append(", condition ");
                        s.append(expr_to_text(cond).as_str());
                        s.append(", and step ");
                        s.append(expr_to_text(step).as_str());
                        s.append(", repeat:");
                        s
                    },
                }
            },
        }
    }

    fn render_stmt_inline(&self, stmt: &Stmt) -> (s: String)
        ensures
            s@ == inline_explanation(self.lang, stmt@),
        decreases stmt, 1nat,
    {
        match stmt {
            Stmt::Assign { target, value } => self.assign_sentence(target, value),
            Stmt::VarDecl(var) => self.declare_sentence(var),
            Stmt::ExprStmt(e) => expr_to_text(e),
            Stmt::Raw(text) => text.clone(),
            _ => {
                let mut out = String::new();
                proof {
                    reveal_strlit("");
                    assert(""@ =~= step_indent(0));
                }
                self.explain_stmt(stmt, "", Ghost(0), &mut out);
                assert(out@ =~= stmt_explanation(self.lang, stmt@, 0));
                trim_to_one_line(out.as_str())
            },
        }
    }

    /// A one-line guess at what the function does, from its name, and at how
    /// (recursively, iteratively).
    pub fn detect_purpose(&self, f: &Function) -> (s: String)
        ensures
            s@ == purpose_text(self.lang, f@),
    {
        let name = f.name.as_str();
        let has_loop = self.has_loop(&f.body);
        let has_recursion = self.has_recursion(f);
        let mut s = if lower_contains(name, "search") || lower_contains(name, "find") {
            match self.lang {
                NaturalLang::Zh => String::from_str("查找"),
                NaturalLang::En => String::from_str("search for"),
            }
        } else if lower_contains(name, "sort") {
            match self.lang {
                NaturalLang::Zh => String::from_str("排序"),
                NaturalLang::En => String::from_str("sort"),
            }
        } else if lower_contains(name, "reverse") {
            match self.lang {
                NaturalLang::Zh => String::from_str("反转"),
                NaturalLang::En => String::from_str("reverse"),
            }
        } else {
            match self.lang {
                NaturalLang::Zh => String::from_str("处理"),
                NaturalLang::En => String::from_str("process"),
            }
        };
        match self.lang {
            NaturalLang::Zh => s.append("输入数据"),
            NaturalLang::En => s.append(" the input"),
        }
        if has_recursion {
            match self.lang {
                NaturalLang::Zh => s.append("（递归）"),
                NaturalLang::En => s.append(" (recursively)"),
            }
        } else if has_loop {
            match self.lang {
                NaturalLang::Zh => s.append("（迭代）"),
                NaturalLang::En => s.append(" (iteratively)"),
            }
        } else {
            assert(s@ + Seq::<char>::empty() =~= s@);
        }
        s
    }

    /// Whether the block holds a loop, directly or inside an `if`.
    pub fn has_loop(&self, block: &Block) -> (r: bool)
        ensures
            r == block_has_loop(block@),
        decreases block, 0nat,
    {
        let ghost b = block@;
        let mut i: usize = 0;
        while i < block.0.len()
            invariant
                0 <= i <= block.0.len(),
                b == block@,
                b == stmts_view(block.0@),
                !block_has_loop(b.take(i as int)),
            decreases block.0.len() - i,
        {
            proof {
                assert(decreases_to!(block => block.0));
                assert(decreases_to!(block.0@ => block.0@[i as int]));
                assert(b.take(i + 1).drop_last() =~= b.take(i as int));
            }
            if self.stmt_has_loop(&block.0[i]) {
                proof {
                    lemma_block_has_loop_prefix(b, i + 1);
                }
                return true;
            }
            i = i + 1;
        }
        assert(b.take(block.0.len() as int) =~= b);
        false
    }

    fn stmt_has_loop(&self, stmt: &Stmt) -> (r: bool)
        ensures
            r == stmt_has_loop(stmt@),
        decreases stmt, 0nat,
    {
        match stmt {
            Stmt::If { then_block, else_block, .. } => {
                proof {
                    assert(then_block@ =~= stmt@->then_block);
                }
                if self.has_loop(then_block) {
                    return true;
                }
                match else_block {
                    Some(b) => {
                        proof {
                            assert(b@ =~= stmt@->If_else_block->0);
                        }
                        self.has_loop(b)
                    },
                    None => false,
                }
            },
            Stmt::While { .. } | Stmt::For { .. } => true,
            _ => false,
        }
    }

    /// Whether the function calls itself somewhere in its body.
    pub fn has_recursion(&self, f: &Function) -> (r: bool)
        ensures
            r == block_calls(f@.body, f@.name),
    {
        self.block_calls_function(&f.body, f.name.as_str())
    }

    fn block_calls_function(&self, block: &Block, fname: &str) -> (r: bool)
        ensures
            r == block_calls(block@, fname@),
        decreases block, 0nat,
    {
        let ghost b = block@;
        let mut i: usize = 0;
        while i < block.0.len()
            invariant
                0 <= i <= block.0.len(),
                b == block@,
                b == stmts_view(block.0@),
                !block_calls(b.take(i as int), fname@),
            decreases block.0.len() - i,
        {
            proof {
                assert(decreases_to!(block => block.0));
                assert(decreases_to!(block.0@ => block.0@[i as int]));
                assert(b.take(i + 1).drop_last() =~= b.take(i as int));
            }
            if self.stmt_calls_function(&block.0[i], fname) {
                proof {
                    lemma_block_calls_prefix(b, i + 1, fname@);
                }
                return true;
            }
            i = i + 1;
        }
        assert(b.take(block.0.len() as int) =~= b);
        false
    }

    fn stmt_calls_function(&self, stmt: &Stmt, fname: &str) -> (r: bool)
        ensures
            r == stmt_calls(stmt@, fname@),
        decreases stmt, 0nat,
    {
        match stmt {
            Stmt::Return(Some(e)) | Stmt::ExprStmt(e) => self.expr_calls_function(e, fname),
            Stmt::Assign { value, .. } => self.expr_calls_function(value, fname),
            Stmt::VarDecl(v) => match &v.init {
                Some(e) => self.expr_calls_function(e, fname),
                None => false,
            },
            Stmt::If { then_block, else_block, .. } => {
                proof {
                    assert(then_block@ =~= stmt@->then_block);
                }
                if self.block_calls_function(then_block, fname) {
                    return true;
                }
                match else_block {
                    Some(b) => {
                        proof {
                            assert(b@ =~= stmt@->If_else_block->0);
                        }
                        self.block_calls_function(b, fname)
                    },
                    None => false,
                }
            },
            Stmt::While { body, .. } => {
                proof {
                    assert(body@ =~= stmt@->While_body);
                }
                self.block_calls_function(body, fname)
            },
            Stmt::For { body, .. } => {
                proof {
                    assert(body@ =~= stmt@->For_body);
                }
                self.block_calls_function(body, fname)
            },
            _ => false,
        }
    }

    fn exprs_call_function(&self, items: &Vec<Expr>, fname: &str) -> (r: bool)
        ensures
            r == exprs_call(exprs_view(items@), fname@),
        decreases items, 0nat,
    {
        let ghost v = exprs_view(items@);
        let mut i: usize = 0;
        while i < items.len()
            invariant
                0 <= i <= items.len(),
                v == exprs_view(items@),
                !exprs_call(v.take(i as int), fname@),
            decreases items.len() - i,
        {
            proof {
                assert(decreases_to!(items@ => items@[i as int]));
                assert(v.take(i + 1).drop_last() =~= v.take(i as int));
            }
            if self.expr_calls_function(&items[i], fname) {
                proof {
                    lemma_exprs_call_prefix(v, i + 1, fname@);
                }
                return true;
            }
            i = i + 1;
        }
        assert(v.take(items.len() as int) =~= v);
        false
    }

    fn expr_calls_function(&self, expr: &Expr, fname: &str) -> (r: bool)
        ensures
            r == expr_calls(expr@, fname@),
        decreases expr, 1nat,
    {
        match expr {
            Expr::Call { callee, args } => {
                proof {
                    assert(expr@->args =~= exprs_view(args@));
                }
                let direct = match &**callee {
                    Expr::Ident(name) => {
                        proof {
                            assert((**callee)@ == ExprV::Ident(name@));
                        }
                        str_eq(name.as_str(), fname)
                    },
                    _ => {
                        proof {
                            assert(!((**callee)@ is Ident));
                        }
                        false
                    },
                };
                direct || self.exprs_call_function(args, fname)
            },
            Expr::Binary { lhs, rhs, .. } => self.expr_calls_function(lhs, fname)
                || self.expr_calls_function(rhs, fname),
            Expr::Unary { expr: inner, .. } => self.expr_calls_function(inner, fname),
            Expr::Tuple(items) => {
                proof {
                    assert(expr@->Tuple_0 =~= exprs_view(items@));
                }
                self.exprs_call_function(items, fname)
            },
            Expr::Index { obj, index } => self.expr_calls_function(obj, fname)
                || self.expr_calls_function(index, fname),
            Expr::Field { obj, .. } => self.expr_calls_function(obj, fname),
            _ => false,
        }
    }
}

proof fn lemma_block_has_loop_prefix(b: Seq<StmtV>, k: int)
    requires
        0 < k <= b.len(),
        stmt_has_loop(b[k - 1]),
    ensures
        block_has_loop(b),
    decreases b.len() - k,
{
    if k < b.len() {
        lemma_block_has_loop_prefix(b.drop_last(), k);
    }
}

proof fn lemma_block_calls_prefix(b: Seq<StmtV>, k: int, name: Seq<char>)
    requires
        0 < k <= b.len(),
        stmt_calls(b[k - 1], name),
    ensures
        block_calls(b, name),
    decreases b.len() - k,
{
    if k < b.len() {
        lemma_block_calls_prefix(b.drop_last(), k, name);
    }
}

proof fn lemma_exprs_call_prefix(s: Seq<ExprV>, k: int, name: Seq<char>)
    requires
        0 < k <= s.len(),
        expr_calls(s[k - 1], name),
    ensures
        exprs_call(s, name),
    decreases s.len() - k,
{
    if k < s.len() {
        lemma_exprs_call_prefix(s.drop_last(), k, name);
    }
}


// ---------------------------------------------------------------------------
// Loop headers name every part of the loop
// ---------------------------------------------------------------------------

/// In both languages a loop header names every part of its loop, in the
/// loop's own order: a range loop its variable, start and end, and its step
/// after them when it has one; a for-each loop its variable and what it
/// runs over; a counted loop its initialisation, condition and step.
pub proof fn lemma_for_header_names_its_parts(lang: NaturalLang, kind: ForKindV)
    ensures
        kind matches ForKindV::Range { var, start, end, step } ==> {
            &&& occur_in_order(for_header_explanation(lang, kind), var, expr_text(start), expr_text(end))
            &&& step matches Some(s) ==> occur_in_order(
                for_header_explanation(lang, kind),
                expr_text(start),
                expr_text(end),
                expr_text(s),
            )
        },
        kind matches ForKindV::ForEach { var, iter } ==> contains_text(
            for_header_explanation(lang, kind),
            var,
        ) && contains_text(for_header_explanation(lang, kind), expr_text(iter)),
        kind matches ForKindV::CStyle { init, cond, step } ==> occur_in_order(
            for_header_explanation(lang, kind),
            inline_explanation(lang, *init),
            expr_text(cond),
            expr_text(step),
        ),
{
    let h = for_header_explanation(lang, kind);
    match kind {
        ForKindV::Range { var, start, end, step } => {
            let (a0, a1, a2, a3, a4) = match lang {
                NaturalLang::Zh => ("令 "@, " 从 "@, " 到 "@, "，步长为 "@, "，重复以下步骤："@),
                NaturalLang::En => ("For "@, " from "@, " to "@, ", step "@, ", repeat:"@),
            };
            let st = match step {
                Some(s) => a3 + expr_text(s),
                None => Seq::empty(),
            };
            assert(h =~= a0 + var + a1 + expr_text(start) + a2 + expr_text(end) + (st + a4));
            lemma_pieces_in_order(a0, var, a1, expr_text(start), a2, expr_text(end), st + a4);
            match step {
                Some(s) => {
                    lemma_pieces_in_order(
                        a0 + var + a1,
                        expr_text(start),
                        a2,
                        expr_text(end),
                        a3,
                        expr_text(s),
                        a4,
                    );
                    assert(h =~= a0 + var + a1 + expr_text(start) + a2 + expr_text(end) + a3
                        + expr_text(s) + a4);
                },
                None => {},
            }
        },
        ForKindV::ForEach { var, iter } => {
            let (a0, a1, a2) = match lang {
                NaturalLang::Zh => ("对 "@, " 中的每个 "@, "，重复以下步骤："@),
                NaturalLang::En => ("For each "@, " in "@, ", repeat:"@),
            };
            match lang {
                NaturalLang::Zh => {
                    lemma_pieces_in_order(a0, expr_text(iter), a1, var, a2, Seq::empty(), Seq::empty());
                    assert(h =~= a0 + expr_text(iter) + a1 + var + a2 + Seq::empty() + Seq::empty());
                },
                NaturalLang::En => {
                    lemma_pieces_in_order(a0, var, a1, expr_text(iter), a2, Seq::empty(), Seq::empty());
                    assert(h =~= a0 + var + a1 + expr_text(iter) + a2 + Seq::empty() + Seq::empty());
                },
            }
        },
        ForKindV::CStyle { init, cond, step } => {
            let (a0, a1, a2, a3) = match lang {
                NaturalLang::Zh => ("按初始化 "@, "、条件 "@, " 和步进 "@, " 循环执行："@),
                NaturalLang::En => ("Loop with init "@, ", condition "@, ", and step "@, ", repeat:"@),
            };
            lemma_pieces_in_order(a0, inline_explanation(lang, *init), a1, expr_text(cond), a2, expr_text(step), a3);
            assert(h =~= a0 + inline_explanation(lang, *init) + a1 + expr_text(cond) + a2 + expr_text(step) + a3);
        },
    }
}

} // verus!
