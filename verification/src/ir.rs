//! Language-neutral intermediate representation.
//!
//! The IR keeps control flow and data flow, drops language-specific syntax
//! noise, and preserves unparsed fragments as `Raw` text. Every executable IR
//! type has a mathematical view (the `...V` types) in which text is a
//! `Seq<char>` and lists are `Seq`s; contracts are stated over these views.
use crate::SourceLang;
use vstd::prelude::*;

verus! {

#[derive(Debug, Clone, Copy, PartialEq, Eq, Default)]
pub struct Span {
    pub start: usize,
    pub end: usize,
}

#[derive(Debug, PartialEq, Eq)]
pub struct Module {
    pub source_language: SourceLang,
    pub items: Vec<Item>,
}

#[derive(Debug, PartialEq, Eq)]
pub enum Item {
    Function(Function),
    Class(Class),
    Import(Import),
    GlobalVar(VarDecl),
    Raw(String),
}

#[derive(Debug, PartialEq, Eq)]
pub struct Function {
    pub name: String,
    pub params: Vec<Param>,
    pub return_type: Option<TypeHint>,
    pub body: Block,
    pub span: Span,
}

#[derive(Debug, PartialEq, Eq)]
pub struct Class {
    pub name: String,
    pub parents: Vec<String>,
    pub fields: Vec<VarDecl>,
    pub methods: Vec<Function>,
    pub span: Span,
}

#[derive(Debug, PartialEq, Eq)]
pub struct Import {
    pub raw: String,
}

#[derive(Debug, PartialEq, Eq)]
pub struct Param {
    pub name: String,
    pub type_hint: Option<TypeHint>,
}

#[derive(Debug, PartialEq, Eq)]
pub struct TypeHint(pub String);

#[derive(Debug, PartialEq, Eq)]
pub struct VarDecl {
    pub name: String,
    pub type_hint: Option<TypeHint>,
    pub init: Option<Expr>,
}

#[derive(Debug, PartialEq, Eq, Default)]
pub struct Block(pub Vec<Stmt>);

#[derive(Debug, PartialEq, Eq)]
pub enum Stmt {
    Assign { target: Expr, value: Expr },
    VarDecl(VarDecl),
    If { cond: Expr, then_block: Block, else_block: Option<Block> },
    While { cond: Expr, body: Block },
    For { kind: ForKind, body: Block },
    Return(Option<Expr>),
    Break,
    Continue,
    ExprStmt(Expr),
    Raw(String),
}

#[derive(Debug, PartialEq, Eq)]
pub enum ForKind {
    CStyle { init: Box<Stmt>, cond: Expr, step: Expr },
    ForEach { var: String, iter: Expr },
    Range { var: String, start: Expr, end: Expr, step: Option<Expr> },
}

#[derive(Debug, PartialEq, Eq)]
pub enum Expr {
    Literal(Literal),
    Ident(String),
    Binary { op: BinOp, lhs: Box<Expr>, rhs: Box<Expr> },
    Unary { op: UnOp, expr: Box<Expr> },
    Call { callee: Box<Expr>, args: Vec<Expr> },
    Index { obj: Box<Expr>, index: Box<Expr> },
    Field { obj: Box<Expr>, name: String },
    Tuple(Vec<Expr>),
    Raw(String),
}

#[derive(Debug, PartialEq, Eq)]
pub enum Literal {
    Int(i64),
    Float(String),
    Str(String),
    Bool(bool),
    Nil,
}

#[derive(Debug, Clone, Copy, PartialEq, Eq)]
pub enum BinOp {
    Add,
    Sub,
    Mul,
    Div,
    IntDiv,
    Mod,
    Eq,
    Ne,
    Lt,
    Le,
    Gt,
    Ge,
    And,
    Or,
    BitAnd,
    BitOr,
    BitXor,
    Shl,
    Shr,
}

#[derive(Debug, Clone, Copy, PartialEq, Eq)]
pub enum UnOp {
    Neg,
    Not,
    BitNot,
}

// ---------------------------------------------------------------------------
// Mathematical views
// ---------------------------------------------------------------------------

pub enum LiteralV {
    Int(i64),
    Float(Seq<char>),
    Str(Seq<char>),
    Bool(bool),
    Nil,
}

pub enum ExprV {
    Literal(LiteralV),
    Ident(Seq<char>),
    Binary { op: BinOp, lhs: Box<ExprV>, rhs: Box<ExprV> },
    Unary { op: UnOp, expr: Box<ExprV> },
    Call { callee: Box<ExprV>, args: Seq<ExprV> },
    Index { obj: Box<ExprV>, index: Box<ExprV> },
    Field { obj: Box<ExprV>, name: Seq<char> },
    Tuple(Seq<ExprV>),
    Raw(Seq<char>),
}

pub struct VarDeclV {
    pub name: Seq<char>,
    pub type_hint: Option<Seq<char>>,
    pub init: Option<ExprV>,
}

pub enum StmtV {
    Assign { target: ExprV, value: ExprV },
    VarDecl(VarDeclV),
    If { cond: ExprV, then_block: Seq<StmtV>, else_block: Option<Seq<StmtV>> },
    While { cond: ExprV, body: Seq<StmtV> },
    For { kind: ForKindV, body: Seq<StmtV> },
    Return(Option<ExprV>),
    Break,
    Continue,
    ExprStmt(ExprV),
    Raw(Seq<char>),
}

pub enum ForKindV {
    CStyle { init: Box<StmtV>, cond: ExprV, step: ExprV },
    ForEach { var: Seq<char>, iter: ExprV },
    Range { var: Seq<char>, start: ExprV, end: ExprV, step: Option<ExprV> },
}

pub struct ParamV {
    pub name: Seq<char>,
    pub type_hint: Option<Seq<char>>,
}

pub struct FunctionV {
    pub name: Seq<char>,
    pub params: Seq<ParamV>,
    pub return_type: Option<Seq<char>>,
    pub body: Seq<StmtV>,
    pub span: Span,
}

pub struct ClassV {
    pub name: Seq<char>,
    pub parents: Seq<Seq<char>>,
    pub fields: Seq<VarDeclV>,
    pub methods: Seq<FunctionV>,
    pub span: Span,
}

pub enum ItemV {
    Function(FunctionV),
    Class(ClassV),
    Import(Seq<char>),
    GlobalVar(VarDeclV),
    Raw(Seq<char>),
}

pub struct ModuleV {
    pub source_language: SourceLang,
    pub items: Seq<ItemV>,
}

pub open spec fn hint_view(t: Option<TypeHint>) -> Option<Seq<char>> {
    match t {
        Some(h) => Some(h.0@),
        None => None,
    }
}

impl View for Literal {
    type V = LiteralV;

    open spec fn view(&self) -> LiteralV {
        match self {
            Literal::Int(n) => LiteralV::Int(*n),
            Literal::Float(s) => LiteralV::Float(s@),
            Literal::Str(s) => LiteralV::Str(s@),
            Literal::Bool(b) => LiteralV::Bool(*b),
            Literal::Nil => LiteralV::Nil,
        }
    }
}

impl View for Expr {
    type V = ExprV;

    open spec fn view(&self) -> ExprV {
        expr_v(*self)
    }
}

/// The view of an expression.
pub open spec fn expr_v(e: Expr) -> ExprV
    decreases e,
{
        match e {
            Expr::Literal(l) => ExprV::Literal(l@),
            Expr::Ident(s) => ExprV::Ident(s@),
            Expr::Binary { op, lhs, rhs } => ExprV::Binary {
                op: op,
                lhs: Box::new(expr_v(*lhs)),
                rhs: Box::new(expr_v(*rhs)),
            },
            Expr::Unary { op, expr } => ExprV::Unary { op: op, expr: Box::new(expr_v(*expr)) },
            Expr::Call { callee, args } => ExprV::Call {
                callee: Box::new(expr_v(*callee)),
                args: Seq::new(
                    args.len() as nat,
                    |i: int|
                        if 0 <= i < args.len() {
                            expr_v(args@[i])
                        } else {
                            ExprV::Raw(Seq::empty())
                        },
                ),
            },
            Expr::Index { obj, index } => ExprV::Index {
                obj: Box::new(expr_v(*obj)),
                index: Box::new(expr_v(*index)),
            },
            Expr::Field { obj, name } => ExprV::Field { obj: Box::new(expr_v(*obj)), name: name@ },
            Expr::Tuple(items) => ExprV::Tuple(
                Seq::new(
                    items.len() as nat,
                    |i: int|
                        if 0 <= i < items.len() {
                            expr_v(items@[i])
                        } else {
                            ExprV::Raw(Seq::empty())
                        },
                ),
            ),
            Expr::Raw(s) => ExprV::Raw(s@),
        }
}

/// The view of a list of expressions, element by element.
pub open spec fn exprs_view(v: Seq<Expr>) -> Seq<ExprV> {
    Seq::new(v.len(), |i: int| v[i]@)
}

pub open spec fn opt_expr_view(e: Option<Expr>) -> Option<ExprV> {
    match e {
        Some(x) => Some(x@),
        None => None,
    }
}

impl View for VarDecl {
    type V = VarDeclV;

    open spec fn view(&self) -> VarDeclV {
        VarDeclV { name: self.name@, type_hint: hint_view(self.type_hint), init: opt_expr_view(self.init) }
    }
}

impl View for Stmt {
    type V = StmtV;

    open spec fn view(&self) -> StmtV {
        stmt_v(*self)
    }
}

/// The view of a statement.
pub open spec fn stmt_v(s: Stmt) -> StmtV
    decreases s,
{
        match s {
            Stmt::Assign { target, value } => StmtV::Assign { target: target@, value: value@ },
            Stmt::VarDecl(v) => StmtV::VarDecl(v@),
            Stmt::If { cond, then_block, else_block } => StmtV::If {
                cond: cond@,
                then_block: Seq::new(
                    then_block.0.len() as nat,
                    |i: int|
                        if 0 <= i < then_block.0.len() {
                            stmt_v(then_block.0@[i])
                        } else {
                            StmtV::Break
                        },
                ),
                else_block: match else_block {
                    Some(b) => Some(
                        Seq::new(
                            b.0.len() as nat,
                            |i: int|
                                if 0 <= i < b.0.len() {
                                    stmt_v(b.0@[i])
                                } else {
                                    StmtV::Break
                                },
                        ),
                    ),
                    None => None,
                },
            },
            Stmt::While { cond, body } => StmtV::While {
                cond: cond@,
                body: Seq::new(
                    body.0.len() as nat,
                    |i: int|
                        if 0 <= i < body.0.len() {
                            stmt_v(body.0@[i])
                        } else {
                            StmtV::Break
                        },
                ),
            },
            Stmt::For { kind, body } => StmtV::For {
                kind: match kind {
                    ForKind::CStyle { init, cond, step } => ForKindV::CStyle {
                        init: Box::new(stmt_v(*init)),
                        cond: cond@,
                        step: step@,
                    },
                    ForKind::ForEach { var, iter } => ForKindV::ForEach { var: var@, iter: iter@ },
                    ForKind::Range { var, start, end, step } => ForKindV::Range {
                        var: var@,
                        start: start@,
                        end: end@,
                        step: opt_expr_view(step),
                    },
                },
                body: Seq::new(
                    body.0.len() as nat,
                    |i: int|
                        if 0 <= i < body.0.len() {
                            stmt_v(body.0@[i])
                        } else {
                            StmtV::Break
                        },
                ),
            },
            Stmt::Return(e) => StmtV::Return(opt_expr_view(e)),
            Stmt::Break => StmtV::Break,
            Stmt::Continue => StmtV::Continue,
            Stmt::ExprStmt(e) => StmtV::ExprStmt(e@),
            Stmt::Raw(s) => StmtV::Raw(s@),
        }
}

/// The view of a block: its statements in order.
pub open spec fn stmts_view(v: Seq<Stmt>) -> Seq<StmtV> {
    Seq::new(v.len(), |i: int| v[i]@)
}

/// The view of an optional block.
pub open spec fn opt_block_view(b: Option<Block>) -> Option<Seq<StmtV>> {
    match b {
        Some(x) => Some(x@),
        None => None,
    }
}

/// The view of a list of parameters, element by element.
pub open spec fn params_view(v: Seq<Param>) -> Seq<ParamV> {
    Seq::new(v.len(), |i: int| v[i]@)
}

/// The view of a list of items, element by element.
pub open spec fn items_view(v: Seq<Item>) -> Seq<ItemV> {
    Seq::new(v.len(), |i: int| v[i]@)
}

// ---------------------------------------------------------------------------
// Raw fragments held by the IR
// ---------------------------------------------------------------------------

/// How many raw expressions an expression holds, itself included.
pub open spec fn expr_raw_count(e: ExprV) -> nat
    decreases e, 1nat,
{
    match e {
        ExprV::Raw(_) => 1,
        ExprV::Binary { lhs, rhs, .. } => expr_raw_count(*lhs) + expr_raw_count(*rhs),
        ExprV::Unary { expr, .. } => expr_raw_count(*expr),
        ExprV::Call { callee, args } => expr_raw_count(*callee) + exprs_raw_count(args),
        ExprV::Index { obj, index } => expr_raw_count(*obj) + expr_raw_count(*index),
        ExprV::Field { obj, .. } => expr_raw_count(*obj),
        ExprV::Tuple(items) => exprs_raw_count(items),
        _ => 0,
    }
}

/// How many raw expressions a list of expressions holds.
pub open spec fn exprs_raw_count(s: Seq<ExprV>) -> nat
    decreases s, 0nat,
{
    if s.len() == 0 {
        0
    } else {
        exprs_raw_count(s.drop_last()) + expr_raw_count(s.last())
    }
}

pub open spec fn opt_expr_raw_count(e: Option<ExprV>) -> nat {
    match e {
        Some(x) => expr_raw_count(x),
        None => 0,
    }
}

/// How many raw statements a statement holds, itself included (the
/// initialiser of a counted loop counts as a statement).
pub open spec fn stmt_raw_stmts(s: StmtV) -> nat
    decreases s, 1nat,
{
    match s {
        StmtV::Raw(_) => 1,
        StmtV::If { then_block, else_block, .. } => block_raw_stmts(then_block) + match else_block {
            Some(b) => block_raw_stmts(b),
            None => 0,
        },
        StmtV::While { body, .. } => block_raw_stmts(body),
        StmtV::For { kind, body } => (match kind {
            ForKindV::CStyle { init, .. } => stmt_raw_stmts(*init),
            _ => 0,
        }) + block_raw_stmts(body),
        _ => 0,
    }
}

pub open spec fn block_raw_stmts(b: Seq<StmtV>) -> nat
    decreases b, 0nat,
{
    if b.len() == 0 {
        0
    } else {
        block_raw_stmts(b.drop_last()) + stmt_raw_stmts(b.last())
    }
}

/// How many raw expressions a statement holds, at any depth.
pub open spec fn stmt_raw_exprs(s: StmtV) -> nat
    decreases s, 1nat,
{
    match s {
        StmtV::Assign { target, value } => expr_raw_count(target) + expr_raw_count(value),
        StmtV::VarDecl(v) => opt_expr_raw_count(v.init),
        StmtV::If { cond, then_block, else_block } => expr_raw_count(cond) + block_raw_exprs(
            then_block,
        ) + match else_block {
            Some(b) => block_raw_exprs(b),
            None => 0,
        },
        StmtV::While { cond, body } => expr_raw_count(cond) + block_raw_exprs(body),
        StmtV::For { kind, body } => for_kind_raw_exprs(kind) + block_raw_exprs(body),
        StmtV::Return(e) => opt_expr_raw_count(e),
        StmtV::ExprStmt(e) => expr_raw_count(e),
        _ => 0,
    }
}

/// How many raw expressions a loop header holds.
pub open spec fn for_kind_raw_exprs(k: ForKindV) -> nat
    decreases k, 1nat,
{
    match k {
        ForKindV::CStyle { init, cond, step } => stmt_raw_exprs(*init) + expr_raw_count(cond)
            + expr_raw_count(step),
        ForKindV::ForEach { iter, .. } => expr_raw_count(iter),
        ForKindV::Range { start, end, step, .. } => expr_raw_count(start) + expr_raw_count(end)
            + opt_expr_raw_count(step),
    }
}

pub open spec fn block_raw_exprs(b: Seq<StmtV>) -> nat
    decreases b, 0nat,
{
    if b.len() == 0 {
        0
    } else {
        block_raw_exprs(b.drop_last()) + stmt_raw_exprs(b.last())
    }
}

/// How many items of a module are raw.
pub open spec fn items_raw_items(items: Seq<ItemV>) -> nat
    decreases items.len(),
{
    if items.len() == 0 {
        0
    } else {
        items_raw_items(items.drop_last()) + if items.last() is Raw {
            1nat
        } else {
            0nat
        }
    }
}

/// How many raw statements the functions of a module hold.
pub open spec fn items_raw_stmts(items: Seq<ItemV>) -> nat
    decreases items.len(),
{
    if items.len() == 0 {
        0
    } else {
        items_raw_stmts(items.drop_last()) + match items.last() {
            ItemV::Function(f) => block_raw_stmts(f.body),
            _ => 0,
        }
    }
}

/// How many raw expressions the functions of a module hold.
pub open spec fn items_raw_exprs(items: Seq<ItemV>) -> nat
    decreases items.len(),
{
    if items.len() == 0 {
        0
    } else {
        items_raw_exprs(items.drop_last()) + match items.last() {
            ItemV::Function(f) => block_raw_exprs(f.body),
            _ => 0,
        }
    }
}

pub proof fn lemma_exprs_raw_count_concat(a: Seq<ExprV>, b: Seq<ExprV>)
    ensures
        exprs_raw_count(a + b) == exprs_raw_count(a) + exprs_raw_count(b),
    decreases b.len(),
{
    if b.len() == 0 {
        assert(a + b =~= a);
    } else {
        assert((a + b).drop_last() =~= a + b.drop_last());
        lemma_exprs_raw_count_concat(a, b.drop_last());
    }
}

pub proof fn lemma_block_raw_concat(a: Seq<StmtV>, b: Seq<StmtV>)
    ensures
        block_raw_stmts(a + b) == block_raw_stmts(a) + block_raw_stmts(b),
        block_raw_exprs(a + b) == block_raw_exprs(a) + block_raw_exprs(b),
    decreases b.len(),
{
    if b.len() == 0 {
        assert(a + b =~= a);
    } else {
        assert((a + b).drop_last() =~= a + b.drop_last());
        lemma_block_raw_concat(a, b.drop_last());
    }
}

pub proof fn lemma_items_raw_concat(a: Seq<ItemV>, b: Seq<ItemV>)
    ensures
        items_raw_items(a + b) == items_raw_items(a) + items_raw_items(b),
        items_raw_stmts(a + b) == items_raw_stmts(a) + items_raw_stmts(b),
        items_raw_exprs(a + b) == items_raw_exprs(a) + items_raw_exprs(b),
    decreases b.len(),
{
    if b.len() == 0 {
        assert(a + b =~= a);
    } else {
        assert((a + b).drop_last() =~= a + b.drop_last());
        lemma_items_raw_concat(a, b.drop_last());
    }
}

pub proof fn lemma_exprs_raw_cons(x: ExprV, rest: Seq<ExprV>)
    ensures
        exprs_raw_count(seq![x] + rest) == expr_raw_count(x) + exprs_raw_count(rest),
{
    lemma_exprs_raw_count_concat(seq![x], rest);
    assert(seq![x].drop_last() =~= Seq::<ExprV>::empty());
    assert(exprs_raw_count(Seq::<ExprV>::empty()) == 0);
    assert(exprs_raw_count(seq![x]) == expr_raw_count(x));
}

pub proof fn lemma_block_raw_cons(s: StmtV, rest: Seq<StmtV>)
    ensures
        block_raw_stmts(seq![s] + rest) == stmt_raw_stmts(s) + block_raw_stmts(rest),
        block_raw_exprs(seq![s] + rest) == stmt_raw_exprs(s) + block_raw_exprs(rest),
        block_raw_stmts(seq![s]) == stmt_raw_stmts(s),
        block_raw_exprs(seq![s]) == stmt_raw_exprs(s),
{
    lemma_block_raw_concat(seq![s], rest);
    assert(seq![s].drop_last() =~= Seq::<StmtV>::empty());
    assert(block_raw_stmts(Seq::<StmtV>::empty()) == 0);
    assert(block_raw_exprs(Seq::<StmtV>::empty()) == 0);
    assert(block_raw_stmts(seq![s]) == stmt_raw_stmts(s));
    assert(block_raw_exprs(seq![s]) == stmt_raw_exprs(s));
}

pub proof fn lemma_items_raw_cons(it: ItemV, rest: Seq<ItemV>)
    ensures
        items_raw_items(seq![it] + rest) == items_raw_items(seq![it]) + items_raw_items(rest),
        items_raw_stmts(seq![it] + rest) == items_raw_stmts(seq![it]) + items_raw_stmts(rest),
        items_raw_exprs(seq![it] + rest) == items_raw_exprs(seq![it]) + items_raw_exprs(rest),
        items_raw_items(seq![it]) == if it is Raw {
            1nat
        } else {
            0nat
        },
        items_raw_stmts(seq![it]) == match it {
            ItemV::Function(f) => block_raw_stmts(f.body),
            _ => 0,
        },
        items_raw_exprs(seq![it]) == match it {
            ItemV::Function(f) => block_raw_exprs(f.body),
            _ => 0,
        },
{
    lemma_items_raw_concat(seq![it], rest);
    assert(seq![it].drop_last() =~= Seq::<ItemV>::empty());
    assert(items_raw_items(Seq::<ItemV>::empty()) == 0);
    assert(items_raw_stmts(Seq::<ItemV>::empty()) == 0);
    assert(items_raw_exprs(Seq::<ItemV>::empty()) == 0);
}

/// The raw expressions of one, two or three expressions.
pub proof fn lemma_exprs_raw_small(s: Seq<ExprV>)
    ensures
        s.len() == 1 ==> exprs_raw_count(s) == expr_raw_count(s[0]),
        s.len() == 2 ==> exprs_raw_count(s) == expr_raw_count(s[0]) + expr_raw_count(s[1]),
        s.len() == 3 ==> exprs_raw_count(s) == expr_raw_count(s[0]) + expr_raw_count(s[1])
            + expr_raw_count(s[2]),
{
    assert(exprs_raw_count(Seq::<ExprV>::empty()) == 0);
    if s.len() >= 1 && s.len() <= 3 {
        let t = s.take(1);
        assert(t.drop_last() =~= Seq::<ExprV>::empty());
        assert(exprs_raw_count(t) == expr_raw_count(s[0]));
        if s.len() == 1 {
            assert(s =~= t);
        } else {
            let u = s.take(2);
            assert(u.drop_last() =~= t);
            assert(exprs_raw_count(u) == expr_raw_count(s[0]) + expr_raw_count(s[1]));
            if s.len() == 2 {
                assert(s =~= u);
            } else {
                assert(s.drop_last() =~= u);
            }
        }
    }
}

impl View for Block {
    type V = Seq<StmtV>;

    open spec fn view(&self) -> Seq<StmtV> {
        stmts_view(self.0@)
    }
}

impl View for ForKind {
    type V = ForKindV;

    open spec fn view(&self) -> ForKindV {
        match self {
            ForKind::CStyle { init, cond, step } => ForKindV::CStyle {
                init: Box::new((**init)@),
                cond: cond@,
                step: step@,
            },
            ForKind::ForEach { var, iter } => ForKindV::ForEach { var: var@, iter: iter@ },
            ForKind::Range { var, start, end, step } => ForKindV::Range {
                var: var@,
                start: start@,
                end: end@,
                step: opt_expr_view(*step),
            },
        }
    }
}

impl View for Param {
    type V = ParamV;

    open spec fn view(&self) -> ParamV {
        ParamV { name: self.name@, type_hint: hint_view(self.type_hint) }
    }
}

impl View for Function {
    type V = FunctionV;

    open spec fn view(&self) -> FunctionV {
        FunctionV {
            name: self.name@,
            params: Seq::new(self.params.len() as nat, |i: int| self.params@[i]@),
            return_type: hint_view(self.return_type),
            body: self.body@,
            span: self.span,
        }
    }
}

impl View for Class {
    type V = ClassV;

    open spec fn view(&self) -> ClassV {
        ClassV {
            name: self.name@,
            parents: Seq::new(self.parents.len() as nat, |i: int| self.parents@[i]@),
            fields: Seq::new(self.fields.len() as nat, |i: int| self.fields@[i]@),
            methods: Seq::new(self.methods.len() as nat, |i: int| self.methods@[i]@),
            span: self.span,
        }
    }
}

impl View for Item {
    type V = ItemV;

    open spec fn view(&self) -> ItemV {
        match self {
            Item::Function(f) => ItemV::Function(f@),
            Item::Class(c) => ItemV::Class(c@),
            Item::Import(i) => ItemV::Import(i.raw@),
            Item::GlobalVar(v) => ItemV::GlobalVar(v@),
            Item::Raw(s) => ItemV::Raw(s@),
        }
    }
}

impl View for Module {
    type V = ModuleV;

    open spec fn view(&self) -> ModuleV {
        ModuleV {
            source_language: self.source_language,
            items: Seq::new(self.items.len() as nat, |i: int| self.items@[i]@),
        }
    }
}

} // verus!
