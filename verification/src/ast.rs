//! The abstract syntax tree of bugu programs, and its mathematical view.
use vstd::prelude::*;
use std::collections::VecDeque;

verus! {

#[derive(Debug)]
pub struct Prog {
    pub funcs: Vec<Func>,
    pub global_vars: Vec<Decl>,
}

#[derive(Debug)]
pub struct Func {
    pub name: String,
    pub stmt: Vec<BlockItem>,
    pub params: Vec<Param>,
}

#[derive(Debug)]
pub struct Param {
    pub t: Type,
    pub scope: Vec<u32>,
    pub name: String,
}

#[derive(Debug)]
pub struct Call {
    pub name: String,
    pub params: Vec<Expr>,
}

#[derive(Debug)]
pub struct Decl {
    pub t: Type,
    pub name: String,
    // multidimensional
    pub indexes: VecDeque<i32>,
    pub expr: Option<Expr>,
    pub scope: Vec<u32>,
}

#[derive(Debug)]
pub struct IndexExpr {
    pub name: String,
    pub index: VecDeque<i32>,
}

#[derive(Debug)]
pub enum BlockItem {
    Stmt(Stmt),
    Decl(Decl),
}

#[derive(Debug)]
pub enum Stmt {
    Ret(Expr),
    Expr(Option<Expr>),
    If(Expr, Box<Stmt>, Option<Box<Stmt>>),
    Block(Vec<BlockItem>),
    For(Option<Expr>, Option<Expr>, Option<Expr>, Box<Stmt>),
    While(Expr, Box<Stmt>),
    Continue,
    Break,
}

#[derive(Debug, Clone, Copy, PartialEq, Eq, Structural)]
pub enum Type {
    Integer,
}

#[derive(Debug)]
pub enum Expr {
    Unary(Unary),
    Add(Box<Expr>, Box<Expr>),
    Sub(Box<Expr>, Box<Expr>),
    Mul(Box<Expr>, Box<Expr>),
    Div(Box<Expr>, Box<Expr>),
    Mod(Box<Expr>, Box<Expr>),
    Lt(Box<Expr>, Box<Expr>),
    Gt(Box<Expr>, Box<Expr>),
    Let(Box<Expr>, Box<Expr>),
    Get(Box<Expr>, Box<Expr>),
    And(Box<Expr>, Box<Expr>),
    Or(Box<Expr>, Box<Expr>),
    NotEquals(Box<Expr>, Box<Expr>),
    Equals(Box<Expr>, Box<Expr>),
    Assign(Box<Vec<u32>>, Box<String>, Box<Expr>),
    Cond(Box<Expr>, Box<Expr>, Box<Expr>),
    Null,
}

#[derive(Debug)]
pub enum Unary {
    Int(i32),
    Neg(Box<Unary>),
    Primary(Box<Expr>),
    Identifier(Box<Vec<u32>>, Box<String>),
    Call(Call),
    Index(Box<Vec<u32>>, IndexExpr),
}

impl Param {
    /// An integer parameter named `name` declared in `scope`.
    pub fn new(scope: Vec<u32>, name: String) -> (r: Self)
        ensures
            r@ == (ParamV { t: Type::Integer, scope: scope@, name: name@ }),
    {
        Self { name, scope, t: Type::Integer }
    }
}

// ---------------------------------------------------------------------------
// The mathematical view: the same tree with strings as character sequences.
// ---------------------------------------------------------------------------

pub struct ProgV {
    pub funcs: Seq<FuncV>,
    pub global_vars: Seq<DeclV>,
}

pub struct FuncV {
    pub name: Seq<char>,
    pub stmt: Seq<BlockItemV>,
    pub params: Seq<ParamV>,
}

pub struct ParamV {
    pub t: Type,
    pub scope: Seq<u32>,
    pub name: Seq<char>,
}

pub struct CallV {
    pub name: Seq<char>,
    pub params: Seq<ExprV>,
}

pub struct DeclV {
    pub t: Type,
    pub name: Seq<char>,
    pub indexes: Seq<i32>,
    pub expr: Option<ExprV>,
    pub scope: Seq<u32>,
}

pub struct IndexExprV {
    pub name: Seq<char>,
    pub index: Seq<i32>,
}

pub enum BlockItemV {
    Stmt(StmtV),
    Decl(DeclV),
}

pub enum StmtV {
    Ret(ExprV),
    Expr(Option<ExprV>),
    If(ExprV, Box<StmtV>, Option<Box<StmtV>>),
    Block(Seq<BlockItemV>),
    For(Option<ExprV>, Option<ExprV>, Option<ExprV>, Box<StmtV>),
    While(ExprV, Box<StmtV>),
    Continue,
    Break,
}

pub enum ExprV {
    Unary(UnaryV),
    Add(Box<ExprV>, Box<ExprV>),
    Sub(Box<ExprV>, Box<ExprV>),
    Mul(Box<ExprV>, Box<ExprV>),
    Div(Box<ExprV>, Box<ExprV>),
    Mod(Box<ExprV>, Box<ExprV>),
    Lt(Box<ExprV>, Box<ExprV>),
    Gt(Box<ExprV>, Box<ExprV>),
    Let(Box<ExprV>, Box<ExprV>),
    Get(Box<ExprV>, Box<ExprV>),
    And(Box<ExprV>, Box<ExprV>),
    Or(Box<ExprV>, Box<ExprV>),
    NotEquals(Box<ExprV>, Box<ExprV>),
    Equals(Box<ExprV>, Box<ExprV>),
    Assign(Seq<u32>, Seq<char>, Box<ExprV>),
    Cond(Box<ExprV>, Box<ExprV>, Box<ExprV>),
    Null,
}

pub enum UnaryV {
    Int(i32),
    Neg(Box<UnaryV>),
    Primary(Box<ExprV>),
    Identifier(Seq<u32>, Seq<char>),
    Call(CallV),
    Index(Seq<u32>, IndexExprV),
}

/// The view of an expression.
pub open spec fn expr_view(e: Expr) -> ExprV
    decreases e,
{
    match e {
        Expr::Unary(u) => ExprV::Unary(unary_view(u)),
        Expr::Add(a, b) => ExprV::Add(Box::new(expr_view(*a)), Box::new(expr_view(*b))),
        Expr::Sub(a, b) => ExprV::Sub(Box::new(expr_view(*a)), Box::new(expr_view(*b))),
        Expr::Mul(a, b) => ExprV::Mul(Box::new(expr_view(*a)), Box::new(expr_view(*b))),
        Expr::Div(a, b) => ExprV::Div(Box::new(expr_view(*a)), Box::new(expr_view(*b))),
        Expr::Mod(a, b) => ExprV::Mod(Box::new(expr_view(*a)), Box::new(expr_view(*b))),
        Expr::Lt(a, b) => ExprV::Lt(Box::new(expr_view(*a)), Box::new(expr_view(*b))),
        Expr::Gt(a, b) => ExprV::Gt(Box::new(expr_view(*a)), Box::new(expr_view(*b))),
        Expr::Let(a, b) => ExprV::Let(Box::new(expr_view(*a)), Box::new(expr_view(*b))),
        Expr::Get(a, b) => ExprV::Get(Box::new(expr_view(*a)), Box::new(expr_view(*b))),
        Expr::And(a, b) => ExprV::And(Box::new(expr_view(*a)), Box::new(expr_view(*b))),
        Expr::Or(a, b) => ExprV::Or(Box::new(expr_view(*a)), Box::new(expr_view(*b))),
        Expr::NotEquals(a, b) => ExprV::NotEquals(Box::new(expr_view(*a)), Box::new(expr_view(*b))),
        Expr::Equals(a, b) => ExprV::Equals(Box::new(expr_view(*a)), Box::new(expr_view(*b))),
        Expr::Assign(s, n, b) => ExprV::Assign(s@, n@, Box::new(expr_view(*b))),
        Expr::Cond(a, b, c) => ExprV::Cond(
            Box::new(expr_view(*a)),
            Box::new(expr_view(*b)),
            Box::new(expr_view(*c)),
        ),
        Expr::Null => ExprV::Null,
    }
}

/// The view of a unary expression.
pub open spec fn unary_view(u: Unary) -> UnaryV
    decreases u,
{
    match u {
        Unary::Int(i) => UnaryV::Int(i),
        Unary::Neg(x) => UnaryV::Neg(Box::new(unary_view(*x))),
        Unary::Primary(e) => UnaryV::Primary(Box::new(expr_view(*e))),
        Unary::Identifier(s, n) => UnaryV::Identifier(s@, n@),
        Unary::Call(c) => UnaryV::Call(CallV { name: c.name@, params: exprs_view(c.params@) }),
        Unary::Index(s, i) => UnaryV::Index(s@, IndexExprV { name: i.name@, index: i.index@ }),
    }
}

pub open spec fn exprs_view(es: Seq<Expr>) -> Seq<ExprV>
    decreases es,
{
    if es.len() == 0 {
        Seq::empty()
    } else {
        exprs_view(es.drop_last()).push(expr_view(es.last()))
    }
}

/// The view of a list of expressions, taken apart at its last element.
pub proof fn lemma_exprs_view_last(es: Seq<Expr>)
    requires
        es.len() > 0,
    ensures
        exprs_view(es).drop_last() == exprs_view(es.drop_last()),
        exprs_view(es).last() == expr_view(es.last()),
        exprs_view(es).len() > 0,
{
    assert(exprs_view(es).drop_last() =~= exprs_view(es.drop_last()));
}

pub open spec fn decl_view(d: Decl) -> DeclV {
    DeclV {
        t: d.t,
        name: d.name@,
        indexes: d.indexes@,
        expr: match d.expr {
            Some(e) => Some(expr_view(e)),
            None => None,
        },
        scope: d.scope@,
    }
}

pub open spec fn opt_expr_view(e: Option<Expr>) -> Option<ExprV> {
    match e {
        Some(e) => Some(expr_view(e)),
        None => None,
    }
}

/// The view of a statement.
pub open spec fn stmt_view(s: Stmt) -> StmtV
    decreases s,
{
    match s {
        Stmt::Ret(e) => StmtV::Ret(expr_view(e)),
        Stmt::Expr(e) => StmtV::Expr(opt_expr_view(e)),
        Stmt::If(c, t, e) => StmtV::If(
            expr_view(c),
            Box::new(stmt_view(*t)),
            match e {
                Some(e) => Some(Box::new(stmt_view(*e))),
                None => None,
            },
        ),
        Stmt::Block(b) => StmtV::Block(block_items_view(b@)),
        Stmt::For(i, c, u, b) => StmtV::For(opt_expr_view(i), opt_expr_view(c), opt_expr_view(u), Box::new(stmt_view(*b))),
        Stmt::While(c, b) => StmtV::While(expr_view(c), Box::new(stmt_view(*b))),
        Stmt::Continue => StmtV::Continue,
        Stmt::Break => StmtV::Break,
    }
}

pub open spec fn block_item_view(b: BlockItem) -> BlockItemV
    decreases b,
{
    match b {
        BlockItem::Stmt(s) => BlockItemV::Stmt(stmt_view(s)),
        BlockItem::Decl(d) => BlockItemV::Decl(decl_view(d)),
    }
}

pub open spec fn block_items_view(bs: Seq<BlockItem>) -> Seq<BlockItemV>
    decreases bs,
{
    if bs.len() == 0 {
        Seq::empty()
    } else {
        block_items_view(bs.drop_last()).push(block_item_view(bs.last()))
    }
}

/// The view of a list of block items, taken apart at its last element.
pub proof fn lemma_block_items_view_last(bs: Seq<BlockItem>)
    requires
        bs.len() > 0,
    ensures
        block_items_view(bs).drop_last() == block_items_view(bs.drop_last()),
        block_items_view(bs).last() == block_item_view(bs.last()),
        block_items_view(bs).len() > 0,
{
    assert(block_items_view(bs).drop_last() =~= block_items_view(bs.drop_last()));
}

pub open spec fn params_view(ps: Seq<Param>) -> Seq<ParamV> {
    ps.map_values(|p: Param| p@)
}

pub open spec fn funcs_view(fs: Seq<Func>) -> Seq<FuncV> {
    fs.map_values(|f: Func| f@)
}

pub open spec fn decls_view(ds: Seq<Decl>) -> Seq<DeclV> {
    ds.map_values(|d: Decl| d@)
}

pub open spec fn func_view(f: Func) -> FuncV {
    FuncV {
        name: f.name@,
        stmt: block_items_view(f.stmt@),
        params: params_view(f.params@),
    }
}

impl View for Expr {
    type V = ExprV;

    open spec fn view(&self) -> ExprV {
        expr_view(*self)
    }
}

impl View for Unary {
    type V = UnaryV;

    open spec fn view(&self) -> UnaryV {
        unary_view(*self)
    }
}

impl View for Stmt {
    type V = StmtV;

    open spec fn view(&self) -> StmtV {
        stmt_view(*self)
    }
}

impl View for BlockItem {
    type V = BlockItemV;

    open spec fn view(&self) -> BlockItemV {
        block_item_view(*self)
    }
}

impl View for Decl {
    type V = DeclV;

    open spec fn view(&self) -> DeclV {
        decl_view(*self)
    }
}

impl View for Param {
    type V = ParamV;

    open spec fn view(&self) -> ParamV {
        ParamV { t: self.t, scope: self.scope@, name: self.name@ }
    }
}

impl View for Func {
    type V = FuncV;

    open spec fn view(&self) -> FuncV {
        func_view(*self)
    }
}

impl View for Prog {
    type V = ProgV;

    open spec fn view(&self) -> ProgV {
        ProgV {
            funcs: funcs_view(self.funcs@),
            global_vars: decls_view(self.global_vars@),
        }
    }
}

} // verus!
