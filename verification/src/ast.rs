//! The abstract syntax tree: statements and expressions, plus their
//! mathematical images (`StmtM`, `ExprM`) that contracts speak about.
//!
//! The tree carries no positions: `>`/`>=` are already reduced to `<`/`<=`
//! with swapped operands (the `BinOp` type has no variant for them), unary
//! `+`/`-` are desugared to additions and subtractions from zero, and local
//! variables appear only as their stack offsets.

use vstd::prelude::*;

verus! {

/// A binary operator as it appears in the tree.  `>` and `>=` never do.
#[derive(Debug, Clone, Copy, PartialEq, Eq, Structural)]
pub enum BinOp {
    Add,
    Sub,
    Mul,
    Div,
    Lt,
    Lte,
    Eq,
    Neq,
}

/// An expression.
#[derive(Debug)]
pub enum Expr {
    Num(usize),
    Ident(ExprIdent),
    Call(ExprCall),
    BinOp(ExprBinOp),
    Paren(ExprParen),
}

/// A local variable, by its byte offset below the frame pointer.
#[derive(Debug)]
pub struct ExprIdent {
    pub ident_offset: usize,
}

/// A function call with at most six arguments.
#[derive(Debug)]
pub struct ExprCall {
    pub name: Vec<u8>,
    pub params: Vec<Expr>,
}

/// A binary operation.
#[derive(Debug)]
pub struct ExprBinOp {
    pub lhs: Box<Expr>,
    pub op: BinOp,
    pub rhs: Box<Expr>,
}

/// A parenthesised expression.
#[derive(Debug)]
pub struct ExprParen {
    pub expr: Box<Expr>,
}

/// A statement.
#[derive(Debug)]
pub enum Stmt {
    Assign(StmtAssign),
    Block(StmtBlock),
    Expr(Expr),
    Return(StmtReturn),
    If(StmtIf),
    While(StmtWhile),
}

/// `name = expr ;` — the left-hand side is already resolved to its offset.
#[derive(Debug)]
pub struct StmtAssign {
    pub lhs_offset: usize,
    pub rhs: Expr,
}

/// `{ stmt* }`
#[derive(Debug)]
pub struct StmtBlock {
    pub stmts: Vec<Stmt>,
}

/// `return expr ;`
#[derive(Debug)]
pub struct StmtReturn {
    pub expr: Expr,
}

/// `if ( cond ) stmt (else stmt)?`
#[derive(Debug)]
pub struct StmtIf {
    pub cond: Expr,
    pub then_branch: Box<Stmt>,
    pub else_branch: Option<Box<Stmt>>,
}

/// `while ( cond ) stmt`
#[derive(Debug)]
pub struct StmtWhile {
    pub cond: Expr,
    pub block: Box<Stmt>,
}

/// Mathematical image of an expression.
pub enum ExprM {
    Num(int),
    Ident { offset: int },
    Call { name: Seq<u8>, args: Seq<ExprM> },
    BinOp { op: BinOp, lhs: Box<ExprM>, rhs: Box<ExprM> },
    Paren(Box<ExprM>),
}

/// Mathematical image of a statement.
pub enum StmtM {
    Assign { lhs_offset: int, rhs: ExprM },
    Block(Seq<StmtM>),
    Expr(ExprM),
    Return(ExprM),
    If { cond: ExprM, then_branch: Box<StmtM>, else_branch: Option<Box<StmtM>> },
    While { cond: ExprM, block: Box<StmtM> },
}

pub open spec fn expr_view(e: Expr) -> ExprM
    decreases e,
{
    match e {
        Expr::Num(n) => ExprM::Num(n as int),
        Expr::Ident(i) => ExprM::Ident { offset: i.ident_offset as int },
        Expr::Call(c) => ExprM::Call { name: c.name@, args: exprs_view(c.params@) },
        Expr::BinOp(b) => ExprM::BinOp {
            op: b.op,
            lhs: Box::new(expr_view(*b.lhs)),
            rhs: Box::new(expr_view(*b.rhs)),
        },
        Expr::Paren(p) => ExprM::Paren(Box::new(expr_view(*p.expr))),
    }
}

pub open spec fn exprs_view(v: Seq<Expr>) -> Seq<ExprM>
    decreases v,
{
    if v.len() == 0 {
        Seq::<ExprM>::empty()
    } else {
        seq![expr_view(v[0])] + exprs_view(v.drop_first())
    }
}

pub open spec fn stmt_view(s: Stmt) -> StmtM
    decreases s,
{
    match s {
        Stmt::Assign(a) => StmtM::Assign { lhs_offset: a.lhs_offset as int, rhs: expr_view(a.rhs) },
        Stmt::Block(b) => StmtM::Block(stmts_view(b.stmts@)),
        Stmt::Expr(e) => StmtM::Expr(expr_view(e)),
        Stmt::Return(r) => StmtM::Return(expr_view(r.expr)),
        Stmt::If(i) => StmtM::If {
            cond: expr_view(i.cond),
            then_branch: Box::new(stmt_view(*i.then_branch)),
            else_branch: match i.else_branch {
                Some(e) => Some(Box::new(stmt_view(*e))),
                None => None,
            },
        },
        Stmt::While(w) => StmtM::While {
            cond: expr_view(w.cond),
            block: Box::new(stmt_view(*w.block)),
        },
    }
}

pub open spec fn stmts_view(v: Seq<Stmt>) -> Seq<StmtM>
    decreases v,
{
    if v.len() == 0 {
        Seq::<StmtM>::empty()
    } else {
        seq![stmt_view(v[0])] + stmts_view(v.drop_first())
    }
}

impl View for Expr {
    type V = ExprM;

    open spec fn view(&self) -> ExprM {
        expr_view(*self)
    }
}

impl View for Stmt {
    type V = StmtM;

    open spec fn view(&self) -> StmtM {
        stmt_view(*self)
    }
}

/// The element-wise reading of `exprs_view`.
pub proof fn lemma_exprs_view(v: Seq<Expr>)
    ensures
        exprs_view(v).len() == v.len(),
        forall|i: int| 0 <= i < v.len() ==> exprs_view(v)[i] == expr_view(v[i]),
    decreases v,
{
    if v.len() > 0 {
        lemma_exprs_view(v.drop_first());
    }
}

/// The element-wise reading of `stmts_view`.
pub proof fn lemma_stmts_view(v: Seq<Stmt>)
    ensures
        stmts_view(v).len() == v.len(),
        forall|i: int| 0 <= i < v.len() ==> stmts_view(v)[i] == stmt_view(v[i]),
    decreases v,
{
    if v.len() > 0 {
        lemma_stmts_view(v.drop_first());
    }
}

/// Appending an expression extends its element-wise image.
pub proof fn lemma_exprs_view_push(v: Seq<Expr>, x: Expr)
    ensures
        exprs_view(v.push(x)) == exprs_view(v).push(expr_view(x)),
{
    lemma_exprs_view(v.push(x));
    lemma_exprs_view(v);
    assert(exprs_view(v.push(x)) =~= exprs_view(v).push(expr_view(x)));
}

/// Appending a statement extends its element-wise image.
pub proof fn lemma_stmts_view_push(v: Seq<Stmt>, x: Stmt)
    ensures
        stmts_view(v.push(x)) == stmts_view(v).push(stmt_view(x)),
{
    lemma_stmts_view(v.push(x));
    lemma_stmts_view(v);
    assert(stmts_view(v.push(x)) =~= stmts_view(v).push(stmt_view(x)));
}

/// How many control-flow labels code generation will need for an
/// expression: none — expressions never branch.
pub open spec fn expr_labels(e: ExprM) -> int {
    0
}

/// How many control-flow labels code generation will need: one counter
/// value per `if` or `while`, recursively.
pub open spec fn stmt_labels(s: StmtM) -> int
    decreases s,
{
    match s {
        StmtM::Assign { .. } => 0,
        StmtM::Expr(_) => 0,
        StmtM::Return(_) => 0,
        StmtM::Block(list) => stmts_labels(list),
        StmtM::If { cond, then_branch, else_branch } => 1 + stmt_labels(*then_branch) + (
        match else_branch {
            Some(e) => stmt_labels(*e),
            None => 0,
        }),
        StmtM::While { cond, block } => 1 + stmt_labels(*block),
    }
}

pub open spec fn stmts_labels(list: Seq<StmtM>) -> int
    decreases list,
{
    if list.len() == 0 {
        0
    } else {
        stmt_labels(list[0]) + stmts_labels(list.drop_first())
    }
}

pub proof fn lemma_stmt_labels_nonneg(s: StmtM)
    ensures
        stmt_labels(s) >= 0,
    decreases s,
{
    match s {
        StmtM::Block(list) => lemma_stmts_labels_nonneg(list),
        StmtM::If { cond, then_branch, else_branch } => {
            lemma_stmt_labels_nonneg(*then_branch);
            match else_branch {
                Some(e) => lemma_stmt_labels_nonneg(*e),
                None => {},
            }
        },
        StmtM::While { cond, block } => lemma_stmt_labels_nonneg(*block),
        _ => {},
    }
}

pub proof fn lemma_stmts_labels_nonneg(list: Seq<StmtM>)
    ensures
        stmts_labels(list) >= 0,
    decreases list,
{
    if list.len() > 0 {
        lemma_stmt_labels_nonneg(list[0]);
        lemma_stmts_labels_nonneg(list.drop_first());
    }
}

/// Appending a statement adds its label need.
pub proof fn lemma_stmts_labels_push(list: Seq<StmtM>, x: StmtM)
    ensures
        stmts_labels(list.push(x)) == stmts_labels(list) + stmt_labels(x),
    decreases list,
{
    assert(stmts_labels(list.push(x)) == stmt_labels(list.push(x)[0]) + stmts_labels(
        list.push(x).drop_first(),
    ));
    if list.len() == 0 {
        assert(list.push(x)[0] == x);
        assert(list.push(x).drop_first() =~= Seq::<StmtM>::empty());
        assert(stmts_labels(Seq::<StmtM>::empty()) == 0);
    } else {
        assert(list.push(x)[0] == list[0]);
        assert(list.push(x).drop_first() =~= list.drop_first().push(x));
        lemma_stmts_labels_push(list.drop_first(), x);
        assert(stmts_labels(list) == stmt_labels(list[0]) + stmts_labels(list.drop_first()));
    }
}

} // verus!
