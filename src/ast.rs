//! The syntax tree of Nexus.
use vstd::prelude::*;
use crate::ptr::Ptr;
use crate::token::Decimal;

verus! {

/// Evaluation of a node, for an evaluator built on the tree: `eval_expr`
/// evaluates the sub-expressions, so that each node only says how to combine
/// their values.
pub trait Eval<R, E> {
    fn eval<F: FnMut(&E) -> R>(&self, eval_expr: F) -> R;
}

/// A statement.
#[derive(Debug, PartialEq)]
pub struct Stmt {
    pub kind: StmtKind,
}

/// The kinds of statement.
#[derive(Debug, PartialEq)]
pub enum StmtKind {
    Assignment(Ptr<Assignment>),
    Block(Stmts),
    Connect(Ptr<Connect>),
    ConstDecl(Ptr<ConstDecl>),
    Expr(Ptr<Expr>),
    FunctionDecl(Ptr<FunctionDecl>),
    Print(Ptr<Print>),
    Return(Ptr<Return>),
    UseDecl(Ptr<UseDecl>),
    VarDecl(Ptr<VarDecl>),
}

/// A sequence of statements; a program is one.
#[derive(Debug, PartialEq)]
pub struct Stmts(pub Vec<Stmt>);

impl Stmts {
    /// No statements.
    pub fn new() -> (r: Stmts)
        ensures
            r.0@.len() == 0,
    {
        Stmts(Vec::new())
    }
}

/// The types of Nexus.
#[derive(Clone, Copy, Debug, PartialEq, Eq, Structural)]
pub enum TypeKind {
    Bool,
    Group,
    Node,
    Number,
    String,
}

/// `const id: type = value;`
#[derive(Debug, PartialEq)]
pub struct ConstDecl {
    pub id: String,
    pub typeid: TypeKind,
    pub value: Expr,
}

/// `fn id(args) -> type { body }`
#[derive(Debug, PartialEq)]
pub struct FunctionDecl {
    pub id: String,
    pub args: Option<FunctionArgs>,
    pub ret_type: Option<TypeKind>,
    /// A block statement.
    pub body: Stmt,
}

/// `id: type`, one argument of a function declaration.
#[derive(Debug, PartialEq)]
pub struct FunctionArg {
    pub id: String,
    pub typeid: TypeKind,
}

/// The arguments of a function declaration.
#[derive(Debug, PartialEq)]
pub struct FunctionArgs(pub Vec<FunctionArg>);

impl FunctionArgs {
    /// No arguments.
    pub fn new() -> (r: FunctionArgs)
        ensures
            r.0@.len() == 0,
    {
        FunctionArgs(Vec::new())
    }
}

/// `let mut id: type = value;`
#[derive(Debug, PartialEq)]
pub struct VarDecl {
    pub id: Expr,
    pub mutable: bool,
    pub typeid: Option<TypeKind>,
    pub value: Option<Expr>,
}

/// `use filename;`
#[derive(Debug, PartialEq)]
pub struct UseDecl {
    pub filename: Expr,
}

/// An expression.
#[derive(Debug, PartialEq)]
pub struct Expr {
    pub kind: ExprKind,
}

/// The kinds of expression.
#[derive(Debug, PartialEq)]
pub enum ExprKind {
    Binary(Ptr<BinaryExpr>),
    Block(Ptr<BlockExpr>),
    Empty(),
    For(Ptr<For>),
    FuncCall(Ptr<FuncCall>),
    Group(Ptr<Expr>),
    If(Ptr<If>),
    Literal(Ptr<Literal>),
    Range(Ptr<Range>),
    Ref(Ptr<Ref>),
    Unary(Ptr<UnaryExpr>),
    Var(Ptr<Var>),
    While(Ptr<While>),
}

/// `lhs op rhs`
#[derive(Debug, PartialEq)]
pub struct BinaryExpr {
    pub op: BinaryOp,
    pub lhs: Expr,
    pub rhs: Expr,
}

/// The binary operators.
#[derive(Clone, Copy, Debug, PartialEq, Eq, Structural)]
pub enum BinaryOp {
    And,
    Divide,
    Dot,
    Eq,
    Gt,
    GtEq,
    Lt,
    LtEq,
    Multiply,
    NotEq,
    Or,
    Plus,
    Remainder,
    Subtract,
}

/// A block used as an expression.
#[derive(Debug, PartialEq)]
pub struct BlockExpr {
    /// A block statement.
    pub body: Stmt,
}

/// `for id in expr body`
#[derive(Debug, PartialEq)]
pub struct For {
    pub id: String,
    pub expr: Expr,
    pub body: Expr,
}

/// `id(args)`
#[derive(Debug, PartialEq)]
pub struct FuncCall {
    pub id: String,
    pub args: Vec<Expr>,
}

/// `op expr`
#[derive(Debug, PartialEq)]
pub struct UnaryExpr {
    pub op: UnaryOp,
    pub expr: Expr,
}

/// The prefix operators.
#[derive(Clone, Copy, Debug, PartialEq, Eq, Structural)]
pub enum UnaryOp {
    Bang,
    Group,
    Minus,
    Node,
    Plus,
}

/// `lhs = rhs;`
#[derive(Debug, PartialEq)]
pub struct Assignment {
    pub lhs: Expr,
    pub rhs: Expr,
}

/// `source -> sink;`
#[derive(Debug, PartialEq)]
pub struct Connect {
    pub source: Expr,
    pub sink: Expr,
}

/// `print expr;`
#[derive(Debug, PartialEq)]
pub struct Print {
    pub expr: Expr,
}

/// `return expr;`
#[derive(Debug, PartialEq)]
pub struct Return {
    pub expr: Expr,
}

/// `if expr then else`
#[derive(Debug, PartialEq)]
pub struct If {
    pub expr: Expr,
    pub body_then: Expr,
    pub body_else: Option<Expr>,
}

/// A literal.
#[derive(Debug, PartialEq)]
pub struct Literal {
    pub kind: LiteralKind,
}

/// The kinds of literal.
#[derive(Debug, PartialEq)]
pub enum LiteralKind {
    Bool(bool),
    Number(Decimal),
    String(String),
}

/// `start .. end` or `start ..= end`
#[derive(Debug, PartialEq)]
pub struct Range {
    pub kind: RangeKind,
    pub start: Expr,
    pub end: Expr,
}

/// Whether a range holds its end.
#[derive(Clone, Copy, Debug, PartialEq, Eq, Structural)]
pub enum RangeKind {
    Exclusive,
    Inclusive,
}

/// `&expr`, an explicit reference.
#[derive(Debug, PartialEq)]
pub struct Ref {
    pub expr: Expr,
}

/// A variable.
#[derive(Debug, PartialEq)]
pub struct Var {
    pub id: String,
}

/// `while expr body`
#[derive(Debug, PartialEq)]
pub struct While {
    pub expr: Expr,
    pub body: Expr,
}

/// The expressions a range may have as bounds: literals, variables and groups.
pub open spec fn range_bound(e: Expr) -> bool {
    e.kind is Literal || e.kind is Var || e.kind is Group
}

/// Whether a literal is of the given type.
pub open spec fn literal_of_type(e: Expr, t: TypeKind) -> bool {
    match e.kind {
        ExprKind::Literal(l) => match (l.inner().kind, t) {
            (LiteralKind::Bool(_), TypeKind::Bool) => true,
            (LiteralKind::Number(_), TypeKind::Number) => true,
            (LiteralKind::String(_), TypeKind::String) => true,
            _ => false,
        },
        _ => false,
    }
}

/// How tightly a binary operator binds: the higher, the tighter.
pub open spec fn op_level(op: BinaryOp) -> nat {
    match op {
        BinaryOp::Or => 1,
        BinaryOp::And => 2,
        BinaryOp::Eq | BinaryOp::NotEq => 3,
        BinaryOp::Lt | BinaryOp::Gt | BinaryOp::LtEq | BinaryOp::GtEq => 4,
        BinaryOp::Plus | BinaryOp::Subtract => 5,
        BinaryOp::Multiply | BinaryOp::Divide | BinaryOp::Remainder => 6,
        BinaryOp::Dot => 7,
    }
}

/// An expression whose top operator, if it is a binary one, binds at least as
/// tightly as level `k`.
pub open spec fn binds_at_least(e: Expr, k: nat) -> bool {
    match e.kind {
        ExprKind::Binary(b) => op_level(b.inner().op) >= k,
        _ => true,
    }
}

/// An expression whose rightmost operand is a prefix operation: that takes
/// all that follows it, so nothing can follow the expression as an operand.
pub open spec fn open_right(e: Expr) -> bool
    decreases e,
{
    match e.kind {
        ExprKind::Unary(_) => true,
        ExprKind::Binary(b) => open_right(b.inner().rhs),
        _ => false,
    }
}

/// An expression that the grammar can build (a reference is built only as the
/// value of a variable declaration): a binary operator's left operand
/// binds at least as tightly as it does, and does not end in a prefix
/// operation, and its right operand binds more tightly (operators of one level
/// group to the left), range bounds are literals, variables or groups, and the
/// bodies of control flow are blocks.
pub open spec fn expr_wf(e: Expr) -> bool
    decreases e,
{
    match e.kind {
        ExprKind::Binary(b) => {
            &&& binds_at_least(b.inner().lhs, op_level(b.inner().op))
            &&& !open_right(b.inner().lhs)
            &&& binds_at_least(b.inner().rhs, op_level(b.inner().op) + 1)
            &&& expr_wf(b.inner().lhs)
            &&& expr_wf(b.inner().rhs)
        },
        ExprKind::Block(b) => b.inner().body.kind is Block && stmt_wf(b.inner().body),
        ExprKind::Empty() => true,
        ExprKind::For(f) => f.inner().body.kind is Block && expr_wf(f.inner().expr) && expr_wf(
            f.inner().body,
        ),
        ExprKind::FuncCall(f) => forall|i: int|
            0 <= i < f.inner().args@.len() ==> expr_wf(#[trigger] f.inner().args@[i]),
        ExprKind::Group(g) => expr_wf(g.inner()),
        ExprKind::If(x) => {
            &&& x.inner().body_then.kind is Block
            &&& expr_wf(x.inner().expr)
            &&& expr_wf(x.inner().body_then)
            &&& match x.inner().body_else {
                Some(b) => (b.kind is Block || b.kind is If) && expr_wf(b),
                None => true,
            }
        },
        ExprKind::Literal(_) => true,
        ExprKind::Range(r) => {
            &&& range_bound(r.inner().start)
            &&& range_bound(r.inner().end)
            &&& expr_wf(r.inner().start)
            &&& expr_wf(r.inner().end)
        },
        ExprKind::Ref(_) => false,
        ExprKind::Unary(u) => expr_wf(u.inner().expr),
        ExprKind::Var(_) => true,
        ExprKind::While(w) => w.inner().body.kind is Block && expr_wf(w.inner().expr) && expr_wf(
            w.inner().body,
        ),
    }
}

/// A statement that the grammar can build: a constant holds a literal of its
/// type, a function's argument list, when present, is not empty, and its body
/// is a block, and every expression within is one the
/// grammar can build.
pub open spec fn stmt_wf(s: Stmt) -> bool
    decreases s,
{
    match s.kind {
        StmtKind::Assignment(a) => expr_wf(a.inner().lhs) && expr_wf(a.inner().rhs),
        StmtKind::Block(ss) => forall|i: int| 0 <= i < ss.0@.len() ==> stmt_wf(#[trigger] ss.0@[i]),
        StmtKind::Connect(c) => expr_wf(c.inner().source) && expr_wf(c.inner().sink),
        StmtKind::ConstDecl(c) => literal_of_type(c.inner().value, c.inner().typeid),
        StmtKind::Expr(e) => expr_wf(e.inner()),
        StmtKind::FunctionDecl(f) => {
            &&& f.inner().body.kind is Block
            &&& stmt_wf(f.inner().body)
            &&& (f.inner().args matches Some(a) ==> a.0@.len() >= 1)
        },
        StmtKind::Print(p) => expr_wf(p.inner().expr),
        StmtKind::Return(r) => expr_wf(r.inner().expr),
        StmtKind::UseDecl(u) => expr_wf(u.inner().filename),
        StmtKind::VarDecl(v) => {
            &&& v.inner().id.kind is Var
            &&& match v.inner().value {
                Some(x) => match x.kind {
                    ExprKind::Ref(r) => expr_wf(r.inner().expr),
                    _ => expr_wf(x),
                },
                None => true,
            }
        },
    }
}

} // verus!
