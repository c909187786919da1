//! A readable text form of the syntax tree and of parse errors, for tests
//! and tools. The text form of the tree describes it; it is not Nexus source
//! and does not scan and parse back into the tree.
use vstd::prelude::*;
use crate::ast::{
    Assignment, BinaryExpr, BinaryOp, BlockExpr, Connect, ConstDecl, Expr, ExprKind, For, FuncCall,
    FunctionArg, FunctionArgs, FunctionDecl, If, Literal, LiteralKind, Print, Range, RangeKind, Ref,
    Return, Stmt, StmtKind, Stmts, TypeKind, UnaryExpr, UnaryOp, UseDecl, Var, VarDecl, While,
};
use crate::text::{chars_of, decimal_digits, push_char, u64_text};
use crate::parse_error::{ParseError, ParseErrorKind};
use crate::token::{Decimal, Token};

verus! {

/// The text of a decimal: its digits, with a point before the last `scale`
/// of them and a leading `0` before the point where needed.
pub open spec fn decimal_text(d: Decimal) -> Seq<char> {
    let ds = decimal_digits(d.mantissa as nat);
    let s = d.scale as int;
    if s == 0 {
        ds
    } else if ds.len() > s {
        ds.subrange(0, ds.len() - s) + seq!['.'] + ds.subrange(ds.len() - s, ds.len() as int)
    } else {
        seq!['0', '.'] + Seq::new((s - ds.len()) as nat, |i: int| '0') + ds
    }
}

impl Decimal {
    /// The decimal in positional notation, as `decimal_text` describes.
    pub fn to_text(&self) -> (r: String)
        ensures
            r@ == decimal_text(*self),
    {
        let digits = u64_text(self.mantissa);
        if self.scale == 0 {
            return digits;
        }
        let ds = chars_of(digits.as_str());
        let n = ds.len();
        let s = self.scale;
        let mut r = String::new();
        if n > s {
            let mut i: usize = 0;
            while i < n - s
                invariant
                    n == ds@.len(),
                    i <= n - s,
                    r@ == ds@.subrange(0, i as int),
                decreases n - s - i,
            {
                push_char(&mut r, ds[i]);
                i = i + 1;
                assert(r@ =~= ds@.subrange(0, i as int));
            }
            push_char(&mut r, '.');
            let ghost head = r@;
            while i < n
                invariant
                    n == ds@.len(),
                    s < n,
                    n - s <= i <= n,
                    head == ds@.subrange(0, (n - s) as int) + seq!['.'],
                    r@ == head + ds@.subrange((n - s) as int, i as int),
                decreases n - i,
            {
                push_char(&mut r, ds[i]);
                i = i + 1;
                assert(r@ =~= head + ds@.subrange((n - s) as int, i as int));
            }
            assert(r@ =~= decimal_text(*self));
        } else {
            push_char(&mut r, '0');
            push_char(&mut r, '.');
            let mut k: usize = 0;
            while k < s - n
                invariant
                    n == ds@.len(),
                    n <= s,
                    k <= s - n,
                    r@ == seq!['0', '.'] + Seq::new(k as nat, |i: int| '0'),
                decreases s - n - k,
            {
                push_char(&mut r, '0');
                k = k + 1;
                assert(r@ =~= seq!['0', '.'] + Seq::new(k as nat, |i: int| '0'));
            }
            let ghost head = r@;
            let mut i: usize = 0;
            while i < n
                invariant
                    n == ds@.len(),
                    i <= n,
                    r@ == head + ds@.subrange(0, i as int),
                decreases n - i,
            {
                push_char(&mut r, ds[i]);
                i = i + 1;
                assert(r@ =~= head + ds@.subrange(0, i as int));
            }
            assert(ds@.subrange(0, n as int) =~= ds@);
            assert(r@ =~= decimal_text(*self));
        }
        r
    }
}

/// Texts separated by `, `.
pub open spec fn join(parts: Seq<Seq<char>>) -> Seq<char>
    decreases parts.len(),
{
    if parts.len() == 0 {
        seq![]
    } else if parts.len() == 1 {
        parts[0]
    } else {
        join(parts.drop_last()) + ", "@ + parts.last()
    }
}

/// Texts separated by `, `, or `(empty)` when there are none.
pub open spec fn list_text(parts: Seq<Seq<char>>) -> Seq<char> {
    if parts.len() == 0 {
        "(empty)"@
    } else {
        join(parts)
    }
}

pub open spec fn type_text(t: TypeKind) -> Seq<char> {
    match t {
        TypeKind::Bool => "Bool"@,
        TypeKind::Group => "Group"@,
        TypeKind::Node => "Node"@,
        TypeKind::Number => "Number"@,
        TypeKind::String => "String"@,
    }
}

pub open spec fn binary_op_text(op: BinaryOp) -> Seq<char> {
    match op {
        BinaryOp::And => "And"@,
        BinaryOp::Divide => "Divide"@,
        BinaryOp::Dot => "Dot"@,
        BinaryOp::Eq => "Eq"@,
        BinaryOp::Gt => "Gt"@,
        BinaryOp::GtEq => "GtEq"@,
        BinaryOp::Lt => "Lt"@,
        BinaryOp::LtEq => "LtEq"@,
        BinaryOp::Multiply => "Multiply"@,
        BinaryOp::NotEq => "NotEq"@,
        BinaryOp::Or => "Or"@,
        BinaryOp::Plus => "Plus"@,
        BinaryOp::Remainder => "Remainder"@,
        BinaryOp::Subtract => "Subtract"@,
    }
}

pub open spec fn unary_op_text(op: UnaryOp) -> Seq<char> {
    match op {
        UnaryOp::Bang => "Bang"@,
        UnaryOp::Group => "Group"@,
        UnaryOp::Minus => "Minus"@,
        UnaryOp::Node => "Node"@,
        UnaryOp::Plus => "Plus"@,
    }
}

pub open spec fn range_kind_text(k: RangeKind) -> Seq<char> {
    match k {
        RangeKind::Exclusive => ".."@,
        RangeKind::Inclusive => "..="@,
    }
}

pub open spec fn literal_text(k: LiteralKind) -> Seq<char> {
    match k {
        LiteralKind::Bool(true) => "Bool { true }"@,
        LiteralKind::Bool(false) => "Bool { false }"@,
        LiteralKind::Number(d) => "Number { "@ + decimal_text(d) + " }"@,
        LiteralKind::String(s) => "String { \""@ + s@ + "\" }"@,
    }
}

pub open spec fn var_text(v: Var) -> Seq<char> {
    "Var { "@ + v.id@ + " }"@
}

pub open spec fn arg_text(a: FunctionArg) -> Seq<char> {
    "Arg { "@ + a.id@ + " : "@ + type_text(a.typeid) + " }"@
}

pub open spec fn args_text(a: FunctionArgs) -> Seq<char> {
    list_text(Seq::new(a.0@.len(), |i: int| arg_text(a.0@[i])))
}

/// The texts of the statements, one each.
pub open spec fn stmt_texts(ss: Stmts) -> Seq<Seq<char>>
    decreases ss, 0nat,
{
    Seq::new(
        ss.0@.len(),
        |i: int|
            if 0 <= i < ss.0@.len() {
                stmt_text(ss.0@[i])
            } else {
                seq![]
            },
    )
}

/// The text of the statements, in order.
pub open spec fn stmts_text(ss: Stmts) -> Seq<char>
    decreases ss, 1nat,
{
    list_text(stmt_texts(ss))
}

/// The text of a statement: its kind, and its parts.
pub open spec fn stmt_text(s: Stmt) -> Seq<char>
    decreases s, 0nat,
{
    match s.kind {
        StmtKind::Assignment(x) => "AssignmentStmt { "@ + assignment_text(x.inner()) + " }"@,
        StmtKind::Block(x) => "BlockStmt { "@ + stmts_text(x) + " }"@,
        StmtKind::Connect(x) => "ConnectStmt { "@ + connect_text(x.inner()) + " }"@,
        StmtKind::ConstDecl(x) => "ConstDeclStmt { "@ + const_text(x.inner()) + " }"@,
        StmtKind::Expr(x) => "ExprStmt { "@ + expr_text(x.inner()) + " }"@,
        StmtKind::FunctionDecl(x) => "FunctionDeclStmt { "@ + function_text(x.inner()) + " }"@,
        StmtKind::Print(x) => "PrintStmt { "@ + print_text(x.inner()) + " }"@,
        StmtKind::Return(x) => "ReturnStmt { "@ + return_text(x.inner()) + " }"@,
        StmtKind::UseDecl(x) => "UseDeclStmt { "@ + use_text(x.inner()) + " }"@,
        StmtKind::VarDecl(x) => "VarDeclStmt { "@ + var_decl_text(x.inner()) + " }"@,
    }
}

/// The text of an expression: its kind, and its parts.
pub open spec fn expr_text(e: Expr) -> Seq<char>
    decreases e, 0nat,
{
    match e.kind {
        ExprKind::Binary(x) => "BinaryExpr { "@ + binary_text(x.inner()) + " }"@,
        ExprKind::Block(x) => "BlockExpr { "@ + stmt_text(x.inner().body) + " }"@,
        ExprKind::Empty() => "EmptyExpr"@,
        ExprKind::For(x) => "ForExpr { "@ + for_text(x.inner()) + " }"@,
        ExprKind::FuncCall(x) => "FuncCallExpr { "@ + call_text(x.inner()) + " }"@,
        ExprKind::Group(x) => "GroupExpr { ( "@ + expr_text(x.inner()) + " ) }"@,
        ExprKind::If(x) => "IfExpr { "@ + if_text(x.inner()) + " }"@,
        ExprKind::Literal(x) => "LiteralExpr { "@ + literal_text(x.inner().kind) + " }"@,
        ExprKind::Range(x) => "RangeExpr { "@ + range_text(x.inner()) + " }"@,
        ExprKind::Ref(x) => "RefExpr { "@ + ref_text(x.inner()) + " }"@,
        ExprKind::Unary(x) => "UnaryExpr { "@ + unary_text(x.inner()) + " }"@,
        ExprKind::Var(x) => "VarExpr { "@ + var_text(x.inner()) + " }"@,
        ExprKind::While(x) => "WhileExpr { "@ + while_text(x.inner()) + " }"@,
    }
}

pub open spec fn binary_text(b: BinaryExpr) -> Seq<char>
    decreases b, 0nat,
{
    expr_text(b.lhs) + " "@ + binary_op_text(b.op) + " "@ + expr_text(b.rhs)
}

pub open spec fn const_text(c: ConstDecl) -> Seq<char>
    decreases c, 0nat,
{
    "Const("@ + type_text(c.typeid) + ": "@ + expr_text(c.value) + ")"@
}

pub open spec fn use_text(u: UseDecl) -> Seq<char>
    decreases u, 0nat,
{
    "UseDecl "@ + expr_text(u.filename)
}

pub open spec fn for_text(f: For) -> Seq<char>
    decreases f, 0nat,
{
    "for { "@ + f.id@ + " } in { "@ + expr_text(f.expr) + " } do { "@ + expr_text(f.body) + " }"@
}

pub open spec fn unary_text(u: UnaryExpr) -> Seq<char>
    decreases u, 0nat,
{
    unary_op_text(u.op) + " "@ + expr_text(u.expr)
}

pub open spec fn assignment_text(a: Assignment) -> Seq<char>
    decreases a, 0nat,
{
    "Assignment { "@ + expr_text(a.lhs) + " = "@ + expr_text(a.rhs) + " }"@
}

pub open spec fn connect_text(c: Connect) -> Seq<char>
    decreases c, 0nat,
{
    "Connect { "@ + expr_text(c.source) + " -> "@ + expr_text(c.sink) + " }"@
}

pub open spec fn print_text(p: Print) -> Seq<char>
    decreases p, 0nat,
{
    "Print { "@ + expr_text(p.expr) + " }"@
}

pub open spec fn return_text(r: Return) -> Seq<char>
    decreases r, 0nat,
{
    "Return { "@ + expr_text(r.expr) + " }"@
}

pub open spec fn range_text(r: Range) -> Seq<char>
    decreases r, 0nat,
{
    "Range { "@ + expr_text(r.start) + " "@ + range_kind_text(r.kind) + " "@ + expr_text(r.end) + " }"@
}

pub open spec fn ref_text(r: Ref) -> Seq<char>
    decreases r, 0nat,
{
    "Ref { "@ + expr_text(r.expr) + " }"@
}

pub open spec fn while_text(w: While) -> Seq<char>
    decreases w, 0nat,
{
    "while { "@ + expr_text(w.expr) + " } do { "@ + expr_text(w.body) + " }"@
}

pub open spec fn if_text(x: If) -> Seq<char>
    decreases x, 0nat,
{
    "if { "@ + expr_text(x.expr) + " } then { "@ + expr_text(x.body_then) + " }"@ + match x.body_else {
        Some(e) => " else { "@ + expr_text(e) + " }"@,
        None => seq![],
    }
}

pub open spec fn var_decl_text(v: VarDecl) -> Seq<char>
    decreases v, 0nat,
{
    "VarDecl { "@ + expr_text(v.id) + " "@ + (if v.mutable {
        "mut "@
    } else {
        seq![]
    }) + ": "@ + match v.typeid {
        Some(t) => type_text(t),
        None => "unknown"@,
    } + " = "@ + match v.value {
        Some(x) => expr_text(x),
        None => "unknown"@,
    } + " }"@
}

pub open spec fn function_text(f: FunctionDecl) -> Seq<char>
    decreases f, 0nat,
{
    "FunctionDecl { "@ + f.id@ + " ("@ + match f.args {
        Some(a) => args_text(a),
        None => seq![],
    } + ") -> "@ + match f.ret_type {
        Some(t) => type_text(t),
        None => "unknown"@,
    } + " { "@ + stmt_text(f.body) + " } }"@
}

/// The texts of a call's arguments, one each.
pub open spec fn arg_texts(f: FuncCall) -> Seq<Seq<char>>
    decreases f, 0nat,
{
    Seq::new(
        f.args@.len(),
        |i: int|
            if 0 <= i < f.args@.len() {
                expr_text(f.args@[i])
            } else {
                seq![]
            },
    )
}

pub open spec fn call_text(f: FuncCall) -> Seq<char>
    decreases f, 1nat,
{
    "FuncCall { "@ + f.id@ + " ("@ + join(arg_texts(f)) + ") }"@
}

impl TypeKind {
    /// The name of the type.
    pub fn to_text(&self) -> (r: String)
        ensures
            r@ == type_text(*self),
    {
        match self {
            TypeKind::Bool => "Bool".to_owned(),
            TypeKind::Group => "Group".to_owned(),
            TypeKind::Node => "Node".to_owned(),
            TypeKind::Number => "Number".to_owned(),
            TypeKind::String => "String".to_owned(),
        }
    }
}

impl BinaryOp {
    /// The name of the operator.
    pub fn to_text(&self) -> (r: String)
        ensures
            r@ == binary_op_text(*self),
    {
        match self {
            BinaryOp::And => "And".to_owned(),
            BinaryOp::Divide => "Divide".to_owned(),
            BinaryOp::Dot => "Dot".to_owned(),
            BinaryOp::Eq => "Eq".to_owned(),
            BinaryOp::Gt => "Gt".to_owned(),
            BinaryOp::GtEq => "GtEq".to_owned(),
            BinaryOp::Lt => "Lt".to_owned(),
            BinaryOp::LtEq => "LtEq".to_owned(),
            BinaryOp::Multiply => "Multiply".to_owned(),
            BinaryOp::NotEq => "NotEq".to_owned(),
            BinaryOp::Or => "Or".to_owned(),
            BinaryOp::Plus => "Plus".to_owned(),
            BinaryOp::Remainder => "Remainder".to_owned(),
            BinaryOp::Subtract => "Subtract".to_owned(),
        }
    }
}

impl UnaryOp {
    /// The name of the operator.
    pub fn to_text(&self) -> (r: String)
        ensures
            r@ == unary_op_text(*self),
    {
        match self {
            UnaryOp::Bang => "Bang".to_owned(),
            UnaryOp::Group => "Group".to_owned(),
            UnaryOp::Minus => "Minus".to_owned(),
            UnaryOp::Node => "Node".to_owned(),
            UnaryOp::Plus => "Plus".to_owned(),
        }
    }
}

impl RangeKind {
    /// The range operator.
    pub fn to_text(&self) -> (r: String)
        ensures
            r@ == range_kind_text(*self),
    {
        match self {
            RangeKind::Exclusive => "..".to_owned(),
            RangeKind::Inclusive => "..=".to_owned(),
        }
    }
}

impl LiteralKind {
    /// The literal, tagged with its kind.
    pub fn to_text(&self) -> (r: String)
        ensures
            r@ == literal_text(*self),
    {
        match self {
            LiteralKind::Bool(true) => "Bool { true }".to_owned(),
            LiteralKind::Bool(false) => "Bool { false }".to_owned(),
            LiteralKind::Number(d) => {
                let mut r = "Number { ".to_owned();
                let t = d.to_text();
                r.append(t.as_str());
                r.append(" }");
                r
            },
            LiteralKind::String(s) => {
                let mut r = "String { \"".to_owned();
                r.append(s.as_str());
                r.append("\" }");
                r
            },
        }
    }
}

impl Var {
    /// The variable's name, tagged.
    pub fn to_text(&self) -> (r: String)
        ensures
            r@ == var_text(*self),
    {
        let mut r = "Var { ".to_owned();
        r.append(self.id.as_str());
        r.append(" }");
        r
    }
}

impl FunctionArg {
    /// The argument with its type.
    pub fn to_text(&self) -> (r: String)
        ensures
            r@ == arg_text(*self),
    {
        let mut r = "Arg { ".to_owned();
        r.append(self.id.as_str());
        r.append(" : ");
        let t = self.typeid.to_text();
        r.append(t.as_str());
        r.append(" }");
        r
    }
}

/// `tag`, then `inner`, then ` }`.
fn tagged(tag: &str, inner: String) -> (r: String)
    ensures
        r@ == tag@ + inner@ + " }"@,
{
    let mut r = tag.to_owned();
    r.append(inner.as_str());
    r.append(" }");
    r
}

proof fn lemma_join_next(parts: Seq<Seq<char>>, i: int)
    requires
        0 <= i < parts.len(),
    ensures
        join(parts.subrange(0, i + 1)) == if i == 0 {
            parts[0]
        } else {
            join(parts.subrange(0, i)) + ", "@ + parts[i]
        },
{
    assert(parts.subrange(0, i + 1).drop_last() =~= parts.subrange(0, i));
}

impl FunctionArgs {
    /// The arguments separated by commas, or `(empty)`.
    pub fn to_text(&self) -> (r: String)
        ensures
            r@ == args_text(*self),
    {
        let ghost parts = Seq::new(self.0@.len(), |i: int| arg_text(self.0@[i]));
        if self.0.len() == 0 {
            return "(empty)".to_owned();
        }
        let mut r = String::new();
        let mut i: usize = 0;
        assert(parts.subrange(0, 0) =~= seq![]);
        while i < self.0.len()
            invariant
                i <= self.0@.len(),
                parts == Seq::new(self.0@.len(), |i: int| arg_text(self.0@[i])),
                r@ == join(parts.subrange(0, i as int)),
            decreases self.0@.len() - i,
        {
            proof {
                lemma_join_next(parts, i as int);
            }
            if i > 0 {
                r.append(", ");
            }
            let t = self.0[i].to_text();
            r.append(t.as_str());
            i = i + 1;
        }
        assert(parts.subrange(0, i as int) =~= parts);
        r
    }
}

impl Stmts {
    /// The statements separated by commas, or `(empty)`.
    pub fn to_text(&self) -> (r: String)
        ensures
            r@ == stmts_text(*self),
        decreases *self, 0nat,
    {
        let ghost parts = stmt_texts(*self);
        if self.0.len() == 0 {
            return "(empty)".to_owned();
        }
        let mut r = String::new();
        let mut i: usize = 0;
        assert(parts.subrange(0, 0) =~= seq![]);
        while i < self.0.len()
            invariant
                i <= self.0@.len(),
                parts == stmt_texts(*self),
                r@ == join(parts.subrange(0, i as int)),
            decreases self.0@.len() - i,
        {
            proof {
                lemma_join_next(parts, i as int);
                broadcast use vstd::std_specs::vec::axiom_vec_index_decreases;
                assert(decreases_to!(self.0 => self.0@[i as int]));
            }
            if i > 0 {
                r.append(", ");
            }
            let t = self.0[i].to_text();
            r.append(t.as_str());
            i = i + 1;
        }
        assert(parts.subrange(0, i as int) =~= parts);
        r
    }
}

impl Stmt {
    /// The statement, tagged with its kind.
    pub fn to_text(&self) -> (r: String)
        ensures
            r@ == stmt_text(*self),
        decreases *self, 0nat,
    {
        match &self.kind {
            StmtKind::Assignment(x) => tagged("AssignmentStmt { ", x.get().to_text()),
            StmtKind::Block(x) => tagged("BlockStmt { ", x.to_text()),
            StmtKind::Connect(x) => tagged("ConnectStmt { ", x.get().to_text()),
            StmtKind::ConstDecl(x) => tagged("ConstDeclStmt { ", x.get().to_text()),
            StmtKind::Expr(x) => tagged("ExprStmt { ", x.get().to_text()),
            StmtKind::FunctionDecl(x) => tagged("FunctionDeclStmt { ", x.get().to_text()),
            StmtKind::Print(x) => tagged("PrintStmt { ", x.get().to_text()),
            StmtKind::Return(x) => tagged("ReturnStmt { ", x.get().to_text()),
            StmtKind::UseDecl(x) => tagged("UseDeclStmt { ", x.get().to_text()),
            StmtKind::VarDecl(x) => tagged("VarDeclStmt { ", x.get().to_text()),
        }
    }
}

impl Expr {
    /// The expression, tagged with its kind.
    pub fn to_text(&self) -> (r: String)
        ensures
            r@ == expr_text(*self),
        decreases *self, 0nat,
    {
        match &self.kind {
            ExprKind::Binary(x) => tagged("BinaryExpr { ", x.get().to_text()),
            ExprKind::Block(x) => tagged("BlockExpr { ", x.get().body.to_text()),
            ExprKind::Empty() => "EmptyExpr".to_owned(),
            ExprKind::For(x) => tagged("ForExpr { ", x.get().to_text()),
            ExprKind::FuncCall(x) => tagged("FuncCallExpr { ", x.get().to_text()),
            ExprKind::Group(x) => {
                let mut r = "GroupExpr { ( ".to_owned();
                let t = x.get().to_text();
                r.append(t.as_str());
                r.append(" ) }");
                r
            },
            ExprKind::If(x) => tagged("IfExpr { ", x.get().to_text()),
            ExprKind::Literal(x) => tagged("LiteralExpr { ", x.get().kind.to_text()),
            ExprKind::Range(x) => tagged("RangeExpr { ", x.get().to_text()),
            ExprKind::Ref(x) => tagged("RefExpr { ", x.get().to_text()),
            ExprKind::Unary(x) => tagged("UnaryExpr { ", x.get().to_text()),
            ExprKind::Var(x) => tagged("VarExpr { ", x.get().to_text()),
            ExprKind::While(x) => tagged("WhileExpr { ", x.get().to_text()),
        }
    }
}

impl BinaryExpr {
    /// The operands around the operator.
    pub fn to_text(&self) -> (r: String)
        ensures
            r@ == binary_text(*self),
        decreases *self, 0nat,
    {
        let mut r = String::new();
        let t = self.lhs.to_text();
        r.append(t.as_str());
        r.append(" ");
        let t = self.op.to_text();
        r.append(t.as_str());
        r.append(" ");
        let t = self.rhs.to_text();
        r.append(t.as_str());
        r
    }
}

impl ConstDecl {
    /// The constant's type and value.
    pub fn to_text(&self) -> (r: String)
        ensures
            r@ == const_text(*self),
        decreases *self, 0nat,
    {
        let mut r = String::new();
        r.append("Const(");
        let t = self.typeid.to_text();
        r.append(t.as_str());
        r.append(": ");
        let t = self.value.to_text();
        r.append(t.as_str());
        r.append(")");
        r
    }
}

impl UseDecl {
    /// The file used.
    pub fn to_text(&self) -> (r: String)
        ensures
            r@ == use_text(*self),
        decreases *self, 0nat,
    {
        let mut r = String::new();
        r.append("UseDecl ");
        let t = self.filename.to_text();
        r.append(t.as_str());
        r
    }
}

impl For {
    /// The binder, the iterable and the body.
    pub fn to_text(&self) -> (r: String)
        ensures
            r@ == for_text(*self),
        decreases *self, 0nat,
    {
        let mut r = String::new();
        r.append("for { ");
        r.append(self.id.as_str());
        r.append(" } in { ");
        let t = self.expr.to_text();
        r.append(t.as_str());
        r.append(" } do { ");
        let t = self.body.to_text();
        r.append(t.as_str());
        r.append(" }");
        r
    }
}

impl UnaryExpr {
    /// The operator before its operand.
    pub fn to_text(&self) -> (r: String)
        ensures
            r@ == unary_text(*self),
        decreases *self, 0nat,
    {
        let mut r = String::new();
        let t = self.op.to_text();
        r.append(t.as_str());
        r.append(" ");
        let t = self.expr.to_text();
        r.append(t.as_str());
        r
    }
}

impl Assignment {
    /// The target and the value.
    pub fn to_text(&self) -> (r: String)
        ensures
            r@ == assignment_text(*self),
        decreases *self, 0nat,
    {
        let mut r = String::new();
        r.append("Assignment { ");
        let t = self.lhs.to_text();
        r.append(t.as_str());
        r.append(" = ");
        let t = self.rhs.to_text();
        r.append(t.as_str());
        r.append(" }");
        r
    }
}

impl Connect {
    /// The source and the sink.
    pub fn to_text(&self) -> (r: String)
        ensures
            r@ == connect_text(*self),
        decreases *self, 0nat,
    {
        let mut r = String::new();
        r.append("Connect { ");
        let t = self.source.to_text();
        r.append(t.as_str());
        r.append(" -> ");
        let t = self.sink.to_text();
        r.append(t.as_str());
        r.append(" }");
        r
    }
}

impl Print {
    /// The expression printed.
    pub fn to_text(&self) -> (r: String)
        ensures
            r@ == print_text(*self),
        decreases *self, 0nat,
    {
        let mut r = String::new();
        r.append("Print { ");
        let t = self.expr.to_text();
        r.append(t.as_str());
        r.append(" }");
        r
    }
}

impl Return {
    /// The expression returned.
    pub fn to_text(&self) -> (r: String)
        ensures
            r@ == return_text(*self),
        decreases *self, 0nat,
    {
        let mut r = String::new();
        r.append("Return { ");
        let t = self.expr.to_text();
        r.append(t.as_str());
        r.append(" }");
        r
    }
}

impl Range {
    /// The bounds around the range operator.
    pub fn to_text(&self) -> (r: String)
        ensures
            r@ == range_text(*self),
        decreases *self, 0nat,
    {
        let mut r = String::new();
        r.append("Range { ");
        let t = self.start.to_text();
        r.append(t.as_str());
        r.append(" ");
        let t = self.kind.to_text();
        r.append(t.as_str());
        r.append(" ");
        let t = self.end.to_text();
        r.append(t.as_str());
        r.append(" }");
        r
    }
}

impl Ref {
    /// The expression referred to.
    pub fn to_text(&self) -> (r: String)
        ensures
            r@ == ref_text(*self),
        decreases *self, 0nat,
    {
        let mut r = String::new();
        r.append("Ref { ");
        let t = self.expr.to_text();
        r.append(t.as_str());
        r.append(" }");
        r
    }
}

impl While {
    /// The condition and the body.
    pub fn to_text(&self) -> (r: String)
        ensures
            r@ == while_text(*self),
        decreases *self, 0nat,
    {
        let mut r = String::new();
        r.append("while { ");
        let t = self.expr.to_text();
        r.append(t.as_str());
        r.append(" } do { ");
        let t = self.body.to_text();
        r.append(t.as_str());
        r.append(" }");
        r
    }
}

impl If {
    /// The condition, the branch taken and the other one, if any.
    pub fn to_text(&self) -> (r: String)
        ensures
            r@ == if_text(*self),
        decreases *self, 0nat,
    {
        let mut r = "if { ".to_owned();
        let t = self.expr.to_text();
        r.append(t.as_str());
        r.append(" } then { ");
        let t = self.body_then.to_text();
        r.append(t.as_str());
        r.append(" }");
        let ghost head = r@;
        if let Some(e) = &self.body_else {
            r.append(" else { ");
            let t = e.to_text();
            r.append(t.as_str());
            r.append(" }");
        } else {
            assert(r@ =~= head + seq![]);
        }
        r
    }
}

impl VarDecl {
    /// The variable, whether it is mutable, its type and its value.
    pub fn to_text(&self) -> (r: String)
        ensures
            r@ == var_decl_text(*self),
        decreases *self, 0nat,
    {
        let mut r = "VarDecl { ".to_owned();
        let t = self.id.to_text();
        r.append(t.as_str());
        r.append(" ");
        let ghost head = r@;
        if self.mutable {
            r.append("mut ");
        } else {
            assert(r@ =~= head + seq![]);
        }
        r.append(": ");
        match &self.typeid {
            Some(t) => {
                let t = t.to_text();
                r.append(t.as_str());
            },
            None => r.append("unknown"),
        }
        r.append(" = ");
        match &self.value {
            Some(v) => {
                let t = v.to_text();
                r.append(t.as_str());
            },
            None => r.append("unknown"),
        }
        r.append(" }");
        r
    }
}

impl FunctionDecl {
    /// The name, the arguments, the return type and the body.
    pub fn to_text(&self) -> (r: String)
        ensures
            r@ == function_text(*self),
        decreases *self, 0nat,
    {
        let mut r = "FunctionDecl { ".to_owned();
        r.append(self.id.as_str());
        r.append(" (");
        let ghost head = r@;
        if let Some(a) = &self.args {
            let t = a.to_text();
            r.append(t.as_str());
        } else {
            assert(r@ =~= head + seq![]);
        }
        r.append(") -> ");
        match &self.ret_type {
            Some(t) => {
                let t = t.to_text();
                r.append(t.as_str());
            },
            None => r.append("unknown"),
        }
        r.append(" { ");
        let t = self.body.to_text();
        r.append(t.as_str());
        r.append(" } }");
        r
    }
}

impl FuncCall {
    /// The name and the arguments.
    pub fn to_text(&self) -> (r: String)
        ensures
            r@ == call_text(*self),
        decreases *self, 0nat,
    {
        let ghost parts = arg_texts(*self);
        let mut r = "FuncCall { ".to_owned();
        r.append(self.id.as_str());
        r.append(" (");
        let ghost head = r@;
        let mut i: usize = 0;
        assert(parts.subrange(0, 0) =~= seq![]);
        assert(r@ =~= head + join(parts.subrange(0, 0)));
        while i < self.args.len()
            invariant
                i <= self.args@.len(),
                parts == arg_texts(*self),
                r@ == head + join(parts.subrange(0, i as int)),
            decreases self.args@.len() - i,
        {
            proof {
                lemma_join_next(parts, i as int);
                broadcast use vstd::std_specs::vec::axiom_vec_index_decreases;
                assert(decreases_to!(self.args => self.args@[i as int]));
            }
            if i > 0 {
                r.append(", ");
            }
            let t = self.args[i].to_text();
            r.append(t.as_str());
            i = i + 1;
        }
        assert(parts.subrange(0, i as int) =~= parts);
        r.append(") }");
        r
    }
}


/// The text of a token in a message: its lexeme, a name, a number, or a
/// string literal in quotes.
pub open spec fn token_text(t: Token) -> Seq<char> {
    match t {
        Token::LeftParen => "("@,
        Token::RightParen => ")"@,
        Token::LeftBrace => "{"@,
        Token::RightBrace => "}"@,
        Token::LeftBracket => "["@,
        Token::RightBracket => "]"@,
        Token::Colon => ":"@,
        Token::SemiColon => ";"@,
        Token::Amp => "&"@,
        Token::Plus => "+"@,
        Token::Minus => "-"@,
        Token::Arrow => "->"@,
        Token::Star => "*"@,
        Token::Slash => "/"@,
        Token::BackSlash => "\\"@,
        Token::Percent => "%"@,
        Token::Comma => ","@,
        Token::Dot => "."@,
        Token::Range => ".."@,
        Token::Underscore => "_"@,
        Token::Is => "="@,
        Token::Eq => "=="@,
        Token::Gt => ">"@,
        Token::GtEq => ">="@,
        Token::Lt => "<"@,
        Token::LtEq => "<="@,
        Token::Bang => "!"@,
        Token::NotEq => "!="@,
        Token::And => "&&"@,
        Token::Or => "||"@,
        Token::EmptyClosure => "||"@,
        Token::Pipe => "|"@,
        Token::True => "true"@,
        Token::False => "false"@,
        Token::Const => "const"@,
        Token::Let => "let"@,
        Token::Mut => "mut"@,
        Token::Function => "fn"@,
        Token::If => "if"@,
        Token::Else => "else"@,
        Token::For => "for"@,
        Token::In => "in"@,
        Token::While => "while"@,
        Token::Return => "return"@,
        Token::Use => "use"@,
        Token::Print => "print"@,
        Token::Node => "node"@,
        Token::Group => "group"@,
        Token::BoolId => "bool"@,
        Token::NumberId => "Number"@,
        Token::StringId => "String"@,
        Token::NodeId => "Node"@,
        Token::GroupId => "Group"@,
        Token::Number(d) => decimal_text(d),
        Token::Identifier(s) => s@,
        Token::String(s) => "\""@ + s@ + "\""@,
    }
}

impl Token {
    /// The text of the token, as `token_text` describes.
    pub fn to_text(&self) -> (r: String)
        ensures
            r@ == token_text(*self),
    {
        match self {
            Token::LeftParen => "(".to_owned(),
            Token::RightParen => ")".to_owned(),
            Token::LeftBrace => "{".to_owned(),
            Token::RightBrace => "}".to_owned(),
            Token::LeftBracket => "[".to_owned(),
            Token::RightBracket => "]".to_owned(),
            Token::Colon => ":".to_owned(),
            Token::SemiColon => ";".to_owned(),
            Token::Amp => "&".to_owned(),
            Token::Plus => "+".to_owned(),
            Token::Minus => "-".to_owned(),
            Token::Arrow => "->".to_owned(),
            Token::Star => "*".to_owned(),
            Token::Slash => "/".to_owned(),
            Token::BackSlash => "\\".to_owned(),
            Token::Percent => "%".to_owned(),
            Token::Comma => ",".to_owned(),
            Token::Dot => ".".to_owned(),
            Token::Range => "..".to_owned(),
            Token::Underscore => "_".to_owned(),
            Token::Is => "=".to_owned(),
            Token::Eq => "==".to_owned(),
            Token::Gt => ">".to_owned(),
            Token::GtEq => ">=".to_owned(),
            Token::Lt => "<".to_owned(),
            Token::LtEq => "<=".to_owned(),
            Token::Bang => "!".to_owned(),
            Token::NotEq => "!=".to_owned(),
            Token::And => "&&".to_owned(),
            Token::Or => "||".to_owned(),
            Token::EmptyClosure => "||".to_owned(),
            Token::Pipe => "|".to_owned(),
            Token::True => "true".to_owned(),
            Token::False => "false".to_owned(),
            Token::Const => "const".to_owned(),
            Token::Let => "let".to_owned(),
            Token::Mut => "mut".to_owned(),
            Token::Function => "fn".to_owned(),
            Token::If => "if".to_owned(),
            Token::Else => "else".to_owned(),
            Token::For => "for".to_owned(),
            Token::In => "in".to_owned(),
            Token::While => "while".to_owned(),
            Token::Return => "return".to_owned(),
            Token::Use => "use".to_owned(),
            Token::Print => "print".to_owned(),
            Token::Node => "node".to_owned(),
            Token::Group => "group".to_owned(),
            Token::BoolId => "bool".to_owned(),
            Token::NumberId => "Number".to_owned(),
            Token::StringId => "String".to_owned(),
            Token::NodeId => "Node".to_owned(),
            Token::GroupId => "Group".to_owned(),
            Token::Number(d) => d.to_text(),
            Token::Identifier(s) => s.clone(),
            Token::String(s) => {
                let mut r = "\"".to_owned();
                r.append(s.as_str());
                r.append("\"");
                r
            },
        }
    }
}

/// The text of a parse error.
pub open spec fn parse_error_text(e: ParseError) -> Seq<char> {
    "error: "@ + match e.kind {
        ParseErrorKind::Expected(t) => "expected '"@ + token_text(t) + "'"@,
        ParseErrorKind::ExpectedReason(t, m) => "expected '"@ + token_text(t) + "': "@ + m@,
        ParseErrorKind::Unexpected(t) => "unexpected '"@ + token_text(t) + "'"@,
        ParseErrorKind::UnexpectedEos(m) => "unexpected end of input in "@ + m@,
        ParseErrorKind::KeywordAsIdentifier(t) => "keyword '"@ + token_text(t) + "' used as identifier"@,
        ParseErrorKind::RangeDelimiter => "range bounds must be literals, variables or groups"@,
        ParseErrorKind::Custom(m) => m@,
    }
}

impl ParseError {
    /// A readable message for the error, as `parse_error_text` describes.
    pub fn render(&self) -> (r: String)
        ensures
            r@ == parse_error_text(*self),
    {
        let mut r = "error: ".to_owned();
        match &self.kind {
            ParseErrorKind::Expected(t) => {
                r.append("expected '");
                let x = t.to_text();
                r.append(x.as_str());
                r.append("'");
            },
            ParseErrorKind::ExpectedReason(t, m) => {
                r.append("expected '");
                let x = t.to_text();
                r.append(x.as_str());
                r.append("': ");
                r.append(m.as_str());
            },
            ParseErrorKind::Unexpected(t) => {
                r.append("unexpected '");
                let x = t.to_text();
                r.append(x.as_str());
                r.append("'");
            },
            ParseErrorKind::UnexpectedEos(m) => {
                r.append("unexpected end of input in ");
                r.append(m.as_str());
            },
            ParseErrorKind::KeywordAsIdentifier(t) => {
                r.append("keyword '");
                let x = t.to_text();
                r.append(x.as_str());
                r.append("' used as identifier");
            },
            ParseErrorKind::RangeDelimiter => {
                r.append("range bounds must be literals, variables or groups");
            },
            ParseErrorKind::Custom(m) => {
                r.append(m.as_str());
            },
        }
        r
    }
}

} // verus!
