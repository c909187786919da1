//! The tokens that a syntax tree spells. The parser's results spell exactly
//! the tokens it consumed.
use vstd::prelude::*;
use crate::ast::{
    BinaryOp, Expr, ExprKind, FuncCall, FunctionArg, FunctionArgs, LiteralKind, RangeKind, Stmt,
    StmtKind, Stmts, TypeKind, UnaryOp,
};
use crate::token::{Token, TokenView};

verus! {

/// The view of the token at `p`, if there is one.
pub open spec fn tok(ts: Seq<Token>, p: int) -> Option<TokenView> {
    if 0 <= p < ts.len() {
        Some(ts[p]@)
    } else {
        None
    }
}

/// A token without text, as a view.
pub open spec fn plain(t: Token) -> TokenView {
    TokenView::Plain(t)
}

/// `p + 1`, when the token at `p` is `t`.
pub open spec fn after(ts: Seq<Token>, p: int, t: TokenView) -> Option<int> {
    if tok(ts, p) == Some(t) {
        Some(p + 1)
    } else {
        None
    }
}

/// The token of a binary operator.
pub open spec fn op_token(op: BinaryOp) -> Token {
    match op {
        BinaryOp::And => Token::And,
        BinaryOp::Divide => Token::Slash,
        BinaryOp::Dot => Token::Dot,
        BinaryOp::Eq => Token::Eq,
        BinaryOp::Gt => Token::Gt,
        BinaryOp::GtEq => Token::GtEq,
        BinaryOp::Lt => Token::Lt,
        BinaryOp::LtEq => Token::LtEq,
        BinaryOp::Multiply => Token::Star,
        BinaryOp::NotEq => Token::NotEq,
        BinaryOp::Or => Token::Or,
        BinaryOp::Plus => Token::Plus,
        BinaryOp::Remainder => Token::Percent,
        BinaryOp::Subtract => Token::Minus,
    }
}

/// The token of a prefix operator.
pub open spec fn unary_token(op: UnaryOp) -> Token {
    match op {
        UnaryOp::Bang => Token::Bang,
        UnaryOp::Group => Token::Group,
        UnaryOp::Minus => Token::Minus,
        UnaryOp::Node => Token::Node,
        UnaryOp::Plus => Token::Plus,
    }
}

/// The token of a type name.
pub open spec fn type_token(t: TypeKind) -> Token {
    match t {
        TypeKind::Bool => Token::BoolId,
        TypeKind::Group => Token::GroupId,
        TypeKind::Node => Token::NodeId,
        TypeKind::Number => Token::NumberId,
        TypeKind::String => Token::StringId,
    }
}

/// The token of a literal.
pub open spec fn literal_view(k: LiteralKind) -> TokenView {
    match k {
        LiteralKind::Bool(true) => plain(Token::True),
        LiteralKind::Bool(false) => plain(Token::False),
        LiteralKind::Number(d) => plain(Token::Number(d)),
        LiteralKind::String(s) => TokenView::Str(s@),
    }
}

/// Where the tokens that `e` spells end, when `ts` spells it from `p` on. The
/// empty expression spells nothing, and stands only before a `;`.
pub open spec fn spell_expr(e: Expr, ts: Seq<Token>, p: int) -> Option<int>
    decreases e, 0int,
{
    match e.kind {
        ExprKind::Binary(b) => match spell_expr(b.inner().lhs, ts, p) {
            Some(q) => if tok(ts, q) == Some(plain(op_token(b.inner().op))) {
                spell_expr(b.inner().rhs, ts, q + 1)
            } else {
                None
            },
            None => None,
        },
        ExprKind::Block(b) => spell_stmt(b.inner().body, ts, p),
        ExprKind::Empty() => if tok(ts, p) == Some(plain(Token::SemiColon)) {
            Some(p)
        } else {
            None
        },
        ExprKind::For(f) => if tok(ts, p) == Some(plain(Token::For)) && tok(ts, p + 1) == Some(
            TokenView::Ident(f.inner().id@),
        ) && tok(ts, p + 2) == Some(plain(Token::In)) {
            match spell_expr(f.inner().expr, ts, p + 3) {
                Some(q) => spell_expr(f.inner().body, ts, q),
                None => None,
            }
        } else {
            None
        },
        ExprKind::FuncCall(f) => if tok(ts, p) == Some(TokenView::Ident(f.inner().id@)) && tok(ts, p + 1)
            == Some(plain(Token::LeftParen)) {
            match spell_call_args(f.inner(), ts, p + 2) {
                Some(q) => after(ts, q, plain(Token::RightParen)),
                None => None,
            }
        } else {
            None
        },
        ExprKind::Group(g) => if tok(ts, p) == Some(plain(Token::LeftParen)) {
            match spell_expr(g.inner(), ts, p + 1) {
                Some(q) => after(ts, q, plain(Token::RightParen)),
                None => None,
            }
        } else {
            None
        },
        ExprKind::If(x) => if tok(ts, p) == Some(plain(Token::If)) {
            match spell_expr(x.inner().expr, ts, p + 1) {
                Some(q) => match spell_expr(x.inner().body_then, ts, q) {
                    Some(r) => match x.inner().body_else {
                        Some(b) => if tok(ts, r) == Some(plain(Token::Else)) {
                            spell_expr(b, ts, r + 1)
                        } else {
                            None
                        },
                        None => if tok(ts, r) == Some(plain(Token::Else)) {
                            None
                        } else {
                            Some(r)
                        },
                    },
                    None => None,
                },
                None => None,
            }
        } else {
            None
        },
        ExprKind::Literal(l) => after(ts, p, literal_view(l.inner().kind)),
        ExprKind::Range(r) => match spell_expr(r.inner().start, ts, p) {
            Some(q) => if tok(ts, q) == Some(plain(Token::Range)) {
                match r.inner().kind {
                    RangeKind::Exclusive => spell_expr(r.inner().end, ts, q + 1),
                    RangeKind::Inclusive => if tok(ts, q + 1) == Some(plain(Token::Is)) {
                        spell_expr(r.inner().end, ts, q + 2)
                    } else {
                        None
                    },
                }
            } else {
                None
            },
            None => None,
        },
        ExprKind::Ref(r) => if tok(ts, p) == Some(plain(Token::Amp)) {
            spell_expr(r.inner().expr, ts, p + 1)
        } else {
            None
        },
        ExprKind::Unary(u) => if tok(ts, p) == Some(plain(unary_token(u.inner().op))) {
            spell_expr(u.inner().expr, ts, p + 1)
        } else {
            None
        },
        ExprKind::Var(v) => after(ts, p, TokenView::Ident(v.inner().id@)),
        ExprKind::While(w) => if tok(ts, p) == Some(plain(Token::While)) {
            match spell_expr(w.inner().expr, ts, p + 1) {
                Some(q) => spell_expr(w.inner().body, ts, q),
                None => None,
            }
        } else {
            None
        },
    }
}

/// The first `n` arguments of a call, each followed by a comma.
pub open spec fn spell_args_with_commas(f: FuncCall, n: int, ts: Seq<Token>, p: int) -> Option<int>
    decreases f, n,
{
    if n <= 0 {
        Some(p)
    } else if n > f.args@.len() {
        None
    } else {
        match spell_args_with_commas(f, n - 1, ts, p) {
            Some(q) => match spell_expr(f.args@[n - 1], ts, q) {
                Some(r) => after(ts, r, plain(Token::Comma)),
                None => None,
            },
            None => None,
        }
    }
}

/// The arguments of a call, separated by commas, perhaps with one after the
/// last.
pub open spec fn spell_call_args(f: FuncCall, ts: Seq<Token>, p: int) -> Option<int>
    decreases f, f.args@.len() + 1,
{
    let n = f.args@.len() as int;
    if n == 0 {
        Some(p)
    } else {
        match spell_args_with_commas(f, n - 1, ts, p) {
            Some(q) => match spell_expr(f.args@[n - 1], ts, q) {
                Some(r) => if tok(ts, r) == Some(plain(Token::Comma)) {
                    Some(r + 1)
                } else {
                    Some(r)
                },
                None => None,
            },
            None => None,
        }
    }
}

/// The first `n` statements of a sequence, one after the other.
pub open spec fn spell_stmts(ss: Stmts, n: int, ts: Seq<Token>, p: int) -> Option<int>
    decreases ss, n,
{
    if n <= 0 {
        Some(p)
    } else if n > ss.0@.len() {
        None
    } else {
        match spell_stmts(ss, n - 1, ts, p) {
            Some(q) => spell_stmt(ss.0@[n - 1], ts, q),
            None => None,
        }
    }
}

/// An argument declaration: its name, `:` and its type.
pub open spec fn spell_param(a: FunctionArg, ts: Seq<Token>, p: int) -> Option<int> {
    if tok(ts, p) == Some(TokenView::Ident(a.id@)) && tok(ts, p + 1) == Some(plain(Token::Colon))
        && tok(ts, p + 2) == Some(plain(type_token(a.typeid))) {
        Some(p + 3)
    } else {
        None
    }
}

/// The first `n` argument declarations, separated by commas.
pub open spec fn spell_params(a: FunctionArgs, n: int, ts: Seq<Token>, p: int) -> Option<int>
    decreases n,
{
    if n <= 0 {
        Some(p)
    } else if n > a.0@.len() {
        None
    } else if n == 1 {
        spell_param(a.0@[0], ts, p)
    } else {
        match spell_params(a, n - 1, ts, p) {
            Some(q) => if tok(ts, q) == Some(plain(Token::Comma)) {
                spell_param(a.0@[n - 1], ts, q + 1)
            } else {
                None
            },
            None => None,
        }
    }
}

/// `e`, then `;`.
pub open spec fn spell_then_semicolon(e: Expr, ts: Seq<Token>, p: int) -> Option<int>
    decreases e, 1int,
{
    match spell_expr(e, ts, p) {
        Some(q) => after(ts, q, plain(Token::SemiColon)),
        None => None,
    }
}

/// Where the tokens that `s` spells end, when `ts` spells it from `p` on. An
/// expression statement ends with `;`, or without it before a closing `}`.
pub open spec fn spell_stmt(s: Stmt, ts: Seq<Token>, p: int) -> Option<int>
    decreases s, 0int,
{
    match s.kind {
        StmtKind::Assignment(a) => match spell_expr(a.inner().lhs, ts, p) {
            Some(q) => if tok(ts, q) == Some(plain(Token::Is)) {
                match spell_expr(a.inner().rhs, ts, q + 1) {
                    Some(r) => after(ts, r, plain(Token::SemiColon)),
                    None => None,
                }
            } else {
                None
            },
            None => None,
        },
        StmtKind::Block(ss) => if tok(ts, p) == Some(plain(Token::LeftBrace)) {
            match spell_stmts(ss, ss.0@.len() as int, ts, p + 1) {
                Some(q) => after(ts, q, plain(Token::RightBrace)),
                None => None,
            }
        } else {
            None
        },
        StmtKind::Connect(c) => match spell_expr(c.inner().source, ts, p) {
            Some(q) => if tok(ts, q) == Some(plain(Token::Arrow)) {
                match spell_expr(c.inner().sink, ts, q + 1) {
                    Some(r) => after(ts, r, plain(Token::SemiColon)),
                    None => None,
                }
            } else {
                None
            },
            None => None,
        },
        StmtKind::ConstDecl(c) => if tok(ts, p) == Some(plain(Token::Const)) && tok(ts, p + 1) == Some(
            TokenView::Ident(c.inner().id@),
        ) && tok(ts, p + 2) == Some(plain(Token::Colon)) && tok(ts, p + 3) == Some(
            plain(type_token(c.inner().typeid)),
        ) && tok(ts, p + 4) == Some(plain(Token::Is)) {
            match spell_expr(c.inner().value, ts, p + 5) {
                Some(q) => after(ts, q, plain(Token::SemiColon)),
                None => None,
            }
        } else {
            None
        },
        StmtKind::Expr(e) => match spell_expr(e.inner(), ts, p) {
            Some(q) => if tok(ts, q) == Some(plain(Token::SemiColon)) {
                Some(q + 1)
            } else if tok(ts, q) == Some(plain(Token::RightBrace)) {
                Some(q)
            } else {
                None
            },
            None => None,
        },
        StmtKind::FunctionDecl(f) => if tok(ts, p) == Some(plain(Token::Function)) && tok(ts, p + 1)
            == Some(TokenView::Ident(f.inner().id@)) && tok(ts, p + 2) == Some(
            plain(Token::LeftParen),
        ) {
            let q = match f.inner().args {
                Some(a) => spell_params(a, a.0@.len() as int, ts, p + 3),
                None => Some(p + 3),
            };
            match q {
                Some(q) => if tok(ts, q) == Some(plain(Token::RightParen)) {
                    let r = match f.inner().ret_type {
                        Some(t) => if tok(ts, q + 1) == Some(plain(Token::Arrow)) && tok(ts, q + 2)
                            == Some(plain(type_token(t))) {
                            Some(q + 3)
                        } else {
                            None
                        },
                        None => Some(q + 1),
                    };
                    match r {
                        Some(r) => spell_stmt(f.inner().body, ts, r),
                        None => None,
                    }
                } else {
                    None
                },
                None => None,
            }
        } else {
            None
        },
        StmtKind::Print(x) => if tok(ts, p) == Some(plain(Token::Print)) {
            spell_then_semicolon(x.inner().expr, ts, p + 1)
        } else {
            None
        },
        StmtKind::Return(x) => if tok(ts, p) == Some(plain(Token::Return)) {
            spell_then_semicolon(x.inner().expr, ts, p + 1)
        } else {
            None
        },
        StmtKind::UseDecl(u) => if tok(ts, p) == Some(plain(Token::Use)) {
            spell_then_semicolon(u.inner().filename, ts, p + 1)
        } else {
            None
        },
        StmtKind::VarDecl(v) => if tok(ts, p) == Some(plain(Token::Let)) {
            let q1 = if v.inner().mutable {
                after(ts, p + 1, plain(Token::Mut))
            } else {
                Some(p + 1)
            };
            let q2 = match q1 {
                Some(q) => spell_expr(v.inner().id, ts, q),
                None => None,
            };
            let q3 = match (q2, v.inner().typeid) {
                (Some(q), Some(t)) => if tok(ts, q) == Some(plain(Token::Colon)) && tok(ts, q + 1) == Some(
                    plain(type_token(t)),
                ) {
                    Some(q + 2)
                } else {
                    None
                },
                (q, None) => q,
                (None, _) => None,
            };
            let q4 = match (q3, v.inner().value) {
                (Some(q), Some(x)) => if tok(ts, q) == Some(plain(Token::Is)) {
                    spell_expr(x, ts, q + 1)
                } else {
                    None
                },
                (q, None) => q,
                (None, _) => None,
            };
            match q4 {
                Some(q) => after(ts, q, plain(Token::SemiColon)),
                None => None,
            }
        } else {
            None
        },
    }
}

} // verus!
