//! Token sequences that the parser is proved to accept: expressions built
//! from literals, names, calls, parenthesised expressions, `if`, `while` and
//! `for` expressions and blocks, joined by prefix and binary operators, ranges
//! between simple bounds, and the statements, blocks, declarations and
//! programs made of them.
use vstd::prelude::*;
use crate::ast::{op_level, BinaryOp};
use crate::parser::{binary_op_of, is_keyword, type_of, unary_op_of};
use crate::spelling::{after, plain, tok};
use crate::token::{Token, TokenView};

verus! {

/// A prefix operator at `j`.
pub open spec fn is_unop(ts: Seq<Token>, j: int) -> bool {
    tok(ts, j) matches Some(t) && unary_op_of(t) is Some
}

/// The binary operator at `j`, if any.
pub open spec fn binop_at(ts: Seq<Token>, j: int) -> Option<BinaryOp> {
    match tok(ts, j) {
        Some(t) => binary_op_of(t),
        None => None,
    }
}

/// Where a primary expression that starts at `j` ends: a literal, a name, a
/// call, a parenthesised expression, an `if`, `while` or `for` expression, or a
/// block.
pub open spec fn prim_end(ts: Seq<Token>, j: int) -> Option<int>
    decreases ts.len() - j, 2int,
{
    if j < 0 || j >= ts.len() {
        None
    } else {
        match tok(ts, j) {
            Some(TokenView::Plain(Token::Number(_))) => Some(j + 1),
            Some(TokenView::Str(_)) => Some(j + 1),
            Some(TokenView::Plain(Token::True)) => Some(j + 1),
            Some(TokenView::Plain(Token::False)) => Some(j + 1),
            Some(TokenView::Ident(_)) => if tok(ts, j + 1) == Some(plain(Token::LeftParen)) && j + 2 <= ts.len() {
                match args_end(ts, j + 2) {
                    Some(q) => after(ts, q, plain(Token::RightParen)),
                    None => None,
                }
            } else {
                Some(j + 1)
            },
            Some(TokenView::Plain(Token::LeftParen)) => match full_end(ts, j + 1) {
                Some(q) => after(ts, q, plain(Token::RightParen)),
                None => None,
            },
            Some(TokenView::Plain(Token::If)) => if_end(ts, j),
            Some(TokenView::Plain(Token::While)) => match full_end(ts, j + 1) {
                Some(q) => if j < q <= ts.len() {
                    block_end(ts, q)
                } else {
                    None
                },
                None => None,
            },
            Some(TokenView::Plain(Token::For)) => if is_name(ts, j + 1) && tok(ts, j + 2) == Some(
                plain(Token::In),
            ) && j + 3 <= ts.len() {
                match full_end(ts, j + 3) {
                    Some(q) => if j < q <= ts.len() {
                        block_end(ts, q)
                    } else {
                        None
                    },
                    None => None,
                }
            } else {
                None
            },
            Some(TokenView::Plain(Token::LeftBrace)) => block_end(ts, j),
            _ => None,
        }
    }
}

/// `if cond { .. }`, then `else` and a block or another `if`, if present.
pub open spec fn if_end(ts: Seq<Token>, j: int) -> Option<int>
    decreases ts.len() - j, 1int,
{
    if 0 <= j < ts.len() && tok(ts, j) == Some(plain(Token::If)) {
        match full_end(ts, j + 1) {
            Some(q) => if j < q <= ts.len() {
                match block_end(ts, q) {
                    Some(r) => if j < r < ts.len() && tok(ts, r) == Some(plain(Token::Else)) {
                        if tok(ts, r + 1) == Some(plain(Token::If)) {
                            if_end(ts, r + 1)
                        } else {
                            block_end(ts, r + 1)
                        }
                    } else if tok(ts, r) == Some(plain(Token::Else)) {
                        None
                    } else {
                        Some(r)
                    },
                    None => None,
                }
            } else {
                None
            },
            None => None,
        }
    } else {
        None
    }
}

/// The arguments of a call, up to its `)`: expressions separated by commas,
/// perhaps with one after the last.
pub open spec fn args_end(ts: Seq<Token>, j: int) -> Option<int>
    decreases ts.len() - j, 6int,
{
    if 0 <= j <= ts.len() {
        if tok(ts, j) == Some(plain(Token::RightParen)) {
            Some(j)
        } else {
            match full_end(ts, j) {
                Some(q) => if j <= q < ts.len() && tok(ts, q) == Some(plain(Token::Comma)) {
                    args_end(ts, q + 1)
                } else {
                    Some(q)
                },
                None => None,
            }
        }
    } else {
        None
    }
}

/// Where an operator expression that starts at `j` ends: operands are prefix
/// operators before a primary expression, joined by binary operators; after
/// `.` comes a primary expression.
pub open spec fn seq_end(ts: Seq<Token>, j: int) -> Option<int>
    decreases ts.len() - j, 3int,
{
    if j < 0 || j >= ts.len() {
        None
    } else if is_unop(ts, j) {
        seq_end(ts, j + 1)
    } else {
        match prim_end(ts, j) {
            Some(m) => if j < m <= ts.len() {
                match binop_at(ts, m) {
                    Some(op) => if op == BinaryOp::Dot && is_unop(ts, m + 1) {
                        None
                    } else {
                        seq_end(ts, m + 1)
                    },
                    None => Some(m),
                }
            } else {
                None
            },
            None => None,
        }
    }
}

/// The end of an operator expression at `j` that no range operator follows.
pub open spec fn expr_end(ts: Seq<Token>, j: int) -> Option<int>
    decreases ts.len() - j, 4int,
{
    if 0 <= j <= ts.len() {
        match seq_end(ts, j) {
            Some(q) => if tok(ts, q) != Some(plain(Token::Range)) {
                Some(q)
            } else {
                None
            },
            None => None,
        }
    } else {
        None
    }
}

/// Where an expression that starts at `j` ends: an operator expression that
/// no range operator follows, or a range whose bounds are each a literal, a
/// name or a parenthesised expression.
pub open spec fn full_end(ts: Seq<Token>, j: int) -> Option<int>
    decreases ts.len() - j, 5int,
{
    if 0 <= j <= ts.len() {
        match seq_end(ts, j) {
            Some(q) => if tok(ts, q) != Some(plain(Token::Range)) {
                Some(q)
            } else if j < q < ts.len() && prim_alone(ts, j) && bound_prim(ts, j) && prim_end(ts, j) == Some(q) {
                let a = range_end_start(ts, q);
                if a <= ts.len() && prim_alone(ts, a) && bound_prim(ts, a) {
                    prim_end(ts, a)
                } else {
                    None
                }
            } else {
                None
            },
            None => None,
        }
    } else {
        None
    }
}

/// An operator expression starts at `j`, and no range operator follows it.
pub open spec fn flat(ts: Seq<Token>, j: int) -> bool
    decreases ts.len() - j, 5int,
{
    0 <= j <= ts.len() && expr_end(ts, j) is Some
}

/// The end of the operator expression at `j`.
pub open spec fn flat_end(ts: Seq<Token>, j: int) -> int
    decreases ts.len() - j, 5int,
{
    if 0 <= j <= ts.len() {
        match seq_end(ts, j) {
            Some(q) => q,
            None => j,
        }
    } else {
        j
    }
}

/// Where the parse of precedence level `k` that starts at `j` stops: at the
/// first binary operator that binds more loosely than `k`, unless a prefix
/// operator takes all that follows.
pub open spec fn level_end(ts: Seq<Token>, j: int, k: nat) -> int
    decreases ts.len() - j,
{
    if j < 0 || j >= ts.len() {
        j
    } else if is_unop(ts, j) {
        flat_end(ts, j)
    } else {
        match prim_end(ts, j) {
            Some(m) => if j < m <= ts.len() {
                match binop_at(ts, m) {
                    Some(op) => if op_level(op) >= k {
                        level_end(ts, m + 1, k)
                    } else {
                        m
                    },
                    None => m,
                }
            } else {
                j
            },
            None => j,
        }
    }
}

/// An operator expression ends past its start, within the tokens.
pub proof fn lemma_seq_end(ts: Seq<Token>, j: int)
    requires
        seq_end(ts, j) is Some,
    ensures
        j < seq_end(ts, j)->0 <= ts.len(),
        binop_at(ts, seq_end(ts, j)->0) is None,
    decreases ts.len() - j,
{
    if is_unop(ts, j) {
        lemma_seq_end(ts, j + 1);
    } else {
        let m = prim_end(ts, j)->0;
        if binop_at(ts, m) is Some {
            lemma_seq_end(ts, m + 1);
        }
    }
}

/// At `x` stands a binary operator of level `k` or looser, and an operator
/// expression ending at `q` follows it.
pub open spec fn continues(ts: Seq<Token>, x: int, q: int, k: nat) -> bool {
    &&& binop_at(ts, x) is Some
    &&& op_level(binop_at(ts, x)->0) <= k
    &&& seq_end(ts, x + 1) == Some(q)
    &&& (binop_at(ts, x)->0 == BinaryOp::Dot ==> !is_unop(ts, x + 1))
}

/// The parse of level `k` stops where the parse of level `k + 1` stops, or
/// goes on past an operator of level `k`.
pub proof fn lemma_level_split(ts: Seq<Token>, j: int, k: nat)
    requires
        seq_end(ts, j) is Some,
    ensures
        ({
            let q = flat_end(ts, j);
            let e1 = level_end(ts, j, k + 1);
            &&& e1 == q || (j < e1 < q && continues(ts, e1, q, k))
            &&& level_end(ts, j, k) == if e1 == q {
                q
            } else if op_level(binop_at(ts, e1)->0) == k {
                level_end(ts, e1 + 1, k)
            } else {
                e1
            }
        }),
    decreases ts.len() - j,
{
    lemma_seq_end(ts, j);
    if !is_unop(ts, j) {
        let m = prim_end(ts, j)->0;
        if let Some(op) = binop_at(ts, m) {
            assert(seq_end(ts, j) == seq_end(ts, m + 1));
            lemma_seq_end(ts, m + 1);
            if op_level(op) >= k + 1 {
                lemma_level_split(ts, m + 1, k);
            }
        }
    }
}

/// At the loosest level the parse takes the whole operator expression.
pub proof fn lemma_level_one(ts: Seq<Token>, j: int)
    requires
        seq_end(ts, j) is Some,
    ensures
        level_end(ts, j, 1) == flat_end(ts, j),
    decreases ts.len() - j,
{
    if !is_unop(ts, j) {
        let m = prim_end(ts, j)->0;
        if let Some(op) = binop_at(ts, m) {
            lemma_level_one(ts, m + 1);
        }
    }
}

/// A name at `j`.
pub open spec fn is_name(ts: Seq<Token>, j: int) -> bool {
    tok(ts, j) matches Some(TokenView::Ident(_))
}

/// `p + 1` past a `;` at `p`.
pub open spec fn semi_at(ts: Seq<Token>, p: int) -> Option<int> {
    if tok(ts, p) == Some(plain(Token::SemiColon)) {
        Some(p + 1)
    } else {
        None
    }
}

/// An expression at `p`, then `;`.
pub open spec fn flat_then_semi(ts: Seq<Token>, p: int) -> Option<int>
    decreases ts.len() - p, 6int,
{
    match full_end(ts, p) {
        Some(q) => semi_at(ts, q),
        None => None,
    }
}

/// A type name at `p`.
pub open spec fn type_at(ts: Seq<Token>, p: int) -> bool {
    tok(ts, p) matches Some(t) && type_of(t) is Some
}

/// An expression statement: an expression, then `;`, or nothing
/// before `}`, or `-> sink;`, or `= value;`.
pub open spec fn expr_stmt_end(ts: Seq<Token>, p: int) -> Option<int>
    decreases ts.len() - p, 7int,
{
    if full_end(ts, p) is Some {
        let q = full_end(ts, p)->0;
        if tok(ts, q) == Some(plain(Token::SemiColon)) {
            Some(q + 1)
        } else if tok(ts, q) == Some(plain(Token::RightBrace)) {
            Some(q)
        } else if (tok(ts, q) == Some(plain(Token::Arrow)) || tok(ts, q) == Some(plain(Token::Is))) && p
            <= q < ts.len() {
            flat_then_semi(ts, q + 1)
        } else {
            None
        }
    } else {
        None
    }
}

/// `let`, `mut` if present, a name, `: type` if present, `= value` if
/// present (`&` before the value if present), `;`.
pub open spec fn let_end(ts: Seq<Token>, p: int) -> Option<int>
    decreases ts.len() - p, 7int,
{
    let m = if tok(ts, p + 1) == Some(plain(Token::Mut)) {
        p + 2
    } else {
        p + 1
    };
    let t = if tok(ts, m + 1) == Some(plain(Token::Colon)) {
        m + 3
    } else {
        m + 1
    };
    let a = if tok(ts, t + 1) == Some(plain(Token::Amp)) {
        t + 2
    } else {
        t + 1
    };
    if tok(ts, p) == Some(plain(Token::Let)) && is_name(ts, m) && (tok(
        ts,
        m + 1,
    ) == Some(plain(Token::Colon)) ==> type_at(ts, m + 2)) {
        if tok(ts, t) == Some(plain(Token::Is)) {
            flat_then_semi(ts, a)
        } else {
            semi_at(ts, t)
        }
    } else {
        None
    }
}

/// A literal of the given type name at `p`.
pub open spec fn literal_of(ts: Seq<Token>, ty: Token, p: int) -> bool {
    match (ty, tok(ts, p)) {
        (Token::BoolId, Some(TokenView::Plain(Token::True))) => true,
        (Token::BoolId, Some(TokenView::Plain(Token::False))) => true,
        (Token::NumberId, Some(TokenView::Plain(Token::Number(_)))) => true,
        (Token::StringId, Some(TokenView::Str(_))) => true,
        _ => false,
    }
}

/// The start of a constant declaration: `const name: type =`.
pub open spec fn const_head(ts: Seq<Token>, p: int, ty: Token) -> bool {
    &&& tok(ts, p) == Some(plain(Token::Const))
    &&& is_name(ts, p + 1)
    &&& tok(ts, p + 2) == Some(plain(Token::Colon))
    &&& tok(ts, p + 3) == Some(plain(ty))
    &&& tok(ts, p + 4) == Some(plain(Token::Is))
}

/// `const name: type = literal;`, the literal of the type.
pub open spec fn const_end(ts: Seq<Token>, p: int) -> Option<int> {
    match tok(ts, p + 3) {
        Some(TokenView::Plain(ty)) => if const_head(ts, p, ty) && literal_of(ts, ty, p + 5) {
            semi_at(ts, p + 6)
        } else {
            None
        },
        _ => None,
    }
}

/// Argument declarations, `name: type`, separated by commas.
pub open spec fn params_end(ts: Seq<Token>, j: int) -> Option<int>
    decreases ts.len() - j,
{
    if 0 <= j && j + 3 <= ts.len() && is_name(ts, j) && tok(ts, j + 1)
        == Some(plain(Token::Colon)) && type_at(ts, j + 2) {
        if tok(ts, j + 3) == Some(plain(Token::Comma)) {
            params_end(ts, j + 4)
        } else {
            Some(j + 3)
        }
    } else {
        None
    }
}

/// Statements, then `}`.
pub open spec fn stmts_end(ts: Seq<Token>, x: int) -> Option<int>
    decreases ts.len() - x, 9int,
{
    if x < 0 || x >= ts.len() {
        None
    } else if tok(ts, x) == Some(plain(Token::RightBrace)) {
        Some(x + 1)
    } else {
        match stmt_end(ts, x) {
            Some(y) => if x < y <= ts.len() {
                stmts_end(ts, y)
            } else {
                None
            },
            None => None,
        }
    }
}

/// `{`, statements, `}`.
pub open spec fn block_end(ts: Seq<Token>, p: int) -> Option<int>
    decreases ts.len() - p, 0int,
{
    if 0 <= p < ts.len() && tok(ts, p) == Some(plain(Token::LeftBrace)) {
        stmts_end(ts, p + 1)
    } else {
        None
    }
}

/// `fn name(arguments) -> type { statements }`; the arguments and the type
/// may be left out.
pub open spec fn fn_end(ts: Seq<Token>, p: int) -> Option<int>
    decreases ts.len() - p, 0int,
{
    if 0 <= p && tok(ts, p) == Some(plain(Token::Function)) && is_name(ts, p + 1) && tok(ts, p + 2) == Some(plain(Token::LeftParen)) {
        let q = if tok(ts, p + 3) == Some(plain(Token::RightParen)) {
            Some(p + 3)
        } else {
            params_end(ts, p + 3)
        };
        match q {
            Some(q) => if tok(ts, q) == Some(plain(Token::RightParen)) {
                if tok(ts, q + 1) == Some(plain(Token::Arrow)) {
                    if type_at(ts, q + 2) && p < q + 3 {
                        block_end(ts, q + 3)
                    } else {
                        None
                    }
                } else if p < q + 1 {
                    block_end(ts, q + 1)
                } else {
                    None
                }
            } else {
                None
            },
            None => None,
        }
    } else {
        None
    }
}

/// Where a statement at `p` ends: a declaration, a block, a `print`, `return`
/// or `use`, or an expression statement, its expressions those that
/// `full_end` describes.
pub open spec fn stmt_end(ts: Seq<Token>, p: int) -> Option<int>
    decreases ts.len() - p, 8int,
{
    if p < 0 || p >= ts.len() {
        None
    } else {
        match tok(ts, p) {
            Some(TokenView::Plain(Token::Const)) => const_end(ts, p),
            Some(TokenView::Plain(Token::Function)) => fn_end(ts, p),
            Some(TokenView::Plain(Token::Let)) => let_end(ts, p),
            Some(TokenView::Plain(Token::Use)) => flat_then_semi(ts, p + 1),
            Some(TokenView::Plain(Token::LeftBrace)) => block_end(ts, p),
            Some(TokenView::Plain(Token::Print)) => flat_then_semi(ts, p + 1),
            Some(TokenView::Plain(Token::Return)) => flat_then_semi(ts, p + 1),
            _ => expr_stmt_end(ts, p),
        }
    }
}

/// Statements from `p` to the end of the tokens.
pub open spec fn program_ok(ts: Seq<Token>, p: int) -> bool
    decreases ts.len() - p,
{
    if p < 0 || p > ts.len() {
        false
    } else if p == ts.len() {
        true
    } else {
        match stmt_end(ts, p) {
            Some(y) => p < y <= ts.len() && program_ok(ts, y),
            None => false,
        }
    }
}

/// The keyword that stands where `let` at `p` expects the variable's name.
pub open spec fn let_keyword(ts: Seq<Token>, p: int) -> Option<Token> {
    let m = if tok(ts, p + 1) == Some(plain(Token::Mut)) {
        p + 2
    } else {
        p + 1
    };
    if tok(ts, p) == Some(plain(Token::Let)) {
        match tok(ts, m) {
            Some(TokenView::Plain(k)) => if is_keyword(k) {
                Some(k)
            } else {
                None
            },
            _ => None,
        }
    } else {
        None
    }
}

/// Statements from `x` that run to the end of the tokens with no `}`.
pub open spec fn stmts_run_out(ts: Seq<Token>, x: int) -> bool
    decreases ts.len() - x,
{
    if x < 0 || x > ts.len() {
        false
    } else if x == ts.len() {
        true
    } else if tok(ts, x) == Some(plain(Token::RightBrace)) {
        false
    } else {
        match stmt_end(ts, x) {
            Some(y) => x < y <= ts.len() && stmts_run_out(ts, y),
            None => false,
        }
    }
}

/// Where the end of a range starts, after the range operator at `q` and the
/// `=` of an inclusive range.
pub open spec fn range_end_start(ts: Seq<Token>, q: int) -> int {
    if tok(ts, q + 1) == Some(plain(Token::Is)) {
        q + 2
    } else {
        q + 1
    }
}

/// A primary expression that may bound a range: a literal, a name that no
/// `(` follows, or a parenthesised expression.
pub open spec fn bound_prim(ts: Seq<Token>, p: int) -> bool {
    match tok(ts, p) {
        Some(TokenView::Plain(Token::Number(_))) => true,
        Some(TokenView::Str(_)) => true,
        Some(TokenView::Plain(Token::True)) => true,
        Some(TokenView::Plain(Token::False)) => true,
        Some(TokenView::Ident(_)) => tok(ts, p + 1) != Some(plain(Token::LeftParen)),
        Some(TokenView::Plain(Token::LeftParen)) => true,
        _ => false,
    }
}

/// A primary expression at `p` with no binary operator after it.
pub open spec fn prim_alone(ts: Seq<Token>, p: int) -> bool
    decreases ts.len() - p, 3int,
{
    &&& !is_unop(ts, p)
    &&& prim_end(ts, p) is Some
    &&& binop_at(ts, prim_end(ts, p)->0) is None
}

/// A primary expression at `p`, then a binary operator of level `k` or
/// tighter.
pub open spec fn prim_then_op(ts: Seq<Token>, p: int, k: nat) -> bool {
    &&& !is_unop(ts, p)
    &&& prim_end(ts, p) is Some
    &&& binop_at(ts, prim_end(ts, p)->0) is Some
    &&& op_level(binop_at(ts, prim_end(ts, p)->0)->0) >= k
}

} // verus!
