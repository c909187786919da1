//! The parser of Nexus: recursive descent, with one function for each level
//! of operator precedence.
use vstd::prelude::*;
use crate::ast::{self, binds_at_least, expr_wf, op_level, open_right, range_bound, stmt_wf};
use crate::parse_error::{ParseError, ParseErrorKind, ParseResult};
use crate::ptr::Ptr;
use crate::spelling::{
    spell_args_with_commas, spell_call_args, spell_expr, spell_param, spell_params, spell_stmt, spell_stmts,
};
use crate::token::{Token, TokenView, Tokens};
use crate::lexicon::{lex, step, Lexed, Step};
use crate::accepted::{
    binop_at, block_end, const_end, continues, expr_stmt_end, flat, flat_end, flat_then_semi, fn_end,
    is_unop, lemma_level_one, lemma_level_split, lemma_seq_end, let_end, level_end, params_end,
    program_ok, seq_end, stmt_end, stmts_end, let_keyword, stmts_run_out, const_head, literal_of,
    range_end_start, prim_end, if_end, args_end, expr_end, full_end, bound_prim, prim_alone, prim_then_op,
};
use crate::token_cursor::TokenCursor;

verus! {

/// The cursor moved forward, or stayed, over the same tokens.
pub open spec fn advanced(a: TokenCursor, b: TokenCursor) -> bool {
    &&& b.wf()
    &&& b.tokens() == a.tokens()
    &&& a.pos() <= b.pos()
}

/// `e` spells exactly the tokens the cursor moved over.
pub open spec fn spells_expr(e: ast::Expr, a: TokenCursor, b: TokenCursor) -> bool {
    spell_expr(e, a.tokens(), a.pos()) == Some(b.pos())
}

/// `s` spells exactly the tokens the cursor moved over.
pub open spec fn spells_stmt(s: ast::Stmt, a: TokenCursor, b: TokenCursor) -> bool {
    spell_stmt(s, a.tokens(), a.pos()) == Some(b.pos())
}

/// An expression consumed a token, or none because the current token is `;`
/// (the empty expression).
pub open spec fn moved_or_empty(a: TokenCursor, b: TokenCursor) -> bool {
    a.pos() < b.pos() || (a.pos() == b.pos() && a.ahead(0) == Some(TokenView::Plain(Token::SemiColon)))
}

/// The tokens that may not be used as names: the keywords.
pub open spec fn is_keyword(t: Token) -> bool {
    matches!(t, Token::BoolId | Token::NodeId | Token::NumberId | Token::StringId | Token::GroupId
        | Token::Const | Token::Else | Token::False | Token::For | Token::Function | Token::Group
        | Token::If | Token::In | Token::Let | Token::Mut | Token::Node | Token::Print
        | Token::Return | Token::True | Token::Use | Token::While)
}

/// The binary operator that a token stands for.
pub open spec fn binary_op_of(t: TokenView) -> Option<ast::BinaryOp> {
    match t {
        TokenView::Plain(Token::And) => Some(ast::BinaryOp::And),
        TokenView::Plain(Token::Dot) => Some(ast::BinaryOp::Dot),
        TokenView::Plain(Token::Eq) => Some(ast::BinaryOp::Eq),
        TokenView::Plain(Token::Gt) => Some(ast::BinaryOp::Gt),
        TokenView::Plain(Token::GtEq) => Some(ast::BinaryOp::GtEq),
        TokenView::Plain(Token::Lt) => Some(ast::BinaryOp::Lt),
        TokenView::Plain(Token::LtEq) => Some(ast::BinaryOp::LtEq),
        TokenView::Plain(Token::Minus) => Some(ast::BinaryOp::Subtract),
        TokenView::Plain(Token::NotEq) => Some(ast::BinaryOp::NotEq),
        TokenView::Plain(Token::Or) => Some(ast::BinaryOp::Or),
        TokenView::Plain(Token::Percent) => Some(ast::BinaryOp::Remainder),
        TokenView::Plain(Token::Plus) => Some(ast::BinaryOp::Plus),
        TokenView::Plain(Token::Slash) => Some(ast::BinaryOp::Divide),
        TokenView::Plain(Token::Star) => Some(ast::BinaryOp::Multiply),
        _ => None,
    }
}

/// The prefix operator that a token stands for.
pub open spec fn unary_op_of(t: TokenView) -> Option<ast::UnaryOp> {
    match t {
        TokenView::Plain(Token::Bang) => Some(ast::UnaryOp::Bang),
        TokenView::Plain(Token::Minus) => Some(ast::UnaryOp::Minus),
        TokenView::Plain(Token::Group) => Some(ast::UnaryOp::Group),
        TokenView::Plain(Token::Node) => Some(ast::UnaryOp::Node),
        TokenView::Plain(Token::Plus) => Some(ast::UnaryOp::Plus),
        _ => None,
    }
}

/// The type that a type name stands for.
pub open spec fn type_of(t: TokenView) -> Option<ast::TypeKind> {
    match t {
        TokenView::Plain(Token::BoolId) => Some(ast::TypeKind::Bool),
        TokenView::Plain(Token::NodeId) => Some(ast::TypeKind::Node),
        TokenView::Plain(Token::GroupId) => Some(ast::TypeKind::Group),
        TokenView::Plain(Token::NumberId) => Some(ast::TypeKind::Number),
        TokenView::Plain(Token::StringId) => Some(ast::TypeKind::String),
        _ => None,
    }
}

/// `prefix`, then the token's text in quotes, for a message.
fn describe(prefix: &str, t: &Token) -> (r: String)
    ensures
        r@ == prefix@ + "'"@ + crate::pretty::token_text(*t) + "'"@,
{
    let mut r = prefix.to_owned();
    r.append("'");
    let x = t.to_text();
    r.append(x.as_str());
    r.append("'");
    r
}

/// The current token is no binary operator of level `k` or tighter.
pub open spec fn no_op_from(c: TokenCursor, k: nat) -> bool {
    match c.ahead(0) {
        Some(v) => match binary_op_of(v) {
            Some(op) => op_level(op) < k,
            None => true,
        },
        None => true,
    }
}

/// A name followed by `(` at `p`: a call.
pub open spec fn tok_is_call(ts: Seq<Token>, p: int) -> bool {
    crate::accepted::is_name(ts, p) && crate::spelling::tok(ts, p + 1) == Some(TokenView::Plain(Token::LeftParen))
}

/// Where the parse of level `k` from `p0` has got to at `x`: the end of the
/// operator expression, or an operator of level `k` or looser, after which
/// the parse goes on or stops.
pub open spec fn level_state(ts: Seq<Token>, p0: int, x: int, k: nat) -> bool {
    let q = flat_end(ts, p0);
    &&& x == q || (p0 < x < q && continues(ts, x, q, k))
    &&& level_end(ts, p0, k) == if x == q {
        q
    } else if op_level(binop_at(ts, x)->0) == k {
        level_end(ts, x + 1, k)
    } else {
        x
    }
}

/// The token consumed, if any, moved the cursor by one.
pub open spec fn took_one(a: TokenCursor, b: TokenCursor) -> bool {
    b.pos() == if a.ahead(0) is Some {
        a.pos() + 1
    } else {
        a.pos()
    }
}

/// A declaration (`const`, `fn`, `let`, `use`) or a statement.
fn parse_decl(c: &mut TokenCursor) -> (r: ParseResult<ast::Stmt>)
    requires
        old(c).wf(),
    ensures
        advanced(*old(c), *final(c)),
        r is Ok ==> old(c).pos() < final(c).pos(),
        r matches Ok(s) ==> match old(c).ahead(0) {
            Some(TokenView::Plain(Token::Const)) => s.kind is ConstDecl,
            Some(TokenView::Plain(Token::Function)) => s.kind is FunctionDecl,
            Some(TokenView::Plain(Token::Let)) => s.kind is VarDecl,
            Some(TokenView::Plain(Token::Use)) => s.kind is UseDecl,
            _ => !(s.kind is ConstDecl || s.kind is FunctionDecl || s.kind is VarDecl || s.kind is UseDecl),
        },
        r matches Ok(s) ==> stmt_wf(s),
        r matches Ok(s) ==> spells_stmt(s, *old(c), *final(c)),
        stmt_end(old(c).tokens(), old(c).pos()) is Some ==> (r is Ok && final(c).pos() == stmt_end(old(c).tokens(), old(c).pos())->0),
        let_keyword(old(c).tokens(), old(c).pos()) is Some ==> (r matches Err(e) && e.kind == ParseErrorKind::KeywordAsIdentifier(
            let_keyword(old(c).tokens(), old(c).pos())->0,
        )),
    decreases old(c).remaining(), 30nat,
{
    match c.peek() {
        Some(Token::Const) => parse_const_decl(c),
        Some(Token::Function) => parse_function_decl(c),
        Some(Token::Let) => parse_var_decl(c),
        Some(Token::Use) => parse_use_decl(c),
        _ => parse_stmt(c),
    }
}

/// `fn name(args) -> type { body }`; the arguments and the return type may be left out.
fn parse_function_decl(c: &mut TokenCursor) -> (r: ParseResult<ast::Stmt>)
    requires
        old(c).wf(),
    ensures
        advanced(*old(c), *final(c)),
        r is Ok ==> old(c).pos() < final(c).pos(),
        r matches Ok(s) ==> (s.kind matches ast::StmtKind::FunctionDecl(f) && f.inner().body.kind is Block),
        r matches Ok(s) ==> stmt_wf(s),
        r matches Ok(s) ==> spells_stmt(s, *old(c), *final(c)),
        fn_end(old(c).tokens(), old(c).pos()) is Some ==> (r is Ok && final(c).pos() == fn_end(old(c).tokens(), old(c).pos())->0),
    decreases old(c).remaining(), 27nat,
{
    c.consume(Token::Function)?;
    let id = parse_identifier(c)?;
    c.consume_msg(Token::LeftParen, "expected '(' after function identifier")?;
    let args = if !matches!(c.peek(), Some(Token::RightParen)) {
        Some(parse_function_args(c)?)
    } else {
        None
    };
    c.consume_msg(Token::RightParen, "expected ')' after function argument list")?;
    let ret_type = if matches!(c.peek(), Some(Token::Arrow)) {
        c.consume_msg(Token::Arrow, "expected '->' in function declaration")?;
        Some(parse_type(c)?)
    } else {
        None
    };
    let body = parse_block_stmt(c)?;
    Ok(ast::Stmt { kind: ast::StmtKind::FunctionDecl(Ptr::new(ast::FunctionDecl { id, args, ret_type, body })) })
}

/// `name: type`.
fn parse_function_arg(c: &mut TokenCursor) -> (r: ParseResult<ast::FunctionArg>)
    requires
        old(c).wf(),
    ensures
        advanced(*old(c), *final(c)),
        r is Ok ==> old(c).pos() < final(c).pos(),
        r matches Ok(a) ==> spell_param(a, old(c).tokens(), old(c).pos()) == Some(final(c).pos()),
        crate::accepted::is_name(old(c).tokens(), old(c).pos()) && old(c).tokens()[old(c).pos() + 1]@ == TokenView::Plain(Token::Colon) && crate::accepted::type_at(old(c).tokens(), old(c).pos() + 2) && old(c).pos() + 2 < old(c).tokens().len() ==> (r is Ok && final(c).pos() == old(c).pos() + 3),
{
    let id = parse_identifier(c)?;
    c.consume_msg(Token::Colon, "expected ':' after function argument identifier")?;
    let typeid = parse_type(c)?;
    Ok(ast::FunctionArg { id, typeid })
}

/// One or more arguments, separated by commas.
fn parse_function_args(c: &mut TokenCursor) -> (r: ParseResult<ast::FunctionArgs>)
    requires
        old(c).wf(),
    ensures
        advanced(*old(c), *final(c)),
        r is Ok ==> old(c).pos() < final(c).pos(),
        r matches Ok(a) ==> a.0@.len() >= 1,
        r matches Ok(a) ==> spell_params(a, a.0@.len() as int, old(c).tokens(), old(c).pos()) == Some(final(c).pos()),
        params_end(old(c).tokens(), old(c).pos()) is Some ==> (r is Ok && final(c).pos() == params_end(old(c).tokens(), old(c).pos())->0),
{
    let mut result = ast::FunctionArgs::new();
    let ghost ts = c.tokens();
    loop
        invariant_except_break
            result.0@.len() == 0 ==> c.pos() == old(c).pos(),
            result.0@.len() > 0 ==> spell_params(result, result.0@.len() as int, ts, old(c).pos()) == Some(
                c.pos() - 1,
            ) && ts[c.pos() - 1]@ == TokenView::Plain(Token::Comma),
            params_end(ts, old(c).pos()) is Some ==> params_end(ts, c.pos()) == params_end(ts, old(c).pos()),
        invariant
            advanced(*old(c), *c),
            old(c).pos() < c.pos() || result.0@.len() == 0,
            ts == old(c).tokens(),
        ensures
            advanced(*old(c), *c),
            old(c).pos() < c.pos(),
            result.0@.len() >= 1,
            spell_params(result, result.0@.len() as int, ts, old(c).pos()) == Some(c.pos()),
            params_end(ts, old(c).pos()) is Some ==> params_end(ts, old(c).pos()) == Some(c.pos()),
        decreases c.remaining(),
    {
        let ghost before = result;
        let ghost x = c.pos();
        let arg = parse_function_arg(c)?;
        result.0.push(arg);
        proof {
            lemma_params_prefix(before, result, before.0@.len() as int, ts, old(c).pos());
        }
        if !c.advance_if(Token::Comma) {
            assert(params_end(ts, old(c).pos()) is Some ==> params_end(ts, x) == Some(x + 3));
            break;
        }
        assert(params_end(ts, old(c).pos()) is Some ==> params_end(ts, x) == params_end(ts, x + 4));
    }
    Ok(result)
}

/// `const name: type = literal;`, the literal of the declared type.
fn parse_const_decl(c: &mut TokenCursor) -> (r: ParseResult<ast::Stmt>)
    requires
        old(c).wf(),
    ensures
        advanced(*old(c), *final(c)),
        r is Ok ==> old(c).pos() < final(c).pos(),
        r matches Ok(s) ==> s.kind is ConstDecl,
        r matches Ok(s) ==> stmt_wf(s),
        r matches Ok(s) ==> spells_stmt(s, *old(c), *final(c)),
        const_end(old(c).tokens(), old(c).pos()) is Some ==> (r is Ok && final(c).pos() == const_end(old(c).tokens(), old(c).pos())->0),
        const_head(old(c).tokens(), old(c).pos(), Token::NodeId) ==> (r matches Err(e) && e.kind matches ParseErrorKind::Custom(m)
            && m@ == "cannot create a Node type literal"@),
        const_head(old(c).tokens(), old(c).pos(), Token::GroupId) ==> (r matches Err(e) && e.kind matches ParseErrorKind::Custom(m)
            && m@ == "cannot create a Group type literal"@),
        (const_head(old(c).tokens(), old(c).pos(), Token::BoolId) && !literal_of(old(c).tokens(), Token::BoolId, old(c).pos() + 5)) ==> r is Err,
        (const_head(old(c).tokens(), old(c).pos(), Token::NumberId) && !literal_of(old(c).tokens(), Token::NumberId, old(c).pos() + 5)) ==> r is Err,
        (const_head(old(c).tokens(), old(c).pos(), Token::StringId) && !literal_of(old(c).tokens(), Token::StringId, old(c).pos() + 5)) ==> r is Err,
    decreases old(c).remaining(), 27nat,
{
    c.consume(Token::Const)?;
    let id = parse_identifier(c)?;
    c.consume_msg(Token::Colon, "expected ':' for type annotation of constant value")?;
    let typeid = parse_type(c)?;
    c.consume_msg(Token::Is, "expected '=' for initialization of constant value")?;
    let value = match typeid {
        ast::TypeKind::Bool => parse_bool_literal(c)?,
        ast::TypeKind::Group => {
            return Err(ParseError::new(ParseErrorKind::Custom("cannot create a Group type literal".to_owned())));
        },
        ast::TypeKind::Node => {
            return Err(ParseError::new(ParseErrorKind::Custom("cannot create a Node type literal".to_owned())));
        },
        ast::TypeKind::Number => parse_number_literal(c)?,
        ast::TypeKind::String => parse_string_literal(c)?,
    };
    c.consume(Token::SemiColon)?;
    Ok(ast::Stmt { kind: ast::StmtKind::ConstDecl(Ptr::new(ast::ConstDecl { id, typeid, value })) })
}

/// `let mut name: type = value;`; `mut`, the type and the value may be left out, and `&` before the value makes a reference.
#[verifier::rlimit(80)]
fn parse_var_decl(c: &mut TokenCursor) -> (r: ParseResult<ast::Stmt>)
    requires
        old(c).wf(),
    ensures
        advanced(*old(c), *final(c)),
        r is Ok ==> old(c).pos() < final(c).pos(),
        r matches Ok(s) ==> s.kind is VarDecl,
        r matches Ok(s) ==> stmt_wf(s),
        r matches Ok(s) ==> spells_stmt(s, *old(c), *final(c)),
        let_end(old(c).tokens(), old(c).pos()) is Some ==> (r is Ok && final(c).pos() == let_end(old(c).tokens(), old(c).pos())->0),
        let_keyword(old(c).tokens(), old(c).pos()) is Some ==> (r matches Err(e) && e.kind == ParseErrorKind::KeywordAsIdentifier(
            let_keyword(old(c).tokens(), old(c).pos())->0,
        )),
    decreases old(c).remaining(), 27nat,
{
    let ghost ts = c.tokens();
    c.consume(Token::Let)?;
    let mutable = c.advance_if(Token::Mut);
    let ghost q1 = c.pos();
    let name = parse_identifier(c)?;
    let id = ast::Expr { kind: ast::ExprKind::Var(Ptr::new(ast::Var { id: name })) };
    let ghost q2 = c.pos();
    assert(spell_expr(id, ts, q1) == Some(q2));
    let typeid = if c.advance_if(Token::Colon) {
        Some(parse_type(c)?)
    } else {
        None
    };
    let ghost q3 = c.pos();
    assert(match typeid {
        Some(t) => ts[q2]@ == TokenView::Plain(Token::Colon) && ts[q2 + 1]@ == TokenView::Plain(
            crate::spelling::type_token(t),
        ) && q3 == q2 + 2,
        None => q3 == q2,
    });
    let value = if c.advance_if(Token::Is) {
        if c.advance_if(Token::Amp) {
            let expr = parse_expr(c)?;
            let r = ast::Expr { kind: ast::ExprKind::Ref(Ptr::new(ast::Ref { expr })) };
            assert(spell_expr(r, ts, q3 + 1) == Some(c.pos()));
            Some(r)
        } else {
            let e = parse_expr(c)?;
            Some(e)
        }
    } else {
        None
    };
    let ghost q4 = c.pos();
    assert(match value {
        Some(x) => {
            &&& match x.kind {
                ast::ExprKind::Ref(r) => expr_wf(r.inner().expr),
                _ => expr_wf(x),
            }
            &&& ts[q3]@ == TokenView::Plain(Token::Is)
            &&& spell_expr(x, ts, q3 + 1) == Some(q4)
        },
        None => q4 == q3,
    });
    c.consume(Token::SemiColon)?;
    Ok(ast::Stmt { kind: ast::StmtKind::VarDecl(Ptr::new(ast::VarDecl { id, mutable, typeid, value })) })
}

/// `use expr;`.
fn parse_use_decl(c: &mut TokenCursor) -> (r: ParseResult<ast::Stmt>)
    requires
        old(c).wf(),
    ensures
        advanced(*old(c), *final(c)),
        r is Ok ==> old(c).pos() < final(c).pos(),
        r matches Ok(s) ==> s.kind is UseDecl,
        r matches Ok(s) ==> stmt_wf(s),
        r matches Ok(s) ==> spells_stmt(s, *old(c), *final(c)),
        old(c).tokens()[old(c).pos()]@ == TokenView::Plain(Token::Use) && flat_then_semi(old(c).tokens(), old(c).pos() + 1) is Some ==> (r is Ok
            && final(c).pos() == flat_then_semi(old(c).tokens(), old(c).pos() + 1)->0),
    decreases old(c).remaining(), 27nat,
{
    let ghost ts = c.tokens();
    let ghost p0 = c.pos();
    c.consume(Token::Use)?;
    let filename = parse_expr(c)?;
    c.consume_msg(Token::SemiColon, "expected semicolon after statement")?;
    assert(crate::spelling::spell_then_semicolon(filename, ts, p0 + 1) == Some(c.pos()));
    Ok(ast::Stmt { kind: ast::StmtKind::UseDecl(Ptr::new(ast::UseDecl { filename })) })
}

/// A block, a `print` or `return` statement, or an expression statement.
fn parse_stmt(c: &mut TokenCursor) -> (r: ParseResult<ast::Stmt>)
    requires
        old(c).wf(),
    ensures
        advanced(*old(c), *final(c)),
        r is Ok ==> old(c).pos() < final(c).pos(),
        r matches Ok(s) ==> match old(c).ahead(0) {
            Some(TokenView::Plain(Token::LeftBrace)) => s.kind is Block,
            Some(TokenView::Plain(Token::Print)) => s.kind is Print,
            Some(TokenView::Plain(Token::Return)) => s.kind is Return,
            _ => s.kind is Expr || s.kind is Connect || s.kind is Assignment,
        },
        r matches Ok(s) ==> stmt_wf(s),
        r matches Ok(s) ==> spells_stmt(s, *old(c), *final(c)),
        stmt_end(old(c).tokens(), old(c).pos()) is Some && !(old(c).ahead(0) == Some(TokenView::Plain(Token::Const))
            || old(c).ahead(0) == Some(TokenView::Plain(Token::Function)) || old(c).ahead(0) == Some(
            TokenView::Plain(Token::Let),
        ) || old(c).ahead(0) == Some(TokenView::Plain(Token::Use))) ==> (r is Ok && final(c).pos() == stmt_end(
            old(c).tokens(),
            old(c).pos(),
        )->0),
    decreases old(c).remaining(), 29nat,
{
    match c.peek() {
        Some(Token::LeftBrace) => parse_block_stmt(c),
        Some(Token::Print) => parse_print_stmt(c),
        Some(Token::Return) => parse_return_stmt(c),
        _ => parse_expr_stmt(c),
    }
}

/// `{`, declarations and statements, `}`.
fn parse_block_stmt(c: &mut TokenCursor) -> (r: ParseResult<ast::Stmt>)
    requires
        old(c).wf(),
    ensures
        advanced(*old(c), *final(c)),
        r is Ok ==> old(c).pos() < final(c).pos(),
        r matches Ok(s) ==> s.kind is Block,
        r matches Ok(s) ==> stmt_wf(s),
        r matches Ok(s) ==> spells_stmt(s, *old(c), *final(c)),
        block_end(old(c).tokens(), old(c).pos()) is Some ==> (r is Ok && final(c).pos() == block_end(old(c).tokens(), old(c).pos())->0),
        old(c).pos() < old(c).tokens().len() && old(c).tokens()[old(c).pos()]@ == TokenView::Plain(Token::LeftBrace) && stmts_run_out(old(c).tokens(), old(c).pos() + 1) ==> (r matches Err(
            e,
        ) && e.kind matches ParseErrorKind::UnexpectedEos(m) && m@ == "block statement"@),
    decreases old(c).remaining(), 12nat,
{
    c.consume(Token::LeftBrace)?;
    let mut body = ast::Stmts::new();
    loop
        invariant
            old(c).pos() < old(c).tokens().len() && old(c).tokens()[old(c).pos()]@ == TokenView::Plain(Token::LeftBrace) && stmts_run_out(old(c).tokens(), old(c).pos() + 1) ==> stmts_run_out(old(c).tokens(), c.pos()),
            advanced(*old(c), *c),
            old(c).pos() < c.pos(),
            forall|i: int| 0 <= i < body.0@.len() ==> stmt_wf(#[trigger] body.0@[i]),
            spell_stmts(body, body.0@.len() as int, old(c).tokens(), old(c).pos() + 1) == Some(c.pos()),
            block_end(old(c).tokens(), old(c).pos()) is Some ==> stmts_end(old(c).tokens(), c.pos()) == block_end(
                old(c).tokens(),
                old(c).pos(),
            ),
        ensures
            old(c).pos() < old(c).tokens().len() && old(c).tokens()[old(c).pos()]@ == TokenView::Plain(Token::LeftBrace) && stmts_run_out(old(c).tokens(), old(c).pos() + 1) ==> stmts_run_out(old(c).tokens(), c.pos()),
            advanced(*old(c), *c),
            old(c).pos() < c.pos(),
            forall|i: int| 0 <= i < body.0@.len() ==> stmt_wf(#[trigger] body.0@[i]),
            spell_stmts(body, body.0@.len() as int, old(c).tokens(), old(c).pos() + 1) == Some(c.pos()),
            block_end(old(c).tokens(), old(c).pos()) is Some ==> stmts_end(old(c).tokens(), c.pos()) == block_end(
                old(c).tokens(),
                old(c).pos(),
            ),
            c.ahead(0) == Some(TokenView::Plain(Token::RightBrace)),
        decreases c.remaining(),
    {
        let ghost x = c.pos();
        let ghost ts = c.tokens();
        match c.peek() {
            Some(Token::RightBrace) => break,
            None => {
                assert(stmts_end(ts, x) is None);
                return Err(ParseError::new(ParseErrorKind::UnexpectedEos("block statement".to_owned())));
            },
            _ => {
                let ghost before = body;
                assert(block_end(ts, old(c).pos()) is Some ==> stmts_end(ts, x) == stmts_end(ts, stmt_end(ts, x)->0)
                    && stmt_end(ts, x) is Some);
                assert(stmts_run_out(ts, x) ==> stmt_end(ts, x) is Some && stmts_run_out(ts, stmt_end(ts, x)->0));
                let s = parse_decl(c)?;
                body.0.push(s);
                proof {
                    lemma_stmts_prefix(before, body, before.0@.len() as int, old(c).tokens(), old(c).pos() + 1);
                }
            },
        }
    }
    assert(block_end(old(c).tokens(), old(c).pos()) is Some ==> stmts_end(old(c).tokens(), c.pos()) == Some(
        c.pos() + 1,
    ));
    c.consume(Token::RightBrace)?;
    Ok(ast::Stmt { kind: ast::StmtKind::Block(body) })
}

/// A name: an identifier token. A keyword in its place is `KeywordAsIdentifier`.
fn parse_identifier(c: &mut TokenCursor) -> (r: ParseResult<String>)
    requires
        old(c).wf(),
    ensures
        advanced(*old(c), *final(c)),
        took_one(*old(c), *final(c)),
        match old(c).ahead(0) {
            Some(TokenView::Ident(s)) => r matches Ok(id) && id@ == s,
            Some(TokenView::Plain(t)) => r matches Err(e) && e.kind == if is_keyword(t) {
                ParseErrorKind::KeywordAsIdentifier(t)
            } else {
                ParseErrorKind::Unexpected(t)
            },
            Some(v) => r matches Err(e) && e.kind matches ParseErrorKind::Unexpected(u) && u@ == v,
            None => r matches Err(e) && e.kind matches ParseErrorKind::UnexpectedEos(m) && m@ == "identifier"@,
        },
{
    match c.value() {
        Some(Token::Identifier(i)) => Ok(i),
        Some(t) => {
            if is_keyword_token(&t) {
                Err(ParseError::new(ParseErrorKind::KeywordAsIdentifier(t)))
            } else {
                Err(ParseError::new(ParseErrorKind::Unexpected(t)))
            }
        },
        None => Err(ParseError::new(ParseErrorKind::UnexpectedEos("identifier".to_owned()))),
    }
}

/// A type name.
fn parse_type(c: &mut TokenCursor) -> (r: ParseResult<ast::TypeKind>)
    requires
        old(c).wf(),
    ensures
        advanced(*old(c), *final(c)),
        took_one(*old(c), *final(c)),
        match old(c).ahead(0) {
            Some(v) => match type_of(v) {
                Some(t) => r == Ok::<ast::TypeKind, ParseError>(t),
                None => r matches Err(e) && e.kind is Custom,
            },
            None => r matches Err(e) && e.kind matches ParseErrorKind::Custom(m) && m@ == "empty type ID"@,
        },
{
    match c.value() {
        Some(Token::BoolId) => Ok(ast::TypeKind::Bool),
        Some(Token::NodeId) => Ok(ast::TypeKind::Node),
        Some(Token::GroupId) => Ok(ast::TypeKind::Group),
        Some(Token::NumberId) => Ok(ast::TypeKind::Number),
        Some(Token::StringId) => Ok(ast::TypeKind::String),
        Some(t) => Err(ParseError::new(ParseErrorKind::Custom(describe("not a type ID ", &t)))),
        None => Err(ParseError::new(ParseErrorKind::Custom("empty type ID".to_owned()))),
    }
}

/// An expression: the loosest level of precedence is the range.
fn parse_expr(c: &mut TokenCursor) -> (r: ParseResult<ast::Expr>)
    requires
        old(c).wf(),
    ensures
        advanced(*old(c), *final(c)),
        r is Ok ==> moved_or_empty(*old(c), *final(c)),
        r matches Ok(e) ==> expr_wf(e),
        r matches Ok(e) ==> spells_expr(e, *old(c), *final(c)),
        r is Ok ==> no_op_from(*final(c), 1),
        r matches Ok(e) ==> (open_right(e) ==> no_op_from(*final(c), 1)),
        flat(old(c).tokens(), old(c).pos()) ==> (r is Ok && final(c).pos() == flat_end(old(c).tokens(), old(c).pos())),
        full_end(old(c).tokens(), old(c).pos()) is Some ==> (r is Ok && final(c).pos() == full_end(old(c).tokens(), old(c).pos())->0),
    decreases old(c).remaining(), 25nat,
{
    parse_range_expr(c)
}

/// `start .. end` or `start ..= end`, or an expression of the next level.
fn parse_range_expr(c: &mut TokenCursor) -> (r: ParseResult<ast::Expr>)
    requires
        old(c).wf(),
    ensures
        advanced(*old(c), *final(c)),
        r is Ok ==> moved_or_empty(*old(c), *final(c)),
        r matches Ok(e) ==> (e.kind matches ast::ExprKind::Range(g) ==> (range_bound(g.inner().start)
            && range_bound(g.inner().end))),
        r matches Ok(e) ==> expr_wf(e),
        r matches Ok(e) ==> spells_expr(e, *old(c), *final(c)),
        r is Ok ==> no_op_from(*final(c), 1),
        r matches Ok(e) ==> (open_right(e) ==> no_op_from(*final(c), 1)),
        flat(old(c).tokens(), old(c).pos()) ==> (r is Ok && final(c).pos() == flat_end(old(c).tokens(), old(c).pos())),
        prim_alone(old(c).tokens(), old(c).pos()) && prim_end(old(c).tokens(), old(c).pos())->0 < old(c).tokens().len() && old(c).tokens()[prim_end(old(c).tokens(), old(c).pos())->0]@
            == TokenView::Plain(Token::Range) ==> ({
            let m = prim_end(old(c).tokens(), old(c).pos())->0;
            let a = range_end_start(old(c).tokens(), m);
            let bounds = bound_prim(old(c).tokens(), old(c).pos()) && prim_alone(old(c).tokens(), a) && bound_prim(old(c).tokens(), a);
            &&& bounds ==> (r matches Ok(e) && final(c).pos() == prim_end(old(c).tokens(), a)->0 && (e.kind matches ast::ExprKind::Range(g)
                && (g.inner().kind is Inclusive <==> a == m + 2)))
            &&& flat(old(c).tokens(), a) && !bounds ==> (r matches Err(e) && e.kind == ParseErrorKind::RangeDelimiter)
        }),
        full_end(old(c).tokens(), old(c).pos()) is Some ==> (r is Ok && final(c).pos() == full_end(old(c).tokens(), old(c).pos())->0),
    decreases old(c).remaining(), 24nat,
{
    let ghost ts0 = c.tokens();
    let ghost p0 = c.pos();
    let mut expr = parse_or_expr(c)?;
    proof {
        if flat(ts0, p0) {
            lemma_level_one(ts0, p0);
        }
    }
    if matches!(c.peek(), Some(Token::Range)) {
        c.consume(Token::Range)?;
        let kind = if matches!(c.peek(), Some(Token::Is)) {
            c.consume(Token::Is)?;
            ast::RangeKind::Inclusive
        } else {
            ast::RangeKind::Exclusive
        };
        let start = expr;
        let end = parse_or_expr(c)?;
        if !is_range_bound(&start) || !is_range_bound(&end) {
            return Err(ParseError::new(ParseErrorKind::RangeDelimiter));
        }
        expr = ast::Expr { kind: ast::ExprKind::Range(Ptr::new(ast::Range { kind, start, end })) };
    }
    Ok(expr)
}

/// Operands joined by `||`.
fn parse_or_expr(c: &mut TokenCursor) -> (r: ParseResult<ast::Expr>)
    requires
        old(c).wf(),
    ensures
        advanced(*old(c), *final(c)),
        r is Ok ==> moved_or_empty(*old(c), *final(c)),
        r matches Ok(e) ==> !(e.kind is Range),
        r matches Ok(e) ==> expr_wf(e),
        r matches Ok(e) ==> binds_at_least(e, 1),
        r matches Ok(e) ==> spells_expr(e, *old(c), *final(c)),
        r is Ok ==> no_op_from(*final(c), 1),
        r matches Ok(e) ==> (open_right(e) ==> no_op_from(*final(c), 1)),
        flat(old(c).tokens(), old(c).pos()) ==> (r is Ok && final(c).pos() == level_end(old(c).tokens(), old(c).pos(), 1)),
        prim_alone(old(c).tokens(), old(c).pos()) ==> (r matches Ok(e) && final(c).pos() == prim_end(old(c).tokens(), old(c).pos())->0 && (range_bound(e)
            <==> bound_prim(old(c).tokens(), old(c).pos()))),
        flat(old(c).tokens(), old(c).pos()) && prim_then_op(old(c).tokens(), old(c).pos(), 1) ==> (r matches Ok(e) ==> e.kind is Binary),
        flat(old(c).tokens(), old(c).pos()) && is_unop(old(c).tokens(), old(c).pos()) ==> (r matches Ok(e) ==> e.kind is Unary),
    decreases old(c).remaining(), 23nat,
{
    let ghost ts0 = c.tokens();
    let ghost p0 = c.pos();
    let mut expr = parse_and_expr(c)?;
    proof {
        if flat(ts0, p0) {
            lemma_seq_end(ts0, p0);
            lemma_level_split(ts0, p0, 1);
        }
    }
    loop
        invariant
            flat(old(c).tokens(), old(c).pos()) && prim_then_op(old(c).tokens(), old(c).pos(), 1) ==> (expr.kind is Binary || (c.pos() == prim_end(old(c).tokens(), old(c).pos())->0
                && op_level(binop_at(old(c).tokens(), c.pos())->0) == 1)),
            flat(old(c).tokens(), old(c).pos()) && is_unop(old(c).tokens(), old(c).pos()) ==> expr.kind is Unary && c.pos() == flat_end(old(c).tokens(), old(c).pos()),
            prim_alone(old(c).tokens(), old(c).pos()) ==> c.pos() == prim_end(old(c).tokens(), old(c).pos())->0 && (range_bound(expr) <==> bound_prim(old(c).tokens(), old(c).pos())),
            ts0 == old(c).tokens(),
            p0 == old(c).pos(),
            flat(old(c).tokens(), old(c).pos()) ==> level_state(old(c).tokens(), old(c).pos(), c.pos(), 1),
            advanced(*old(c), *c),
            moved_or_empty(*old(c), *c),
            !(expr.kind is Range),
            expr_wf(expr),
            spells_expr(expr, *old(c), *c),
            binds_at_least(expr, 1),
            open_right(expr) ==> no_op_from(*c, 1),
            no_op_from(*c, 2),
        ensures
            flat(old(c).tokens(), old(c).pos()) && prim_then_op(old(c).tokens(), old(c).pos(), 1) ==> (expr.kind is Binary || (c.pos() == prim_end(old(c).tokens(), old(c).pos())->0
                && op_level(binop_at(old(c).tokens(), c.pos())->0) == 1)),
            flat(old(c).tokens(), old(c).pos()) && is_unop(old(c).tokens(), old(c).pos()) ==> expr.kind is Unary && c.pos() == flat_end(old(c).tokens(), old(c).pos()),
            prim_alone(old(c).tokens(), old(c).pos()) ==> c.pos() == prim_end(old(c).tokens(), old(c).pos())->0 && (range_bound(expr) <==> bound_prim(old(c).tokens(), old(c).pos())),
            ts0 == old(c).tokens(),
            p0 == old(c).pos(),
            flat(old(c).tokens(), old(c).pos()) ==> level_state(old(c).tokens(), old(c).pos(), c.pos(), 1),
            advanced(*old(c), *c),
            moved_or_empty(*old(c), *c),
            !(expr.kind is Range),
            expr_wf(expr),
            spells_expr(expr, *old(c), *c),
            binds_at_least(expr, 1),
            open_right(expr) ==> no_op_from(*c, 1),
            no_op_from(*c, 2),
            no_op_from(*c, 1),
            flat(old(c).tokens(), old(c).pos()) ==> level_end(old(c).tokens(), old(c).pos(), 1) == c.pos(),
        decreases c.remaining(),
    {
        let ghost x0 = c.pos();
        if !matches!(c.peek(), Some(Token::Or)) {
            break;
        }
        let op = parse_binary_op(c.value())?;
        let ghost x1 = c.pos();
        proof {
            if flat(ts0, p0) {
                lemma_seq_end(ts0, p0);
                assert(x0 != flat_end(ts0, p0));
                assert(x1 == x0 + 1);
                assert(flat(ts0, x1));
            }
        }
        let rhs = parse_and_expr(c)?;
        proof {
            if flat(ts0, p0) {
                lemma_level_split(ts0, x1, 1);
            }
        }
        expr = ast::Expr { kind: ast::ExprKind::Binary(Ptr::new(ast::BinaryExpr { op, lhs: expr, rhs })) };
    }
    Ok(expr)
}

/// Operands joined by `&&`.
fn parse_and_expr(c: &mut TokenCursor) -> (r: ParseResult<ast::Expr>)
    requires
        old(c).wf(),
    ensures
        advanced(*old(c), *final(c)),
        r is Ok ==> moved_or_empty(*old(c), *final(c)),
        r matches Ok(e) ==> !(e.kind is Range),
        r matches Ok(e) ==> expr_wf(e),
        r matches Ok(e) ==> binds_at_least(e, 2),
        r matches Ok(e) ==> spells_expr(e, *old(c), *final(c)),
        r is Ok ==> no_op_from(*final(c), 2),
        r matches Ok(e) ==> (open_right(e) ==> no_op_from(*final(c), 1)),
        flat(old(c).tokens(), old(c).pos()) ==> (r is Ok && final(c).pos() == level_end(old(c).tokens(), old(c).pos(), 2)),
        prim_alone(old(c).tokens(), old(c).pos()) ==> (r matches Ok(e) && final(c).pos() == prim_end(old(c).tokens(), old(c).pos())->0 && (range_bound(e)
            <==> bound_prim(old(c).tokens(), old(c).pos()))),
        flat(old(c).tokens(), old(c).pos()) && prim_then_op(old(c).tokens(), old(c).pos(), 2) ==> (r matches Ok(e) ==> e.kind is Binary),
        flat(old(c).tokens(), old(c).pos()) && is_unop(old(c).tokens(), old(c).pos()) ==> (r matches Ok(e) ==> e.kind is Unary),
    decreases old(c).remaining(), 22nat,
{
    let ghost ts0 = c.tokens();
    let ghost p0 = c.pos();
    let mut expr = parse_equality_expr(c)?;
    proof {
        if flat(ts0, p0) {
            lemma_seq_end(ts0, p0);
            lemma_level_split(ts0, p0, 2);
        }
    }
    loop
        invariant
            flat(old(c).tokens(), old(c).pos()) && prim_then_op(old(c).tokens(), old(c).pos(), 2) ==> (expr.kind is Binary || (c.pos() == prim_end(old(c).tokens(), old(c).pos())->0
                && op_level(binop_at(old(c).tokens(), c.pos())->0) == 2)),
            flat(old(c).tokens(), old(c).pos()) && is_unop(old(c).tokens(), old(c).pos()) ==> expr.kind is Unary && c.pos() == flat_end(old(c).tokens(), old(c).pos()),
            prim_alone(old(c).tokens(), old(c).pos()) ==> c.pos() == prim_end(old(c).tokens(), old(c).pos())->0 && (range_bound(expr) <==> bound_prim(old(c).tokens(), old(c).pos())),
            ts0 == old(c).tokens(),
            p0 == old(c).pos(),
            flat(old(c).tokens(), old(c).pos()) ==> level_state(old(c).tokens(), old(c).pos(), c.pos(), 2),
            advanced(*old(c), *c),
            moved_or_empty(*old(c), *c),
            !(expr.kind is Range),
            expr_wf(expr),
            spells_expr(expr, *old(c), *c),
            binds_at_least(expr, 2),
            open_right(expr) ==> no_op_from(*c, 1),
            no_op_from(*c, 3),
        ensures
            flat(old(c).tokens(), old(c).pos()) && prim_then_op(old(c).tokens(), old(c).pos(), 2) ==> (expr.kind is Binary || (c.pos() == prim_end(old(c).tokens(), old(c).pos())->0
                && op_level(binop_at(old(c).tokens(), c.pos())->0) == 2)),
            flat(old(c).tokens(), old(c).pos()) && is_unop(old(c).tokens(), old(c).pos()) ==> expr.kind is Unary && c.pos() == flat_end(old(c).tokens(), old(c).pos()),
            prim_alone(old(c).tokens(), old(c).pos()) ==> c.pos() == prim_end(old(c).tokens(), old(c).pos())->0 && (range_bound(expr) <==> bound_prim(old(c).tokens(), old(c).pos())),
            ts0 == old(c).tokens(),
            p0 == old(c).pos(),
            flat(old(c).tokens(), old(c).pos()) ==> level_state(old(c).tokens(), old(c).pos(), c.pos(), 2),
            advanced(*old(c), *c),
            moved_or_empty(*old(c), *c),
            !(expr.kind is Range),
            expr_wf(expr),
            spells_expr(expr, *old(c), *c),
            binds_at_least(expr, 2),
            open_right(expr) ==> no_op_from(*c, 1),
            no_op_from(*c, 3),
            no_op_from(*c, 2),
            flat(old(c).tokens(), old(c).pos()) ==> level_end(old(c).tokens(), old(c).pos(), 2) == c.pos(),
        decreases c.remaining(),
    {
        let ghost x0 = c.pos();
        if !matches!(c.peek(), Some(Token::And)) {
            break;
        }
        let op = parse_binary_op(c.value())?;
        let ghost x1 = c.pos();
        proof {
            if flat(ts0, p0) {
                lemma_seq_end(ts0, p0);
                assert(x0 != flat_end(ts0, p0));
                assert(x1 == x0 + 1);
                assert(flat(ts0, x1));
            }
        }
        let rhs = parse_equality_expr(c)?;
        proof {
            if flat(ts0, p0) {
                lemma_level_split(ts0, x1, 2);
            }
        }
        expr = ast::Expr { kind: ast::ExprKind::Binary(Ptr::new(ast::BinaryExpr { op, lhs: expr, rhs })) };
    }
    Ok(expr)
}

/// Operands joined by `==` and `!=`.
fn parse_equality_expr(c: &mut TokenCursor) -> (r: ParseResult<ast::Expr>)
    requires
        old(c).wf(),
    ensures
        advanced(*old(c), *final(c)),
        r is Ok ==> moved_or_empty(*old(c), *final(c)),
        r matches Ok(e) ==> !(e.kind is Range),
        r matches Ok(e) ==> expr_wf(e),
        r matches Ok(e) ==> binds_at_least(e, 3),
        r matches Ok(e) ==> spells_expr(e, *old(c), *final(c)),
        r is Ok ==> no_op_from(*final(c), 3),
        r matches Ok(e) ==> (open_right(e) ==> no_op_from(*final(c), 1)),
        flat(old(c).tokens(), old(c).pos()) ==> (r is Ok && final(c).pos() == level_end(old(c).tokens(), old(c).pos(), 3)),
        prim_alone(old(c).tokens(), old(c).pos()) ==> (r matches Ok(e) && final(c).pos() == prim_end(old(c).tokens(), old(c).pos())->0 && (range_bound(e)
            <==> bound_prim(old(c).tokens(), old(c).pos()))),
        flat(old(c).tokens(), old(c).pos()) && prim_then_op(old(c).tokens(), old(c).pos(), 3) ==> (r matches Ok(e) ==> e.kind is Binary),
        flat(old(c).tokens(), old(c).pos()) && is_unop(old(c).tokens(), old(c).pos()) ==> (r matches Ok(e) ==> e.kind is Unary),
    decreases old(c).remaining(), 21nat,
{
    let ghost ts0 = c.tokens();
    let ghost p0 = c.pos();
    let mut expr = parse_relational_expr(c)?;
    proof {
        if flat(ts0, p0) {
            lemma_seq_end(ts0, p0);
            lemma_level_split(ts0, p0, 3);
        }
    }
    loop
        invariant
            flat(old(c).tokens(), old(c).pos()) && prim_then_op(old(c).tokens(), old(c).pos(), 3) ==> (expr.kind is Binary || (c.pos() == prim_end(old(c).tokens(), old(c).pos())->0
                && op_level(binop_at(old(c).tokens(), c.pos())->0) == 3)),
            flat(old(c).tokens(), old(c).pos()) && is_unop(old(c).tokens(), old(c).pos()) ==> expr.kind is Unary && c.pos() == flat_end(old(c).tokens(), old(c).pos()),
            prim_alone(old(c).tokens(), old(c).pos()) ==> c.pos() == prim_end(old(c).tokens(), old(c).pos())->0 && (range_bound(expr) <==> bound_prim(old(c).tokens(), old(c).pos())),
            ts0 == old(c).tokens(),
            p0 == old(c).pos(),
            flat(old(c).tokens(), old(c).pos()) ==> level_state(old(c).tokens(), old(c).pos(), c.pos(), 3),
            advanced(*old(c), *c),
            moved_or_empty(*old(c), *c),
            !(expr.kind is Range),
            expr_wf(expr),
            spells_expr(expr, *old(c), *c),
            binds_at_least(expr, 3),
            open_right(expr) ==> no_op_from(*c, 1),
            no_op_from(*c, 4),
        ensures
            flat(old(c).tokens(), old(c).pos()) && prim_then_op(old(c).tokens(), old(c).pos(), 3) ==> (expr.kind is Binary || (c.pos() == prim_end(old(c).tokens(), old(c).pos())->0
                && op_level(binop_at(old(c).tokens(), c.pos())->0) == 3)),
            flat(old(c).tokens(), old(c).pos()) && is_unop(old(c).tokens(), old(c).pos()) ==> expr.kind is Unary && c.pos() == flat_end(old(c).tokens(), old(c).pos()),
            prim_alone(old(c).tokens(), old(c).pos()) ==> c.pos() == prim_end(old(c).tokens(), old(c).pos())->0 && (range_bound(expr) <==> bound_prim(old(c).tokens(), old(c).pos())),
            ts0 == old(c).tokens(),
            p0 == old(c).pos(),
            flat(old(c).tokens(), old(c).pos()) ==> level_state(old(c).tokens(), old(c).pos(), c.pos(), 3),
            advanced(*old(c), *c),
            moved_or_empty(*old(c), *c),
            !(expr.kind is Range),
            expr_wf(expr),
            spells_expr(expr, *old(c), *c),
            binds_at_least(expr, 3),
            open_right(expr) ==> no_op_from(*c, 1),
            no_op_from(*c, 4),
            no_op_from(*c, 3),
            flat(old(c).tokens(), old(c).pos()) ==> level_end(old(c).tokens(), old(c).pos(), 3) == c.pos(),
        decreases c.remaining(),
    {
        let ghost x0 = c.pos();
        if !matches!(c.peek(), Some(Token::Eq | Token::NotEq)) {
            break;
        }
        let op = parse_binary_op(c.value())?;
        let ghost x1 = c.pos();
        proof {
            if flat(ts0, p0) {
                lemma_seq_end(ts0, p0);
                assert(x0 != flat_end(ts0, p0));
                assert(x1 == x0 + 1);
                assert(flat(ts0, x1));
            }
        }
        let rhs = parse_relational_expr(c)?;
        proof {
            if flat(ts0, p0) {
                lemma_level_split(ts0, x1, 3);
            }
        }
        expr = ast::Expr { kind: ast::ExprKind::Binary(Ptr::new(ast::BinaryExpr { op, lhs: expr, rhs })) };
    }
    Ok(expr)
}

/// Operands joined by `<`, `>`, `<=` and `>=`.
fn parse_relational_expr(c: &mut TokenCursor) -> (r: ParseResult<ast::Expr>)
    requires
        old(c).wf(),
    ensures
        advanced(*old(c), *final(c)),
        r is Ok ==> moved_or_empty(*old(c), *final(c)),
        r matches Ok(e) ==> !(e.kind is Range),
        r matches Ok(e) ==> expr_wf(e),
        r matches Ok(e) ==> binds_at_least(e, 4),
        r matches Ok(e) ==> spells_expr(e, *old(c), *final(c)),
        r is Ok ==> no_op_from(*final(c), 4),
        r matches Ok(e) ==> (open_right(e) ==> no_op_from(*final(c), 1)),
        flat(old(c).tokens(), old(c).pos()) ==> (r is Ok && final(c).pos() == level_end(old(c).tokens(), old(c).pos(), 4)),
        prim_alone(old(c).tokens(), old(c).pos()) ==> (r matches Ok(e) && final(c).pos() == prim_end(old(c).tokens(), old(c).pos())->0 && (range_bound(e)
            <==> bound_prim(old(c).tokens(), old(c).pos()))),
        flat(old(c).tokens(), old(c).pos()) && prim_then_op(old(c).tokens(), old(c).pos(), 4) ==> (r matches Ok(e) ==> e.kind is Binary),
        flat(old(c).tokens(), old(c).pos()) && is_unop(old(c).tokens(), old(c).pos()) ==> (r matches Ok(e) ==> e.kind is Unary),
    decreases old(c).remaining(), 20nat,
{
    let ghost ts0 = c.tokens();
    let ghost p0 = c.pos();
    let mut expr = parse_expr_term(c)?;
    proof {
        if flat(ts0, p0) {
            lemma_seq_end(ts0, p0);
            lemma_level_split(ts0, p0, 4);
        }
    }
    loop
        invariant
            flat(old(c).tokens(), old(c).pos()) && prim_then_op(old(c).tokens(), old(c).pos(), 4) ==> (expr.kind is Binary || (c.pos() == prim_end(old(c).tokens(), old(c).pos())->0
                && op_level(binop_at(old(c).tokens(), c.pos())->0) == 4)),
            flat(old(c).tokens(), old(c).pos()) && is_unop(old(c).tokens(), old(c).pos()) ==> expr.kind is Unary && c.pos() == flat_end(old(c).tokens(), old(c).pos()),
            prim_alone(old(c).tokens(), old(c).pos()) ==> c.pos() == prim_end(old(c).tokens(), old(c).pos())->0 && (range_bound(expr) <==> bound_prim(old(c).tokens(), old(c).pos())),
            ts0 == old(c).tokens(),
            p0 == old(c).pos(),
            flat(old(c).tokens(), old(c).pos()) ==> level_state(old(c).tokens(), old(c).pos(), c.pos(), 4),
            advanced(*old(c), *c),
            moved_or_empty(*old(c), *c),
            !(expr.kind is Range),
            expr_wf(expr),
            spells_expr(expr, *old(c), *c),
            binds_at_least(expr, 4),
            open_right(expr) ==> no_op_from(*c, 1),
            no_op_from(*c, 5),
        ensures
            flat(old(c).tokens(), old(c).pos()) && prim_then_op(old(c).tokens(), old(c).pos(), 4) ==> (expr.kind is Binary || (c.pos() == prim_end(old(c).tokens(), old(c).pos())->0
                && op_level(binop_at(old(c).tokens(), c.pos())->0) == 4)),
            flat(old(c).tokens(), old(c).pos()) && is_unop(old(c).tokens(), old(c).pos()) ==> expr.kind is Unary && c.pos() == flat_end(old(c).tokens(), old(c).pos()),
            prim_alone(old(c).tokens(), old(c).pos()) ==> c.pos() == prim_end(old(c).tokens(), old(c).pos())->0 && (range_bound(expr) <==> bound_prim(old(c).tokens(), old(c).pos())),
            ts0 == old(c).tokens(),
            p0 == old(c).pos(),
            flat(old(c).tokens(), old(c).pos()) ==> level_state(old(c).tokens(), old(c).pos(), c.pos(), 4),
            advanced(*old(c), *c),
            moved_or_empty(*old(c), *c),
            !(expr.kind is Range),
            expr_wf(expr),
            spells_expr(expr, *old(c), *c),
            binds_at_least(expr, 4),
            open_right(expr) ==> no_op_from(*c, 1),
            no_op_from(*c, 5),
            no_op_from(*c, 4),
            flat(old(c).tokens(), old(c).pos()) ==> level_end(old(c).tokens(), old(c).pos(), 4) == c.pos(),
        decreases c.remaining(),
    {
        let ghost x0 = c.pos();
        if !matches!(c.peek(), Some(Token::Lt | Token::Gt | Token::LtEq | Token::GtEq)) {
            break;
        }
        let op = parse_binary_op(c.value())?;
        let ghost x1 = c.pos();
        proof {
            if flat(ts0, p0) {
                lemma_seq_end(ts0, p0);
                assert(x0 != flat_end(ts0, p0));
                assert(x1 == x0 + 1);
                assert(flat(ts0, x1));
            }
        }
        let rhs = parse_expr_term(c)?;
        proof {
            if flat(ts0, p0) {
                lemma_level_split(ts0, x1, 4);
            }
        }
        expr = ast::Expr { kind: ast::ExprKind::Binary(Ptr::new(ast::BinaryExpr { op, lhs: expr, rhs })) };
    }
    Ok(expr)
}

/// Operands joined by `+` and `-`.
fn parse_expr_term(c: &mut TokenCursor) -> (r: ParseResult<ast::Expr>)
    requires
        old(c).wf(),
    ensures
        advanced(*old(c), *final(c)),
        r is Ok ==> moved_or_empty(*old(c), *final(c)),
        r matches Ok(e) ==> !(e.kind is Range),
        r matches Ok(e) ==> expr_wf(e),
        r matches Ok(e) ==> binds_at_least(e, 5),
        r matches Ok(e) ==> spells_expr(e, *old(c), *final(c)),
        r is Ok ==> no_op_from(*final(c), 5),
        r matches Ok(e) ==> (open_right(e) ==> no_op_from(*final(c), 1)),
        flat(old(c).tokens(), old(c).pos()) ==> (r is Ok && final(c).pos() == level_end(old(c).tokens(), old(c).pos(), 5)),
        prim_alone(old(c).tokens(), old(c).pos()) ==> (r matches Ok(e) && final(c).pos() == prim_end(old(c).tokens(), old(c).pos())->0 && (range_bound(e)
            <==> bound_prim(old(c).tokens(), old(c).pos()))),
        flat(old(c).tokens(), old(c).pos()) && prim_then_op(old(c).tokens(), old(c).pos(), 5) ==> (r matches Ok(e) ==> e.kind is Binary),
        flat(old(c).tokens(), old(c).pos()) && is_unop(old(c).tokens(), old(c).pos()) ==> (r matches Ok(e) ==> e.kind is Unary),
    decreases old(c).remaining(), 19nat,
{
    let ghost ts0 = c.tokens();
    let ghost p0 = c.pos();
    let mut expr = parse_factor_expr(c)?;
    proof {
        if flat(ts0, p0) {
            lemma_seq_end(ts0, p0);
            lemma_level_split(ts0, p0, 5);
        }
    }
    loop
        invariant
            flat(old(c).tokens(), old(c).pos()) && prim_then_op(old(c).tokens(), old(c).pos(), 5) ==> (expr.kind is Binary || (c.pos() == prim_end(old(c).tokens(), old(c).pos())->0
                && op_level(binop_at(old(c).tokens(), c.pos())->0) == 5)),
            flat(old(c).tokens(), old(c).pos()) && is_unop(old(c).tokens(), old(c).pos()) ==> expr.kind is Unary && c.pos() == flat_end(old(c).tokens(), old(c).pos()),
            prim_alone(old(c).tokens(), old(c).pos()) ==> c.pos() == prim_end(old(c).tokens(), old(c).pos())->0 && (range_bound(expr) <==> bound_prim(old(c).tokens(), old(c).pos())),
            ts0 == old(c).tokens(),
            p0 == old(c).pos(),
            flat(old(c).tokens(), old(c).pos()) ==> level_state(old(c).tokens(), old(c).pos(), c.pos(), 5),
            advanced(*old(c), *c),
            moved_or_empty(*old(c), *c),
            !(expr.kind is Range),
            expr_wf(expr),
            spells_expr(expr, *old(c), *c),
            binds_at_least(expr, 5),
            open_right(expr) ==> no_op_from(*c, 1),
            no_op_from(*c, 6),
        ensures
            flat(old(c).tokens(), old(c).pos()) && prim_then_op(old(c).tokens(), old(c).pos(), 5) ==> (expr.kind is Binary || (c.pos() == prim_end(old(c).tokens(), old(c).pos())->0
                && op_level(binop_at(old(c).tokens(), c.pos())->0) == 5)),
            flat(old(c).tokens(), old(c).pos()) && is_unop(old(c).tokens(), old(c).pos()) ==> expr.kind is Unary && c.pos() == flat_end(old(c).tokens(), old(c).pos()),
            prim_alone(old(c).tokens(), old(c).pos()) ==> c.pos() == prim_end(old(c).tokens(), old(c).pos())->0 && (range_bound(expr) <==> bound_prim(old(c).tokens(), old(c).pos())),
            ts0 == old(c).tokens(),
            p0 == old(c).pos(),
            flat(old(c).tokens(), old(c).pos()) ==> level_state(old(c).tokens(), old(c).pos(), c.pos(), 5),
            advanced(*old(c), *c),
            moved_or_empty(*old(c), *c),
            !(expr.kind is Range),
            expr_wf(expr),
            spells_expr(expr, *old(c), *c),
            binds_at_least(expr, 5),
            open_right(expr) ==> no_op_from(*c, 1),
            no_op_from(*c, 6),
            no_op_from(*c, 5),
            flat(old(c).tokens(), old(c).pos()) ==> level_end(old(c).tokens(), old(c).pos(), 5) == c.pos(),
        decreases c.remaining(),
    {
        let ghost x0 = c.pos();
        if !matches!(c.peek(), Some(Token::Plus | Token::Minus)) {
            break;
        }
        let op = parse_binary_op(c.value())?;
        let ghost x1 = c.pos();
        proof {
            if flat(ts0, p0) {
                lemma_seq_end(ts0, p0);
                assert(x0 != flat_end(ts0, p0));
                assert(x1 == x0 + 1);
                assert(flat(ts0, x1));
            }
        }
        let rhs = parse_factor_expr(c)?;
        proof {
            if flat(ts0, p0) {
                lemma_level_split(ts0, x1, 5);
            }
        }
        expr = ast::Expr { kind: ast::ExprKind::Binary(Ptr::new(ast::BinaryExpr { op, lhs: expr, rhs })) };
    }
    Ok(expr)
}

/// Operands joined by `*`, `/` and `%`.
fn parse_factor_expr(c: &mut TokenCursor) -> (r: ParseResult<ast::Expr>)
    requires
        old(c).wf(),
    ensures
        advanced(*old(c), *final(c)),
        r is Ok ==> moved_or_empty(*old(c), *final(c)),
        r matches Ok(e) ==> !(e.kind is Range),
        r matches Ok(e) ==> expr_wf(e),
        r matches Ok(e) ==> binds_at_least(e, 6),
        r matches Ok(e) ==> spells_expr(e, *old(c), *final(c)),
        r is Ok ==> no_op_from(*final(c), 6),
        r matches Ok(e) ==> (open_right(e) ==> no_op_from(*final(c), 1)),
        flat(old(c).tokens(), old(c).pos()) ==> (r is Ok && final(c).pos() == level_end(old(c).tokens(), old(c).pos(), 6)),
        prim_alone(old(c).tokens(), old(c).pos()) ==> (r matches Ok(e) && final(c).pos() == prim_end(old(c).tokens(), old(c).pos())->0 && (range_bound(e)
            <==> bound_prim(old(c).tokens(), old(c).pos()))),
        flat(old(c).tokens(), old(c).pos()) && prim_then_op(old(c).tokens(), old(c).pos(), 6) ==> (r matches Ok(e) ==> e.kind is Binary),
        flat(old(c).tokens(), old(c).pos()) && is_unop(old(c).tokens(), old(c).pos()) ==> (r matches Ok(e) ==> e.kind is Unary),
    decreases old(c).remaining(), 18nat,
{
    let ghost ts0 = c.tokens();
    let ghost p0 = c.pos();
    let mut expr = parse_unary_expr(c)?;
    proof {
        if flat(ts0, p0) {
            lemma_seq_end(ts0, p0);
            lemma_level_split(ts0, p0, 6);
        }
    }
    loop
        invariant
            flat(old(c).tokens(), old(c).pos()) && prim_then_op(old(c).tokens(), old(c).pos(), 6) ==> (expr.kind is Binary || (c.pos() == prim_end(old(c).tokens(), old(c).pos())->0
                && op_level(binop_at(old(c).tokens(), c.pos())->0) == 6)),
            flat(old(c).tokens(), old(c).pos()) && is_unop(old(c).tokens(), old(c).pos()) ==> expr.kind is Unary && c.pos() == flat_end(old(c).tokens(), old(c).pos()),
            prim_alone(old(c).tokens(), old(c).pos()) ==> c.pos() == prim_end(old(c).tokens(), old(c).pos())->0 && (range_bound(expr) <==> bound_prim(old(c).tokens(), old(c).pos())),
            ts0 == old(c).tokens(),
            p0 == old(c).pos(),
            flat(old(c).tokens(), old(c).pos()) ==> level_state(old(c).tokens(), old(c).pos(), c.pos(), 6),
            advanced(*old(c), *c),
            moved_or_empty(*old(c), *c),
            !(expr.kind is Range),
            expr_wf(expr),
            spells_expr(expr, *old(c), *c),
            binds_at_least(expr, 6),
            open_right(expr) ==> no_op_from(*c, 1),
            no_op_from(*c, 7),
        ensures
            flat(old(c).tokens(), old(c).pos()) && prim_then_op(old(c).tokens(), old(c).pos(), 6) ==> (expr.kind is Binary || (c.pos() == prim_end(old(c).tokens(), old(c).pos())->0
                && op_level(binop_at(old(c).tokens(), c.pos())->0) == 6)),
            flat(old(c).tokens(), old(c).pos()) && is_unop(old(c).tokens(), old(c).pos()) ==> expr.kind is Unary && c.pos() == flat_end(old(c).tokens(), old(c).pos()),
            prim_alone(old(c).tokens(), old(c).pos()) ==> c.pos() == prim_end(old(c).tokens(), old(c).pos())->0 && (range_bound(expr) <==> bound_prim(old(c).tokens(), old(c).pos())),
            ts0 == old(c).tokens(),
            p0 == old(c).pos(),
            flat(old(c).tokens(), old(c).pos()) ==> level_state(old(c).tokens(), old(c).pos(), c.pos(), 6),
            advanced(*old(c), *c),
            moved_or_empty(*old(c), *c),
            !(expr.kind is Range),
            expr_wf(expr),
            spells_expr(expr, *old(c), *c),
            binds_at_least(expr, 6),
            open_right(expr) ==> no_op_from(*c, 1),
            no_op_from(*c, 7),
            no_op_from(*c, 6),
            flat(old(c).tokens(), old(c).pos()) ==> level_end(old(c).tokens(), old(c).pos(), 6) == c.pos(),
        decreases c.remaining(),
    {
        let ghost x0 = c.pos();
        if !matches!(c.peek(), Some(Token::Star | Token::Slash | Token::Percent)) {
            break;
        }
        let op = parse_binary_op(c.value())?;
        let ghost x1 = c.pos();
        proof {
            if flat(ts0, p0) {
                lemma_seq_end(ts0, p0);
                assert(x0 != flat_end(ts0, p0));
                assert(x1 == x0 + 1);
                assert(flat(ts0, x1));
            }
        }
        let rhs = parse_unary_expr(c)?;
        proof {
            if flat(ts0, p0) {
                lemma_level_split(ts0, x1, 6);
            }
        }
        expr = ast::Expr { kind: ast::ExprKind::Binary(Ptr::new(ast::BinaryExpr { op, lhs: expr, rhs })) };
    }
    Ok(expr)
}

/// A prefix operator applies to the whole expression after it.
fn parse_unary_expr(c: &mut TokenCursor) -> (r: ParseResult<ast::Expr>)
    requires
        old(c).wf(),
    ensures
        advanced(*old(c), *final(c)),
        r is Ok ==> moved_or_empty(*old(c), *final(c)),
        r matches Ok(e) ==> !(e.kind is Range),
        match old(c).ahead(0) {
            Some(t) => unary_op_of(t) is Some ==> (r matches Ok(e) ==> e.kind matches ast::ExprKind::Unary(u)
                && Some(u.inner().op) == unary_op_of(t)),
            None => true,
        },
        r matches Ok(e) ==> expr_wf(e),
        r matches Ok(e) ==> binds_at_least(e, 7),
        r matches Ok(e) ==> spells_expr(e, *old(c), *final(c)),
        r is Ok ==> no_op_from(*final(c), 7),
        r matches Ok(e) ==> (open_right(e) ==> no_op_from(*final(c), 1)),
        flat(old(c).tokens(), old(c).pos()) ==> (r is Ok && final(c).pos() == level_end(old(c).tokens(), old(c).pos(), 7)),
        prim_alone(old(c).tokens(), old(c).pos()) ==> (r matches Ok(e) && final(c).pos() == prim_end(old(c).tokens(), old(c).pos())->0 && (range_bound(e)
            <==> bound_prim(old(c).tokens(), old(c).pos()))),
        flat(old(c).tokens(), old(c).pos()) && is_unop(old(c).tokens(), old(c).pos()) ==> (r matches Ok(e) ==> e.kind is Unary),
        flat(old(c).tokens(), old(c).pos()) && prim_then_op(old(c).tokens(), old(c).pos(), 7) ==> (r matches Ok(e) ==> e.kind is Binary),
    decreases old(c).remaining(), 17nat,
{
    let ghost ts0 = c.tokens();
    let ghost p0 = c.pos();
    if matches!(c.peek(), Some(Token::Bang | Token::Minus | Token::Group | Token::Node | Token::Plus)) {
        assert(flat(ts0, p0) ==> seq_end(ts0, p0 + 1) == seq_end(ts0, p0));
        let op = parse_unary_op(c.value())?;
        let expr = parse_expr(c)?;
        Ok(ast::Expr { kind: ast::ExprKind::Unary(Ptr::new(ast::UnaryExpr { op, expr })) })
    } else {
        parse_dot_expr(c)
    }
}

/// Operands joined by `.`.
fn parse_dot_expr(c: &mut TokenCursor) -> (r: ParseResult<ast::Expr>)
    requires
        old(c).wf(),
    ensures
        advanced(*old(c), *final(c)),
        r is Ok ==> moved_or_empty(*old(c), *final(c)),
        r matches Ok(e) ==> !(e.kind is Range),
        r matches Ok(e) ==> expr_wf(e),
        r matches Ok(e) ==> binds_at_least(e, 7),
        r matches Ok(e) ==> spells_expr(e, *old(c), *final(c)),
        r is Ok ==> no_op_from(*final(c), 7),
        r matches Ok(e) ==> (open_right(e) ==> no_op_from(*final(c), 1)),
        flat(old(c).tokens(), old(c).pos()) && !is_unop(old(c).tokens(), old(c).pos()) ==> (r is Ok && final(c).pos() == level_end(old(c).tokens(), old(c).pos(), 7)),
        prim_alone(old(c).tokens(), old(c).pos()) ==> (r matches Ok(e) && final(c).pos() == prim_end(old(c).tokens(), old(c).pos())->0 && (range_bound(e)
            <==> bound_prim(old(c).tokens(), old(c).pos()))),
        flat(old(c).tokens(), old(c).pos()) && prim_then_op(old(c).tokens(), old(c).pos(), 7) ==> (r matches Ok(e) ==> e.kind is Binary),
    decreases old(c).remaining(), 16nat,
{
    let ghost ts0 = c.tokens();
    let ghost p0 = c.pos();
    assert(flat(ts0, p0) && !is_unop(ts0, p0) ==> prim_end(ts0, p0) is Some);
    let mut expr = parse_call_expr(c)?;
    proof {
        if flat(ts0, p0) && !is_unop(ts0, p0) {
            lemma_seq_end(ts0, p0);
            lemma_level_split(ts0, p0, 7);
        }
    }
    loop
        invariant
            flat(old(c).tokens(), old(c).pos()) && prim_then_op(old(c).tokens(), old(c).pos(), 7) ==> (expr.kind is Binary || (c.pos() == prim_end(old(c).tokens(), old(c).pos())->0
                && op_level(binop_at(old(c).tokens(), c.pos())->0) == 7)),
            prim_alone(old(c).tokens(), old(c).pos()) ==> c.pos() == prim_end(old(c).tokens(), old(c).pos())->0 && (range_bound(expr) <==> bound_prim(old(c).tokens(), old(c).pos())),
            ts0 == old(c).tokens(),
            p0 == old(c).pos(),
            flat(old(c).tokens(), old(c).pos()) && !is_unop(old(c).tokens(), old(c).pos()) ==> level_state(old(c).tokens(), old(c).pos(), c.pos(), 7),
            advanced(*old(c), *c),
            moved_or_empty(*old(c), *c),
            !(expr.kind is Range),
            expr_wf(expr),
            spells_expr(expr, *old(c), *c),
            binds_at_least(expr, 7),
            open_right(expr) ==> no_op_from(*c, 1),
            no_op_from(*c, 8),
        ensures
            flat(old(c).tokens(), old(c).pos()) && prim_then_op(old(c).tokens(), old(c).pos(), 7) ==> (expr.kind is Binary || (c.pos() == prim_end(old(c).tokens(), old(c).pos())->0
                && op_level(binop_at(old(c).tokens(), c.pos())->0) == 7)),
            prim_alone(old(c).tokens(), old(c).pos()) ==> c.pos() == prim_end(old(c).tokens(), old(c).pos())->0 && (range_bound(expr) <==> bound_prim(old(c).tokens(), old(c).pos())),
            ts0 == old(c).tokens(),
            p0 == old(c).pos(),
            flat(old(c).tokens(), old(c).pos()) && !is_unop(old(c).tokens(), old(c).pos()) ==> level_state(old(c).tokens(), old(c).pos(), c.pos(), 7),
            advanced(*old(c), *c),
            moved_or_empty(*old(c), *c),
            !(expr.kind is Range),
            expr_wf(expr),
            spells_expr(expr, *old(c), *c),
            binds_at_least(expr, 7),
            open_right(expr) ==> no_op_from(*c, 1),
            no_op_from(*c, 8),
            no_op_from(*c, 7),
            flat(old(c).tokens(), old(c).pos()) && !is_unop(old(c).tokens(), old(c).pos()) ==> level_end(old(c).tokens(), old(c).pos(), 7) == c.pos(),
        decreases c.remaining(),
    {
        let ghost x0 = c.pos();
        if !matches!(c.peek(), Some(Token::Dot)) {
            break;
        }
        let op = parse_binary_op(c.value())?;
        let ghost x1 = c.pos();
        proof {
            if flat(ts0, p0) && !is_unop(ts0, p0) {
                lemma_seq_end(ts0, p0);
                assert(x0 != flat_end(ts0, p0));
                assert(x1 == x0 + 1);
                assert(flat(ts0, x1));
            }
        }
        let rhs = parse_call_expr(c)?;
        proof {
            if flat(ts0, p0) && !is_unop(ts0, p0) {
                lemma_level_split(ts0, x1, 7);
            }
        }
        expr = ast::Expr { kind: ast::ExprKind::Binary(Ptr::new(ast::BinaryExpr { op, lhs: expr, rhs })) };
    }
    Ok(expr)
}

/// A name followed by `(` is a call.
fn parse_call_expr(c: &mut TokenCursor) -> (r: ParseResult<ast::Expr>)
    requires
        old(c).wf(),
    ensures
        advanced(*old(c), *final(c)),
        r is Ok ==> moved_or_empty(*old(c), *final(c)),
        r matches Ok(e) ==> !(e.kind is Range),
        match (old(c).ahead(0), old(c).ahead(1)) {
            (Some(TokenView::Ident(name)), Some(TokenView::Plain(Token::LeftParen))) => r matches Ok(e) ==> (
            e.kind matches ast::ExprKind::FuncCall(f) && f.inner().id@ == name),
            _ => true,
        },
        r matches Ok(e) ==> expr_wf(e),
        r matches Ok(e) ==> binds_at_least(e, 8),
        r matches Ok(e) ==> spells_expr(e, *old(c), *final(c)),
        r matches Ok(e) ==> !(e.kind is Unary) && !(e.kind is Binary) && !open_right(e),
        prim_end(old(c).tokens(), old(c).pos()) is Some ==> (r is Ok && final(c).pos() == prim_end(old(c).tokens(), old(c).pos())->0 && final(c).pos()
            == level_end(old(c).tokens(), old(c).pos(), 8)),
        prim_end(old(c).tokens(), old(c).pos()) is Some ==> (r matches Ok(e) ==> (range_bound(e) <==> bound_prim(old(c).tokens(), old(c).pos()))),
    decreases old(c).remaining(), 15nat,
{
    let ghost ts0 = c.tokens();
    let ghost p0 = c.pos();
    if matches!(c.peek(), Some(Token::Identifier(_))) && matches!(c.peek_next(), Some(Token::LeftParen)) {
        let id = parse_identifier(c)?;
        c.consume(Token::LeftParen)?;
        let ghost ts = c.tokens();
        let ghost start = c.pos();
        let mut args: Vec<ast::Expr> = Vec::new();
        loop
            invariant_except_break
                spell_args_with_commas(ast::FuncCall { id, args }, args@.len() as int, ts, start) == Some(
                    c.pos(),
                ),
            invariant
                advanced(*old(c), *c),
                old(c).pos() < c.pos(),
                forall|i: int| 0 <= i < args@.len() ==> expr_wf(#[trigger] args@[i]),
                ts == old(c).tokens(),
                start == old(c).pos() + 2,
                tok_is_call(old(c).tokens(), old(c).pos()),
                prim_end(old(c).tokens(), old(c).pos()) is Some ==> args_end(ts, c.pos()) == args_end(ts, start)
                    && args_end(ts, start) is Some,
            ensures
                prim_end(old(c).tokens(), old(c).pos()) is Some ==> args_end(ts, start) == Some(c.pos()),
                tok_is_call(old(c).tokens(), old(c).pos()),
                advanced(*old(c), *c),
                old(c).pos() < c.pos(),
                forall|i: int| 0 <= i < args@.len() ==> expr_wf(#[trigger] args@[i]),
                spell_call_args(ast::FuncCall { id, args }, ts, start) == Some(c.pos()),
            decreases c.remaining(),
        {
            if matches!(c.peek(), Some(Token::RightParen)) {
                proof {
                    let f = ast::FuncCall { id, args };
                    let n = args@.len() as int;
                    if n > 0 {
                        assert(spell_args_with_commas(f, n, ts, start) == match spell_args_with_commas(
                            f,
                            n - 1,
                            ts,
                            start,
                        ) {
                            Some(q) => match spell_expr(f.args@[n - 1], ts, q) {
                                Some(r) => crate::spelling::after(ts, r, TokenView::Plain(Token::Comma)),
                                None => None,
                            },
                            None => None,
                        });
                    }
                }
                break;
            }
            let ghost before = args;
            let ghost q0 = c.pos();
            let arg = parse_expr(c)?;
            args.push(arg);
            proof {
                lemma_args_prefix(
                    ast::FuncCall { id, args: before },
                    ast::FuncCall { id, args },
                    before@.len() as int,
                    ts,
                    start,
                );
            }
            let ghost q1 = c.pos();
            if !c.advance_if(Token::Comma) {
                proof {
                    let f = ast::FuncCall { id, args };
                    let n = args@.len() as int;
                    assert(f.args@[n - 1] == arg);
                    assert(spell_call_args(f, ts, start) == Some(q1));
                }
                break;
            }
        }
        c.consume(Token::RightParen)?;
        Ok(ast::Expr { kind: ast::ExprKind::FuncCall(Ptr::new(ast::FuncCall { id, args })) })
    } else {
        parse_primary_expr(c)
    }
}

/// A literal, a variable, a control-flow expression, a group, a block, or the empty expression before `;`.
fn parse_primary_expr(c: &mut TokenCursor) -> (r: ParseResult<ast::Expr>)
    requires
        old(c).wf(),
    ensures
        advanced(*old(c), *final(c)),
        r is Ok ==> moved_or_empty(*old(c), *final(c)),
        old(c).ahead(0) == Some(TokenView::Plain(Token::SemiColon)) ==> (r matches Ok(e) && e.kind is Empty
            && final(c).pos() == old(c).pos()),
        r matches Ok(e) ==> !(e.kind is Range),
        match old(c).ahead(0) {
            Some(TokenView::Plain(Token::Number(_))) | Some(TokenView::Str(_)) | Some(
                TokenView::Plain(Token::True),
            ) | Some(TokenView::Plain(Token::False)) => r matches Ok(e) && e.kind is Literal,
            Some(TokenView::Ident(_)) => r matches Ok(e) && e.kind is Var,
            Some(TokenView::Plain(Token::If)) => r matches Ok(e) ==> e.kind is If,
            Some(TokenView::Plain(Token::While)) => r matches Ok(e) ==> e.kind is While,
            Some(TokenView::Plain(Token::For)) => r matches Ok(e) ==> e.kind is For,
            Some(TokenView::Plain(Token::LeftParen)) => r matches Ok(e) ==> e.kind is Group,
            Some(TokenView::Plain(Token::LeftBrace)) => r matches Ok(e) ==> e.kind is Block,
            Some(TokenView::Plain(Token::SemiColon)) => r matches Ok(e) && e.kind is Empty,
            Some(v) => r matches Err(e) && e.kind matches ParseErrorKind::Unexpected(t) && t@ == v,
            None => r matches Err(e) && e.kind matches ParseErrorKind::UnexpectedEos(m) && m@ == "primary expression"@,
        },
        r matches Ok(e) ==> expr_wf(e),
        r matches Ok(e) ==> binds_at_least(e, 8),
        r matches Ok(e) ==> spells_expr(e, *old(c), *final(c)),
        r matches Ok(e) ==> !(e.kind is Unary) && !(e.kind is Binary) && !open_right(e),
        prim_end(old(c).tokens(), old(c).pos()) is Some && !(tok_is_call(old(c).tokens(), old(c).pos())) ==> (r matches Ok(e) && final(c).pos() == prim_end(old(c).tokens(), old(c).pos())->0
            && (range_bound(e) <==> bound_prim(old(c).tokens(), old(c).pos()))),
    decreases old(c).remaining(), 14nat,
{
    match c.peek() {
        Some(Token::Number(_)) => parse_number_literal(c),
        Some(Token::String(_)) => parse_string_literal(c),
        Some(Token::True) | Some(Token::False) => parse_bool_literal(c),
        Some(Token::Identifier(_)) => parse_var_expr(c),
        Some(Token::If) => parse_if_expr(c),
        Some(Token::While) => parse_while_expr(c),
        Some(Token::For) => parse_for_expr(c),
        Some(Token::LeftParen) => parse_group_expr(c),
        Some(Token::LeftBrace) => parse_block_expr(c),
        Some(Token::SemiColon) => Ok(ast::Expr { kind: ast::ExprKind::Empty() }),
        Some(t) => Err(ParseError::new(ParseErrorKind::Unexpected(t))),
        None => Err(ParseError::new(ParseErrorKind::UnexpectedEos("primary expression".to_owned()))),
    }
}

/// An expression, then `-> sink;` (a connection), `= value;` (an assignment),
/// or `;`, which may be left out before a closing `}` (a block's value).
fn parse_expr_stmt(c: &mut TokenCursor) -> (r: ParseResult<ast::Stmt>)
    requires
        old(c).wf(),
    ensures
        advanced(*old(c), *final(c)),
        r is Ok ==> old(c).pos() < final(c).pos(),
        r matches Ok(s) ==> (s.kind is Expr || s.kind is Connect || s.kind is Assignment),
        r matches Ok(s) ==> stmt_wf(s),
        r matches Ok(s) ==> (s.kind is Expr ==> final(c).tokens()[final(c).pos() - 1]@ == TokenView::Plain(
            Token::SemiColon,
        ) || final(c).ahead(0) == Some(TokenView::Plain(Token::RightBrace))),
        r matches Ok(s) ==> spells_stmt(s, *old(c), *final(c)),
        expr_stmt_end(old(c).tokens(), old(c).pos()) is Some ==> (r is Ok && final(c).pos() == expr_stmt_end(old(c).tokens(), old(c).pos())->0),
        flat(old(c).tokens(), old(c).pos()) && flat_end(old(c).tokens(), old(c).pos()) == old(c).tokens().len() ==> (r matches Err(e) && e.kind matches ParseErrorKind::UnexpectedEos(
            m,
        ) && m@ == "expression statement"@),
    decreases old(c).remaining(), 28nat,
{
    let expr = parse_expr(c)?;
    match c.peek() {
        Some(Token::Arrow) => parse_connect_stmt(expr, c),
        Some(Token::Is) => parse_assignment_stmt(expr, c),
        None => Err(ParseError::new(ParseErrorKind::UnexpectedEos("expression statement".to_owned()))),
        _ => {
            if c.advance_if(Token::SemiColon) || matches!(c.peek(), Some(Token::RightBrace)) {
                Ok(ast::Stmt { kind: ast::StmtKind::Expr(Ptr::new(expr)) })
            } else {
                Err(ParseError::new(ParseErrorKind::Expected(Token::SemiColon)))
            }
        },
    }
}

/// `if cond { .. }`, then `else` and a block or another `if`, if present.
fn parse_if_expr(c: &mut TokenCursor) -> (r: ParseResult<ast::Expr>)
    requires
        old(c).wf(),
    ensures
        advanced(*old(c), *final(c)),
        r is Ok ==> old(c).pos() < final(c).pos(),
        r matches Ok(e) ==> e.kind is If,
        r matches Ok(e) ==> expr_wf(e),
        r matches Ok(e) ==> spells_expr(e, *old(c), *final(c)),
        if_end(old(c).tokens(), old(c).pos()) is Some ==> (r is Ok && final(c).pos() == if_end(old(c).tokens(), old(c).pos())->0),
    decreases old(c).remaining(), 13nat,
{
    c.consume(Token::If)?;
    let expr = parse_expr(c)?;
    let body_then = parse_block_expr(c)?;
    let body_else = if c.advance_if(Token::Else) {
        if matches!(c.peek(), Some(Token::If)) {
            Some(parse_if_expr(c)?)
        } else {
            Some(parse_block_expr(c)?)
        }
    } else {
        None
    };
    Ok(ast::Expr { kind: ast::ExprKind::If(Ptr::new(ast::If { expr, body_then, body_else })) })
}

/// `while cond { .. }`.
fn parse_while_expr(c: &mut TokenCursor) -> (r: ParseResult<ast::Expr>)
    requires
        old(c).wf(),
    ensures
        advanced(*old(c), *final(c)),
        r is Ok ==> old(c).pos() < final(c).pos(),
        r matches Ok(e) ==> e.kind is While,
        r matches Ok(e) ==> expr_wf(e),
        r matches Ok(e) ==> spells_expr(e, *old(c), *final(c)),
        old(c).pos() < old(c).tokens().len() && old(c).tokens()[old(c).pos()]@ == TokenView::Plain(Token::While) && prim_end(old(c).tokens(), old(c).pos()) is Some ==> (r is Ok
            && final(c).pos() == prim_end(old(c).tokens(), old(c).pos())->0),
    decreases old(c).remaining(), 13nat,
{
    c.consume(Token::While)?;
    let expr = parse_expr(c)?;
    let body = parse_block_expr(c)?;
    Ok(ast::Expr { kind: ast::ExprKind::While(Ptr::new(ast::While { expr, body })) })
}

/// `for name in expr { .. }`.
fn parse_for_expr(c: &mut TokenCursor) -> (r: ParseResult<ast::Expr>)
    requires
        old(c).wf(),
    ensures
        advanced(*old(c), *final(c)),
        r is Ok ==> old(c).pos() < final(c).pos(),
        r matches Ok(e) ==> e.kind is For,
        r matches Ok(e) ==> expr_wf(e),
        r matches Ok(e) ==> spells_expr(e, *old(c), *final(c)),
        old(c).pos() < old(c).tokens().len() && old(c).tokens()[old(c).pos()]@ == TokenView::Plain(Token::For) && prim_end(old(c).tokens(), old(c).pos()) is Some ==> (r is Ok
            && final(c).pos() == prim_end(old(c).tokens(), old(c).pos())->0),
    decreases old(c).remaining(), 13nat,
{
    c.consume(Token::For)?;
    let id = parse_identifier(c)?;
    c.consume(Token::In)?;
    let expr = parse_expr(c)?;
    let body = parse_block_expr(c)?;
    Ok(ast::Expr { kind: ast::ExprKind::For(Ptr::new(ast::For { id, expr, body })) })
}

/// A variable.
fn parse_var_expr(c: &mut TokenCursor) -> (r: ParseResult<ast::Expr>)
    requires
        old(c).wf(),
    ensures
        advanced(*old(c), *final(c)),
        r is Ok ==> old(c).pos() < final(c).pos(),
        old(c).ahead(0) matches Some(TokenView::Ident(s)) ==> (r matches Ok(e) && e.kind matches ast::ExprKind::Var(v)
            && v.inner().id@ == s),
        r matches Ok(e) ==> e.kind is Var,
        r matches Ok(e) ==> expr_wf(e),
        r matches Ok(e) ==> spells_expr(e, *old(c), *final(c)),
{
    let id = parse_identifier(c)?;
    Ok(ast::Expr { kind: ast::ExprKind::Var(Ptr::new(ast::Var { id })) })
}

/// `true` or `false`.
fn parse_bool_literal(c: &mut TokenCursor) -> (r: ParseResult<ast::Expr>)
    requires
        old(c).wf(),
    ensures
        advanced(*old(c), *final(c)),
        took_one(*old(c), *final(c)),
        match old(c).ahead(0) {
            Some(TokenView::Plain(Token::True)) => r matches Ok(e) && e.kind matches ast::ExprKind::Literal(l)
                && l.inner().kind == ast::LiteralKind::Bool(true),
            Some(TokenView::Plain(Token::False)) => r matches Ok(e) && e.kind matches ast::ExprKind::Literal(l)
                && l.inner().kind == ast::LiteralKind::Bool(false),
            Some(_) => r matches Err(e) && e.kind is Custom,
            None => r matches Err(e) && e.kind matches ParseErrorKind::UnexpectedEos(m) && m@ == "boolean literal"@,
        },
        r matches Ok(e) ==> e.kind is Literal,
        r matches Ok(e) ==> expr_wf(e),
        r matches Ok(e) ==> (e.kind matches ast::ExprKind::Literal(l) && l.inner().kind is Bool),
        r matches Ok(e) ==> spells_expr(e, *old(c), *final(c)),
{
    let b = match c.value() {
        Some(Token::True) => true,
        Some(Token::False) => false,
        Some(t) => {
            return Err(ParseError::new(ParseErrorKind::Custom(describe("not a boolean literal: ", &t))));
        },
        None => {
            return Err(ParseError::new(ParseErrorKind::UnexpectedEos("boolean literal".to_owned())));
        },
    };
    Ok(ast::Expr { kind: ast::ExprKind::Literal(Ptr::new(ast::Literal { kind: ast::LiteralKind::Bool(b) })) })
}

/// A number literal.
fn parse_number_literal(c: &mut TokenCursor) -> (r: ParseResult<ast::Expr>)
    requires
        old(c).wf(),
    ensures
        advanced(*old(c), *final(c)),
        took_one(*old(c), *final(c)),
        match old(c).ahead(0) {
            Some(TokenView::Plain(Token::Number(d))) => r matches Ok(e) && e.kind matches ast::ExprKind::Literal(l)
                && l.inner().kind == ast::LiteralKind::Number(d),
            Some(_) => r matches Err(e) && e.kind is Custom,
            None => r matches Err(e) && e.kind matches ParseErrorKind::UnexpectedEos(m) && m@ == "number literal"@,
        },
        r matches Ok(e) ==> e.kind is Literal,
        r matches Ok(e) ==> expr_wf(e),
        r matches Ok(e) ==> (e.kind matches ast::ExprKind::Literal(l) && l.inner().kind is Number),
        r matches Ok(e) ==> spells_expr(e, *old(c), *final(c)),
{
    let v = match c.value() {
        Some(Token::Number(v)) => v,
        Some(t) => {
            return Err(ParseError::new(ParseErrorKind::Custom(describe("not a number literal: ", &t))));
        },
        None => {
            return Err(ParseError::new(ParseErrorKind::UnexpectedEos("number literal".to_owned())));
        },
    };
    Ok(ast::Expr { kind: ast::ExprKind::Literal(Ptr::new(ast::Literal { kind: ast::LiteralKind::Number(v) })) })
}

/// A string literal.
fn parse_string_literal(c: &mut TokenCursor) -> (r: ParseResult<ast::Expr>)
    requires
        old(c).wf(),
    ensures
        advanced(*old(c), *final(c)),
        took_one(*old(c), *final(c)),
        match old(c).ahead(0) {
            Some(TokenView::Str(s)) => r matches Ok(e) && e.kind matches ast::ExprKind::Literal(l)
                && l.inner().kind matches ast::LiteralKind::String(t) && t@ == s,
            Some(_) => r matches Err(e) && e.kind is Custom,
            None => r matches Err(e) && e.kind matches ParseErrorKind::UnexpectedEos(m) && m@ == "string literal"@,
        },
        r matches Ok(e) ==> e.kind is Literal,
        r matches Ok(e) ==> expr_wf(e),
        r matches Ok(e) ==> (e.kind matches ast::ExprKind::Literal(l) && l.inner().kind is String),
        r matches Ok(e) ==> spells_expr(e, *old(c), *final(c)),
{
    let v = match c.value() {
        Some(Token::String(v)) => v,
        Some(t) => {
            return Err(ParseError::new(ParseErrorKind::Custom(describe("not a string literal: ", &t))));
        },
        None => {
            return Err(ParseError::new(ParseErrorKind::UnexpectedEos("string literal".to_owned())));
        },
    };
    Ok(ast::Expr { kind: ast::ExprKind::Literal(Ptr::new(ast::Literal { kind: ast::LiteralKind::String(v) })) })
}

/// `( expr )`.
fn parse_group_expr(c: &mut TokenCursor) -> (r: ParseResult<ast::Expr>)
    requires
        old(c).wf(),
    ensures
        advanced(*old(c), *final(c)),
        r is Ok ==> old(c).pos() < final(c).pos(),
        r matches Ok(e) ==> e.kind is Group,
        r matches Ok(e) ==> expr_wf(e),
        r matches Ok(e) ==> spells_expr(e, *old(c), *final(c)),
        old(c).pos() < old(c).tokens().len() && old(c).tokens()[old(c).pos()]@ == TokenView::Plain(Token::LeftParen) && prim_end(old(c).tokens(), old(c).pos()) is Some ==> (r is Ok
            && final(c).pos() == prim_end(old(c).tokens(), old(c).pos())->0),
    decreases old(c).remaining(), 13nat,
{
    c.consume(Token::LeftParen)?;
    let expr = parse_expr(c)?;
    c.consume(Token::RightParen)?;
    Ok(ast::Expr { kind: ast::ExprKind::Group(Ptr::new(expr)) })
}

/// A block used as an expression.
fn parse_block_expr(c: &mut TokenCursor) -> (r: ParseResult<ast::Expr>)
    requires
        old(c).wf(),
    ensures
        advanced(*old(c), *final(c)),
        r is Ok ==> old(c).pos() < final(c).pos(),
        r matches Ok(e) ==> e.kind is Block,
        r matches Ok(e) ==> expr_wf(e),
        r matches Ok(e) ==> spells_expr(e, *old(c), *final(c)),
        block_end(old(c).tokens(), old(c).pos()) is Some ==> (r is Ok && final(c).pos() == block_end(old(c).tokens(), old(c).pos())->0),
    decreases old(c).remaining(), 13nat,
{
    let body = parse_block_stmt(c)?;
    Ok(ast::Expr { kind: ast::ExprKind::Block(Ptr::new(ast::BlockExpr { body })) })
}

/// The prefix operator for a token.
fn parse_unary_op(t: Option<Token>) -> (r: ParseResult<ast::UnaryOp>)
    ensures
        match t {
            Some(tok) => match unary_op_of(tok@) {
                Some(op) => r == Ok::<ast::UnaryOp, ParseError>(op),
                None => r matches Err(e) && e.kind matches ParseErrorKind::Custom(m) && m@ == "not a unary expression token"@,
            },
            None => r matches Err(e) && e.kind matches ParseErrorKind::UnexpectedEos(m) && m@ == "unary expression"@,
        },
{
    match t {
        Some(Token::Bang) => Ok(ast::UnaryOp::Bang),
        Some(Token::Minus) => Ok(ast::UnaryOp::Minus),
        Some(Token::Group) => Ok(ast::UnaryOp::Group),
        Some(Token::Node) => Ok(ast::UnaryOp::Node),
        Some(Token::Plus) => Ok(ast::UnaryOp::Plus),
        Some(_) => Err(ParseError::new(ParseErrorKind::Custom("not a unary expression token".to_owned()))),
        None => Err(ParseError::new(ParseErrorKind::UnexpectedEos("unary expression".to_owned()))),
    }
}

/// The binary operator for a token.
fn parse_binary_op(t: Option<Token>) -> (r: ParseResult<ast::BinaryOp>)
    ensures
        match t {
            Some(tok) => match binary_op_of(tok@) {
                Some(op) => r == Ok::<ast::BinaryOp, ParseError>(op),
                None => r matches Err(e) && e.kind matches ParseErrorKind::Custom(m) && m@ == "not a binary expression token"@,
            },
            None => r matches Err(e) && e.kind matches ParseErrorKind::UnexpectedEos(m) && m@ == "binary expression"@,
        },
{
    match t {
        Some(Token::And) => Ok(ast::BinaryOp::And),
        Some(Token::Dot) => Ok(ast::BinaryOp::Dot),
        Some(Token::Eq) => Ok(ast::BinaryOp::Eq),
        Some(Token::Gt) => Ok(ast::BinaryOp::Gt),
        Some(Token::GtEq) => Ok(ast::BinaryOp::GtEq),
        Some(Token::Lt) => Ok(ast::BinaryOp::Lt),
        Some(Token::LtEq) => Ok(ast::BinaryOp::LtEq),
        Some(Token::Minus) => Ok(ast::BinaryOp::Subtract),
        Some(Token::NotEq) => Ok(ast::BinaryOp::NotEq),
        Some(Token::Or) => Ok(ast::BinaryOp::Or),
        Some(Token::Percent) => Ok(ast::BinaryOp::Remainder),
        Some(Token::Plus) => Ok(ast::BinaryOp::Plus),
        Some(Token::Slash) => Ok(ast::BinaryOp::Divide),
        Some(Token::Star) => Ok(ast::BinaryOp::Multiply),
        Some(_) => Err(ParseError::new(ParseErrorKind::Custom("not a binary expression token".to_owned()))),
        None => Err(ParseError::new(ParseErrorKind::UnexpectedEos("binary expression".to_owned()))),
    }
}

/// Whether a token is a keyword.
fn is_keyword_token(t: &Token) -> (r: bool)
    ensures
        r == is_keyword(*t),
{
    matches!(t, Token::BoolId | Token::NodeId | Token::NumberId | Token::StringId | Token::GroupId
        | Token::Const | Token::Else | Token::False | Token::For | Token::Function | Token::Group
        | Token::If | Token::In | Token::Let | Token::Mut | Token::Node | Token::Print
        | Token::Return | Token::True | Token::Use | Token::While)
}


fn is_range_bound(e: &ast::Expr) -> (r: bool)
    ensures
        r == range_bound(*e),
{
    matches!(e.kind, ast::ExprKind::Literal(_) | ast::ExprKind::Var(_) | ast::ExprKind::Group(_))
}

/// `print expr;`.
fn parse_print_stmt(c: &mut TokenCursor) -> (r: ParseResult<ast::Stmt>)
    requires
        old(c).wf(),
    ensures
        advanced(*old(c), *final(c)),
        r is Ok ==> old(c).pos() < final(c).pos(),
        r matches Ok(s) ==> s.kind is Print,
        r matches Ok(s) ==> stmt_wf(s),
        r matches Ok(s) ==> spells_stmt(s, *old(c), *final(c)),
        old(c).tokens()[old(c).pos()]@ == TokenView::Plain(Token::Print) && flat_then_semi(old(c).tokens(), old(c).pos() + 1) is Some ==> (r is Ok
            && final(c).pos() == flat_then_semi(old(c).tokens(), old(c).pos() + 1)->0),
    decreases old(c).remaining(), 27nat,
{
    let ghost ts = c.tokens();
    let ghost p0 = c.pos();
    c.consume(Token::Print)?;
    let expr = parse_expr(c)?;
    c.consume_msg(Token::SemiColon, "after statement")?;
    assert(crate::spelling::spell_then_semicolon(expr, ts, p0 + 1) == Some(c.pos()));
    Ok(ast::Stmt { kind: ast::StmtKind::Print(Ptr::new(ast::Print { expr })) })
}

/// `return expr;`.
fn parse_return_stmt(c: &mut TokenCursor) -> (r: ParseResult<ast::Stmt>)
    requires
        old(c).wf(),
    ensures
        advanced(*old(c), *final(c)),
        r is Ok ==> old(c).pos() < final(c).pos(),
        r matches Ok(s) ==> s.kind is Return,
        r matches Ok(s) ==> stmt_wf(s),
        r matches Ok(s) ==> spells_stmt(s, *old(c), *final(c)),
        old(c).tokens()[old(c).pos()]@ == TokenView::Plain(Token::Return) && flat_then_semi(old(c).tokens(), old(c).pos() + 1) is Some ==> (r is Ok
            && final(c).pos() == flat_then_semi(old(c).tokens(), old(c).pos() + 1)->0),
    decreases old(c).remaining(), 27nat,
{
    let ghost ts = c.tokens();
    let ghost p0 = c.pos();
    c.consume(Token::Return)?;
    let expr = parse_expr(c)?;
    c.consume_msg(Token::SemiColon, "after statement")?;
    assert(crate::spelling::spell_then_semicolon(expr, ts, p0 + 1) == Some(c.pos()));
    Ok(ast::Stmt { kind: ast::StmtKind::Return(Ptr::new(ast::Return { expr })) })
}

/// `= value;` after the target `lhs`.
fn parse_assignment_stmt(lhs: ast::Expr, c: &mut TokenCursor) -> (r: ParseResult<ast::Stmt>)
    requires
        old(c).wf(),
        expr_wf(lhs),
    ensures
        advanced(*old(c), *final(c)),
        r is Ok ==> old(c).pos() < final(c).pos(),
        r matches Ok(s) ==> s.kind is Assignment,
        r matches Ok(s) ==> stmt_wf(s),
        r matches Ok(s) ==> forall|q: int| spell_expr(lhs, old(c).tokens(), q) == Some(old(c).pos()) ==> #[trigger] spell_stmt(s, old(c).tokens(), q) == Some(final(c).pos()),
        old(c).pos() < old(c).tokens().len() && old(c).tokens()[old(c).pos()]@ == TokenView::Plain(Token::Is) && flat_then_semi(old(c).tokens(), old(c).pos() + 1) is Some ==> (r is Ok
            && final(c).pos() == flat_then_semi(old(c).tokens(), old(c).pos() + 1)->0),
    decreases old(c).remaining(), 27nat,
{
    c.consume(Token::Is)?;
    let rhs = parse_expr(c)?;
    c.consume_msg(Token::SemiColon, "expected semicolon after statement")?;
    Ok(ast::Stmt { kind: ast::StmtKind::Assignment(Ptr::new(ast::Assignment { lhs, rhs })) })
}

/// `-> sink;` after the source.
fn parse_connect_stmt(source: ast::Expr, c: &mut TokenCursor) -> (r: ParseResult<ast::Stmt>)
    requires
        old(c).wf(),
        expr_wf(source),
    ensures
        advanced(*old(c), *final(c)),
        r is Ok ==> old(c).pos() < final(c).pos(),
        r matches Ok(s) ==> s.kind is Connect,
        r matches Ok(s) ==> stmt_wf(s),
        r matches Ok(s) ==> forall|q: int| spell_expr(source, old(c).tokens(), q) == Some(old(c).pos()) ==> #[trigger] spell_stmt(s, old(c).tokens(), q) == Some(final(c).pos()),
        old(c).pos() < old(c).tokens().len() && old(c).tokens()[old(c).pos()]@ == TokenView::Plain(Token::Arrow) && flat_then_semi(old(c).tokens(), old(c).pos() + 1) is Some ==> (r is Ok
            && final(c).pos() == flat_then_semi(old(c).tokens(), old(c).pos() + 1)->0),
    decreases old(c).remaining(), 27nat,
{
    c.consume(Token::Arrow)?;
    let sink = parse_expr(c)?;
    c.consume_msg(Token::SemiColon, "after statement")?;
    Ok(ast::Stmt { kind: ast::StmtKind::Connect(Ptr::new(ast::Connect { source, sink })) })
}

/// The tokens with each `|` immediately followed by another `|` folded, the
/// pair, into one `||` (`Or`); the scanner reads `||` as two pipes.
pub open spec fn fold_pipes(ts: Seq<Token>) -> Seq<Token>
    decreases ts.len(),
{
    if ts.len() >= 2 && ts[0] is Pipe && ts[1] is Pipe {
        seq![Token::Or] + fold_pipes(ts.subrange(2, ts.len() as int))
    } else if ts.len() >= 1 {
        seq![ts[0]] + fold_pipes(ts.subrange(1, ts.len() as int))
    } else {
        seq![]
    }
}

proof fn lemma_stmts_prefix(a: ast::Stmts, b: ast::Stmts, n: int, ts: Seq<Token>, p: int)
    requires
        0 <= n <= a.0@.len(),
        n <= b.0@.len(),
        forall|i: int| 0 <= i < n ==> a.0@[i] == b.0@[i],
    ensures
        spell_stmts(a, n, ts, p) == spell_stmts(b, n, ts, p),
    decreases n,
{
    if n > 0 {
        lemma_stmts_prefix(a, b, n - 1, ts, p);
    }
}

proof fn lemma_args_prefix(a: ast::FuncCall, b: ast::FuncCall, n: int, ts: Seq<Token>, p: int)
    requires
        0 <= n <= a.args@.len(),
        n <= b.args@.len(),
        forall|i: int| 0 <= i < n ==> a.args@[i] == b.args@[i],
    ensures
        spell_args_with_commas(a, n, ts, p) == spell_args_with_commas(b, n, ts, p),
    decreases n,
{
    if n > 0 {
        lemma_args_prefix(a, b, n - 1, ts, p);
    }
}

proof fn lemma_params_prefix(a: ast::FunctionArgs, b: ast::FunctionArgs, n: int, ts: Seq<Token>, p: int)
    requires
        0 <= n <= a.0@.len(),
        n <= b.0@.len(),
        forall|i: int| 0 <= i < n ==> a.0@[i] == b.0@[i],
    ensures
        spell_params(a, n, ts, p) == spell_params(b, n, ts, p),
    decreases n,
{
    if n > 1 {
        lemma_params_prefix(a, b, n - 1, ts, p);
    }
}

/// `||` scans to two pipes, and those reach the parser as one `Or`.
pub proof fn lemma_double_pipe_is_or()
    ensures
        lex(seq!['|', '|'], 0, false) == Lexed::Done(
            seq![TokenView::Plain(Token::Pipe), TokenView::Plain(Token::Pipe)],
            false,
        ),
        fold_pipes(seq![Token::Pipe, Token::Pipe]) == seq![Token::Or],
{
    let s = seq!['|', '|'];
    assert(step(s, 0) == Step::Emit(TokenView::Plain(Token::Pipe), 1));
    assert(step(s, 1) == Step::Emit(TokenView::Plain(Token::Pipe), 2));
    assert(lex(s, 2, false) == Lexed::Done(seq![], false));
    assert(seq![TokenView::Plain(Token::Pipe)] + seq![] =~= seq![TokenView::Plain(Token::Pipe)]);
    assert(lex(s, 1, false) == Lexed::Done(seq![TokenView::Plain(Token::Pipe)], false));
    assert(seq![TokenView::Plain(Token::Pipe)] + seq![TokenView::Plain(Token::Pipe)] =~= seq![
        TokenView::Plain(Token::Pipe),
        TokenView::Plain(Token::Pipe),
    ]);
    let ts = seq![Token::Pipe, Token::Pipe];
    assert(ts.subrange(2, 2) =~= seq![]);
    assert(fold_pipes(ts.subrange(2, 2)) == Seq::<Token>::empty());
    assert(seq![Token::Or] + Seq::<Token>::empty() =~= seq![Token::Or]);
}

/// Prepares scanned tokens for parsing: folds each pair of pipes into `Or`.
pub fn preprocess(tokens: Tokens) -> (r: Tokens)
    ensures
        r@ == fold_pipes(tokens@),
{
    let ghost orig = tokens@;
    let ghost n = orig.len() as int;
    let mut tokens = tokens;
    let mut stack: Vec<Token> = Vec::new();
    while tokens.len() > 0
        invariant
            n == orig.len(),
            stack@.len() + tokens@.len() == n,
            tokens@ == orig.subrange(0, tokens@.len() as int),
            forall|k: int| 0 <= k < stack@.len() ==> #[trigger] stack@[k] == orig[n - 1 - k],
        decreases tokens@.len(),
    {
        let t = tokens.pop().unwrap();
        stack.push(t);
        assert(tokens@ =~= orig.subrange(0, tokens@.len() as int));
    }
    let mut result: Vec<Token> = Vec::new();
    assert(orig.subrange(0, n) =~= orig);
    assert(result@ + fold_pipes(orig) =~= fold_pipes(orig));
    while stack.len() > 0
        invariant
            n == orig.len(),
            stack@.len() <= n,
            forall|k: int| 0 <= k < stack@.len() ==> #[trigger] stack@[k] == orig[n - 1 - k],
            fold_pipes(orig) == result@ + fold_pipes(orig.subrange(n - stack@.len(), n)),
        decreases stack@.len(),
    {
        let ghost i = n - stack@.len();
        let ghost rest = orig.subrange(i, n);
        let t = stack.pop().unwrap();
        assert(t == orig[i]);
        if matches!(t, Token::Pipe) && stack.len() > 0 && matches!(stack[stack.len() - 1], Token::Pipe) {
            assert(stack@[stack@.len() - 1] == orig[i + 1]);
            stack.pop();
            assert(rest.subrange(2, rest.len() as int) =~= orig.subrange(i + 2, n));
            assert(result@.push(Token::Or) + fold_pipes(orig.subrange(i + 2, n)) =~= result@ + (seq![Token::Or]
                + fold_pipes(orig.subrange(i + 2, n))));
            result.push(Token::Or);
        } else {
            assert(rest.subrange(1, rest.len() as int) =~= orig.subrange(i + 1, n));
            assert(result@.push(t) + fold_pipes(orig.subrange(i + 1, n)) =~= result@ + (seq![t] + fold_pipes(
                orig.subrange(i + 1, n),
            )));
            result.push(t);
        }
    }
    assert(orig.subrange(n, n) =~= seq![]);
    assert(result@ + seq![] =~= result@);
    result
}

/// The parser: it takes the tokens of a whole source and builds its program,
/// the sequence of its top-level statements.
#[derive(Debug)]
pub struct Parser {
    cursor: TokenCursor,
}

impl Parser {
    /// The cursor over the prepared tokens.
    pub closed spec fn cursor(&self) -> TokenCursor {
        self.cursor
    }

    /// A parser of `tokens`.
    pub fn new(tokens: Tokens) -> (r: Parser)
        ensures
            r.cursor().wf(),
            r.cursor().tokens() == fold_pipes(tokens@),
            r.cursor().pos() == 0,
    {
        Parser { cursor: TokenCursor::new(preprocess(tokens)) }
    }

    /// Parses declarations and statements until the tokens end; the first
    /// error ends the parse. A program holds one statement for each top-level
    /// declaration. It spells exactly the tokens, all of them, and each of its
    /// statements is one the grammar builds: operators nest by precedence and
    /// group to the left, range bounds are literals, variables or groups, and
    /// bodies are blocks.
    pub fn parse(&mut self) -> (r: Result<ast::Stmts, ParseError>)
        requires
            old(self).cursor().wf(),
        ensures
            advanced(old(self).cursor(), final(self).cursor()),
            old(self).cursor().ahead(0) is None ==> (r matches Ok(p) && p.0@.len() == 0),
            program_ok(old(self).cursor().tokens(), old(self).cursor().pos()) ==> r is Ok,
            let_keyword(old(self).cursor().tokens(), old(self).cursor().pos()) is Some ==> (r matches Err(e) && e.kind == ParseErrorKind::KeywordAsIdentifier(
                let_keyword(old(self).cursor().tokens(), old(self).cursor().pos())->0,
            )),
            r matches Ok(p) ==> {
                &&& final(self).cursor().ahead(0) is None
                &&& (p.0@.len() == 0 <==> old(self).cursor().ahead(0) is None)
                &&& p.0@.len() <= old(self).cursor().remaining()
                &&& forall|i: int| 0 <= i < p.0@.len() ==> stmt_wf(#[trigger] p.0@[i])
                &&& spell_stmts(p, p.0@.len() as int, old(self).cursor().tokens(), old(self).cursor().pos())
                    == Some(final(self).cursor().pos())
            },
    {
        let mut program = ast::Stmts::new();
        while !self.cursor.eos()
            invariant
                advanced(old(self).cursor(), self.cursor()),
                program.0@.len() <= self.cursor().pos() - old(self).cursor().pos(),
                program.0@.len() == 0 ==> self.cursor().pos() == old(self).cursor().pos(),
                let_keyword(old(self).cursor().tokens(), old(self).cursor().pos()) is Some ==> self.cursor().pos() == old(self).cursor().pos(),
                program_ok(old(self).cursor().tokens(), old(self).cursor().pos()) ==> program_ok(
                    self.cursor().tokens(),
                    self.cursor().pos(),
                ),
                forall|i: int| 0 <= i < program.0@.len() ==> stmt_wf(#[trigger] program.0@[i]),
                spell_stmts(program, program.0@.len() as int, old(self).cursor().tokens(), old(self).cursor().pos())
                    == Some(self.cursor().pos()),
            decreases self.cursor().remaining(),
        {
            let ghost before = program;
            let s = parse_decl(&mut self.cursor)?;
            program.0.push(s);
            proof {
                lemma_stmts_prefix(
                    before,
                    program,
                    before.0@.len() as int,
                    old(self).cursor().tokens(),
                    old(self).cursor().pos(),
                );
            }
        }
        Ok(program)
    }
}

} // verus!
