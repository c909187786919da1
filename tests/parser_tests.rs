use nexus_rs::ast::{
    BinaryExpr, BinaryOp, Expr, ExprKind, Literal, LiteralKind, Stmt, StmtKind, Stmts, TypeKind, Var,
    VarDecl,
};
use nexus_rs::parse_error::{ParseError, ParseErrorKind};
use nexus_rs::parser::{preprocess, Parser};
use nexus_rs::ptr::Ptr;
use nexus_rs::scanner::Scanner;
use nexus_rs::source_line::SourceLine;
use nexus_rs::token::{Decimal, Token};

fn parse(text: &str) -> Result<Stmts, ParseError> {
    let mut scanner = Scanner::new();
    let tokens = scanner
        .scan(SourceLine { line: text.to_string(), number: None })
        .unwrap();
    Parser::new(tokens).parse()
}

fn number(m: u64) -> Expr {
    Expr {
        kind: ExprKind::Literal(Ptr::new(Literal {
            kind: LiteralKind::Number(Decimal { mantissa: m, scale: 0 }),
        })),
    }
}

fn binary(op: BinaryOp, lhs: Expr, rhs: Expr) -> Expr {
    Expr { kind: ExprKind::Binary(Ptr::new(BinaryExpr { op, lhs, rhs })) }
}

fn var(id: &str) -> Expr {
    Expr { kind: ExprKind::Var(Ptr::new(Var { id: id.to_string() })) }
}

fn only_expr(program: Stmts) -> Expr {
    assert_eq!(program.0.len(), 1);
    match program.0.into_iter().next().unwrap().kind {
        StmtKind::Expr(e) => e.into_inner(),
        other => panic!("not an expression statement: {other:?}"),
    }
}

#[test]
fn multiplication_binds_tighter_than_addition() {
    let e = only_expr(parse("1 + 2 * 3;").unwrap());
    assert_eq!(
        e,
        binary(BinaryOp::Plus, number(1), binary(BinaryOp::Multiply, number(2), number(3)))
    );
}

#[test]
fn binary_levels_associate_left() {
    let e = only_expr(parse("1 - 2 - 3;").unwrap());
    assert_eq!(
        e,
        binary(BinaryOp::Subtract, binary(BinaryOp::Subtract, number(1), number(2)), number(3))
    );
}

#[test]
fn or_binds_loosest_of_the_operators() {
    let e = only_expr(parse("a || b && c == d;").unwrap());
    assert_eq!(
        e,
        binary(
            BinaryOp::Or,
            var("a"),
            binary(BinaryOp::And, var("b"), binary(BinaryOp::Eq, var("c"), var("d")))
        )
    );
}

#[test]
fn pipes_fold_into_or() {
    assert_eq!(preprocess(vec![Token::Pipe, Token::Pipe]), vec![Token::Or]);
    assert_eq!(
        preprocess(vec![Token::Pipe, Token::Pipe, Token::Pipe]),
        vec![Token::Or, Token::Pipe]
    );
    assert_eq!(
        preprocess(vec![Token::Pipe, Token::Let, Token::Pipe]),
        vec![Token::Pipe, Token::Let, Token::Pipe]
    );
}

#[test]
fn keyword_as_identifier_fails() {
    let e = parse("let if = 3;").unwrap_err();
    assert_eq!(e.kind, ParseErrorKind::KeywordAsIdentifier(Token::If));
    let e = parse("let in = 3;").unwrap_err();
    assert_eq!(e.kind, ParseErrorKind::KeywordAsIdentifier(Token::In));
    let e = parse("fn while() {}").unwrap_err();
    assert_eq!(e.kind, ParseErrorKind::KeywordAsIdentifier(Token::While));
}

#[test]
fn mutable_variable_declaration() {
    let program = parse("let mut x: Number = 2 + 3;").unwrap();
    assert_eq!(
        program,
        Stmts(vec![Stmt {
            kind: StmtKind::VarDecl(Ptr::new(VarDecl {
                id: var("x"),
                mutable: true,
                typeid: Some(TypeKind::Number),
                value: Some(binary(BinaryOp::Plus, number(2), number(3))),
            })),
        }])
    );
}

#[test]
fn empty_program() {
    assert_eq!(parse("").unwrap(), Stmts(vec![]));
    assert_eq!(parse("// nothing").unwrap(), Stmts(vec![]));
}

#[test]
fn empty_statement() {
    let e = only_expr(parse(";").unwrap());
    assert_eq!(e, Expr { kind: ExprKind::Empty() });
}

#[test]
fn range_bounds() {
    let program = parse("for i in 0..=n { print i; };").unwrap();
    assert_eq!(program.0.len(), 1);
    let e = parse("x = 1 + 2 .. 5;").unwrap_err();
    assert_eq!(e.kind, ParseErrorKind::RangeDelimiter);
    let e = parse("x = 0 .. f(3);").unwrap_err();
    assert_eq!(e.kind, ParseErrorKind::RangeDelimiter);
    assert!(parse("x = (1 + 2) .. 5;").is_ok());
}

#[test]
fn statements_of_every_kind() {
    let text = "use \"lib.nxs\"; const PI: Number = 3.14; \
                fn add(a: Number, b: Number) -> Number { return a + b; } \
                let g = group n; a -> b; x = y; let r = &y; print add(1, 2); \
                if x { 1 } else if y { 2 } else { 3 }; while x > 0 { x = x - 1; }; { a.b.c; }";
    let program = parse(text).unwrap();
    let kinds: Vec<&str> = program
        .0
        .iter()
        .map(|s| match &s.kind {
            StmtKind::Assignment(_) => "assignment",
            StmtKind::Block(_) => "block",
            StmtKind::Connect(_) => "connect",
            StmtKind::ConstDecl(_) => "const",
            StmtKind::Expr(_) => "expr",
            StmtKind::FunctionDecl(_) => "fn",
            StmtKind::Print(_) => "print",
            StmtKind::Return(_) => "return",
            StmtKind::UseDecl(_) => "use",
            StmtKind::VarDecl(_) => "let",
        })
        .collect();
    assert_eq!(
        kinds,
        vec!["use", "const", "fn", "let", "connect", "assignment", "let", "print", "expr", "expr", "block"]
    );
}

#[test]
fn constant_needs_a_literal_of_its_type() {
    let e = parse("const N: Node = 1;").unwrap_err();
    assert!(matches!(e.kind, ParseErrorKind::Custom(_)));
    let e = parse("const B: bool = 1;").unwrap_err();
    assert!(matches!(e.kind, ParseErrorKind::Custom(_)));
    assert!(parse("const B: bool = true;").is_ok());
}

#[test]
fn unexpected_tokens() {
    let e = parse("let x = );").unwrap_err();
    assert_eq!(e.kind, ParseErrorKind::Unexpected(Token::RightParen));
    let e = parse("{ x;").unwrap_err();
    assert!(matches!(e.kind, ParseErrorKind::UnexpectedEos(_)));
    let e = parse("x").unwrap_err();
    assert!(matches!(e.kind, ParseErrorKind::UnexpectedEos(_)));
    let e = parse("print 1").unwrap_err();
    assert_eq!(
        e.kind,
        ParseErrorKind::ExpectedReason(Token::SemiColon, "after statement".to_string())
    );
}

#[test]
fn lone_pipe_is_unexpected() {
    let e = parse("print |;").unwrap_err();
    assert_eq!(e.kind, ParseErrorKind::Unexpected(Token::Pipe));
}

#[test]
fn printed_program_is_deterministic() {
    let a = parse("let mut x: Number = 2 + 3;").unwrap();
    let b = parse("let mut x: Number = 2 + 3;").unwrap();
    assert_eq!(a.to_text(), b.to_text());
}

#[test]
fn program_text() {
    let program = parse("1 + 2;").unwrap();
    assert_eq!(
        program.to_text(),
        "ExprStmt { BinaryExpr { LiteralExpr { Number { 1 } } Plus LiteralExpr { Number { 2 } } } }"
    );
    assert_eq!(parse("").unwrap().to_text(), "(empty)");
    let program = parse("let x = \"s\";").unwrap();
    assert_eq!(
        program.to_text(),
        "VarDeclStmt { VarDecl { VarExpr { Var { x } } : unknown = LiteralExpr { String { \"s\" } } } }"
    );
}

#[test]
fn decimal_text() {
    assert_eq!(Decimal { mantissa: 5, scale: 1 }.to_text(), "0.5");
    assert_eq!(Decimal { mantissa: 28539, scale: 4 }.to_text(), "2.8539");
    assert_eq!(Decimal { mantissa: 5, scale: 3 }.to_text(), "0.005");
    assert_eq!(Decimal { mantissa: 120, scale: 0 }.to_text(), "120");
}

#[test]
fn semicolon_may_be_left_out_only_before_a_closing_brace() {
    let e = parse("1 2;").unwrap_err();
    assert_eq!(e.kind, ParseErrorKind::Expected(Token::SemiColon));
    let program = parse("let y = { x = 1; x };").unwrap();
    assert_eq!(program.0.len(), 1);
    assert!(parse("{ 1 }").is_ok());
}

#[test]
fn top_operator_has_lowest_precedence() {
    let e = only_expr(parse("a.b * c + d < e == f && g;").unwrap());
    assert_eq!(
        e,
        binary(
            BinaryOp::And,
            binary(
                BinaryOp::Eq,
                binary(
                    BinaryOp::Lt,
                    binary(
                        BinaryOp::Plus,
                        binary(BinaryOp::Multiply, binary(BinaryOp::Dot, var("a"), var("b")), var("c")),
                        var("d")
                    ),
                    var("e")
                ),
                var("f")
            ),
            var("g")
        )
    );
}

#[test]
fn parse_error_render() {
    let e = parse("let if = 3;").unwrap_err();
    assert_eq!(e.render(), "error: keyword 'if' used as identifier");
    let e = parse("print 1").unwrap_err();
    assert_eq!(e.render(), "error: expected ';': after statement");
    let e = parse("x").unwrap_err();
    assert_eq!(e.render(), "error: unexpected end of input in expression statement");
    let e = parse("let x = );").unwrap_err();
    assert_eq!(e.render(), "error: unexpected ')'");
    let e = parse("x = 1 + 2 .. 5;").unwrap_err();
    assert_eq!(e.render(), "error: range bounds must be literals, variables or groups");
}

#[test]
fn error_labels() {
    let e = parse("{ x;").unwrap_err();
    assert_eq!(e.kind, ParseErrorKind::UnexpectedEos("block statement".to_string()));
    let e = parse("x").unwrap_err();
    assert_eq!(e.kind, ParseErrorKind::UnexpectedEos("expression statement".to_string()));
    let e = parse("let").unwrap_err();
    assert_eq!(e.kind, ParseErrorKind::UnexpectedEos("identifier".to_string()));
    let e = parse("let mut while;").unwrap_err();
    assert_eq!(e.kind, ParseErrorKind::KeywordAsIdentifier(Token::While));
}

#[test]
fn constant_errors() {
    let e = parse("const N: Node = 1;").unwrap_err();
    assert_eq!(e.kind, ParseErrorKind::Custom("cannot create a Node type literal".to_string()));
    let e = parse("const G: Group = 1;").unwrap_err();
    assert_eq!(e.kind, ParseErrorKind::Custom("cannot create a Group type literal".to_string()));
    assert!(parse("const S: String = \"s\";").is_ok());
    assert!(parse("const S: String = 1;").is_err());
}

#[test]
fn statements_in_order() {
    let program = parse("print 1; return 2;").unwrap();
    assert_eq!(program.0.len(), 2);
    assert!(matches!(program.0[0].kind, StmtKind::Print(_)));
    assert!(matches!(program.0[1].kind, StmtKind::Return(_)));
    let program = parse("a.b -> c; x = 1; let x = &y; fn g() {} fn f(a: Number) -> bool { return a; }").unwrap();
    assert_eq!(program.0.len(), 5);
    assert!(matches!(program.0[0].kind, StmtKind::Connect(_)));
    assert!(matches!(program.0[1].kind, StmtKind::Assignment(_)));
}

#[test]
fn prefix_takes_the_whole_rest() {
    let e = only_expr(parse("-1 + 2;").unwrap());
    assert_eq!(
        e,
        Expr {
            kind: ExprKind::Unary(Ptr::new(nexus_rs::ast::UnaryExpr {
                op: nexus_rs::ast::UnaryOp::Minus,
                expr: binary(BinaryOp::Plus, number(1), number(2)),
            })),
        }
    );
}

#[test]
fn token_text() {
    assert_eq!(Token::Arrow.to_text(), "->");
    assert_eq!(Token::BackSlash.to_text(), "\\");
    assert_eq!(Token::Identifier("ab".to_string()).to_text(), "ab");
    assert_eq!(Token::String("s".to_string()).to_text(), "\"s\"");
    assert_eq!(Token::Number(Decimal { mantissa: 25, scale: 1 }).to_text(), "2.5");
}

#[test]
fn range_results() {
    let e = only_expr(parse("1..=5;").unwrap());
    assert!(matches!(e.kind, ExprKind::Range(_)));
    let e = only_expr(parse("a..(b);").unwrap());
    assert!(matches!(e.kind, ExprKind::Range(_)));
    let e = parse("x = 1..x + 1;").unwrap_err();
    assert_eq!(e.kind, ParseErrorKind::RangeDelimiter);
}

#[test]
fn custom_message_names_the_token() {
    let e = parse("let x: y;").unwrap_err();
    assert_eq!(e.kind, ParseErrorKind::Custom("not a type ID 'y'".to_string()));
}

#[test]
fn range_bound_errors_and_groups() {
    let e = parse("x = f(1)..3;").unwrap_err();
    assert_eq!(e.kind, ParseErrorKind::RangeDelimiter);
    let e = parse("x = 1..-2;").unwrap_err();
    assert_eq!(e.kind, ParseErrorKind::RangeDelimiter);
    let e = only_expr(parse("(a)..(b);").unwrap());
    assert!(matches!(e.kind, ExprKind::Range(_)));
}

#[test]
fn function_without_arguments_has_none() {
    let program = parse("fn g() {}").unwrap();
    match &program.0[0].kind {
        StmtKind::FunctionDecl(f) => {
            assert!(f.get().args.is_none());
            assert!(f.get().ret_type.is_none());
        }
        _ => panic!("not a function"),
    }
}

#[test]
fn nested_expressions_parse() {
    assert!(parse("x = f(1, (2 + 3), g(),) * if a { 1 } else { 2 };").is_ok());
    assert!(parse("while x < 3 { x = x + 1; } ; for i in n { print i; };").is_ok());
    assert!(parse("y = { 1 } + 2;").is_ok());
}

#[test]
fn range_statements() {
    let program = parse("let r = 1..=5; print (a)..b;").unwrap();
    assert_eq!(program.0.len(), 2);
}
