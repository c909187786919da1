use nexus_rs::parse_error::ParseErrorKind;
use nexus_rs::token::Token;
use nexus_rs::token_cursor::TokenCursor;

#[test]
fn token_cursor_new_test() {
    let t = vec![Token::Let];
    let mut c = TokenCursor::new(t);

    assert_eq!(c.value(), Some(Token::Let));
    assert_eq!(c.value(), None);
}

#[test]
fn token_cursor_value_test() {
    let t = vec![Token::Let, Token::Arrow];
    let mut c = TokenCursor::new(t);

    assert_eq!(c.value(), Some(Token::Let));
    assert_eq!(c.value(), Some(Token::Arrow));
    assert_eq!(c.value(), None);
}

#[test]
fn token_cursor_peek_test() {
    let t = vec![Token::Let, Token::Arrow];
    let mut c = TokenCursor::new(t);

    assert_eq!(c.value(), Some(Token::Let));
    assert_eq!(c.peek(), Some(Token::Arrow));
    assert_eq!(c.value(), Some(Token::Arrow));
    assert_eq!(c.peek(), None);
    assert_eq!(c.value(), None);
}

#[test]
fn token_cursor_peek_next_test() {
    let t = vec![Token::Let, Token::Arrow, Token::For];
    let mut c = TokenCursor::new(t);

    assert_eq!(c.value(), Some(Token::Let));
    assert_eq!(c.peek_next(), Some(Token::For));
    assert_eq!(c.value(), Some(Token::Arrow));
    assert_eq!(c.peek_next(), None);
    assert_eq!(c.value(), Some(Token::For));
}

#[test]
fn token_cursor_advance_test() {
    let t = vec![
        Token::Let,
        Token::Identifier("x".to_string()),
        Token::SemiColon,
    ];
    let mut c = TokenCursor::new(t);

    assert_eq!(c.peek(), Some(Token::Let));

    c.advance();

    assert_eq!(c.peek(), Some(Token::Identifier("x".to_string())));

    c.advance();

    assert_eq!(c.peek(), Some(Token::SemiColon));

    c.advance();

    assert_eq!(c.peek(), None);
}

#[test]
fn token_cursor_advance_if_test() {
    let t = vec![Token::Let, Token::Arrow];
    let mut c = TokenCursor::new(t);

    assert_eq!(c.advance_if(Token::Let), true);
    assert_eq!(c.advance_if(Token::Let), false);
}

#[test]
fn advance_if_compares_payloads() {
    let t = vec![Token::Identifier("a".to_string())];
    let mut c = TokenCursor::new(t);

    assert!(!c.advance_if(Token::Identifier("b".to_string())));
    assert!(c.advance_if(Token::Identifier("a".to_string())));
    assert!(c.eos());
}

#[test]
fn token_cursor_consume_test() {
    let t = vec![Token::Let, Token::Arrow, Token::Colon];
    let mut c = TokenCursor::new(t);

    assert!(c.consume(Token::Let).is_ok());
    assert!(c.consume(Token::Arrow).is_ok());
    assert!(c.consume(Token::SemiColon).is_err());
}

#[test]
fn consume_reports_expected_token() {
    let t = vec![Token::Colon];
    let mut c = TokenCursor::new(t);

    let e = c.consume(Token::SemiColon).unwrap_err();
    assert_eq!(e.kind, ParseErrorKind::Expected(Token::SemiColon));
    assert_eq!(c.peek(), Some(Token::Colon));
}

#[test]
fn token_cursor_consume_msg_test() {
    let t = vec![Token::Let, Token::Arrow, Token::Colon];
    let mut c = TokenCursor::new(t);

    assert!(c.consume_msg(Token::Let, "expected 'let'").is_ok());
    assert!(c.consume_msg(Token::Arrow, "expected '->'").is_ok());
    let e = c.consume_msg(Token::SemiColon, "expected ';'").unwrap_err();
    assert_eq!(
        e.kind,
        ParseErrorKind::ExpectedReason(Token::SemiColon, "expected ';'".to_string())
    );
}

#[test]
fn token_cursor_eos_test() {
    let t = vec![Token::Let, Token::Arrow];
    let mut c = TokenCursor::new(t);

    assert!(!c.eos());
    c.advance();
    assert!(!c.eos());
    c.advance();
    assert!(c.eos());
}
