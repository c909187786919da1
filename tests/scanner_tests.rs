use nexus_rs::cursor::Cursor;
use nexus_rs::scan_error::ScanErrorKind;
use nexus_rs::scanner::{parse_number, parse_string, parse_word, Scanner};
use nexus_rs::source_line::SourceLine;
use nexus_rs::token::{Decimal, Token};

fn line(text: &str) -> SourceLine {
    SourceLine { line: text.to_string(), number: None }
}

fn value_of(d: Decimal) -> f64 {
    d.mantissa as f64 / 10f64.powi(d.scale as i32)
}

#[test]
fn token_test() {
    let test = |input: &str, expected: Token| {
        let mut s = Scanner::new();

        match s.scan(line(input)) {
            Ok(tokens) => {
                assert_eq!(tokens.len(), 1);
                assert_eq!(tokens.into_iter().next().unwrap(), expected);
            }
            Err(e) => assert!(false, "error: {}", e.render()),
        }
    };

    test("(", Token::LeftParen);
    test(")", Token::RightParen);
    test("{", Token::LeftBrace);
    test("}", Token::RightBrace);
    test("[", Token::LeftBracket);
    test("]", Token::RightBracket);
    test(":", Token::Colon);
    test(";", Token::SemiColon);
    test("&", Token::Amp);
    test("+", Token::Plus);
    test("-", Token::Minus);
    test("->", Token::Arrow);
    test("*", Token::Star);
    test("/", Token::Slash);
    test("\\", Token::BackSlash);
    test("%", Token::Percent);
    test(",", Token::Comma);
    test(".", Token::Dot);
    test("..", Token::Range);
    test("_", Token::Underscore);
    test("=", Token::Is);
    test("==", Token::Eq);
    test(">", Token::Gt);
    test(">=", Token::GtEq);
    test("<", Token::Lt);
    test("<=", Token::LtEq);
    test("!", Token::Bang);
    test("!=", Token::NotEq);
    test("&&", Token::And);
    test("|", Token::Pipe);
    test("true", Token::True);
    test("false", Token::False);
    test("const", Token::Const);
    test("let", Token::Let);
    test("mut", Token::Mut);
    test("fn", Token::Function);
    test("if", Token::If);
    test("else", Token::Else);
    test("for", Token::For);
    test("in", Token::In);
    test("while", Token::While);
    test("return", Token::Return);
    test("use", Token::Use);
    test("bool", Token::BoolId);
    test("Group", Token::GroupId);
    test("Node", Token::NodeId);
    test("Number", Token::NumberId);
    test("String", Token::StringId);
    test("print", Token::Print);
    test("node", Token::Node);
    test("group", Token::Group);

    test("2.8539", Token::Number(Decimal { mantissa: 28539, scale: 4 }));
    test("top_id", Token::Identifier("top_id".to_string()));
    test("\"Hi\"", Token::String("Hi".to_string()));
}

#[test]
fn scanner_parse_string_test() {
    let test = |input: &str| {
        let s = "\"".to_string() + input + "\"";
        let mut cursor = Cursor::new(&s);
        assert_eq!(
            parse_string(&mut cursor).unwrap(),
            input
                .to_string()
                .replace("\\\"", "\"")
                .replace("\\\\", "\\")
        );
    };

    test("");
    test("x");
    test("abc");
    test("With spaces");
    test("With multiple spaces");
    test("W1th num63r5");
    test("W|]h $pec!@l ch@r@ct#r5!");
    test("With ŮñĭçøƋɇ characters");
    test("With \newli\nes and \tab");

    test(r#"With escaped \"quotes\""#);
    test(r#"With backslashes \\\\"#);
    test(r#"\"quotes at the sides\""#);
}

#[test]
fn scanner_parse_number_test() {
    let test = |input: &str, expected: f64| {
        let mut cursor = Cursor::new(input);
        assert!(value_of(parse_number(&mut cursor).unwrap()) - expected < 0.001);
    };

    test("0", 0.0);
    test("1", 1.0);
    test("0.0", 0.0);
    test("1.0", 1.0);
    test("0.0000", 0.0);
    test("1.0000", 1.0);
    test("1000", 1000.0);
    test("123456", 123456.0);
    test("123.456", 123.456);
    test("123.456", 123.456);
    test("3.1415926535", std::f64::consts::PI);
}

#[test]
fn scanner_parse_word_identifier_test() {
    let test = |word: &str| {
        let mut cursor = Cursor::new(word);
        assert_eq!(
            parse_word(&mut cursor).unwrap(),
            Token::Identifier(word.to_string())
        );
    };

    test("x");
    test("ah");
    test("word");
    test("CamelCase");
    test("snake_case");
    test("ALLUPPER");
    test("ŮñĭçøƋɇ");
    test("trailing_numbers012");
    test("numbers1n8etw33n");
    test("veeeeeeeerylooooooongwooooooord");
}

#[test]
fn scanner_parse_word_keyword_test() {
    let test = |word: &str, expected: Token| {
        let mut cursor = Cursor::new(word);
        assert_eq!(parse_word(&mut cursor).unwrap(), expected);
    };

    test("false", Token::False);
    test("fn", Token::Function);
    test("for", Token::For);
    test("group", Token::Group);
    test("if", Token::If);
    test("let", Token::Let);
    test("node", Token::Node);
    test("print", Token::Print);
    test("return", Token::Return);
    test("true", Token::True);
    test("use", Token::Use);
    test("while", Token::While);
}

#[test]
fn scan_escaped_quotes() {
    let mut s = Scanner::new();
    let tokens = s.scan(line("\"With escaped \\\"quotes\\\"\"")).unwrap();
    assert_eq!(tokens, vec![Token::String("With escaped \"quotes\"".to_string())]);
    let tokens = s.scan(line("\"a\\\\b\"")).unwrap();
    assert_eq!(tokens, vec![Token::String("a\\b".to_string())]);
}

#[test]
fn scan_unterminated_string() {
    let mut s = Scanner::new();
    let e = s.scan(line("\"abc")).unwrap_err();
    assert_eq!(*e.kind(), ScanErrorKind::UnterminatedString);
    assert_eq!(e.char_index(), 3);
}

#[test]
fn scan_dangling_escape_is_malformed() {
    let mut s = Scanner::new();
    let e = s.scan(line("\"abc\\")).unwrap_err();
    assert_eq!(*e.kind(), ScanErrorKind::MalformedString);
}

#[test]
fn scan_number_before_range() {
    let mut s = Scanner::new();
    let tokens = s.scan(line("1..5")).unwrap();
    assert_eq!(
        tokens,
        vec![
            Token::Number(Decimal { mantissa: 1, scale: 0 }),
            Token::Range,
            Token::Number(Decimal { mantissa: 5, scale: 0 }),
        ]
    );
    let tokens = s.scan(line("1..=5")).unwrap();
    assert_eq!(
        tokens,
        vec![
            Token::Number(Decimal { mantissa: 1, scale: 0 }),
            Token::Range,
            Token::Is,
            Token::Number(Decimal { mantissa: 5, scale: 0 }),
        ]
    );
}

#[test]
fn scan_numbers_in_lowest_terms() {
    let mut s = Scanner::new();
    let tokens = s.scan(line("1.50 007 0.0")).unwrap();
    assert_eq!(
        tokens,
        vec![
            Token::Number(Decimal { mantissa: 15, scale: 1 }),
            Token::Number(Decimal { mantissa: 7, scale: 0 }),
            Token::Number(Decimal { mantissa: 0, scale: 0 }),
        ]
    );
}

#[test]
fn scan_number_with_second_dot() {
    let mut s = Scanner::new();
    let tokens = s.scan(line("1.5.3")).unwrap();
    assert_eq!(
        tokens,
        vec![
            Token::Number(Decimal { mantissa: 15, scale: 1 }),
            Token::Dot,
            Token::Number(Decimal { mantissa: 3, scale: 0 }),
        ]
    );
}

#[test]
fn scan_dot_after_number_without_digit_fails() {
    let mut s = Scanner::new();
    let e = s.scan(line("12.x")).unwrap_err();
    assert_eq!(*e.kind(), ScanErrorKind::UnexpectedCharacter);
    assert_eq!(e.char_index(), 3);
    let e = s.scan(line("12.")).unwrap_err();
    assert_eq!(*e.kind(), ScanErrorKind::UnexpectedCharacter);
    assert_eq!(e.char_index(), 2);
}

#[test]
fn scan_number_too_large() {
    let mut s = Scanner::new();
    let e = s.scan(line("x = 123456789012345678901234567890;")).unwrap_err();
    assert_eq!(
        *e.kind(),
        ScanErrorKind::NumberParseError("123456789012345678901234567890".to_string())
    );
    assert_eq!(e.char_index(), 33);
}

#[test]
fn scan_unexpected_character() {
    let mut s = Scanner::new();
    let e = s.scan(line("let x = 3 # 4;")).unwrap_err();
    assert_eq!(*e.kind(), ScanErrorKind::UnexpectedCharacter);
    assert_eq!(e.char_index(), 10);
}

#[test]
fn scan_keyword_and_identifier() {
    let mut s = Scanner::new();
    let tokens = s.scan(line("let lets ŮñĭçøƋɇ_1")).unwrap();
    assert_eq!(
        tokens,
        vec![
            Token::Let,
            Token::Identifier("lets".to_string()),
            Token::Identifier("ŮñĭçøƋɇ_1".to_string()),
        ]
    );
}

#[test]
fn scan_line_comment() {
    let mut s = Scanner::new();
    let tokens = s.scan(line("x; // y; \"")).unwrap();
    assert_eq!(tokens, vec![Token::Identifier("x".to_string()), Token::SemiColon]);
}

#[test]
fn scan_multi_line_comment_across_lines() {
    let mut s = Scanner::new();
    assert_eq!(s.scan(line("a /* b")).unwrap(), vec![Token::Identifier("a".to_string())]);
    assert_eq!(s.scan(line("c # d")).unwrap(), vec![]);
    assert_eq!(s.scan(line("e */ f")).unwrap(), vec![Token::Identifier("f".to_string())]);
    let mut fresh = Scanner::default();
    assert_eq!(
        fresh.scan(line("e */ f")).unwrap(),
        vec![Token::Identifier("e".to_string()), Token::Star, Token::Slash, Token::Identifier("f".to_string())]
    );
}

#[test]
fn scan_pipes_stay_apart() {
    let mut s = Scanner::new();
    assert_eq!(s.scan(line("||")).unwrap(), vec![Token::Pipe, Token::Pipe]);
}

#[test]
fn scan_error_render() {
    let mut s = Scanner::new();
    let e = s.scan(SourceLine { line: "let x = $;".to_string(), number: Some(12) }).unwrap_err();
    assert_eq!(
        e.render(),
        "    |\n 12 | let x = $;\n    |         ^\n    | error: unexpected character\n    |"
    );
    assert_eq!(e.line().number, Some(12));
    let e = s.scan(line("\"ab")).unwrap_err();
    assert_eq!(e.render(), "  |\n  | \"ab\n  |   ^\n  | error: unterminated string\n  |");
}

#[test]
fn scan_error_messages() {
    assert_eq!(ScanErrorKind::MalformedString.message(), "malformed string literal");
    assert_eq!(
        ScanErrorKind::NumberParseError("99".to_string()).message(),
        "failed to parse number '99'"
    );
    assert_eq!(ScanErrorKind::WordParseError.message(), "failed to parse word");
}

#[test]
fn parse_word_at_eol_fails() {
    let mut cursor = Cursor::new("");
    assert_eq!(parse_word(&mut cursor), Err(ScanErrorKind::WordParseError));
}
