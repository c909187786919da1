use nexus_rs::cursor::Cursor;

#[test]
fn cursor_new_test() {
    let empty = "".to_string();
    let line = "Test123".to_string();

    let c1 = Cursor::new(&empty);
    let c2 = Cursor::new(&line);

    assert_eq!(c1.value(), None);
    assert_eq!(c2.value(), Some('T'));
}

#[test]
fn cursor_eol_test() {
    let empty = "".to_string();
    let line = "abc".to_string();

    let c1 = Cursor::new(&empty);
    let mut c2 = Cursor::new(&line);

    assert!(c1.eol());
    assert!(!c2.eol());

    c2.advance();
    c2.advance();
    c2.advance();

    assert!(c2.eol());
}

#[test]
fn eol_test() {
    let empty = "".to_string();
    let line = "abc".to_string();

    let c1 = Cursor::new(&empty);
    let mut c2 = Cursor::new(&line);

    assert!(c1.eol());
    assert!(!c2.eol());

    c2.advance();
    c2.advance();
    c2.advance();

    assert!(c2.eol());
}

#[test]
fn cursor_advance_test() {
    let line = "abcdefg".to_string();

    let mut c = Cursor::new(&line);

    for i in "abcdefg".chars() {
        assert_eq!(c.value().unwrap(), i);
        c.advance();
    }

    assert!(c.value().is_none());
    assert!(c.eol());
}

#[test]
fn cursor_advance_by_test() {
    let line = "ab_cd_ɘƒ_gh".to_string();

    let mut c = Cursor::new(&line);

    assert_eq!(c.value(), Some('a'));
    c.advance_by(3);
    assert_eq!(c.value(), Some('c'));
    c.advance_by(3);
    assert_eq!(c.value(), Some('ɘ'));
    c.advance_by(3);
    assert_eq!(c.value(), Some('g'));

    c.advance_by(3);
    assert!(c.eol());
}

#[test]
fn advance_by_test() {
    let line = "ab_cd_ɘƒ_gh".to_string();

    let mut c = Cursor::new(&line);

    assert_eq!(c.value(), Some('a'));
    c.advance_by(3);
    assert_eq!(c.value(), Some('c'));
    c.advance_by(3);
    assert_eq!(c.value(), Some('ɘ'));
    c.advance_by(3);
    assert_eq!(c.value(), Some('g'));

    c.advance_by(3);

    assert!(c.value().is_none());
    assert!(c.eol());
}

#[test]
fn advance_by_zero_is_a_no_op() {
    let mut c = Cursor::new("xy");
    c.advance_by(0);
    assert_eq!(c.value(), Some('x'));
    assert_eq!(c.index(), 0);
}

#[test]
fn cursor_peek_test() {
    let line = "abcdefg".to_string();

    let mut c = Cursor::new(&line);

    for i in "bcdefg".chars() {
        assert_eq!(c.peek().unwrap(), i);
        c.advance();
    }

    assert!(!c.eol());

    c.advance();

    assert!(c.eol());
}

#[test]
fn cursor_peek_nth_test() {
    let line = "abcdefg".to_string();

    let c = Cursor::new(&line);

    for (i, x) in line.char_indices() {
        assert_eq!(c.peek_nth(i), Some(x));
    }
}

#[test]
fn peek_nth_test() {
    let line = "abcdefg".to_string();

    let c = Cursor::new(&line);

    for (i, x) in line.char_indices() {
        assert_eq!(c.peek_nth(i), Some(x));
    }
    assert_eq!(c.peek_nth(7), None);
}

#[test]
fn cursor_peek_while_test() {
    let line = "abc def".to_string();

    let mut c = Cursor::new(&line);

    let is_word_char = |c: char| -> bool { c.is_alphanumeric() || c == '_' };

    assert!(!c.eol());
    assert_eq!(c.value(), Some('a'));

    assert_eq!(c.peek_while(is_word_char), Some("abc".to_string()));

    assert!(!c.eol());
    assert_eq!(c.value(), Some('a'));

    c.advance();
    c.advance();
    c.advance();

    assert!(!c.eol());
    assert_eq!(c.value(), Some(' '));

    c.advance();

    assert!(!c.eol());
    assert_eq!(c.value(), Some('d'));

    assert_eq!(c.peek_while(is_word_char), Some("def".to_string()));

    assert!(!c.eol());
    assert_eq!(c.value(), Some('d'));
}

#[test]
fn peek_while_test() {
    let line = "abc def".to_string();

    let mut c = Cursor::new(&line);

    let is_word_char = |c: char| -> bool { c.is_alphanumeric() || c == '_' };

    assert!(!c.eol());
    assert_eq!(c.value(), Some('a'));

    assert_eq!(c.peek_while(is_word_char), Some("abc".to_string()));

    assert!(!c.eol());
    assert_eq!(c.value(), Some('a'));

    c.advance();
    c.advance();
    c.advance();

    assert!(!c.eol());
    assert_eq!(c.value(), Some(' '));

    c.advance();

    assert!(!c.eol());
    assert_eq!(c.value(), Some('d'));

    assert_eq!(c.peek_while(is_word_char), Some("def".to_string()));

    assert!(!c.eol());
    assert_eq!(c.value(), Some('d'));
}

#[test]
fn peek_while_at_eol_is_none() {
    let mut c = Cursor::new("a");
    c.advance();
    assert_eq!(c.peek_while(|_| true), None);
    assert_eq!(c.peek_word(), None);
}

#[test]
fn peek_while_word_test() {
    let line = "abc def".to_string();

    let mut c = Cursor::new(&line);

    assert!(!c.eol());
    assert_eq!(c.value(), Some('a'));

    assert_eq!(c.peek_word(), Some("abc".to_string()));

    assert!(!c.eol());
    assert_eq!(c.value(), Some('a'));

    c.advance();
    c.advance();
    c.advance();

    assert!(!c.eol());
    assert_eq!(c.value(), Some(' '));

    c.advance();

    assert!(!c.eol());
    assert_eq!(c.value(), Some('d'));

    assert_eq!(c.peek_word(), Some("def".to_string()));

    assert!(!c.eol());
    assert_eq!(c.value(), Some('d'));
}

#[test]
fn cursor_parse_word_test() {
    let test = |word: &str| {
        let cursor = Cursor::new(word);
        assert_eq!(
            cursor
                .peek_while(|c| { c.is_alphanumeric() || c == '_' })
                .unwrap(),
            word.to_string()
        );
        assert_eq!(cursor.peek_word().unwrap(), word.to_string());
    };

    test("x");
    test("ah");
    test("word");
    test("CamelCase");
    test("snake_case");
    test("ALLUPPER");
    test("ŮñĭçøƋɇ");
    test("trailing_numbers012");
    test("numbers1n8etw33n");
    test("veeeeeeeerylooooooongwooooooord");
}

#[test]
fn index_advance_test() {
    let mut cursor = Cursor::new("0123456789");

    assert_eq!(cursor.index(), 0);

    while !cursor.eol() {
        assert_eq!(
            cursor.index(),
            cursor.value().unwrap().to_digit(10).unwrap() as usize
        );
        cursor.advance();
    }

    assert!(cursor.eol());
    assert_eq!(cursor.index(), 9);

    cursor.advance();
    cursor.advance();

    assert!(cursor.eol());
    assert_eq!(cursor.index(), 9);
}

#[test]
fn index_advance_by_test() {
    let mut cursor = Cursor::new("This is a test string");

    let test = |cursor: &Cursor, i: usize, c: char| {
        assert_eq!(cursor.index(), i);
        assert_eq!(cursor.value(), Some(c));
    };

    test(&cursor, 0, 'T');
    cursor.advance_by(5);
    test(&cursor, 5, 'i');
    cursor.advance_by(3);
    test(&cursor, 8, 'a');
    cursor.advance_by(2);
    test(&cursor, 10, 't');
    cursor.advance_by(5);
    test(&cursor, 15, 's');
    cursor.advance_by(6);

    assert!(cursor.eol());
    assert_eq!(cursor.index(), 20);

    cursor.advance_by(10);

    assert!(cursor.eol());
    assert_eq!(cursor.index(), 20);
}

#[test]
fn peek_word_needs_an_alphanumeric_start() {
    let c = Cursor::new("#a");
    assert_eq!(c.peek_word(), None);
    let c = Cursor::new("_a");
    assert_eq!(c.peek_word(), None);
    let c = Cursor::new("abc_12 def");
    assert_eq!(c.peek_word(), Some("abc_12".to_string()));
}
