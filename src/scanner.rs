//! The line scanner of Nexus.
use vstd::prelude::*;
use crate::cursor::{word_end, lemma_word_end, Cursor};
use crate::lexicon::{
    char_at, digit_end, digits_value, keyword_token, lex, number_step, pair_token, prepend, single_token,
    step, string_end, trim_zeros, word_view, Lexed, Step, StringEnd,
};
use crate::scan_error::{ScanError, ScanErrorKind, ScanFault};
use crate::source_line::SourceLine;
use crate::text::{alnum_char, ascii_digit, chars_of, is_alphabetic, letter, push_char};
use crate::token::{views, Decimal, Token, TokenView, Tokens};

verus! {

/// The text before a string literal's remaining body, and how that body ends.
pub open spec fn glue(acc: Seq<char>, e: StringEnd) -> StringEnd {
    match e {
        StringEnd::Closed(p, k) => StringEnd::Closed(acc + p, k),
        StringEnd::Open(x) => StringEnd::Open(x),
    }
}

/// Scans a string literal; the cursor points at its opening quote. On success
/// it is left at the closing quote, on failure at the end of the line.
pub fn parse_string(cursor: &mut Cursor) -> (r: Result<String, ScanErrorKind>)
    requires
        old(cursor).wf(),
        old(cursor).at(0) == Some('"'),
    ensures
        final(cursor).wf(),
        final(cursor).line() == old(cursor).line(),
        match string_end(old(cursor).line(), old(cursor).pos() + 1, false) {
            StringEnd::Closed(p, k) => r matches Ok(t) && t@ == p && final(cursor).pos() == k,
            StringEnd::Open(e) => r matches Err(kind) && final(cursor).pos() == old(cursor).line().len()
                && kind == if e {
                ScanErrorKind::MalformedString
            } else {
                ScanErrorKind::UnterminatedString
            },
        },
{
    let ghost s = cursor.line();
    let ghost start = cursor.pos() + 1;
    assert(s == old(cursor).line());
    let mut result = String::new();
    let mut escaped = false;
    cursor.advance();
    assert(glue(result@, string_end(s, cursor.pos(), escaped)) == string_end(s, start, false)) by {
        assert(result@ + seq![] =~= result@);
        match string_end(s, start, false) {
            StringEnd::Closed(p, k) => assert(result@ + p =~= p),
            _ => {},
        }
    }
    loop
        invariant
            cursor.wf(),
            cursor.line() == s,
            old(cursor).line() == s,
            start == old(cursor).pos() + 1,
            start <= cursor.pos() <= s.len(),
            glue(result@, string_end(s, cursor.pos(), escaped)) == string_end(s, start, false),
        decreases s.len() - cursor.pos(),
    {
        let v = cursor.value();
        match v {
            None => {
                if escaped {
                    return Err(ScanErrorKind::MalformedString);
                } else {
                    return Err(ScanErrorKind::UnterminatedString);
                }
            },
            Some(c) => {
                let ghost j = cursor.pos();
                let ghost before = result@;
                let ghost e0 = escaped;
                assert(c == s[j]);
                if c == '"' && !escaped {
                    assert(string_end(s, j, e0) == StringEnd::Closed(seq![], j));
                    assert(before + seq![] =~= before);
                    return Ok(result);
                }
                if c == '\\' && !escaped {
                    assert(string_end(s, j, e0) == string_end(s, j + 1, true));
                    escaped = true;
                } else {
                    push_char(&mut result, c);
                    escaped = false;
                    proof {
                        match string_end(s, j + 1, false) {
                            StringEnd::Closed(p, k) => {
                                assert(string_end(s, j, e0) == StringEnd::Closed(seq![c] + p, k));
                                assert(before + (seq![c] + p) =~= result@ + p);
                            },
                            StringEnd::Open(x) => {
                                assert(string_end(s, j, e0) == StringEnd::Open(x));
                            },
                        }
                    }
                }
                cursor.advance();
            },
        }
    }
}

proof fn lemma_digits_prefix(ds: Seq<char>, k: int)
    requires
        0 <= k <= ds.len(),
    ensures
        digits_value(ds.subrange(0, k)) <= digits_value(ds),
    decreases ds.len(),
{
    if k < ds.len() {
        lemma_digits_prefix(ds.drop_last(), k);
        assert(ds.drop_last().subrange(0, k) =~= ds.subrange(0, k));
    } else {
        assert(ds.subrange(0, k) =~= ds);
    }
}

/// The value of a run of ASCII digits, if it fits in 64 bits.
fn digits_to_u64(ds: &Vec<char>) -> (r: Option<u64>)
    requires
        forall|i: int| 0 <= i < ds@.len() ==> ascii_digit(#[trigger] ds@[i]),
    ensures
        r == if digits_value(ds@) <= u64::MAX {
            Some(digits_value(ds@) as u64)
        } else {
            None::<u64>
        },
{
    let mut value: u64 = 0;
    let mut k: usize = 0;
    assert(ds@.subrange(0, 0) =~= seq![]);
    while k < ds.len()
        invariant
            forall|i: int| 0 <= i < ds@.len() ==> ascii_digit(#[trigger] ds@[i]),
            k <= ds@.len(),
            value == digits_value(ds@.subrange(0, k as int)),
        decreases ds@.len() - k,
    {
        let d = (ds[k] as u32 - '0' as u32) as u64;
        assert(ds@.subrange(0, k + 1).drop_last() =~= ds@.subrange(0, k as int));
        assert(digits_value(ds@.subrange(0, k + 1)) == value * 10 + d);
        proof {
            lemma_digits_prefix(ds@, k + 1);
        }
        match value.checked_mul(10) {
            None => return None,
            Some(v) => match v.checked_add(d) {
                None => return None,
                Some(w) => {
                    value = w;
                },
            },
        }
        k = k + 1;
    }
    assert(ds@.subrange(0, k as int) =~= ds@);
    Some(value)
}

proof fn lemma_trim_step(ds: Seq<char>)
    requires
        ds.len() > 0,
        ds.last() == '0',
    ensures
        trim_zeros(ds) == trim_zeros(ds.drop_last()),
{
}

proof fn lemma_digit_end(s: Seq<char>, k: int)
    requires
        0 <= k <= s.len(),
    ensures
        k <= digit_end(s, k) <= s.len(),
        forall|j: int| k <= j < digit_end(s, k) ==> ascii_digit(#[trigger] s[j]),
        digit_end(s, k) < s.len() ==> !ascii_digit(s[digit_end(s, k)]),
    decreases s.len() - k,
{
    if k < s.len() && ascii_digit(s[k]) {
        lemma_digit_end(s, k + 1);
    }
}

/// Scans a number literal; the cursor points at its first digit, and is left
/// at its last character, or where the failure was found.
pub fn parse_number(cursor: &mut Cursor) -> (r: Result<Decimal, ScanErrorKind>)
    requires
        old(cursor).wf(),
        old(cursor).at(0) matches Some(c) && ascii_digit(c),
    ensures
        final(cursor).wf(),
        final(cursor).line() == old(cursor).line(),
        match number_step(old(cursor).line(), old(cursor).pos()) {
            Step::Emit(TokenView::Plain(Token::Number(d)), b) => r == Ok::<Decimal, ScanErrorKind>(d)
                && final(cursor).pos() == b - 1,
            Step::Fail(f, p) => r matches Err(k) && k@ == f && final(cursor).pos() == p,
            _ => false,
        },
        r is Ok ==> old(cursor).pos() <= final(cursor).pos() < old(cursor).line().len(),
{
    let ghost s = cursor.line();
    let ghost i = cursor.pos();
    let first = cursor.value().unwrap();
    let mut text = String::new();
    let mut digits: Vec<char> = Vec::new();
    push_char(&mut text, first);
    digits.push(first);
    proof {
        lemma_digit_end(s, i + 1);
        assert(digits@ =~= s.subrange(i, i + 1));
    }
    loop
        invariant
            cursor.wf(),
            cursor.line() == s,
            old(cursor).line() == s,
            old(cursor).pos() == i,
            0 <= i <= cursor.pos() < s.len(),
            digit_end(s, i + 1) == digit_end(s, cursor.pos() + 1),
            i + 1 <= digit_end(s, i + 1) <= s.len(),
            forall|j: int| i + 1 <= j < digit_end(s, i + 1) ==> ascii_digit(#[trigger] s[j]),
            ascii_digit(s[i]),
            digits@ == s.subrange(i, cursor.pos() + 1),
            text@ == digits@,
        ensures
            cursor.wf(),
            cursor.line() == s,
            old(cursor).line() == s,
            old(cursor).pos() == i,
            0 <= i <= cursor.pos() < s.len(),
            cursor.pos() + 1 == digit_end(s, i + 1),
            digits@ == s.subrange(i, cursor.pos() + 1),
            text@ == digits@,
        decreases s.len() - cursor.pos(),
    {
        match cursor.peek() {
            Some(c) => {
                if '0' <= c && c <= '9' {
                    let ghost p0 = cursor.pos();
                    assert(c == s[p0 + 1]);
                    push_char(&mut text, c);
                    digits.push(c);
                    cursor.advance();
                    assert(cursor.pos() == p0 + 1);
                    assert(s.subrange(i, p0 + 2) =~= s.subrange(i, p0 + 1).push(s[p0 + 1]));
                } else {
                    break;
                }
            },
            None => break,
        }
    }
    let ghost a = cursor.pos() + 1;
    proof {
        lemma_digit_end(s, i + 1);
    }
    assert forall|j: int| 0 <= j < digits@.len() implies ascii_digit(#[trigger] digits@[j]) by {
        assert(digits@[j] == s[i + j]);
    }
    let mut frac: Vec<char> = Vec::new();
    let ghost mut f = a;
    let ghost mut b = a;
    if cursor.peek() == Some('.') {
        let after = cursor.peek_nth(2);
        if after == Some('.') {
        } else if after.is_some() && '0' <= after.unwrap() && after.unwrap() <= '9' {
            push_char(&mut text, '.');
            cursor.advance();
            proof {
                f = a + 1;
                lemma_digit_end(s, a + 1);
                assert(digit_end(s, a + 1) == digit_end(s, a + 2));
                assert(frac@ =~= s.subrange(a + 1, a + 1));
                assert(text@ =~= s.subrange(i, a + 1));
            }
            loop
                invariant
                    cursor.wf(),
                    cursor.line() == s,
                    old(cursor).line() == s,
                    old(cursor).pos() == i,
                    0 <= i < a < s.len(),
                    a == digit_end(s, i + 1),
                    s[a] == '.',
                    digits@ == s.subrange(i, a),
                    forall|j: int| 0 <= j < digits@.len() ==> ascii_digit(#[trigger] digits@[j]),
                    forall|j: int| 0 <= j < frac@.len() ==> ascii_digit(#[trigger] frac@[j]),
                    a <= cursor.pos() < s.len(),
                    digit_end(s, a + 1) == digit_end(s, cursor.pos() + 1),
                    a + 1 <= digit_end(s, a + 1) <= s.len(),
                    frac@ == s.subrange(a + 1, cursor.pos() + 1),
                    text@ == s.subrange(i, cursor.pos() + 1),
                ensures
                    cursor.wf(),
                    cursor.line() == s,
                    old(cursor).line() == s,
                    old(cursor).pos() == i,
                    0 <= i < a < s.len(),
                    a == digit_end(s, i + 1),
                    s[a] == '.',
                    digits@ == s.subrange(i, a),
                    forall|j: int| 0 <= j < digits@.len() ==> ascii_digit(#[trigger] digits@[j]),
                    forall|j: int| 0 <= j < frac@.len() ==> ascii_digit(#[trigger] frac@[j]),
                    a <= cursor.pos() < s.len(),
                    cursor.pos() + 1 == digit_end(s, a + 1),
                    frac@ == s.subrange(a + 1, cursor.pos() + 1),
                    text@ == s.subrange(i, cursor.pos() + 1),
                decreases s.len() - cursor.pos(),
            {
                match cursor.peek() {
                    Some(c) => {
                        if '0' <= c && c <= '9' {
                            let ghost p0 = cursor.pos();
                            assert(c == s[p0 + 1]);
                            push_char(&mut text, c);
                            frac.push(c);
                            cursor.advance();
                            assert(cursor.pos() == p0 + 1);
                            assert(s.subrange(a + 1, p0 + 2) =~= s.subrange(a + 1, p0 + 1).push(s[p0 + 1]));
                            assert(s.subrange(i, p0 + 2) =~= s.subrange(i, p0 + 1).push(s[p0 + 1]));
                        } else {
                            break;
                        }
                    },
                    None => break,
                }
            }
            proof {
                b = cursor.pos() + 1;
                lemma_digit_end(s, a + 1);
                assert(digit_end(s, a + 1) == digit_end(s, a + 2));
            }
        } else {
            cursor.advance_by(2);
            return Err(ScanErrorKind::UnexpectedCharacter);
        }
    }
    assert(text@ =~= s.subrange(i, b));
    assert(frac@ =~= s.subrange(f, b));
    assert(digits@ =~= s.subrange(i, a));
    let ghost whole = frac@;
    while frac.len() > 0 && frac[frac.len() - 1] == '0'
        invariant
            trim_zeros(frac@) == trim_zeros(whole),
            forall|j: int| 0 <= j < frac@.len() ==> ascii_digit(#[trigger] frac@[j]),
        decreases frac@.len(),
    {
        proof {
            lemma_trim_step(frac@);
        }
        frac.pop();
    }
    assert(trim_zeros(frac@) == frac@);
    let scale = frac.len();
    let ghost int_part = digits@;
    let ghost trimmed = frac@;
    digits.append(&mut frac);
    assert(digits@ == int_part + trimmed);
    match digits_to_u64(&digits) {
        Some(m) => Ok(Decimal { mantissa: m, scale }),
        None => Err(ScanErrorKind::NumberParseError(text)),
    }
}

/// Scans a word; the cursor points at its first character and is left at its
/// last. A word that spells a keyword is that keyword, any other a name.
pub fn parse_word(cursor: &mut Cursor) -> (r: Result<Token, ScanErrorKind>)
    requires
        old(cursor).wf(),
    ensures
        final(cursor).wf(),
        final(cursor).line() == old(cursor).line(),
        !(old(cursor).at(0) matches Some(ch) && alnum_char(ch)) ==> r == Err::<Token, ScanErrorKind>(
            ScanErrorKind::WordParseError,
        ) && final(cursor).pos() == old(cursor).pos(),
        old(cursor).at(0) matches Some(ch) ==> (letter(ch) ==> alnum_char(ch)),
        old(cursor).at(0) matches Some(ch) && alnum_char(ch) ==> {
            let s = old(cursor).line();
            let e = word_end(s, old(cursor).pos() + 1);
            &&& r matches Ok(t)
            &&& t@ == word_view(s.subrange(old(cursor).pos(), e))
            &&& final(cursor).pos() == e - 1
        },
{
    let ghost s = cursor.line();
    let ghost p = cursor.pos();
    match cursor.peek_word() {
        Some(word) => {
            proof {
                lemma_word_end(s, p + 1);
            }
            let chars = chars_of(word.as_str());
            let n = chars.len();
            cursor.advance_by(n - 1);
            match keyword_token(&chars) {
                Some(t) => Ok(t),
                None => Ok(Token::Identifier(word)),
            }
        },
        None => Err(ScanErrorKind::WordParseError),
    }
}

/// The punctuation token at a character followed by `next`, and whether it
/// takes both characters.
pub fn punctuation(c: char, next: Option<char>) -> (r: Option<(Token, bool)>)
    ensures
        r == if next matches Some(d) && pair_token(c, d) is Some {
            Some((pair_token(c, next->0)->0, true))
        } else if single_token(c) is Some {
            Some((single_token(c)->0, false))
        } else {
            None
        },
{
    match c {
        '(' => Some((Token::LeftParen, false)),
        ')' => Some((Token::RightParen, false)),
        '{' => Some((Token::LeftBrace, false)),
        '}' => Some((Token::RightBrace, false)),
        '[' => Some((Token::LeftBracket, false)),
        ']' => Some((Token::RightBracket, false)),
        ':' => Some((Token::Colon, false)),
        ';' => Some((Token::SemiColon, false)),
        '+' => Some((Token::Plus, false)),
        '*' => Some((Token::Star, false)),
        '/' => Some((Token::Slash, false)),
        '\\' => Some((Token::BackSlash, false)),
        '%' => Some((Token::Percent, false)),
        ',' => Some((Token::Comma, false)),
        '_' => Some((Token::Underscore, false)),
        '|' => Some((Token::Pipe, false)),
        '-' => if next == Some('>') {
            Some((Token::Arrow, true))
        } else {
            Some((Token::Minus, false))
        },
        '.' => if next == Some('.') {
            Some((Token::Range, true))
        } else {
            Some((Token::Dot, false))
        },
        '=' => if next == Some('=') {
            Some((Token::Eq, true))
        } else {
            Some((Token::Is, false))
        },
        '>' => if next == Some('=') {
            Some((Token::GtEq, true))
        } else {
            Some((Token::Gt, false))
        },
        '<' => if next == Some('=') {
            Some((Token::LtEq, true))
        } else {
            Some((Token::Lt, false))
        },
        '!' => if next == Some('=') {
            Some((Token::NotEq, true))
        } else {
            Some((Token::Bang, false))
        },
        '&' => if next == Some('&') {
            Some((Token::And, true))
        } else {
            Some((Token::Amp, false))
        },
        _ => None,
    }
}

proof fn lemma_string_end(s: Seq<char>, j: int, e: bool)
    requires
        0 <= j,
    ensures
        string_end(s, j, e) matches StringEnd::Closed(p, k) ==> j <= k < s.len(),
    decreases s.len() - j,
{
    if j < s.len() {
        lemma_string_end(s, j + 1, true);
        lemma_string_end(s, j + 1, false);
    }
}

proof fn lemma_prepend_push(ts: Seq<Token>, t: Token, l: Lexed)
    ensures
        prepend(views(ts.push(t)), l) == prepend(views(ts), prepend(seq![t@], l)),
{
    assert(views(ts.push(t)) =~= views(ts) + seq![t@]);
    match l {
        Lexed::Done(us, c) => {
            assert(views(ts) + seq![t@] + us =~= views(ts) + (seq![t@] + us));
        },
        _ => {},
    }
}

/// The scanner. It scans one line at a time and remembers, from one line to
/// the next, whether a multi-line comment is open; the lines of one source
/// must go through one scanner, in order.
#[derive(Debug)]
pub struct Scanner {
    comment: bool,
}

impl Scanner {
    /// Whether a multi-line comment is open.
    pub closed spec fn in_comment(&self) -> bool {
        self.comment
    }

    /// A scanner outside any comment.
    pub fn new() -> (r: Scanner)
        ensures
            !r.in_comment(),
    {
        Scanner { comment: false }
    }

    /// Scans a line into tokens, or fails with the first lexical error found.
    #[verifier::rlimit(50)]
    pub fn scan(&mut self, sline: SourceLine) -> (r: Result<Tokens, ScanError>)
        ensures
            match lex(sline.line@, 0, old(self).in_comment()) {
                Lexed::Done(ts, c) => r matches Ok(tokens) && views(tokens@) == ts
                    && final(self).in_comment() == c,
                Lexed::Failed(f, k) => r matches Err(e) && e.spec_kind()@ == f
                    && e.spec_char_index() == k && e.spec_line() == sline && !final(self).in_comment(),
            },
    {
        let ghost s = sline.line@;
        let ghost c0 = self.comment;
        let mut tokens: Vec<Token> = Vec::new();
        let mut cursor = Cursor::new(sline.line.as_str());
        assert(views(tokens@) =~= seq![]);
        proof {
            match lex(s, 0, c0) {
                Lexed::Done(us, c) => assert(seq![] + us =~= us),
                _ => {},
            }
        }
        loop
            invariant
                cursor.wf(),
                cursor.line() == s,
                s == sline.line@,
                c0 == old(self).in_comment(),
                lex(s, 0, c0) == prepend(views(tokens@), lex(s, cursor.pos(), self.comment)),
            decreases s.len() - cursor.pos(),
        {
            let ghost p = cursor.pos();
            let v = cursor.value();
            match v {
                None => {
                    assert(views(tokens@) + seq![] =~= views(tokens@));
                    return Ok(tokens);
                },
                Some(c) => {
                    if self.comment {
                        if c == '*' && cursor.peek() == Some('/') {
                            assert(lex(s, p, true) == lex(s, p + 2, false));
                            cursor.advance();
                            self.comment = false;
                        } else {
                            assert(lex(s, p, true) == lex(s, p + 1, true));
                        }
                    } else if c == ' ' || c == '\n' || c == '\r' || c == '\t' {
                        assert(step(s, p) == Step::Skip);
                        assert(lex(s, p, false) == lex(s, p + 1, false));
                    } else if c == '/' && cursor.peek() == Some('/') {
                        assert(views(tokens@) + seq![] =~= views(tokens@));
                        return Ok(tokens);
                    } else if c == '/' && cursor.peek() == Some('*') {
                        assert(step(s, p) == Step::OpenComment);
                        assert(lex(s, p, false) == lex(s, p + 2, true));
                        cursor.advance();
                        self.comment = true;
                    } else if let Some((t, two)) = punctuation(c, cursor.peek()) {
                        if two {
                            cursor.advance();
                        }
                        assert(step(s, p) == Step::Emit(t@, cursor.pos() + 1));
                                assert(lex(s, p, false) == prepend(seq![t@], lex(s, cursor.pos() + 1, false)));
                        proof {
                            lemma_prepend_push(tokens@, t, lex(s, cursor.pos() + 1, false));
                        }
                        tokens.push(t);
                    } else if c == '"' {
                        proof {
                            lemma_string_end(s, p + 1, false);
                        }
                        match parse_string(&mut cursor) {
                            Ok(text) => {
                                let t = Token::String(text);
                                assert(step(s, p) == Step::Emit(t@, cursor.pos() + 1));
                                assert(lex(s, p, false) == prepend(seq![t@], lex(s, cursor.pos() + 1, false)));
                                proof {
                                    lemma_prepend_push(tokens@, t, lex(s, cursor.pos() + 1, false));
                                }
                                tokens.push(t);
                            },
                            Err(kind) => {
                                return Err(ScanError::new(sline, kind, &cursor));
                            },
                        }
                    } else if '0' <= c && c <= '9' {
                        proof {
                            lemma_digit_end(s, p + 1);
                        }
                        match parse_number(&mut cursor) {
                            Ok(d) => {
                                let t = Token::Number(d);
                                assert(step(s, p) == number_step(s, p));
                                assert(step(s, p) == Step::Emit(t@, cursor.pos() + 1));
                                assert(lex(s, p, false) == prepend(seq![t@], lex(s, cursor.pos() + 1, false)));
                                proof {
                                    lemma_prepend_push(tokens@, t, lex(s, cursor.pos() + 1, false));
                                }
                                tokens.push(t);
                            },
                            Err(kind) => {
                                return Err(ScanError::new(sline, kind, &cursor));
                            },
                        }
                    } else if is_alphabetic(c) {
                        proof {
                            lemma_word_end(s, p + 1);
                        }
                        match parse_word(&mut cursor) {
                            Ok(t) => {
                                assert(step(s, p) == Step::Emit(t@, cursor.pos() + 1));
                                assert(lex(s, p, false) == prepend(seq![t@], lex(s, cursor.pos() + 1, false)));
                                proof {
                                    lemma_prepend_push(tokens@, t, lex(s, cursor.pos() + 1, false));
                                }
                                tokens.push(t);
                            },
                            Err(kind) => {
                                return Err(ScanError::new(sline, kind, &cursor));
                            },
                        }
                    } else {
                        return Err(ScanError::new(sline, ScanErrorKind::UnexpectedCharacter, &cursor));
                    }
                    cursor.advance();
                },
            }
        }
    }
}

impl Default for Scanner {
    /// A scanner outside any comment.
    fn default() -> (r: Scanner)
        ensures
            !r.in_comment(),
    {
        Scanner::new()
    }
}

} // verus!
