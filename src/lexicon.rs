//! The lexical grammar of Nexus, and the tables the scanner reads.
use vstd::prelude::*;
use crate::scan_error::ScanFault;
use crate::cursor::word_end;
use crate::text::{ascii_digit, ascii_letter, letter, word_char};
use crate::token::{Decimal, Token, TokenView};

verus! {

/// The keyword that a word spells, if any.
pub open spec fn keyword(w: Seq<char>) -> Option<Token> {
    if w.len() == 5 && w[0] == 'G' && w[1] == 'r' && w[2] == 'o' && w[3] == 'u' && w[4] == 'p' {
        Some(Token::GroupId)
    } else if w.len() == 4 && w[0] == 'N' && w[1] == 'o' && w[2] == 'd' && w[3] == 'e' {
        Some(Token::NodeId)
    } else if w.len() == 6 && w[0] == 'N' && w[1] == 'u' && w[2] == 'm' && w[3] == 'b' && w[4] == 'e' && w[5] == 'r' {
        Some(Token::NumberId)
    } else if w.len() == 6 && w[0] == 'S' && w[1] == 't' && w[2] == 'r' && w[3] == 'i' && w[4] == 'n' && w[5] == 'g' {
        Some(Token::StringId)
    } else if w.len() == 4 && w[0] == 'b' && w[1] == 'o' && w[2] == 'o' && w[3] == 'l' {
        Some(Token::BoolId)
    } else if w.len() == 5 && w[0] == 'c' && w[1] == 'o' && w[2] == 'n' && w[3] == 's' && w[4] == 't' {
        Some(Token::Const)
    } else if w.len() == 4 && w[0] == 'e' && w[1] == 'l' && w[2] == 's' && w[3] == 'e' {
        Some(Token::Else)
    } else if w.len() == 5 && w[0] == 'f' && w[1] == 'a' && w[2] == 'l' && w[3] == 's' && w[4] == 'e' {
        Some(Token::False)
    } else if w.len() == 2 && w[0] == 'f' && w[1] == 'n' {
        Some(Token::Function)
    } else if w.len() == 3 && w[0] == 'f' && w[1] == 'o' && w[2] == 'r' {
        Some(Token::For)
    } else if w.len() == 5 && w[0] == 'g' && w[1] == 'r' && w[2] == 'o' && w[3] == 'u' && w[4] == 'p' {
        Some(Token::Group)
    } else if w.len() == 2 && w[0] == 'i' && w[1] == 'f' {
        Some(Token::If)
    } else if w.len() == 2 && w[0] == 'i' && w[1] == 'n' {
        Some(Token::In)
    } else if w.len() == 3 && w[0] == 'l' && w[1] == 'e' && w[2] == 't' {
        Some(Token::Let)
    } else if w.len() == 3 && w[0] == 'm' && w[1] == 'u' && w[2] == 't' {
        Some(Token::Mut)
    } else if w.len() == 4 && w[0] == 'n' && w[1] == 'o' && w[2] == 'd' && w[3] == 'e' {
        Some(Token::Node)
    } else if w.len() == 5 && w[0] == 'p' && w[1] == 'r' && w[2] == 'i' && w[3] == 'n' && w[4] == 't' {
        Some(Token::Print)
    } else if w.len() == 6 && w[0] == 'r' && w[1] == 'e' && w[2] == 't' && w[3] == 'u' && w[4] == 'r' && w[5] == 'n' {
        Some(Token::Return)
    } else if w.len() == 4 && w[0] == 't' && w[1] == 'r' && w[2] == 'u' && w[3] == 'e' {
        Some(Token::True)
    } else if w.len() == 3 && w[0] == 'u' && w[1] == 's' && w[2] == 'e' {
        Some(Token::Use)
    } else if w.len() == 5 && w[0] == 'w' && w[1] == 'h' && w[2] == 'i' && w[3] == 'l' && w[4] == 'e' {
        Some(Token::While)
    } else {
        None
    }
}

/// The keyword that a word spells, if any.
pub fn keyword_token(w: &Vec<char>) -> (r: Option<Token>)
    ensures
        r == keyword(w@),
{
    if w.len() == 5 && w[0] == 'G' && w[1] == 'r' && w[2] == 'o' && w[3] == 'u' && w[4] == 'p' {
        Some(Token::GroupId)
    } else if w.len() == 4 && w[0] == 'N' && w[1] == 'o' && w[2] == 'd' && w[3] == 'e' {
        Some(Token::NodeId)
    } else if w.len() == 6 && w[0] == 'N' && w[1] == 'u' && w[2] == 'm' && w[3] == 'b' && w[4] == 'e' && w[5] == 'r' {
        Some(Token::NumberId)
    } else if w.len() == 6 && w[0] == 'S' && w[1] == 't' && w[2] == 'r' && w[3] == 'i' && w[4] == 'n' && w[5] == 'g' {
        Some(Token::StringId)
    } else if w.len() == 4 && w[0] == 'b' && w[1] == 'o' && w[2] == 'o' && w[3] == 'l' {
        Some(Token::BoolId)
    } else if w.len() == 5 && w[0] == 'c' && w[1] == 'o' && w[2] == 'n' && w[3] == 's' && w[4] == 't' {
        Some(Token::Const)
    } else if w.len() == 4 && w[0] == 'e' && w[1] == 'l' && w[2] == 's' && w[3] == 'e' {
        Some(Token::Else)
    } else if w.len() == 5 && w[0] == 'f' && w[1] == 'a' && w[2] == 'l' && w[3] == 's' && w[4] == 'e' {
        Some(Token::False)
    } else if w.len() == 2 && w[0] == 'f' && w[1] == 'n' {
        Some(Token::Function)
    } else if w.len() == 3 && w[0] == 'f' && w[1] == 'o' && w[2] == 'r' {
        Some(Token::For)
    } else if w.len() == 5 && w[0] == 'g' && w[1] == 'r' && w[2] == 'o' && w[3] == 'u' && w[4] == 'p' {
        Some(Token::Group)
    } else if w.len() == 2 && w[0] == 'i' && w[1] == 'f' {
        Some(Token::If)
    } else if w.len() == 2 && w[0] == 'i' && w[1] == 'n' {
        Some(Token::In)
    } else if w.len() == 3 && w[0] == 'l' && w[1] == 'e' && w[2] == 't' {
        Some(Token::Let)
    } else if w.len() == 3 && w[0] == 'm' && w[1] == 'u' && w[2] == 't' {
        Some(Token::Mut)
    } else if w.len() == 4 && w[0] == 'n' && w[1] == 'o' && w[2] == 'd' && w[3] == 'e' {
        Some(Token::Node)
    } else if w.len() == 5 && w[0] == 'p' && w[1] == 'r' && w[2] == 'i' && w[3] == 'n' && w[4] == 't' {
        Some(Token::Print)
    } else if w.len() == 6 && w[0] == 'r' && w[1] == 'e' && w[2] == 't' && w[3] == 'u' && w[4] == 'r' && w[5] == 'n' {
        Some(Token::Return)
    } else if w.len() == 4 && w[0] == 't' && w[1] == 'r' && w[2] == 'u' && w[3] == 'e' {
        Some(Token::True)
    } else if w.len() == 3 && w[0] == 'u' && w[1] == 's' && w[2] == 'e' {
        Some(Token::Use)
    } else if w.len() == 5 && w[0] == 'w' && w[1] == 'h' && w[2] == 'i' && w[3] == 'l' && w[4] == 'e' {
        Some(Token::While)
    } else {
        None
    }
}

/// The token that a two-character lexeme stands for.
pub open spec fn pair_token(c: char, d: char) -> Option<Token> {
    if c == '-' && d == '>' {
        Some(Token::Arrow)
    } else if c == '.' && d == '.' {
        Some(Token::Range)
    } else if c == '=' && d == '=' {
        Some(Token::Eq)
    } else if c == '>' && d == '=' {
        Some(Token::GtEq)
    } else if c == '<' && d == '=' {
        Some(Token::LtEq)
    } else if c == '!' && d == '=' {
        Some(Token::NotEq)
    } else if c == '&' && d == '&' {
        Some(Token::And)
    } else {
        None
    }
}

/// The token that a one-character lexeme stands for.
pub open spec fn single_token(c: char) -> Option<Token> {
    match c {
        '(' => Some(Token::LeftParen),
        ')' => Some(Token::RightParen),
        '{' => Some(Token::LeftBrace),
        '}' => Some(Token::RightBrace),
        '[' => Some(Token::LeftBracket),
        ']' => Some(Token::RightBracket),
        ':' => Some(Token::Colon),
        ';' => Some(Token::SemiColon),
        '+' => Some(Token::Plus),
        '-' => Some(Token::Minus),
        '*' => Some(Token::Star),
        '/' => Some(Token::Slash),
        '\\' => Some(Token::BackSlash),
        '%' => Some(Token::Percent),
        ',' => Some(Token::Comma),
        '.' => Some(Token::Dot),
        '_' => Some(Token::Underscore),
        '=' => Some(Token::Is),
        '|' => Some(Token::Pipe),
        '>' => Some(Token::Gt),
        '<' => Some(Token::Lt),
        '!' => Some(Token::Bang),
        '&' => Some(Token::Amp),
        _ => None,
    }
}

/// The character at `i`, if `s` has one.
pub open spec fn char_at(s: Seq<char>, i: int) -> Option<char> {
    if 0 <= i < s.len() {
        Some(s[i])
    } else {
        None
    }
}

/// Blank characters between tokens.
pub open spec fn blank(c: char) -> bool {
    c == ' ' || c == '\n' || c == '\r' || c == '\t'
}

/// The end of the run of ASCII digits in `s` that starts at `k`.
pub open spec fn digit_end(s: Seq<char>, k: int) -> int
    decreases s.len() - k,
{
    if k < 0 || k >= s.len() {
        k
    } else if ascii_digit(s[k]) {
        digit_end(s, k + 1)
    } else {
        k
    }
}

/// The value of an ASCII digit.
pub open spec fn digit_value(c: char) -> nat {
    (c as int - '0' as int) as nat
}

/// The value of a run of ASCII digits.
pub open spec fn digits_value(ds: Seq<char>) -> nat
    decreases ds.len(),
{
    if ds.len() == 0 {
        0
    } else {
        digits_value(ds.drop_last()) * 10 + digit_value(ds.last())
    }
}

/// A run of digits with its trailing zeros removed.
pub open spec fn trim_zeros(ds: Seq<char>) -> Seq<char>
    decreases ds.len(),
{
    if ds.len() > 0 && ds.last() == '0' {
        trim_zeros(ds.drop_last())
    } else {
        ds
    }
}

/// The decimal with integer digits `int_part` and fraction digits `frac`, if
/// its mantissa fits in 64 bits.
pub open spec fn decimal_of(int_part: Seq<char>, frac: Seq<char>) -> Option<Decimal> {
    let f = trim_zeros(frac);
    let m = digits_value(int_part + f);
    if m <= u64::MAX {
        Some(Decimal { mantissa: m as u64, scale: f.len() as usize })
    } else {
        None
    }
}

/// What the scanner does at one position outside a comment.
pub enum Step {
    /// Skip a blank.
    Skip,
    /// Produce a token and go on at the index given.
    Emit(TokenView, int),
    /// The rest of the line is a comment.
    LineComment,
    /// A multi-line comment starts here, with two characters.
    OpenComment,
    /// Fail, with the cursor position where the failure was found.
    Fail(ScanFault, int),
}

/// How a string literal's body, from index `j` on, ends: `escaped` tells
/// whether the character before `j` was an escaping backslash.
pub enum StringEnd {
    /// Closed by the quote at the index given, with this text.
    Closed(Seq<char>, int),
    /// The line ends first; whether it ends in an escape.
    Open(bool),
}

/// Scans a string literal's body: `\"` and `\\` stand for `"` and `\`, and a
/// backslash before any other character is dropped.
pub open spec fn string_end(s: Seq<char>, j: int, escaped: bool) -> StringEnd
    decreases s.len() - j,
{
    if j < 0 || j >= s.len() {
        StringEnd::Open(escaped)
    } else if s[j] == '"' && !escaped {
        StringEnd::Closed(seq![], j)
    } else if s[j] == '\\' && !escaped {
        string_end(s, j + 1, true)
    } else {
        match string_end(s, j + 1, false) {
            StringEnd::Closed(p, k) => StringEnd::Closed(seq![s[j]] + p, k),
            StringEnd::Open(e) => StringEnd::Open(e),
        }
    }
}

/// A string literal that starts with the quote at `i`.
pub open spec fn string_step(s: Seq<char>, i: int) -> Step {
    match string_end(s, i + 1, false) {
        StringEnd::Closed(p, k) => Step::Emit(TokenView::Str(p), k + 1),
        StringEnd::Open(e) => Step::Fail(
            if e {
                ScanFault::MalformedString
            } else {
                ScanFault::UnterminatedString
            },
            s.len() as int,
        ),
    }
}

/// A number literal with integer digits `s[i..a]` and fraction digits
/// `s[f..b]`, ending at `b`.
pub open spec fn number_token(s: Seq<char>, i: int, a: int, f: int, b: int) -> Step {
    match decimal_of(s.subrange(i, a), s.subrange(f, b)) {
        Some(d) => Step::Emit(TokenView::Plain(Token::Number(d)), b),
        None => Step::Fail(ScanFault::NumberParseError(s.subrange(i, b)), b - 1),
    }
}

/// A number literal that starts with the digit at `i`: digits, then a dot and
/// digits. A dot is part of the number only when a digit follows it; before a
/// second dot the number ends, for a range follows; before anything else it
/// is an error.
pub open spec fn number_step(s: Seq<char>, i: int) -> Step {
    let a = digit_end(s, i + 1);
    if char_at(s, a) == Some('.') {
        if char_at(s, a + 1) == Some('.') {
            number_token(s, i, a, a, a)
        } else if char_at(s, a + 1) matches Some(d) && ascii_digit(d) {
            number_token(s, i, a, a + 1, digit_end(s, a + 2))
        } else {
            Step::Fail(ScanFault::UnexpectedCharacter, a + 1)
        }
    } else {
        number_token(s, i, a, a, a)
    }
}

/// The token for a word: its keyword, or a name.
pub open spec fn word_view(w: Seq<char>) -> TokenView {
    match keyword(w) {
        Some(t) => TokenView::Plain(t),
        None => TokenView::Ident(w),
    }
}

/// What the scanner does at index `i` of `s`, outside a comment.
pub open spec fn step(s: Seq<char>, i: int) -> Step {
    let c = s[i];
    let n = char_at(s, i + 1);
    if blank(c) {
        Step::Skip
    } else if c == '/' && n == Some('/') {
        Step::LineComment
    } else if c == '/' && n == Some('*') {
        Step::OpenComment
    } else if n matches Some(d) && pair_token(c, d) is Some {
        Step::Emit(TokenView::Plain(pair_token(c, n->0)->0), i + 2)
    } else if single_token(c) is Some {
        Step::Emit(TokenView::Plain(single_token(c)->0), i + 1)
    } else if c == '"' {
        string_step(s, i)
    } else if ascii_digit(c) {
        number_step(s, i)
    } else if letter(c) {
        let e = word_end(s, i + 1);
        Step::Emit(word_view(s.subrange(i, e)), e)
    } else {
        Step::Fail(ScanFault::UnexpectedCharacter, i)
    }
}

/// The outcome of scanning a line.
pub enum Lexed {
    /// The tokens, and whether a multi-line comment is open at the end.
    Done(Seq<TokenView>, bool),
    /// A failure, and the index of the character where it was found.
    Failed(ScanFault, int),
}

/// The index of the character at cursor position `p`: at the end of the line,
/// that of the last character.
pub open spec fn char_index(s: Seq<char>, p: int) -> int {
    if p < s.len() {
        p
    } else if s.len() == 0 {
        0
    } else {
        s.len() - 1
    }
}

/// `ts` before the tokens of `l`.
pub open spec fn prepend(ts: Seq<TokenView>, l: Lexed) -> Lexed {
    match l {
        Lexed::Done(us, c) => Lexed::Done(ts + us, c),
        Lexed::Failed(f, k) => Lexed::Failed(f, k),
    }
}

/// Scans `s` from index `i` on; `comment` tells whether a multi-line comment
/// is open there. Every lexeme ends past `i` and within the line; the bounds
/// tested before going on say so for the termination of the definition.
pub open spec fn lex(s: Seq<char>, i: int, comment: bool) -> Lexed
    decreases s.len() - i,
{
    if i < 0 || i >= s.len() {
        Lexed::Done(seq![], comment)
    } else if comment {
        if s[i] == '*' && char_at(s, i + 1) == Some('/') {
            lex(s, i + 2, false)
        } else {
            lex(s, i + 1, true)
        }
    } else {
        match step(s, i) {
            Step::Skip => lex(s, i + 1, false),
            Step::LineComment => Lexed::Done(seq![], false),
            Step::OpenComment => if i + 2 <= s.len() {
                lex(s, i + 2, true)
            } else {
                Lexed::Done(seq![], true)
            },
            Step::Emit(t, j) => if i < j <= s.len() {
                prepend(seq![t], lex(s, j, false))
            } else {
                Lexed::Done(seq![], false)
            },
            Step::Fail(f, p) => Lexed::Failed(f, char_index(s, p)),
        }
    }
}

/// Scanning a punctuation lexeme alone, one or two characters, gives exactly
/// its token.
pub proof fn lemma_punctuation_alone(c: char, d: char)
    ensures
        pair_token(c, d) matches Some(t) ==> lex(seq![c, d], 0, false) == Lexed::Done(
            seq![TokenView::Plain(t)],
            false,
        ),
        single_token(c) matches Some(t) ==> lex(seq![c], 0, false) == Lexed::Done(
            seq![TokenView::Plain(t)],
            false,
        ),
{
    let two = seq![c, d];
    let one = seq![c];
    if let Some(t) = pair_token(c, d) {
        assert(step(two, 0) == Step::Emit(TokenView::Plain(t), 2));
        assert(lex(two, 2, false) == Lexed::Done(seq![], false));
        assert(seq![TokenView::Plain(t)] + seq![] =~= seq![TokenView::Plain(t)]);
    }
    if let Some(t) = single_token(c) {
        assert(step(one, 0) == Step::Emit(TokenView::Plain(t), 1));
        assert(lex(one, 1, false) == Lexed::Done(seq![], false));
        assert(seq![TokenView::Plain(t)] + seq![] =~= seq![TokenView::Plain(t)]);
    }
}

proof fn lemma_word_end_all(w: Seq<char>, k: int)
    requires
        0 <= k <= w.len(),
        forall|i: int| k <= i < w.len() ==> word_char(#[trigger] w[i]),
    ensures
        word_end(w, k) == w.len(),
    decreases w.len() - k,
{
    if k < w.len() {
        lemma_word_end_all(w, k + 1);
    }
}

/// A word alone on a line, a letter followed by letters, digits and
/// underscores, scans to one token: its keyword if it spells one, else a name
/// with exactly its text.
pub proof fn lemma_word_alone(w: Seq<char>)
    requires
        w.len() >= 1,
        letter(w[0]),
        forall|i: int| 1 <= i < w.len() ==> word_char(#[trigger] w[i]),
    ensures
        lex(w, 0, false) == Lexed::Done(seq![word_view(w)], false),
{
    lemma_word_end_all(w, 1);
    assert(w.subrange(0, w.len() as int) =~= w);
    assert(step(w, 0) == Step::Emit(word_view(w), w.len() as int));
    assert(lex(w, w.len() as int, false) == Lexed::Done(seq![], false));
    assert(seq![word_view(w)] + seq![] =~= seq![word_view(w)]);
}

/// Every word of the keyword table, alone on a line, scans to its keyword.
pub proof fn lemma_keyword_alone(w: Seq<char>)
    requires
        keyword(w) is Some,
    ensures
        lex(w, 0, false) == Lexed::Done(seq![TokenView::Plain(keyword(w)->0)], false),
{
    assert(ascii_letter(w[0]));
    assert forall|i: int| 1 <= i < w.len() implies word_char(#[trigger] w[i]) by {
        assert(ascii_letter(w[i]));
    }
    lemma_word_alone(w);
}

/// The text of a string literal's body for `p`: quotes and backslashes escaped
/// with a backslash.
pub open spec fn escape(p: Seq<char>) -> Seq<char>
    decreases p.len(),
{
    if p.len() == 0 {
        seq![]
    } else if p[0] == '"' || p[0] == '\\' {
        seq!['\\', p[0]] + escape(p.drop_first())
    } else {
        seq![p[0]] + escape(p.drop_first())
    }
}

proof fn lemma_escaped_body(s: Seq<char>, j: int, p: Seq<char>)
    requires
        0 <= j,
        j + escape(p).len() < s.len(),
        s.subrange(j, j + escape(p).len()) == escape(p),
    ensures
        s[j + escape(p).len()] == '"' ==> string_end(s, j, false) == StringEnd::Closed(
            p,
            j + escape(p).len(),
        ),
    decreases p.len(),
{
    let e = escape(p);
    if p.len() > 0 {
        let q = p.drop_first();
        let w = if p[0] == '"' || p[0] == '\\' { 2int } else { 1int };
        assert(e =~= (if w == 2 { seq!['\\', p[0]] } else { seq![p[0]] }) + escape(q));
        assert(s[j] == e[0]);
        if w == 2 {
            assert(s[j + 1] == e[1]);
        }
        assert(s.subrange(j + w, j + w + escape(q).len()) =~= escape(q)) by {
            assert forall|k: int| 0 <= k < escape(q).len() implies s.subrange(j + w, j + w + escape(q).len())[k]
                == escape(q)[k] by {
                assert(s[j + w + k] == e[w + k]);
            }
        }
        lemma_escaped_body(s, j + w, q);
        assert(j + w + escape(q).len() == j + e.len());
        if s[j + e.len()] == '"' {
            assert(seq![p[0]] + q =~= p);
            let k = j + e.len();
            if w == 2 {
                assert(string_end(s, j + 1, true) == StringEnd::Closed(seq![p[0]] + q, k));
                assert(string_end(s, j, false) == string_end(s, j + 1, true));
            } else {
                assert(string_end(s, j, false) == StringEnd::Closed(seq![p[0]] + q, k));
            }
        }
    } else {
        assert(p =~= seq![]);
        if s[j] == '"' {
            assert(string_end(s, j, false) == StringEnd::Closed(seq![], j));
        }
    }
}

proof fn lemma_escaped_open(s: Seq<char>, j: int, p: Seq<char>)
    requires
        0 <= j,
        j + escape(p).len() == s.len(),
        s.subrange(j, s.len() as int) == escape(p),
    ensures
        string_end(s, j, false) == StringEnd::Open(false),
    decreases p.len(),
{
    let e = escape(p);
    if p.len() > 0 {
        let q = p.drop_first();
        let w = if p[0] == '"' || p[0] == '\\' { 2int } else { 1int };
        assert(e =~= (if w == 2 { seq!['\\', p[0]] } else { seq![p[0]] }) + escape(q));
        assert(s[j] == e[0]);
        if w == 2 {
            assert(s[j + 1] == e[1]);
        }
        assert(s.subrange(j + w, s.len() as int) =~= escape(q)) by {
            assert forall|k: int| 0 <= k < escape(q).len() implies s.subrange(j + w, s.len() as int)[k]
                == escape(q)[k] by {
                assert(s[j + w + k] == e[w + k]);
            }
        }
        lemma_escaped_open(s, j + w, q);
        if w == 2 {
            assert(string_end(s, j + 1, true) == StringEnd::Open(false));
            assert(string_end(s, j, false) == string_end(s, j + 1, true));
        } else {
            assert(string_end(s, j, false) == StringEnd::Open(false));
        }
    }
}

/// A string literal whose body escapes quotes and backslashes scans to one
/// string token holding the text with the escapes resolved.
pub proof fn lemma_string_alone(p: Seq<char>)
    ensures
        lex(seq!['"'] + escape(p) + seq!['"'], 0, false) == Lexed::Done(seq![TokenView::Str(p)], false),
{
    let s = seq!['"'] + escape(p) + seq!['"'];
    let n = escape(p).len() as int;
    assert(s.subrange(1, 1 + n) =~= escape(p));
    lemma_escaped_body(s, 1, p);
    assert(s[1 + n] == '"');
    assert(step(s, 0) == Step::Emit(TokenView::Str(p), n + 2));
    assert(lex(s, n + 2, false) == Lexed::Done(seq![], false));
    assert(seq![TokenView::Str(p)] + seq![] =~= seq![TokenView::Str(p)]);
}

/// A quote followed by such a body and no closing quote is an unterminated
/// string, reported at the last character of the line.
pub proof fn lemma_string_unterminated(p: Seq<char>)
    ensures
        lex(seq!['"'] + escape(p), 0, false) == Lexed::Failed(
            ScanFault::UnterminatedString,
            escape(p).len() as int,
        ),
{
    let s = seq!['"'] + escape(p);
    assert(s.subrange(1, s.len() as int) =~= escape(p));
    lemma_escaped_open(s, 1, p);
    assert(step(s, 0) == Step::Fail(ScanFault::UnterminatedString, s.len() as int));
}

} // verus!
