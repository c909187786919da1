//! The lexical tokens of Nexus.
use vstd::prelude::*;

verus! {

/// A decimal number `mantissa / 10^scale`, kept in lowest terms: a non-zero
/// scale never leaves a trailing zero in the mantissa, so two literals of
/// the same value are equal.
#[derive(Clone, Copy, Debug, PartialEq, Eq, Structural)]
pub struct Decimal {
    pub mantissa: u64,
    pub scale: usize,
}

impl Decimal {
    /// Lowest terms.
    pub open spec fn wf(&self) -> bool {
        self.scale == 0 || self.mantissa % 10 != 0
    }

    /// The decimal `mantissa / 10^scale`, brought to lowest terms.
    pub fn new(mantissa: u64, scale: usize) -> (r: Decimal)
        ensures
            r.wf(),
            r.mantissa * pow10(scale as nat) == mantissa * pow10(r.scale as nat),
            r.scale <= scale,
    {
        let mut m = mantissa;
        let mut s = scale;
        while s > 0 && m % 10 == 0
            invariant
                s <= scale,
                m * pow10(scale as nat) == mantissa * pow10(s as nat),
            decreases s,
        {
            proof {
                lemma_pow10_succ((s - 1) as nat);
                lemma_pow10_succ((scale - 1) as nat);
            }
            assert(m * pow10(scale as nat) == mantissa * pow10(s as nat));
            let ghost old_m = m;
            m = m / 10;
            s = s - 1;
            assert(old_m == m * 10);
            assert(pow10((s + 1) as nat) == 10 * pow10(s as nat));
            assert(old_m * pow10(scale as nat) == (m * pow10(scale as nat)) * 10) by (nonlinear_arith)
                requires old_m == m * 10;
            assert(mantissa * pow10((s + 1) as nat) == (mantissa * pow10(s as nat)) * 10) by (nonlinear_arith)
                requires pow10((s + 1) as nat) == 10 * pow10(s as nat);
        }
        Decimal { mantissa: m, scale: s }
    }
}


/// A lexical token. Tokens carry no position.
#[derive(Clone, Debug, PartialEq)]
pub enum Token {
    /// '('
    LeftParen,
    /// ')'
    RightParen,
    /// '{'
    LeftBrace,
    /// '}'
    RightBrace,
    /// '['
    LeftBracket,
    /// ']'
    RightBracket,
    /// ':'
    Colon,
    /// ';'
    SemiColon,
    /// '&'
    Amp,
    /// '+'
    Plus,
    /// '-'
    Minus,
    /// '->'
    Arrow,
    /// '*'
    Star,
    /// '/'
    Slash,
    /// '\\'
    BackSlash,
    /// '%'
    Percent,
    /// ','
    Comma,
    /// '.'
    Dot,
    /// '..'
    Range,
    /// '_'
    Underscore,
    /// '='
    Is,
    /// '=='
    Eq,
    /// '>'
    Gt,
    /// '>='
    GtEq,
    /// '<'
    Lt,
    /// '<='
    LtEq,
    /// '!'
    Bang,
    /// '!='
    NotEq,
    /// '&&'
    And,
    /// '||'
    Or,
    /// '||' (a closure without parameters)
    EmptyClosure,
    /// '|'
    Pipe,
    /// 'true'
    True,
    /// 'false'
    False,
    /// 'const'
    Const,
    /// 'let'
    Let,
    /// 'mut'
    Mut,
    /// 'fn'
    Function,
    /// 'if'
    If,
    /// 'else'
    Else,
    /// 'for'
    For,
    /// 'in'
    In,
    /// 'while'
    While,
    /// 'return'
    Return,
    /// 'use'
    Use,
    /// 'print'
    Print,
    /// 'node'
    Node,
    /// 'group'
    Group,
    /// 'bool'
    BoolId,
    /// 'Number'
    NumberId,
    /// 'String'
    StringId,
    /// 'Node'
    NodeId,
    /// 'Group'
    GroupId,
    /// A number literal.
    Number(Decimal),
    /// A name that is not a keyword.
    Identifier(String),
    /// A string literal, escapes resolved.
    String(String),
}

/// A sequence of tokens.
pub type Tokens = Vec<Token>;

/// A token as a value: the text of a name or of a string literal as characters.
pub enum TokenView {
    /// A token without text.
    Plain(Token),
    /// `Token::Identifier`.
    Ident(Seq<char>),
    /// `Token::String`.
    Str(Seq<char>),
}

impl View for Token {
    type V = TokenView;

    open spec fn view(&self) -> TokenView {
        match self {
            Token::Identifier(s) => TokenView::Ident(s@),
            Token::String(s) => TokenView::Str(s@),
            _ => TokenView::Plain(*self),
        }
    }
}

/// The views of a sequence of tokens.
pub open spec fn views(ts: Seq<Token>) -> Seq<TokenView> {
    ts.map_values(|t: Token| t@)
}

impl Token {
    /// Equality of tokens by value: payloads are compared by their contents.
    pub open spec fn same(&self, o: &Token) -> bool {
        self@ == o@
    }

    /// Compares two tokens by value.
    pub fn same_as(&self, o: &Token) -> (r: bool)
        ensures
            r == self.same(o),
    {
        match (self, o) {
            (Token::Number(a), Token::Number(b)) => *a == *b,
            (Token::Identifier(a), Token::Identifier(b)) => *a == *b,
            (Token::String(a), Token::String(b)) => *a == *b,
            (Token::LeftParen, Token::LeftParen) => true,
            (Token::RightParen, Token::RightParen) => true,
            (Token::LeftBrace, Token::LeftBrace) => true,
            (Token::RightBrace, Token::RightBrace) => true,
            (Token::LeftBracket, Token::LeftBracket) => true,
            (Token::RightBracket, Token::RightBracket) => true,
            (Token::Colon, Token::Colon) => true,
            (Token::SemiColon, Token::SemiColon) => true,
            (Token::Amp, Token::Amp) => true,
            (Token::Plus, Token::Plus) => true,
            (Token::Minus, Token::Minus) => true,
            (Token::Arrow, Token::Arrow) => true,
            (Token::Star, Token::Star) => true,
            (Token::Slash, Token::Slash) => true,
            (Token::BackSlash, Token::BackSlash) => true,
            (Token::Percent, Token::Percent) => true,
            (Token::Comma, Token::Comma) => true,
            (Token::Dot, Token::Dot) => true,
            (Token::Range, Token::Range) => true,
            (Token::Underscore, Token::Underscore) => true,
            (Token::Is, Token::Is) => true,
            (Token::Eq, Token::Eq) => true,
            (Token::Gt, Token::Gt) => true,
            (Token::GtEq, Token::GtEq) => true,
            (Token::Lt, Token::Lt) => true,
            (Token::LtEq, Token::LtEq) => true,
            (Token::Bang, Token::Bang) => true,
            (Token::NotEq, Token::NotEq) => true,
            (Token::And, Token::And) => true,
            (Token::Or, Token::Or) => true,
            (Token::EmptyClosure, Token::EmptyClosure) => true,
            (Token::Pipe, Token::Pipe) => true,
            (Token::True, Token::True) => true,
            (Token::False, Token::False) => true,
            (Token::Const, Token::Const) => true,
            (Token::Let, Token::Let) => true,
            (Token::Mut, Token::Mut) => true,
            (Token::Function, Token::Function) => true,
            (Token::If, Token::If) => true,
            (Token::Else, Token::Else) => true,
            (Token::For, Token::For) => true,
            (Token::In, Token::In) => true,
            (Token::While, Token::While) => true,
            (Token::Return, Token::Return) => true,
            (Token::Use, Token::Use) => true,
            (Token::Print, Token::Print) => true,
            (Token::Node, Token::Node) => true,
            (Token::Group, Token::Group) => true,
            (Token::BoolId, Token::BoolId) => true,
            (Token::NumberId, Token::NumberId) => true,
            (Token::StringId, Token::StringId) => true,
            (Token::NodeId, Token::NodeId) => true,
            (Token::GroupId, Token::GroupId) => true,
            _ => false,
        }
    }

    /// A copy of the token.
    pub fn copy(&self) -> (r: Token)
        ensures
            r.same(self),
    {
        match self {
            Token::Number(n) => Token::Number(*n),
            Token::Identifier(s) => Token::Identifier(s.clone()),
            Token::String(s) => Token::String(s.clone()),
            Token::LeftParen => Token::LeftParen,
            Token::RightParen => Token::RightParen,
            Token::LeftBrace => Token::LeftBrace,
            Token::RightBrace => Token::RightBrace,
            Token::LeftBracket => Token::LeftBracket,
            Token::RightBracket => Token::RightBracket,
            Token::Colon => Token::Colon,
            Token::SemiColon => Token::SemiColon,
            Token::Amp => Token::Amp,
            Token::Plus => Token::Plus,
            Token::Minus => Token::Minus,
            Token::Arrow => Token::Arrow,
            Token::Star => Token::Star,
            Token::Slash => Token::Slash,
            Token::BackSlash => Token::BackSlash,
            Token::Percent => Token::Percent,
            Token::Comma => Token::Comma,
            Token::Dot => Token::Dot,
            Token::Range => Token::Range,
            Token::Underscore => Token::Underscore,
            Token::Is => Token::Is,
            Token::Eq => Token::Eq,
            Token::Gt => Token::Gt,
            Token::GtEq => Token::GtEq,
            Token::Lt => Token::Lt,
            Token::LtEq => Token::LtEq,
            Token::Bang => Token::Bang,
            Token::NotEq => Token::NotEq,
            Token::And => Token::And,
            Token::Or => Token::Or,
            Token::EmptyClosure => Token::EmptyClosure,
            Token::Pipe => Token::Pipe,
            Token::True => Token::True,
            Token::False => Token::False,
            Token::Const => Token::Const,
            Token::Let => Token::Let,
            Token::Mut => Token::Mut,
            Token::Function => Token::Function,
            Token::If => Token::If,
            Token::Else => Token::Else,
            Token::For => Token::For,
            Token::In => Token::In,
            Token::While => Token::While,
            Token::Return => Token::Return,
            Token::Use => Token::Use,
            Token::Print => Token::Print,
            Token::Node => Token::Node,
            Token::Group => Token::Group,
            Token::BoolId => Token::BoolId,
            Token::NumberId => Token::NumberId,
            Token::StringId => Token::StringId,
            Token::NodeId => Token::NodeId,
            Token::GroupId => Token::GroupId,
        }
    }
}

/// `10^n`.
pub open spec fn pow10(n: nat) -> nat
    decreases n,
{
    if n == 0 {
        1
    } else {
        10 * pow10((n - 1) as nat)
    }
}

proof fn lemma_pow10_succ(n: nat)
    ensures
        pow10(n + 1) == 10 * pow10(n),
{
}

} // verus!
