//! A cursor over a finished sequence of tokens, with one token of lookahead.
use vstd::prelude::*;
use crate::parse_error::{ParseError, ParseErrorKind, ParseResult};
use crate::token::{Token, TokenView, Tokens};

verus! {

/// A cursor over tokens: it points at the current token, or past the last
/// one (the end of the stream, EOS).
#[derive(Debug)]
pub struct TokenCursor {
    tokens: Vec<Token>,
    pos: usize,
}

impl TokenCursor {
    /// All the tokens, consumed or not.
    pub closed spec fn tokens(&self) -> Seq<Token> {
        self.tokens@
    }

    /// The index of the current token; the number of tokens at EOS.
    pub closed spec fn pos(&self) -> int {
        self.pos as int
    }

    pub closed spec fn inv(&self) -> bool {
        self.pos <= self.tokens@.len()
    }

    /// A position within the tokens or at their end.
    pub open spec fn wf(&self) -> bool {
        &&& self.inv()
        &&& 0 <= self.pos() <= self.tokens().len()
    }

    /// The view of the token `n` places ahead, if there is one.
    pub open spec fn ahead(&self, n: int) -> Option<TokenView> {
        if self.pos() + n < self.tokens().len() {
            Some(self.tokens()[self.pos() + n]@)
        } else {
            None
        }
    }

    /// The tokens not consumed yet.
    pub open spec fn remaining(&self) -> int {
        self.tokens().len() - self.pos()
    }

    /// A cursor at the first of `tokens`.
    pub fn new(tokens: Tokens) -> (r: TokenCursor)
        ensures
            r.wf(),
            r.tokens() == tokens@,
            r.pos() == 0,
    {
        TokenCursor { tokens, pos: 0 }
    }

    /// The current token, consumed.
    pub fn value(&mut self) -> (r: Option<Token>)
        requires
            old(self).wf(),
        ensures
            final(self).wf(),
            final(self).tokens() == old(self).tokens(),
            r is None <==> old(self).ahead(0) is None,
            r matches Some(t) ==> Some(t@) == old(self).ahead(0),
            final(self).pos() == if old(self).ahead(0) is Some {
                old(self).pos() + 1
            } else {
                old(self).pos()
            },
    {
        if self.pos < self.tokens.len() {
            let t = self.tokens[self.pos].copy();
            self.pos = self.pos + 1;
            Some(t)
        } else {
            None
        }
    }

    /// The current token, not consumed.
    pub fn peek(&self) -> (r: Option<Token>)
        requires
            self.wf(),
        ensures
            r is None <==> self.ahead(0) is None,
            r matches Some(t) ==> Some(t@) == self.ahead(0),
    {
        if self.pos < self.tokens.len() {
            Some(self.tokens[self.pos].copy())
        } else {
            None
        }
    }

    /// The token after the current one, not consumed.
    pub fn peek_next(&self) -> (r: Option<Token>)
        requires
            self.wf(),
        ensures
            r is None <==> self.ahead(1) is None,
            r matches Some(t) ==> Some(t@) == self.ahead(1),
    {
        if 1 < self.tokens.len() - self.pos {
            Some(self.tokens[self.pos + 1].copy())
        } else {
            None
        }
    }

    /// Moves one token on.
    pub fn advance(&mut self)
        requires
            old(self).wf(),
        ensures
            final(self).wf(),
            final(self).tokens() == old(self).tokens(),
            final(self).pos() == if old(self).ahead(0) is Some {
                old(self).pos() + 1
            } else {
                old(self).pos()
            },
    {
        if self.pos < self.tokens.len() {
            self.pos = self.pos + 1;
        }
    }

    /// Moves one token on if the current token is `match_token`, and tells
    /// whether it did.
    pub fn advance_if(&mut self, match_token: Token) -> (r: bool)
        requires
            old(self).wf(),
        ensures
            final(self).wf(),
            final(self).tokens() == old(self).tokens(),
            r == (old(self).ahead(0) == Some(match_token@)),
            final(self).pos() == if r {
                old(self).pos() + 1
            } else {
                old(self).pos()
            },
    {
        if self.pos < self.tokens.len() && self.tokens[self.pos].same_as(&match_token) {
            self.pos = self.pos + 1;
            true
        } else {
            false
        }
    }

    /// Consumes the current token if it is `expected`, else fails with
    /// `Expected(expected)` and consumes nothing.
    pub fn consume(&mut self, expected: Token) -> (r: ParseResult<()>)
        requires
            old(self).wf(),
        ensures
            final(self).wf(),
            final(self).tokens() == old(self).tokens(),
            (r is Ok) == (old(self).ahead(0) == Some(expected@)),
            r is Ok ==> final(self).pos() == old(self).pos() + 1,
            r matches Err(e) ==> e.kind == ParseErrorKind::Expected(expected) && final(self).pos()
                == old(self).pos(),
    {
        if self.pos < self.tokens.len() && self.tokens[self.pos].same_as(&expected) {
            self.pos = self.pos + 1;
            Ok(())
        } else {
            Err(ParseError::new(ParseErrorKind::Expected(expected)))
        }
    }

    /// Consumes the current token if it is `expected`, else fails with
    /// `ExpectedReason(expected, reason)` and consumes nothing.
    pub fn consume_msg(&mut self, expected: Token, reason: &str) -> (r: ParseResult<()>)
        requires
            old(self).wf(),
        ensures
            final(self).wf(),
            final(self).tokens() == old(self).tokens(),
            (r is Ok) == (old(self).ahead(0) == Some(expected@)),
            r is Ok ==> final(self).pos() == old(self).pos() + 1,
            r matches Err(e) ==> e.kind matches ParseErrorKind::ExpectedReason(t, m) && t == expected
                && m@ == reason@ && final(self).pos() == old(self).pos(),
    {
        if self.pos < self.tokens.len() && self.tokens[self.pos].same_as(&expected) {
            self.pos = self.pos + 1;
            Ok(())
        } else {
            Err(ParseError::new(ParseErrorKind::ExpectedReason(expected, reason.to_owned())))
        }
    }

    /// Whether the cursor is at the end of the stream.
    pub fn eos(&self) -> (r: bool)
        requires
            self.wf(),
        ensures
            r == (self.ahead(0) is None),
    {
        self.pos >= self.tokens.len()
    }
}

} // verus!
