//! A cursor over the characters of one line, with lookahead.
use vstd::prelude::*;
use crate::text::{alnum_char, chars_of, is_alphanumeric, letter, push_char, word_char};

verus! {

/// The end of the maximal run of word characters in `s` that starts at `i`.
pub open spec fn word_end(s: Seq<char>, i: int) -> int
    decreases s.len() - i,
{
    if i >= s.len() || i < 0 {
        i
    } else if word_char(s[i]) {
        word_end(s, i + 1)
    } else {
        i
    }
}

/// The run of word characters that starts at `i` ends within the line, holds
/// word characters only, and stops before one that is not.
pub proof fn lemma_word_end(s: Seq<char>, i: int)
    requires
        0 <= i <= s.len(),
    ensures
        i <= word_end(s, i) <= s.len(),
        forall|j: int| i <= j < word_end(s, i) ==> word_char(#[trigger] s[j]),
        word_end(s, i) < s.len() ==> !word_char(s[word_end(s, i)]),
    decreases s.len() - i,
{
    if i < s.len() && word_char(s[i]) {
        lemma_word_end(s, i + 1);
    }
}

/// A cursor over the characters of one line. It points at a character, or
/// past the last one (the end of the line, EOL); moving on at EOL stays there.
#[derive(Debug)]
pub struct Cursor {
    chars: Vec<char>,
    pos: usize,
}

impl Cursor {
    /// The characters of the line.
    pub closed spec fn line(&self) -> Seq<char> {
        self.chars@
    }

    /// The position pointed at; the length of the line at EOL.
    pub closed spec fn pos(&self) -> int {
        self.pos as int
    }

    pub closed spec fn inv(&self) -> bool {
        self.pos <= self.chars@.len()
    }

    /// A position within the line or at its end.
    pub open spec fn wf(&self) -> bool {
        &&& self.inv()
        &&& 0 <= self.pos() <= self.line().len()
    }

    /// The character `n` places ahead of the position, if the line has one.
    pub open spec fn at(&self, n: int) -> Option<char> {
        if self.pos() + n < self.line().len() {
            Some(self.line()[self.pos() + n])
        } else {
            None
        }
    }

    /// The character index reported for the position: at EOL, that of the
    /// last character.
    pub open spec fn spec_index(&self) -> int {
        if self.pos() < self.line().len() {
            self.pos()
        } else if self.line().len() == 0 {
            0
        } else {
            self.line().len() - 1
        }
    }

    /// A cursor at the first character of `line`.
    pub fn new(line: &str) -> (r: Cursor)
        ensures
            r.wf(),
            r.line() == line@,
            r.pos() == 0,
    {
        Cursor { chars: chars_of(line), pos: 0 }
    }

    /// The character pointed at, `None` at EOL.
    pub fn value(&self) -> (r: Option<char>)
        requires
            self.wf(),
        ensures
            r == self.at(0),
    {
        if self.pos < self.chars.len() {
            Some(self.chars[self.pos])
        } else {
            None
        }
    }

    /// Moves one character on.
    pub fn advance(&mut self)
        requires
            old(self).wf(),
        ensures
            final(self).wf(),
            final(self).line() == old(self).line(),
            final(self).pos() == if old(self).pos() < old(self).line().len() {
                old(self).pos() + 1
            } else {
                old(self).pos()
            },
    {
        if self.pos < self.chars.len() {
            self.pos = self.pos + 1;
        }
    }

    /// Moves `n` characters on, stopping at EOL; `advance_by(0)` does nothing.
    pub fn advance_by(&mut self, n: usize)
        requires
            old(self).wf(),
        ensures
            final(self).wf(),
            final(self).line() == old(self).line(),
            final(self).pos() == if old(self).pos() + n < old(self).line().len() {
                old(self).pos() + n
            } else {
                old(self).line().len() as int
            },
    {
        let len = self.chars.len();
        if n < len - self.pos {
            self.pos = self.pos + n;
        } else {
            self.pos = len;
        }
    }

    /// The character after the one pointed at.
    pub fn peek(&self) -> (r: Option<char>)
        requires
            self.wf(),
        ensures
            r == self.at(1),
    {
        self.peek_nth(1)
    }

    /// The character `n` places ahead; `peek_nth(0)` is `value()`.
    pub fn peek_nth(&self, n: usize) -> (r: Option<char>)
        requires
            self.wf(),
        ensures
            r == self.at(n as int),
    {
        if n < self.chars.len() - self.pos {
            Some(self.chars[self.pos + n])
        } else {
            None
        }
    }

    /// The run of characters that starts at the position: the character
    /// pointed at, then those after it as long as `predicate` holds. `None` at
    /// EOL. Nothing is consumed.
    pub fn peek_while<F: Fn(char) -> bool>(&self, predicate: F) -> (r: Option<String>)
        requires
            self.wf(),
            forall|c: char| predicate.requires((c,)),
        ensures
            self.pos() == self.line().len() <==> r is None,
            r matches Some(s) ==> {
                let end = self.pos() + s@.len();
                &&& s@.len() >= 1
                &&& end <= self.line().len()
                &&& s@ == self.line().subrange(self.pos(), end)
                &&& forall|j: int|
                    self.pos() < j < end ==> predicate.ensures((#[trigger] self.line()[j],), true)
                &&& end < self.line().len() ==> predicate.ensures((self.line()[end],), false)
            },
    {
        if self.pos >= self.chars.len() {
            return None;
        }
        let mut result = String::new();
        push_char(&mut result, self.chars[self.pos]);
        let mut i = self.pos + 1;
        while i < self.chars.len()
            invariant
                self.wf(),
                forall|c: char| predicate.requires((c,)),
                self.pos < i <= self.chars@.len(),
                result@ == self.chars@.subrange(self.pos as int, i as int),
                forall|j: int| self.pos < j < i ==> predicate.ensures((#[trigger] self.chars@[j],), true),
            ensures
                self.pos < i <= self.chars@.len(),
                result@ == self.chars@.subrange(self.pos as int, i as int),
                forall|j: int| self.pos < j < i ==> predicate.ensures((#[trigger] self.chars@[j],), true),
                i < self.chars@.len() ==> predicate.ensures((self.chars@[i as int],), false),
            decreases self.chars@.len() - i,
        {
            let c = self.chars[i];
            if !predicate(c) {
                break;
            }
            push_char(&mut result, c);
            i = i + 1;
        }
        Some(result)
    }

    /// The word that starts at the position: the character pointed at, if it
    /// is alphanumeric, then the alphanumeric characters and underscores after
    /// it. `None` at EOL or before any other character.
    pub fn peek_word(&self) -> (r: Option<String>)
        requires
            self.wf(),
        ensures
            r is Some <==> (self.at(0) matches Some(ch) && alnum_char(ch)),
            self.at(0) matches Some(ch) ==> (letter(ch) ==> alnum_char(ch)),
            r matches Some(s) ==> s@ == self.line().subrange(
                self.pos(),
                word_end(self.line(), self.pos() + 1),
            ),
    {
        if self.pos >= self.chars.len() {
            return None;
        }
        if !is_alphanumeric(self.chars[self.pos]) {
            return None;
        }
        let mut result = String::new();
        push_char(&mut result, self.chars[self.pos]);
        let mut i = self.pos + 1;
        while i < self.chars.len()
            invariant
                self.wf(),
                self.pos < i <= self.chars@.len(),
                result@ == self.chars@.subrange(self.pos as int, i as int),
                word_end(self.chars@, self.pos + 1) == word_end(self.chars@, i as int),
            ensures
                self.pos < i <= self.chars@.len(),
                result@ == self.chars@.subrange(self.pos as int, i as int),
                word_end(self.chars@, self.pos + 1) == i,
            decreases self.chars@.len() - i,
        {
            let c = self.chars[i];
            if !(is_alphanumeric(c) || c == '_') {
                assert(word_end(self.chars@, i as int) == i);
                break;
            }
            assert(word_end(self.chars@, i as int) == word_end(self.chars@, i + 1));
            push_char(&mut result, c);
            i = i + 1;
        }
        Some(result)
    }

    /// The character index of the position; at EOL, that of the last character.
    pub fn index(&self) -> (r: usize)
        requires
            self.wf(),
        ensures
            r == self.spec_index(),
    {
        if self.pos < self.chars.len() {
            self.pos
        } else if self.chars.len() == 0 {
            0
        } else {
            self.chars.len() - 1
        }
    }

    /// Whether the cursor is at the end of the line.
    pub fn eol(&self) -> (r: bool)
        requires
            self.wf(),
        ensures
            r == (self.pos() == self.line().len()),
    {
        self.pos >= self.chars.len()
    }
}

} // verus!
