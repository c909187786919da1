//! Lexical errors.
use vstd::prelude::*;
use crate::cursor::Cursor;
use crate::source_line::SourceLine;
use crate::text::{decimal_digits, push_spaces, spaces, u64_text};

verus! {

/// What went wrong while scanning a line.
#[derive(Clone, Debug, PartialEq)]
pub enum ScanErrorKind {
    /// A string literal that ends in a dangling escape.
    MalformedString,
    /// A number literal whose value does not fit; it carries the literal.
    NumberParseError(String),
    /// No word where one was expected.
    WordParseError,
    /// A character that starts no token.
    UnexpectedCharacter,
    /// A string literal without its closing quote.
    UnterminatedString,
}

/// A scan error kind as a value.
pub enum ScanFault {
    MalformedString,
    NumberParseError(Seq<char>),
    WordParseError,
    UnexpectedCharacter,
    UnterminatedString,
}

/// The message for a scan error kind.
pub open spec fn fault_message(f: ScanFault) -> Seq<char> {
    match f {
        ScanFault::MalformedString => "malformed string literal"@,
        ScanFault::NumberParseError(t) => "failed to parse number '"@ + t + "'"@,
        ScanFault::WordParseError => "failed to parse word"@,
        ScanFault::UnexpectedCharacter => "unexpected character"@,
        ScanFault::UnterminatedString => "unterminated string"@,
    }
}

impl ScanErrorKind {
    /// The message that describes the error.
    pub fn message(&self) -> (r: String)
        ensures
            r@ == fault_message(self@),
    {
        match self {
            ScanErrorKind::MalformedString => "malformed string literal".to_owned(),
            ScanErrorKind::NumberParseError(t) => {
                let mut m = "failed to parse number '".to_owned();
                m.append(t.as_str());
                m.append("'");
                m
            },
            ScanErrorKind::WordParseError => "failed to parse word".to_owned(),
            ScanErrorKind::UnexpectedCharacter => "unexpected character".to_owned(),
            ScanErrorKind::UnterminatedString => "unterminated string".to_owned(),
        }
    }
}

impl View for ScanErrorKind {
    type V = ScanFault;

    open spec fn view(&self) -> ScanFault {
        match self {
            ScanErrorKind::MalformedString => ScanFault::MalformedString,
            ScanErrorKind::NumberParseError(s) => ScanFault::NumberParseError(s@),
            ScanErrorKind::WordParseError => ScanFault::WordParseError,
            ScanErrorKind::UnexpectedCharacter => ScanFault::UnexpectedCharacter,
            ScanErrorKind::UnterminatedString => ScanFault::UnterminatedString,
        }
    }
}

/// A lexical error: the line, what went wrong, and the index of the
/// character where it was found.
#[derive(Clone, Debug)]
pub struct ScanError {
    line: SourceLine,
    kind: ScanErrorKind,
    char_index: usize,
}

impl ScanError {
    pub closed spec fn spec_line(&self) -> SourceLine {
        self.line
    }

    pub closed spec fn spec_kind(&self) -> ScanErrorKind {
        self.kind
    }

    pub closed spec fn spec_char_index(&self) -> int {
        self.char_index as int
    }

    /// An error of `kind` on `line`, at the character the cursor reports.
    pub fn new(line: SourceLine, kind: ScanErrorKind, cursor: &Cursor) -> (r: ScanError)
        requires
            cursor.wf(),
        ensures
            r.spec_line() == line,
            r.spec_kind() == kind,
            r.spec_char_index() == cursor.spec_index(),
    {
        ScanError { line, kind, char_index: cursor.index() }
    }

    /// The diagnostic text: the line with its number, a caret under the
    /// character where the error was found, and the message.
    pub open spec fn spec_render(&self) -> Seq<char> {
        let num = match self.spec_line().number {
            Some(n) => decimal_digits(n as u64 as nat),
            None => seq![],
        };
        let fill = spaces(num.len() + 2);
        fill + "|\n "@ + num + " | "@ + self.spec_line().line@ + "\n"@ + fill + "| "@ + spaces(
            self.spec_char_index() as nat,
        ) + "^\n"@ + fill + "| error: "@ + fault_message(self.spec_kind()@) + "\n"@ + fill + "|"@
    }

    /// Renders the error for a reader, as `spec_render` describes.
    pub fn render(&self) -> (r: String)
        ensures
            r@ == self.spec_render(),
    {
        let num = match self.line.number {
            Some(n) => u64_text(n as u64),
            None => String::new(),
        };
        let width = num.unicode_len();
        assert(spaces(width as nat) + spaces(2) =~= spaces(num@.len() + 2));
        let mut r = String::new();
        push_spaces(&mut r, width);
        push_spaces(&mut r, 2);
        r.append("|\n ");
        r.append(num.as_str());
        r.append(" | ");
        r.append(self.line.line.as_str());
        r.append("\n");
        push_spaces(&mut r, width);
        push_spaces(&mut r, 2);
        r.append("| ");
        push_spaces(&mut r, self.char_index);
        r.append("^\n");
        push_spaces(&mut r, width);
        push_spaces(&mut r, 2);
        r.append("| error: ");
        let m = self.kind.message();
        r.append(m.as_str());
        r.append("\n");
        push_spaces(&mut r, width);
        push_spaces(&mut r, 2);
        r.append("|");
        r
    }

    /// The line the error was found on.
    pub fn line(&self) -> (r: &SourceLine)
        ensures
            *r == self.spec_line(),
    {
        &self.line
    }

    /// What went wrong.
    pub fn kind(&self) -> (r: &ScanErrorKind)
        ensures
            *r == self.spec_kind(),
    {
        &self.kind
    }

    /// The index of the character where it went wrong.
    pub fn char_index(&self) -> (r: usize)
        ensures
            r == self.spec_char_index(),
    {
        self.char_index
    }
}

} // verus!
