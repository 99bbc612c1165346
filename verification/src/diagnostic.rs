//! What the lexer reports: coded diagnostics, and the sink that collects them.

use crate::span::Span;
use vstd::prelude::*;
use vstd::string::StringExecFns;

verus! {

/// The stable short codes of the lexer's diagnostics.
#[derive(Clone, Copy, Debug, PartialEq, Eq, Hash, Structural)]
pub enum ErrorCode {
    /// The end of a multi-line comment with no beginning.
    E0001,
    /// The beginning of a multi-line comment with no end.
    E0002,
    /// A character that starts no token.
    E0003,
    /// A hexadecimal escape with no digits.
    E0004,
    /// A hexadecimal escape with a character that is no hexadecimal digit.
    E0005,
    /// An escape sequence that is not known.
    E0006,
    /// An escape sequence cut short by the end of the input.
    E0007,
    /// An escape sequence cut short by white space.
    E0008,
    /// A hexadecimal escape with one digit only.
    E0009,
}

impl ErrorCode {
    /// The code as it is written.
    pub open spec fn name(self) -> Seq<char> {
        match self {
            ErrorCode::E0001 => "E0001"@,
            ErrorCode::E0002 => "E0002"@,
            ErrorCode::E0003 => "E0003"@,
            ErrorCode::E0004 => "E0004"@,
            ErrorCode::E0005 => "E0005"@,
            ErrorCode::E0006 => "E0006"@,
            ErrorCode::E0007 => "E0007"@,
            ErrorCode::E0008 => "E0008"@,
            ErrorCode::E0009 => "E0009"@,
        }
    }

    pub fn as_str(self) -> (s: &'static str)
        ensures
            s@ == self.name(),
    {
        match self {
            ErrorCode::E0001 => "E0001",
            ErrorCode::E0002 => "E0002",
            ErrorCode::E0003 => "E0003",
            ErrorCode::E0004 => "E0004",
            ErrorCode::E0005 => "E0005",
            ErrorCode::E0006 => "E0006",
            ErrorCode::E0007 => "E0007",
            ErrorCode::E0008 => "E0008",
            ErrorCode::E0009 => "E0009",
        }
    }
}

/// `String::push` of the standard library: `c` is added at the end.
#[verifier::external_body]
fn push_char(text: &mut String, c: char)
    ensures
        final(text)@ == old(text)@.push(c),
{
    text.push(c)
}

/// One diagnostic: its code, the source unit and span of its primary label,
/// and the character that its message speaks of, where it speaks of one.
#[derive(Clone, Copy, Debug, PartialEq, Eq, Hash, Structural)]
pub struct Diagnostic {
    pub code: ErrorCode,
    pub source_id: usize,
    pub span: Span,
    pub ch: Option<char>,
}

impl Diagnostic {
    /// The character that the message speaks of, as text: nothing where it
    /// speaks of none.
    pub open spec fn ch_text(self) -> Seq<char> {
        match self.ch {
            Some(c) => seq![c],
            None => Seq::empty(),
        }
    }

    /// The message of the primary label.
    pub open spec fn label_text(self) -> Seq<char> {
        match self.code {
            ErrorCode::E0001 => "this multi-line comment's end has no corresponding beginning"@,
            ErrorCode::E0002 => "this multi-line comment's beginning has no corresponding end"@,
            ErrorCode::E0003 => "did not expect `"@ + self.ch_text() + "` here"@,
            ErrorCode::E0004 => "expected two hexadecimal digits here"@,
            ErrorCode::E0005 => "found an invalid digit here"@,
            ErrorCode::E0006 => "this escape sequence is unknown"@,
            ErrorCode::E0007 => "expected an escape sequence here"@,
            ErrorCode::E0008 => "expected an escape sequence here"@,
            ErrorCode::E0009 => "found only one hexadecimal digit here"@,
        }
    }

    /// The note that goes with the diagnostic, if it has one: for a
    /// hexadecimal escape of one digit, the escape with a zero before the
    /// digit.
    pub open spec fn note_text(self) -> Option<Seq<char>> {
        match self.code {
            ErrorCode::E0009 => Some("perhaps you meant to use `\\x0"@ + self.ch_text() + "`?"@),
            _ => None,
        }
    }

    /// `before`, the character that the message speaks of, and `after`.
    fn around_ch(&self, before: &str, after: &str) -> (text: String)
        ensures
            text@ == before@ + self.ch_text() + after@,
    {
        let mut text = String::from_str(before);
        match self.ch {
            Some(c) => {
                push_char(&mut text, c);
            },
            None => {
                assert(text@ =~= before@ + self.ch_text());
            },
        }
        text.append(after);
        text
    }

    pub fn label(&self) -> (text: String)
        ensures
            text@ == self.label_text(),
    {
        match self.code {
            ErrorCode::E0001 => String::from_str(
                "this multi-line comment's end has no corresponding beginning",
            ),
            ErrorCode::E0002 => String::from_str(
                "this multi-line comment's beginning has no corresponding end",
            ),
            ErrorCode::E0003 => self.around_ch("did not expect `", "` here"),
            ErrorCode::E0004 => String::from_str("expected two hexadecimal digits here"),
            ErrorCode::E0005 => String::from_str("found an invalid digit here"),
            ErrorCode::E0006 => String::from_str("this escape sequence is unknown"),
            ErrorCode::E0007 => String::from_str("expected an escape sequence here"),
            ErrorCode::E0008 => String::from_str("expected an escape sequence here"),
            ErrorCode::E0009 => String::from_str("found only one hexadecimal digit here"),
        }
    }

    pub fn note(&self) -> (text: Option<String>)
        ensures
            text is Some == self.note_text() is Some,
            text is Some ==> text->Some_0@ == self.note_text()->Some_0,
    {
        match self.code {
            ErrorCode::E0009 => Some(self.around_ch("perhaps you meant to use `\\x0", "`?")),
            _ => None,
        }
    }
}

/// A diagnostic as the sink received it: `fatal` where scanning stopped on it.
#[derive(Clone, Copy, Debug, PartialEq, Eq, Hash, Structural)]
pub struct Report {
    pub fatal: bool,
    pub diagnostic: Diagnostic,
}

/// The sink for diagnostics: it keeps every report, in the order of arrival.
#[derive(Clone, Debug)]
pub struct Reports {
    entries: Vec<Report>,
}

impl View for Reports {
    type V = Seq<Report>;

    closed spec fn view(&self) -> Seq<Report> {
        self.entries@
    }
}

impl Reports {
    pub fn new() -> (r: Reports)
        ensures
            r@ == Seq::<Report>::empty(),
    {
        Reports { entries: Vec::new() }
    }

    /// Records a diagnostic after which scanning cannot go on.
    pub fn report_fatal(&mut self, diagnostic: Diagnostic)
        ensures
            final(self)@ == old(self)@.push(Report { fatal: true, diagnostic }),
    {
        self.entries.push(Report { fatal: true, diagnostic });
    }

    /// Records a diagnostic after which scanning goes on.
    pub fn report_syncd(&mut self, diagnostic: Diagnostic)
        ensures
            final(self)@ == old(self)@.push(Report { fatal: false, diagnostic }),
    {
        self.entries.push(Report { fatal: false, diagnostic });
    }

    pub fn len(&self) -> (n: usize)
        ensures
            n == self@.len(),
    {
        self.entries.len()
    }

    pub fn get(&self, index: usize) -> (r: Option<Report>)
        ensures
            r == if index < self@.len() {
                Some(self@[index as int])
            } else {
                None
            },
    {
        if index < self.entries.len() {
            Some(self.entries[index])
        } else {
            None
        }
    }
}

} // verus!
