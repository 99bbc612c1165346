//! The character stream that the lexer reads: a forward-only cursor that
//! hands out every character with its span.

use crate::buffer::Buffer;
use crate::span::{group_span, Span, Spanned};
use vstd::prelude::*;

verus! {

broadcast use group_span;

/// The character at offset `at` of `text` with its one-character span, if
/// the text reaches that far.
pub open spec fn spanned_at(text: Seq<char>, at: int) -> Option<Spanned<char>> {
    if 0 <= at < text.len() {
        Some(Spanned { span: Span::between(at, at + 1), value: text[at] })
    } else {
        None
    }
}

/// The character at offset `at` of `text`, if the text reaches that far.
pub open spec fn char_at(text: Seq<char>, at: int) -> Option<char> {
    if 0 <= at < text.len() {
        Some(text[at])
    } else {
        None
    }
}

/// A cursor over source text. Its position never passes the end of the
/// text and never moves back.
#[derive(Debug, Clone, Copy)]
pub struct StringStream<'a> {
    buf: Buffer<'a>,
}

impl<'a> StringStream<'a> {
    /// The whole text.
    pub closed spec fn text(&self) -> Seq<char> {
        self.buf@.text
    }

    /// The offset of the next character.
    pub closed spec fn pos(&self) -> int {
        self.buf@.current
    }

    /// The cursor lies inside the text, or at its end.
    #[verifier::type_invariant]
    pub open spec fn within_text(&self) -> bool {
        0 <= self.pos() <= self.text().len()
    }

    /// The text is never longer than a `usize` can count.
    pub broadcast proof fn lemma_text_fits(&self)
        ensures
            #[trigger] self.text().len() <= usize::MAX,
    {
        self.buf.lemma_text_fits();
    }

    pub fn new(source: &'a [char]) -> (stream: Self)
        ensures
            stream.text() == source@,
            stream.pos() == 0,
    {
        StringStream { buf: Buffer::new(source) }
    }

    pub fn source(&self) -> (source: &'a [char])
        ensures
            source@ == self.text(),
    {
        self.buf.buffer()
    }

    pub fn position(&self) -> (at: usize)
        ensures
            at == self.pos(),
            at <= self.text().len(),
    {
        proof {
            use_type_invariant(self);
        }
        self.buf.current()
    }

    pub fn is_at_end(&self) -> (r: bool)
        ensures
            r == (self.pos() == self.text().len()),
            0 <= self.pos() <= self.text().len(),
    {
        proof {
            use_type_invariant(self);
        }
        self.buf.is_at_end()
    }

    /// The empty span that marks the position of the cursor.
    pub fn current(&self) -> (mark: Span)
        ensures
            mark == Span::between(self.pos(), self.pos()),
            0 <= self.pos() <= self.text().len(),
    {
        proof {
            use_type_invariant(self);
        }
        Span::new_shrunk(self.buf.current())
    }

    /// The next character, which stays in the stream.
    pub fn peek(&self) -> (r: Option<Spanned<char>>)
        ensures
            r == spanned_at(self.text(), self.pos()),
            0 <= self.pos() <= self.text().len(),
    {
        proof {
            use_type_invariant(self);
            self.buf.lemma_text_fits();
        }
        match self.buf.peek() {
            Some(value) => Some(Spanned::new(Span::new(self.buf.current(), 1), value)),
            None => None,
        }
    }

    /// The character after the next one.
    pub fn peek2(&self) -> (r: Option<Spanned<char>>)
        ensures
            r == spanned_at(self.text(), self.pos() + 1),
            0 <= self.pos() <= self.text().len(),
    {
        proof {
            use_type_invariant(self);
            self.buf.lemma_text_fits();
        }
        match self.buf.peek_next() {
            Some(value) => Some(Spanned::new(Span::new(self.buf.current() + 1, 1), value)),
            None => None,
        }
    }

    /// The character before the next one: the last one that was consumed.
    pub fn prev(&self) -> (r: Option<Spanned<char>>)
        ensures
            r == spanned_at(self.text(), self.pos() - 1),
            0 <= self.pos() <= self.text().len(),
    {
        proof {
            use_type_invariant(self);
            self.buf.lemma_text_fits();
        }
        match self.buf.last() {
            Some(value) => Some(Spanned::new(Span::new(self.buf.current() - 1, 1), value)),
            None => None,
        }
    }

    /// Whether the next character is `expected`; `None` at the end.
    pub fn peek_eq(&self, expected: char) -> (r: Option<bool>)
        ensures
            r == match char_at(self.text(), self.pos()) {
                Some(c) => Some(c == expected),
                None => None,
            },
    {
        match self.buf.peek() {
            Some(value) => Some(value == expected),
            None => None,
        }
    }

    /// Whether the character after the next one is `expected`; `None` where
    /// there is no such character.
    pub fn peek2_eq(&self, expected: char) -> (r: Option<bool>)
        ensures
            r == match char_at(self.text(), self.pos() + 1) {
                Some(c) => Some(c == expected),
                None => None,
            },
    {
        proof {
            use_type_invariant(self);
        }
        match self.buf.peek_next() {
            Some(value) => Some(value == expected),
            None => None,
        }
    }

    /// Whether `predicate` accepts the next character; `None` at the end.
    pub fn peek_cond<P>(&self, predicate: P) -> (r: Option<bool>) where P: Fn(char) -> bool
        requires
            forall|c: char| #[trigger] predicate.requires((c,)),
        ensures
            r is Some == char_at(self.text(), self.pos()) is Some,
            r is Some ==> predicate.ensures((self.text()[self.pos()],), r->Some_0),
    {
        match self.buf.peek() {
            Some(value) => Some(predicate(value)),
            None => None,
        }
    }

    /// Consumes the next character.
    pub fn next(&mut self) -> (r: Option<Spanned<char>>)
        ensures
            r == spanned_at(old(self).text(), old(self).pos()),
            final(self).text() == old(self).text(),
            final(self).pos() == if r is Some {
                old(self).pos() + 1
            } else {
                old(self).pos()
            },
            0 <= old(self).pos() <= final(self).pos() <= final(self).text().len(),
    {
        proof {
            use_type_invariant(&*self);
            self.buf.lemma_text_fits();
        }
        let mut buf = self.buf;
        match buf.peek() {
            Some(value) => {
                let span = Span::new(buf.current(), 1);
                buf.advance();
                self.buf = buf;
                Some(Spanned::new(span, value))
            },
            None => None,
        }
    }

    /// Consumes the next character if `predicate` accepts it.
    pub fn next_if<P>(&mut self, predicate: P) -> (r: Option<Spanned<char>>) where
        P: Fn(char) -> bool,

        requires
            forall|c: char| #[trigger] predicate.requires((c,)),
        ensures
            r is Some ==> r == spanned_at(old(self).text(), old(self).pos()),
            char_at(old(self).text(), old(self).pos()) is Some ==> predicate.ensures(
                (old(self).text()[old(self).pos()],),
                r is Some,
            ),
            final(self).text() == old(self).text(),
            final(self).pos() == if r is Some {
                old(self).pos() + 1
            } else {
                old(self).pos()
            },
            0 <= old(self).pos() <= final(self).pos() <= final(self).text().len(),
    {
        proof {
            use_type_invariant(&*self);
            self.buf.lemma_text_fits();
        }
        let mut buf = self.buf;
        match buf.peek() {
            Some(value) => {
                if predicate(value) {
                    let span = Span::new(buf.current(), 1);
                    buf.advance();
                    self.buf = buf;
                    Some(Spanned::new(span, value))
                } else {
                    None
                }
            },
            None => None,
        }
    }

    /// Consumes the next character if it is `expected`.
    pub fn next_if_eq(&mut self, expected: char) -> (r: Option<Spanned<char>>)
        ensures
            r == if char_at(old(self).text(), old(self).pos()) == Some(expected) {
                spanned_at(old(self).text(), old(self).pos())
            } else {
                None
            },
            final(self).text() == old(self).text(),
            final(self).pos() == if r is Some {
                old(self).pos() + 1
            } else {
                old(self).pos()
            },
            0 <= old(self).pos() <= final(self).pos() <= final(self).text().len(),
    {
        proof {
            use_type_invariant(&*self);
            self.buf.lemma_text_fits();
        }
        let mut buf = self.buf;
        let at = buf.current();
        if buf.match_next(expected) {
            self.buf = buf;
            Some(Spanned::new(Span::new(at, 1), expected))
        } else {
            None
        }
    }

    /// Consumes characters for as long as `predicate` accepts the next one.
    pub fn gorge_while<P>(&mut self, predicate: P) where P: Fn(char) -> bool
        requires
            forall|c: char| #[trigger] predicate.requires((c,)),
        ensures
            final(self).text() == old(self).text(),
            0 <= old(self).pos() <= final(self).pos() <= final(self).text().len(),
            forall|k: int|
                old(self).pos() <= k < final(self).pos() ==> predicate.ensures(
                    (#[trigger] old(self).text()[k],),
                    true,
                ),
            final(self).pos() < final(self).text().len() ==> predicate.ensures(
                (final(self).text()[final(self).pos()],),
                false,
            ),
    {
        proof {
            use_type_invariant(&*self);
        }
        let mut buf = self.buf;
        buf.gorge_while(predicate);
        self.buf = buf;
    }

    /// The text that `span` covers.
    pub fn slice(&self, span: Span) -> (text: &'a [char])
        requires
            span.hi() <= self.text().len(),
        ensures
            text@ == self.text().subrange(span.lo(), span.hi()),
    {
        self.buf.slice(span.start(), span.end())
    }
}

} // verus!
