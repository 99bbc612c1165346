//! A cursor over a slice of characters, with a start mark and a current
//! position.

use crate::chars::run_end;
use crate::span::Span;
use vstd::prelude::*;

verus! {

/// What a [`Buffer`] is to a specification: the text and the two positions.
pub struct BufferView {
    pub text: Seq<char>,
    pub start: int,
    pub current: int,
}

impl BufferView {
    /// The character `ahead` places after the current position, if the text
    /// reaches that far.
    pub open spec fn at(self, ahead: int) -> Option<char> {
        if 0 <= self.current + ahead < self.text.len() {
            Some(self.text[self.current + ahead])
        } else {
            None
        }
    }

    /// The same buffer with the current position moved to `to`.
    pub open spec fn moved_to(self, to: int) -> BufferView {
        BufferView { current: to, ..self }
    }

    /// The end of the longest run of characters accepted by `accepts` that
    /// begins at `from`.
    pub open spec fn run_end(self, from: int, accepts: spec_fn(char) -> bool) -> int {
        run_end(self.text, from, accepts)
    }
}

/// The failure of [`Buffer::consume`] and [`Buffer::consume_if`]: the expected
/// character was not next.
#[derive(Clone, Debug, PartialEq, Eq)]
pub struct ConsumeError {
    /// From the start mark to the current position.
    pub span: Span,
    pub source_name: String,
    pub message: String,
    pub eid: u16,
}

/// A cursor over a slice of characters. It keeps a start mark beside the
/// current position; neither is held inside the text, so the current
/// position may lie past the end, where nothing is read.
#[derive(Debug, Clone, Copy, Eq, PartialEq)]
pub struct Buffer<'buf> {
    buffer: &'buf [char],
    start: usize,
    current: usize,
}

impl<'buf> View for Buffer<'buf> {
    type V = BufferView;

    closed spec fn view(&self) -> BufferView {
        BufferView { text: self.buffer@, start: self.start as int, current: self.current as int }
    }
}

impl<'buf> Buffer<'buf> {
    pub fn new(buffer: &'buf [char]) -> (b: Self)
        ensures
            b@ == (BufferView { text: buffer@, start: 0, current: 0 }),
    {
        Self { buffer, start: 0, current: 0 }
    }

    pub fn start(&self) -> (r: usize)
        ensures
            r == self@.start,
    {
        self.start
    }

    pub fn current(&self) -> (r: usize)
        ensures
            r == self@.current,
    {
        self.current
    }

    pub fn buffer(&self) -> (r: &'buf [char])
        ensures
            r@ == self@.text,
    {
        self.buffer
    }

    pub fn is_at_end(&self) -> (r: bool)
        ensures
            r == (self@.current >= self@.text.len()),
    {
        self.current >= self.buffer.len()
    }

    /// A slice is never longer than a `usize` can count.
    pub proof fn lemma_text_fits(&self)
        ensures
            self@.text.len() <= usize::MAX,
    {
        vstd::slice::axiom_spec_len(self.buffer);
    }

    fn get(&self, index: usize) -> (r: Option<char>)
        ensures
            r == self@.at(index - self@.current),
    {
        if index < self.buffer.len() {
            Some(self.buffer[index])
        } else {
            None
        }
    }

    pub fn peek(&self) -> (r: Option<char>)
        ensures
            r == self@.at(0),
    {
        self.get(self.current)
    }

    pub fn peek_next(&self) -> (r: Option<char>)
        ensures
            r == self@.at(1),
    {
        proof {
            self.lemma_text_fits();
        }
        match self.current.checked_add(1) {
            Some(index) => self.get(index),
            None => None,
        }
    }

    pub fn peek_2(&self) -> (r: Option<char>)
        ensures
            r == self@.at(2),
    {
        proof {
            self.lemma_text_fits();
        }
        match self.current.checked_add(2) {
            Some(index) => self.get(index),
            None => None,
        }
    }

    pub fn last(&self) -> (r: Option<char>)
        ensures
            r == self@.at(-1),
    {
        if self.current == 0 {
            None
        } else {
            self.get(self.current - 1)
        }
    }

    /// Moves one character on, whether or not there is one, and returns the
    /// character passed over.
    pub fn advance(&mut self) -> (r: Option<char>)
        requires
            old(self)@.current < usize::MAX,
        ensures
            final(self)@ == old(self)@.moved_to(old(self)@.current + 1),
            r == old(self)@.at(0),
    {
        self.current += 1;
        self.get(self.current - 1)
    }

    /// Moves one character back, unless at the beginning, and returns the
    /// character that is then next.
    pub fn backtrack(&mut self) -> (r: Option<char>)
        ensures
            old(self)@.current == 0 ==> r is None && final(self)@ == old(self)@,
            old(self)@.current > 0 ==> r == old(self)@.at(-1) && final(self)@ == old(
                self,
            )@.moved_to(old(self)@.current - 1),
    {
        if self.current == 0 {
            None
        } else {
            self.current -= 1;
            self.get(self.current)
        }
    }

    /// Passes over the next character if it is `expected`.
    pub fn match_next(&mut self, expected: char) -> (r: bool)
        ensures
            r == (old(self)@.at(0) == Some(expected)),
            r ==> final(self)@ == old(self)@.moved_to(old(self)@.current + 1),
            !r ==> final(self)@ == old(self)@,
    {
        let ch = self.peek();
        if ch.is_none() {
            return false;
        }
        if self.is_at_end() || ch.unwrap() != expected {
            false
        } else {
            proof {
                self.lemma_text_fits();
            }
            self.advance();
            true
        }
    }

    /// Passes over the next character if `predicate` accepts it.
    pub fn match_next_if<P>(&mut self, predicate: P) -> (r: bool) where P: Fn(char) -> bool
        requires
            forall|c: char| #[trigger] predicate.requires((c,)),
        ensures
            old(self)@.at(0) is None ==> !r,
            old(self)@.at(0) is Some ==> predicate.ensures((old(self)@.at(0).unwrap(),), r),
            r ==> final(self)@ == old(self)@.moved_to(old(self)@.current + 1),
            !r ==> final(self)@ == old(self)@,
    {
        let ch = self.peek();
        if ch.is_none() {
            return false;
        }
        if self.is_at_end() || !predicate(ch.unwrap()) {
            false
        } else {
            proof {
                self.lemma_text_fits();
            }
            self.advance();
            true
        }
    }

    pub fn set_start(&mut self, new_start: usize)
        ensures
            final(self)@ == (BufferView { start: new_start as int, ..old(self)@ }),
    {
        self.start = new_start;
    }

    pub fn current_to_start(&mut self)
        ensures
            final(self)@ == (BufferView { start: old(self)@.current, ..old(self)@ }),
    {
        self.start = self.current;
    }

    /// Passes over `expected` and the character after it, or fails, with the
    /// span from the start mark to the current position, where `expected` is
    /// not next.
    pub fn consume(&mut self, expected: char, message: String, eid: u16, source_name: String) -> (r:
        Result<(), ConsumeError>)
        requires
            old(self)@.start <= old(self)@.current,
            old(self)@.current + 2 <= usize::MAX,
        ensures
            old(self)@.at(0) == Some(expected) ==> r is Ok && final(self)@ == old(self)@.moved_to(
                old(self)@.current + 2,
            ),
            old(self)@.at(0) != Some(expected) ==> final(self)@ == old(self)@ && r == Err::<
                (),
                ConsumeError,
            >(
                ConsumeError {
                    span: Span::between(old(self)@.start, old(self)@.current),
                    source_name,
                    message,
                    eid,
                },
            ),
    {
        if self.match_next(expected) {
            self.advance();
            Ok(())
        } else {
            Err(
                ConsumeError {
                    span: Span::new(self.start, self.current - self.start),
                    source_name,
                    message,
                    eid,
                },
            )
        }
    }

    /// Passes over a character that `predicate` accepts and the character
    /// after it, or fails, with the span from the start mark to the current
    /// position, where no such character is next.
    pub fn consume_if<P>(
        &mut self,
        predicate: P,
        message: String,
        eid: u16,
        source_name: String,
    ) -> (r: Result<(), ConsumeError>) where P: Fn(char) -> bool
        requires
            forall|c: char| #[trigger] predicate.requires((c,)),
            old(self)@.start <= old(self)@.current,
            old(self)@.current + 2 <= usize::MAX,
        ensures
            old(self)@.at(0) is None ==> r is Err,
            old(self)@.at(0) is Some ==> predicate.ensures((old(self)@.at(0).unwrap(),), r is Ok),
            r is Ok ==> final(self)@ == old(self)@.moved_to(old(self)@.current + 2),
            r is Err ==> final(self)@ == old(self)@ && r == Err::<(), ConsumeError>(
                ConsumeError {
                    span: Span::between(old(self)@.start, old(self)@.current),
                    source_name,
                    message,
                    eid,
                },
            ),
    {
        if self.match_next_if(predicate) {
            self.advance();
            Ok(())
        } else {
            Err(
                ConsumeError {
                    span: Span::new(self.start, self.current - self.start),
                    source_name,
                    message,
                    eid,
                },
            )
        }
    }

    /// Passes over every `expected` that follows.
    pub fn gorge(&mut self, expected: char)
        ensures
            final(self)@ == old(self)@.moved_to(
                old(self)@.run_end(old(self)@.current, |c: char| c == expected),
            ),
    {
        let ghost accepts = |c: char| c == expected;
        let ghost before = self@;
        loop
            invariant
                self@ == before.moved_to(self@.current),
                before.current <= self@.current,
                run_end(before.text, before.current, accepts) == run_end(
                    before.text,
                    self@.current,
                    accepts,
                ),
                accepts == (|c: char| c == expected),
            ensures
                self@ == before.moved_to(before.run_end(before.current, accepts)),
            decreases before.text.len() - self@.current,
        {
            if !self.match_next(expected) {
                break ;
            }
        }
    }

    /// Passes over every character that follows and that `predicate` accepts.
    pub fn gorge_while<P>(&mut self, predicate: P) where P: Fn(char) -> bool
        requires
            forall|c: char| #[trigger] predicate.requires((c,)),
        ensures
            final(self)@ == old(self)@.moved_to(final(self)@.current),
            old(self)@.current <= final(self)@.current,
            final(self)@.current <= old(self)@.text.len() || final(self)@.current == old(
                self,
            )@.current,
            forall|k: int|
                old(self)@.current <= k < final(self)@.current ==> predicate.ensures(
                    (#[trigger] old(self)@.text[k],),
                    true,
                ),
            final(self)@.at(0) is Some ==> predicate.ensures((final(self)@.at(0).unwrap(),), false),
    {
        let ghost before = self@;
        loop
            invariant
                forall|c: char| #[trigger] predicate.requires((c,)),
                self@ == before.moved_to(self@.current),
                before.current <= self@.current,
                self@.current <= before.text.len() || self@.current == before.current,
                forall|k: int|
                    before.current <= k < self@.current ==> predicate.ensures(
                        (#[trigger] before.text[k],),
                        true,
                    ),
            ensures
                self@.at(0) is Some ==> predicate.ensures((self@.at(0).unwrap(),), false),
            decreases before.text.len() - self@.current,
        {
            if !self.match_next_if(&predicate) {
                break ;
            }
        }
    }

    /// The text between two positions.
    pub fn slice(&self, lower: usize, upper: usize) -> (r: &'buf [char])
        requires
            lower <= upper <= self@.text.len(),
        ensures
            r@ == self@.text.subrange(lower as int, upper as int),
    {
        vstd::slice::slice_subrange(self.buffer, lower, upper)
    }
}

} // verus!
