//! The lexer: it turns source text into tokens, one for each call.

use crate::chars::{
    hex_digit, ident_continue, ident_start, is_hex_digit, is_ident_continue, is_ident_start,
    is_whitespace, lemma_run_end, lemma_run_end_unique,
};
use crate::diagnostic::{Diagnostic, ErrorCode, Report, Reports};
use crate::grammar::{
    comment_close, dangling_end, escape, hex_escape, lemma_comment_close, lemma_operator_at,
    lemma_trivia_end, line_end, operator_len, pair_at, scanned, trivia, unterminated, word_end,
    word_type, Escape,
};
use crate::keyword::KeywordTable;
use crate::span::{group_span, Span, Spanned};
use crate::stream::{char_at, StringStream};
use crate::token::{operator, Token, TokenType};
use vstd::prelude::*;

verus! {

broadcast use {group_span, StringStream::lemma_text_fits};

/// A lexer over one source unit. It reads the text through a character
/// stream, and hands every diagnostic to the sink it was made with.
#[derive(Debug)]
pub struct Lexer<'lex> {
    stream: StringStream<'lex>,
    source_id: usize,
    reports: Reports,
    keywords: KeywordTable,
    start: Span,
}

impl<'lex> Lexer<'lex> {
    /// The text of the source unit.
    pub closed spec fn text(&self) -> Seq<char> {
        self.stream.text()
    }

    /// The offset of the next character to read.
    pub closed spec fn pos(&self) -> int {
        self.stream.pos()
    }

    /// The identifier of the source unit, which every diagnostic carries.
    pub closed spec fn source(&self) -> usize {
        self.source_id
    }

    /// Everything the sink has received, in order.
    pub closed spec fn reported(&self) -> Seq<Report> {
        self.reports@
    }

    /// Whether `self` reads the same source unit as `other`.
    pub open spec fn same_source(&self, other: &Self) -> bool {
        self.text() == other.text() && self.source() == other.source()
    }

    /// The span from the start mark to the cursor.
    closed spec fn marked(&self) -> Span {
        Span::between(self.start.lo(), self.pos())
    }

    /// The start mark is an empty span that lies at or before the cursor.
    closed spec fn mark_behind(&self) -> bool {
        self.start.lo() == self.start.hi() && self.start.lo() <= self.pos()
    }

    /// The text is never longer than a `usize` can count.
    pub proof fn lemma_text_fits(&self)
        ensures
            self.text().len() <= usize::MAX,
    {
        self.stream.lemma_text_fits();
    }

    /// A lexer at the beginning of `source`, with `reports` as its sink.
    pub fn new(source_id: usize, source: &'lex [char], reports: Reports) -> (lexer: Self)
        ensures
            lexer.text() == source@,
            lexer.pos() == 0,
            lexer.source() == source_id,
            lexer.reported() == reports@,
    {
        Lexer {
            stream: StringStream::new(source),
            source_id,
            reports,
            keywords: KeywordTable::new(),
            start: Span::default(),
        }
    }

    /// The offset of the next character to read.
    pub fn position(&self) -> (at: usize)
        ensures
            at == self.pos(),
            at <= self.text().len(),
    {
        self.stream.position()
    }

    /// The sink, with everything reported so far.
    pub fn reports(&self) -> (reports: &Reports)
        ensures
            reports@ == self.reported(),
    {
        &self.reports
    }

    /// Gives the sink back, with everything reported.
    pub fn into_reports(self) -> (reports: Reports)
        ensures
            reports@ == self.reported(),
    {
        self.reports
    }

    /// Sets the start mark to the position of the cursor.
    fn current_to_start(&mut self)
        ensures
            final(self).same_source(old(self)),
            final(self).pos() == old(self).pos(),
            final(self).reported() == old(self).reported(),
            final(self).start == Span::between(old(self).pos(), old(self).pos()),
            final(self).mark_behind(),
            0 <= final(self).pos() <= final(self).text().len(),
    {
        self.start = self.current();
    }

    fn set_start(&mut self, start: Span)
        ensures
            final(self).same_source(old(self)),
            final(self).pos() == old(self).pos(),
            final(self).reported() == old(self).reported(),
            final(self).start == start,
    {
        self.start = start;
    }

    /// The empty span that marks the position of the cursor.
    fn current(&self) -> (mark: Span)
        ensures
            mark == Span::between(self.pos(), self.pos()),
            0 <= self.pos() <= self.text().len(),
    {
        self.stream.current()
    }

    /// The span from the start mark to the cursor.
    fn new_span(&self) -> (span: Span)
        requires
            self.start.lo() <= self.pos(),
            self.start.hi() <= self.pos() || self.start.hi() == self.start.lo() + 1,
        ensures
            span.lo() == self.start.lo(),
            span.hi() == if self.start.hi() <= self.pos() {
                self.pos()
            } else {
                self.start.hi()
            },
            0 <= self.pos() <= self.text().len(),
    {
        self.start.until(self.current())
    }

    /// The token of the given kind whose text runs from the start mark to
    /// the cursor.
    fn new_token(&self, kind: TokenType) -> (token: Token<'lex>)
        requires
            self.mark_behind(),
        ensures
            token.span == self.marked(),
            token.value.0 == kind,
            token.value.1@ == self.text().subrange(self.start.lo(), self.pos()),
    {
        let span = self.new_span();
        Spanned::new(span, (kind, self.stream.slice(span)))
    }

    /// Reports `diagnostic` as fatal and hands it back.
    fn fatal(&mut self, diagnostic: Diagnostic) -> (r: Diagnostic)
        ensures
            r == diagnostic,
            final(self).same_source(old(self)),
            final(self).pos() == old(self).pos(),
            final(self).start == old(self).start,
            final(self).reported() == old(self).reported().push(
                Report { fatal: true, diagnostic },
            ),
    {
        self.reports.report_fatal(diagnostic);
        diagnostic
    }

    /// Passes over a `*/` that closes nothing, and reports it.
    fn handle_dangling_comment_ends(&mut self) -> (found: bool)
        ensures
            found == pair_at(old(self).text(), old(self).pos(), '*', '/'),
            final(self).same_source(old(self)),
            0 <= final(self).pos() <= final(self).text().len(),
            found ==> final(self).pos() == old(self).pos() + 2,
            found ==> final(self).reported() == old(self).reported().push(
                Report {
                    fatal: false,
                    diagnostic: dangling_end(old(self).source(), old(self).pos()),
                },
            ),
            !found ==> final(self).pos() == old(self).pos(),
            !found ==> final(self).reported() == old(self).reported(),
    {
        if self.stream.peek_eq('*') == Some(true) && self.stream.peek2_eq('/') == Some(true) {
            self.current_to_start();
            self.stream.next();
            self.stream.next();
            let diagnostic = Diagnostic {
                code: ErrorCode::E0001,
                source_id: self.source_id,
                span: self.new_span(),
                ch: None,
            };
            self.reports.report_syncd(diagnostic);
            true
        } else {
            proof {
                use_type_invariant(&self.stream);
            }
            false
        }
    }

    /// Passes over a `//` comment, up to the end of its line.
    fn handle_comment(&mut self) -> (found: bool)
        ensures
            found == pair_at(old(self).text(), old(self).pos(), '/', '/'),
            final(self).same_source(old(self)),
            final(self).reported() == old(self).reported(),
            0 <= final(self).pos() <= final(self).text().len(),
            found ==> final(self).pos() == line_end(old(self).text(), old(self).pos() + 2),
            !found ==> final(self).pos() == old(self).pos(),
    {
        if self.stream.peek_eq('/') != Some(true) || self.stream.peek2_eq('/') != Some(true) {
            proof {
                use_type_invariant(&self.stream);
            }
            return false;
        }
        let ghost at = self.pos();
        let in_line = |c: char| -> (r: bool)
            ensures
                r == (c != '\n')
        {
            c != '\n'
        };
        self.stream.gorge_while(in_line);
        proof {
            lemma_run_end_unique(self.text(), at + 2, self.pos(), |c: char| c != '\n');
        }
        true
    }

    /// Passes over a `/*` comment and the comments nested in it. Where the
    /// text ends inside the comment, the `/*` that began it is reported.
    #[verifier::loop_isolation(false)]
    fn handle_multiline_comment(&mut self) -> (r: Result<bool, Diagnostic>)
        ensures
            final(self).same_source(old(self)),
            0 <= final(self).pos() <= final(self).text().len(),
            !pair_at(old(self).text(), old(self).pos(), '/', '*') ==> {
                &&& r == Ok::<bool, Diagnostic>(false)
                &&& final(self).pos() == old(self).pos()
                &&& final(self).reported() == old(self).reported()
            },
            pair_at(old(self).text(), old(self).pos(), '/', '*') ==> match comment_close(
                old(self).text(),
                old(self).pos() + 2,
                1,
            ) {
                Some(end) => {
                    &&& r == Ok::<bool, Diagnostic>(true)
                    &&& final(self).pos() == end
                    &&& final(self).reported() == old(self).reported()
                },
                None => {
                    &&& r == Err::<bool, Diagnostic>(
                        unterminated(old(self).source(), old(self).pos()),
                    )
                    &&& final(self).pos() == final(self).text().len()
                    &&& final(self).reported() == old(self).reported().push(
                        Report {
                            fatal: true,
                            diagnostic: unterminated(old(self).source(), old(self).pos()),
                        },
                    )
                },
            },
    {
        if self.stream.peek_eq('/') != Some(true) || self.stream.peek2_eq('*') != Some(true) {
            proof {
                use_type_invariant(&self.stream);
            }
            return Ok(false);
        }
        let ghost text = self.text();
        let ghost open = self.pos();
        let ghost before = *self;
        self.current_to_start();
        self.stream.next();
        self.stream.next();
        let mut stack: Vec<Span> = Vec::new();
        stack.push(self.new_span());
        loop
            invariant
                self.same_source(&before),
                self.reported() == before.reported(),
                text == self.text(),
                open == before.pos(),
                0 <= open,
                open + 2 <= self.pos() <= text.len(),
                stack.len() >= 1,
                stack[0] == Span::between(open, open + 2),
                comment_close(text, open + 2, 1) == comment_close(
                    text,
                    self.pos(),
                    stack.len() as nat,
                ),
            decreases text.len() - self.pos(),
        {
            if self.stream.is_at_end() {
                let diagnostic = Diagnostic {
                    code: ErrorCode::E0002,
                    source_id: self.source_id,
                    span: stack[0],
                    ch: None,
                };
                return Err(self.fatal(diagnostic));
            }
            if self.stream.peek_eq('/') == Some(true) && self.stream.peek2_eq('*') == Some(true) {
                self.current_to_start();
                self.stream.next();
                self.stream.next();
                stack.push(self.new_span());
            } else if self.stream.peek_eq('*') == Some(true) && self.stream.peek2_eq('/') == Some(
                true,
            ) {
                self.current_to_start();
                self.stream.next();
                self.stream.next();
                stack.pop();
                if stack.is_empty() {
                    return Ok(true);
                }
            } else {
                self.stream.next();
            }
        }
    }

    /// Passes over white space and comments.
    #[verifier::loop_isolation(false)]
    fn skip_whitespace(&mut self) -> (r: Result<(), Diagnostic>)
        ensures
            final(self).same_source(old(self)),
            0 <= old(self).pos() <= final(self).pos() <= final(self).text().len(),
            final(self).pos() == trivia(old(self).text(), old(self).source(), old(self).pos()).end,
            final(self).reported() == old(self).reported() + trivia(
                old(self).text(),
                old(self).source(),
                old(self).pos(),
            ).reports,
            r == match trivia(old(self).text(), old(self).source(), old(self).pos()).failure {
                Some(diagnostic) => Err::<(), Diagnostic>(diagnostic),
                None => Ok(()),
            },
    {
        let ghost before = *self;
        let ghost text = self.text();
        let ghost sid = self.source();
        let ghost whole = trivia(text, sid, self.pos());
        proof {
            use_type_invariant(&self.stream);
        }
        loop
            invariant
                self.same_source(&before),
                text == self.text(),
                sid == self.source(),
                whole == trivia(text, sid, before.pos()),
                0 <= before.pos() <= self.pos() <= text.len(),
                whole.end == trivia(text, sid, self.pos()).end,
                whole.failure == trivia(text, sid, self.pos()).failure,
                before.reported() + whole.reports == self.reported() + trivia(
                    text,
                    sid,
                    self.pos(),
                ).reports,
            decreases text.len() - self.pos(),
        {
            let ghost at = self.pos();
            let ghost sofar = self.reported();
            let ghost rest = trivia(text, sid, at);
            if self.stream.is_at_end() {
                assert(self.reported() + rest.reports =~= self.reported());
                assert(before.reported() + whole.reports == self.reported());
                return Ok(());
            }
            if self.handle_dangling_comment_ends() {
                proof {
                    let next = trivia(text, sid, at + 2);
                    assert(sofar + rest.reports =~= self.reported() + next.reports);
                }
            } else if self.handle_comment() {
                proof {
                    lemma_run_end(text, at + 2, |c: char| c != '\n');
                }
            } else {
                match self.handle_multiline_comment() {
                    Err(diagnostic) => {
                        return Err(diagnostic);
                    },
                    Ok(true) => {
                        proof {
                            lemma_comment_close(text, at + 2, 1);
                        }
                    },
                    Ok(false) => {
                        let found = self.stream.next_if(is_whitespace);
                        if found.is_none() {
                            assert(self.reported() + rest.reports =~= self.reported());
                            return Ok(());
                        }
                    },
                }
            }
        }
    }

    /// Passes over white space and comments, and makes one token of them
    /// where there were any.
    pub fn handle_whitespace(&mut self) -> (r: Result<Option<Token<'lex>>, Diagnostic>)
        ensures
            final(self).same_source(old(self)),
            0 <= old(self).pos() <= final(self).pos() <= final(self).text().len(),
            final(self).pos() == trivia(old(self).text(), old(self).source(), old(self).pos()).end,
            final(self).reported() == old(self).reported() + trivia(
                old(self).text(),
                old(self).source(),
                old(self).pos(),
            ).reports,
            match trivia(old(self).text(), old(self).source(), old(self).pos()).failure {
                Some(diagnostic) => r == Err::<Option<Token<'lex>>, Diagnostic>(diagnostic),
                None => r is Ok && if final(self).pos() == old(self).pos() {
                    r->Ok_0 is None
                } else {
                    &&& r->Ok_0 is Some
                    &&& r->Ok_0->Some_0.value.0 == TokenType::Ws
                    &&& r->Ok_0->Some_0.span == Span::between(old(self).pos(), final(self).pos())
                    &&& r->Ok_0->Some_0.value.1@ == old(self).text().subrange(
                        old(self).pos(),
                        final(self).pos(),
                    )
                },
            },
    {
        let begin = self.current();
        match self.skip_whitespace() {
            Err(diagnostic) => Err(diagnostic),
            Ok(()) => {
                self.set_start(begin);
                if self.new_span().is_empty() {
                    Ok(None)
                } else {
                    Ok(Some(self.new_token(TokenType::Ws)))
                }
            },
        }
    }

    /// Scans the rest of a word whose first character was just consumed.
    fn handle_identifier(&mut self) -> (token: Token<'lex>)
        requires
            old(self).start == Span::between(old(self).pos() - 1, old(self).pos() - 1),
            0 < old(self).pos() <= old(self).text().len(),
            ident_start(old(self).text()[old(self).pos() - 1]),
        ensures
            final(self).same_source(old(self)),
            final(self).reported() == old(self).reported(),
            final(self).pos() == word_end(old(self).text(), old(self).pos()),
            old(self).pos() <= final(self).pos() <= final(self).text().len(),
            token.span == Span::between(old(self).pos() - 1, final(self).pos()),
            token.value.0 == word_type(
                old(self).text().subrange(old(self).pos() - 1, final(self).pos()),
            ),
            token.value.1@ == old(self).text().subrange(old(self).pos() - 1, final(self).pos()),
    {
        let ghost text = self.text();
        let ghost at = self.pos();
        let first = self.stream.prev();
        assert(first == Some(Spanned { span: Span::between(at - 1, at), value: text[at - 1] }));
        if first.unwrap().value_owned() == '_' && self.stream.peek_cond(is_ident_continue) != Some(
            true,
        ) {
            proof {
                lemma_run_end_unique(text, at, at, |c: char| ident_continue(c));
                assert(text.subrange(at - 1, at) =~= seq!['_']);
            }
            return self.new_token(TokenType::Under);
        }
        self.stream.gorge_while(is_ident_continue);
        proof {
            lemma_run_end_unique(text, at, self.pos(), |c: char| ident_continue(c));
        }
        let word = self.stream.slice(self.new_span());
        proof {
            if word@ == seq!['_'] {
                assert(word@.len() == 1);
                assert(self.pos() == at);
                assert(text[at - 1] == word@[0]);
            }
        }
        match self.keywords.get(word) {
            Some(keyword) => self.new_token(TokenType::Keyword(keyword)),
            None => self.new_token(TokenType::Ident),
        }
    }

    /// Checks the two digits of a hexadecimal escape, whose `x` is next.
    #[verifier::loop_isolation(false)]
    fn handle_hex_escape(&mut self) -> (r: Result<(), Diagnostic>)
        requires
            char_at(old(self).text(), old(self).pos()) == Some('x'),
        ensures
            final(self).same_source(old(self)),
            old(self).pos() <= final(self).pos() <= final(self).text().len(),
            match hex_escape(old(self).text(), old(self).source(), old(self).pos() + 1) {
                Escape::Valid { end } => {
                    &&& r is Ok
                    &&& final(self).pos() == end
                    &&& final(self).reported() == old(self).reported()
                },
                Escape::Invalid { end, diagnostic } => {
                    &&& r == Err::<(), Diagnostic>(diagnostic)
                    &&& final(self).pos() == end
                    &&& final(self).reported() == old(self).reported().push(
                        Report { fatal: true, diagnostic },
                    )
                },
                Escape::Absent => false,
            },
    {
        let ghost text = self.text();
        let ghost at = self.pos() + 1;
        self.stream.next();
        self.current_to_start();
        let mut i: u8 = 1;
        while i <= 2
            invariant
                self.same_source(old(self)),
                self.reported() == old(self).reported(),
                1 <= i <= 3,
                self.pos() == at + i - 1,
                self.pos() <= text.len(),
                self.start == Span::between(at, at),
                i >= 2 ==> hex_digit(text[at]),
                i >= 3 ==> hex_digit(text[at + 1]),
            decreases 3 - i,
        {
            let next = self.stream.peek();
            if next.is_none() || is_whitespace(next.unwrap().value_owned()) {
                if i == 1 {
                    let diagnostic = Diagnostic {
                        code: ErrorCode::E0004,
                        source_id: self.source_id,
                        span: self.new_span(),
                        ch: None,
                    };
                    return Err(self.fatal(diagnostic));
                } else {
                    let diagnostic = Diagnostic {
                        code: ErrorCode::E0009,
                        source_id: self.source_id,
                        span: self.new_span(),
                        ch: Some(self.stream.prev().unwrap().value_owned()),
                    };
                    return Err(self.fatal(diagnostic));
                }
            }
            let spanned = next.unwrap();
            let ch = spanned.value_owned();
            if is_hex_digit(ch) {
                self.stream.next();
            } else {
                self.set_start(spanned.span());
                let diagnostic = Diagnostic {
                    code: ErrorCode::E0005,
                    source_id: self.source_id,
                    span: self.new_span(),
                    ch: Some(ch),
                };
                return Err(self.fatal(diagnostic));
            }
            i += 1;
        }
        Ok(())
    }

    /// Checks the escape sequence that may follow: `true` where there was
    /// one. The start mark is kept.
    fn handle_escape_character(&mut self) -> (r: Result<bool, Diagnostic>)
        ensures
            final(self).same_source(old(self)),
            old(self).pos() <= final(self).pos() <= final(self).text().len(),
            r is Ok ==> final(self).start == old(self).start,
            match escape(old(self).text(), old(self).source(), old(self).pos()) {
                Escape::Absent => {
                    &&& r == Ok::<bool, Diagnostic>(false)
                    &&& final(self).pos() == old(self).pos()
                    &&& final(self).reported() == old(self).reported()
                },
                Escape::Valid { end } => {
                    &&& r == Ok::<bool, Diagnostic>(true)
                    &&& final(self).pos() == end
                    &&& final(self).reported() == old(self).reported()
                },
                Escape::Invalid { end, diagnostic } => {
                    &&& r == Err::<bool, Diagnostic>(diagnostic)
                    &&& final(self).pos() == end
                    &&& final(self).reported() == old(self).reported().push(
                        Report { fatal: true, diagnostic },
                    )
                },
            },
    {
        let saved_start = self.start;
        self.current_to_start();
        if self.stream.next_if_eq('\\').is_some() {
            match self.stream.peek() {
                Some(spanned) => {
                    let ch = spanned.value_owned();
                    if ch == 'n' || ch == 'r' || ch == 't' || ch == '\\' || ch == '0' || ch
                        == '\'' || ch == '"' {
                        self.stream.next();
                    } else if ch == 'x' {
                        match self.handle_hex_escape() {
                            Ok(()) => {},
                            Err(diagnostic) => {
                                return Err(diagnostic);
                            },
                        }
                    } else if is_whitespace(ch) {
                        let diagnostic = Diagnostic {
                            code: ErrorCode::E0008,
                            source_id: self.source_id,
                            span: self.new_span(),
                            ch: None,
                        };
                        return Err(self.fatal(diagnostic));
                    } else {
                        self.stream.next();
                        let diagnostic = Diagnostic {
                            code: ErrorCode::E0006,
                            source_id: self.source_id,
                            span: self.new_span(),
                            ch: Some(ch),
                        };
                        return Err(self.fatal(diagnostic));
                    }
                },
                None => {
                    let diagnostic = Diagnostic {
                        code: ErrorCode::E0007,
                        source_id: self.source_id,
                        span: self.new_span(),
                        ch: None,
                    };
                    return Err(self.fatal(diagnostic));
                },
            }
            self.set_start(saved_start);
            return Ok(true);
        }
        self.set_start(saved_start);
        Ok(false)
    }

    /// Whether the next character is `expected`; it is consumed if so.
    fn eat(&mut self, expected: char) -> (found: bool)
        ensures
            final(self).same_source(old(self)),
            final(self).reported() == old(self).reported(),
            final(self).start == old(self).start,
            found == (char_at(old(self).text(), old(self).pos()) == Some(expected)),
            final(self).pos() == if found {
                old(self).pos() + 1
            } else {
                old(self).pos()
            },
            0 <= old(self).pos() <= final(self).pos() <= final(self).text().len(),
    {
        self.stream.next_if_eq(expected).is_some()
    }

    /// The operator or punctuation mark that begins with `first`, which was
    /// just consumed: the longest one that the text spells.
    fn punctuation(&mut self, first: char) -> (kind: Option<TokenType>)
        requires
            0 < old(self).pos() <= old(self).text().len(),
            old(self).text()[old(self).pos() - 1] == first,
        ensures
            final(self).same_source(old(self)),
            final(self).reported() == old(self).reported(),
            final(self).start == old(self).start,
            final(self).pos() <= final(self).text().len(),
            kind is Some <==> operator_len(old(self).text(), old(self).pos() - 1) > 0,
            kind is Some ==> final(self).pos() == old(self).pos() - 1 + operator_len(
                old(self).text(),
                old(self).pos() - 1,
            ) && kind == operator(
                old(self).text().subrange(old(self).pos() - 1, final(self).pos()),
            ),
            kind is None ==> final(self).pos() == old(self).pos(),
    {
        proof {
            lemma_operator_at(self.text(), self.pos() - 1);
        }
        let kind = if first == '<' {
            if self.eat('>') {
                TokenType::GreaterLess
            } else if self.eat('<') {
                if self.eat('=') {
                    TokenType::ShlAssign
                } else {
                    TokenType::Shl
                }
            } else if self.eat('=') {
                TokenType::LessEqual
            } else {
                TokenType::Less
            }
        } else if first == '>' {
            if self.eat('>') {
                if self.eat('=') {
                    TokenType::ShrAssign
                } else {
                    TokenType::Shr
                }
            } else if self.eat('=') {
                TokenType::GreaterEqual
            } else {
                TokenType::Greater
            }
        } else if first == '=' {
            if self.eat('=') {
                TokenType::BoolEqual
            } else {
                TokenType::Equal
            }
        } else if first == '!' {
            if self.eat('=') {
                TokenType::NotEqual
            } else {
                TokenType::Bang
            }
        } else if first == '|' {
            if self.eat('|') {
                TokenType::BoolOr
            } else if self.eat('=') {
                TokenType::PipeAssign
            } else {
                TokenType::Pipe
            }
        } else if first == '&' {
            if self.eat('&') {
                TokenType::BoolAnd
            } else if self.eat('=') {
                TokenType::AndAssign
            } else {
                TokenType::And
            }
        } else if first == '+' {
            if self.eat('=') {
                TokenType::PlusAssign
            } else {
                TokenType::Plus
            }
        } else if first == '-' {
            if self.eat('=') {
                TokenType::MinusAssign
            } else {
                TokenType::Minus
            }
        } else if first == '*' {
            if self.eat('*') {
                if self.eat('=') {
                    TokenType::ExpAssign
                } else {
                    TokenType::Exp
                }
            } else if self.eat('=') {
                TokenType::StarAssign
            } else {
                TokenType::Star
            }
        } else if first == '/' {
            if self.eat('=') {
                TokenType::SlashAssign
            } else {
                TokenType::Slash
            }
        } else if first == '%' {
            if self.eat('=') {
                TokenType::RemAssign
            } else {
                TokenType::Rem
            }
        } else if first == '^' {
            if self.eat('=') {
                TokenType::CaretAssign
            } else {
                TokenType::Caret
            }
        } else if first == '~' {
            TokenType::Tilde
        } else if first == '(' {
            TokenType::LeftParen
        } else if first == ')' {
            TokenType::RightParen
        } else if first == '{' {
            TokenType::LeftBrace
        } else if first == '}' {
            TokenType::RightBrace
        } else if first == '[' {
            TokenType::LeftBracket
        } else if first == ']' {
            TokenType::RightBracket
        } else if first == ',' {
            TokenType::Comma
        } else if first == ';' {
            TokenType::Semi
        } else if first == '.' {
            if self.eat('.') {
                if self.eat('=') {
                    TokenType::RangeInc
                } else {
                    TokenType::Range
                }
            } else {
                TokenType::Dot
            }
        } else if first == '#' {
            if self.eat('!') {
                TokenType::HashBang
            } else {
                TokenType::Hash
            }
        } else {
            return None;
        };
        Some(kind)
    }

    /// Scans the next token. White space and comments before it are skipped;
    /// at the end of the text the token is `Eof`, with an empty span. A
    /// diagnostic that stops the scanning is reported as fatal and returned.
    pub fn scan(&mut self) -> (r: Result<Token<'lex>, Diagnostic>)
        ensures
            final(self).same_source(old(self)),
            0 <= old(self).pos() <= final(self).pos() <= final(self).text().len(),
            final(self).pos() == scanned(old(self).text(), old(self).source(), old(self).pos()).end,
            final(self).reported() == old(self).reported() + scanned(
                old(self).text(),
                old(self).source(),
                old(self).pos(),
            ).reports,
            match r {
                Ok(token) => {
                    &&& scanned(old(self).text(), old(self).source(), old(self).pos()).token == Ok::<
                        (TokenType, Span),
                        Diagnostic,
                    >((token.value.0, token.span))
                    &&& token.value.1@ == old(self).text().subrange(
                        token.span.lo(),
                        token.span.hi(),
                    )
                    &&& old(self).pos() <= token.span.lo() <= token.span.hi() == final(self).pos()
                },
                Err(diagnostic) => scanned(
                    old(self).text(),
                    old(self).source(),
                    old(self).pos(),
                ).token == Err::<(TokenType, Span), Diagnostic>(diagnostic),
            },
    {
        let ghost text = self.text();
        let ghost sid = self.source();
        let ghost skipped = trivia(text, sid, self.pos());
        let ghost before = self.reported();
        match self.skip_whitespace() {
            Err(diagnostic) => {
                return Err(diagnostic);
            },
            Ok(()) => {},
        }
        self.current_to_start();
        let ghost at = self.pos();
        proof {
            lemma_trivia_end(text, sid, old(self).pos());
            assert(before + skipped.reports == self.reported());
        }
        if self.stream.is_at_end() {
            return Ok(self.new_token(TokenType::Eof));
        }
        let first = self.stream.next().unwrap().value_owned();
        if is_ident_start(first) {
            return Ok(self.handle_identifier());
        }
        let kind = if first == '$' {
            match self.handle_escape_character() {
                Ok(true) => TokenType::HashBang,
                Ok(false) => TokenType::Hash,
                Err(diagnostic) => {
                    assert(self.reported() =~= before + skipped.reports.push(
                        Report { fatal: true, diagnostic },
                    ));
                    return Err(diagnostic);
                },
            }
        } else {
            match self.punctuation(first) {
                Some(kind) => kind,
                None => {
                    let diagnostic = Diagnostic {
                        code: ErrorCode::E0003,
                        source_id: self.source_id,
                        span: self.new_span(),
                        ch: Some(first),
                    };
                    let diagnostic = self.fatal(diagnostic);
                    assert(self.reported() =~= before + skipped.reports.push(
                        Report { fatal: true, diagnostic },
                    ));
                    return Err(diagnostic);
                },
            }
        };
        Ok(self.new_token(kind))
    }
}

} // verus!
