//! The lexical grammar of the language, written as functions of the source
//! text and an offset into it. Everything that the lexer does is stated
//! against these functions.

use crate::chars::{
    agree_from, hex_digit, ident_continue, ident_start, lemma_run_end, lemma_run_end_agrees,
    run_end, whitespace,
};
use crate::diagnostic::{Diagnostic, ErrorCode, Report};
use crate::keyword::keyword_of;
use crate::span::Span;
use crate::stream::char_at;
use crate::token::{operator, operator1, operator2, operator3, TokenType};
use vstd::prelude::*;

verus! {

/// Whether the two characters at `at` are `a` and `b`.
pub open spec fn pair_at(text: Seq<char>, at: int, a: char, b: char) -> bool {
    char_at(text, at) == Some(a) && char_at(text, at + 1) == Some(b)
}

/// The diagnostic with the given code, whose label covers `lo..hi` of the
/// source unit `source_id`.
pub open spec fn diagnostic(
    code: ErrorCode,
    source_id: usize,
    lo: int,
    hi: int,
    ch: Option<char>,
) -> Diagnostic {
    Diagnostic { code, source_id, span: Span::between(lo, hi), ch }
}

/// The end of the line that `at` lies on: the offset of the next line feed,
/// or the end of the text.
pub open spec fn line_end(text: Seq<char>, at: int) -> int {
    run_end(text, at, |c: char| c != '\n')
}

/// The end of the longest run of identifier characters that begins at `at`.
pub open spec fn word_end(text: Seq<char>, at: int) -> int {
    run_end(text, at, |c: char| ident_continue(c))
}

/// Where the multi-line comment that is open `depth` levels deep at `at`
/// ends: the offset after the `*/` that closes its outermost level, with
/// every `/*` on the way opening a level and every `*/` closing one. `None`
/// where the text ends first.
pub open spec fn comment_close(text: Seq<char>, at: int, depth: nat) -> Option<int>
    decreases text.len() - at,
{
    if at < 0 || at >= text.len() || depth == 0 {
        None
    } else if pair_at(text, at, '/', '*') {
        comment_close(text, at + 2, depth + 1)
    } else if pair_at(text, at, '*', '/') {
        if depth == 1 {
            Some(at + 2)
        } else {
            comment_close(text, at + 2, (depth - 1) as nat)
        }
    } else {
        comment_close(text, at + 1, depth)
    }
}

/// A comment closes after the place where it was looked for, and inside the
/// text.
pub proof fn lemma_comment_close(text: Seq<char>, at: int, depth: nat)
    ensures
        comment_close(text, at, depth) is Some ==> at + 2 <= comment_close(text, at, depth)->Some_0
            <= text.len(),
    decreases text.len() - at,
{
    if at < 0 || at >= text.len() || depth == 0 {
    } else if pair_at(text, at, '/', '*') {
        lemma_comment_close(text, at + 2, depth + 1);
    } else if pair_at(text, at, '*', '/') {
        if depth != 1 {
            lemma_comment_close(text, at + 2, (depth - 1) as nat);
        }
    } else {
        lemma_comment_close(text, at + 1, depth);
    }
}

/// What skipping white space and comments comes to.
pub struct Trivia {
    /// Where the cursor is left.
    pub end: int,
    /// What the sink receives, in order.
    pub reports: Seq<Report>,
    /// The diagnostic that stopped the skipping, if one did.
    pub failure: Option<Diagnostic>,
}

/// The diagnostic for a `*/` at `at` that closes nothing.
pub open spec fn dangling_end(source_id: usize, at: int) -> Diagnostic {
    diagnostic(ErrorCode::E0001, source_id, at, at + 2, None)
}

/// The diagnostic for a `/*` at `at` that nothing closes.
pub open spec fn unterminated(source_id: usize, at: int) -> Diagnostic {
    diagnostic(ErrorCode::E0002, source_id, at, at + 2, None)
}

/// Skipping from `at`. A `*/` that closes nothing is reported and passed
/// over; a `//` comment runs to the end of its line; a `/*` comment runs to
/// its close, and where it has none the skipping fails at the end of the
/// text with the position of that `/*`; white space is passed over. The
/// skipping ends before the first character that is none of these.
pub open spec fn trivia(text: Seq<char>, source_id: usize, at: int) -> Trivia
    decreases text.len() - at,
{
    if at < 0 || at >= text.len() {
        Trivia { end: at, reports: Seq::empty(), failure: None }
    } else if pair_at(text, at, '*', '/') {
        let rest = trivia(text, source_id, at + 2);
        Trivia {
            reports: seq![Report { fatal: false, diagnostic: dangling_end(source_id, at) }]
                + rest.reports,
            ..rest
        }
    } else if pair_at(text, at, '/', '/') {
        proof {
            lemma_run_end(text, at + 2, |c: char| c != '\n');
        }
        trivia(text, source_id, line_end(text, at + 2))
    } else if pair_at(text, at, '/', '*') {
        match comment_close(text, at + 2, 1) {
            Some(end) => {
                proof {
                    lemma_comment_close(text, at + 2, 1);
                }
                trivia(text, source_id, end)
            },
            None => Trivia {
                end: text.len() as int,
                reports: seq![Report { fatal: true, diagnostic: unterminated(source_id, at) }],
                failure: Some(unterminated(source_id, at)),
            },
        }
    } else if whitespace(text[at]) {
        trivia(text, source_id, at + 1)
    } else {
        Trivia { end: at, reports: Seq::empty(), failure: None }
    }
}

/// Skipping ends at or after the place where it began, and inside the text;
/// where it has not failed, no white space or comment begins where it ends.
pub proof fn lemma_trivia_end(text: Seq<char>, source_id: usize, at: int)
    requires
        0 <= at <= text.len(),
    ensures
        at <= trivia(text, source_id, at).end <= text.len(),
        trivia(text, source_id, at).failure is None ==> trivia(
            text,
            source_id,
            trivia(text, source_id, at).end,
        ) == (Trivia {
            end: trivia(text, source_id, at).end,
            reports: Seq::empty(),
            failure: None,
        }),
    decreases text.len() - at,
{
    if at >= text.len() {
    } else if pair_at(text, at, '*', '/') {
        lemma_trivia_end(text, source_id, at + 2);
    } else if pair_at(text, at, '/', '/') {
        lemma_run_end(text, at + 2, |c: char| c != '\n');
        lemma_trivia_end(text, source_id, line_end(text, at + 2));
    } else if pair_at(text, at, '/', '*') {
        lemma_comment_close(text, at + 2, 1);
        match comment_close(text, at + 2, 1) {
            Some(end) => {
                lemma_trivia_end(text, source_id, end);
            },
            None => {},
        }
    } else if whitespace(text[at]) {
        lemma_trivia_end(text, source_id, at + 1);
    }
}

/// What validating an escape sequence comes to.
pub enum Escape {
    /// There is no escape sequence; nothing is consumed.
    Absent,
    /// A valid escape sequence, which ends at `end`.
    Valid { end: int },
    /// An invalid one: the cursor is left at `end`.
    Invalid { end: int, diagnostic: Diagnostic },
}

/// Whether `c`, after a backslash, makes an escape of one character.
pub open spec fn simple_escape(c: char) -> bool {
    c == 'n' || c == 'r' || c == 't' || c == '\\' || c == '0' || c == '\'' || c == '"'
}

/// The two digits of a hexadecimal escape, expected at `at`.
pub open spec fn hex_escape(text: Seq<char>, source_id: usize, at: int) -> Escape {
    match char_at(text, at) {
        None => Escape::Invalid {
            end: at,
            diagnostic: diagnostic(ErrorCode::E0004, source_id, at, at, None),
        },
        Some(first) => if whitespace(first) {
            Escape::Invalid {
                end: at,
                diagnostic: diagnostic(ErrorCode::E0004, source_id, at, at, None),
            }
        } else if !hex_digit(first) {
            Escape::Invalid {
                end: at,
                diagnostic: diagnostic(ErrorCode::E0005, source_id, at, at + 1, Some(first)),
            }
        } else {
            match char_at(text, at + 1) {
                None => Escape::Invalid {
                    end: at + 1,
                    diagnostic: diagnostic(ErrorCode::E0009, source_id, at, at + 1, Some(first)),
                },
                Some(second) => if whitespace(second) {
                    Escape::Invalid {
                        end: at + 1,
                        diagnostic: diagnostic(
                            ErrorCode::E0009,
                            source_id,
                            at,
                            at + 1,
                            Some(first),
                        ),
                    }
                } else if !hex_digit(second) {
                    Escape::Invalid {
                        end: at + 1,
                        diagnostic: diagnostic(
                            ErrorCode::E0005,
                            source_id,
                            at + 1,
                            at + 2,
                            Some(second),
                        ),
                    }
                } else {
                    Escape::Valid { end: at + 2 }
                },
            }
        },
    }
}

/// The escape sequence at `at`: a backslash and what follows it.
pub open spec fn escape(text: Seq<char>, source_id: usize, at: int) -> Escape {
    if char_at(text, at) != Some('\\') {
        Escape::Absent
    } else {
        match char_at(text, at + 1) {
            None => Escape::Invalid {
                end: at + 1,
                diagnostic: diagnostic(ErrorCode::E0007, source_id, at, at + 1, None),
            },
            Some(c) => if simple_escape(c) {
                Escape::Valid { end: at + 2 }
            } else if c == 'x' {
                hex_escape(text, source_id, at + 2)
            } else if whitespace(c) {
                Escape::Invalid {
                    end: at + 1,
                    diagnostic: diagnostic(ErrorCode::E0008, source_id, at, at + 1, None),
                }
            } else {
                Escape::Invalid {
                    end: at + 2,
                    diagnostic: diagnostic(ErrorCode::E0006, source_id, at, at + 2, Some(c)),
                }
            },
        }
    }
}

/// The kind of the word `word`: the underscore token for a lone `_`, a
/// keyword for a reserved word, an identifier otherwise.
pub open spec fn word_type(word: Seq<char>) -> TokenType {
    if word == seq!['_'] {
        TokenType::Under
    } else {
        match keyword_of(word) {
            Some(keyword) => TokenType::Keyword(keyword),
            None => TokenType::Ident,
        }
    }
}

/// Whether the `len` characters at `at` spell an operator.
pub open spec fn operator_at(text: Seq<char>, at: int, len: int) -> bool {
    0 <= at && at + len <= text.len() && operator(text.subrange(at, at + len)) is Some
}

/// The length of the longest operator spelled at `at`, or 0 where none is.
pub open spec fn operator_len(text: Seq<char>, at: int) -> int {
    if operator_at(text, at, 3) {
        3
    } else if operator_at(text, at, 2) {
        2
    } else if operator_at(text, at, 1) {
        1
    } else {
        0
    }
}

/// What the operator tables say of the characters at `at`, one by one.
pub proof fn lemma_operator_at(text: Seq<char>, at: int)
    requires
        0 <= at < text.len(),
    ensures
        operator_at(text, at, 1) <==> operator1(text[at]) is Some,
        operator(text.subrange(at, at + 1)) == operator1(text[at]),
        at + 2 <= text.len() ==> operator(text.subrange(at, at + 2)) == operator2(
            text[at],
            text[at + 1],
        ),
        operator_at(text, at, 2) <==> (at + 2 <= text.len() && operator2(text[at], text[at + 1])
            is Some),
        at + 3 <= text.len() ==> operator(text.subrange(at, at + 3)) == operator3(
            text[at],
            text[at + 1],
            text[at + 2],
        ),
        operator_at(text, at, 3) <==> (at + 3 <= text.len() && operator3(
            text[at],
            text[at + 1],
            text[at + 2],
        ) is Some),
{
}

/// What scanning one lexeme comes to.
pub struct Lexed {
    /// Where the cursor is left.
    pub end: int,
    /// The kind of the token, or the diagnostic that scanning stopped on.
    pub kind: Result<TokenType, Diagnostic>,
}

/// The lexeme that begins at `at`, where no white space or comment begins.
pub open spec fn lexeme(text: Seq<char>, source_id: usize, at: int) -> Lexed {
    if at < 0 || at >= text.len() {
        Lexed { end: at, kind: Ok(TokenType::Eof) }
    } else if ident_start(text[at]) {
        Lexed {
            end: word_end(text, at + 1),
            kind: Ok(word_type(text.subrange(at, word_end(text, at + 1)))),
        }
    } else if text[at] == '$' {
        match escape(text, source_id, at + 1) {
            Escape::Absent => Lexed { end: at + 1, kind: Ok(TokenType::Hash) },
            Escape::Valid { end } => Lexed { end, kind: Ok(TokenType::HashBang) },
            Escape::Invalid { end, diagnostic } => Lexed { end, kind: Err(diagnostic) },
        }
    } else if operator_len(text, at) > 0 {
        Lexed {
            end: at + operator_len(text, at),
            kind: Ok(operator(text.subrange(at, at + operator_len(text, at)))->Some_0),
        }
    } else {
        Lexed {
            end: at + 1,
            kind: Err(diagnostic(ErrorCode::E0003, source_id, at, at + 1, Some(text[at]))),
        }
    }
}

/// What one call of the scanner comes to.
pub struct Scanned {
    /// Where the cursor is left.
    pub end: int,
    /// What the sink receives, in order.
    pub reports: Seq<Report>,
    /// The kind and span of the token, or the diagnostic that scanning
    /// stopped on.
    pub token: Result<(TokenType, Span), Diagnostic>,
}

/// One call of the scanner with the cursor at `at`: white space and comments
/// are skipped, and the lexeme after them is the token.
pub open spec fn scanned(text: Seq<char>, source_id: usize, at: int) -> Scanned {
    let skipped = trivia(text, source_id, at);
    match skipped.failure {
        Some(diagnostic) => Scanned {
            end: skipped.end,
            reports: skipped.reports,
            token: Err(diagnostic),
        },
        None => {
            let lexed = lexeme(text, source_id, skipped.end);
            match lexed.kind {
                Ok(kind) => Scanned {
                    end: lexed.end,
                    reports: skipped.reports,
                    token: Ok((kind, Span::between(skipped.end, lexed.end))),
                },
                Err(diagnostic) => Scanned {
                    end: lexed.end,
                    reports: skipped.reports.push(Report { fatal: true, diagnostic }),
                    token: Err(diagnostic),
                },
            }
        },
    }
}

/// A lexeme ends inside the text, and after it begins unless the text ends
/// there.
pub proof fn lemma_lexeme_end(text: Seq<char>, source_id: usize, at: int)
    requires
        0 <= at <= text.len(),
    ensures
        at <= lexeme(text, source_id, at).end <= text.len(),
        at < text.len() ==> at < lexeme(text, source_id, at).end,
        lexeme(text, source_id, at).kind == Ok::<TokenType, Diagnostic>(TokenType::Eof) <==> at
            == text.len(),
{
    if at < text.len() {
        lemma_run_end(text, at + 1, |c: char| ident_continue(c));
        lemma_operator_at(text, at);
    }
}

/// Span monotonicity. A token lies between the place where the scan began
/// and the place where it left the cursor, and the token of the scan that
/// follows begins at or after the end of this one.
pub proof fn lemma_spans_advance(text: Seq<char>, source_id: usize, at: int)
    requires
        0 <= at <= text.len() <= usize::MAX,
        scanned(text, source_id, at).token is Ok,
    ensures
        at <= scanned(text, source_id, at).token->Ok_0.1.lo(),
        scanned(text, source_id, at).token->Ok_0.1.lo() <= scanned(
            text,
            source_id,
            at,
        ).token->Ok_0.1.hi(),
        scanned(text, source_id, at).token->Ok_0.1.hi() == scanned(text, source_id, at).end,
        scanned(text, source_id, at).end <= text.len(),
        scanned(text, source_id, scanned(text, source_id, at).end).token is Ok ==> scanned(
            text,
            source_id,
            at,
        ).token->Ok_0.1.hi() <= scanned(
            text,
            source_id,
            scanned(text, source_id, at).end,
        ).token->Ok_0.1.lo(),
{
    broadcast use crate::span::group_span;

    let skipped = trivia(text, source_id, at);
    lemma_trivia_end(text, source_id, at);
    lemma_lexeme_end(text, source_id, skipped.end);
    let end = scanned(text, source_id, at).end;
    let next = trivia(text, source_id, end);
    lemma_trivia_end(text, source_id, end);
    lemma_lexeme_end(text, source_id, next.end);
}

/// The end of the input. With the cursor at the end of the text a scan
/// reports nothing, leaves the cursor there and gives `Eof` with the empty
/// span at the end, however often it is repeated.
pub proof fn lemma_eof_at_end(text: Seq<char>, source_id: usize)
    ensures
        scanned(text, source_id, text.len() as int) == (Scanned {
            end: text.len() as int,
            reports: Seq::empty(),
            token: Ok((TokenType::Eof, Span::between(text.len() as int, text.len() as int))),
        }),
{
}

/// `Eof` is the token of a scan only where nothing but white space and
/// comments is left: the cursor is then at the end of the text, and the span
/// of the token is empty.
pub proof fn lemma_eof_only_at_end(text: Seq<char>, source_id: usize, at: int)
    requires
        0 <= at <= text.len() <= usize::MAX,
        scanned(text, source_id, at).token is Ok,
        scanned(text, source_id, at).token->Ok_0.0 == TokenType::Eof,
    ensures
        scanned(text, source_id, at).end == text.len(),
        scanned(text, source_id, at).token->Ok_0.1 == Span::between(
            text.len() as int,
            text.len() as int,
        ),
{
    let skipped = trivia(text, source_id, at);
    lemma_trivia_end(text, source_id, at);
    lemma_lexeme_end(text, source_id, skipped.end);
}

/// Longest match. Where a lexeme is an operator, the text spells that
/// operator there, and spells no operator that is longer.
pub proof fn lemma_operator_is_longest(text: Seq<char>, source_id: usize, at: int, longer: int)
    requires
        0 <= at < text.len(),
        !ident_start(text[at]),
        text[at] != '$',
        lexeme(text, source_id, at).kind is Ok,
        longer > lexeme(text, source_id, at).end - at,
    ensures
        operator_at(text, at, lexeme(text, source_id, at).end - at),
        lexeme(text, source_id, at).kind == Ok::<TokenType, Diagnostic>(
            operator(text.subrange(at, lexeme(text, source_id, at).end))->Some_0,
        ),
        !operator_at(text, at, longer),
{
}

/// A word is taken whole. Where a lexeme begins with an identifier
/// character, it runs to the first character that cannot continue an
/// identifier, or to the end of the text, and its kind is read off the whole
/// of it: so a word that only begins like a keyword is an identifier.
pub proof fn lemma_word_is_whole(text: Seq<char>, source_id: usize, at: int)
    requires
        0 <= at < text.len(),
        ident_start(text[at]),
    ensures
        at < lexeme(text, source_id, at).end <= text.len(),
        forall|k: int|
            at <= k < lexeme(text, source_id, at).end ==> ident_continue(#[trigger] text[k]),
        lexeme(text, source_id, at).end < text.len() ==> !ident_continue(
            text[lexeme(text, source_id, at).end],
        ),
        lexeme(text, source_id, at).kind == Ok::<TokenType, Diagnostic>(
            word_type(text.subrange(at, lexeme(text, source_id, at).end)),
        ),
        lexeme(text, source_id, at).kind is Ok && lexeme(text, source_id, at).kind->Ok_0
            is Keyword ==> keyword_of(text.subrange(at, lexeme(text, source_id, at).end))
            == Some(lexeme(text, source_id, at).kind->Ok_0->Keyword_0),
{
    lemma_run_end(text, at + 1, |c: char| ident_continue(c));
}

/// The underscore. A word is the underscore token exactly where it is a
/// lone `_`: one that no identifier character follows.
pub proof fn lemma_lone_underscore(text: Seq<char>, source_id: usize, at: int)
    requires
        0 <= at < text.len(),
        ident_start(text[at]),
    ensures
        lexeme(text, source_id, at).kind == Ok::<TokenType, Diagnostic>(TokenType::Under) <==> (
        text[at] == '_' && (at + 1 < text.len() ==> !ident_continue(text[at + 1]))),
        lexeme(text, source_id, at).kind == Ok::<TokenType, Diagnostic>(TokenType::Under)
            ==> lexeme(text, source_id, at).end == at + 1,
{
    let end = word_end(text, at + 1);
    let word = text.subrange(at, end);
    lemma_run_end(text, at + 1, |c: char| ident_continue(c));
    if text[at] == '_' && (at + 1 < text.len() ==> !ident_continue(text[at + 1])) {
        assert(end == at + 1);
        assert(word =~= seq!['_']);
    } else {
        if word == seq!['_'] {
            assert(word.len() == 1);
            assert(word[0] == '_');
        }
    }
}

/// Whether `report` is a recoverable report of a `*/` that closes nothing.
pub open spec fn recoverable(report: Report) -> bool {
    !report.fatal && report.diagnostic.code == ErrorCode::E0001
}

/// What skipping reports: a `*/` that closes nothing is the only thing it
/// reports and goes on; where it fails, the failure is the last report, and
/// the only fatal one.
pub proof fn lemma_trivia_reports(text: Seq<char>, source_id: usize, at: int)
    requires
        0 <= at <= text.len(),
    ensures
        match trivia(text, source_id, at).failure {
            None => forall|i: int|
                0 <= i < trivia(text, source_id, at).reports.len() ==> recoverable(
                    #[trigger] trivia(text, source_id, at).reports[i],
                ),
            Some(diagnostic) => {
                &&& trivia(text, source_id, at).reports.len() > 0
                &&& trivia(text, source_id, at).reports.last() == (Report {
                    fatal: true,
                    diagnostic,
                })
                &&& diagnostic.code == ErrorCode::E0002
                &&& forall|i: int|
                    0 <= i < trivia(text, source_id, at).reports.len() - 1 ==> recoverable(
                        #[trigger] trivia(text, source_id, at).reports[i],
                    )
            },
        },
    decreases text.len() - at,
{
    if at >= text.len() {
    } else if pair_at(text, at, '*', '/') {
        lemma_trivia_reports(text, source_id, at + 2);
        let rest = trivia(text, source_id, at + 2);
        let all = trivia(text, source_id, at).reports;
        assert(recoverable(all[0]));
        assert forall|i: int| 1 <= i < all.len() implies all[i] == rest.reports[i - 1] by {}
    } else if pair_at(text, at, '/', '/') {
        lemma_run_end(text, at + 2, |c: char| c != '\n');
        lemma_trivia_reports(text, source_id, line_end(text, at + 2));
    } else if pair_at(text, at, '/', '*') {
        lemma_comment_close(text, at + 2, 1);
        match comment_close(text, at + 2, 1) {
            Some(end) => {
                lemma_trivia_reports(text, source_id, end);
            },
            None => {},
        }
    } else if whitespace(text[at]) {
        lemma_trivia_reports(text, source_id, at + 1);
    }
}

/// Fatal and recoverable. A scan that gives a token has reported nothing
/// but recoverable diagnostics. A scan that fails has reported its
/// diagnostic last, as the one fatal report, after recoverable ones only.
pub proof fn lemma_scan_reports(text: Seq<char>, source_id: usize, at: int)
    requires
        0 <= at <= text.len(),
    ensures
        match scanned(text, source_id, at).token {
            Ok(_) => forall|i: int|
                0 <= i < scanned(text, source_id, at).reports.len() ==> recoverable(
                    #[trigger] scanned(text, source_id, at).reports[i],
                ),
            Err(diagnostic) => {
                &&& scanned(text, source_id, at).reports.len() > 0
                &&& scanned(text, source_id, at).reports.last() == (Report {
                    fatal: true,
                    diagnostic,
                })
                &&& forall|i: int|
                    0 <= i < scanned(text, source_id, at).reports.len() - 1 ==> recoverable(
                        #[trigger] scanned(text, source_id, at).reports[i],
                    )
            },
        },
{
    lemma_trivia_reports(text, source_id, at);
}

/// The close of a comment depends only on the text from `at` on.
pub proof fn lemma_comment_close_agrees(a: Seq<char>, b: Seq<char>, at: int, depth: nat)
    requires
        0 <= at,
        agree_from(a, b, at),
    ensures
        comment_close(a, at, depth) == comment_close(b, at, depth),
    decreases a.len() - at,
{
    if at >= a.len() || depth == 0 {
    } else if pair_at(a, at, '/', '*') {
        lemma_comment_close_agrees(a, b, at + 2, depth + 1);
    } else if pair_at(a, at, '*', '/') {
        if depth != 1 {
            lemma_comment_close_agrees(a, b, at + 2, (depth - 1) as nat);
        }
    } else {
        lemma_comment_close_agrees(a, b, at + 1, depth);
    }
}

/// Skipping depends only on the text from `at` on.
pub proof fn lemma_trivia_agrees(a: Seq<char>, b: Seq<char>, source_id: usize, at: int)
    requires
        0 <= at,
        agree_from(a, b, at),
    ensures
        trivia(a, source_id, at) == trivia(b, source_id, at),
    decreases a.len() - at,
{
    if at >= a.len() {
    } else if pair_at(a, at, '*', '/') {
        lemma_trivia_agrees(a, b, source_id, at + 2);
    } else if pair_at(a, at, '/', '/') {
        lemma_run_end(a, at + 2, |c: char| c != '\n');
        lemma_run_end_agrees(a, b, at + 2, |c: char| c != '\n');
        lemma_trivia_agrees(a, b, source_id, line_end(a, at + 2));
    } else if pair_at(a, at, '/', '*') {
        lemma_comment_close(a, at + 2, 1);
        lemma_comment_close_agrees(a, b, at + 2, 1);
        match comment_close(a, at + 2, 1) {
            Some(end) => {
                lemma_trivia_agrees(a, b, source_id, end);
            },
            None => {},
        }
    } else if whitespace(a[at]) {
        lemma_trivia_agrees(a, b, source_id, at + 1);
    }
}

/// A scan can be taken up again at any cursor: what it comes to depends on
/// the source unit and on the text from the cursor on, and on nothing that
/// lies before the cursor.
pub proof fn lemma_scan_agrees(a: Seq<char>, b: Seq<char>, source_id: usize, at: int)
    requires
        0 <= at <= a.len(),
        agree_from(a, b, at),
    ensures
        scanned(a, source_id, at) == scanned(b, source_id, at),
{
    lemma_trivia_agrees(a, b, source_id, at);
    lemma_trivia_end(a, source_id, at);
    let from = trivia(a, source_id, at).end;
    if from < a.len() {
        lemma_run_end(a, from + 1, |c: char| ident_continue(c));
        lemma_run_end_agrees(a, b, from + 1, |c: char| ident_continue(c));
        let end = word_end(a, from + 1);
        assert(a.subrange(from, end) =~= b.subrange(from, end));
        lemma_operator_at(a, from);
        lemma_operator_at(b, from);
    }
}

} // verus!
