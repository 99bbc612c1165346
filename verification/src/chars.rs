//! Character classes of the language, and the conversion of source text into
//! the character sequence that a lexer reads.

use vstd::prelude::*;

verus! {

/// Whether `c` is white space: a character with the Unicode property
/// `Pattern_White_Space`.
pub open spec fn whitespace(c: char) -> bool {
    c == '\t' || c == '\n' || c == '\u{000B}' || c == '\u{000C}' || c == '\r' || c == ' ' || c
        == '\u{0085}' || c == '\u{200E}' || c == '\u{200F}' || c == '\u{2028}' || c == '\u{2029}'
}

/// Whether `c` can begin an identifier: an ASCII letter or an underscore.
pub open spec fn ident_start(c: char) -> bool {
    ('a' <= c && c <= 'z') || ('A' <= c && c <= 'Z') || c == '_'
}

/// Whether `c` can continue an identifier: as `ident_start`, or an ASCII
/// digit.
pub open spec fn ident_continue(c: char) -> bool {
    ident_start(c) || ('0' <= c && c <= '9')
}

/// Whether `c` is a hexadecimal digit, of either case.
pub open spec fn hex_digit(c: char) -> bool {
    ('0' <= c && c <= '9') || ('a' <= c && c <= 'f') || ('A' <= c && c <= 'F')
}

/// The end of the longest run of characters of `text` accepted by `accepts`
/// that begins at `from`.
pub open spec fn run_end(text: Seq<char>, from: int, accepts: spec_fn(char) -> bool) -> int
    decreases text.len() - from,
{
    if 0 <= from < text.len() && accepts(text[from]) {
        run_end(text, from + 1, accepts)
    } else {
        from
    }
}

/// `run_end` stops at the first character that is not accepted, or at the end
/// of the text, and everything before that point is accepted.
pub proof fn lemma_run_end(text: Seq<char>, from: int, accepts: spec_fn(char) -> bool)
    requires
        0 <= from <= text.len(),
    ensures
        from <= run_end(text, from, accepts) <= text.len(),
        forall|k: int| from <= k < run_end(text, from, accepts) ==> accepts(#[trigger] text[k]),
        run_end(text, from, accepts) < text.len() ==> !accepts(
            text[run_end(text, from, accepts)],
        ),
    decreases text.len() - from,
{
    if from < text.len() && accepts(text[from]) {
        lemma_run_end(text, from + 1, accepts);
    }
}

/// Any position that ends a run of accepted characters, and is followed by
/// none, is `run_end`.
pub proof fn lemma_run_end_unique(
    text: Seq<char>,
    from: int,
    to: int,
    accepts: spec_fn(char) -> bool,
)
    requires
        0 <= from <= to <= text.len(),
        forall|k: int| from <= k < to ==> accepts(#[trigger] text[k]),
        to < text.len() ==> !accepts(text[to]),
    ensures
        run_end(text, from, accepts) == to,
    decreases to - from,
{
    if from < to {
        assert(accepts(text[from]));
        lemma_run_end_unique(text, from + 1, to, accepts);
    }
}

/// Whether two texts are of one length and hold the same characters from
/// `from` on.
pub open spec fn agree_from(a: Seq<char>, b: Seq<char>, from: int) -> bool {
    a.len() == b.len() && forall|k: int| from <= k < a.len() ==> a[k] == b[k]
}

/// A run depends only on the text from its beginning on.
pub proof fn lemma_run_end_agrees(
    a: Seq<char>,
    b: Seq<char>,
    from: int,
    accepts: spec_fn(char) -> bool,
)
    requires
        agree_from(a, b, from),
    ensures
        run_end(a, from, accepts) == run_end(b, from, accepts),
    decreases a.len() - from,
{
    if 0 <= from < a.len() && accepts(a[from]) {
        lemma_run_end_agrees(a, b, from + 1, accepts);
    }
}

#[verifier::when_used_as_spec(whitespace)]
pub fn is_whitespace(c: char) -> (r: bool)
    ensures
        r == whitespace(c),
{
    c == '\t' || c == '\n' || c == '\u{000B}' || c == '\u{000C}' || c == '\r' || c == ' ' || c
        == '\u{0085}' || c == '\u{200E}' || c == '\u{200F}' || c == '\u{2028}' || c == '\u{2029}'
}

#[verifier::when_used_as_spec(ident_start)]
pub fn is_ident_start(c: char) -> (r: bool)
    ensures
        r == ident_start(c),
{
    ('a' <= c && c <= 'z') || ('A' <= c && c <= 'Z') || c == '_'
}

#[verifier::when_used_as_spec(ident_continue)]
pub fn is_ident_continue(c: char) -> (r: bool)
    ensures
        r == ident_continue(c),
{
    is_ident_start(c) || ('0' <= c && c <= '9')
}

#[verifier::when_used_as_spec(hex_digit)]
pub fn is_hex_digit(c: char) -> (r: bool)
    ensures
        r == hex_digit(c),
{
    ('0' <= c && c <= '9') || ('a' <= c && c <= 'f') || ('A' <= c && c <= 'F')
}

/// The characters of `source`, in order.
pub fn source_chars(source: &str) -> (chars: Vec<char>)
    ensures
        chars@ == source@,
{
    let mut chars: Vec<char> = Vec::new();
    for c in it: source.chars()
        invariant
            chars@ == it.seq().take(it.index() as int),
            it.seq() == source@,
    {
        chars.push(c);
    }
    chars
}

} // verus!
