//! The texts that every interner registers when it is made.

use vstd::prelude::*;

verus! {

/// The reserved texts, one variant each.
#[derive(Clone, Copy, Debug, PartialEq, Eq, Hash, Structural)]
pub enum Keyword {
    /// The empty string.
    Empty,
    /// `_`
    Under,
    /// `true`
    True,
    /// `false`
    False,
}

impl Keyword {
    /// The text of the keyword.
    pub open spec fn text(self) -> Seq<char> {
        match self {
            Keyword::Empty => ""@,
            Keyword::Under => "_"@,
            Keyword::True => "true"@,
            Keyword::False => "false"@,
        }
    }

    pub fn as_str(self) -> (s: &'static str)
        ensures
            s@ == self.text(),
    {
        match self {
            Keyword::Empty => "",
            Keyword::Under => "_",
            Keyword::True => "true",
            Keyword::False => "false",
        }
    }

    /// No two keywords have the same text.
    pub proof fn lemma_texts_differ(a: Keyword, b: Keyword)
        ensures
            a.text() == b.text() ==> a == b,
    {
        reveal_strlit("");
        reveal_strlit("_");
        reveal_strlit("true");
        reveal_strlit("false");
        assert(""@.len() == 0);
        assert("_"@.len() == 1);
        assert("true"@.len() == 4);
        assert("false"@.len() == 5);
        if a.text() == b.text() {
            assert(a.text().len() == b.text().len());
        }
    }
}

} // verus!
