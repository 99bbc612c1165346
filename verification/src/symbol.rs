//! String interning: texts are stored once and stand behind small handles.

use crate::kw::Keyword;
use lasso::{Key, LassoError, Spur, ThreadedRodeo};
use std::collections::hash_map::RandomState;
use vstd::prelude::*;

verus! {

/// `lasso::ThreadedRodeo`, the interner that stores the strings. Nothing is
/// known of what is inside it but through `rodeo_strings`.
#[verifier::external_type_specification]
#[verifier::external_body]
#[verifier::reject_recursive_types(K)]
#[verifier::reject_recursive_types(S)]
pub struct ExThreadedRodeo<K, S>(ThreadedRodeo<K, S>);

/// `lasso::Spur`, the key type of the rodeo.
#[verifier::external_type_specification]
#[verifier::external_body]
pub struct ExSpur(Spur);

/// `lasso::LassoError`, the failure of the rodeo to take a string.
#[verifier::external_type_specification]
#[verifier::external_body]
pub struct ExLassoError(LassoError);

/// The strings that a rodeo holds, each under the index of its key.
pub uninterp spec fn rodeo_strings(rodeo: ThreadedRodeo<Spur, RandomState>) -> Map<
    u32,
    Seq<char>,
>;

/// The number of keys that a rodeo has handed out so far. A rodeo hands out
/// keys for as long as this number is below `u32::MAX`.
pub uninterp spec fn rodeo_keys(rodeo: ThreadedRodeo<Spur, RandomState>) -> nat;

/// Whether `text` is stored under some index of `strings`.
pub open spec fn stored(strings: Map<u32, Seq<char>>, text: Seq<char>) -> bool {
    exists|index: u32| #[trigger] strings.contains_key(index) && strings[index] == text
}

/// `lasso::ThreadedRodeo::new`: the rodeo it creates holds no string and has
/// handed out no key.
#[verifier::external_body]
fn rodeo_new() -> (rodeo: ThreadedRodeo<Spur, RandomState>)
    ensures
        rodeo_strings(rodeo) == (Map::<u32, Seq<char>>::empty()),
        rodeo_keys(rodeo) == 0,
{
    ThreadedRodeo::new()
}

/// `lasso::ThreadedRodeo::try_get_or_intern`, with the key given as its index
/// (`lasso::Key::into_usize`). A string that the rodeo holds keeps its key
/// and nothing changes. A string that it does not hold is stored under an
/// index that was free, or the call fails and nothing changes.
#[verifier::external_body]
fn rodeo_try_get_or_intern(rodeo: &mut ThreadedRodeo<Spur, RandomState>, string: &str) -> (index:
    Result<u32, LassoError>)
    ensures
        index is Ok ==> rodeo_strings(*final(rodeo)) == rodeo_strings(*old(rodeo)).insert(
            index->Ok_0,
            string@,
        ),
        index is Ok && stored(rodeo_strings(*old(rodeo)), string@) ==> rodeo_strings(
            *old(rodeo),
        ).contains_pair(index->Ok_0, string@),
        index is Ok && !stored(rodeo_strings(*old(rodeo)), string@) ==> !rodeo_strings(
            *old(rodeo),
        ).contains_key(index->Ok_0),
        index is Err ==> rodeo_strings(*final(rodeo)) == rodeo_strings(*old(rodeo)) && !stored(
            rodeo_strings(*old(rodeo)),
            string@,
        ),
{
    rodeo.try_get_or_intern(string).map(|key| key.into_usize() as u32)
}

/// `lasso::ThreadedRodeo::try_get_or_intern_static`, with the key given as
/// its index (`lasso::Key::into_usize`). A string that the rodeo holds keeps
/// its key, and nothing changes. A string that it does not hold is kept
/// where it is and stored under an index that was free, which takes one
/// more key; the call fails, and stores nothing, only where the rodeo has no
/// key left to hand out.
#[verifier::external_body]
fn rodeo_try_get_or_intern_static(
    rodeo: &mut ThreadedRodeo<Spur, RandomState>,
    string: &'static str,
) -> (index: Result<u32, LassoError>)
    ensures
        index is Ok ==> rodeo_strings(*final(rodeo)) == rodeo_strings(*old(rodeo)).insert(
            index->Ok_0,
            string@,
        ),
        index is Ok && stored(rodeo_strings(*old(rodeo)), string@) ==> rodeo_strings(
            *old(rodeo),
        ).contains_pair(index->Ok_0, string@),
        index is Ok && !stored(rodeo_strings(*old(rodeo)), string@) ==> !rodeo_strings(
            *old(rodeo),
        ).contains_key(index->Ok_0),
        index is Err ==> rodeo_strings(*final(rodeo)) == rodeo_strings(*old(rodeo)) && !stored(
            rodeo_strings(*old(rodeo)),
            string@,
        ),
        index is Err ==> rodeo_keys(*old(rodeo)) >= u32::MAX,
        index is Ok ==> rodeo_keys(*final(rodeo)) == if stored(
            rodeo_strings(*old(rodeo)),
            string@,
        ) {
            rodeo_keys(*old(rodeo))
        } else {
            rodeo_keys(*old(rodeo)) + 1
        },
{
    rodeo.try_get_or_intern_static(string).map(|key| key.into_usize() as u32)
}

/// `lasso::ThreadedRodeo::try_resolve`, on the key with the given index
/// (`lasso::Key::try_from_usize`): the string stored under the index, if one
/// is.
#[verifier::external_body]
fn rodeo_try_resolve<'a>(rodeo: &'a ThreadedRodeo<Spur, RandomState>, index: u32) -> (string:
    Option<&'a str>)
    ensures
        string is Some == rodeo_strings(*rodeo).contains_key(index),
        string is Some ==> string->Some_0@ == rodeo_strings(*rodeo)[index],
{
    Spur::try_from_usize(index as usize).and_then(|key| rodeo.try_resolve(&key))
}

/// A handle for an interned text.
#[derive(Clone, Copy, Debug, PartialEq, Eq, Hash, Structural)]
pub struct Symbol(u32);

/// Interning failed: the interner could not take another text.
#[derive(Clone, Copy, Debug, PartialEq, Eq, Structural)]
pub struct InternError;

/// What interning `text` into `before` may do: `symbol` is the outcome and
/// `after` the texts held afterwards. A text held before keeps its symbol and
/// nothing changes. A text not held before gets a symbol that was free, or
/// interning fails and nothing changes.
pub open spec fn interned(
    before: Map<Symbol, Seq<char>>,
    text: Seq<char>,
    symbol: Result<Symbol, InternError>,
    after: Map<Symbol, Seq<char>>,
) -> bool {
    if holds_text(before, text) {
        &&& after == before
        &&& symbol is Ok
        &&& before.contains_pair(symbol->Ok_0, text)
    } else {
        match symbol {
            Ok(s) => !before.contains_key(s) && after == before.insert(s, text),
            Err(_) => after == before,
        }
    }
}

/// Whether some symbol of `texts` stands for `text`.
pub open spec fn holds_text(texts: Map<Symbol, Seq<char>>, text: Seq<char>) -> bool {
    exists|s: Symbol| #[trigger] texts.contains_key(s) && texts[s] == text
}

/// Whether no two symbols of `texts` stand for the same text.
pub open spec fn distinct_texts(texts: Map<Symbol, Seq<char>>) -> bool {
    forall|a: Symbol, b: Symbol|
        #[trigger] texts.contains_key(a) && #[trigger] texts.contains_key(b) && texts[a]
            == texts[b] ==> a == b
}

/// Interning keeps what is held: no text is held twice afterwards, and every
/// symbol stands for the text it stood for.
pub proof fn lemma_interned_grows(
    before: Map<Symbol, Seq<char>>,
    text: Seq<char>,
    symbol: Result<Symbol, InternError>,
    after: Map<Symbol, Seq<char>>,
)
    requires
        distinct_texts(before),
        interned(before, text, symbol, after),
    ensures
        distinct_texts(after),
        before.submap_of(after),
        symbol is Ok ==> after.contains_pair(symbol->Ok_0, text),
{
    if !holds_text(before, text) && symbol is Ok {
        let s = symbol->Ok_0;
        assert forall|a: Symbol, b: Symbol|
            #[trigger] after.contains_key(a) && #[trigger] after.contains_key(b) && after[a]
                == after[b] implies a == b by {
            if a != s && b != s {
                assert(before.contains_key(a) && before.contains_key(b));
            } else if a != s {
                assert(before.contains_key(a) && before[a] == text);
            } else if b != s {
                assert(before.contains_key(b) && before[b] == text);
            }
        }
    }
}

/// Interning is idempotent. Once a text has been given a symbol, interning
/// it again, at once or after the interner has taken other texts, succeeds
/// with the same symbol and changes nothing; and the symbol stands for the
/// text.
pub proof fn lemma_intern_idempotent(
    before: Map<Symbol, Seq<char>>,
    text: Seq<char>,
    first: Symbol,
    between: Map<Symbol, Seq<char>>,
    later: Map<Symbol, Seq<char>>,
    second: Result<Symbol, InternError>,
    after: Map<Symbol, Seq<char>>,
)
    requires
        distinct_texts(before),
        interned(before, text, Ok(first), between),
        between.submap_of(later),
        distinct_texts(later),
        interned(later, text, second, after),
    ensures
        second == Ok::<Symbol, InternError>(first),
        after == later,
        after.contains_pair(first, text),
{
    lemma_interned_grows(before, text, Ok(first), between);
    assert(between.contains_key(first));
    assert(later.contains_key(first) && later[first] == text);
}

/// Interning tells texts apart. Two different texts never get the same
/// symbol, whatever the interner has taken between the two.
pub proof fn lemma_intern_distinct(
    before: Map<Symbol, Seq<char>>,
    text1: Seq<char>,
    symbol1: Symbol,
    between: Map<Symbol, Seq<char>>,
    later: Map<Symbol, Seq<char>>,
    text2: Seq<char>,
    symbol2: Symbol,
    after: Map<Symbol, Seq<char>>,
)
    requires
        distinct_texts(before),
        interned(before, text1, Ok(symbol1), between),
        between.submap_of(later),
        distinct_texts(later),
        interned(later, text2, Ok(symbol2), after),
        text1 != text2,
    ensures
        symbol1 != symbol2,
        after.contains_pair(symbol1, text1),
        after.contains_pair(symbol2, text2),
{
    lemma_interned_grows(before, text1, Ok(symbol1), between);
    lemma_interned_grows(later, text2, Ok(symbol2), after);
    assert(between.contains_key(symbol1));
    assert(later.contains_key(symbol1) && later[symbol1] == text1);
    assert(after.contains_key(symbol1) && after[symbol1] == text1);
}

/// An interner: the store of texts behind the symbols.
pub struct Interner {
    rodeo: ThreadedRodeo<Spur, RandomState>,
    empty: Symbol,
    under: Symbol,
    truth: Symbol,
    falsity: Symbol,
}

impl View for Interner {
    type V = Map<Symbol, Seq<char>>;

    /// The text that each symbol stands for.
    closed spec fn view(&self) -> Map<Symbol, Seq<char>> {
        Map::new(
            |s: Symbol| rodeo_strings(self.rodeo).contains_key(s.0),
            |s: Symbol| rodeo_strings(self.rodeo)[s.0],
        )
    }
}

impl Interner {
    /// The symbol registered for a reserved text.
    pub closed spec fn reserved(&self, keyword: Keyword) -> Symbol {
        match keyword {
            Keyword::Empty => self.empty,
            Keyword::Under => self.under,
            Keyword::True => self.truth,
            Keyword::False => self.falsity,
        }
    }

    /// No text is held twice, and each reserved text is held under its
    /// registered symbol.
    pub open spec fn wf(&self) -> bool {
        &&& distinct_texts(self@)
        &&& forall|keyword: Keyword|
            self@.contains_pair(#[trigger] self.reserved(keyword), keyword.text())
    }

    proof fn lemma_stored(&self, text: Seq<char>)
        ensures
            stored(rodeo_strings(self.rodeo), text) == holds_text(self@, text),
    {
        if stored(rodeo_strings(self.rodeo), text) {
            let index = choose|index: u32| #[trigger]
                rodeo_strings(self.rodeo).contains_key(index) && rodeo_strings(self.rodeo)[index]
                    == text;
            assert(self@.contains_key(Symbol(index)));
        }
        if holds_text(self@, text) {
            let s = choose|s: Symbol| #[trigger] self@.contains_key(s) && self@[s] == text;
            assert(rodeo_strings(self.rodeo).contains_key(s.0));
        }
    }

    fn intern_with(&mut self, string: &str, in_place: Option<&'static str>) -> (symbol: Result<
        Symbol,
        InternError,
    >)
        requires
            old(self).wf(),
            in_place is Some ==> in_place->Some_0@ == string@,
        ensures
            final(self).wf(),
            interned(old(self)@, string@, symbol, final(self)@),
            forall|keyword: Keyword| final(self).reserved(keyword) == old(self).reserved(keyword),
    {
        proof {
            self.lemma_stored(string@);
        }
        let ghost before = *self;
        let outcome = match in_place {
            Some(fixed) => rodeo_try_get_or_intern_static(&mut self.rodeo, fixed),
            None => rodeo_try_get_or_intern(&mut self.rodeo, string),
        };
        match outcome {
            Ok(index) => {
                proof {
                    assert(self@ =~= before@.insert(Symbol(index), string@));
                    if holds_text(before@, string@) {
                        assert(before@.contains_pair(Symbol(index), string@));
                        assert(self@ =~= before@);
                    } else {
                        assert(!before@.contains_key(Symbol(index)));
                        assert forall|a: Symbol, b: Symbol|
                            #[trigger] self@.contains_key(a) && #[trigger] self@.contains_key(b)
                                && self@[a] == self@[b] implies a == b by {
                            if a != Symbol(index) && b != Symbol(index) {
                                assert(before@.contains_key(a) && before@.contains_key(b));
                            } else if a != Symbol(index) {
                                assert(before@.contains_key(a) && before@[a] == string@);
                            } else if b != Symbol(index) {
                                assert(before@.contains_key(b) && before@[b] == string@);
                            }
                        }
                    }
                    assert forall|keyword: Keyword|
                        self@.contains_pair(
                            #[trigger] self.reserved(keyword),
                            keyword.text(),
                        ) by {
                        assert(self.reserved(keyword) == before.reserved(keyword));
                        assert(before@.contains_pair(before.reserved(keyword), keyword.text()));
                    }
                }
                Ok(Symbol(index))
            },
            Err(_) => {
                proof {
                    assert(self@ =~= before@);
                    assert forall|keyword: Keyword|
                        self@.contains_pair(
                            #[trigger] self.reserved(keyword),
                            keyword.text(),
                        ) by {
                        assert(self.reserved(keyword) == before.reserved(keyword));
                        assert(before@.contains_pair(before.reserved(keyword), keyword.text()));
                    }
                }
                Err(InternError)
            },
        }
    }

    /// A new interner, which holds the reserved texts and nothing else. It
    /// is always `Some`: a new rodeo has keys to spare for the four texts.
    pub fn new() -> (made: Option<Interner>)
        ensures
            made is Some,
            made->Some_0.wf(),
            forall|s: Symbol| #[trigger]
                made->Some_0@.contains_key(s) <==> exists|keyword: Keyword|
                    s == made->Some_0.reserved(keyword),
    {
        let mut rodeo = rodeo_new();
        let ghost r0 = rodeo_strings(rodeo);
        let empty = match rodeo_try_get_or_intern_static(&mut rodeo, Keyword::Empty.as_str()) {
            Ok(index) => Symbol(index),
            Err(_) => {
                return None;
            },
        };
        let ghost r1 = rodeo_strings(rodeo);
        assert(rodeo_keys(rodeo) <= 1);
        let under = match rodeo_try_get_or_intern_static(&mut rodeo, Keyword::Under.as_str()) {
            Ok(index) => Symbol(index),
            Err(_) => {
                return None;
            },
        };
        let ghost r2 = rodeo_strings(rodeo);
        assert(rodeo_keys(rodeo) <= 2);
        let truth = match rodeo_try_get_or_intern_static(&mut rodeo, Keyword::True.as_str()) {
            Ok(index) => Symbol(index),
            Err(_) => {
                return None;
            },
        };
        let ghost r3 = rodeo_strings(rodeo);
        assert(rodeo_keys(rodeo) <= 3);
        let falsity = match rodeo_try_get_or_intern_static(&mut rodeo, Keyword::False.as_str()) {
            Ok(index) => Symbol(index),
            Err(_) => {
                return None;
            },
        };
        let made = Interner { rodeo, empty, under, truth, falsity };
        proof {
            let r4 = rodeo_strings(made.rodeo);
            assert(r1 == r0.insert(empty.0, Keyword::Empty.text()));
            assert(r2 == r1.insert(under.0, Keyword::Under.text()));
            assert(r3 == r2.insert(truth.0, Keyword::True.text()));
            assert(r4 == r3.insert(falsity.0, Keyword::False.text()));
            Keyword::lemma_texts_differ(Keyword::Empty, Keyword::Under);
            Keyword::lemma_texts_differ(Keyword::Empty, Keyword::True);
            Keyword::lemma_texts_differ(Keyword::Empty, Keyword::False);
            Keyword::lemma_texts_differ(Keyword::Under, Keyword::True);
            Keyword::lemma_texts_differ(Keyword::Under, Keyword::False);
            Keyword::lemma_texts_differ(Keyword::True, Keyword::False);
            assert(stored(r1, Keyword::Empty.text())) by {
                assert(r1.contains_key(empty.0));
            }
            assert(stored(r2, Keyword::Empty.text())) by {
                assert(r2.contains_key(empty.0));
            }
            assert(stored(r3, Keyword::Empty.text())) by {
                assert(r3.contains_key(empty.0));
            }
            assert(stored(r2, Keyword::Under.text())) by {
                assert(r2.contains_key(under.0));
            }
            assert(stored(r3, Keyword::Under.text())) by {
                assert(r3.contains_key(under.0));
            }
            assert(stored(r3, Keyword::True.text())) by {
                assert(r3.contains_key(truth.0));
            }
            assert forall|keyword: Keyword|
                made@.contains_pair(#[trigger] made.reserved(keyword), keyword.text()) by {
                assert(r4.contains_key(made.reserved(keyword).0));
            }
            assert forall|s: Symbol| #[trigger] made@.contains_key(s) implies exists|
                keyword: Keyword,
            |
                s == made.reserved(keyword) by {
                if s.0 == empty.0 {
                    assert(s == made.reserved(Keyword::Empty));
                } else if s.0 == under.0 {
                    assert(s == made.reserved(Keyword::Under));
                } else if s.0 == truth.0 {
                    assert(s == made.reserved(Keyword::True));
                } else {
                    assert(s.0 == falsity.0);
                    assert(s == made.reserved(Keyword::False));
                }
            }
            assert(distinct_texts(made@)) by {
                assert forall|a: Symbol, b: Symbol|
                    #[trigger] made@.contains_key(a) && #[trigger] made@.contains_key(b)
                        && made@[a] == made@[b] implies a == b by {
                    let ka = choose|keyword: Keyword| a == made.reserved(keyword);
                    let kb = choose|keyword: Keyword| b == made.reserved(keyword);
                    assert(made@.contains_pair(made.reserved(ka), ka.text()));
                    assert(made@.contains_pair(made.reserved(kb), kb.text()));
                    Keyword::lemma_texts_differ(ka, kb);
                }
            }
        }
        Some(made)
    }

    /// In a well-formed interner each reserved text has one symbol, and no
    /// two reserved texts share one.
    pub proof fn lemma_reserved(&self, symbol: Symbol)
        requires
            self.wf(),
        ensures
            forall|a: Keyword, b: Keyword|
                #[trigger] self.reserved(a) == #[trigger] self.reserved(b) ==> a == b,
            self@.contains_key(symbol) ==> forall|keyword: Keyword|
                symbol == self.reserved(keyword) <==> self@[symbol] == #[trigger] keyword.text(),
    {
        assert forall|a: Keyword, b: Keyword| #[trigger]
            self.reserved(a) == #[trigger] self.reserved(b) implies a == b by {
            assert(self@.contains_pair(self.reserved(a), a.text()));
            assert(self@.contains_pair(self.reserved(b), b.text()));
            Keyword::lemma_texts_differ(a, b);
        }
        if self@.contains_key(symbol) {
            assert forall|keyword: Keyword|
                symbol == self.reserved(keyword) <==> self@[symbol] == #[trigger] keyword.text() by {
                assert(self@.contains_pair(self.reserved(keyword), keyword.text()));
            }
        }
    }

    /// The text that `symbol` stands for, if this interner made the symbol.
    pub fn resolve(&self, symbol: Symbol) -> (text: Option<&str>)
        ensures
            text is Some == self@.contains_key(symbol),
            text is Some ==> text->Some_0@ == self@[symbol],
    {
        rodeo_try_resolve(&self.rodeo, symbol.0)
    }

    /// The symbol registered for a reserved text.
    pub fn keyword(&self, keyword: Keyword) -> (symbol: Symbol)
        ensures
            symbol == self.reserved(keyword),
    {
        match keyword {
            Keyword::Empty => self.empty,
            Keyword::Under => self.under,
            Keyword::True => self.truth,
            Keyword::False => self.falsity,
        }
    }
}

impl Symbol {
    /// Interns `string`: the symbol that stands for it, which is the one it
    /// had if it was interned before.
    pub fn intern(interner: &mut Interner, string: &str) -> (symbol: Result<Symbol, InternError>)
        requires
            old(interner).wf(),
        ensures
            final(interner).wf(),
            interned(old(interner)@, string@, symbol, final(interner)@),
            forall|keyword: Keyword|
                final(interner).reserved(keyword) == old(interner).reserved(keyword),
    {
        interner.intern_with(string, None)
    }

    /// As [`Symbol::intern`], for a string that lives as long as the program:
    /// the interner then keeps the string where it is.
    pub fn intern_static(interner: &mut Interner, string: &'static str) -> (symbol: Result<
        Symbol,
        InternError,
    >)
        requires
            old(interner).wf(),
        ensures
            final(interner).wf(),
            interned(old(interner)@, string@, symbol, final(interner)@),
            forall|keyword: Keyword|
                final(interner).reserved(keyword) == old(interner).reserved(keyword),
    {
        interner.intern_with(string, Some(string))
    }

    /// The raw index of the symbol.
    pub closed spec fn index(self) -> u32 {
        self.0
    }

    pub fn as_u32(self) -> (index: u32)
        ensures
            index == self.index(),
    {
        self.0
    }

    /// The text that the symbol stands for.
    pub fn as_str<'a>(self, interner: &'a Interner) -> (text: &'a str)
        requires
            interner@.contains_key(self),
        ensures
            text@ == interner@[self],
    {
        match interner.resolve(self) {
            Some(text) => text,
            None => "",
        }
    }

    /// Whether the symbol is the one registered for the empty string.
    pub fn is_empty(self, interner: &Interner) -> (r: bool)
        ensures
            r == (self == interner.reserved(Keyword::Empty)),
            interner.wf() && interner@.contains_key(self) ==> r == (interner@[self]
                == Keyword::Empty.text()),
    {
        proof {
            if interner.wf() {
                assert(interner@.contains_pair(
                    interner.reserved(Keyword::Empty),
                    Keyword::Empty.text(),
                ));
            }
        }
        self.0 == interner.empty.0
    }

    /// Whether the symbol is the one registered for `true` or for `false`.
    pub fn is_keyword(self, interner: &Interner) -> (r: bool)
        ensures
            r == (self == interner.reserved(Keyword::True) || self == interner.reserved(
                Keyword::False,
            )),
            interner.wf() && interner@.contains_key(self) ==> r == (interner@[self]
                == Keyword::True.text() || interner@[self] == Keyword::False.text()),
    {
        proof {
            if interner.wf() {
                assert(interner@.contains_pair(
                    interner.reserved(Keyword::True),
                    Keyword::True.text(),
                ));
                assert(interner@.contains_pair(
                    interner.reserved(Keyword::False),
                    Keyword::False.text(),
                ));
            }
        }
        self.0 == interner.truth.0 || self.0 == interner.falsity.0
    }

    /// The reserved text that the symbol stands for, if it stands for one.
    pub fn classify(self, interner: &Interner) -> (r: Option<Keyword>)
        requires
            interner.wf(),
        ensures
            forall|keyword: Keyword|
                r == Some(keyword) <==> self == #[trigger] interner.reserved(keyword),
            interner@.contains_key(self) ==> forall|keyword: Keyword|
                r == Some(keyword) <==> interner@[self] == #[trigger] keyword.text(),
    {
        let r = if self.0 == interner.empty.0 {
            Some(Keyword::Empty)
        } else if self.0 == interner.under.0 {
            Some(Keyword::Under)
        } else if self.0 == interner.truth.0 {
            Some(Keyword::True)
        } else if self.0 == interner.falsity.0 {
            Some(Keyword::False)
        } else {
            None
        };
        proof {
            interner.lemma_reserved(self);
            let empty = interner.reserved(Keyword::Empty);
            let under = interner.reserved(Keyword::Under);
            let truth = interner.reserved(Keyword::True);
            let falsity = interner.reserved(Keyword::False);
            assert(empty != under && empty != truth && empty != falsity && under != truth && under
                != falsity && truth != falsity);
            assert forall|keyword: Keyword|
                r == Some(keyword) <==> self == #[trigger] interner.reserved(keyword) by {
                assert(keyword == Keyword::Empty || keyword == Keyword::Under || keyword
                    == Keyword::True || keyword == Keyword::False);
            }
            if interner@.contains_key(self) {
                assert forall|keyword: Keyword|
                    r == Some(keyword) <==> interner@[self] == #[trigger] keyword.text() by {
                    assert(r == Some(keyword) <==> self == interner.reserved(keyword));
                }
            }
        }
        r
    }
}

/// A string that is interned unless it is long.
#[derive(Clone, Copy, Debug, PartialEq, Eq)]
pub enum PotentiallyInterned<'a> {
    /// A string kept as it is.
    Uninterned(&'a str),
    /// A string that a symbol stands for.
    Interned(Symbol),
}

/// The longest string, in bytes, that [`PotentiallyInterned`] interns.
pub const INTERN_LIMIT: usize = 255;

impl<'a> PotentiallyInterned<'a> {
    /// The text held, given the texts `texts` of the interner.
    pub open spec fn text(self, texts: Map<Symbol, Seq<char>>) -> Seq<char> {
        match self {
            PotentiallyInterned::Uninterned(string) => string@,
            PotentiallyInterned::Interned(symbol) => texts[symbol],
        }
    }

    /// What [`PotentiallyInterned::potentially_intern`] makes of `string`,
    /// once an attempt to intern it has ended in `symbol`: a string of more
    /// than 255 bytes is kept as it is, and a shorter one is held by its
    /// symbol, or the failure is handed on.
    pub fn from_outcome(string: &'a str, symbol: Result<Symbol, InternError>) -> (r: Result<
        Self,
        InternError,
    >)
        ensures
            r == if string.len() > INTERN_LIMIT {
                Ok::<Self, InternError>(PotentiallyInterned::Uninterned(string))
            } else {
                match symbol {
                    Ok(s) => Ok(PotentiallyInterned::Interned(s)),
                    Err(e) => Err(e),
                }
            },
    {
        if string.len() > INTERN_LIMIT {
            Ok(PotentiallyInterned::Uninterned(string))
        } else {
            match symbol {
                Ok(s) => Ok(PotentiallyInterned::Interned(s)),
                Err(e) => Err(e),
            }
        }
    }

    /// Interns `string` if it has at most 255 bytes, and keeps it as it is
    /// otherwise.
    pub fn potentially_intern(interner: &mut Interner, string: &'a str) -> (r: Result<
        Self,
        InternError,
    >)
        requires
            old(interner).wf(),
        ensures
            final(interner).wf(),
            forall|keyword: Keyword|
                final(interner).reserved(keyword) == old(interner).reserved(keyword),
            string.len() > INTERN_LIMIT ==> final(interner)@ == old(interner)@ && r
                == Ok::<Self, InternError>(PotentiallyInterned::Uninterned(string)),
            string.len() <= INTERN_LIMIT ==> !(r matches Ok(
                PotentiallyInterned::Uninterned(_),
            )) && interned(
                old(interner)@,
                string@,
                match r {
                    Ok(PotentiallyInterned::Interned(s)) => Ok(s),
                    _ => Err(InternError),
                },
                final(interner)@,
            ),
            r is Ok ==> r->Ok_0.text(final(interner)@) == string@,
    {
        if string.len() > INTERN_LIMIT {
            Ok(PotentiallyInterned::Uninterned(string))
        } else {
            let symbol = Symbol::intern(interner, string);
            PotentiallyInterned::from_outcome(string, symbol)
        }
    }

    /// The text held.
    pub fn as_str(&self, interner: &'a Interner) -> (text: &'a str)
        requires
            self matches PotentiallyInterned::Interned(symbol) ==> interner@.contains_key(*symbol),
        ensures
            text@ == self.text(interner@),
    {
        match self {
            PotentiallyInterned::Interned(symbol) => symbol.as_str(interner),
            PotentiallyInterned::Uninterned(string) => *string,
        }
    }
}

} // verus!
