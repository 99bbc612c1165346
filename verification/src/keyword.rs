//! The keyword classifier: a prefix tree from reserved spellings to keywords.

use crate::token::Keyword;
use radix_trie::Trie;
use vstd::prelude::*;

verus! {

/// `radix_trie::Trie`, the prefix tree. Nothing is known of what is inside
/// it but through `trie_entries`.
#[verifier::external_type_specification]
#[verifier::external_body]
#[verifier::reject_recursive_types(K)]
#[verifier::reject_recursive_types(V)]
pub struct ExTrie<K, V>(Trie<K, V>);

/// The entries of a prefix tree: the value stored under each key.
pub uninterp spec fn trie_entries(trie: Trie<String, Keyword>) -> Map<Seq<char>, Keyword>;

/// `radix_trie::Trie::new`: the tree it creates has no entries.
#[verifier::external_body]
fn trie_new() -> (made: Trie<String, Keyword>)
    ensures
        trie_entries(made) == (Map::<Seq<char>, Keyword>::empty()),
{
    Trie::new()
}

/// `radix_trie::Trie::insert`: afterwards `value` is stored under `key`, every
/// other key keeps its value, and the value that `key` had before is returned.
#[verifier::external_body]
fn trie_insert(trie: &mut Trie<String, Keyword>, key: &str, value: Keyword) -> (previous: Option<
    Keyword,
>)
    ensures
        trie_entries(*final(trie)) == trie_entries(*old(trie)).insert(key@, value),
        previous == if trie_entries(*old(trie)).contains_key(key@) {
            Some(trie_entries(*old(trie))[key@])
        } else {
            None
        },
{
    trie.insert(key.to_string(), value)
}

/// `radix_trie::Trie::get`: the value stored under the key spelled by `key`, if
/// the tree has that key.
#[verifier::external_body]
fn trie_get(trie: &Trie<String, Keyword>, key: &[char]) -> (value: Option<Keyword>)
    ensures
        value == if trie_entries(*trie).contains_key(key@) {
            Some(trie_entries(*trie)[key@])
        } else {
            None
        },
{
    let spelling: String = key.iter().collect();
    trie.get(&spelling).copied()
}

/// The keyword spelled exactly `word`, if `word` is reserved.
pub open spec fn keyword_of(word: Seq<char>) -> Option<Keyword> {
    if word == "as"@ {
        Some(Keyword::KwAs)
    } else if word == "del"@ {
        Some(Keyword::KwDel)
    } else if word == "null"@ {
        Some(Keyword::KwNull)
    } else if word == "undef"@ {
        Some(Keyword::KwUndef)
    } else if word == "mut"@ {
        Some(Keyword::KwMut)
    } else if word == "let"@ {
        Some(Keyword::KwLet)
    } else if word == "pub"@ {
        Some(Keyword::KwPub)
    } else if word == "import"@ {
        Some(Keyword::KwImport)
    } else if word == "use"@ {
        Some(Keyword::KwUse)
    } else if word == "mod"@ {
        Some(Keyword::KwMod)
    } else if word == "native"@ {
        Some(Keyword::KwNative)
    } else if word == "fn"@ {
        Some(Keyword::KwFn)
    } else if word == "break"@ {
        Some(Keyword::KwBreak)
    } else if word == "ret"@ {
        Some(Keyword::KwRet)
    } else if word == "match"@ {
        Some(Keyword::KwMatch)
    } else if word == "while"@ {
        Some(Keyword::KwWhile)
    } else if word == "loop"@ {
        Some(Keyword::KwLoop)
    } else if word == "in"@ {
        Some(Keyword::KwIn)
    } else if word == "for"@ {
        Some(Keyword::KwFor)
    } else if word == "else"@ {
        Some(Keyword::KwElse)
    } else if word == "if"@ {
        Some(Keyword::KwIf)
    } else if word == "true"@ {
        Some(Keyword::KwTrue)
    } else if word == "false"@ {
        Some(Keyword::KwFalse)
    } else if word == "array"@ {
        Some(Keyword::KwArrayTy)
    } else if word == "tuple"@ {
        Some(Keyword::KwTupleTy)
    } else if word == "char"@ {
        Some(Keyword::KwCharTy)
    } else if word == "string"@ {
        Some(Keyword::KwStringTy)
    } else if word == "float"@ {
        Some(Keyword::KwFloatTy)
    } else if word == "uint"@ {
        Some(Keyword::KwUintTy)
    } else if word == "sint"@ {
        Some(Keyword::KwSintTy)
    } else if word == "bool"@ {
        Some(Keyword::KwBoolTy)
    } else if word == "isa"@ {
        Some(Keyword::KwIsa)
    } else if word == "is"@ {
        Some(Keyword::KwIs)
    } else {
        None
    }
}

/// The reserved words, each with its keyword.
pub open spec fn keywords() -> Map<Seq<char>, Keyword> {
    Map::new(|word: Seq<char>| keyword_of(word) is Some, |word: Seq<char>| keyword_of(word)->Some_0)
}

/// The table of reserved words.
#[derive(Debug)]
pub struct KeywordTable {
    trie: Trie<String, Keyword>,
}

impl View for KeywordTable {
    type V = Map<Seq<char>, Keyword>;

    /// The entries of the table.
    closed spec fn view(&self) -> Map<Seq<char>, Keyword> {
        trie_entries(self.trie)
    }
}

impl KeywordTable {
    /// The table holds the reserved words, each with its keyword, and
    /// nothing else.
    #[verifier::type_invariant]
    closed spec fn holds_keywords(&self) -> bool {
        self@ == keywords()
    }

    pub fn new() -> (table: KeywordTable)
        ensures
            table@ == keywords(),
    {
        let mut trie = trie_new();
        trie_insert(&mut trie, "is", Keyword::KwIs);
        trie_insert(&mut trie, "isa", Keyword::KwIsa);
        trie_insert(&mut trie, "bool", Keyword::KwBoolTy);
        trie_insert(&mut trie, "sint", Keyword::KwSintTy);
        trie_insert(&mut trie, "uint", Keyword::KwUintTy);
        trie_insert(&mut trie, "float", Keyword::KwFloatTy);
        trie_insert(&mut trie, "string", Keyword::KwStringTy);
        trie_insert(&mut trie, "char", Keyword::KwCharTy);
        trie_insert(&mut trie, "tuple", Keyword::KwTupleTy);
        trie_insert(&mut trie, "array", Keyword::KwArrayTy);
        trie_insert(&mut trie, "false", Keyword::KwFalse);
        trie_insert(&mut trie, "true", Keyword::KwTrue);
        trie_insert(&mut trie, "if", Keyword::KwIf);
        trie_insert(&mut trie, "else", Keyword::KwElse);
        trie_insert(&mut trie, "for", Keyword::KwFor);
        trie_insert(&mut trie, "in", Keyword::KwIn);
        trie_insert(&mut trie, "loop", Keyword::KwLoop);
        trie_insert(&mut trie, "while", Keyword::KwWhile);
        trie_insert(&mut trie, "match", Keyword::KwMatch);
        trie_insert(&mut trie, "ret", Keyword::KwRet);
        trie_insert(&mut trie, "break", Keyword::KwBreak);
        trie_insert(&mut trie, "fn", Keyword::KwFn);
        trie_insert(&mut trie, "native", Keyword::KwNative);
        trie_insert(&mut trie, "mod", Keyword::KwMod);
        trie_insert(&mut trie, "use", Keyword::KwUse);
        trie_insert(&mut trie, "import", Keyword::KwImport);
        trie_insert(&mut trie, "pub", Keyword::KwPub);
        trie_insert(&mut trie, "let", Keyword::KwLet);
        trie_insert(&mut trie, "mut", Keyword::KwMut);
        trie_insert(&mut trie, "undef", Keyword::KwUndef);
        trie_insert(&mut trie, "null", Keyword::KwNull);
        trie_insert(&mut trie, "del", Keyword::KwDel);
        trie_insert(&mut trie, "as", Keyword::KwAs);
        assert(trie_entries(trie) =~= keywords());
        KeywordTable { trie }
    }

    /// The keyword that `word` spells, if it spells one.
    pub fn get(&self, word: &[char]) -> (keyword: Option<Keyword>)
        ensures
            keyword == keyword_of(word@),
    {
        proof {
            use_type_invariant(self);
        }
        trie_get(&self.trie, word)
    }
}

impl Keyword {
    /// How the keyword is spelled.
    pub open spec fn spelling(self) -> Seq<char> {
        match self {
            Keyword::KwIs => "is"@,
            Keyword::KwIsa => "isa"@,
            Keyword::KwBoolTy => "bool"@,
            Keyword::KwSintTy => "sint"@,
            Keyword::KwUintTy => "uint"@,
            Keyword::KwFloatTy => "float"@,
            Keyword::KwStringTy => "string"@,
            Keyword::KwCharTy => "char"@,
            Keyword::KwTupleTy => "tuple"@,
            Keyword::KwArrayTy => "array"@,
            Keyword::KwFalse => "false"@,
            Keyword::KwTrue => "true"@,
            Keyword::KwIf => "if"@,
            Keyword::KwElse => "else"@,
            Keyword::KwFor => "for"@,
            Keyword::KwIn => "in"@,
            Keyword::KwLoop => "loop"@,
            Keyword::KwWhile => "while"@,
            Keyword::KwMatch => "match"@,
            Keyword::KwRet => "ret"@,
            Keyword::KwBreak => "break"@,
            Keyword::KwFn => "fn"@,
            Keyword::KwNative => "native"@,
            Keyword::KwMod => "mod"@,
            Keyword::KwUse => "use"@,
            Keyword::KwImport => "import"@,
            Keyword::KwPub => "pub"@,
            Keyword::KwLet => "let"@,
            Keyword::KwMut => "mut"@,
            Keyword::KwUndef => "undef"@,
            Keyword::KwNull => "null"@,
            Keyword::KwDel => "del"@,
            Keyword::KwAs => "as"@,
        }
    }
}

/// What the spellings of the reserved words are, as far as telling them
/// apart takes: the length and the first two characters of each.
proof fn lemma_spellings_revealed()
    ensures
        "is"@.len() == 2 && "is"@[0] == 'i' && "is"@[1] == 's',
        "isa"@.len() == 3 && "isa"@[0] == 'i' && "isa"@[1] == 's',
        "bool"@.len() == 4 && "bool"@[0] == 'b' && "bool"@[1] == 'o',
        "sint"@.len() == 4 && "sint"@[0] == 's' && "sint"@[1] == 'i',
        "uint"@.len() == 4 && "uint"@[0] == 'u' && "uint"@[1] == 'i',
        "float"@.len() == 5 && "float"@[0] == 'f' && "float"@[1] == 'l',
        "string"@.len() == 6 && "string"@[0] == 's' && "string"@[1] == 't',
        "char"@.len() == 4 && "char"@[0] == 'c' && "char"@[1] == 'h',
        "tuple"@.len() == 5 && "tuple"@[0] == 't' && "tuple"@[1] == 'u',
        "array"@.len() == 5 && "array"@[0] == 'a' && "array"@[1] == 'r',
        "false"@.len() == 5 && "false"@[0] == 'f' && "false"@[1] == 'a',
        "true"@.len() == 4 && "true"@[0] == 't' && "true"@[1] == 'r',
        "if"@.len() == 2 && "if"@[0] == 'i' && "if"@[1] == 'f',
        "else"@.len() == 4 && "else"@[0] == 'e' && "else"@[1] == 'l',
        "for"@.len() == 3 && "for"@[0] == 'f' && "for"@[1] == 'o',
        "in"@.len() == 2 && "in"@[0] == 'i' && "in"@[1] == 'n',
        "loop"@.len() == 4 && "loop"@[0] == 'l' && "loop"@[1] == 'o',
        "while"@.len() == 5 && "while"@[0] == 'w' && "while"@[1] == 'h',
        "match"@.len() == 5 && "match"@[0] == 'm' && "match"@[1] == 'a',
        "ret"@.len() == 3 && "ret"@[0] == 'r' && "ret"@[1] == 'e',
        "break"@.len() == 5 && "break"@[0] == 'b' && "break"@[1] == 'r',
        "fn"@.len() == 2 && "fn"@[0] == 'f' && "fn"@[1] == 'n',
        "native"@.len() == 6 && "native"@[0] == 'n' && "native"@[1] == 'a',
        "mod"@.len() == 3 && "mod"@[0] == 'm' && "mod"@[1] == 'o',
        "use"@.len() == 3 && "use"@[0] == 'u' && "use"@[1] == 's',
        "import"@.len() == 6 && "import"@[0] == 'i' && "import"@[1] == 'm',
        "pub"@.len() == 3 && "pub"@[0] == 'p' && "pub"@[1] == 'u',
        "let"@.len() == 3 && "let"@[0] == 'l' && "let"@[1] == 'e',
        "mut"@.len() == 3 && "mut"@[0] == 'm' && "mut"@[1] == 'u',
        "undef"@.len() == 5 && "undef"@[0] == 'u' && "undef"@[1] == 'n',
        "null"@.len() == 4 && "null"@[0] == 'n' && "null"@[1] == 'u',
        "del"@.len() == 3 && "del"@[0] == 'd' && "del"@[1] == 'e',
        "as"@.len() == 2 && "as"@[0] == 'a' && "as"@[1] == 's',
{
    reveal_strlit("is");
    reveal_strlit("isa");
    reveal_strlit("bool");
    reveal_strlit("sint");
    reveal_strlit("uint");
    reveal_strlit("float");
    reveal_strlit("string");
    reveal_strlit("char");
    reveal_strlit("tuple");
    reveal_strlit("array");
    reveal_strlit("false");
    reveal_strlit("true");
    reveal_strlit("if");
    reveal_strlit("else");
    reveal_strlit("for");
    reveal_strlit("in");
    reveal_strlit("loop");
    reveal_strlit("while");
    reveal_strlit("match");
    reveal_strlit("ret");
    reveal_strlit("break");
    reveal_strlit("fn");
    reveal_strlit("native");
    reveal_strlit("mod");
    reveal_strlit("use");
    reveal_strlit("import");
    reveal_strlit("pub");
    reveal_strlit("let");
    reveal_strlit("mut");
    reveal_strlit("undef");
    reveal_strlit("null");
    reveal_strlit("del");
    reveal_strlit("as");
}

/// The table is sound and complete: each keyword is found under its own
/// spelling, and under no other word.
pub proof fn lemma_keyword_of_spelling(keyword: Keyword, word: Seq<char>)
    ensures
        keyword_of(keyword.spelling()) == Some(keyword),
        keyword_of(word) == Some(keyword) <==> word == keyword.spelling(),
{
    lemma_spellings_revealed();
}

} // verus!
