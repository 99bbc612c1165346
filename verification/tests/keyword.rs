use calypso::chars::source_chars;
use calypso::keyword::KeywordTable;
use calypso::token::Keyword;

fn all() -> Vec<(&'static str, Keyword)> {
    vec![
        ("is", Keyword::KwIs),
        ("isa", Keyword::KwIsa),
        ("bool", Keyword::KwBoolTy),
        ("sint", Keyword::KwSintTy),
        ("uint", Keyword::KwUintTy),
        ("float", Keyword::KwFloatTy),
        ("string", Keyword::KwStringTy),
        ("char", Keyword::KwCharTy),
        ("tuple", Keyword::KwTupleTy),
        ("array", Keyword::KwArrayTy),
        ("false", Keyword::KwFalse),
        ("true", Keyword::KwTrue),
        ("if", Keyword::KwIf),
        ("else", Keyword::KwElse),
        ("for", Keyword::KwFor),
        ("in", Keyword::KwIn),
        ("loop", Keyword::KwLoop),
        ("while", Keyword::KwWhile),
        ("match", Keyword::KwMatch),
        ("ret", Keyword::KwRet),
        ("break", Keyword::KwBreak),
        ("fn", Keyword::KwFn),
        ("native", Keyword::KwNative),
        ("mod", Keyword::KwMod),
        ("use", Keyword::KwUse),
        ("import", Keyword::KwImport),
        ("pub", Keyword::KwPub),
        ("let", Keyword::KwLet),
        ("mut", Keyword::KwMut),
        ("undef", Keyword::KwUndef),
        ("null", Keyword::KwNull),
        ("del", Keyword::KwDel),
        ("as", Keyword::KwAs),
    ]
}

#[test]
fn every_reserved_word_is_found() {
    let table = KeywordTable::new();
    for (word, keyword) in all() {
        assert_eq!(table.get(&source_chars(word)), Some(keyword));
    }
}

#[test]
fn prefixes_and_extensions_are_not_keywords() {
    let table = KeywordTable::new();
    for (word, _) in all() {
        let longer = format!("{}x", word);
        assert_eq!(table.get(&source_chars(&longer)), None);
        let upper = word.to_uppercase();
        assert_eq!(table.get(&source_chars(&upper)), None);
    }
    for word in ["", "i", "im", "impor", "whil", "nul", "_", "x", "If", "i s"] {
        assert_eq!(table.get(&source_chars(word)), None);
    }
}
