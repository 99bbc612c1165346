use calypso::kw::Keyword;
use calypso::symbol::{Interner, PotentiallyInterned, Symbol};

#[test]
fn interning_is_idempotent() {
    let mut interner = Interner::new().unwrap();
    let first = Symbol::intern(&mut interner, "hello").unwrap();
    let second = Symbol::intern(&mut interner, "hello").unwrap();
    assert_eq!(first, second);
    assert_eq!(first.as_u32(), second.as_u32());
    assert_eq!(first.as_str(&interner), "hello");
}

#[test]
fn interning_is_idempotent_after_other_texts() {
    let mut interner = Interner::new().unwrap();
    let first = Symbol::intern(&mut interner, "alpha").unwrap();
    let other = Symbol::intern(&mut interner, "beta").unwrap();
    let again = Symbol::intern_static(&mut interner, "alpha").unwrap();
    assert_eq!(first, again);
    assert_ne!(first, other);
    assert_eq!(again.as_str(&interner), "alpha");
    assert_eq!(other.as_str(&interner), "beta");
}

#[test]
fn interning_tells_texts_apart() {
    let mut interner = Interner::new().unwrap();
    let a = Symbol::intern(&mut interner, "a").unwrap();
    let b = Symbol::intern(&mut interner, "b").unwrap();
    let upper = Symbol::intern(&mut interner, "A").unwrap();
    let longer = Symbol::intern(&mut interner, "a ").unwrap();
    assert_ne!(a, b);
    assert_ne!(a, upper);
    assert_ne!(a, longer);
    assert_ne!(b, upper);
    assert_eq!(a.as_str(&interner), "a");
    assert_eq!(b.as_str(&interner), "b");
    assert_eq!(upper.as_str(&interner), "A");
    assert_eq!(longer.as_str(&interner), "a ");
}

#[test]
fn resolve_gives_the_text_back() {
    let mut interner = Interner::new().unwrap();
    let symbol = Symbol::intern(&mut interner, "wörld").unwrap();
    assert_eq!(interner.resolve(symbol), Some("wörld"));
    assert_eq!(symbol.as_str(&interner), "wörld");
}

#[test]
fn resolve_knows_no_foreign_symbol() {
    let mut big = Interner::new().unwrap();
    let small = Interner::new().unwrap();
    let symbol = Symbol::intern(&mut big, "only in the big one").unwrap();
    assert_eq!(big.resolve(symbol), Some("only in the big one"));
    assert_eq!(small.resolve(symbol), None);
}

#[test]
fn static_and_borrowed_interning_agree() {
    let mut interner = Interner::new().unwrap();
    let fixed = Symbol::intern_static(&mut interner, "fixed").unwrap();
    let text = String::from("fixed");
    let borrowed = Symbol::intern(&mut interner, &text).unwrap();
    assert_eq!(fixed, borrowed);
    assert_eq!(fixed.as_str(&interner), "fixed");
}

#[test]
fn reserved_texts_are_registered() {
    let interner = Interner::new().unwrap();
    assert_eq!(interner.keyword(Keyword::Empty).as_str(&interner), "");
    assert_eq!(interner.keyword(Keyword::Under).as_str(&interner), "_");
    assert_eq!(interner.keyword(Keyword::True).as_str(&interner), "true");
    assert_eq!(interner.keyword(Keyword::False).as_str(&interner), "false");
    assert_eq!(Keyword::Empty.as_str(), "");
    assert_eq!(Keyword::Under.as_str(), "_");
    assert_eq!(Keyword::True.as_str(), "true");
    assert_eq!(Keyword::False.as_str(), "false");
}

#[test]
fn reserved_texts_intern_to_their_symbols() {
    let mut interner = Interner::new().unwrap();
    for keyword in [Keyword::Empty, Keyword::Under, Keyword::True, Keyword::False] {
        let registered = interner.keyword(keyword);
        let interned = Symbol::intern(&mut interner, keyword.as_str()).unwrap();
        assert_eq!(registered, interned);
        assert_eq!(interned.classify(&interner), Some(keyword));
    }
}

#[test]
fn reserved_symbols_differ() {
    let interner = Interner::new().unwrap();
    let all = [Keyword::Empty, Keyword::Under, Keyword::True, Keyword::False];
    for a in all {
        for b in all {
            assert_eq!(interner.keyword(a) == interner.keyword(b), a == b);
        }
    }
}

#[test]
fn is_empty_holds_of_the_empty_string_only() {
    let mut interner = Interner::new().unwrap();
    let empty = Symbol::intern(&mut interner, "").unwrap();
    let space = Symbol::intern(&mut interner, " ").unwrap();
    assert!(empty.is_empty(&interner));
    assert!(!space.is_empty(&interner));
    assert!(!interner.keyword(Keyword::Under).is_empty(&interner));
}

#[test]
fn is_keyword_holds_of_true_and_false_only() {
    let mut interner = Interner::new().unwrap();
    let truth = Symbol::intern(&mut interner, "true").unwrap();
    let falsity = Symbol::intern(&mut interner, "false").unwrap();
    let other = Symbol::intern(&mut interner, "truth").unwrap();
    let empty = Symbol::intern(&mut interner, "").unwrap();
    let under = Symbol::intern(&mut interner, "_").unwrap();
    assert!(truth.is_keyword(&interner));
    assert!(falsity.is_keyword(&interner));
    assert!(!other.is_keyword(&interner));
    assert!(!empty.is_keyword(&interner));
    assert!(!under.is_keyword(&interner));
}

#[test]
fn classify_finds_no_keyword_in_other_texts() {
    let mut interner = Interner::new().unwrap();
    let other = Symbol::intern(&mut interner, "if").unwrap();
    assert_eq!(other.classify(&interner), None);
    let under = Symbol::intern(&mut interner, "_").unwrap();
    assert_eq!(under.classify(&interner), Some(Keyword::Under));
}

#[test]
fn short_strings_are_interned() {
    let mut interner = Interner::new().unwrap();
    let text = "a".repeat(255);
    let held = PotentiallyInterned::potentially_intern(&mut interner, &text).unwrap();
    let symbol = Symbol::intern(&mut interner, &text).unwrap();
    assert_eq!(held, PotentiallyInterned::Interned(symbol));
    assert_eq!(held.as_str(&interner), text);
}

#[test]
fn long_strings_are_kept_as_they_are() {
    let mut interner = Interner::new().unwrap();
    let text = "a".repeat(256);
    let held = PotentiallyInterned::potentially_intern(&mut interner, &text).unwrap();
    assert_eq!(held, PotentiallyInterned::Uninterned(&text));
    assert_eq!(held.as_str(&interner), text);
}

#[test]
fn the_limit_counts_bytes() {
    let mut interner = Interner::new().unwrap();
    let text = "é".repeat(128);
    let held = PotentiallyInterned::potentially_intern(&mut interner, &text).unwrap();
    assert_eq!(held, PotentiallyInterned::Uninterned(&text));
    let shorter = "é".repeat(127);
    let held = PotentiallyInterned::potentially_intern(&mut interner, &shorter).unwrap();
    assert!(matches!(held, PotentiallyInterned::Interned(_)));
    assert_eq!(held.as_str(&interner), shorter);
}

#[test]
fn from_outcome_hands_a_failure_on() {
    let mut interner = Interner::new().unwrap();
    let symbol = Symbol::intern(&mut interner, "short").unwrap();
    assert_eq!(
        PotentiallyInterned::from_outcome("short", Ok(symbol)),
        Ok(PotentiallyInterned::Interned(symbol))
    );
    assert_eq!(
        PotentiallyInterned::from_outcome("short", Err(calypso::symbol::InternError)),
        Err(calypso::symbol::InternError)
    );
    let long = "b".repeat(300);
    assert_eq!(
        PotentiallyInterned::from_outcome(&long, Err(calypso::symbol::InternError)),
        Ok(PotentiallyInterned::Uninterned(&long))
    );
}

#[test]
fn many_texts_keep_their_symbols() {
    let mut interner = Interner::new().unwrap();
    let mut symbols = Vec::new();
    for i in 0..200 {
        let text = format!("name{}", i);
        symbols.push(Symbol::intern(&mut interner, &text).unwrap());
    }
    for i in 0..200 {
        let text = format!("name{}", i);
        assert_eq!(symbols[i].as_str(&interner), text);
        assert_eq!(Symbol::intern(&mut interner, &text).unwrap(), symbols[i]);
        for j in 0..i {
            assert_ne!(symbols[i], symbols[j]);
        }
    }
}
