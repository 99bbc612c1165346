use calypso::chars::source_chars;
use calypso::diagnostic::{ErrorCode, Report, Reports};
use calypso::lexer::Lexer;
use calypso::span::Span;
use calypso::token::{Keyword, TokenType};

fn tokens(source: &str) -> Vec<(TokenType, usize, usize)> {
    let chars = source_chars(source);
    let mut lexer = Lexer::new(0, &chars, Reports::new());
    let mut tokens = Vec::new();
    loop {
        let token = lexer.scan().unwrap();
        assert_eq!(token.value.1, &chars[token.span.start()..token.span.end()]);
        tokens.push((token.value.0, token.span.start(), token.span.end()));
        if token.value.0 == TokenType::Eof {
            assert_eq!(lexer.reports().len(), 0);
            return tokens;
        }
    }
}

fn kinds(source: &str) -> Vec<TokenType> {
    tokens(source).into_iter().map(|token| token.0).collect()
}

fn failure(source: &str) -> (ErrorCode, usize, usize, Option<char>, usize) {
    let chars = source_chars(source);
    let mut lexer = Lexer::new(5, &chars, Reports::new());
    let diagnostic = loop {
        match lexer.scan() {
            Ok(token) => assert_ne!(token.value.0, TokenType::Eof),
            Err(diagnostic) => break diagnostic,
        }
    };
    assert_eq!(diagnostic.source_id, 5);
    assert_eq!(lexer.reports().len(), 1);
    assert_eq!(lexer.reports().get(0), Some(Report { fatal: true, diagnostic }));
    (
        diagnostic.code,
        diagnostic.span.start(),
        diagnostic.span.end(),
        diagnostic.ch,
        lexer.position(),
    )
}

#[test]
fn shift_assign_is_one_token() {
    let chars = source_chars("<<=");
    let mut lexer = Lexer::new(0, &chars, Reports::new());
    let token = lexer.scan().unwrap();
    assert_eq!(token.value.0, TokenType::ShlAssign);
    assert_eq!(token.span, Span::new(0, 3));
    assert_eq!(token.value.1, &chars[..]);
    assert_eq!(lexer.scan().unwrap().value.0, TokenType::Eof);
    assert_eq!(kinds("<<="), vec![TokenType::ShlAssign, TokenType::Eof]);
}

#[test]
fn the_longest_operator_wins() {
    assert_eq!(kinds("<<=="), vec![TokenType::ShlAssign, TokenType::Equal, TokenType::Eof]);
    assert_eq!(kinds("<<<"), vec![TokenType::Shl, TokenType::Less, TokenType::Eof]);
    assert_eq!(kinds(">>>="), vec![TokenType::Shr, TokenType::GreaterEqual, TokenType::Eof]);
    assert_eq!(kinds("**=*"), vec![TokenType::ExpAssign, TokenType::Star, TokenType::Eof]);
    assert_eq!(kinds("...="), vec![TokenType::Range, TokenType::Dot, TokenType::Equal, TokenType::Eof]);
    assert_eq!(kinds("..=."), vec![TokenType::RangeInc, TokenType::Dot, TokenType::Eof]);
    assert_eq!(kinds("==="), vec![TokenType::BoolEqual, TokenType::Equal, TokenType::Eof]);
    assert_eq!(kinds("|||"), vec![TokenType::BoolOr, TokenType::Pipe, TokenType::Eof]);
    assert_eq!(kinds("&&="), vec![TokenType::BoolAnd, TokenType::Equal, TokenType::Eof]);
    assert_eq!(kinds("<>="), vec![TokenType::GreaterLess, TokenType::Equal, TokenType::Eof]);
    assert_eq!(kinds("#!!"), vec![TokenType::HashBang, TokenType::Bang, TokenType::Eof]);
    assert_eq!(kinds("< <="), vec![TokenType::Less, TokenType::LessEqual, TokenType::Eof]);
}

#[test]
fn every_operator_has_its_token() {
    let table = [
        ("<>", TokenType::GreaterLess),
        ("<<=", TokenType::ShlAssign),
        ("<<", TokenType::Shl),
        ("<=", TokenType::LessEqual),
        ("<", TokenType::Less),
        (">>=", TokenType::ShrAssign),
        (">>", TokenType::Shr),
        (">=", TokenType::GreaterEqual),
        (">", TokenType::Greater),
        ("==", TokenType::BoolEqual),
        ("=", TokenType::Equal),
        ("!=", TokenType::NotEqual),
        ("!", TokenType::Bang),
        ("||", TokenType::BoolOr),
        ("|=", TokenType::PipeAssign),
        ("|", TokenType::Pipe),
        ("&&", TokenType::BoolAnd),
        ("&=", TokenType::AndAssign),
        ("&", TokenType::And),
        ("+=", TokenType::PlusAssign),
        ("+", TokenType::Plus),
        ("-=", TokenType::MinusAssign),
        ("-", TokenType::Minus),
        ("**=", TokenType::ExpAssign),
        ("**", TokenType::Exp),
        ("*=", TokenType::StarAssign),
        ("*", TokenType::Star),
        ("/=", TokenType::SlashAssign),
        ("/", TokenType::Slash),
        ("%=", TokenType::RemAssign),
        ("%", TokenType::Rem),
        ("^=", TokenType::CaretAssign),
        ("^", TokenType::Caret),
        ("~", TokenType::Tilde),
        ("(", TokenType::LeftParen),
        (")", TokenType::RightParen),
        ("{", TokenType::LeftBrace),
        ("}", TokenType::RightBrace),
        ("[", TokenType::LeftBracket),
        ("]", TokenType::RightBracket),
        (",", TokenType::Comma),
        (";", TokenType::Semi),
        ("..=", TokenType::RangeInc),
        ("..", TokenType::Range),
        (".", TokenType::Dot),
        ("#!", TokenType::HashBang),
        ("#", TokenType::Hash),
    ];
    for (spelling, kind) in table {
        let len = spelling.chars().count();
        assert_eq!(tokens(spelling), vec![(kind, 0, len), (TokenType::Eof, len, len)]);
        let spaced = format!(" {} x", spelling);
        assert_eq!(
            tokens(&spaced),
            vec![
                (kind, 1, 1 + len),
                (TokenType::Ident, len + 2, len + 3),
                (TokenType::Eof, len + 3, len + 3)
            ]
        );
    }
}

#[test]
fn keyword_prefix_does_not_cut_identifier() {
    let chars = source_chars("ifx");
    let mut lexer = Lexer::new(0, &chars, Reports::new());
    let token = lexer.scan().unwrap();
    assert_eq!(token.value.0, TokenType::Ident);
    assert_eq!(token.span, Span::new(0, 3));
    assert_eq!(token.value.1, &chars[..]);
    assert_eq!(kinds("ifx"), vec![TokenType::Ident, TokenType::Eof]);
    assert_eq!(
        kinds("if x"),
        vec![TokenType::Keyword(Keyword::KwIf), TokenType::Ident, TokenType::Eof]
    );
    assert_eq!(kinds("isa"), vec![TokenType::Keyword(Keyword::KwIsa), TokenType::Eof]);
    assert_eq!(kinds("isab"), vec![TokenType::Ident, TokenType::Eof]);
    assert_eq!(kinds("is_"), vec![TokenType::Ident, TokenType::Eof]);
    assert_eq!(kinds("if0"), vec![TokenType::Ident, TokenType::Eof]);
    assert_eq!(kinds("If"), vec![TokenType::Ident, TokenType::Eof]);
}

#[test]
fn every_keyword_has_its_token() {
    let table = [
        ("is", Keyword::KwIs),
        ("isa", Keyword::KwIsa),
        ("bool", Keyword::KwBoolTy),
        ("sint", Keyword::KwSintTy),
        ("uint", Keyword::KwUintTy),
        ("float", Keyword::KwFloatTy),
        ("string", Keyword::KwStringTy),
        ("char", Keyword::KwCharTy),
        ("tuple", Keyword::KwTupleTy),
        ("array", Keyword::KwArrayTy),
        ("false", Keyword::KwFalse),
        ("true", Keyword::KwTrue),
        ("if", Keyword::KwIf),
        ("else", Keyword::KwElse),
        ("for", Keyword::KwFor),
        ("in", Keyword::KwIn),
        ("loop", Keyword::KwLoop),
        ("while", Keyword::KwWhile),
        ("match", Keyword::KwMatch),
        ("ret", Keyword::KwRet),
        ("break", Keyword::KwBreak),
        ("fn", Keyword::KwFn),
        ("native", Keyword::KwNative),
        ("mod", Keyword::KwMod),
        ("use", Keyword::KwUse),
        ("import", Keyword::KwImport),
        ("pub", Keyword::KwPub),
        ("let", Keyword::KwLet),
        ("mut", Keyword::KwMut),
        ("undef", Keyword::KwUndef),
        ("null", Keyword::KwNull),
        ("del", Keyword::KwDel),
        ("as", Keyword::KwAs),
    ];
    for (spelling, keyword) in table {
        let len = spelling.len();
        assert_eq!(
            tokens(spelling),
            vec![(TokenType::Keyword(keyword), 0, len), (TokenType::Eof, len, len)]
        );
        let longer = format!("{}1", spelling);
        assert_eq!(
            tokens(&longer),
            vec![(TokenType::Ident, 0, len + 1), (TokenType::Eof, len + 1, len + 1)]
        );
    }
}

#[test]
fn lone_underscore_is_its_own_token() {
    assert_eq!(tokens("_"), vec![(TokenType::Under, 0, 1), (TokenType::Eof, 1, 1)]);
    assert_eq!(
        tokens("_ x"),
        vec![(TokenType::Under, 0, 1), (TokenType::Ident, 2, 3), (TokenType::Eof, 3, 3)]
    );
    assert_eq!(
        tokens("_+_"),
        vec![
            (TokenType::Under, 0, 1),
            (TokenType::Plus, 1, 2),
            (TokenType::Under, 2, 3),
            (TokenType::Eof, 3, 3)
        ]
    );
}

#[test]
fn underscore_before_identifier_characters_is_an_identifier() {
    assert_eq!(tokens("_x"), vec![(TokenType::Ident, 0, 2), (TokenType::Eof, 2, 2)]);
    assert_eq!(tokens("__"), vec![(TokenType::Ident, 0, 2), (TokenType::Eof, 2, 2)]);
    assert_eq!(tokens("_1"), vec![(TokenType::Ident, 0, 2), (TokenType::Eof, 2, 2)]);
    assert_eq!(tokens("x_"), vec![(TokenType::Ident, 0, 2), (TokenType::Eof, 2, 2)]);
}

#[test]
fn identifiers_run_to_the_first_other_character() {
    assert_eq!(
        tokens("abc1_Z+d"),
        vec![
            (TokenType::Ident, 0, 6),
            (TokenType::Plus, 6, 7),
            (TokenType::Ident, 7, 8),
            (TokenType::Eof, 8, 8)
        ]
    );
}

#[test]
fn nested_comment_is_skipped_whole() {
    let chars = source_chars("/* a /* b */ c */");
    let mut lexer = Lexer::new(0, &chars, Reports::new());
    let token = lexer.scan().unwrap();
    assert_eq!(token.value.0, TokenType::Eof);
    assert_eq!(token.span, Span::new_shrunk(17));
    assert_eq!(token.value.1.len(), 0);
    assert_eq!(lexer.reports().len(), 0);
    assert_eq!(lexer.position(), 17);
}

#[test]
fn nested_comment_between_tokens() {
    assert_eq!(
        tokens("a/* /* */ */b"),
        vec![(TokenType::Ident, 0, 1), (TokenType::Ident, 12, 13), (TokenType::Eof, 13, 13)]
    );
    assert_eq!(
        tokens("/**/x"),
        vec![(TokenType::Ident, 4, 5), (TokenType::Eof, 5, 5)]
    );
    assert_eq!(
        tokens("/*/ */x"),
        vec![(TokenType::Ident, 6, 7), (TokenType::Eof, 7, 7)]
    );
}

#[test]
fn unterminated_nested_comment_reports_outer_opener() {
    let chars = source_chars("/* a /* b */");
    let mut lexer = Lexer::new(3, &chars, Reports::new());
    let error = lexer.scan().unwrap_err();
    assert_eq!(error.code, ErrorCode::E0002);
    assert_eq!(error.span, Span::new(0, 2));
    assert_eq!(error.source_id, 3);
    assert_eq!(error.ch, None);
    assert_eq!(lexer.reports().len(), 1);
    let report = lexer.reports().get(0).unwrap();
    assert!(report.fatal);
    assert_eq!(report.diagnostic, error);
    assert_eq!(lexer.position(), 12);
}

#[test]
fn unterminated_comments_report_the_oldest_opener() {
    assert_eq!(failure("/*"), (ErrorCode::E0002, 0, 2, None, 2));
    assert_eq!(failure("/* /* "), (ErrorCode::E0002, 0, 2, None, 6));
    assert_eq!(failure("x /* /* */"), (ErrorCode::E0002, 2, 4, None, 10));
    assert_eq!(failure("/* */ /* a"), (ErrorCode::E0002, 6, 8, None, 10));
    assert_eq!(failure("/*/"), (ErrorCode::E0002, 0, 2, None, 3));
}

#[test]
fn dangling_comment_end_is_reported_and_skipped() {
    let chars = source_chars("*/ x");
    let mut lexer = Lexer::new(9, &chars, Reports::new());
    let token = lexer.scan().unwrap();
    assert_eq!(token.value.0, TokenType::Ident);
    assert_eq!(token.span, Span::new(3, 1));
    assert_eq!(token.value.1, &['x'][..]);
    assert_eq!(lexer.reports().len(), 1);
    let report = lexer.reports().get(0).unwrap();
    assert!(!report.fatal);
    assert_eq!(report.diagnostic.code, ErrorCode::E0001);
    assert_eq!(report.diagnostic.span, Span::new(0, 2));
    assert_eq!(report.diagnostic.source_id, 9);
    assert_eq!(report.diagnostic.ch, None);
    assert_eq!(lexer.scan().unwrap().value.0, TokenType::Eof);
    assert_eq!(lexer.reports().len(), 1);
}

#[test]
fn every_dangling_comment_end_is_reported() {
    let chars = source_chars("*/*/ a /* b */ */");
    let mut lexer = Lexer::new(0, &chars, Reports::new());
    let token = lexer.scan().unwrap();
    assert_eq!(token.value.0, TokenType::Ident);
    assert_eq!(token.span, Span::new(5, 1));
    assert_eq!(lexer.reports().len(), 2);
    assert_eq!(lexer.reports().get(0).unwrap().diagnostic.span, Span::new(0, 2));
    assert_eq!(lexer.reports().get(1).unwrap().diagnostic.span, Span::new(2, 2));
    let token = lexer.scan().unwrap();
    assert_eq!(token.value.0, TokenType::Eof);
    assert_eq!(lexer.reports().len(), 3);
    let last = lexer.reports().get(2).unwrap();
    assert!(!last.fatal);
    assert_eq!(last.diagnostic.code, ErrorCode::E0001);
    assert_eq!(last.diagnostic.span, Span::new(15, 2));
}

#[test]
fn dangling_end_before_an_unterminated_comment() {
    let chars = source_chars("*/ /* x");
    let mut lexer = Lexer::new(0, &chars, Reports::new());
    let error = lexer.scan().unwrap_err();
    assert_eq!(error.code, ErrorCode::E0002);
    assert_eq!(error.span, Span::new(3, 2));
    assert_eq!(lexer.reports().len(), 2);
    assert!(!lexer.reports().get(0).unwrap().fatal);
    assert_eq!(lexer.reports().get(0).unwrap().diagnostic.code, ErrorCode::E0001);
    assert_eq!(lexer.reports().get(1), Some(Report { fatal: true, diagnostic: error }));
}

#[test]
fn end_of_input_is_repeatable() {
    let chars = source_chars("x");
    let mut lexer = Lexer::new(0, &chars, Reports::new());
    assert_eq!(lexer.scan().unwrap().value.0, TokenType::Ident);
    for _ in 0..3 {
        let token = lexer.scan().unwrap();
        assert_eq!(token.value.0, TokenType::Eof);
        assert_eq!(token.span, Span::new_shrunk(1));
        assert!(token.span.is_empty());
        assert_eq!(token.value.1.len(), 0);
        assert_eq!(lexer.position(), 1);
    }
    assert_eq!(lexer.reports().len(), 0);
}

#[test]
fn empty_input_is_end_of_input() {
    assert_eq!(tokens(""), vec![(TokenType::Eof, 0, 0)]);
    assert_eq!(tokens("  \n\t "), vec![(TokenType::Eof, 5, 5)]);
    assert_eq!(tokens("// only a comment"), vec![(TokenType::Eof, 17, 17)]);
}

#[test]
fn hex_escape_with_one_digit_suggests_zero_padding() {
    let chars = source_chars("$\\x4");
    let mut lexer = Lexer::new(0, &chars, Reports::new());
    let error = lexer.scan().unwrap_err();
    assert_eq!(error.code, ErrorCode::E0009);
    assert_eq!(error.code.as_str(), "E0009");
    assert_eq!(error.span, Span::new(3, 1));
    assert_eq!(error.ch, Some('4'));
    assert_eq!(error.label(), "found only one hexadecimal digit here");
    assert_eq!(error.note(), Some(String::from("perhaps you meant to use `\\x04`?")));
    assert_eq!(lexer.reports().get(0), Some(Report { fatal: true, diagnostic: error }));
}

#[test]
fn hex_escape_errors() {
    assert_eq!(failure("$\\x"), (ErrorCode::E0004, 3, 3, None, 3));
    assert_eq!(failure("$\\x 41"), (ErrorCode::E0004, 3, 3, None, 3));
    assert_eq!(failure("$\\xg1"), (ErrorCode::E0005, 3, 4, Some('g'), 3));
    assert_eq!(failure("$\\x4g"), (ErrorCode::E0005, 4, 5, Some('g'), 4));
    assert_eq!(failure("$\\x4"), (ErrorCode::E0009, 3, 4, Some('4'), 4));
    assert_eq!(failure("$\\xf\n"), (ErrorCode::E0009, 3, 4, Some('f'), 4));
    assert_eq!(failure("a $\\xA b"), (ErrorCode::E0009, 5, 6, Some('A'), 6));
}

#[test]
fn escape_errors() {
    assert_eq!(failure("$\\q"), (ErrorCode::E0006, 1, 3, Some('q'), 3));
    assert_eq!(failure("$\\u"), (ErrorCode::E0006, 1, 3, Some('u'), 3));
    assert_eq!(failure("$\\"), (ErrorCode::E0007, 1, 2, None, 2));
    assert_eq!(failure("$\\ n"), (ErrorCode::E0008, 1, 2, None, 2));
    assert_eq!(failure("$\\\n"), (ErrorCode::E0008, 1, 2, None, 2));
}

#[test]
fn valid_escapes_make_one_token() {
    for escape in ["\\n", "\\r", "\\t", "\\\\", "\\0", "\\'", "\\\"", "\\x41", "\\xfF", "\\x00"] {
        let source = format!("${}", escape);
        let len = source.chars().count();
        assert_eq!(
            tokens(&source),
            vec![(TokenType::HashBang, 0, len), (TokenType::Eof, len, len)]
        );
        let followed = format!("${}x", escape);
        assert_eq!(
            tokens(&followed),
            vec![
                (TokenType::HashBang, 0, len),
                (TokenType::Ident, len, len + 1),
                (TokenType::Eof, len + 1, len + 1)
            ]
        );
    }
}

#[test]
fn introducer_without_escape() {
    assert_eq!(tokens("$"), vec![(TokenType::Hash, 0, 1), (TokenType::Eof, 1, 1)]);
    assert_eq!(
        tokens("$n"),
        vec![(TokenType::Hash, 0, 1), (TokenType::Ident, 1, 2), (TokenType::Eof, 2, 2)]
    );
}

#[test]
fn unexpected_character_is_fatal() {
    assert_eq!(failure("@"), (ErrorCode::E0003, 0, 1, Some('@'), 1));
    assert_eq!(failure("a ? b"), (ErrorCode::E0003, 2, 3, Some('?'), 3));
    assert_eq!(failure("é"), (ErrorCode::E0003, 0, 1, Some('é'), 1));
    assert_eq!(failure("1"), (ErrorCode::E0003, 0, 1, Some('1'), 1));
    assert_eq!(failure("\\n"), (ErrorCode::E0003, 0, 1, Some('\\'), 1));
    let chars = source_chars("@");
    let mut lexer = Lexer::new(0, &chars, Reports::new());
    let error = lexer.scan().unwrap_err();
    assert_eq!(error.code.as_str(), "E0003");
    assert_eq!(error.label(), "did not expect `@` here");
    assert_eq!(error.note(), None);
}

#[test]
fn scanning_goes_on_after_a_fatal_diagnostic() {
    let chars = source_chars("@x");
    let mut lexer = Lexer::new(0, &chars, Reports::new());
    assert_eq!(lexer.scan().unwrap_err().code, ErrorCode::E0003);
    let token = lexer.scan().unwrap();
    assert_eq!(token.value.0, TokenType::Ident);
    assert_eq!(token.span, Span::new(1, 1));
}

#[test]
fn line_comment_ends_before_the_line_feed() {
    assert_eq!(
        tokens("a // b c\nd"),
        vec![(TokenType::Ident, 0, 1), (TokenType::Ident, 9, 10), (TokenType::Eof, 10, 10)]
    );
    assert_eq!(
        tokens("// /* not open\nx"),
        vec![(TokenType::Ident, 15, 16), (TokenType::Eof, 16, 16)]
    );
    assert_eq!(
        tokens("/* // */x"),
        vec![(TokenType::Ident, 8, 9), (TokenType::Eof, 9, 9)]
    );
}

#[test]
fn spans_never_go_back() {
    let source = "fn main() { let _x <<= y_; /* c /* d */ */ ret a..=b // end\n }";
    let all = tokens(source);
    let mut end = 0;
    for (_, lo, hi) in &all {
        assert!(*lo >= end);
        assert!(*hi >= *lo);
        end = *hi;
    }
    assert_eq!(all.last().unwrap().0, TokenType::Eof);
    assert_eq!(end, source.chars().count());
    assert_eq!(all.iter().filter(|token| token.0 == TokenType::Eof).count(), 1);
}

#[test]
fn a_small_program() {
    assert_eq!(
        kinds("fn add(a, b) { ret a + b; }"),
        vec![
            TokenType::Keyword(Keyword::KwFn),
            TokenType::Ident,
            TokenType::LeftParen,
            TokenType::Ident,
            TokenType::Comma,
            TokenType::Ident,
            TokenType::RightParen,
            TokenType::LeftBrace,
            TokenType::Keyword(Keyword::KwRet),
            TokenType::Ident,
            TokenType::Plus,
            TokenType::Ident,
            TokenType::Semi,
            TokenType::RightBrace,
            TokenType::Eof,
        ]
    );
}

#[test]
fn sink_keeps_what_it_held() {
    let chars = source_chars("*/");
    let mut first = Lexer::new(1, &chars, Reports::new());
    first.scan().unwrap();
    let mut carried = Reports::new();
    carried.report_syncd(first.reports().get(0).unwrap().diagnostic);
    let mut second = Lexer::new(2, &chars, carried);
    assert_eq!(second.reports().len(), 1);
    second.scan().unwrap();
    assert_eq!(second.reports().len(), 2);
    assert_eq!(second.reports().get(0).unwrap().diagnostic.source_id, 1);
    assert_eq!(second.reports().get(1).unwrap().diagnostic.source_id, 2);
}

#[test]
fn whitespace_token_covers_the_trivia() {
    let chars = source_chars("  /* c */ // d\n x");
    let mut lexer = Lexer::new(0, &chars, Reports::new());
    let token = lexer.handle_whitespace().unwrap().unwrap();
    assert_eq!(token.value.0, TokenType::Ws);
    assert_eq!(token.span, Span::new(0, 16));
    assert_eq!(token.value.1, &chars[0..16]);
    assert_eq!(lexer.position(), 16);
    assert_eq!(lexer.handle_whitespace().unwrap(), None);
    assert_eq!(lexer.position(), 16);
    assert_eq!(lexer.scan().unwrap().value.0, TokenType::Ident);
    assert_eq!(lexer.handle_whitespace().unwrap(), None);
}

#[test]
fn whitespace_token_over_a_dangling_end() {
    let chars = source_chars("*/x");
    let mut lexer = Lexer::new(0, &chars, Reports::new());
    let token = lexer.handle_whitespace().unwrap().unwrap();
    assert_eq!(token.value.0, TokenType::Ws);
    assert_eq!(token.span, Span::new(0, 2));
    assert_eq!(lexer.reports().len(), 1);
    assert!(!lexer.reports().get(0).unwrap().fatal);
}

#[test]
fn whitespace_fails_on_an_unterminated_comment() {
    let chars = source_chars(" /* x");
    let mut lexer = Lexer::new(4, &chars, Reports::new());
    let error = lexer.handle_whitespace().unwrap_err();
    assert_eq!(error.code, ErrorCode::E0002);
    assert_eq!(error.span, Span::new(1, 2));
    assert_eq!(error.source_id, 4);
    assert_eq!(lexer.reports().get(0), Some(Report { fatal: true, diagnostic: error }));
}
