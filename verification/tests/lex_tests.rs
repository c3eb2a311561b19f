use oops::error::Error;
use oops::lex::{
    lex, make_token, split_match, CBracket, ClassName, Colon, False, Let, Name, Number,
    OBracket, Parse, Semicolon, Token, TokenKind, True,
};
use oops::Span;

#[test]
fn empty() {
    let program = "";
    assert_eq!(lex(program).unwrap(), vec![]);

    let program = " ";
    assert_eq!(lex(program).unwrap(), vec![]);
}

#[test]
fn let_number() {
    let program = "let number = 1; ";
    assert_eq!(
        lex(program).unwrap(),
        vec![
            Token::Let(Let::new(Span::new(0, 3))),
            Token::Name(Name::new("number", Span::from_with(4, "number"))),
            Token::Eq(oops::lex::Eq::new(Span::from_with(11, "="))),
            Token::Number(Number::new(1, Span::from_with(13, "1"))),
            Token::Semicolon(Semicolon::new(Span::from_with(14, ";"))),
        ]
    );
}

#[test]
fn bool() {
    let program = "true";
    assert_eq!(
        lex(program).unwrap(),
        vec![Token::True(True::new(Span::new(0, 4)))]
    );

    let program = "false";
    assert_eq!(
        lex(program).unwrap(),
        vec![Token::False(False::new(Span::new(0, 5)))]
    );
}

#[test]
fn let_call() {
    let program = "[user set id: 123]\n";
    assert_eq!(
        lex(program).unwrap(),
        vec![
            Token::OBracket(OBracket::new(Span::from_with(0, "["))),
            Token::Name(Name::new("user", Span::from_with(1, "user"))),
            Token::Name(Name::new("set", Span::from_with(6, "set"))),
            Token::Name(Name::new("id", Span::from_with(10, "id"))),
            Token::Colon(Colon::new(Span::from_with(12, ":"))),
            Token::Number(Number::new(123, Span::from_with(14, "123"))),
            Token::CBracket(CBracket::new(Span::from_with(17, "]"))),
        ]
    );
}

#[test]
fn ignores_comments_with_newline() {
    lex("// Just a comment\n").unwrap();
    lex("// one\n// two\n").unwrap();
    lex("let n = 1; // a comment").unwrap();
    lex("let n = 1; // a comment\n").unwrap();
    lex("// Just a comment").unwrap();
    lex("// one\n// two").unwrap();

    let program = vec![
        "// a comment\n",
        "let n = 1;\n",
        "// a comment\n",
        "// a comment\n\n",
        "let n = 1;\n",
        "// a comment\n",
        "// a comment\n",
    ]
    .join("");
    lex(&program).unwrap();
}

#[test]
fn comments_leave_no_token() {
    assert_eq!(lex("// one\n// two\n").unwrap(), vec![]);
    assert_eq!(
        lex("#a // trailing").unwrap(),
        vec![
            Token::Hash(oops::lex::Hash::new(Span::new(0, 1))),
            Token::Name(Name::new("a", Span::new(1, 2))),
        ]
    );
}

#[test]
fn every_kind_of_token_is_recognised() {
    let program = "let self x Foo = 12 ; [ ] { } ( ) : @ # , | true false return";
    let kinds: Vec<TokenKind> = lex(program).unwrap().iter().map(|t| t.kind()).collect();
    assert_eq!(
        kinds,
        vec![
            TokenKind::Let,
            TokenKind::Self_,
            TokenKind::Name,
            TokenKind::ClassName,
            TokenKind::Eq,
            TokenKind::Number,
            TokenKind::Semicolon,
            TokenKind::OBracket,
            TokenKind::CBracket,
            TokenKind::OBrace,
            TokenKind::CBrace,
            TokenKind::OParen,
            TokenKind::CParen,
            TokenKind::Colon,
            TokenKind::At,
            TokenKind::Hash,
            TokenKind::Comma,
            TokenKind::Pipe,
            TokenKind::True,
            TokenKind::False,
            TokenKind::Return,
        ]
    );
}

#[test]
fn class_names_start_with_a_capital() {
    assert_eq!(
        lex("Person person").unwrap(),
        vec![
            Token::ClassName(ClassName::new("Person", Span::new(0, 6))),
            Token::Name(Name::new("person", Span::new(7, 13))),
        ]
    );
}

#[test]
fn a_keyword_is_cut_off_the_front_of_a_longer_word() {
    assert_eq!(
        lex("letter").unwrap(),
        vec![
            Token::Let(Let::new(Span::new(0, 3))),
            Token::Name(Name::new("ter", Span::new(3, 6))),
        ]
    );
}

#[test]
fn lex_fails_at_the_first_offset_that_matches_nothing() {
    assert_eq!(lex("let n = $;"), Err(Error::LexError { at: 8 }));
    assert_eq!(lex("  ?"), Err(Error::LexError { at: 2 }));
}

#[test]
fn text_that_is_not_ascii_inside_a_comment_is_skipped() {
    assert_eq!(
        lex("// déjà vu\nx").unwrap(),
        vec![Token::Name(Name::new("x", Span::new(13, 14)))]
    );
    assert_eq!(lex("é"), Err(Error::LexError { at: 0 }));
}

#[test]
fn a_number_too_large_is_a_lex_error() {
    assert_eq!(
        lex("2147483647").unwrap(),
        vec![Token::Number(Number::new(2147483647, Span::new(0, 10)))]
    );
    assert_eq!(lex("x 2147483648"), Err(Error::LexError { at: 2 }));
}

#[test]
fn spans_give_back_the_source_text() {
    let program = "let total = [Counter new start: 10]; // done";
    for token in lex(program).unwrap() {
        let span = token.span();
        let text = &program[span.from..span.to];
        assert_eq!(text, token.to_string());
    }
}

#[test]
fn span_from_with_measures_bytes() {
    assert_eq!(Span::from_with(4, "number"), Span::new(4, 10));
    assert_eq!(Span::from_with(0, "é"), Span::new(0, 2));
}

#[test]
fn a_token_shows_as_it_was_written() {
    assert_eq!(Token::OBracket(OBracket::new(Span::new(0, 1))).to_string(), "[");
    assert_eq!(Token::Number(Number::new(-12, Span::new(0, 3))).to_string(), "-12");
    assert_eq!(Token::Name(Name::new("age", Span::new(0, 3))).to_string(), "age");
    assert_eq!(TokenKind::ClassName.debug_name(), "class name");
}

#[test]
fn a_token_type_knows_its_tokens() {
    let name = Token::Name(Name::new("age", Span::new(0, 3)));
    let number = Token::Number(Number::new(3, Span::new(4, 5)));
    assert_eq!(Name::from_token(&name), Some(&Name::new("age", Span::new(0, 3))));
    assert_eq!(Name::from_token(&number), None);
    assert_eq!(Number::from_token(&number), Some(&Number::new(3, Span::new(4, 5))));
    assert_eq!(<Let as Parse>::from_token(&name), None);
    assert_eq!(<Name as Parse>::debug_name(), "name");
    assert_eq!(<ClassName as Parse>::debug_name(), "class name");
    assert_eq!(<Number as Parse>::debug_name(), "number");
    assert_eq!(<CBracket as Parse>::debug_name(), "]");
    assert_eq!(<Semicolon as Parse>::debug_name(), ";");
}

#[test]
fn a_match_is_cut_off_only_where_it_ends_inside_the_text() {
    assert_eq!(split_match("hello", Some(2)), Some(("he", "llo")));
    assert_eq!(split_match("hello", Some(5)), Some(("hello", "")));
    assert_eq!(split_match("hello", Some(0)), None);
    assert_eq!(split_match("hello", Some(6)), None);
    assert_eq!(split_match("hello", None), None);
    assert_eq!(split_match("é!", Some(1)), None);
    assert_eq!(split_match("é!", Some(2)), Some(("é", "!")));
}

#[test]
fn a_token_is_made_from_its_kind_and_its_text() {
    let span = Span::new(2, 5);
    assert_eq!(
        make_token(TokenKind::Name, "abc", span),
        Some(Token::Name(Name::new("abc", span)))
    );
    assert_eq!(
        make_token(TokenKind::ClassName, "Abc", span),
        Some(Token::ClassName(ClassName::new("Abc", span)))
    );
    assert_eq!(
        make_token(TokenKind::Number, "042", span),
        Some(Token::Number(Number::new(42, span)))
    );
    assert_eq!(make_token(TokenKind::Number, "4x2", span), None);
    assert_eq!(make_token(TokenKind::Number, "", span), None);
    assert_eq!(make_token(TokenKind::Number, "99999999999", span), None);
    assert_eq!(
        make_token(TokenKind::Let, "let", span),
        Some(Token::Let(Let::new(span)))
    );
}
