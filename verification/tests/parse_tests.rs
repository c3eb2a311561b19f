use oops::ast::{
    Argument, Block, ClassName, ClassNameSelector, ClassNew, DefineClass, DefineMethod, Expr,
    False, IVar, Ident, LetIVar, LetLocal, List, Local, MessageSend, MessageSendStmt, Number,
    Parameter, Return, Selector, Self_, Stmt, True,
};
use oops::error::Error;
use oops::lex::{lex, Comma, Name};
use oops::parse::{parse, ParseStream};
use oops::Span;

fn ident(name: &str, from: usize) -> Ident<'_> {
    Ident {
        name,
        span: Span::new(from, from + name.len()),
    }
}

#[test]
fn mod_let_number() {
    let program = "let number = 1;";
    let tokens = lex(&program).unwrap();
    let ast = parse(&tokens).unwrap();

    assert_eq!(
        ast,
        vec![Stmt::LetLocal(LetLocal {
            ident: Ident {
                name: "number",
                span: Span::new(4, 10)
            },
            body: Expr::Number(Number {
                number: 1,
                span: Span::new(13, 14)
            }),
            span: Span::new(0, 15),
        })]
    );
}

#[test]
fn let_name() {
    let program = "let a = b;";
    let tokens = lex(&program).unwrap();
    let ast = parse(&tokens).unwrap();

    assert_eq!(
        ast,
        vec![Stmt::LetLocal(LetLocal {
            ident: Ident {
                name: "a",
                span: Span::new(4, 5)
            },
            body: Expr::Local(Local(Ident {
                name: "b",
                span: Span::new(8, 9),
            })),
            span: Span::new(0, 10),
        })]
    );
}

#[test]
fn empty_program_parses_to_no_statement() {
    let tokens = lex("").unwrap();
    assert_eq!(parse(&tokens).unwrap(), vec![]);
}

#[test]
fn let_ivar_and_return() {
    let tokens = lex("let @age = 3; return @age;").unwrap();
    assert_eq!(
        parse(&tokens).unwrap(),
        vec![
            Stmt::LetIVar(LetIVar {
                ident: ident("age", 5),
                body: Expr::Number(Number {
                    number: 3,
                    span: Span::new(11, 12)
                }),
                span: Span::new(0, 13),
            }),
            Stmt::Return(Return {
                expr: Expr::IVar(IVar {
                    ident: ident("age", 22),
                    span: Span::new(21, 25)
                }),
                span: Span::new(14, 26),
            }),
        ]
    );
}

#[test]
fn define_class_with_super_and_fields() {
    let program = "[Class subclass name: #Person super: #Object fields: [#age #name]];";
    let tokens = lex(program).unwrap();
    assert_eq!(
        parse(&tokens).unwrap(),
        vec![Stmt::DefineClass(DefineClass {
            name: ClassNameSelector {
                class_name: ClassName(ident("Person", 23)),
                span: Span::new(22, 29),
            },
            super_class: ClassNameSelector {
                class_name: ClassName(ident("Object", 38)),
                span: Span::new(37, 44),
            },
            fields: vec![
                Selector {
                    ident: ident("age", 55),
                    span: Span::new(54, 58)
                },
                Selector {
                    ident: ident("name", 60),
                    span: Span::new(59, 64)
                },
            ],
            span: Span::new(0, program.len()),
        })]
    );
}

#[test]
fn define_class_without_super_does_not_parse() {
    let tokens = lex("[Class subclass name: #User fields: [#id]];").unwrap();
    assert!(matches!(parse(&tokens), Err(Error::ParseError(_))));
}

#[test]
fn define_method_with_parameters() {
    let program = "[Person def: #grow do: |by: years:| { return self; }];";
    let tokens = lex(program).unwrap();
    assert_eq!(
        parse(&tokens).unwrap(),
        vec![Stmt::DefineMethod(DefineMethod {
            class_name: ClassName(ident("Person", 1)),
            method_name: Selector {
                ident: ident("grow", 14),
                span: Span::new(13, 18)
            },
            block: Block {
                parameters: vec![
                    Parameter {
                        ident: ident("by", 24),
                        span: Span::new(24, 27)
                    },
                    Parameter {
                        ident: ident("years", 28),
                        span: Span::new(28, 34)
                    },
                ],
                body: vec![Stmt::Return(Return {
                    expr: Expr::Self_(Self_(Span::new(45, 49))),
                    span: Span::new(38, 50),
                })],
                span: Span::new(23, 52),
            },
            span: Span::new(0, program.len()),
        })]
    );
}

#[test]
fn new_wins_over_message_send() {
    let tokens = lex("let p = [Person new age: 1];").unwrap();
    assert_eq!(
        parse(&tokens).unwrap(),
        vec![Stmt::LetLocal(LetLocal {
            ident: ident("p", 4),
            body: Expr::ClassNew(ClassNew {
                class_name: ClassName(ident("Person", 9)),
                args: vec![Argument {
                    ident: ident("age", 20),
                    expr: Expr::Number(Number {
                        number: 1,
                        span: Span::new(25, 26)
                    }),
                    span: Span::new(20, 26),
                }],
                span: Span::new(8, 27),
            }),
            span: Span::new(0, 28),
        })]
    );
}

#[test]
fn message_send_statement_with_nested_receiver() {
    let tokens = lex("[[Person new] age];").unwrap();
    assert_eq!(
        parse(&tokens).unwrap(),
        vec![Stmt::MessageSend(MessageSendStmt {
            expr: MessageSend {
                receiver: Expr::ClassNew(ClassNew {
                    class_name: ClassName(ident("Person", 2)),
                    args: vec![],
                    span: Span::new(1, 13),
                }),
                msg: ident("age", 14),
                args: vec![],
                span: Span::new(0, 18),
            },
            span: Span::new(0, 19),
        })]
    );
}

#[test]
fn list_wins_over_message_send_and_may_be_empty() {
    let tokens = lex("let l = [1, true, false]; let e = [];").unwrap();
    assert_eq!(
        parse(&tokens).unwrap(),
        vec![
            Stmt::LetLocal(LetLocal {
                ident: ident("l", 4),
                body: Expr::List(List {
                    items: vec![
                        Expr::Number(Number {
                            number: 1,
                            span: Span::new(9, 10)
                        }),
                        Expr::True(True(Span::new(12, 16))),
                        Expr::False(False(Span::new(18, 23))),
                    ],
                    span: Span::new(8, 24),
                }),
                span: Span::new(0, 25),
            }),
            Stmt::LetLocal(LetLocal {
                ident: ident("e", 30),
                body: Expr::List(List {
                    items: vec![],
                    span: Span::new(34, 36)
                }),
                span: Span::new(26, 37),
            }),
        ]
    );
}

#[test]
fn selector_and_class_selector_are_told_apart() {
    let tokens = lex("let a = #foo; let b = #Foo;").unwrap();
    let ast = parse(&tokens).unwrap();
    assert_eq!(ast.len(), 2);
    assert!(matches!(
        &ast[0],
        Stmt::LetLocal(LetLocal {
            body: Expr::Selector(_),
            ..
        })
    ));
    assert!(matches!(
        &ast[1],
        Stmt::LetLocal(LetLocal {
            body: Expr::ClassNameSelector(_),
            ..
        })
    ));
}

#[test]
fn tokens_left_over_fail_the_parse() {
    let tokens = lex("let a = 1; let").unwrap();
    match parse(&tokens) {
        Err(Error::ParseError(message)) => assert_eq!(message, "Expected end of input"),
        other => panic!("expected a parse error, got {:?}", other),
    }
}

#[test]
fn unterminated_bracket_fails_and_consumes_nothing() {
    let tokens = lex("[#Dog").unwrap();

    let mut stream = ParseStream::new(&tokens);
    match List::parse(&mut stream) {
        Err(Error::ParseError(message)) => {
            assert_eq!(message, "Expected ']' but got end of input")
        }
        other => panic!("expected a parse error, got {:?}", other),
    }

    let mut stream = ParseStream::new(&tokens);
    assert_eq!(stream.try_parse_node(), None);
    assert_eq!(stream.position(), 0);
    assert_eq!(stream.parse_many(), vec![]);
    assert_eq!(stream.position(), 0);

    assert!(matches!(parse(&tokens), Err(Error::ParseError(_))));
}

#[test]
fn missing_semicolon_is_named_in_the_message() {
    let tokens = lex("[dog bark] let").unwrap();
    let mut stream = ParseStream::new(&tokens);
    match MessageSendStmt::parse(&mut stream) {
        Err(Error::ParseError(message)) => assert_eq!(message, "Expected ';' but got 'let'"),
        other => panic!("expected a parse error, got {:?}", other),
    }
    assert!(matches!(parse(&tokens), Err(Error::ParseError(_))));
}

#[test]
fn parse_token_moves_past_a_mismatch_and_try_does_not() {
    let tokens = lex("let x").unwrap();
    let mut stream = ParseStream::new(&tokens);
    assert!(stream.try_parse_token::<Name>().is_none());
    assert_eq!(stream.position(), 0);
    match stream.parse_token::<Name>() {
        Err(Error::ParseError(message)) => assert_eq!(message, "Expected 'name' but got 'let'"),
        other => panic!("expected a parse error, got {:?}", other),
    }
    assert_eq!(stream.position(), 1);
    assert_eq!(
        stream.parse_token::<Name>().unwrap(),
        &Name::new("x", Span::new(4, 5))
    );
    assert!(stream.at_eof());
    assert!(stream.parse_token::<Name>().is_err());
    assert_eq!(stream.position(), 2);
}

#[test]
fn specific_names_are_checked_by_their_text() {
    let tokens = lex("def Class").unwrap();
    let mut stream = ParseStream::new(&tokens);
    assert_eq!(stream.parse_specific_ident("def").unwrap(), ident("def", 0));
    assert_eq!(
        stream.parse_specific_class_name("Class").unwrap(),
        ClassName(ident("Class", 4))
    );

    let mut stream = ParseStream::new(&tokens);
    match stream.parse_specific_ident("do") {
        Err(Error::ParseError(message)) => {
            assert_eq!(message, "Expected class named 'do' but got 'def'")
        }
        other => panic!("expected a parse error, got {:?}", other),
    }
}

#[test]
fn delimited_expressions_stop_where_the_separator_is_missing() {
    let tokens = lex("1, 2 3").unwrap();
    let mut stream = ParseStream::new(&tokens);
    let items = stream.parse_many_delimited::<Comma>();
    assert_eq!(items.len(), 2);
    assert_eq!(stream.position(), 3);
}

#[test]
fn expression_span_covers_the_expression() {
    let tokens = lex("[a b c: 1]").unwrap();
    let mut stream = ParseStream::new(&tokens);
    let expr = Expr::parse(&mut stream).unwrap();
    assert_eq!(expr.span(), Span::new(0, 10));
    assert!(matches!(expr, Expr::MessageSend(_)));
}
