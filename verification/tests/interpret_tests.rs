use oops::ast::{Expr, Ident, Stmt};
use oops::error::Error;
use oops::interpret::{
    bind_arguments, interpret, Evaluated, Interpreter, Value, MAX_DEPTH,
};
use oops::lex::lex;
use oops::parse::parse;
use oops::prep::{built_in_class, find_classes_and_methods, ClassVTable};
use oops::Span;

/// Runs `program` and hands the evaluator, or the failure, to `check`.
fn run(program: &str, check: impl FnOnce(Result<&Interpreter, &Error>)) {
    let tokens = lex(program).unwrap();
    let ast = parse(&tokens).unwrap();
    let object = Ident {
        name: "Object",
        span: Span::new(0, 0),
    };
    let mut classes = ClassVTable::new();
    classes.insert(built_in_class(&object));
    let classes = match find_classes_and_methods(&ast, classes) {
        Ok(classes) => classes,
        Err(e) => return check(Err(&e)),
    };
    let mut interpreter = Interpreter::new(classes);
    match interpret(&mut interpreter, &ast) {
        Ok(()) => check(Ok(&interpreter)),
        Err(e) => check(Err(&e)),
    }
}

fn local<'i>(interpreter: &'i Interpreter, name: &str) -> &'i Value {
    interpreter
        .frame
        .locals
        .get(name)
        .unwrap_or_else(|| panic!("no local named {}", name))
}

fn span_of(program: &str, text: &str) -> Span {
    let from = program.find(text).unwrap();
    Span::new(from, from + text.len())
}

const PERSON: &str = "[Class subclass name: #Person super: #Object fields: [#age]];\
                      [Person def: #age do: || { return @age; }];\
                      [Person def: #me do: || { return self; }];\
                      [Person def: #grow do: |to:| { let @age = to; }];";

#[test]
fn literals_and_locals() {
    run(
        "let a = 1; let b = true; let c = false; let d = [a, b, [c]]; let a = 2;",
        |result| {
            let interpreter = result.unwrap();
            assert_eq!(local(interpreter, "a"), &Value::Number(2));
            assert_eq!(local(interpreter, "b"), &Value::True);
            assert_eq!(local(interpreter, "c"), &Value::False);
            assert_eq!(
                local(interpreter, "d"),
                &Value::List(vec![
                    Value::Number(1),
                    Value::True,
                    Value::List(vec![Value::False])
                ])
            );
            assert_eq!(interpreter.frame.locals.entries.len(), 4);
        },
    );
}

#[test]
fn undefined_local_fails() {
    let program = "let a = b;";
    run(program, |result| {
        assert_eq!(
            result.unwrap_err(),
            &Error::UndefinedLocal {
                name: "b",
                span: Span::new(8, 9)
            }
        );
    });
}

#[test]
fn message_send_returns_the_constructed_instance() {
    let program = "let n = 1;\
                   [Class subclass name: #Person super: #Object fields: [#age]];\
                   [Person def: #age do: || { return self; }];\
                   let r = [[Person new age: n] age];";
    run(program, |result| {
        let interpreter = result.unwrap();
        assert_eq!(local(interpreter, "r"), &Value::Instance(0));
        assert_eq!(interpreter.heap.len(), 1);
        let person = &interpreter.heap[0];
        assert_eq!(interpreter.classes.table[person.class].name.name, "Person");
        assert_eq!(person.ivars.get("age"), Some(&Value::Number(1)));
    });
}

#[test]
fn new_of_an_undeclared_class_fails() {
    let program = "let f = [Foo new];";
    run(program, |result| {
        assert_eq!(
            result.unwrap_err(),
            &Error::ClassNotDefined {
                class: "Foo",
                span: span_of(program, "Foo")
            }
        );
    });
}

#[test]
fn message_to_a_number_fails() {
    let program = "[1 foo];";
    run(program, |result| {
        assert_eq!(
            result.unwrap_err(),
            &Error::MessageSentToNonInstance(Span::new(0, 7))
        );
    });
}

#[test]
fn new_needs_exactly_the_declared_fields() {
    let class = "[Class subclass name: #P super: #Object fields: [#x #y]];";

    let program = format!("{}let p = [P new x: 1];", class);
    run(&program, |result| {
        assert_eq!(
            result.unwrap_err(),
            &Error::MissingArgument {
                name: "y",
                span: span_of(&program, "P new")
                    .from
                    .checked_add(0)
                    .map(|from| Span::new(from, from + 1))
                    .unwrap()
            }
        );
    });

    let program = format!("{}let p = [P new x: 1 y: 2 z: 3];", class);
    run(&program, |result| {
        assert_eq!(
            result.unwrap_err(),
            &Error::UnexpectedArgument {
                name: "z",
                span: span_of(&program, "z: 3")
            }
        );
    });

    for args in ["x: 1 y: 2", "y: 2 x: 1"] {
        let program = format!("{}let p = [P new {}];", class, args);
        run(&program, |result| {
            let interpreter = result.unwrap();
            let p = &interpreter.heap[0];
            assert_eq!(p.ivars.get("x"), Some(&Value::Number(1)));
            assert_eq!(p.ivars.get("y"), Some(&Value::Number(2)));
        });
    }
}

#[test]
fn new_does_not_take_the_fields_of_a_superclass() {
    let program = "[Class subclass name: #A super: #Object fields: [#x]];\
                   [Class subclass name: #B super: #A fields: [#y]];\
                   let b = [B new y: 1];\
                   let c = [B new x: 1 y: 2];";
    run(program, |result| {
        assert_eq!(
            result.unwrap_err(),
            &Error::UnexpectedArgument {
                name: "x",
                span: span_of(program, "x: 1")
            }
        );
    });
}

#[test]
fn a_repeated_label_keeps_the_last_value() {
    let program = "[Class subclass name: #P super: #Object fields: [#x]];\
                   let p = [P new x: 1 x: 2];";
    run(program, |result| {
        let interpreter = result.unwrap();
        assert_eq!(interpreter.heap[0].ivars.get("x"), Some(&Value::Number(2)));
    });
}

#[test]
fn the_first_missing_name_is_reported_before_any_unexpected_argument() {
    let table = vec![
        Evaluated {
            name: "z",
            value: Value::Number(1),
            span: Span::new(1, 2),
        },
        Evaluated {
            name: "b",
            value: Value::Number(2),
            span: Span::new(3, 4),
        },
    ];
    assert_eq!(
        bind_arguments(&vec!["a", "b"], table, Span::new(9, 10)),
        Err(Error::MissingArgument {
            name: "a",
            span: Span::new(9, 10)
        })
    );
}

#[test]
fn the_first_argument_left_over_is_the_unexpected_one() {
    let table = vec![
        Evaluated {
            name: "z",
            value: Value::Number(1),
            span: Span::new(1, 2),
        },
        Evaluated {
            name: "a",
            value: Value::Number(2),
            span: Span::new(3, 4),
        },
        Evaluated {
            name: "y",
            value: Value::Number(3),
            span: Span::new(5, 6),
        },
    ];
    assert_eq!(
        bind_arguments(&vec!["a"], table, Span::new(9, 10)),
        Err(Error::UnexpectedArgument {
            name: "z",
            span: Span::new(1, 2)
        })
    );
}

#[test]
fn a_parameter_named_twice_misses_its_second_argument() {
    let table = vec![Evaluated {
        name: "a",
        value: Value::Number(1),
        span: Span::new(1, 2),
    }];
    assert_eq!(
        bind_arguments(&vec!["a", "a"], table, Span::new(9, 10)),
        Err(Error::MissingArgument {
            name: "a",
            span: Span::new(9, 10)
        })
    );
}

#[test]
fn binding_gives_each_name_its_value() {
    let table = vec![
        Evaluated {
            name: "b",
            value: Value::Number(2),
            span: Span::new(1, 2),
        },
        Evaluated {
            name: "a",
            value: Value::Number(1),
            span: Span::new(3, 4),
        },
    ];
    let bound = bind_arguments(&vec!["a", "b"], table, Span::new(9, 10)).unwrap();
    assert_eq!(bound.get("a"), Some(&Value::Number(1)));
    assert_eq!(bound.get("b"), Some(&Value::Number(2)));
    assert_eq!(bound.get("c"), None);
}

#[test]
fn a_write_through_one_alias_is_read_through_another() {
    let program = format!(
        "{}let a = [Person new age: 1]; let b = a; let c = [a me];\
         [b grow to: 42];\
         let seen_a = [a age]; let seen_b = [b age]; let seen_c = [c age];",
        PERSON
    );
    run(&program, |result| {
        let interpreter = result.unwrap();
        assert_eq!(local(interpreter, "a"), local(interpreter, "b"));
        assert_eq!(local(interpreter, "a"), local(interpreter, "c"));
        assert_eq!(local(interpreter, "seen_a"), &Value::Number(42));
        assert_eq!(local(interpreter, "seen_b"), &Value::Number(42));
        assert_eq!(local(interpreter, "seen_c"), &Value::Number(42));
        assert_eq!(interpreter.heap.len(), 1);
    });
}

#[test]
fn two_instances_do_not_share_their_variables() {
    let program = format!(
        "{}let a = [Person new age: 1]; let b = [Person new age: 2];\
         [a grow to: 10];\
         let seen_a = [a age]; let seen_b = [b age];",
        PERSON
    );
    run(&program, |result| {
        let interpreter = result.unwrap();
        assert_eq!(local(interpreter, "seen_a"), &Value::Number(10));
        assert_eq!(local(interpreter, "seen_b"), &Value::Number(2));
    });
}

#[test]
fn return_skips_the_rest_of_the_body_only() {
    let program = "[Class subclass name: #C super: #Object fields: [#n]];\
                   [C def: #n do: || { return @n; }];\
                   [C def: #stop do: || { let @n = 1; return 7; let @n = 2; return 8; }];\
                   let c = [C new n: 0];\
                   let r = [c stop];\
                   let n = [c n];\
                   let after = 5;";
    run(program, |result| {
        let interpreter = result.unwrap();
        assert_eq!(local(interpreter, "r"), &Value::Number(7));
        assert_eq!(local(interpreter, "n"), &Value::Number(1));
        assert_eq!(local(interpreter, "after"), &Value::Number(5));
        assert_eq!(interpreter.frame.return_value, None);
    });
}

#[test]
fn return_at_the_top_level_skips_the_rest_of_the_program() {
    run("let a = 1; return a; let a = 2; [1 foo];", |result| {
        let interpreter = result.unwrap();
        assert_eq!(local(interpreter, "a"), &Value::Number(1));
        assert_eq!(interpreter.frame.return_value, Some(Value::Number(1)));
    });
}

#[test]
fn a_body_without_return_gives_nil() {
    let program = format!("{}let p = [Person new age: 1]; let r = [p grow to: 2];", PERSON);
    run(&program, |result| {
        assert_eq!(local(result.unwrap(), "r"), &Value::Nil);
    });
}

#[test]
fn a_method_sees_its_parameters_and_not_the_locals_of_its_caller() {
    let program = "[Class subclass name: #C super: #Object fields: []];\
                   [C def: #echo do: |v:| { return v; }];\
                   [C def: #peek do: || { return outer; }];\
                   let outer = 3; let c = [C new];\
                   let e = [c echo v: outer];\
                   let p = [c peek];";
    run(program, |result| {
        assert_eq!(
            result.unwrap_err(),
            &Error::UndefinedLocal {
                name: "outer",
                span: span_of(program, "outer; }")
                    .from
                    .checked_add(0)
                    .map(|from| Span::new(from, from + 5))
                    .unwrap()
            }
        );
    });
    let program = "[Class subclass name: #C super: #Object fields: []];\
                   [C def: #echo do: |v:| { return v; }];\
                   let outer = 3; let c = [C new];\
                   let e = [c echo v: outer];";
    run(program, |result| {
        assert_eq!(local(result.unwrap(), "e"), &Value::Number(3));
    });
}

#[test]
fn the_most_derived_method_answers() {
    let program = "[Class subclass name: #A super: #Object fields: []];\
                   [Class subclass name: #B super: #A fields: []];\
                   [A def: #who do: || { return 1; }];\
                   [B def: #who do: || { return 2; }];\
                   [A def: #base do: || { return 3; }];\
                   let a = [[A new] who]; let b = [[B new] who]; let c = [[B new] base];";
    run(program, |result| {
        let interpreter = result.unwrap();
        assert_eq!(local(interpreter, "a"), &Value::Number(1));
        assert_eq!(local(interpreter, "b"), &Value::Number(2));
        assert_eq!(local(interpreter, "c"), &Value::Number(3));
    });
}

#[test]
fn an_undefined_method_names_the_class_of_the_receiver() {
    let program = "[Class subclass name: #A super: #Object fields: []];\
                   [Class subclass name: #B super: #A fields: []];\
                   [[B new] nothing];";
    run(program, |result| {
        assert_eq!(
            result.unwrap_err(),
            &Error::UndefinedMethod {
                class: "B",
                method: "nothing",
                span: span_of(program, "[[B new] nothing]")
            }
        );
    });
}

#[test]
fn self_and_instance_variables_need_a_receiver() {
    run("let s = self;", |result| {
        assert_eq!(result.unwrap_err(), &Error::NoSelf(Span::new(8, 12)));
    });
    run("let s = @age;", |result| {
        assert_eq!(
            result.unwrap_err(),
            &Error::IVarAccessedWithoutSelf(Span::new(8, 12))
        );
    });
    run("let @age = 1;", |result| {
        assert_eq!(
            result.unwrap_err(),
            &Error::IVarAccessedWithoutSelf(Span::new(0, 13))
        );
    });
}

#[test]
fn an_instance_variable_that_was_never_set_is_undefined() {
    let program = "[Class subclass name: #C super: #Object fields: []];\
                   [C def: #x do: || { return @x; }];\
                   [[C new] x];";
    run(program, |result| {
        assert_eq!(
            result.unwrap_err(),
            &Error::UndefinedIVar {
                name: "x",
                span: span_of(program, "@x")
            }
        );
    });
}

#[test]
fn a_receiver_that_is_no_instance_has_no_instance_variables() {
    let tokens = lex("let v = @x; let @x = 1;").unwrap();
    let ast = parse(&tokens).unwrap();
    let mut interpreter = Interpreter::new(ClassVTable::new());
    interpreter.frame.self_ = Some(Value::Number(1));
    let body = match &ast[0] {
        Stmt::LetLocal(node) => &node.body,
        other => panic!("unexpected statement {:?}", other),
    };
    assert_eq!(
        interpreter.eval(body),
        Err(Error::IVarAccessedOnNonInstanceValue(Span::new(8, 10)))
    );
    interpreter.frame.self_ = Some(Value::Instance(3));
    assert_eq!(
        interpreter.visit_stmt(&ast[1]),
        Err(Error::IVarAccessedOnNonInstanceValue(Span::new(12, 23)))
    );
}

#[test]
fn endless_recursion_ends_with_an_error() {
    let program = "[Class subclass name: #C super: #Object fields: []];\
                   [C def: #spin do: || { return [self spin]; }];\
                   [[C new] spin];";
    run(program, |result| {
        assert_eq!(
            result.unwrap_err(),
            &Error::CallDepthExceeded(span_of(program, "[self spin]"))
        );
    });
    assert_eq!(MAX_DEPTH, 256);
}

#[test]
fn recursion_within_the_limit_works() {
    let program = "[Class subclass name: #C super: #Object fields: []];\
                   [C def: #a do: || { return [self b]; }];\
                   [C def: #b do: || { return [self c]; }];\
                   [C def: #c do: || { return 9; }];\
                   let r = [[C new] a];";
    run(program, |result| {
        assert_eq!(local(result.unwrap(), "r"), &Value::Number(9));
    });
}

#[test]
fn blocks_and_selectors_have_no_value() {
    for (program, text) in [
        ("let b = || { return 1; };", "|| { return 1; }"),
        ("let s = #name;", "#name"),
        ("let c = #Name;", "#Name"),
    ] {
        run(program, |result| {
            assert_eq!(
                result.unwrap_err(),
                &Error::NotImplemented(span_of(program, text))
            );
        });
    }
}

#[test]
fn arguments_are_evaluated_before_they_are_bound() {
    let program = "[Class subclass name: #P super: #Object fields: [#x]];\
                   let p = [P new y: missing];";
    run(program, |result| {
        assert!(matches!(
            result.unwrap_err(),
            Error::UndefinedLocal {
                name: "missing",
                ..
            }
        ));
    });
}

#[test]
fn eval_leaves_the_frame_as_it_was() {
    let tokens = lex("let a = [1, 2];").unwrap();
    let ast = parse(&tokens).unwrap();
    let mut interpreter = Interpreter::new(ClassVTable::new());
    let body: &Expr = match &ast[0] {
        Stmt::LetLocal(node) => &node.body,
        other => panic!("unexpected statement {:?}", other),
    };
    let value = interpreter.eval(body).unwrap();
    assert_eq!(value, Value::List(vec![Value::Number(1), Value::Number(2)]));
    assert!(interpreter.frame.locals.entries.is_empty());
    assert_eq!(value.to_owned(), value);
}

#[test]
fn every_error_has_its_line() {
    let s = Span::new(3, 9);
    let t = Span::new(10, 12);
    let cases: Vec<(Error, &str)> = vec![
        (Error::LexError { at: 120 }, "Unexpected token at 120"),
        (Error::ParseError("stmt parse failed".to_string()), "stmt parse failed"),
        (
            Error::ClassNotDefined { class: "Foo", span: s },
            "The class `Foo` is not defined",
        ),
        (
            Error::ClassAlreadyDefined { class: "Foo", first_span: s, second_span: t },
            "The class `Foo` was defined more than once. First time at 3 to 9, second time at 10 to 12",
        ),
        (
            Error::MethodAlreadyDefined { class: "Foo", method: "bar", first_span: s, second_span: t },
            "The method `Foo#bar` was defined more than once. First time at 3 to 9, second time at 10 to 12",
        ),
        (
            Error::UndefinedLocal { name: "x", span: s },
            "Undefined local variable `x` at 3 to 9",
        ),
        (
            Error::MissingArgument { name: "x", span: s },
            "Missing argument `x:` at 3 to 9",
        ),
        (
            Error::UnexpectedArgument { name: "x", span: s },
            "Unexpected argument `x:` at 3 to 9",
        ),
        (Error::NoSelf(s), "`self` called outside method at 3 to 9"),
        (
            Error::MessageSentToNonInstance(s),
            "Message sent to non instance value at 3 to 9",
        ),
        (
            Error::IVarAccessedWithoutSelf(s),
            "Instance variabled access without a `self` at 3 to 9",
        ),
        (
            Error::IVarAccessedOnNonInstanceValue(s),
            "Instance variabled access on `self` that isn't an instance at 3 to 9",
        ),
        (
            Error::UndefinedMethod { class: "Foo", method: "bar", span: s },
            "Undefined method `Foo#bar` at 3 to 9",
        ),
        (
            Error::IVarAccessedOutsideMethod { name: "x", span: s },
            "Instance variable `x` accessed outside method at 3 to 9",
        ),
        (
            Error::UndefinedIVar { name: "x", span: Span::new(0, 1005) },
            "Instance variable `x` is not defined. Accessed at 0 to 1005",
        ),
        (
            Error::CallDepthExceeded(s),
            "Message sends nested too deeply at 3 to 9",
        ),
        (
            Error::NotImplemented(s),
            "Evaluating this expression is not implemented at 3 to 9",
        ),
    ];
    for (error, line) in cases {
        assert_eq!(error.to_string(), line);
    }
}
