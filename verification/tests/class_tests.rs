use oops::ast::{Ident, Stmt};
use oops::error::Error;
use oops::lex::lex;
use oops::parse::parse;
use oops::prep::{built_in_class, find_classes_and_methods, ClassVTable, Classes};
use oops::Span;

fn object_ident() -> Ident<'static> {
    Ident {
        name: "Object",
        span: Span::new(0, 0),
    }
}

fn built_in<'a>(ident: &'a Ident<'a>) -> Classes<'a> {
    let mut classes = ClassVTable::new();
    classes.insert(built_in_class(ident));
    classes
}

#[test]
fn finds_classes_and_methods() {
    let program = r#"
            [User def: #foo do: || { return 123; }];
            [Class subclass name: #User super: #Object fields: [#id]];
        "#;
    let tokens = lex(&program).unwrap();
    let ast = parse(&tokens).unwrap();
    let object = object_ident();
    let class_vtable = find_classes_and_methods(&ast, built_in(&object)).unwrap();
    let class = class_vtable.get("User").unwrap();

    assert_eq!("User", class.name.name);

    assert_eq!(
        vec!["id"],
        class.fields.iter().map(|v| v.name.name).collect::<Vec<_>>()
    );
    assert_eq!(
        vec![&"id"],
        class.fields.iter().map(|v| &v.name.name).collect::<Vec<_>>()
    );

    assert_eq!(
        vec!["foo"],
        class
            .methods
            .iter()
            .map(|v| v.name.name)
            .collect::<Vec<_>>()
    );
    assert_eq!(
        vec![&"foo"],
        class
            .methods
            .iter()
            .map(|v| &v.name.name)
            .collect::<Vec<_>>()
    );
    assert_eq!(class.super_class, Some(0));
}

#[test]
fn errors_if_class_is_defined_twice() {
    let program = r#"
            [Class subclass name: #User super: #Object fields: [#foo]];
            [Class subclass name: #User super: #Object fields: [#bar]];
        "#;
    let tokens = lex(&program).unwrap();
    let ast = parse(&tokens).unwrap();
    let object = object_ident();
    let result = find_classes_and_methods(&ast, built_in(&object));

    assert!(matches!(result, Err(Error::ClassAlreadyDefined { .. })));
}

#[test]
fn errors_if_method_is_defined_twice() {
    let program = r#"
            [Class subclass name: #User super: #Object fields: [#foo]];
            [User def: #foo do: || { return 1; }];
            [User def: #foo do: || { return 2; }];
        "#;
    let tokens = lex(&program).unwrap();
    let ast = parse(&tokens).unwrap();
    let object = object_ident();
    let result = find_classes_and_methods(&ast, built_in(&object));

    assert!(matches!(result, Err(Error::MethodAlreadyDefined { .. })));
}

#[test]
fn errors_if_you_define_methods_on_classes_that_dont_exist() {
    let program = r#"
            [User def: #foo do: || { return 1; }];
        "#;
    let tokens = lex(&program).unwrap();
    let ast = parse(&tokens).unwrap();
    let object = object_ident();
    let result = find_classes_and_methods(&ast, built_in(&object));

    assert!(matches!(result, Err(Error::ClassNotDefined { .. })));
}

fn span_of(program: &str, text: &str) -> Span {
    let from = program.find(text).unwrap();
    Span::new(from, from + text.len())
}

#[test]
fn a_class_defined_twice_cites_both_definitions() {
    let first = "[Class subclass name: #A super: #Object fields: []];";
    let other = "[Class subclass name: #B super: #A fields: [#x]];";
    let second = "[Class subclass name: #A super: #B fields: [#y]];";
    for program in [
        format!("{}{}{}", first, other, second),
        format!("{}{}{}", other, first, second),
        format!("{}{}{}", first, second, other),
    ] {
        let tokens = lex(&program).unwrap();
        let ast = parse(&tokens).unwrap();
        let object = object_ident();
        match find_classes_and_methods(&ast, built_in(&object)) {
            Err(Error::ClassAlreadyDefined {
                class,
                first_span,
                second_span,
            }) => {
                assert_eq!(class, "A");
                assert_eq!(first_span, span_of(&program, first));
                assert_eq!(second_span, span_of(&program, second));
            }
            other => panic!("expected a class defined twice, got {:?}", other),
        }
    }
}

#[test]
fn the_built_in_class_cannot_be_defined_again() {
    let program = "[Class subclass name: #Object super: #Object fields: []];";
    let tokens = lex(program).unwrap();
    let ast = parse(&tokens).unwrap();
    let object = object_ident();
    match find_classes_and_methods(&ast, built_in(&object)) {
        Err(Error::ClassAlreadyDefined {
            class,
            first_span,
            second_span,
        }) => {
            assert_eq!(class, "Object");
            assert_eq!(first_span, Span::new(0, 0));
            assert_eq!(second_span, Span::new(0, program.len()));
        }
        other => panic!("expected a class defined twice, got {:?}", other),
    }
}

#[test]
fn a_missing_superclass_is_reported_at_the_subclass() {
    let program = "[Class subclass name: #Dog super: #Animal fields: []];";
    let tokens = lex(program).unwrap();
    let ast = parse(&tokens).unwrap();
    let object = object_ident();
    match find_classes_and_methods(&ast, built_in(&object)) {
        Err(Error::ClassNotDefined { class, span }) => {
            assert_eq!(class, "Animal");
            assert_eq!(span, Span::new(0, program.len()));
        }
        other => panic!("expected a missing class, got {:?}", other),
    }
}

#[test]
fn a_superclass_may_be_declared_after_its_subclass() {
    let program = "[Class subclass name: #Dog super: #Animal fields: [#name]];\
                   [Class subclass name: #Animal super: #Object fields: []];";
    let tokens = lex(program).unwrap();
    let ast = parse(&tokens).unwrap();
    let object = object_ident();
    let classes = find_classes_and_methods(&ast, built_in(&object)).unwrap();
    let names: Vec<&str> = classes.table.iter().map(|c| c.name.name).collect();
    assert_eq!(names, vec!["Object", "Dog", "Animal"]);
    assert_eq!(classes.get("Object").unwrap().super_class, None);
    assert_eq!(classes.get("Dog").unwrap().super_class, Some(2));
    assert_eq!(classes.get("Animal").unwrap().super_class, Some(0));
}

#[test]
fn object_has_no_field_and_no_method() {
    let program = "[Class subclass name: #Dog super: #Object fields: [#name]];\
                   [Dog def: #bark do: || { return 1; }];";
    let tokens = lex(program).unwrap();
    let ast = parse(&tokens).unwrap();
    let object = object_ident();
    let classes = find_classes_and_methods(&ast, built_in(&object)).unwrap();
    let root = classes.get("Object").unwrap();
    assert!(root.fields.is_empty());
    assert!(root.methods.is_empty());
    assert_eq!(root.super_class, None);
}

#[test]
fn a_field_declared_twice_is_one_field() {
    let program = "[Class subclass name: #P super: #Object fields: [#x #y #x]];";
    let tokens = lex(program).unwrap();
    let ast = parse(&tokens).unwrap();
    let object = object_ident();
    let classes = find_classes_and_methods(&ast, built_in(&object)).unwrap();
    let fields: Vec<&str> = classes
        .get("P")
        .unwrap()
        .fields
        .iter()
        .map(|f| f.name.name)
        .collect();
    assert_eq!(fields, vec!["x", "y"]);
}

#[test]
fn a_subclass_may_redefine_a_method_of_its_ancestor() {
    let program = "[Class subclass name: #A super: #Object fields: []];\
                   [Class subclass name: #B super: #A fields: []];\
                   [A def: #m do: || { return 1; }];\
                   [B def: #m do: || { return 2; }];";
    let tokens = lex(program).unwrap();
    let ast = parse(&tokens).unwrap();
    let object = object_ident();
    let classes = find_classes_and_methods(&ast, built_in(&object)).unwrap();
    assert_eq!(classes.get("A").unwrap().methods.len(), 1);
    assert_eq!(classes.get("B").unwrap().methods.len(), 1);
}

#[test]
fn the_same_method_twice_on_one_class_cites_both_definitions() {
    let first = "[A def: #m do: || { return 1; }];";
    let second = "[A def: #m do: |x:| { return 2; }];";
    let program = format!(
        "[Class subclass name: #A super: #Object fields: []];{}{}",
        first, second
    );
    let tokens = lex(&program).unwrap();
    let ast = parse(&tokens).unwrap();
    let object = object_ident();
    match find_classes_and_methods(&ast, built_in(&object)) {
        Err(Error::MethodAlreadyDefined {
            class,
            method,
            first_span,
            second_span,
        }) => {
            assert_eq!(class, "A");
            assert_eq!(method, "m");
            assert_eq!(first_span, span_of(&program, first));
            assert_eq!(second_span, span_of(&program, second));
        }
        other => panic!("expected a method defined twice, got {:?}", other),
    }
}

#[test]
fn method_lookup_walks_up_and_finds_the_nearest_definition() {
    let program = "[Class subclass name: #A super: #Object fields: []];\
                   [Class subclass name: #B super: #A fields: []];\
                   [Class subclass name: #C super: #B fields: []];\
                   [A def: #m do: || { return 1; }];\
                   [B def: #m do: |x:| { return 2; }];\
                   [A def: #only do: || { return 3; }];";
    let tokens = lex(program).unwrap();
    let ast = parse(&tokens).unwrap();
    let object = object_ident();
    let classes = find_classes_and_methods(&ast, built_in(&object)).unwrap();
    let c = classes.get("C").unwrap();
    let site = Span::new(1, 2);

    let m = c.get_method_named(&classes, "m", site).unwrap();
    assert_eq!(m.parameters.len(), 1);
    let only = c.get_method_named(&classes, "only", site).unwrap();
    assert_eq!(only.name.name, "only");
    let a = classes.get("A").unwrap();
    assert_eq!(a.get_method_named(&classes, "m", site).unwrap().parameters.len(), 0);

    match c.get_method_named(&classes, "missing", site) {
        Err(Error::UndefinedMethod {
            class,
            method,
            span,
        }) => {
            assert_eq!(class, "C");
            assert_eq!(method, "missing");
            assert_eq!(span, site);
        }
        other => panic!("expected an undefined method, got {:?}", other.map(|m| m.name)),
    }
}

#[test]
fn method_lookup_ends_in_a_cycle_of_superclasses() {
    let program = "[Class subclass name: #A super: #B fields: []];\
                   [Class subclass name: #B super: #A fields: []];\
                   [B def: #m do: || { return 1; }];";
    let tokens = lex(program).unwrap();
    let ast = parse(&tokens).unwrap();
    let object = object_ident();
    let classes = find_classes_and_methods(&ast, built_in(&object)).unwrap();
    let a = classes.get("A").unwrap();
    let site = Span::new(0, 1);
    assert!(a.get_method_named(&classes, "m", site).is_ok());
    assert!(matches!(
        a.get_method_named(&classes, "other", site),
        Err(Error::UndefinedMethod { class: "A", .. })
    ));
}

#[test]
fn definitions_inside_a_method_body_are_not_collected() {
    let program = "[Class subclass name: #A super: #Object fields: []];\
                   [A def: #m do: || { [Class subclass name: #Inner super: #Object fields: []]; }];";
    let tokens = lex(program).unwrap();
    let ast = parse(&tokens).unwrap();
    assert!(matches!(ast[1], Stmt::DefineMethod(_)));
    let object = object_ident();
    let classes = find_classes_and_methods(&ast, built_in(&object)).unwrap();
    assert!(classes.get("Inner").is_none());
}
