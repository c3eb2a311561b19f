//! The class table: every class of a program with its fields, its methods
//! and its superclass, and the two passes over the syntax tree that build it.

use vstd::prelude::*;
use crate::ast::parameters_view;
use crate::ast::selectors_view;
use crate::ast::stmts_view;
use crate::ast::DefineClass;
use crate::ast::DefineMethod;
use crate::ast::Ident;
use crate::ast::Parameter;
use crate::ast::ParameterView;
use crate::ast::SelectorView;
use crate::ast::Stmt;
use crate::ast::StmtView;
use crate::error::Error;
use crate::error::ErrorView;
use crate::text::str_eq;
use crate::Span;

verus! {

/// A field of a class.
#[derive(Debug, Eq, PartialEq, Hash)]
pub struct Field<'a> {
    pub name: &'a Ident<'a>,
}

/// A method of a class: its name, its parameters in order, and its body.
#[derive(Debug)]
pub struct Method<'a> {
    pub name: &'a Ident<'a>,
    pub parameters: &'a Vec<Parameter<'a>>,
    pub body: &'a Vec<Stmt<'a>>,
    pub span: Span,
}

/// A class: its own fields in the order of their declaration, its own
/// methods, and its superclass by name and, once linked, by its index in the
/// table.
#[derive(Debug)]
pub struct Class<'a> {
    pub name: &'a Ident<'a>,
    pub super_class_name: &'a Ident<'a>,
    pub super_class: Option<usize>,
    pub fields: Vec<Field<'a>>,
    pub methods: Vec<Method<'a>>,
    pub span: Span,
}

/// The classes of a program, in the order in which they were added.
#[derive(Debug)]
pub struct ClassVTable<'a> {
    pub table: Vec<Class<'a>>,
}

pub type Classes<'a> = ClassVTable<'a>;

pub struct MethodView {
    pub name: Seq<char>,
    pub parameters: Seq<Seq<char>>,
    pub body: Seq<StmtView>,
    pub span: Span,
}

pub struct ClassView {
    pub name: Seq<char>,
    pub super_class_name: Seq<char>,
    pub super_class: Option<nat>,
    pub fields: Seq<Seq<char>>,
    pub methods: Seq<MethodView>,
    pub span: Span,
}

/// The names of `parameters`, in order.
pub open spec fn parameter_names(parameters: Seq<ParameterView>) -> Seq<Seq<char>> {
    parameters.map_values(|parameter: ParameterView| parameter.ident.name)
}

impl<'a> Method<'a> {
    pub open spec fn view(&self) -> MethodView {
        MethodView {
            name: self.name.name@,
            parameters: parameter_names(parameters_view(self.parameters@)),
            body: stmts_view(self.body@),
            span: self.span,
        }
    }
}

/// The names of `fields`, in order.
pub open spec fn fields_view<'a>(fields: Seq<Field<'a>>) -> Seq<Seq<char>> {
    fields.map_values(|field: Field<'a>| field.name.name@)
}

/// The views of `methods`, in order.
pub open spec fn methods_view<'a>(methods: Seq<Method<'a>>) -> Seq<MethodView> {
    methods.map_values(|method: Method<'a>| method@)
}

impl<'a> Class<'a> {
    pub open spec fn view(&self) -> ClassView {
        ClassView {
            name: self.name.name@,
            super_class_name: self.super_class_name.name@,
            super_class: match self.super_class {
                Some(index) => Some(index as nat),
                None => None,
            },
            fields: fields_view(self.fields@),
            methods: methods_view(self.methods@),
            span: self.span,
        }
    }

    /// A class without methods that is not linked to its superclass yet.
    pub fn new(
        name: &'a Ident<'a>,
        super_class_name: &'a Ident<'a>,
        fields: Vec<Field<'a>>,
        span: Span,
    ) -> (class: Self)
        ensures
            class@ == (ClassView {
                name: name.name@,
                super_class_name: super_class_name.name@,
                super_class: None,
                fields: fields_view(fields@),
                methods: Seq::empty(),
                span,
            }),
    {
        let class = Self {
            name,
            fields,
            super_class_name,
            super_class: None,
            methods: Vec::new(),
            span,
        };
        assert(methods_view(class.methods@) =~= Seq::empty());
        class
    }
}

/// The views of `classes`, in order.
pub open spec fn classes_view<'a>(classes: Seq<Class<'a>>) -> Seq<ClassView> {
    classes.map_values(|class: Class<'a>| class@)
}

impl<'a> ClassVTable<'a> {
    pub open spec fn view(&self) -> Seq<ClassView> {
        classes_view(self.table@)
    }
}

/// The name of the class that has no superclass.
pub open spec fn object_name() -> Seq<char> {
    "Object"@
}

/// The index of the first class of `table` named `name`.
pub open spec fn class_index(table: Seq<ClassView>, name: Seq<char>) -> Option<nat>
    decreases table.len(),
{
    if table.len() == 0 {
        None
    } else {
        match class_index(table.drop_last(), name) {
            Some(index) => Some(index),
            None => if table.last().name == name {
                Some((table.len() - 1) as nat)
            } else {
                None
            },
        }
    }
}

/// The index of the first method of `methods` named `name`.
pub open spec fn method_index(methods: Seq<MethodView>, name: Seq<char>) -> Option<nat>
    decreases methods.len(),
{
    if methods.len() == 0 {
        None
    } else {
        match method_index(methods.drop_last(), name) {
            Some(index) => Some(index),
            None => if methods.last().name == name {
                Some((methods.len() - 1) as nat)
            } else {
                None
            },
        }
    }
}

/// The field names that `selectors` declare: each name once, in the order
/// of its first declaration.
pub open spec fn declared_fields(selectors: Seq<SelectorView>) -> Seq<Seq<char>>
    decreases selectors.len(),
{
    if selectors.len() == 0 {
        Seq::empty()
    } else {
        let before = declared_fields(selectors.drop_last());
        if before.contains(selectors.last().ident.name) {
            before
        } else {
            before.push(selectors.last().ident.name)
        }
    }
}

/// No field is declared twice.
pub proof fn lemma_declared_fields_are_distinct(selectors: Seq<SelectorView>)
    ensures
        declared_fields(selectors).no_duplicates(),
    decreases selectors.len(),
{
    if selectors.len() > 0 {
        lemma_declared_fields_are_distinct(selectors.drop_last());
    }
}

/// The table after the statement `stmt` was seen by the pass that collects
/// classes: a class definition adds its class, unless the name is taken.
pub open spec fn add_class(table: Seq<ClassView>, stmt: StmtView) -> Result<
    Seq<ClassView>,
    ErrorView,
> {
    match stmt {
        StmtView::DefineClass { name, super_class, fields, span } => match class_index(
            table,
            name.class_name.name,
        ) {
            Some(first) => Err(
                ErrorView::ClassAlreadyDefined {
                    class: name.class_name.name,
                    first_span: table[first as int].span,
                    second_span: span,
                },
            ),
            None => Ok(
                table.push(
                    ClassView {
                        name: name.class_name.name,
                        super_class_name: super_class.class_name.name,
                        super_class: None,
                        fields: declared_fields(fields),
                        methods: Seq::empty(),
                        span,
                    },
                ),
            ),
        },
        _ => Ok(table),
    }
}

/// The table after the statements of `ast` from the `i`-th on were seen by
/// the pass that collects classes.
pub open spec fn collect_classes(ast: Seq<StmtView>, i: nat, table: Seq<ClassView>) -> Result<
    Seq<ClassView>,
    ErrorView,
>
    decreases ast.len() - i,
{
    if i >= ast.len() {
        Ok(table)
    } else {
        match add_class(table, ast[i as int]) {
            Ok(next) => collect_classes(ast, i + 1, next),
            Err(error) => Err(error),
        }
    }
}

/// The failure of linking the classes of `table` from the `i`-th on: the
/// first class, other than `Object`, whose superclass is not in the table.
pub open spec fn link_error(table: Seq<ClassView>, i: nat) -> Option<ErrorView>
    decreases table.len() - i,
{
    if i >= table.len() {
        None
    } else if table[i as int].name != object_name() && class_index(
        table,
        table[i as int].super_class_name,
    ) is None {
        Some(
            ErrorView::ClassNotDefined {
                class: table[i as int].super_class_name,
                span: table[i as int].span,
            },
        )
    } else {
        link_error(table, i + 1)
    }
}

/// `class` with its superclass looked up in `table`; `Object` stays as it is.
pub open spec fn link_class(table: Seq<ClassView>, class: ClassView) -> ClassView {
    if class.name == object_name() {
        class
    } else {
        ClassView { super_class: class_index(table, class.super_class_name), ..class }
    }
}

/// The table with every class linked to its superclass, or the failure of
/// the first class whose superclass is missing.  No class is linked unless
/// all can be.
pub open spec fn link_classes(table: Seq<ClassView>) -> Result<Seq<ClassView>, ErrorView> {
    match link_error(table, 0) {
        Some(error) => Err(error),
        None => Ok(table.map_values(|class: ClassView| link_class(table, class))),
    }
}

/// The table after the statement `stmt` was seen by the pass that collects
/// methods: a method definition adds its method to its class, unless the
/// class is missing or has a method of that name itself.
pub open spec fn add_method(table: Seq<ClassView>, stmt: StmtView) -> Result<
    Seq<ClassView>,
    ErrorView,
> {
    match stmt {
        StmtView::DefineMethod { class_name, method_name, block, span } => match class_index(
            table,
            class_name.name,
        ) {
            None => Err(ErrorView::ClassNotDefined { class: class_name.name, span }),
            Some(owner) => {
                let class = table[owner as int];
                match method_index(class.methods, method_name.ident.name) {
                    Some(first) => Err(
                        ErrorView::MethodAlreadyDefined {
                            class: class.name,
                            method: method_name.ident.name,
                            first_span: class.methods[first as int].span,
                            second_span: span,
                        },
                    ),
                    None => Ok(
                        table.update(
                            owner as int,
                            ClassView {
                                methods: class.methods.push(
                                    MethodView {
                                        name: method_name.ident.name,
                                        parameters: parameter_names(block.parameters),
                                        body: block.body,
                                        span,
                                    },
                                ),
                                ..class
                            },
                        ),
                    ),
                }
            },
        },
        _ => Ok(table),
    }
}

/// The table after the statements of `ast` from the `i`-th on were seen by
/// the pass that collects methods.
pub open spec fn collect_methods(ast: Seq<StmtView>, i: nat, table: Seq<ClassView>) -> Result<
    Seq<ClassView>,
    ErrorView,
>
    decreases ast.len() - i,
{
    if i >= ast.len() {
        Ok(table)
    } else {
        match add_method(table, ast[i as int]) {
            Ok(next) => collect_methods(ast, i + 1, next),
            Err(error) => Err(error),
        }
    }
}

/// The classes of `ast` added to `built_in` and linked to their
/// superclasses.
pub open spec fn build_classes(ast: Seq<StmtView>, built_in: Seq<ClassView>) -> Result<
    Seq<ClassView>,
    ErrorView,
> {
    match collect_classes(ast, 0, built_in) {
        Ok(table) => link_classes(table),
        Err(error) => Err(error),
    }
}

/// The class table of the program `ast`, started from the classes
/// `built_in`: all classes are collected, then linked, then all methods are
/// collected.  The first failure is the result.
pub open spec fn build_table(ast: Seq<StmtView>, built_in: Seq<ClassView>) -> Result<
    Seq<ClassView>,
    ErrorView,
> {
    match build_classes(ast, built_in) {
        Ok(table) => collect_methods(ast, 0, table),
        Err(error) => Err(error),
    }
}

/// The method named `name` that a receiver of class `class` answers with:
/// the class's own, else that of the nearest superclass that has one.  At
/// most `fuel` superclass links are followed.
pub open spec fn resolve_method(
    table: Seq<ClassView>,
    class: ClassView,
    name: Seq<char>,
    fuel: nat,
) -> Option<MethodView>
    decreases fuel,
{
    match method_index(class.methods, name) {
        Some(index) => Some(class.methods[index as int]),
        None => match class.super_class {
            Some(parent) => if fuel > 0 && parent < table.len() {
                resolve_method(table, table[parent as int], name, (fuel - 1) as nat)
            } else {
                None
            },
            None => None,
        },
    }
}

/// An index found in a prefix of the table is the index in the whole table.
pub proof fn lemma_class_index_prefix(table: Seq<ClassView>, name: Seq<char>, k: int)
    requires
        0 <= k <= table.len(),
        class_index(table.take(k), name) is Some,
    ensures
        class_index(table, name) == class_index(table.take(k), name),
    decreases table.len() - k,
{
    if k == table.len() {
        assert(table.take(k) =~= table);
    } else {
        assert(table.take(k + 1).drop_last() =~= table.take(k));
        lemma_class_index_prefix(table, name, k + 1);
    }
}

/// What [`class_index`] finds is the first class of that name.
pub proof fn lemma_class_index(table: Seq<ClassView>, name: Seq<char>)
    ensures
        match class_index(table, name) {
            Some(index) => index < table.len() && table[index as int].name == name && forall|
                j: int,
            |
                0 <= j < index ==> (#[trigger] table[j]).name != name,
            None => forall|j: int| 0 <= j < table.len() ==> (#[trigger] table[j]).name != name,
        },
    decreases table.len(),
{
    if table.len() > 0 {
        lemma_class_index(table.drop_last(), name);
        match class_index(table.drop_last(), name) {
            Some(index) => {
                assert(table.drop_last()[index as int] == table[index as int]);
                assert forall|j: int| 0 <= j < index implies (#[trigger] table[j]).name
                    != name by {
                    assert(table.drop_last()[j] == table[j]);
                }
            },
            None => {
                assert forall|j: int| 0 <= j < table.len() - 1 implies (#[trigger] table[j]).name
                    != name by {
                    assert(table.drop_last()[j] == table[j]);
                }
            },
        }
    }
}

/// An index found in a prefix of the methods is the index in all of them.
pub proof fn lemma_method_index_prefix(methods: Seq<MethodView>, name: Seq<char>, k: int)
    requires
        0 <= k <= methods.len(),
        method_index(methods.take(k), name) is Some,
    ensures
        method_index(methods, name) == method_index(methods.take(k), name),
    decreases methods.len() - k,
{
    if k == methods.len() {
        assert(methods.take(k) =~= methods);
    } else {
        assert(methods.take(k + 1).drop_last() =~= methods.take(k));
        lemma_method_index_prefix(methods, name, k + 1);
    }
}

/// What [`method_index`] finds is a method of that name.
pub proof fn lemma_method_index(methods: Seq<MethodView>, name: Seq<char>)
    ensures
        match method_index(methods, name) {
            Some(index) => index < methods.len() && methods[index as int].name == name,
            None => forall|j: int|
                0 <= j < methods.len() ==> (#[trigger] methods[j]).name != name,
        },
    decreases methods.len(),
{
    if methods.len() > 0 {
        lemma_method_index(methods.drop_last(), name);
        match method_index(methods.drop_last(), name) {
            Some(index) => {
                assert(methods.drop_last()[index as int] == methods[index as int]);
            },
            None => {
                assert forall|j: int| 0 <= j < methods.len() - 1 implies (
                #[trigger] methods[j]).name != name by {
                    assert(methods.drop_last()[j] == methods[j]);
                }
            },
        }
    }
}

impl<'a> ClassVTable<'a> {
    /// A table without classes.
    pub fn new() -> (classes: Self)
        ensures
            classes@ == Seq::<ClassView>::empty(),
    {
        let classes = ClassVTable { table: Vec::new() };
        assert(classes@ =~= Seq::empty());
        classes
    }

    /// Adds `class` at the end of the table.
    pub fn insert(&mut self, class: Class<'a>)
        ensures
            final(self)@ == old(self)@.push(class@),
    {
        self.table.push(class);
        assert(self@ =~= old(self)@.push(class@));
    }

    /// The index of the class named `name`.
    pub fn index_of(&self, name: &str) -> (found: Option<usize>)
        ensures
            match class_index(self@, name@) {
                Some(index) => found matches Some(i) && i == index && i < self.table@.len(),
                None => found is None,
            },
    {
        let mut i: usize = 0;
        while i < self.table.len()
            invariant
                i <= self.table@.len(),
                class_index(self@.take(i as int), name@) is None,
            decreases self.table@.len() - i,
        {
            assert(self@.take(i + 1).drop_last() =~= self@.take(i as int));
            if str_eq(self.table[i].name.name, name) {
                proof {
                    lemma_class_index_prefix(self@, name@, i + 1);
                }
                return Some(i);
            }
            i = i + 1;
        }
        assert(self@.take(i as int) =~= self@);
        None
    }

    /// The class named `name`.
    pub fn get(&self, name: &str) -> (found: Option<&Class<'a>>)
        ensures
            match class_index(self@, name@) {
                Some(index) => found matches Some(class) && index < self.table@.len() && *class
                    == self.table@[index as int],
                None => found is None,
            },
    {
        match self.index_of(name) {
            Some(index) => Some(&self.table[index]),
            None => None,
        }
    }
}

impl<'a> Class<'a> {
    /// The index of this class's own method named `name`.
    pub fn method_index_of(&self, name: &str) -> (found: Option<usize>)
        ensures
            match method_index(self@.methods, name@) {
                Some(index) => found matches Some(i) && i == index && i < self.methods@.len(),
                None => found is None,
            },
    {
        let ghost methods = self@.methods;
        let mut i: usize = 0;
        while i < self.methods.len()
            invariant
                i <= self.methods@.len(),
                methods == self@.methods,
                method_index(methods.take(i as int), name@) is None,
            decreases self.methods@.len() - i,
        {
            assert(methods.take(i + 1).drop_last() =~= methods.take(i as int));
            if str_eq(self.methods[i].name.name, name) {
                proof {
                    lemma_method_index_prefix(methods, name@, i + 1);
                }
                return Some(i);
            }
            i = i + 1;
        }
        assert(methods.take(i as int) =~= methods);
        None
    }

    /// The method that a receiver of this class answers the message
    /// `method_name` with: its own, else that of the nearest superclass that
    /// has one.  Where there is none the failure names this class.
    pub fn get_method_named<'b>(
        &'b self,
        classes: &'b ClassVTable<'a>,
        method_name: &'a str,
        call_site: Span,
    ) -> (result: Result<&'b Method<'a>, Error<'a>>)
        ensures
            match resolve_method(classes@, self@, method_name@, classes@.len()) {
                Some(method) => result matches Ok(found) && found@ == method,
                None => result matches Err(e) && e@ == (ErrorView::UndefinedMethod {
                    class: self@.name,
                    method: method_name@,
                    span: call_site,
                }),
            },
    {
        let mut current: &'b Class<'a> = self;
        let mut fuel: usize = classes.table.len();
        loop
            invariant
                fuel <= classes@.len(),
                resolve_method(classes@, self@, method_name@, classes@.len()) == resolve_method(
                    classes@,
                    current@,
                    method_name@,
                    fuel as nat,
                ),
            decreases fuel,
        {
            match current.method_index_of(method_name) {
                Some(index) => {
                    return Ok(&current.methods[index]);
                },
                None => {},
            }
            match current.super_class {
                Some(parent) => {
                    if fuel > 0 && parent < classes.table.len() {
                        current = &classes.table[parent];
                        fuel = fuel - 1;
                    } else {
                        return Err(
                            Error::UndefinedMethod {
                                class: self.name.name,
                                method: method_name,
                                span: call_site,
                            },
                        );
                    }
                },
                None => {
                    return Err(
                        Error::UndefinedMethod {
                            class: self.name.name,
                            method: method_name,
                            span: call_site,
                        },
                    );
                },
            }
        }
    }
}

/// The class that every program starts with: it is named by `ident`, and has
/// no field, no method and no superclass.
pub fn built_in_class<'a>(ident: &'a Ident<'a>) -> (class: Class<'a>)
    ensures
        class@ == (ClassView {
            name: ident.name@,
            super_class_name: ident.name@,
            super_class: None,
            fields: Seq::empty(),
            methods: Seq::empty(),
            span: ident.span,
        }),
{
    let class = Class::new(ident, ident, Vec::new(), ident.span);
    assert(class@.fields =~= Seq::empty());
    class
}

/// The pass that collects the classes of a program.
pub struct FindClasses<'a> {
    pub table: Classes<'a>,
}

impl<'a> FindClasses<'a> {
    /// Adds the class that `node` defines, unless its name is taken.
    pub fn visit_define_class(&mut self, node: &'a DefineClass<'a>) -> (result: Result<
        (),
        Error<'a>,
    >)
        ensures
            match add_class(old(self).table@, node@) {
                Ok(table) => result is Ok && final(self).table@ == table,
                Err(error) => result matches Err(e) && e@ == error && final(self).table@ == old(self).table@,
            },
    {
        let name = &node.name.class_name.0;
        let key = name.name;
        match self.check_for_existing_class_with_same_name(key, node) {
            Ok(()) => {},
            Err(e) => {
                return Err(e);
            },
        }
        let fields = self.make_fields(node);
        let super_class_name = &node.super_class.class_name.0;
        let class = Class::new(name, super_class_name, fields, node.span);
        self.table.insert(class);
        Ok(())
    }

    /// Fails if the table has a class named `key`, with the spans of that
    /// class and of `node`.
    pub fn check_for_existing_class_with_same_name(
        &self,
        key: &'a str,
        node: &'a DefineClass<'a>,
    ) -> (result: Result<(), Error<'a>>)
        ensures
            match class_index(self.table@, key@) {
                Some(first) => result matches Err(e) && e@ == (ErrorView::ClassAlreadyDefined {
                    class: key@,
                    first_span: self.table@[first as int].span,
                    second_span: node.span,
                }),
                None => result is Ok,
            },
    {
        match self.table.get(key) {
            Some(other) => Err(
                Error::ClassAlreadyDefined {
                    class: key,
                    first_span: other.span,
                    second_span: node.span,
                },
            ),
            None => Ok(()),
        }
    }

    /// The fields that `node` declares: each name once, in the order of its
    /// first declaration.
    pub fn make_fields(&self, node: &'a DefineClass<'a>) -> (fields: Vec<Field<'a>>)
        ensures
            fields_view(fields@) == declared_fields(selectors_view(node.fields@)),
    {
        let mut fields: Vec<Field<'a>> = Vec::new();
        let ghost selectors = selectors_view(node.fields@);
        let mut i: usize = 0;
        assert(fields_view(fields@) =~= declared_fields(selectors.take(0)));
        while i < node.fields.len()
            invariant
                i <= node.fields@.len(),
                selectors == selectors_view(node.fields@),
                fields_view(fields@) == declared_fields(selectors.take(i as int)),
            decreases node.fields@.len() - i,
        {
            let ident = &node.fields[i].ident;
            assert(selectors.take(i + 1).drop_last() =~= selectors.take(i as int));
            assert(selectors.take(i + 1).last().ident.name == ident.name@);
            if !has_field(&fields, ident.name) {
                fields.push(Field { name: ident });
                assert(fields_view(fields@) =~= declared_fields(selectors.take(i + 1)));
            }
            i = i + 1;
        }
        assert(selectors.take(i as int) =~= selectors);
        fields
    }

    /// Links every class to its superclass.  Where the superclass of a class
    /// is missing, no class is changed.
    pub fn setup_super_classes(&mut self) -> (result: Result<(), Error<'a>>)
        ensures
            match link_classes(old(self).table@) {
                Ok(table) => result is Ok && final(self).table@ == table,
                Err(error) => result matches Err(e) && e@ == error && final(self).table@ == old(self).table@,
            },
    {
        let ghost table = self.table@;
        let mut acc: Vec<Option<usize>> = Vec::new();
        let mut i: usize = 0;
        while i < self.table.table.len()
            invariant
                i <= self.table.table@.len(),
                acc@.len() == i,
                self.table == old(self).table,
                table == self.table@,
                link_error(table, 0) == link_error(table, i as nat),
                forall|j: int|
                    0 <= j < i ==> link_class(table, table[j]).super_class == match (
                    #[trigger] acc@[j]) {
                        Some(index) => Some(index as nat),
                        None => None,
                    },
            decreases self.table.table@.len() - i,
        {
            let class = &self.table.table[i];
            assert(class@ == table[i as int]);
            proof {
                reveal_strlit("Object");
            }
            if str_eq(class.name.name, "Object") {
                acc.push(class.super_class);
            } else {
                match self.table.index_of(class.super_class_name.name) {
                    Some(index) => {
                        acc.push(Some(index));
                    },
                    None => {
                        return Err(
                            Error::ClassNotDefined {
                                class: class.super_class_name.name,
                                span: class.span,
                            },
                        );
                    },
                }
            }
            i = i + 1;
        }
        let n = self.table.table.len();
        let mut k: usize = 0;
        while k < n
            invariant
                k <= n,
                n == table.len(),
                acc@.len() == n,
                self.table@.len() == n,
                forall|j: int|
                    0 <= j < n ==> link_class(table, table[j]).super_class == match (
                    #[trigger] acc@[j]) {
                        Some(index) => Some(index as nat),
                        None => None,
                    },
                forall|j: int| 0 <= j < k ==> (#[trigger] self.table@[j]) == link_class(table, table[j]),
                forall|j: int| k <= j < n ==> (#[trigger] self.table@[j]) == table[j],
            decreases n - k,
        {
            let link = acc[k];
            set_super_class(&mut self.table, k, link);
            assert(self.table@[k as int] == link_class(table, table[k as int]));
            k = k + 1;
        }
        assert(self.table@ =~= table.map_values(|class: ClassView| link_class(table, class)));
        Ok(())
    }
}

/// Sets the superclass link of the `index`-th class.
fn set_super_class<'a>(classes: &mut ClassVTable<'a>, index: usize, link: Option<usize>)
    requires
        index < old(classes).table@.len(),
    ensures
        final(classes)@ == old(classes)@.update(
            index as int,
            ClassView {
                super_class: match link {
                    Some(parent) => Some(parent as nat),
                    None => None,
                },
                ..old(classes)@[index as int]
            },
        ),
{
    let class = &mut classes.table[index];
    class.super_class = link;
    assert(classes@ =~= old(classes)@.update(
        index as int,
        ClassView {
            super_class: match link {
                Some(parent) => Some(parent as nat),
                None => None,
            },
            ..old(classes)@[index as int]
        },
    ));
}

/// Whether one of `fields` is named `name`.
fn has_field<'a>(fields: &Vec<Field<'a>>, name: &str) -> (found: bool)
    ensures
        found == fields_view(fields@).contains(name@),
{
    let mut i: usize = 0;
    while i < fields.len()
        invariant
            i <= fields@.len(),
            forall|j: int| 0 <= j < i ==> fields_view(fields@)[j] != name@,
        decreases fields@.len() - i,
    {
        if str_eq(fields[i].name.name, name) {
            assert(fields_view(fields@)[i as int] == name@);
            return true;
        }
        i = i + 1;
    }
    false
}

/// Collects the classes of `ast` into `built_in_classes` and links each to
/// its superclass.
pub fn find_classes<'a>(ast: &'a Vec<Stmt<'a>>, built_in_classes: Classes<'a>) -> (result: Result<
    Classes<'a>,
    Error<'a>,
>)
    ensures
        match build_classes(stmts_view(ast@), built_in_classes@) {
            Ok(table) => result matches Ok(classes) && classes@ == table,
            Err(error) => result matches Err(e) && e@ == error,
        },
{
    let mut f = FindClasses { table: built_in_classes };
    let ghost views = stmts_view(ast@);
    let mut i: usize = 0;
    while i < ast.len()
        invariant
            i <= ast@.len(),
            views == stmts_view(ast@),
            collect_classes(views, 0, built_in_classes@) == collect_classes(
                views,
                i as nat,
                f.table@,
            ),
        decreases ast@.len() - i,
    {
        match &ast[i] {
            Stmt::DefineClass(node) => {
                match f.visit_define_class(node) {
                    Ok(()) => {},
                    Err(e) => {
                        return Err(e);
                    },
                }
            },
            _ => {},
        }
        i = i + 1;
    }
    match f.setup_super_classes() {
        Ok(()) => Ok(f.table),
        Err(e) => Err(e),
    }
}

/// The pass that collects the methods of a program.
pub struct FindMethods<'a> {
    pub classes: Classes<'a>,
}

impl<'a> FindMethods<'a> {
    /// Adds the method that `node` defines to its class, unless the class is
    /// missing or has a method of that name itself.
    pub fn visit_define_method(&mut self, node: &'a DefineMethod<'a>) -> (result: Result<
        (),
        Error<'a>,
    >)
        ensures
            match add_method(old(self).classes@, node@) {
                Ok(table) => result is Ok && final(self).classes@ == table,
                Err(error) => result matches Err(e) && e@ == error && final(self).classes@ == old(self).classes@,
            },
    {
        let method_name = &node.method_name.ident;
        let key = method_name.name;
        let class_name = node.class_name.0.name;
        let owner = match self.classes.index_of(class_name) {
            Some(owner) => owner,
            None => {
                return Err(Error::ClassNotDefined { class: class_name, span: node.span });
            },
        };
        match self.check_for_existing_method_with_same_name(&self.classes.table[owner], key, node) {
            Ok(()) => {},
            Err(e) => {
                return Err(e);
            },
        }
        let method = self.make_method(method_name, &node.block, node.span);
        add_method_to(&mut self.classes, owner, method);
        Ok(())
    }

    /// Fails if `class` has a method named `key` itself, with the spans of
    /// that method and of `node`.
    pub fn check_for_existing_method_with_same_name(
        &self,
        class: &Class<'a>,
        key: &'a str,
        node: &'a DefineMethod<'a>,
    ) -> (result: Result<(), Error<'a>>)
        ensures
            match method_index(class@.methods, key@) {
                Some(first) => result matches Err(e) && e@ == (ErrorView::MethodAlreadyDefined {
                    class: class@.name,
                    method: key@,
                    first_span: class@.methods[first as int].span,
                    second_span: node.span,
                }),
                None => result is Ok,
            },
    {
        match class.method_index_of(key) {
            Some(index) => Err(
                Error::MethodAlreadyDefined {
                    class: class.name.name,
                    method: key,
                    first_span: class.methods[index].span,
                    second_span: node.span,
                },
            ),
            None => Ok(()),
        }
    }

    /// The method named `method_name` with the parameters and the body of
    /// `block`.
    pub fn make_method(
        &self,
        method_name: &'a Ident<'a>,
        block: &'a crate::ast::Block<'a>,
        span: Span,
    ) -> (method: Method<'a>)
        ensures
            method@ == (MethodView {
                name: method_name.name@,
                parameters: parameter_names(block@.parameters),
                body: block@.body,
                span,
            }),
    {
        Method { name: method_name, parameters: &block.parameters, body: &block.body, span }
    }
}

/// Adds `method` to the methods of the `owner`-th class.
fn add_method_to<'a>(classes: &mut ClassVTable<'a>, owner: usize, method: Method<'a>)
    requires
        owner < old(classes).table@.len(),
    ensures
        final(classes)@ == old(classes)@.update(
            owner as int,
            ClassView {
                methods: old(classes)@[owner as int].methods.push(method@),
                ..old(classes)@[owner as int]
            },
        ),
{
    let class = &mut classes.table[owner];
    class.methods.push(method);
    assert(classes@[owner as int].methods =~= old(classes)@[owner as int].methods.push(method@));
    assert(classes@ =~= old(classes)@.update(
        owner as int,
        ClassView {
            methods: old(classes)@[owner as int].methods.push(method@),
            ..old(classes)@[owner as int]
        },
    ));
}

/// Collects the methods of `ast` into the classes of `classes`.
pub fn find_methods<'a>(ast: &'a Vec<Stmt<'a>>, classes: Classes<'a>) -> (result: Result<
    Classes<'a>,
    Error<'a>,
>)
    ensures
        match collect_methods(stmts_view(ast@), 0, classes@) {
            Ok(table) => result matches Ok(found) && found@ == table,
            Err(error) => result matches Err(e) && e@ == error,
        },
{
    let mut f = FindMethods { classes };
    let ghost views = stmts_view(ast@);
    let mut i: usize = 0;
    while i < ast.len()
        invariant
            i <= ast@.len(),
            views == stmts_view(ast@),
            collect_methods(views, 0, classes@) == collect_methods(views, i as nat, f.classes@),
        decreases ast@.len() - i,
    {
        match &ast[i] {
            Stmt::DefineMethod(node) => {
                match f.visit_define_method(node) {
                    Ok(()) => {},
                    Err(e) => {
                        return Err(e);
                    },
                }
            },
            _ => {},
        }
        i = i + 1;
    }
    Ok(f.classes)
}

/// Builds the class table of the program `ast`, starting from the classes
/// `built_in_classes`: all classes are collected first, then each is linked
/// to its superclass, then all methods are collected, so a class may be used
/// before the statement that defines it.
pub fn find_classes_and_methods<'a>(ast: &'a Vec<Stmt<'a>>, built_in_classes: Classes<'a>) -> (result:
    Result<Classes<'a>, Error<'a>>)
    ensures
        match build_table(stmts_view(ast@), built_in_classes@) {
            Ok(table) => result matches Ok(classes) && classes@ == table,
            Err(error) => result matches Err(e) && e@ == error,
        },
{
    let classes = match find_classes(ast, built_in_classes) {
        Ok(classes) => classes,
        Err(e) => {
            return Err(e);
        },
    };
    find_methods(ast, classes)
}

/// The class name that `stmt` defines, where it is a class definition.
pub open spec fn defined_class(stmt: StmtView) -> Option<Seq<char>> {
    match stmt {
        StmtView::DefineClass { name, super_class, fields, span } => Some(name.class_name.name),
        _ => None,
    }
}

/// The source range of a statement.
pub open spec fn stmt_span(stmt: StmtView) -> Span {
    match stmt {
        StmtView::LetLocal { ident, body, span } => span,
        StmtView::LetIVar { ident, body, span } => span,
        StmtView::MessageSend { expr, span } => span,
        StmtView::Return { expr, span } => span,
        StmtView::DefineMethod { class_name, method_name, block, span } => span,
        StmtView::DefineClass { name, super_class, fields, span } => span,
    }
}

/// A class that is added at the end of a table is found under its name
/// there, unless the name was taken, and every other name is found where it
/// was.
pub proof fn lemma_class_index_push(table: Seq<ClassView>, class: ClassView, name: Seq<char>)
    ensures
        class_index(table.push(class), name) == match class_index(table, name) {
            Some(index) => Some(index),
            None => if class.name == name {
                Some(table.len())
            } else {
                None
            },
        },
{
    assert(table.push(class).drop_last() =~= table);
}

/// Collecting classes only ever fails because a class is defined twice.
pub proof fn lemma_collect_classes_error(ast: Seq<StmtView>, i: nat, table: Seq<ClassView>)
    ensures
        collect_classes(ast, i, table) matches Err(error) ==> error is ClassAlreadyDefined,
    decreases ast.len() - i,
{
    if i < ast.len() {
        match add_class(table, ast[i as int]) {
            Ok(next) => lemma_collect_classes_error(ast, i + 1, next),
            Err(error) => {},
        }
    }
}

/// Collecting from the start up to `j` and then from `j` on is collecting
/// all.
pub proof fn lemma_collect_classes_split(
    ast: Seq<StmtView>,
    i: nat,
    j: nat,
    table: Seq<ClassView>,
)
    requires
        i <= j <= ast.len(),
    ensures
        collect_classes(ast, i, table) == match collect_classes(ast.take(j as int), i, table) {
            Ok(middle) => collect_classes(ast, j, middle),
            Err(error) => Err(error),
        },
    decreases j - i,
{
    if i < j {
        assert(ast.take(j as int)[i as int] == ast[i as int]);
        match add_class(table, ast[i as int]) {
            Ok(next) => lemma_collect_classes_split(ast, i + 1, j, next),
            Err(error) => {},
        }
    }
}

/// Once a class is in the table, a later definition of its name fails the
/// collection.
pub proof fn lemma_collect_classes_taken(
    ast: Seq<StmtView>,
    k: nat,
    table: Seq<ClassView>,
    j: nat,
)
    requires
        k <= j < ast.len(),
        defined_class(ast[j as int]) matches Some(name) && class_index(table, name) is Some,
    ensures
        collect_classes(ast, k, table) is Err,
    decreases ast.len() - k,
{
    match add_class(table, ast[k as int]) {
        Ok(next) => {
            if k < j {
                let name = defined_class(ast[j as int])->0;
                match ast[k as int] {
                    StmtView::DefineClass { name: added, super_class, fields, span } => {
                        lemma_class_index_push(table, next.last(), name);
                        assert(next.drop_last() =~= table);
                    },
                    _ => {},
                }
                lemma_collect_classes_taken(ast, k + 1, next, j);
            }
        },
        Err(error) => {},
    }
}

/// After a successful collection every class that the statements from `k`
/// on define is in the table, with the span of its definition.
pub proof fn lemma_collect_classes_holds(
    ast: Seq<StmtView>,
    k: nat,
    table: Seq<ClassView>,
    i: nat,
)
    requires
        k <= i < ast.len(),
        defined_class(ast[i as int]) is Some,
        collect_classes(ast, k, table) is Ok,
    ensures
        ({
            let collected = collect_classes(ast, k, table)->Ok_0;
            let name = defined_class(ast[i as int])->0;
            class_index(collected, name) matches Some(index) && collected[index as int].span
                == stmt_span(ast[i as int])
        }),
    decreases ast.len() - k,
{
    let name = defined_class(ast[i as int])->0;
    match add_class(table, ast[k as int]) {
        Ok(next) => {
            if k < i {
                lemma_collect_classes_holds(ast, k + 1, next, i);
            } else {
                lemma_class_index(table, name);
                lemma_class_index_push(table, next.last(), name);
                assert(next.drop_last() =~= table);
                lemma_collect_classes_keeps(ast, k + 1, next, name);
            }
        },
        Err(error) => {},
    }
}

/// A successful collection leaves every class of the table where it was.
pub proof fn lemma_collect_classes_keeps(
    ast: Seq<StmtView>,
    k: nat,
    table: Seq<ClassView>,
    name: Seq<char>,
)
    requires
        class_index(table, name) is Some,
        collect_classes(ast, k, table) is Ok,
    ensures
        ({
            let collected = collect_classes(ast, k, table)->Ok_0;
            let index = class_index(table, name)->0;
            &&& class_index(collected, name) == Some(index)
            &&& index < table.len() <= collected.len()
            &&& collected[index as int] == table[index as int]
        }),
    decreases ast.len() - k,
{
    lemma_class_index(table, name);
    if k < ast.len() {
        match add_class(table, ast[k as int]) {
            Ok(next) => {
                match ast[k as int] {
                    StmtView::DefineClass { name: added, super_class, fields, span } => {
                        lemma_class_index_push(table, next.last(), name);
                        assert(next.drop_last() =~= table);
                    },
                    _ => {},
                }
                lemma_collect_classes_keeps(ast, k + 1, next, name);
            },
            Err(error) => {},
        }
    }
}

/// Two definitions of one class name never give a class table: building
/// fails with a class defined twice, wherever the two definitions stand
/// among the other statements.
pub proof fn lemma_class_defined_twice_fails(
    ast: Seq<StmtView>,
    built_in: Seq<ClassView>,
    i: nat,
    j: nat,
)
    requires
        i < j < ast.len(),
        defined_class(ast[i as int]) is Some,
        defined_class(ast[i as int]) == defined_class(ast[j as int]),
    ensures
        build_table(ast, built_in) matches Err(error) && error is ClassAlreadyDefined,
{
    lemma_collect_classes_error(ast, 0, built_in);
    lemma_collect_classes_split(ast, 0, j, built_in);
    match collect_classes(ast.take(j as int), 0, built_in) {
        Ok(middle) => {
            assert(ast.take(j as int)[i as int] == ast[i as int]);
            lemma_collect_classes_holds(ast.take(j as int), 0, built_in, i);
            lemma_collect_classes_taken(ast, j, middle, j);
        },
        Err(error) => {},
    }
}

/// The second definition of a class name is reported with the spans of both
/// definitions: where the statements before the second definition define no
/// class twice, building the table fails with exactly that error.
pub proof fn lemma_class_defined_twice_cites_both(
    ast: Seq<StmtView>,
    built_in: Seq<ClassView>,
    i: nat,
    j: nat,
)
    requires
        i < j < ast.len(),
        defined_class(ast[i as int]) is Some,
        defined_class(ast[i as int]) == defined_class(ast[j as int]),
        collect_classes(ast.take(j as int), 0, built_in) is Ok,
    ensures
        build_table(ast, built_in) == Err::<Seq<ClassView>, ErrorView>(
            ErrorView::ClassAlreadyDefined {
                class: defined_class(ast[i as int])->0,
                first_span: stmt_span(ast[i as int]),
                second_span: stmt_span(ast[j as int]),
            },
        ),
{
    lemma_collect_classes_split(ast, 0, j, built_in);
    assert(ast.take(j as int)[i as int] == ast[i as int]);
    lemma_collect_classes_holds(ast.take(j as int), 0, built_in, i);
}

/// A class may define a method that one of its ancestors has too: whether a
/// method definition is accepted depends on the methods of its own class
/// alone.
pub proof fn lemma_override_is_accepted(table: Seq<ClassView>, stmt: StmtView)
    requires
        stmt matches StmtView::DefineMethod { class_name, method_name, .. } && class_index(
            table,
            class_name.name,
        ) matches Some(owner) && method_index(
            table[owner as int].methods,
            method_name.ident.name,
        ) is None,
    ensures
        add_method(table, stmt) is Ok,
{
}

/// A method that its own class has already is refused, with the spans of
/// both definitions.
pub proof fn lemma_method_defined_twice_is_refused(table: Seq<ClassView>, stmt: StmtView)
    requires
        stmt matches StmtView::DefineMethod { class_name, method_name, .. } && class_index(
            table,
            class_name.name,
        ) matches Some(owner) && method_index(
            table[owner as int].methods,
            method_name.ident.name,
        ) is Some,
    ensures
        ({
            let owner = class_index(table, stmt->DefineMethod_class_name.name)->0;
            let class = table[owner as int];
            let first = method_index(class.methods, stmt->method_name.ident.name)->0;
            add_method(table, stmt) == Err::<Seq<ClassView>, ErrorView>(
                ErrorView::MethodAlreadyDefined {
                    class: class.name,
                    method: stmt->method_name.ident.name,
                    first_span: class.methods[first as int].span,
                    second_span: stmt_span(stmt),
                },
            )
        }),
{
}

/// The class and the method name that `stmt` defines, where it is a method
/// definition.
pub open spec fn defined_method(stmt: StmtView) -> Option<(Seq<char>, Seq<char>)> {
    match stmt {
        StmtView::DefineMethod { class_name, method_name, block, span } => Some(
            (class_name.name, method_name.ident.name),
        ),
        _ => None,
    }
}

/// Adding a method leaves the names of the classes as they are.
pub proof fn lemma_add_method_keeps_names(table: Seq<ClassView>, stmt: StmtView, name: Seq<char>)
    requires
        add_method(table, stmt) is Ok,
    ensures
        class_index(add_method(table, stmt)->Ok_0, name) == class_index(table, name),
        add_method(table, stmt)->Ok_0.len() == table.len(),
{
    let next = add_method(table, stmt)->Ok_0;
    match stmt {
        StmtView::DefineMethod { class_name, method_name, block, span } => {
            lemma_class_index(table, class_name.name);
            lemma_class_index_same_names(table, next, name);
        },
        _ => {},
    }
}

/// Tables with the same class names in the same places find the same index.
pub proof fn lemma_class_index_same_names(a: Seq<ClassView>, b: Seq<ClassView>, name: Seq<char>)
    requires
        a.len() == b.len(),
        forall|i: int| 0 <= i < a.len() ==> (#[trigger] a[i]).name == b[i].name,
    ensures
        class_index(a, name) == class_index(b, name),
    decreases a.len(),
{
    if a.len() > 0 {
        assert forall|i: int| 0 <= i < a.drop_last().len() implies (
        #[trigger] a.drop_last()[i]).name == b.drop_last()[i].name by {
            assert(a.drop_last()[i] == a[i]);
            assert(b.drop_last()[i] == b[i]);
        }
        lemma_class_index_same_names(a.drop_last(), b.drop_last(), name);
        assert(a.last() == a[a.len() - 1]);
        assert(b.last() == b[b.len() - 1]);
    }
}

/// Once a class has a method, a later definition of that method on the same
/// class fails the collection.
pub proof fn lemma_collect_methods_taken(
    ast: Seq<StmtView>,
    k: nat,
    table: Seq<ClassView>,
    j: nat,
)
    requires
        k <= j < ast.len(),
        defined_method(ast[j as int]) matches Some((class, method)) && class_index(
            table,
            class,
        ) matches Some(owner) && method_index(table[owner as int].methods, method) is Some,
    ensures
        collect_methods(ast, k, table) is Err,
    decreases ast.len() - k,
{
    match add_method(table, ast[k as int]) {
        Ok(next) => {
            if k < j {
                let (class, method) = defined_method(ast[j as int])->0;
                let owner = class_index(table, class)->0;
                lemma_class_index(table, class);
                lemma_add_method_keeps_names(table, ast[k as int], class);
                match ast[k as int] {
                    StmtView::DefineMethod { class_name, method_name, block, span } => {
                        lemma_class_index(table, class_name.name);
                        let changed = class_index(table, class_name.name)->0;
                        if changed == owner {
                            let methods = table[owner as int].methods;
                            assert(next[owner as int].methods.drop_last() =~= methods);
                        }
                    },
                    _ => {},
                }
                lemma_collect_methods_taken(ast, k + 1, next, j);
            }
        },
        Err(error) => {},
    }
}

/// Defining the same method twice on the same class never gives a class
/// table: where the class has the method once the first definition is
/// collected, the second one fails the collection.
pub proof fn lemma_method_defined_twice_fails(
    ast: Seq<StmtView>,
    table: Seq<ClassView>,
    i: nat,
    j: nat,
)
    requires
        i < j < ast.len(),
        defined_method(ast[i as int]) is Some,
        defined_method(ast[i as int]) == defined_method(ast[j as int]),
    ensures
        collect_methods(ast, 0, table) is Err,
{
    lemma_collect_methods_reach(ast, 0, table, i, j);
}

/// Collection up to the first of two definitions of one method either fails
/// or goes on to fail at the second.
pub proof fn lemma_collect_methods_reach(
    ast: Seq<StmtView>,
    k: nat,
    table: Seq<ClassView>,
    i: nat,
    j: nat,
)
    requires
        k <= i < j < ast.len(),
        defined_method(ast[i as int]) is Some,
        defined_method(ast[i as int]) == defined_method(ast[j as int]),
    ensures
        collect_methods(ast, k, table) is Err,
    decreases ast.len() - k,
{
    match add_method(table, ast[k as int]) {
        Ok(next) => {
            if k < i {
                lemma_collect_methods_reach(ast, k + 1, next, i, j);
            } else {
                let (class, method) = defined_method(ast[j as int])->0;
                lemma_class_index(table, class);
                lemma_add_method_keeps_names(table, ast[k as int], class);
                let owner = class_index(table, class)->0;
                assert(next[owner as int].methods.drop_last() =~= table[owner as int].methods);
                lemma_method_index(table[owner as int].methods, method);
                lemma_collect_methods_taken(ast, k + 1, next, j);
            }
        },
        Err(error) => {},
    }
}

/// Collecting methods from the start up to `j` and then from `j` on is
/// collecting all.
pub proof fn lemma_collect_methods_split(
    ast: Seq<StmtView>,
    i: nat,
    j: nat,
    table: Seq<ClassView>,
)
    requires
        i <= j <= ast.len(),
    ensures
        collect_methods(ast, i, table) == match collect_methods(ast.take(j as int), i, table) {
            Ok(middle) => collect_methods(ast, j, middle),
            Err(error) => Err(error),
        },
    decreases j - i,
{
    if i < j {
        assert(ast.take(j as int)[i as int] == ast[i as int]);
        match add_method(table, ast[i as int]) {
            Ok(next) => lemma_collect_methods_split(ast, i + 1, j, next),
            Err(error) => {},
        }
    }
}

/// A successful collection leaves every method of a class in its class.
pub proof fn lemma_collect_methods_keeps(
    ast: Seq<StmtView>,
    k: nat,
    table: Seq<ClassView>,
    class: Seq<char>,
    method: Seq<char>,
)
    requires
        class_index(table, class) matches Some(owner) && method_index(
            table[owner as int].methods,
            method,
        ) is Some,
        collect_methods(ast, k, table) is Ok,
    ensures
        ({
            let collected = collect_methods(ast, k, table)->Ok_0;
            class_index(collected, class) matches Some(owner) && method_index(
                collected[owner as int].methods,
                method,
            ) is Some
        }),
    decreases ast.len() - k,
{
    if k < ast.len() {
        match add_method(table, ast[k as int]) {
            Ok(next) => {
                let owner = class_index(table, class)->0;
                lemma_class_index(table, class);
                lemma_add_method_keeps_names(table, ast[k as int], class);
                match ast[k as int] {
                    StmtView::DefineMethod { class_name, method_name, block, span } => {
                        lemma_class_index(table, class_name.name);
                        let changed = class_index(table, class_name.name)->0;
                        if changed == owner {
                            assert(next[owner as int].methods.drop_last()
                                =~= table[owner as int].methods);
                        }
                    },
                    _ => {},
                }
                lemma_collect_methods_keeps(ast, k + 1, next, class, method);
            },
            Err(error) => {},
        }
    }
}

/// After a successful collection every method that the statements from `k`
/// on define is in its class.
pub proof fn lemma_collect_methods_holds(
    ast: Seq<StmtView>,
    k: nat,
    table: Seq<ClassView>,
    i: nat,
)
    requires
        k <= i < ast.len(),
        defined_method(ast[i as int]) is Some,
        collect_methods(ast, k, table) is Ok,
    ensures
        ({
            let collected = collect_methods(ast, k, table)->Ok_0;
            let (class, method) = defined_method(ast[i as int])->0;
            class_index(collected, class) matches Some(owner) && method_index(
                collected[owner as int].methods,
                method,
            ) is Some
        }),
    decreases ast.len() - k,
{
    let (class, method) = defined_method(ast[i as int])->0;
    match add_method(table, ast[k as int]) {
        Ok(next) => {
            if k < i {
                lemma_collect_methods_holds(ast, k + 1, next, i);
            } else {
                lemma_class_index(table, class);
                lemma_add_method_keeps_names(table, ast[k as int], class);
                let owner = class_index(table, class)->0;
                assert(next[owner as int].methods.drop_last() =~= table[owner as int].methods);
                lemma_method_index(table[owner as int].methods, method);
                lemma_collect_methods_keeps(ast, k + 1, next, class, method);
            }
        },
        Err(error) => {},
    }
}

/// The second definition of a method on the same class is reported as a
/// method defined twice: where the statements before it are all accepted,
/// collecting the methods fails with that error, at the second definition.
pub proof fn lemma_method_defined_twice_is_reported(
    ast: Seq<StmtView>,
    table: Seq<ClassView>,
    i: nat,
    j: nat,
)
    requires
        i < j < ast.len(),
        defined_method(ast[i as int]) is Some,
        defined_method(ast[i as int]) == defined_method(ast[j as int]),
        collect_methods(ast.take(j as int), 0, table) is Ok,
    ensures
        ({
            let (owner, name) = defined_method(ast[j as int])->0;
            collect_methods(ast, 0, table) matches Err(
                ErrorView::MethodAlreadyDefined { class, method, first_span, second_span },
            ) && method == name && second_span == stmt_span(ast[j as int])
        }),
{
    lemma_collect_methods_split(ast, 0, j, table);
    assert(ast.take(j as int)[i as int] == ast[i as int]);
    lemma_collect_methods_holds(ast.take(j as int), 0, table, i);
}

/// The `d`-th ancestor of `class`: the class itself, its superclass, the
/// superclass of that, and so on.
pub open spec fn ancestor(table: Seq<ClassView>, class: ClassView, d: nat) -> Option<ClassView>
    decreases d,
{
    if d == 0 {
        Some(class)
    } else {
        match class.super_class {
            Some(parent) => if parent < table.len() {
                ancestor(table, table[parent as int], (d - 1) as nat)
            } else {
                None
            },
            None => None,
        }
    }
}

/// How many superclass links lie between `class` and the class whose method
/// answers the message `name`.
pub open spec fn resolution_depth(
    table: Seq<ClassView>,
    class: ClassView,
    name: Seq<char>,
    fuel: nat,
) -> nat
    decreases fuel,
{
    match method_index(class.methods, name) {
        Some(index) => 0,
        None => match class.super_class {
            Some(parent) => if fuel > 0 && parent < table.len() {
                1 + resolution_depth(table, table[parent as int], name, (fuel - 1) as nat)
            } else {
                0
            },
            None => 0,
        },
    }
}

/// Method resolution finds the most derived definition first: the method
/// that answers is the one of the nearest ancestor, the class itself
/// included, that has a method of that name, and no class nearer than that
/// one has such a method.
pub proof fn lemma_most_derived_method_first(
    table: Seq<ClassView>,
    class: ClassView,
    name: Seq<char>,
    fuel: nat,
)
    requires
        resolve_method(table, class, name, fuel) is Some,
    ensures
        ({
            let depth = resolution_depth(table, class, name, fuel);
            &&& depth <= fuel
            &&& ancestor(table, class, depth) matches Some(owner) && method_index(
                owner.methods,
                name,
            ) matches Some(index) && resolve_method(table, class, name, fuel) == Some(
                owner.methods[index as int],
            )
            &&& forall|nearer: nat|
                nearer < depth ==> ((#[trigger] ancestor(table, class, nearer)) matches Some(
                    between,
                ) && method_index(between.methods, name) is None)
        }),
    decreases fuel,
{
    match method_index(class.methods, name) {
        Some(index) => {},
        None => {
            let parent = class.super_class->0;
            lemma_most_derived_method_first(table, table[parent as int], name, (fuel - 1) as nat);
            let depth = resolution_depth(table, class, name, fuel);
            assert forall|nearer: nat| nearer < depth implies ((#[trigger] ancestor(
                table,
                class,
                nearer,
            )) matches Some(between) && method_index(between.methods, name) is None) by {
                if nearer > 0 {
                    assert(ancestor(table, class, nearer) == ancestor(
                        table,
                        table[parent as int],
                        (nearer - 1) as nat,
                    ));
                }
            }
        },
    }
}

/// A class answers with its own method where it has one, whatever its
/// ancestors define.
pub proof fn lemma_own_method_wins(
    table: Seq<ClassView>,
    class: ClassView,
    name: Seq<char>,
    fuel: nat,
)
    requires
        method_index(class.methods, name) is Some,
    ensures
        resolve_method(table, class, name, fuel) == Some(
            class.methods[method_index(class.methods, name)->0 as int],
        ),
{
}

/// Linking leaves the fields and the places of the classes as they are.
pub proof fn lemma_link_keeps_fields(table: Seq<ClassView>, i: int)
    requires
        link_classes(table) is Ok,
        0 <= i < table.len(),
    ensures
        link_classes(table)->Ok_0.len() == table.len(),
        link_classes(table)->Ok_0[i].fields == table[i].fields,
        link_classes(table)->Ok_0[i].name == table[i].name,
{
}

/// Collecting methods leaves the fields and the places of the classes as
/// they are.
pub proof fn lemma_collect_methods_keeps_fields(
    ast: Seq<StmtView>,
    k: nat,
    table: Seq<ClassView>,
    i: int,
)
    requires
        collect_methods(ast, k, table) is Ok,
        0 <= i < table.len(),
    ensures
        collect_methods(ast, k, table)->Ok_0.len() == table.len(),
        collect_methods(ast, k, table)->Ok_0[i].fields == table[i].fields,
        collect_methods(ast, k, table)->Ok_0[i].name == table[i].name,
    decreases ast.len() - k,
{
    if k < ast.len() {
        match add_method(table, ast[k as int]) {
            Ok(next) => {
                match ast[k as int] {
                    StmtView::DefineMethod { class_name, method_name, block, span } => {
                        lemma_class_index(table, class_name.name);
                    },
                    _ => {},
                }
                lemma_collect_methods_keeps_fields(ast, k + 1, next, i);
            },
            Err(error) => {},
        }
    }
}

/// Collecting classes leaves the classes that were in the table as they
/// are.
pub proof fn lemma_collect_classes_keeps_fields(
    ast: Seq<StmtView>,
    k: nat,
    table: Seq<ClassView>,
    i: int,
)
    requires
        collect_classes(ast, k, table) is Ok,
        0 <= i < table.len(),
    ensures
        i < collect_classes(ast, k, table)->Ok_0.len(),
        collect_classes(ast, k, table)->Ok_0[i] == table[i],
    decreases ast.len() - k,
{
    if k < ast.len() {
        match add_class(table, ast[k as int]) {
            Ok(next) => {
                lemma_collect_classes_keeps_fields(ast, k + 1, next, i);
            },
            Err(error) => {},
        }
    }
}

/// No program gives a built-in class a field: the classes that a table
/// starts with keep their names and their fields, so a built-in class
/// without fields, such as `Object`, never supplies an instance variable.
pub proof fn lemma_built_in_fields_are_kept(
    ast: Seq<StmtView>,
    built_in: Seq<ClassView>,
    i: int,
)
    requires
        build_table(ast, built_in) is Ok,
        0 <= i < built_in.len(),
    ensures
        i < build_table(ast, built_in)->Ok_0.len(),
        build_table(ast, built_in)->Ok_0[i].name == built_in[i].name,
        build_table(ast, built_in)->Ok_0[i].fields == built_in[i].fields,
{
    let collected = collect_classes(ast, 0, built_in)->Ok_0;
    lemma_collect_classes_keeps_fields(ast, 0, built_in, i);
    lemma_link_keeps_fields(collected, i);
    let linked = link_classes(collected)->Ok_0;
    lemma_collect_methods_keeps_fields(ast, 0, linked, i);
}

} // verus!
