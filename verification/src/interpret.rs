//! The evaluator: it walks the syntax tree and computes what
//! [`crate::semantics`] says the program means.

use vstd::prelude::*;
use crate::ast::arguments_view;
use crate::ast::exprs_view;
use crate::ast::stmts_view;
use crate::ast::Argument;
use crate::ast::ClassNew;
use crate::ast::Expr;
use crate::ast::IVar;
use crate::ast::LetIVar;
use crate::ast::LetLocal;
use crate::ast::List;
use crate::ast::Local;
use crate::ast::MessageSend;
use crate::ast::MessageSendStmt;
use crate::ast::Number;
use crate::ast::Return;
use crate::ast::Self_;
use crate::ast::Stmt;
use crate::error::Error;
use crate::error::ErrorView;
use crate::prep::ClassVTable;
use crate::semantics;
use crate::semantics::EvaluatedArg;
use crate::semantics::FrameView;
use crate::semantics::InstanceView;
use crate::semantics::Outcome;
use crate::semantics::ValueView;
use crate::ast::ExprView;
use crate::text::str_eq;
use crate::Span;

verus! {

/// How many message sends may be nested before evaluation gives up.
pub const MAX_DEPTH: usize = 256;

/// A runtime value.
#[derive(Debug, PartialEq, Eq)]
pub enum Value {
    Number(i32),
    True,
    False,
    Nil,
    List(Vec<Value>),
    /// The instance whose record is at this index of the heap.  Copies of
    /// the value share the record.
    Instance(usize),
}

/// The views of `values`, one by one.
pub open spec fn values_view(values: Seq<Value>) -> Seq<ValueView>
    decreases values,
{
    Seq::new(
        values.len(),
        |i: int|
            if 0 <= i < values.len() {
                values[i].view()
            } else {
                arbitrary()
            },
    )
}

impl Value {
    pub open spec fn view(&self) -> ValueView
        decreases self,
    {
        match self {
            Value::Number(number) => ValueView::Number(*number),
            Value::True => ValueView::True,
            Value::False => ValueView::False,
            Value::Nil => ValueView::Nil,
            Value::List(values) => ValueView::List(values_view(values@)),
            Value::Instance(handle) => ValueView::Instance(*handle as nat),
        }
    }

    /// A copy of the value.  The copy of an instance names the same record.
    #[verifier::loop_isolation(false)]
    pub fn to_owned(&self) -> (copy: Self)
        ensures
            copy@ == self@,
        decreases self,
    {
        match self {
            Value::Number(number) => Value::Number(*number),
            Value::List(values) => {
                let mut copies: Vec<Value> = Vec::new();
                let mut i: usize = 0;
                while i < values.len()
                    invariant
                        i <= values@.len(),
                        copies@.len() == i,
                        forall|j: int| 0 <= j < i ==> (#[trigger] copies@[j])@ == values@[j]@,
                    decreases values@.len() - i,
                {
                    copies.push(values[i].to_owned());
                    i = i + 1;
                }
                assert(values_view(copies@) =~= values_view(values@));
                Value::List(copies)
            },
            Value::True => Value::True,
            Value::False => Value::False,
            Value::Nil => Value::Nil,
            Value::Instance(handle) => Value::Instance(*handle),
        }
    }
}

/// The view of a value that may be missing.
pub open spec fn option_view(value: Option<Value>) -> Option<ValueView> {
    match value {
        Some(value) => Some(value@),
        None => None,
    }
}

/// A name and the value it stands for.
#[derive(Debug, PartialEq, Eq)]
pub struct Binding<'a> {
    pub name: &'a str,
    pub value: Value,
}

/// A table from names to values.
#[derive(Debug, PartialEq, Eq)]
pub struct VTable<'a> {
    pub entries: Vec<Binding<'a>>,
}

/// The map that the bindings `entries` stand for: a later binding of a name
/// replaces an earlier one.
pub open spec fn bindings_view<'a>(entries: Seq<Binding<'a>>) -> Map<Seq<char>, ValueView>
    decreases entries.len(),
{
    if entries.len() == 0 {
        Map::empty()
    } else {
        bindings_view(entries.drop_last()).insert(entries.last().name@, entries.last().value@)
    }
}

/// A name that no binding has is not in the map.
pub proof fn lemma_bindings_absent<'a>(entries: Seq<Binding<'a>>, name: Seq<char>)
    requires
        forall|j: int| 0 <= j < entries.len() ==> (#[trigger] entries[j]).name@ != name,
    ensures
        !bindings_view(entries).dom().contains(name),
    decreases entries.len(),
{
    if entries.len() > 0 {
        assert forall|j: int| 0 <= j < entries.drop_last().len() implies (
        #[trigger] entries.drop_last()[j]).name@ != name by {
            assert(entries.drop_last()[j] == entries[j]);
        }
        lemma_bindings_absent(entries.drop_last(), name);
        assert(entries.last() == entries[entries.len() - 1]);
    }
}

/// The last binding of a name gives its value in the map.
pub proof fn lemma_bindings_last<'a>(entries: Seq<Binding<'a>>, i: int)
    requires
        0 <= i < entries.len(),
        forall|j: int| i < j < entries.len() ==> (#[trigger] entries[j]).name@ != entries[i].name@,
    ensures
        bindings_view(entries).dom().contains(entries[i].name@),
        bindings_view(entries)[entries[i].name@] == entries[i].value@,
    decreases entries.len(),
{
    if i < entries.len() - 1 {
        assert forall|j: int| i < j < entries.drop_last().len() implies (
        #[trigger] entries.drop_last()[j]).name@ != entries.drop_last()[i].name@ by {
            assert(entries.drop_last()[j] == entries[j]);
        }
        lemma_bindings_last(entries.drop_last(), i);
        assert(entries.last() == entries[entries.len() - 1]);
    }
}

/// Replacing the last binding of a name sets the name in the map.
pub proof fn lemma_bindings_update<'a>(entries: Seq<Binding<'a>>, i: int, binding: Binding<'a>)
    requires
        0 <= i < entries.len(),
        entries[i].name@ == binding.name@,
        forall|j: int| i < j < entries.len() ==> (#[trigger] entries[j]).name@ != binding.name@,
    ensures
        bindings_view(entries.update(i, binding)) == bindings_view(entries).insert(
            binding.name@,
            binding.value@,
        ),
    decreases entries.len(),
{
    let updated = entries.update(i, binding);
    if i == entries.len() - 1 {
        assert(updated.drop_last() =~= entries.drop_last());
        assert(bindings_view(updated) =~= bindings_view(entries).insert(
            binding.name@,
            binding.value@,
        ));
    } else {
        assert forall|j: int| i < j < entries.drop_last().len() implies (
        #[trigger] entries.drop_last()[j]).name@ != binding.name@ by {
            assert(entries.drop_last()[j] == entries[j]);
        }
        lemma_bindings_update(entries.drop_last(), i, binding);
        assert(updated.drop_last() =~= entries.drop_last().update(i, binding));
        assert(updated.last() == entries.last());
        assert(entries.last() == entries[entries.len() - 1]);
        assert(bindings_view(updated) =~= bindings_view(entries).insert(
            binding.name@,
            binding.value@,
        ));
    }
}

impl<'a> VTable<'a> {
    pub open spec fn view(&self) -> Map<Seq<char>, ValueView> {
        bindings_view(self.entries@)
    }

    /// A table without names.
    pub fn new() -> (table: Self)
        ensures
            table@ == Map::<Seq<char>, ValueView>::empty(),
    {
        VTable { entries: Vec::new() }
    }

    /// A table with room for `capacity` names.
    pub fn with_capacity(capacity: usize) -> (table: Self)
        ensures
            table@ == Map::<Seq<char>, ValueView>::empty(),
    {
        VTable { entries: Vec::with_capacity(capacity) }
    }

    /// The index of the last binding of `name`.
    pub fn position(&self, name: &str) -> (found: Option<usize>)
        ensures
            match found {
                Some(i) => i < self.entries@.len() && self.entries@[i as int].name@ == name@
                    && forall|j: int|
                    i < j < self.entries@.len() ==> (#[trigger] self.entries@[j]).name@ != name@,
                None => forall|j: int|
                    0 <= j < self.entries@.len() ==> (#[trigger] self.entries@[j]).name@ != name@,
            },
    {
        let mut i: usize = self.entries.len();
        while i > 0
            invariant
                i <= self.entries@.len(),
                forall|j: int|
                    i <= j < self.entries@.len() ==> (#[trigger] self.entries@[j]).name@ != name@,
            decreases i,
        {
            i = i - 1;
            if str_eq(self.entries[i].name, name) {
                return Some(i);
            }
        }
        None
    }

    /// The value that `name` stands for.
    pub fn get(&self, name: &str) -> (found: Option<&Value>)
        ensures
            match found {
                Some(value) => self@.dom().contains(name@) && value@ == self@[name@],
                None => !self@.dom().contains(name@),
            },
    {
        match self.position(name) {
            Some(i) => {
                proof {
                    lemma_bindings_last(self.entries@, i as int);
                }
                Some(&self.entries[i].value)
            },
            None => {
                proof {
                    lemma_bindings_absent(self.entries@, name@);
                }
                None
            },
        }
    }

    /// Lets `name` stand for `value`, whatever it stood for before.
    pub fn insert(&mut self, name: &'a str, value: Value)
        ensures
            final(self)@ == old(self)@.insert(name@, value@),
    {
        match self.position(name) {
            Some(i) => {
                let binding = Binding { name, value };
                proof {
                    lemma_bindings_update(self.entries@, i as int, binding);
                }
                self.entries.set(i, binding);
            },
            None => {
                let binding = Binding { name, value };
                assert(self.entries@.push(binding).drop_last() =~= self.entries@);
                self.entries.push(binding);
            },
        }
    }
}

/// An instance record: the index of its class in the class table, and its
/// instance variables.
#[derive(Debug, PartialEq, Eq)]
pub struct Instance<'a> {
    pub class: usize,
    pub ivars: VTable<'a>,
}

impl<'a> Instance<'a> {
    pub open spec fn view(&self) -> InstanceView {
        InstanceView { class: self.class as nat, ivars: self.ivars@ }
    }
}

/// The views of the records of `heap`, one by one.
pub open spec fn heap_view<'a>(heap: Seq<Instance<'a>>) -> Seq<InstanceView> {
    heap.map_values(|instance: Instance<'a>| instance@)
}

/// The state of one method body while it runs: the local variables, the
/// receiver, and the value to return once a `return` has run.
#[derive(Debug, PartialEq, Eq)]
pub struct Frame<'a> {
    pub locals: VTable<'a>,
    pub self_: Option<Value>,
    pub return_value: Option<Value>,
}

impl<'a> Frame<'a> {
    pub open spec fn view(&self) -> FrameView {
        FrameView {
            locals: self.locals@,
            self_: option_view(self.self_),
            return_value: option_view(self.return_value),
        }
    }

    /// The frame of the top level: no local, no receiver, nothing to return.
    pub fn new() -> (frame: Self)
        ensures
            frame@ == (FrameView { locals: Map::empty(), self_: None, return_value: None }),
    {
        Frame { locals: VTable::new(), self_: None, return_value: None }
    }
}

/// A keyword argument after its expression was evaluated.
#[derive(Debug, PartialEq, Eq)]
pub struct Evaluated<'a> {
    pub name: &'a str,
    pub value: Value,
    pub span: Span,
}

impl<'a> Evaluated<'a> {
    pub open spec fn view(&self) -> EvaluatedArg {
        EvaluatedArg { name: self.name@, value: self.value@, span: self.span }
    }
}

/// The views of `args`, one by one.
pub open spec fn evaluated_view<'a>(args: Seq<Evaluated<'a>>) -> Seq<EvaluatedArg> {
    args.map_values(|arg: Evaluated<'a>| arg@)
}

/// The texts of `names`, one by one.
pub open spec fn names_view<'a>(names: Seq<&'a str>) -> Seq<Seq<char>> {
    names.map_values(|name: &'a str| name@)
}

/// An index found in a prefix of the arguments is the index in all of them.
pub proof fn lemma_arg_position_prefix(table: Seq<EvaluatedArg>, name: Seq<char>, k: int)
    requires
        0 <= k <= table.len(),
        semantics::arg_position(table.take(k), name) is Some,
    ensures
        semantics::arg_position(table, name) == semantics::arg_position(table.take(k), name),
    decreases table.len() - k,
{
    if k == table.len() {
        assert(table.take(k) =~= table);
    } else {
        assert(table.take(k + 1).drop_last() =~= table.take(k));
        lemma_arg_position_prefix(table, name, k + 1);
    }
}

/// The index of the first of `table` labelled `name`.
pub fn arg_index<'a>(table: &Vec<Evaluated<'a>>, name: &str) -> (found: Option<usize>)
    ensures
        match semantics::arg_position(evaluated_view(table@), name@) {
            Some(index) => found matches Some(i) && i == index && i < table@.len(),
            None => found is None,
        },
{
    let ghost views = evaluated_view(table@);
    let mut i: usize = 0;
    while i < table.len()
        invariant
            i <= table@.len(),
            views == evaluated_view(table@),
            semantics::arg_position(views.take(i as int), name@) is None,
        decreases table@.len() - i,
    {
        assert(views.take(i + 1).drop_last() =~= views.take(i as int));
        if str_eq(table[i].name, name) {
            proof {
                lemma_arg_position_prefix(views, name@, i + 1);
            }
            return Some(i);
        }
        i = i + 1;
    }
    assert(views.take(i as int) =~= views);
    None
}

/// Records `arg` in `table` under its label: in the place of an argument
/// with that label where there is one, else at the end.
pub fn upsert<'a>(table: &mut Vec<Evaluated<'a>>, arg: Evaluated<'a>)
    ensures
        evaluated_view(final(table)@) == semantics::upsert_arg(evaluated_view(old(table)@), arg@),
{
    match arg_index(table, arg.name) {
        Some(i) => {
            table.set(i, arg);
            assert(evaluated_view(table@) =~= semantics::upsert_arg(
                evaluated_view(old(table)@),
                arg@,
            ));
        },
        None => {
            table.push(arg);
            assert(evaluated_view(table@) =~= semantics::upsert_arg(
                evaluated_view(old(table)@),
                arg@,
            ));
        },
    }
}

/// Binds the names `parameters`, in order, to the arguments of `table`,
/// which holds one argument for each label.  Each name takes its argument
/// out of the table; the first name without one is a missing argument at
/// `call_site`.  An argument that is left when all names are bound is an
/// unexpected argument at its own span.
pub fn bind_arguments<'a>(
    parameters: &Vec<&'a str>,
    table: Vec<Evaluated<'a>>,
    call_site: Span,
) -> (result: Result<VTable<'a>, Error<'a>>)
    ensures
        match semantics::bind_required(
            names_view(parameters@),
            0,
            evaluated_view(table@),
            Map::empty(),
            call_site,
        ) {
            Ok(bound) => result matches Ok(vtable) && vtable@ == bound,
            Err(error) => result matches Err(e) && e@ == error,
        },
{
    let mut rest = table;
    let mut bound = VTable::with_capacity(parameters.len());
    let ghost required = names_view(parameters@);
    let ghost initial = evaluated_view(table@);
    let mut k: usize = 0;
    while k < parameters.len()
        invariant
            k <= parameters@.len(),
            required == names_view(parameters@),
            initial == evaluated_view(table@),
            semantics::bind_required(required, 0, initial, Map::empty(), call_site)
                == semantics::bind_required(
                required,
                k as nat,
                evaluated_view(rest@),
                bound@,
                call_site,
            ),
        decreases parameters@.len() - k,
    {
        let name: &'a str = parameters[k];
        match arg_index(&rest, name) {
            None => {
                return Err(Error::MissingArgument { name, span: call_site });
            },
            Some(index) => {
                let ghost before = evaluated_view(rest@);
                let arg = rest.remove(index);
                assert(evaluated_view(rest@) =~= before.remove(index as int));
                bound.insert(name, arg.value);
            },
        }
        k = k + 1;
    }
    if rest.len() > 0 {
        Err(Error::UnexpectedArgument { name: rest[0].name, span: rest[0].span })
    } else {
        Ok(bound)
    }
}

/// The end of a run as the evaluator shows it: the frame and the heap that
/// it has reached, and the failure that `result` reports.
pub open spec fn effect_of<'a>(
    result: Result<(), Error<'a>>,
    frame: FrameView,
    heap: Seq<InstanceView>,
) -> semantics::Effect {
    semantics::Effect {
        frame,
        heap,
        error: match result {
            Ok(_) => None,
            Err(error) => Some(error@),
        },
    }
}

/// The evaluator's state: the class table, the heap of instance records,
/// the frame of the body that is running, and how many message sends may
/// still be nested.
#[derive(Debug)]
pub struct Interpreter<'a> {
    pub classes: ClassVTable<'a>,
    pub heap: Vec<Instance<'a>>,
    pub frame: Frame<'a>,
    pub depth: usize,
}

/// The names of `parameters`, in order.
pub fn parameter_names<'a>(parameters: &'a Vec<crate::ast::Parameter<'a>>) -> (names: Vec<&'a str>)
    ensures
        names_view(names@) == crate::prep::parameter_names(
            crate::ast::parameters_view(parameters@),
        ),
{
    let mut names: Vec<&'a str> = Vec::new();
    let mut i: usize = 0;
    while i < parameters.len()
        invariant
            i <= parameters@.len(),
            names@.len() == i,
            forall|j: int| 0 <= j < i ==> (#[trigger] names@[j])@ == parameters@[j].ident.name@,
        decreases parameters@.len() - i,
    {
        names.push(parameters[i].ident.name);
        i = i + 1;
    }
    assert(names_view(names@) =~= crate::prep::parameter_names(
        crate::ast::parameters_view(parameters@),
    ));
    names
}

/// The names of `fields`, in order.
pub fn field_names<'a>(fields: &Vec<crate::prep::Field<'a>>) -> (names: Vec<&'a str>)
    ensures
        names_view(names@) == crate::prep::fields_view(fields@),
{
    let mut names: Vec<&'a str> = Vec::new();
    let mut i: usize = 0;
    while i < fields.len()
        invariant
            i <= fields@.len(),
            names@.len() == i,
            forall|j: int| 0 <= j < i ==> (#[trigger] names@[j])@ == fields@[j].name.name@,
        decreases fields@.len() - i,
    {
        names.push(fields[i].name.name);
        i = i + 1;
    }
    assert(names_view(names@) =~= crate::prep::fields_view(fields@));
    names
}

impl<'a> Interpreter<'a> {
    /// The heap as plain values.
    pub open spec fn heap_view(&self) -> Seq<InstanceView> {
        heap_view(self.heap@)
    }

    /// `after` runs the same program at the same depth.
    pub open spec fn same_program(&self, after: &Self) -> bool {
        after.classes == self.classes && after.depth == self.depth
    }

    /// An evaluator at the top level of a program with the classes
    /// `classes`: no instance, no local, no receiver.
    pub fn new(classes: ClassVTable<'a>) -> (interpreter: Self)
        ensures
            interpreter.classes == classes,
            interpreter.heap@.len() == 0,
            interpreter.frame@ == (FrameView {
                locals: Map::empty(),
                self_: None,
                return_value: None,
            }),
            interpreter.depth == MAX_DEPTH,
    {
        Self { classes, heap: Vec::new(), frame: Frame::new(), depth: MAX_DEPTH }
    }

    /// The frame in which a method body starts: its receiver is `new_self`
    /// and its locals are `locals`.
    pub fn copy_for_method_call(&self, new_self: Value, locals: VTable<'a>) -> (frame: Frame<'a>)
        ensures
            frame@ == (FrameView { locals: locals@, self_: Some(new_self@), return_value: None }),
    {
        Frame { locals, self_: Some(new_self), return_value: None }
    }

    /// The index of the class named `name`.
    pub fn lookup_class(&self, name: &'a str, call_site: Span) -> (result: Result<usize, Error<'a>>)
        ensures
            match crate::prep::class_index(self.classes@, name@) {
                Some(index) => result matches Ok(i) && i == index && i < self.classes.table@.len(),
                None => result matches Err(e) && e@ == (ErrorView::ClassNotDefined {
                    class: name@,
                    span: call_site,
                }),
            },
    {
        match self.classes.index_of(name) {
            Some(index) => Ok(index),
            None => Err(Error::ClassNotDefined { class: name, span: call_site }),
        }
    }

    /// Evaluates `expr` in the current frame.
    pub fn eval(&mut self, expr: &'a Expr<'a>) -> (result: Result<Value, Error<'a>>)
        ensures
            old(self).same_program(final(self)),
            final(self).frame == old(self).frame,
            match semantics::eval_expr(
                old(self).classes@,
                old(self).depth as nat,
                expr@,
                old(self).frame@,
                old(self).heap_view(),
            ) {
                Outcome::Done { value, heap } => result matches Ok(v) && v@ == value
                    && final(self).heap_view() == heap,
                Outcome::Failed { error, heap } => result matches Err(e) && e@ == error
                    && final(self).heap_view() == heap,
            },
    {
        expr.eval(self)
    }

    /// Runs `let name = body;`: the value of `body` becomes the local `name`.
    pub fn visit_let_local(&mut self, node: &'a LetLocal<'a>) -> (result: Result<(), Error<'a>>)
        ensures
            old(self).same_program(final(self)),
            semantics::exec_stmt(
                old(self).classes@,
                old(self).depth as nat,
                node@,
                old(self).frame@,
                old(self).heap_view(),
            ) == effect_of(result, final(self).frame@, final(self).heap_view()),
        decreases old(self).depth, node,
    {
        let name = node.ident.name;
        let value = match node.body.eval(self) {
            Ok(value) => value,
            Err(e) => {
                return Err(e);
            },
        };
        self.frame.locals.insert(name, value);
        Ok(())
    }

    /// Runs `let @name = body;`: the value of `body` becomes the instance
    /// variable `name` of the receiver.
    pub fn visit_let_ivar(&mut self, node: &'a LetIVar<'a>) -> (result: Result<(), Error<'a>>)
        ensures
            old(self).same_program(final(self)),
            semantics::exec_stmt(
                old(self).classes@,
                old(self).depth as nat,
                node@,
                old(self).frame@,
                old(self).heap_view(),
            ) == effect_of(result, final(self).frame@, final(self).heap_view()),
        decreases old(self).depth, node,
    {
        let handle = match &self.frame.self_ {
            None => {
                return Err(Error::IVarAccessedWithoutSelf(node.span));
            },
            Some(Value::Instance(handle)) => *handle,
            Some(_) => {
                return Err(Error::IVarAccessedOnNonInstanceValue(node.span));
            },
        };
        let value = match node.body.eval(self) {
            Ok(value) => value,
            Err(e) => {
                return Err(e);
            },
        };
        if handle < self.heap.len() {
            let ghost before = self.heap_view();
            let ghost stored = value@;
            let instance = &mut self.heap[handle];
            instance.ivars.insert(node.ident.name, value);
            assert(self.heap_view() =~= before.update(
                handle as int,
                InstanceView {
                    ivars: before[handle as int].ivars.insert(node.ident.name@, stored),
                    ..before[handle as int]
                },
            ));
            Ok(())
        } else {
            Err(Error::IVarAccessedOnNonInstanceValue(node.span))
        }
    }

    /// Runs a message send whose value is not used.
    pub fn visit_message_send_stmt(&mut self, node: &'a MessageSendStmt<'a>) -> (result: Result<
        (),
        Error<'a>,
    >)
        ensures
            old(self).same_program(final(self)),
            semantics::exec_stmt(
                old(self).classes@,
                old(self).depth as nat,
                node@,
                old(self).frame@,
                old(self).heap_view(),
            ) == effect_of(result, final(self).frame@, final(self).heap_view()),
        decreases old(self).depth, node,
    {
        match node.expr.eval(self) {
            Ok(_) => Ok(()),
            Err(e) => Err(e),
        }
    }

    /// Runs `return expr;`: the value of `expr` becomes the value to return.
    pub fn visit_return(&mut self, node: &'a Return<'a>) -> (result: Result<(), Error<'a>>)
        ensures
            old(self).same_program(final(self)),
            semantics::exec_stmt(
                old(self).classes@,
                old(self).depth as nat,
                node@,
                old(self).frame@,
                old(self).heap_view(),
            ) == effect_of(result, final(self).frame@, final(self).heap_view()),
        decreases old(self).depth, node,
    {
        let value = match node.expr.eval(self) {
            Ok(value) => value,
            Err(e) => {
                return Err(e);
            },
        };
        self.frame.return_value = Some(value);
        Ok(())
    }

    /// Runs one statement.  The statements that define classes and methods
    /// do nothing here: the class table holds what they say.
    pub fn visit_stmt(&mut self, node: &'a Stmt<'a>) -> (result: Result<(), Error<'a>>)
        ensures
            old(self).same_program(final(self)),
            semantics::exec_stmt(
                old(self).classes@,
                old(self).depth as nat,
                node@,
                old(self).frame@,
                old(self).heap_view(),
            ) == effect_of(result, final(self).frame@, final(self).heap_view()),
        decreases old(self).depth, node,
    {
        match node {
            Stmt::LetLocal(inner) => self.visit_let_local(inner),
            Stmt::LetIVar(inner) => self.visit_let_ivar(inner),
            Stmt::MessageSend(inner) => self.visit_message_send_stmt(inner),
            Stmt::Return(inner) => self.visit_return(inner),
            Stmt::DefineMethod(_) => Ok(()),
            Stmt::DefineClass(_) => Ok(()),
        }
    }
}

/// Runs the statements `node` one after the other in the current frame.
/// Once the frame holds a value to return, no further statement runs.
#[verifier::loop_isolation(false)]
pub fn visit_ast<'a>(v: &mut Interpreter<'a>, node: &'a Vec<Stmt<'a>>) -> (result: Result<
    (),
    Error<'a>,
>)
    ensures
        old(v).same_program(final(v)),
        semantics::exec_stmts(
            old(v).classes@,
            old(v).depth as nat,
            stmts_view(node@),
            0,
            old(v).frame@,
            old(v).heap_view(),
        ) == effect_of(result, final(v).frame@, final(v).heap_view()),
    decreases old(v).depth, node,
{
    let ghost stmts = stmts_view(node@);
    let mut i: usize = 0;
    while i < node.len()
        invariant
            i <= node@.len(),
            old(v).same_program(v),
            semantics::exec_stmts(
                old(v).classes@,
                old(v).depth as nat,
                stmts,
                0,
                old(v).frame@,
                old(v).heap_view(),
            ) == semantics::exec_stmts(
                v.classes@,
                v.depth as nat,
                stmts,
                i as nat,
                v.frame@,
                v.heap_view(),
            ),
        decreases node@.len() - i,
    {
        if v.frame.return_value.is_some() {
            return Ok(());
        }
        match v.visit_stmt(&node[i]) {
            Ok(()) => {},
            Err(e) => {
                return Err(e);
            },
        }
        i = i + 1;
    }
    Ok(())
}

/// Runs the program `ast`.
pub fn interpret<'a>(interpreter: &mut Interpreter<'a>, ast: &'a Vec<Stmt<'a>>) -> (result: Result<
    (),
    Error<'a>,
>)
    ensures
        old(interpreter).same_program(final(interpreter)),
        semantics::exec_stmts(
            old(interpreter).classes@,
            old(interpreter).depth as nat,
            stmts_view(ast@),
            0,
            old(interpreter).frame@,
            old(interpreter).heap_view(),
        ) == effect_of(result, final(interpreter).frame@, final(interpreter).heap_view()),
{
    visit_ast(interpreter, ast)
}

/// Evaluates the arguments `args` from left to right and binds the names
/// `parameters` to them.
#[verifier::loop_isolation(false)]
pub fn eval_arguments<'a>(
    interpreter: &mut Interpreter<'a>,
    parameters: Vec<&'a str>,
    call_site: Span,
    args: &'a Vec<Argument<'a>>,
) -> (result: Result<VTable<'a>, Error<'a>>)
    ensures
        old(interpreter).same_program(final(interpreter)),
        final(interpreter).frame == old(interpreter).frame,
        match semantics::eval_args(
            old(interpreter).classes@,
            old(interpreter).depth as nat,
            arguments_view(args@),
            0,
            Seq::empty(),
            old(interpreter).frame@,
            old(interpreter).heap_view(),
        ) {
            Outcome::Failed { error, heap } => result matches Err(e) && e@ == error
                && final(interpreter).heap_view() == heap,
            Outcome::Done { value: provided, heap } => final(interpreter).heap_view() == heap
                && match semantics::bind_arguments(names_view(parameters@), provided, call_site) {
                Ok(bound) => result matches Ok(vtable) && vtable@ == bound,
                Err(error) => result matches Err(e) && e@ == error,
            },
        },
    decreases old(interpreter).depth, args,
{
    let mut table: Vec<Evaluated<'a>> = Vec::with_capacity(args.len());
    let ghost views = arguments_view(args@);
    let ghost mut provided: Seq<EvaluatedArg> = Seq::empty();
    let mut i: usize = 0;
    assert(evaluated_view(table@) =~= semantics::index_arguments(provided));
    while i < args.len()
        invariant
            i <= args@.len(),
            old(interpreter).same_program(interpreter),
            interpreter.frame == old(interpreter).frame,
            evaluated_view(table@) == semantics::index_arguments(provided),
            semantics::eval_args(
                old(interpreter).classes@,
                old(interpreter).depth as nat,
                views,
                0,
                Seq::empty(),
                old(interpreter).frame@,
                old(interpreter).heap_view(),
            ) == semantics::eval_args(
                interpreter.classes@,
                interpreter.depth as nat,
                views,
                i as nat,
                provided,
                interpreter.frame@,
                interpreter.heap_view(),
            ),
        decreases args@.len() - i,
    {
        let arg = &args[i];
        let value = match arg.expr.eval(interpreter) {
            Ok(value) => value,
            Err(e) => {
                return Err(e);
            },
        };
        let evaluated = Evaluated { name: arg.ident.name, value, span: arg.span };
        proof {
            assert(provided.push(evaluated@).drop_last() =~= provided);
            provided = provided.push(evaluated@);
        }
        upsert(&mut table, evaluated);
        i = i + 1;
    }
    bind_arguments(&parameters, table, call_site)
}

impl<'a> Local<'a> {
    /// The value of the local variable.
    pub fn eval(&'a self, interpreter: &Interpreter<'a>) -> (result: Result<Value, Error<'a>>)
        ensures
            match semantics::eval_expr(
                interpreter.classes@,
                interpreter.depth as nat,
                self@,
                interpreter.frame@,
                interpreter.heap_view(),
            ) {
                Outcome::Done { value, heap } => result matches Ok(v) && v@ == value
                    && interpreter.heap_view() == heap,
                Outcome::Failed { error, heap } => result matches Err(e) && e@ == error
                    && interpreter.heap_view() == heap,
            },
    {
        let name = self.0.name;
        match interpreter.frame.locals.get(name) {
            Some(value) => Ok(value.to_owned()),
            None => Err(Error::UndefinedLocal { name, span: self.0.span }),
        }
    }
}

impl Number {
    /// The number.
    pub fn eval<'a>(&self, interpreter: &Interpreter<'a>) -> (result: Result<Value, Error<'a>>)
        ensures
            match semantics::eval_expr(
                interpreter.classes@,
                interpreter.depth as nat,
                self@,
                interpreter.frame@,
                interpreter.heap_view(),
            ) {
                Outcome::Done { value, heap } => result matches Ok(v) && v@ == value
                    && interpreter.heap_view() == heap,
                Outcome::Failed { error, heap } => result matches Err(e) && e@ == error
                    && interpreter.heap_view() == heap,
            },
    {
        Ok(Value::Number(self.number))
    }
}

impl crate::ast::True {
    /// The value true.
    pub fn eval<'a>(&self, interpreter: &Interpreter<'a>) -> (result: Result<Value, Error<'a>>)
        ensures
            match semantics::eval_expr(
                interpreter.classes@,
                interpreter.depth as nat,
                self@,
                interpreter.frame@,
                interpreter.heap_view(),
            ) {
                Outcome::Done { value, heap } => result matches Ok(v) && v@ == value
                    && interpreter.heap_view() == heap,
                Outcome::Failed { error, heap } => result matches Err(e) && e@ == error
                    && interpreter.heap_view() == heap,
            },
    {
        Ok(Value::True)
    }
}

impl crate::ast::False {
    /// The value false.
    pub fn eval<'a>(&self, interpreter: &Interpreter<'a>) -> (result: Result<Value, Error<'a>>)
        ensures
            match semantics::eval_expr(
                interpreter.classes@,
                interpreter.depth as nat,
                self@,
                interpreter.frame@,
                interpreter.heap_view(),
            ) {
                Outcome::Done { value, heap } => result matches Ok(v) && v@ == value
                    && interpreter.heap_view() == heap,
                Outcome::Failed { error, heap } => result matches Err(e) && e@ == error
                    && interpreter.heap_view() == heap,
            },
    {
        Ok(Value::False)
    }
}

impl Self_ {
    /// The receiver of the method that is running.
    pub fn eval<'a>(&self, interpreter: &Interpreter<'a>) -> (result: Result<Value, Error<'a>>)
        ensures
            match semantics::eval_expr(
                interpreter.classes@,
                interpreter.depth as nat,
                self@,
                interpreter.frame@,
                interpreter.heap_view(),
            ) {
                Outcome::Done { value, heap } => result matches Ok(v) && v@ == value
                    && interpreter.heap_view() == heap,
                Outcome::Failed { error, heap } => result matches Err(e) && e@ == error
                    && interpreter.heap_view() == heap,
            },
    {
        match &interpreter.frame.self_ {
            Some(value) => Ok(value.to_owned()),
            None => Err(Error::NoSelf(self.0)),
        }
    }
}

impl<'a> IVar<'a> {
    /// The value of the instance variable of the receiver.
    pub fn eval(&'a self, interpreter: &Interpreter<'a>) -> (result: Result<Value, Error<'a>>)
        ensures
            match semantics::eval_expr(
                interpreter.classes@,
                interpreter.depth as nat,
                self@,
                interpreter.frame@,
                interpreter.heap_view(),
            ) {
                Outcome::Done { value, heap } => result matches Ok(v) && v@ == value
                    && interpreter.heap_view() == heap,
                Outcome::Failed { error, heap } => result matches Err(e) && e@ == error
                    && interpreter.heap_view() == heap,
            },
    {
        let name = self.ident.name;
        let span = self.span;
        let handle = match &interpreter.frame.self_ {
            Some(Value::Instance(handle)) => *handle,
            Some(_) => {
                return Err(Error::IVarAccessedOnNonInstanceValue(span));
            },
            None => {
                return Err(Error::IVarAccessedWithoutSelf(span));
            },
        };
        if handle < interpreter.heap.len() {
            match interpreter.heap[handle].ivars.get(name) {
                Some(value) => Ok(value.to_owned()),
                None => Err(Error::UndefinedIVar { name, span }),
            }
        } else {
            Err(Error::IVarAccessedOnNonInstanceValue(span))
        }
    }
}

impl<'a> List<'a> {
    /// The list of the values of the items, evaluated from left to right.
    #[verifier::loop_isolation(false)]
    pub fn eval(&'a self, interpreter: &mut Interpreter<'a>) -> (result: Result<Value, Error<'a>>)
        ensures
            old(interpreter).same_program(final(interpreter)),
            final(interpreter).frame == old(interpreter).frame,
            match semantics::eval_expr(
                old(interpreter).classes@,
                old(interpreter).depth as nat,
                self.view(),
                old(interpreter).frame@,
                old(interpreter).heap_view(),
            ) {
                Outcome::Done { value, heap } => result matches Ok(v) && v@ == value
                    && final(interpreter).heap_view() == heap,
                Outcome::Failed { error, heap } => result matches Err(e) && e@ == error
                    && final(interpreter).heap_view() == heap,
            },
        decreases old(interpreter).depth, self,
    {
        let items = &self.items;
        let ghost views = exprs_view(items@);
        let mut values: Vec<Value> = Vec::with_capacity(items.len());
        let mut i: usize = 0;
        assert(values_view(values@) =~= Seq::empty());
        while i < items.len()
            invariant
                i <= items@.len(),
                old(interpreter).same_program(interpreter),
                interpreter.frame == old(interpreter).frame,
                semantics::eval_exprs(
                    old(interpreter).classes@,
                    old(interpreter).depth as nat,
                    views,
                    0,
                    Seq::empty(),
                    old(interpreter).frame@,
                    old(interpreter).heap_view(),
                ) == semantics::eval_exprs(
                    interpreter.classes@,
                    interpreter.depth as nat,
                    views,
                    i as nat,
                    values_view(values@),
                    interpreter.frame@,
                    interpreter.heap_view(),
                ),
            decreases items@.len() - i,
        {
            let value = match items[i].eval(interpreter) {
                Ok(value) => value,
                Err(e) => {
                    return Err(e);
                },
            };
            assert(values_view(values@.push(value)) =~= values_view(values@).push(value@));
            values.push(value);
            i = i + 1;
        }
        Ok(Value::List(values))
    }
}

impl<'a> ClassNew<'a> {
    /// A new instance of the class, whose instance variables are the
    /// class's own fields bound to the arguments.
    pub fn eval(&'a self, interpreter: &mut Interpreter<'a>) -> (result: Result<Value, Error<'a>>)
        ensures
            old(interpreter).same_program(final(interpreter)),
            final(interpreter).frame == old(interpreter).frame,
            match semantics::eval_expr(
                old(interpreter).classes@,
                old(interpreter).depth as nat,
                ExprView::ClassNew(self.view()),
                old(interpreter).frame@,
                old(interpreter).heap_view(),
            ) {
                Outcome::Done { value, heap } => result matches Ok(v) && v@ == value
                    && final(interpreter).heap_view() == heap,
                Outcome::Failed { error, heap } => result matches Err(e) && e@ == error
                    && final(interpreter).heap_view() == heap,
            },
        decreases old(interpreter).depth, self,
    {
        let class_name = self.class_name.0.name;
        let call_site = self.class_name.0.span;
        let class = match interpreter.lookup_class(class_name, call_site) {
            Ok(class) => class,
            Err(e) => {
                return Err(e);
            },
        };
        let parameters = field_names(&interpreter.classes.table[class].fields);
        let ivars = match eval_arguments(interpreter, parameters, call_site, &self.args) {
            Ok(ivars) => ivars,
            Err(e) => {
                return Err(e);
            },
        };
        let handle = interpreter.heap.len();
        let instance = Instance { class, ivars };
        assert(heap_view(interpreter.heap@.push(instance)) =~= interpreter.heap_view().push(
            instance@,
        ));
        interpreter.heap.push(instance);
        Ok(Value::Instance(handle))
    }
}

impl<'a> MessageSend<'a> {
    /// The value that the receiver's method returns, or nil where it
    /// returns none.
    pub fn eval(&'a self, interpreter: &mut Interpreter<'a>) -> (result: Result<Value, Error<'a>>)
        ensures
            old(interpreter).same_program(final(interpreter)),
            final(interpreter).frame == old(interpreter).frame,
            match semantics::eval_send(
                old(interpreter).classes@,
                old(interpreter).depth as nat,
                self.view(),
                old(interpreter).frame@,
                old(interpreter).heap_view(),
            ) {
                Outcome::Done { value, heap } => result matches Ok(v) && v@ == value
                    && final(interpreter).heap_view() == heap,
                Outcome::Failed { error, heap } => result matches Err(e) && e@ == error
                    && final(interpreter).heap_view() == heap,
            },
        decreases old(interpreter).depth, self,
    {
        let receiver = match self.receiver.eval(interpreter) {
            Ok(receiver) => receiver,
            Err(e) => {
                return Err(e);
            },
        };
        let handle = match receiver {
            Value::Instance(handle) => handle,
            _ => {
                return Err(Error::MessageSentToNonInstance(self.span));
            },
        };
        if handle >= interpreter.heap.len() {
            return Err(Error::MessageSentToNonInstance(self.span));
        }
        let class = interpreter.heap[handle].class;
        if class >= interpreter.classes.table.len() {
            return Err(Error::MessageSentToNonInstance(self.span));
        }
        let method = match interpreter.classes.table[class].get_method_named(
            &interpreter.classes,
            self.msg.name,
            self.span,
        ) {
            Ok(method) => method,
            Err(e) => {
                return Err(e);
            },
        };
        let body: &'a Vec<Stmt<'a>> = method.body;
        let parameters = parameter_names(method.parameters);
        let new_locals = match eval_arguments(interpreter, parameters, self.span, &self.args) {
            Ok(locals) => locals,
            Err(e) => {
                return Err(e);
            },
        };
        if interpreter.depth == 0 {
            return Err(Error::CallDepthExceeded(self.span));
        }
        let mut callee = interpreter.copy_for_method_call(Value::Instance(handle), new_locals);
        std::mem::swap(&mut interpreter.frame, &mut callee);
        interpreter.depth = interpreter.depth - 1;
        let outcome = visit_ast(interpreter, body);
        interpreter.depth = interpreter.depth + 1;
        std::mem::swap(&mut interpreter.frame, &mut callee);
        match outcome {
            Ok(()) => Ok(
                match callee.return_value {
                    Some(value) => value,
                    None => Value::Nil,
                },
            ),
            Err(e) => Err(e),
        }
    }
}

impl<'a> Expr<'a> {
    /// The value of the expression.
    pub fn eval(&'a self, interpreter: &mut Interpreter<'a>) -> (result: Result<Value, Error<'a>>)
        ensures
            old(interpreter).same_program(final(interpreter)),
            final(interpreter).frame == old(interpreter).frame,
            match semantics::eval_expr(
                old(interpreter).classes@,
                old(interpreter).depth as nat,
                self@,
                old(interpreter).frame@,
                old(interpreter).heap_view(),
            ) {
                Outcome::Done { value, heap } => result matches Ok(v) && v@ == value
                    && final(interpreter).heap_view() == heap,
                Outcome::Failed { error, heap } => result matches Err(e) && e@ == error
                    && final(interpreter).heap_view() == heap,
            },
        decreases old(interpreter).depth, self,
    {
        match self {
            Expr::Local(inner) => inner.eval(interpreter),
            Expr::Number(inner) => inner.eval(interpreter),
            Expr::List(inner) => inner.eval(interpreter),
            Expr::True(inner) => inner.eval(interpreter),
            Expr::False(inner) => inner.eval(interpreter),
            Expr::ClassNew(inner) => inner.eval(interpreter),
            Expr::Self_(inner) => inner.eval(interpreter),
            Expr::MessageSend(inner) => inner.eval(interpreter),
            Expr::IVar(inner) => inner.eval(interpreter),
            Expr::Selector(inner) => Err(Error::NotImplemented(inner.span)),
            Expr::ClassNameSelector(inner) => Err(Error::NotImplemented(inner.span)),
            Expr::Block(inner) => Err(Error::NotImplemented(inner.span)),
        }
    }
}

} // verus!
