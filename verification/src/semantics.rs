//! What a program means: the value of every expression and the effect of
//! every statement, as functions on plain values.
//!
//! Instances live in a heap, a sequence of instance records; a value that is
//! an instance holds the index of its record, so every copy of the value
//! reads and writes the same record.  Evaluating an expression gives a value
//! and the heap afterwards; running a statement gives the frame and the heap
//! afterwards.  `depth` is how many message sends may still be nested.

use vstd::prelude::*;
use crate::ast::ArgumentView;
use crate::ast::ExprView;
use crate::ast::MessageSendView;
use crate::ast::StmtView;
use crate::error::ErrorView;
use crate::prep::class_index;
use crate::prep::resolve_method;
use crate::prep::ClassView;
use crate::Span;

verus! {

/// A runtime value.
pub enum ValueView {
    Number(i32),
    True,
    False,
    Nil,
    List(Seq<ValueView>),
    /// The instance whose record is at this index of the heap.
    Instance(nat),
}

/// An instance record: the index of its class in the class table, and its
/// instance variables.
pub struct InstanceView {
    pub class: nat,
    pub ivars: Map<Seq<char>, ValueView>,
}

/// The state of one method body while it runs: the local variables, the
/// receiver, and the value to return once a `return` has run.
pub struct FrameView {
    pub locals: Map<Seq<char>, ValueView>,
    pub self_: Option<ValueView>,
    pub return_value: Option<ValueView>,
}

/// A keyword argument after its expression was evaluated.
pub struct EvaluatedArg {
    pub name: Seq<char>,
    pub value: ValueView,
    pub span: Span,
}

/// How evaluating something ends: with a value, or with a failure.  Either
/// way the heap is the one that evaluation has reached.
pub enum Outcome<T> {
    Done { value: T, heap: Seq<InstanceView> },
    Failed { error: ErrorView, heap: Seq<InstanceView> },
}

/// How running statements ends: the frame and the heap that were reached,
/// and the failure that stopped the run, if one did.
pub struct Effect {
    pub frame: FrameView,
    pub heap: Seq<InstanceView>,
    pub error: Option<ErrorView>,
}

impl Effect {
    /// The run went through.
    pub open spec fn done(frame: FrameView, heap: Seq<InstanceView>) -> Effect {
        Effect { frame, heap, error: None }
    }

    /// The run stopped with `error`.
    pub open spec fn failed(error: ErrorView, frame: FrameView, heap: Seq<InstanceView>) -> Effect {
        Effect { frame, heap, error: Some(error) }
    }
}

/// The index of the first of `table` labelled `name`.
pub open spec fn arg_position(table: Seq<EvaluatedArg>, name: Seq<char>) -> Option<nat>
    decreases table.len(),
{
    if table.len() == 0 {
        None
    } else {
        match arg_position(table.drop_last(), name) {
            Some(index) => Some(index),
            None => if table.last().name == name {
                Some((table.len() - 1) as nat)
            } else {
                None
            },
        }
    }
}

/// `table` with `arg` recorded under its label: in the place of an argument
/// with that label where there is one, else at the end.
pub open spec fn upsert_arg(table: Seq<EvaluatedArg>, arg: EvaluatedArg) -> Seq<EvaluatedArg> {
    match arg_position(table, arg.name) {
        Some(index) => table.update(index as int, arg),
        None => table.push(arg),
    }
}

/// The arguments `provided` indexed by label: one entry for each label, in
/// the order in which the labels first occur, holding the last argument with
/// that label.
pub open spec fn index_arguments(provided: Seq<EvaluatedArg>) -> Seq<EvaluatedArg>
    decreases provided.len(),
{
    if provided.len() == 0 {
        Seq::empty()
    } else {
        upsert_arg(index_arguments(provided.drop_last()), provided.last())
    }
}

/// Binds the names `required`, from the `k`-th on, to the arguments left in
/// `table`.  Each name takes its argument out of the table; the first name
/// without one fails.  Once all names are bound, the first argument still
/// left fails.
pub open spec fn bind_required(
    required: Seq<Seq<char>>,
    k: nat,
    table: Seq<EvaluatedArg>,
    bound: Map<Seq<char>, ValueView>,
    call_site: Span,
) -> Result<Map<Seq<char>, ValueView>, ErrorView>
    decreases required.len() - k,
{
    if k >= required.len() {
        if table.len() == 0 {
            Ok(bound)
        } else {
            Err(ErrorView::UnexpectedArgument { name: table[0].name, span: table[0].span })
        }
    } else {
        match arg_position(table, required[k as int]) {
            None => Err(ErrorView::MissingArgument { name: required[k as int], span: call_site }),
            Some(index) => bind_required(
                required,
                k + 1,
                table.remove(index as int),
                bound.insert(required[k as int], table[index as int].value),
                call_site,
            ),
        }
    }
}

/// Binds the names `required`, in order, to the arguments `provided`, which
/// are matched by label.
pub open spec fn bind_arguments(
    required: Seq<Seq<char>>,
    provided: Seq<EvaluatedArg>,
    call_site: Span,
) -> Result<Map<Seq<char>, ValueView>, ErrorView> {
    bind_required(required, 0, index_arguments(provided), Map::empty(), call_site)
}

/// The value of the expression `e`.
pub open spec fn eval_expr(
    classes: Seq<ClassView>,
    depth: nat,
    e: ExprView,
    frame: FrameView,
    heap: Seq<InstanceView>,
) -> Outcome<ValueView>
    decreases depth, e, 0nat,
{
    match e {
        ExprView::Local(ident) => if frame.locals.dom().contains(ident.name) {
            Outcome::Done { value: frame.locals[ident.name], heap }
        } else {
            Outcome::Failed {
                error: ErrorView::UndefinedLocal { name: ident.name, span: ident.span },
                heap,
            }
        },
        ExprView::IVar { ident, span } => match frame.self_ {
            None => Outcome::Failed { error: ErrorView::IVarAccessedWithoutSelf(span), heap },
            Some(ValueView::Instance(handle)) => if handle < heap.len() {
                if heap[handle as int].ivars.dom().contains(ident.name) {
                    Outcome::Done { value: heap[handle as int].ivars[ident.name], heap }
                } else {
                    Outcome::Failed {
                        error: ErrorView::UndefinedIVar { name: ident.name, span },
                        heap,
                    }
                }
            } else {
                Outcome::Failed { error: ErrorView::IVarAccessedOnNonInstanceValue(span), heap }
            },
            Some(_) => Outcome::Failed {
                error: ErrorView::IVarAccessedOnNonInstanceValue(span),
                heap,
            },
        },
        ExprView::Number { number, span } => Outcome::Done {
            value: ValueView::Number(number),
            heap,
        },
        ExprView::True(span) => Outcome::Done { value: ValueView::True, heap },
        ExprView::False(span) => Outcome::Done { value: ValueView::False, heap },
        ExprView::List { items, span } => match eval_exprs(
            classes,
            depth,
            items,
            0,
            Seq::empty(),
            frame,
            heap,
        ) {
            Outcome::Done { value, heap } => Outcome::Done { value: ValueView::List(value), heap },
            Outcome::Failed { error, heap } => Outcome::Failed { error, heap },
        },
        ExprView::Self_(span) => match frame.self_ {
            Some(value) => Outcome::Done { value, heap },
            None => Outcome::Failed { error: ErrorView::NoSelf(span), heap },
        },
        ExprView::ClassNew(new) => match class_index(classes, new.class_name.name) {
            None => Outcome::Failed {
                error: ErrorView::ClassNotDefined {
                    class: new.class_name.name,
                    span: new.class_name.span,
                },
                heap,
            },
            Some(class) => match eval_args(
                classes,
                depth,
                new.args,
                0,
                Seq::empty(),
                frame,
                heap,
            ) {
                Outcome::Failed { error, heap } => Outcome::Failed { error, heap },
                Outcome::Done { value: provided, heap: after } => match bind_arguments(
                    classes[class as int].fields,
                    provided,
                    new.class_name.span,
                ) {
                    Err(error) => Outcome::Failed { error, heap: after },
                    Ok(ivars) => Outcome::Done {
                        value: ValueView::Instance(after.len()),
                        heap: after.push(InstanceView { class, ivars }),
                    },
                },
            },
        },
        ExprView::MessageSend(send) => eval_send(classes, depth, send, frame, heap),
        ExprView::Selector(selector) => Outcome::Failed {
            error: ErrorView::NotImplemented(selector.span),
            heap,
        },
        ExprView::ClassNameSelector(selector) => Outcome::Failed {
            error: ErrorView::NotImplemented(selector.span),
            heap,
        },
        ExprView::Block(block) => Outcome::Failed {
            error: ErrorView::NotImplemented(block.span),
            heap,
        },
    }
}

/// The value of the message send `send`: the receiver is evaluated and has
/// to be an instance, the method is looked up from the receiver's class
/// upwards, the arguments are evaluated and bound to the method's
/// parameters, and the body runs in a frame of its own, whose locals are the
/// parameters and whose receiver is the instance.
pub open spec fn eval_send(
    classes: Seq<ClassView>,
    depth: nat,
    send: MessageSendView,
    frame: FrameView,
    heap: Seq<InstanceView>,
) -> Outcome<ValueView>
    decreases depth, send, 0nat,
{
    match eval_expr(classes, depth, *send.receiver, frame, heap) {
        Outcome::Failed { error, heap } => Outcome::Failed { error, heap },
        Outcome::Done { value: receiver, heap: heap1 } => match receiver {
            ValueView::Instance(handle) => if handle < heap1.len() && heap1[handle as int].class
                < classes.len() {
                let class = classes[heap1[handle as int].class as int];
                match resolve_method(classes, class, send.msg.name, classes.len()) {
                    None => Outcome::Failed {
                        error: ErrorView::UndefinedMethod {
                            class: class.name,
                            method: send.msg.name,
                            span: send.span,
                        },
                        heap: heap1,
                    },
                    Some(method) => match eval_args(
                        classes,
                        depth,
                        send.args,
                        0,
                        Seq::empty(),
                        frame,
                        heap1,
                    ) {
                        Outcome::Failed { error, heap } => Outcome::Failed { error, heap },
                        Outcome::Done { value: provided, heap: heap2 } => match bind_arguments(
                            method.parameters,
                            provided,
                            send.span,
                        ) {
                            Err(error) => Outcome::Failed { error, heap: heap2 },
                            Ok(locals) => if depth == 0 {
                                Outcome::Failed {
                                    error: ErrorView::CallDepthExceeded(send.span),
                                    heap: heap2,
                                }
                            } else {
                                let end = exec_stmts(
                                    classes,
                                    (depth - 1) as nat,
                                    method.body,
                                    0,
                                    FrameView {
                                        locals,
                                        self_: Some(receiver),
                                        return_value: None,
                                    },
                                    heap2,
                                );
                                match end.error {
                                    Some(error) => Outcome::Failed { error, heap: end.heap },
                                    None => Outcome::Done {
                                        value: match end.frame.return_value {
                                            Some(value) => value,
                                            None => ValueView::Nil,
                                        },
                                        heap: end.heap,
                                    },
                                }
                            },
                        },
                    },
                }
            } else {
                Outcome::Failed {
                    error: ErrorView::MessageSentToNonInstance(send.span),
                    heap: heap1,
                }
            },
            _ => Outcome::Failed {
                error: ErrorView::MessageSentToNonInstance(send.span),
                heap: heap1,
            },
        },
    }
}

/// The values of the expressions `es` from the `i`-th on, evaluated from
/// left to right, behind the values `done`.
pub open spec fn eval_exprs(
    classes: Seq<ClassView>,
    depth: nat,
    es: Seq<ExprView>,
    i: nat,
    done: Seq<ValueView>,
    frame: FrameView,
    heap: Seq<InstanceView>,
) -> Outcome<Seq<ValueView>>
    decreases depth, es, es.len() - i,
{
    if i >= es.len() {
        Outcome::Done { value: done, heap }
    } else {
        match eval_expr(classes, depth, es[i as int], frame, heap) {
            Outcome::Failed { error, heap } => Outcome::Failed { error, heap },
            Outcome::Done { value, heap: after } => eval_exprs(
                classes,
                depth,
                es,
                i + 1,
                done.push(value),
                frame,
                after,
            ),
        }
    }
}

/// The arguments `args` from the `i`-th on, evaluated from left to right,
/// behind the arguments `done`.
pub open spec fn eval_args(
    classes: Seq<ClassView>,
    depth: nat,
    args: Seq<ArgumentView>,
    i: nat,
    done: Seq<EvaluatedArg>,
    frame: FrameView,
    heap: Seq<InstanceView>,
) -> Outcome<Seq<EvaluatedArg>>
    decreases depth, args, args.len() - i,
{
    if i >= args.len() {
        Outcome::Done { value: done, heap }
    } else {
        match eval_expr(classes, depth, args[i as int].expr, frame, heap) {
            Outcome::Failed { error, heap } => Outcome::Failed { error, heap },
            Outcome::Done { value, heap: after } => eval_args(
                classes,
                depth,
                args,
                i + 1,
                done.push(
                    EvaluatedArg { name: args[i as int].ident.name, value, span: args[i as int].span },
                ),
                frame,
                after,
            ),
        }
    }
}

/// The frame and the heap after the statement `s` has run in `frame`.  A
/// statement that fails leaves the frame as it was.
pub open spec fn exec_stmt(
    classes: Seq<ClassView>,
    depth: nat,
    s: StmtView,
    frame: FrameView,
    heap: Seq<InstanceView>,
) -> Effect
    decreases depth, s, 0nat,
{
    match s {
        StmtView::LetLocal { ident, body, span } => match eval_expr(
            classes,
            depth,
            body,
            frame,
            heap,
        ) {
            Outcome::Failed { error, heap: after } => Effect::failed(error, frame, after),
            Outcome::Done { value, heap: after } => Effect::done(
                FrameView { locals: frame.locals.insert(ident.name, value), ..frame },
                after,
            ),
        },
        StmtView::LetIVar { ident, body, span } => match frame.self_ {
            None => Effect::failed(ErrorView::IVarAccessedWithoutSelf(span), frame, heap),
            Some(ValueView::Instance(handle)) => match eval_expr(
                classes,
                depth,
                body,
                frame,
                heap,
            ) {
                Outcome::Failed { error, heap: after } => Effect::failed(error, frame, after),
                Outcome::Done { value, heap: after } => if handle < after.len() {
                    Effect::done(
                        frame,
                        after.update(
                            handle as int,
                            InstanceView {
                                ivars: after[handle as int].ivars.insert(ident.name, value),
                                ..after[handle as int]
                            },
                        ),
                    )
                } else {
                    Effect::failed(ErrorView::IVarAccessedOnNonInstanceValue(span), frame, after)
                },
            },
            Some(_) => Effect::failed(
                ErrorView::IVarAccessedOnNonInstanceValue(span),
                frame,
                heap,
            ),
        },
        StmtView::MessageSend { expr, span } => match eval_send(
            classes,
            depth,
            expr,
            frame,
            heap,
        ) {
            Outcome::Failed { error, heap: after } => Effect::failed(error, frame, after),
            Outcome::Done { value, heap: after } => Effect::done(frame, after),
        },
        StmtView::Return { expr, span } => match eval_expr(classes, depth, expr, frame, heap) {
            Outcome::Failed { error, heap: after } => Effect::failed(error, frame, after),
            Outcome::Done { value, heap: after } => Effect::done(
                FrameView { return_value: Some(value), ..frame },
                after,
            ),
        },
        StmtView::DefineMethod { class_name, method_name, block, span } => Effect::done(
            frame,
            heap,
        ),
        StmtView::DefineClass { name, super_class, fields, span } => Effect::done(frame, heap),
    }
}

/// The frame and the heap after the statements `stmts` from the `i`-th on
/// have run in `frame`, one after the other.  Once the frame holds a value
/// to return, no further statement runs; a statement that fails ends the run
/// where it stands.
pub open spec fn exec_stmts(
    classes: Seq<ClassView>,
    depth: nat,
    stmts: Seq<StmtView>,
    i: nat,
    frame: FrameView,
    heap: Seq<InstanceView>,
) -> Effect
    decreases depth, stmts, stmts.len() - i,
{
    if i >= stmts.len() || frame.return_value is Some {
        Effect::done(frame, heap)
    } else {
        let step = exec_stmt(classes, depth, stmts[i as int], frame, heap);
        if step.error is Some {
            step
        } else {
            exec_stmts(classes, depth, stmts, i + 1, step.frame, step.heap)
        }
    }
}

/// A write to an instance variable through one copy of an instance is read
/// through every other copy: once `let @name = body;` has run with the
/// receiver `receiver`, reading `@name` in any frame with the same receiver
/// gives the value that was stored.
pub proof fn lemma_ivar_write_is_seen_by_every_alias(
    classes: Seq<ClassView>,
    depth: nat,
    name: crate::ast::IdentView,
    body: ExprView,
    span: Span,
    writer: FrameView,
    reader: FrameView,
    heap: Seq<InstanceView>,
    read_span: Span,
)
    requires
        reader.self_ == writer.self_,
        exec_stmt(classes, depth, StmtView::LetIVar { ident: name, body, span }, writer, heap).error
            is None,
    ensures
        ({
            let written = exec_stmt(
                classes,
                depth,
                StmtView::LetIVar { ident: name, body, span },
                writer,
                heap,
            );
            let stored = eval_expr(classes, depth, body, writer, heap);
            &&& stored is Done
            &&& eval_expr(
                classes,
                depth,
                ExprView::IVar { ident: name, span: read_span },
                reader,
                written.heap,
            ) == (Outcome::Done { value: stored->value, heap: written.heap })
        }),
{
}

/// A frame that holds a value to return runs no further statement: the
/// frame and the heap stay as they are.
pub proof fn lemma_return_skips_the_rest(
    classes: Seq<ClassView>,
    depth: nat,
    stmts: Seq<StmtView>,
    i: nat,
    frame: FrameView,
    heap: Seq<InstanceView>,
)
    requires
        frame.return_value is Some,
    ensures
        exec_stmts(classes, depth, stmts, i, frame, heap) == Effect::done(frame, heap),
{
}

/// Once `return expr;` has run as the `i`-th statement of a body, the body
/// ends in the state right after it, whatever statements follow.
pub proof fn lemma_return_ends_the_body(
    classes: Seq<ClassView>,
    depth: nat,
    stmts: Seq<StmtView>,
    i: nat,
    frame: FrameView,
    heap: Seq<InstanceView>,
)
    requires
        i < stmts.len(),
        stmts[i as int] is Return,
        frame.return_value is None,
    ensures
        exec_stmts(classes, depth, stmts, i, frame, heap) == exec_stmt(
            classes,
            depth,
            stmts[i as int],
            frame,
            heap,
        ),
        ({
            let after = exec_stmt(classes, depth, stmts[i as int], frame, heap);
            after.error is None ==> after.frame.return_value is Some && after.frame.locals
                == frame.locals
        }),
{
    let after = exec_stmt(classes, depth, stmts[i as int], frame, heap);
    if after.error is None {
        lemma_return_skips_the_rest(classes, depth, stmts, i + 1, after.frame, after.heap);
    }
}

/// A `return` in the body of a method that a statement calls does not end
/// the caller's body: a statement other than `return` leaves the caller's
/// value to return, and the caller's receiver, as they were.
pub proof fn lemma_return_stays_in_its_body(
    classes: Seq<ClassView>,
    depth: nat,
    s: StmtView,
    frame: FrameView,
    heap: Seq<InstanceView>,
)
    requires
        !(s is Return),
    ensures
        exec_stmt(classes, depth, s, frame, heap).frame.return_value == frame.return_value,
        exec_stmt(classes, depth, s, frame, heap).frame.self_ == frame.self_,
{
}

/// Whether one of `args` is labelled `name`.
pub open spec fn has_label(args: Seq<EvaluatedArg>, name: Seq<char>) -> bool {
    exists|i: int| 0 <= i < args.len() && (#[trigger] args[i]).name == name
}

/// The last of `args` labelled `name`.
pub open spec fn last_with_label(args: Seq<EvaluatedArg>, name: Seq<char>) -> EvaluatedArg
    decreases args.len(),
{
    if args.len() == 0 {
        arbitrary()
    } else if args.last().name == name {
        args.last()
    } else {
        last_with_label(args.drop_last(), name)
    }
}

/// No two of `args` have the same label.
pub open spec fn distinct_labels(args: Seq<EvaluatedArg>) -> bool {
    forall|i: int, j: int|
        0 <= i < args.len() && 0 <= j < args.len() && i != j ==> (#[trigger] args[i]).name != (
        #[trigger] args[j]).name
}

/// What [`arg_position`] finds is the first argument with that label; it
/// finds one exactly if there is one.
pub proof fn lemma_arg_position(table: Seq<EvaluatedArg>, name: Seq<char>)
    ensures
        match arg_position(table, name) {
            Some(index) => index < table.len() && table[index as int].name == name && forall|
                j: int,
            |
                0 <= j < index ==> (#[trigger] table[j]).name != name,
            None => forall|j: int| 0 <= j < table.len() ==> (#[trigger] table[j]).name != name,
        },
        arg_position(table, name) is Some <==> has_label(table, name),
    decreases table.len(),
{
    if table.len() > 0 {
        lemma_arg_position(table.drop_last(), name);
        match arg_position(table.drop_last(), name) {
            Some(index) => {
                assert(table.drop_last()[index as int] == table[index as int]);
                assert forall|j: int| 0 <= j < index implies (#[trigger] table[j]).name
                    != name by {
                    assert(table.drop_last()[j] == table[j]);
                }
            },
            None => {
                assert forall|j: int| 0 <= j < table.len() - 1 implies (#[trigger] table[j]).name
                    != name by {
                    assert(table.drop_last()[j] == table[j]);
                }
            },
        }
    }
}

/// Indexing the arguments by label keeps one entry for each label: the
/// entries have distinct labels, a label has an entry exactly if an argument
/// has it, and the entry is the last argument with that label.
pub proof fn lemma_index_arguments(provided: Seq<EvaluatedArg>)
    ensures
        distinct_labels(index_arguments(provided)),
        forall|name: Seq<char>| #[trigger]
            has_label(index_arguments(provided), name) <==> has_label(provided, name),
        forall|j: int|
            0 <= j < index_arguments(provided).len() ==> (#[trigger] index_arguments(
                provided,
            )[j]) == last_with_label(provided, index_arguments(provided)[j].name),
    decreases provided.len(),
{
    let table = index_arguments(provided);
    if provided.len() == 0 {
    } else {
        let before = index_arguments(provided.drop_last());
        let arg = provided.last();
        lemma_index_arguments(provided.drop_last());
        lemma_arg_position(before, arg.name);
        assert forall|name: Seq<char>| #[trigger]
            has_label(table, name) <==> has_label(provided, name) by {
            if has_label(table, name) {
                let j = choose|j: int| 0 <= j < table.len() && (#[trigger] table[j]).name == name;
                if name != arg.name {
                    assert(before[j].name == name);
                    assert(has_label(before, name));
                    let i = choose|i: int|
                        0 <= i < provided.drop_last().len() && (#[trigger] provided.drop_last()[i]).name
                            == name;
                    assert(provided[i].name == name);
                } else {
                    assert(provided[provided.len() - 1].name == name);
                }
            }
            if has_label(provided, name) {
                let i = choose|i: int| 0 <= i < provided.len() && (#[trigger] provided[i]).name
                    == name;
                if name == arg.name {
                    match arg_position(before, arg.name) {
                        Some(index) => {
                            assert(table[index as int].name == name);
                        },
                        None => {
                            assert(table[table.len() - 1].name == name);
                        },
                    }
                } else {
                    assert(provided.drop_last()[i].name == name);
                    assert(has_label(before, name));
                    let j = choose|j: int| 0 <= j < before.len() && (#[trigger] before[j]).name
                        == name;
                    assert(table[j].name == name);
                }
            }
        }
        assert forall|j: int| 0 <= j < table.len() implies (#[trigger] table[j])
            == last_with_label(provided, table[j].name) by {
            if table[j].name != arg.name {
                assert(table[j] == before[j]);
            }
        }
    }
}

/// Taking an entry out of a table with distinct labels removes its label
/// and no other, and keeps the order of the entries that stay.
pub proof fn lemma_remove_entry(table: Seq<EvaluatedArg>, index: int)
    requires
        distinct_labels(table),
        0 <= index < table.len(),
    ensures
        distinct_labels(table.remove(index)),
        forall|name: Seq<char>| #[trigger]
            has_label(table.remove(index), name) <==> (has_label(table, name) && name
                != table[index].name),
{
    let rest = table.remove(index);
    assert forall|name: Seq<char>| #[trigger]
        has_label(rest, name) <==> (has_label(table, name) && name != table[index].name) by {
        if has_label(rest, name) {
            let j = choose|j: int| 0 <= j < rest.len() && (#[trigger] rest[j]).name == name;
            if j < index {
                assert(table[j].name == name);
            } else {
                assert(table[j + 1].name == name);
            }
        }
        if has_label(table, name) && name != table[index].name {
            let j = choose|j: int| 0 <= j < table.len() && (#[trigger] table[j]).name == name;
            if j < index {
                assert(rest[j].name == name);
            } else {
                assert(rest[j - 1].name == name);
            }
        }
    }
    assert forall|i: int, j: int|
        0 <= i < rest.len() && 0 <= j < rest.len() && i != j implies (#[trigger] rest[i]).name != (
    #[trigger] rest[j]).name by {
        let a = if i < index {
            i
        } else {
            i + 1
        };
        let b = if j < index {
            j
        } else {
            j + 1
        };
        assert(rest[i] == table[a] && rest[j] == table[b]);
    }
}

/// Binding fails at the first required name that has no entry.
pub proof fn lemma_bind_required_missing(
    required: Seq<Seq<char>>,
    k: nat,
    table: Seq<EvaluatedArg>,
    bound: Map<Seq<char>, ValueView>,
    call_site: Span,
    missing: nat,
)
    requires
        k <= missing < required.len(),
        required.no_duplicates(),
        distinct_labels(table),
        !has_label(table, required[missing as int]),
        forall|m: int| k <= m < missing ==> has_label(table, #[trigger] required[m]),
    ensures
        bind_required(required, k, table, bound, call_site) == Err::<
            Map<Seq<char>, ValueView>,
            ErrorView,
        >(ErrorView::MissingArgument { name: required[missing as int], span: call_site }),
    decreases missing - k,
{
    lemma_arg_position(table, required[k as int]);
    if k < missing {
        assert(has_label(table, required[k as int]));
        let index = arg_position(table, required[k as int])->0;
        lemma_remove_entry(table, index as int);
        lemma_bind_required_missing(
            required,
            k + 1,
            table.remove(index as int),
            bound.insert(required[k as int], table[index as int].value),
            call_site,
            missing,
        );
    }
}

/// Where every required name has an entry, binding fails at the first entry
/// that no required name takes.
pub proof fn lemma_bind_required_unexpected(
    required: Seq<Seq<char>>,
    k: nat,
    table: Seq<EvaluatedArg>,
    bound: Map<Seq<char>, ValueView>,
    call_site: Span,
    extra: int,
)
    requires
        k <= required.len(),
        required.no_duplicates(),
        distinct_labels(table),
        forall|m: int| k <= m < required.len() ==> has_label(table, #[trigger] required[m]),
        0 <= extra < table.len(),
        forall|m: int| k <= m < required.len() ==> #[trigger] required[m] != table[extra].name,
        forall|j: int|
            0 <= j < extra ==> exists|m: int|
                k <= m < required.len() && #[trigger] required[m] == (#[trigger] table[j]).name,
    ensures
        bind_required(required, k, table, bound, call_site) == Err::<
            Map<Seq<char>, ValueView>,
            ErrorView,
        >(ErrorView::UnexpectedArgument { name: table[extra].name, span: table[extra].span }),
    decreases required.len() - k,
{
    if k >= required.len() {
        if extra > 0 {
            let m = choose|m: int|
                k <= m < required.len() && #[trigger] required[m] == (#[trigger] table[0]).name;
            assert(false);
        }
    } else {
        lemma_arg_position(table, required[k as int]);
        assert(has_label(table, required[k as int]));
        let index = arg_position(table, required[k as int])->0 as int;
        let rest = table.remove(index);
        lemma_remove_entry(table, index);
        assert(index != extra);
        let moved = if index < extra {
            extra - 1
        } else {
            extra
        };
        assert(rest[moved] == table[extra]);
        assert forall|m: int| k + 1 <= m < required.len() implies has_label(
            rest,
            #[trigger] required[m],
        ) by {
            assert(has_label(table, required[m]));
            assert(required[m] != required[k as int]);
        }
        assert forall|j: int| 0 <= j < moved implies exists|m: int|
            k + 1 <= m < required.len() && #[trigger] required[m] == (#[trigger] rest[j]).name by {
            let origin = if j < index {
                j
            } else {
                j + 1
            };
            assert(rest[j] == table[origin]);
            let m = choose|m: int|
                k <= m < required.len() && #[trigger] required[m] == (#[trigger] table[origin]).name;
            assert(table[origin].name != table[index].name);
            assert(m != k);
        }
        lemma_bind_required_unexpected(
            required,
            k + 1,
            rest,
            bound.insert(required[k as int], table[index].value),
            call_site,
            moved,
        );
    }
}

/// The values that binding gives to the required names from the `k`-th on.
pub open spec fn bound_values(
    required: Seq<Seq<char>>,
    k: nat,
    table: Seq<EvaluatedArg>,
    bound: Map<Seq<char>, ValueView>,
) -> Map<Seq<char>, ValueView> {
    Map::new(
        |name: Seq<char>|
            bound.dom().contains(name) || exists|m: int|
                k <= m < required.len() && #[trigger] required[m] == name,
        |name: Seq<char>|
            if exists|m: int| k <= m < required.len() && #[trigger] required[m] == name {
                table[arg_position(table, name)->0 as int].value
            } else {
                bound[name]
            },
    )
}

/// Where the entries of the table are exactly the required names, binding
/// succeeds and gives each name the value of its entry.
pub proof fn lemma_bind_required_exact(
    required: Seq<Seq<char>>,
    k: nat,
    table: Seq<EvaluatedArg>,
    bound: Map<Seq<char>, ValueView>,
    call_site: Span,
)
    requires
        k <= required.len(),
        required.no_duplicates(),
        distinct_labels(table),
        forall|m: int| k <= m < required.len() ==> has_label(table, #[trigger] required[m]),
        forall|j: int|
            0 <= j < table.len() ==> exists|m: int|
                k <= m < required.len() && #[trigger] required[m] == (#[trigger] table[j]).name,
    ensures
        bind_required(required, k, table, bound, call_site) == Ok::<
            Map<Seq<char>, ValueView>,
            ErrorView,
        >(bound_values(required, k, table, bound)),
    decreases required.len() - k,
{
    if k >= required.len() {
        if table.len() > 0 {
            let m = choose|m: int|
                k <= m < required.len() && #[trigger] required[m] == (#[trigger] table[0]).name;
            assert(false);
        }
        assert(bound_values(required, k, table, bound) =~= bound);
    } else {
        let name = required[k as int];
        lemma_arg_position(table, name);
        assert(has_label(table, name));
        let index = arg_position(table, name)->0 as int;
        let rest = table.remove(index);
        let next = bound.insert(name, table[index].value);
        lemma_remove_entry(table, index);
        assert forall|m: int| k + 1 <= m < required.len() implies has_label(
            rest,
            #[trigger] required[m],
        ) by {
            assert(has_label(table, required[m]));
            assert(required[m] != required[k as int]);
        }
        assert forall|j: int| 0 <= j < rest.len() implies exists|m: int|
            k + 1 <= m < required.len() && #[trigger] required[m] == (#[trigger] rest[j]).name by {
            let origin = if j < index {
                j
            } else {
                j + 1
            };
            assert(rest[j] == table[origin]);
            let m = choose|m: int|
                k <= m < required.len() && #[trigger] required[m] == (#[trigger] table[origin]).name;
            assert(table[origin].name != table[index].name);
            assert(m != k);
        }
        lemma_bind_required_exact(required, k + 1, rest, next, call_site);
        let a = bound_values(required, k + 1, rest, next);
        let b = bound_values(required, k, table, bound);
        assert forall|key: Seq<char>| a.dom().contains(key) <==> b.dom().contains(key) by {
            if exists|m: int| k + 1 <= m < required.len() && #[trigger] required[m] == key {
                let m = choose|m: int| k + 1 <= m < required.len() && #[trigger] required[m] == key;
                assert(k <= m < required.len() && required[m] == key);
            }
            if exists|m: int| k <= m < required.len() && #[trigger] required[m] == key {
                let m = choose|m: int| k <= m < required.len() && #[trigger] required[m] == key;
                if m != k {
                    assert(k + 1 <= m < required.len() && required[m] == key);
                }
            }
        }
        assert forall|key: Seq<char>| a.dom().contains(key) implies a[key] == b[key] by {
            if exists|m: int| k + 1 <= m < required.len() && #[trigger] required[m] == key {
                let m = choose|m: int| k + 1 <= m < required.len() && #[trigger] required[m] == key;
                assert(k <= m < required.len() && required[m] == key);
                assert(key != name);
                lemma_arg_position(rest, key);
                lemma_arg_position(table, key);
                assert(has_label(rest, key));
                let r = arg_position(rest, key)->0 as int;
                let t = arg_position(table, key)->0 as int;
                let origin = if r < index {
                    r
                } else {
                    r + 1
                };
                assert(rest[r] == table[origin]);
                assert(table[origin].name == table[t].name);
                assert(origin == t);
            } else if key == name {
                assert(k <= k < required.len() && required[k as int] == key);
            } else {
                if exists|m: int| k <= m < required.len() && #[trigger] required[m] == key {
                    let m = choose|m: int| k <= m < required.len() && #[trigger] required[m] == key;
                    assert(k + 1 <= m < required.len() && required[m] == key);
                }
            }
        }
        assert(a =~= b);
    }
}

/// Supplying too few arguments fails: the first required name, in order,
/// that no argument is labelled with is a missing argument at the call site.
pub proof fn lemma_too_few_arguments(
    required: Seq<Seq<char>>,
    provided: Seq<EvaluatedArg>,
    call_site: Span,
    missing: nat,
)
    requires
        required.no_duplicates(),
        missing < required.len(),
        !has_label(provided, required[missing as int]),
        forall|m: int| 0 <= m < missing ==> has_label(provided, #[trigger] required[m]),
    ensures
        bind_arguments(required, provided, call_site) == Err::<
            Map<Seq<char>, ValueView>,
            ErrorView,
        >(ErrorView::MissingArgument { name: required[missing as int], span: call_site }),
{
    lemma_index_arguments(provided);
    let table = index_arguments(provided);
    assert forall|m: int| 0 <= m < missing implies has_label(table, #[trigger] required[m]) by {
        assert(has_label(provided, required[m]));
    }
    lemma_bind_required_missing(required, 0, table, Map::empty(), call_site, missing);
}

/// Supplying an argument whose label is no required name fails, once every
/// required name has its argument: some such argument is an unexpected
/// argument, reported with the span of the last argument with its label.
pub proof fn lemma_unrecognised_argument(
    required: Seq<Seq<char>>,
    provided: Seq<EvaluatedArg>,
    call_site: Span,
    extra: int,
)
    requires
        required.no_duplicates(),
        forall|m: int| 0 <= m < required.len() ==> has_label(provided, #[trigger] required[m]),
        0 <= extra < provided.len(),
        !required.contains(provided[extra].name),
    ensures
        bind_arguments(required, provided, call_site) matches Err(
            ErrorView::UnexpectedArgument { name, span },
        ) && !required.contains(name) && has_label(provided, name) && span == last_with_label(
            provided,
            name,
        ).span,
{
    lemma_index_arguments(provided);
    let table = index_arguments(provided);
    assert(has_label(provided, provided[extra].name));
    assert(has_label(table, provided[extra].name));
    let witness = choose|j: int|
        0 <= j < table.len() && (#[trigger] table[j]).name == provided[extra].name;
    lemma_first_unexpected(required, table, witness);
    let first = first_unexpected(required, table, witness);
    assert(has_label(table, table[first].name));
    assert(has_label(provided, table[first].name));
    assert(table[first] == last_with_label(provided, table[first].name));
    assert forall|m: int| 0 <= m < required.len() implies #[trigger] required[m]
        != table[first].name by {
        if required[m] == table[first].name {
            assert(required.contains(table[first].name));
        }
    }
    assert forall|m: int| 0 <= m < required.len() implies has_label(
        table,
        #[trigger] required[m],
    ) by {
        assert(has_label(provided, required[m]));
    }
    assert forall|j: int| 0 <= j < first implies exists|m: int|
        0 <= m < required.len() && #[trigger] required[m] == (#[trigger] table[j]).name by {
        assert(required.contains(table[j].name));
        let m = choose|m: int| 0 <= m < required.len() && required[m] == table[j].name;
        assert(required[m] == table[j].name);
    }
    lemma_bind_required_unexpected(required, 0, table, Map::empty(), call_site, first);
}

/// The first entry of `table`, up to the `limit`-th, whose label is no
/// required name.
pub open spec fn first_unexpected(
    required: Seq<Seq<char>>,
    table: Seq<EvaluatedArg>,
    limit: int,
) -> int
    decreases limit,
{
    if limit <= 0 {
        0
    } else if exists|j: int| 0 <= j < limit && !required.contains((#[trigger] table[j]).name) {
        first_unexpected(required, table, limit - 1)
    } else {
        limit
    }
}

/// [`first_unexpected`] is an entry whose label is no required name, and
/// every entry before it has a required name as its label.
pub proof fn lemma_first_unexpected(required: Seq<Seq<char>>, table: Seq<EvaluatedArg>, limit: int)
    requires
        0 <= limit < table.len(),
        !required.contains(table[limit].name),
    ensures
        0 <= first_unexpected(required, table, limit) <= limit,
        !required.contains(table[first_unexpected(required, table, limit)].name),
        forall|j: int|
            0 <= j < first_unexpected(required, table, limit) ==> required.contains(
                (#[trigger] table[j]).name,
            ),
    decreases limit,
{
    if limit > 0 {
        if exists|j: int| 0 <= j < limit && !required.contains((#[trigger] table[j]).name) {
            let j = choose|j: int| 0 <= j < limit && !required.contains((#[trigger] table[j]).name);
            lemma_first_unexpected_below(required, table, limit - 1, j);
        }
    }
}

/// Below an entry with an unexpected label, the search finds one.
pub proof fn lemma_first_unexpected_below(
    required: Seq<Seq<char>>,
    table: Seq<EvaluatedArg>,
    limit: int,
    j: int,
)
    requires
        0 <= j <= limit < table.len(),
        !required.contains(table[j].name),
    ensures
        0 <= first_unexpected(required, table, limit) <= j,
        !required.contains(table[first_unexpected(required, table, limit)].name),
        forall|i: int|
            0 <= i < first_unexpected(required, table, limit) ==> required.contains(
                (#[trigger] table[i]).name,
            ),
    decreases limit,
{
    if limit > 0 {
        if exists|i: int| 0 <= i < limit && !required.contains((#[trigger] table[i]).name) {
            let i = choose|i: int| 0 <= i < limit && !required.contains((#[trigger] table[i]).name);
            lemma_first_unexpected_below(required, table, limit - 1, i);
            if j < limit {
                lemma_first_unexpected_below(required, table, limit - 1, j);
            }
        } else {
            assert(j == limit);
        }
    }
}

/// Supplying exactly the required names, in any order, succeeds: each name
/// is bound to the value of the last argument labelled with it, and nothing
/// else is bound.
pub proof fn lemma_exact_arguments_in_any_order(
    required: Seq<Seq<char>>,
    provided: Seq<EvaluatedArg>,
    call_site: Span,
)
    requires
        required.no_duplicates(),
        forall|name: Seq<char>| #[trigger] has_label(provided, name) <==> required.contains(name),
    ensures
        bind_arguments(required, provided, call_site) matches Ok(bound) && bound.dom()
            =~= required.to_set() && forall|name: Seq<char>|
            required.contains(name) ==> #[trigger] bound[name] == last_with_label(
                provided,
                name,
            ).value,
{
    lemma_index_arguments(provided);
    let table = index_arguments(provided);
    assert forall|m: int| 0 <= m < required.len() implies has_label(
        table,
        #[trigger] required[m],
    ) by {
        assert(required.contains(required[m]));
        assert(has_label(provided, required[m]));
    }
    assert forall|j: int| 0 <= j < table.len() implies exists|m: int|
        0 <= m < required.len() && #[trigger] required[m] == (#[trigger] table[j]).name by {
        assert(has_label(table, table[j].name));
        assert(has_label(provided, table[j].name));
        assert(required.contains(table[j].name));
        let m = choose|m: int| 0 <= m < required.len() && required[m] == table[j].name;
        assert(required[m] == table[j].name);
    }
    lemma_bind_required_exact(required, 0, table, Map::empty(), call_site);
    let bound = bound_values(required, 0, table, Map::empty());
    assert forall|name: Seq<char>| bound.dom().contains(name) <==> required.to_set().contains(
        name,
    ) by {
        if required.contains(name) {
            let m = choose|m: int| 0 <= m < required.len() && required[m] == name;
            assert(0 <= m < required.len() && required[m] == name);
        }
    }
    assert forall|name: Seq<char>| required.contains(name) implies #[trigger] bound[name]
        == last_with_label(provided, name).value by {
        let m = choose|m: int| 0 <= m < required.len() && required[m] == name;
        assert(0 <= m < required.len() && required[m] == name);
        lemma_arg_position(table, name);
        assert(has_label(table, name));
    }
}

} // verus!
