//! The syntax tree, and the same tree as plain values.
//!
//! Each node type has a `view`: the node with its texts as character
//! sequences and its children as sequences of views.  The grammar, the class
//! table and the evaluator are all stated over these views.

use vstd::prelude::*;
use crate::Span;

verus! {

/// A whole program: its statements in order.
pub type Ast<'a> = Vec<Stmt<'a>>;

//
// Statements
//
#[derive(Eq, PartialEq, Debug)]
pub enum Stmt<'a> {
    LetLocal(LetLocal<'a>),
    LetIVar(LetIVar<'a>),
    MessageSend(MessageSendStmt<'a>),
    Return(Return<'a>),
    DefineMethod(DefineMethod<'a>),
    DefineClass(DefineClass<'a>),
}

#[derive(Eq, PartialEq, Debug)]
pub struct LetLocal<'a> {
    pub ident: Ident<'a>,
    pub body: Expr<'a>,
    pub span: Span,
}

#[derive(Eq, PartialEq, Debug)]
pub struct LetIVar<'a> {
    pub ident: Ident<'a>,
    pub body: Expr<'a>,
    pub span: Span,
}

#[derive(Eq, PartialEq, Debug)]
pub struct DefineMethod<'a> {
    pub class_name: ClassName<'a>,
    pub method_name: Selector<'a>,
    pub block: Block<'a>,
    pub span: Span,
}

#[derive(Eq, PartialEq, Debug)]
pub struct MessageSendStmt<'a> {
    pub expr: MessageSend<'a>,
    pub span: Span,
}

#[derive(Eq, PartialEq, Debug)]
pub struct Return<'a> {
    pub expr: Expr<'a>,
    pub span: Span,
}

#[derive(Eq, PartialEq, Debug)]
pub struct DefineClass<'a> {
    pub name: ClassNameSelector<'a>,
    pub super_class: ClassNameSelector<'a>,
    pub fields: Vec<Selector<'a>>,
    pub span: Span,
}

//
// Expressions
//
#[derive(Eq, PartialEq, Debug)]
pub enum Expr<'a> {
    Local(Local<'a>),
    IVar(IVar<'a>),
    MessageSend(Box<MessageSend<'a>>),
    ClassNew(ClassNew<'a>),
    Selector(Selector<'a>),
    ClassNameSelector(ClassNameSelector<'a>),
    Block(Block<'a>),
    Number(Number),
    List(List<'a>),
    True(True),
    False(False),
    Self_(Self_),
}

#[derive(Eq, PartialEq, Debug, Hash)]
pub struct ClassName<'a>(pub Ident<'a>);

#[derive(Eq, PartialEq, Debug)]
pub struct Local<'a>(pub Ident<'a>);

#[derive(Eq, PartialEq, Debug)]
pub struct IVar<'a> {
    pub ident: Ident<'a>,
    pub span: Span,
}

#[derive(Eq, PartialEq, Debug)]
pub struct Number {
    pub number: i32,
    pub span: Span,
}

#[derive(Eq, PartialEq, Debug)]
pub struct List<'a> {
    pub items: Vec<Expr<'a>>,
    pub span: Span,
}

#[derive(Eq, PartialEq, Debug)]
pub struct True(pub Span);

#[derive(Eq, PartialEq, Debug)]
pub struct False(pub Span);

#[derive(Eq, PartialEq, Debug)]
pub struct Self_(pub Span);

#[derive(Eq, PartialEq, Debug)]
pub struct Selector<'a> {
    pub ident: Ident<'a>,
    pub span: Span,
}

#[derive(Eq, PartialEq, Debug)]
pub struct ClassNameSelector<'a> {
    pub class_name: ClassName<'a>,
    pub span: Span,
}

#[derive(Eq, PartialEq, Debug)]
pub struct Block<'a> {
    pub parameters: Vec<Parameter<'a>>,
    pub body: Vec<Stmt<'a>>,
    pub span: Span,
}

#[derive(Eq, PartialEq, Debug)]
pub struct Parameter<'a> {
    pub ident: Ident<'a>,
    pub span: Span,
}

#[derive(Eq, PartialEq, Debug)]
pub struct MessageSend<'a> {
    pub receiver: Expr<'a>,
    pub msg: Ident<'a>,
    pub args: Vec<Argument<'a>>,
    pub span: Span,
}

#[derive(Eq, PartialEq, Debug)]
pub struct Argument<'a> {
    pub ident: Ident<'a>,
    pub expr: Expr<'a>,
    pub span: Span,
}

#[derive(Eq, PartialEq, Debug)]
pub struct ClassNew<'a> {
    pub class_name: ClassName<'a>,
    pub args: Vec<Argument<'a>>,
    pub span: Span,
}

//
// Misc
//
#[derive(Eq, PartialEq, Debug, Hash)]
pub struct Ident<'a> {
    pub name: &'a str,
    pub span: Span,
}

//
// Views
//
pub struct IdentView {
    pub name: Seq<char>,
    pub span: Span,
}

pub struct SelectorView {
    pub ident: IdentView,
    pub span: Span,
}

pub struct ClassNameSelectorView {
    pub class_name: IdentView,
    pub span: Span,
}

pub struct ParameterView {
    pub ident: IdentView,
    pub span: Span,
}

pub struct ArgumentView {
    pub ident: IdentView,
    pub expr: ExprView,
    pub span: Span,
}

pub struct BlockView {
    pub parameters: Seq<ParameterView>,
    pub body: Seq<StmtView>,
    pub span: Span,
}

pub struct MessageSendView {
    pub receiver: Box<ExprView>,
    pub msg: IdentView,
    pub args: Seq<ArgumentView>,
    pub span: Span,
}

pub struct ClassNewView {
    pub class_name: IdentView,
    pub args: Seq<ArgumentView>,
    pub span: Span,
}

#[allow(inconsistent_fields)]
pub enum ExprView {
    Local(IdentView),
    IVar { ident: IdentView, span: Span },
    MessageSend(MessageSendView),
    ClassNew(ClassNewView),
    Selector(SelectorView),
    ClassNameSelector(ClassNameSelectorView),
    Block(BlockView),
    Number { number: i32, span: Span },
    List { items: Seq<ExprView>, span: Span },
    True(Span),
    False(Span),
    Self_(Span),
}

#[allow(inconsistent_fields)]
pub enum StmtView {
    LetLocal { ident: IdentView, body: ExprView, span: Span },
    LetIVar { ident: IdentView, body: ExprView, span: Span },
    MessageSend { expr: MessageSendView, span: Span },
    Return { expr: ExprView, span: Span },
    DefineMethod {
        class_name: IdentView,
        method_name: SelectorView,
        block: BlockView,
        span: Span,
    },
    DefineClass {
        name: ClassNameSelectorView,
        super_class: ClassNameSelectorView,
        fields: Seq<SelectorView>,
        span: Span,
    },
}

impl ExprView {
    /// The source range of the expression.
    pub open spec fn span(self) -> Span {
        match self {
            ExprView::Local(ident) => ident.span,
            ExprView::IVar { ident, span } => span,
            ExprView::MessageSend(inner) => inner.span,
            ExprView::ClassNew(inner) => inner.span,
            ExprView::Selector(inner) => inner.span,
            ExprView::ClassNameSelector(inner) => inner.span,
            ExprView::Block(inner) => inner.span,
            ExprView::Number { number, span } => span,
            ExprView::List { items, span } => span,
            ExprView::True(span) => span,
            ExprView::False(span) => span,
            ExprView::Self_(span) => span,
        }
    }
}

impl<'a> Ident<'a> {
    pub open spec fn view(&self) -> IdentView {
        IdentView { name: self.name@, span: self.span }
    }
}

impl<'a> ClassName<'a> {
    pub open spec fn view(&self) -> IdentView {
        self.0@
    }
}

impl<'a> Selector<'a> {
    pub open spec fn view(&self) -> SelectorView {
        SelectorView { ident: self.ident@, span: self.span }
    }
}

impl<'a> ClassNameSelector<'a> {
    pub open spec fn view(&self) -> ClassNameSelectorView {
        ClassNameSelectorView { class_name: self.class_name@, span: self.span }
    }
}

impl<'a> Parameter<'a> {
    pub open spec fn view(&self) -> ParameterView {
        ParameterView { ident: self.ident@, span: self.span }
    }
}

/// The views of `selectors`, one by one.
pub open spec fn selectors_view<'a>(selectors: Seq<Selector<'a>>) -> Seq<SelectorView> {
    selectors.map_values(|selector: Selector<'a>| selector@)
}

/// The views of `parameters`, one by one.
pub open spec fn parameters_view<'a>(parameters: Seq<Parameter<'a>>) -> Seq<ParameterView> {
    parameters.map_values(|parameter: Parameter<'a>| parameter@)
}

/// The views of `exprs`, one by one.
pub open spec fn exprs_view<'a>(exprs: Seq<Expr<'a>>) -> Seq<ExprView>
    decreases exprs,
{
    Seq::new(
        exprs.len(),
        |i: int|
            if 0 <= i < exprs.len() {
                exprs[i].view()
            } else {
                arbitrary()
            },
    )
}

/// The views of `arguments`, one by one.
pub open spec fn arguments_view<'a>(arguments: Seq<Argument<'a>>) -> Seq<ArgumentView>
    decreases arguments,
{
    Seq::new(
        arguments.len(),
        |i: int|
            if 0 <= i < arguments.len() {
                arguments[i].view()
            } else {
                arbitrary()
            },
    )
}

/// The views of `stmts`, one by one.
pub open spec fn stmts_view<'a>(stmts: Seq<Stmt<'a>>) -> Seq<StmtView>
    decreases stmts,
{
    Seq::new(
        stmts.len(),
        |i: int|
            if 0 <= i < stmts.len() {
                stmts[i].view()
            } else {
                arbitrary()
            },
    )
}

impl<'a> Argument<'a> {
    pub open spec fn view(&self) -> ArgumentView
        decreases self,
    {
        ArgumentView { ident: self.ident@, expr: self.expr.view(), span: self.span }
    }
}

impl<'a> Block<'a> {
    pub open spec fn view(&self) -> BlockView
        decreases self,
    {
        BlockView {
            parameters: parameters_view(self.parameters@),
            body: stmts_view(self.body@),
            span: self.span,
        }
    }
}

impl<'a> MessageSend<'a> {
    pub open spec fn view(&self) -> MessageSendView
        decreases self,
    {
        MessageSendView {
            receiver: Box::new(self.receiver.view()),
            msg: self.msg@,
            args: arguments_view(self.args@),
            span: self.span,
        }
    }
}

impl<'a> ClassNew<'a> {
    pub open spec fn view(&self) -> ClassNewView
        decreases self,
    {
        ClassNewView {
            class_name: self.class_name@,
            args: arguments_view(self.args@),
            span: self.span,
        }
    }
}

impl<'a> Local<'a> {
    pub open spec fn view(&self) -> ExprView {
        ExprView::Local(self.0@)
    }
}

impl<'a> IVar<'a> {
    pub open spec fn view(&self) -> ExprView {
        ExprView::IVar { ident: self.ident@, span: self.span }
    }
}

impl Number {
    pub open spec fn view(&self) -> ExprView {
        ExprView::Number { number: self.number, span: self.span }
    }
}

impl True {
    pub open spec fn view(&self) -> ExprView {
        ExprView::True(self.0)
    }
}

impl False {
    pub open spec fn view(&self) -> ExprView {
        ExprView::False(self.0)
    }
}

impl Self_ {
    pub open spec fn view(&self) -> ExprView {
        ExprView::Self_(self.0)
    }
}

impl<'a> List<'a> {
    pub open spec fn view(&self) -> ExprView
        decreases self,
    {
        ExprView::List { items: exprs_view(self.items@), span: self.span }
    }
}

impl<'a> Expr<'a> {
    pub open spec fn view(&self) -> ExprView
        decreases self,
    {
        match self {
            Expr::Local(inner) => inner@,
            Expr::IVar(inner) => inner@,
            Expr::MessageSend(inner) => ExprView::MessageSend(inner.view()),
            Expr::ClassNew(inner) => ExprView::ClassNew(inner.view()),
            Expr::Selector(inner) => ExprView::Selector(inner@),
            Expr::ClassNameSelector(inner) => ExprView::ClassNameSelector(inner@),
            Expr::Block(inner) => ExprView::Block(inner.view()),
            Expr::Number(inner) => inner@,
            Expr::List(inner) => inner.view(),
            Expr::True(inner) => inner@,
            Expr::False(inner) => inner@,
            Expr::Self_(inner) => inner@,
        }
    }

    /// The source range of the expression.
    pub fn span(&self) -> (span: Span)
        ensures
            span == self@.span(),
    {
        match self {
            Expr::Local(inner) => inner.0.span,
            Expr::IVar(inner) => inner.span,
            Expr::MessageSend(inner) => inner.span,
            Expr::ClassNew(inner) => inner.span,
            Expr::Selector(inner) => inner.span,
            Expr::ClassNameSelector(inner) => inner.span,
            Expr::Block(inner) => inner.span,
            Expr::Number(inner) => inner.span,
            Expr::List(inner) => inner.span,
            Expr::True(inner) => inner.0,
            Expr::False(inner) => inner.0,
            Expr::Self_(inner) => inner.0,
        }
    }
}

impl<'a> LetLocal<'a> {
    pub open spec fn view(&self) -> StmtView
        decreases self,
    {
        StmtView::LetLocal { ident: self.ident@, body: self.body.view(), span: self.span }
    }
}

impl<'a> LetIVar<'a> {
    pub open spec fn view(&self) -> StmtView
        decreases self,
    {
        StmtView::LetIVar { ident: self.ident@, body: self.body.view(), span: self.span }
    }
}

impl<'a> MessageSendStmt<'a> {
    pub open spec fn view(&self) -> StmtView
        decreases self,
    {
        StmtView::MessageSend { expr: self.expr.view(), span: self.span }
    }
}

impl<'a> Return<'a> {
    pub open spec fn view(&self) -> StmtView
        decreases self,
    {
        StmtView::Return { expr: self.expr.view(), span: self.span }
    }
}

impl<'a> DefineMethod<'a> {
    pub open spec fn view(&self) -> StmtView
        decreases self,
    {
        StmtView::DefineMethod {
            class_name: self.class_name@,
            method_name: self.method_name@,
            block: self.block.view(),
            span: self.span,
        }
    }
}

impl<'a> DefineClass<'a> {
    pub open spec fn view(&self) -> StmtView {
        StmtView::DefineClass {
            name: self.name@,
            super_class: self.super_class@,
            fields: selectors_view(self.fields@),
            span: self.span,
        }
    }
}

impl<'a> Stmt<'a> {
    pub open spec fn view(&self) -> StmtView
        decreases self,
    {
        match self {
            Stmt::LetLocal(inner) => inner.view(),
            Stmt::LetIVar(inner) => inner.view(),
            Stmt::MessageSend(inner) => inner.view(),
            Stmt::Return(inner) => inner.view(),
            Stmt::DefineMethod(inner) => inner.view(),
            Stmt::DefineClass(inner) => inner@,
        }
    }
}

/// The views of a list grow with the list.
pub proof fn lemma_exprs_view_push<'a>(exprs: Seq<Expr<'a>>, expr: Expr<'a>)
    ensures
        exprs_view(exprs.push(expr)) == exprs_view(exprs).push(expr@),
{
    assert(exprs_view(exprs.push(expr)) =~= exprs_view(exprs).push(expr@));
}

/// The views of a list grow with the list.
pub proof fn lemma_arguments_view_push<'a>(arguments: Seq<Argument<'a>>, argument: Argument<'a>)
    ensures
        arguments_view(arguments.push(argument)) == arguments_view(arguments).push(argument@),
{
    assert(arguments_view(arguments.push(argument)) =~= arguments_view(arguments).push(
        argument@,
    ));
}

/// The views of a list grow with the list.
pub proof fn lemma_stmts_view_push<'a>(stmts: Seq<Stmt<'a>>, stmt: Stmt<'a>)
    ensures
        stmts_view(stmts.push(stmt)) == stmts_view(stmts).push(stmt@),
{
    assert(stmts_view(stmts.push(stmt)) =~= stmts_view(stmts).push(stmt@));
}

} // verus!
