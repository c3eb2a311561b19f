//! The failures of every stage, and the one line of text that reports each.

use vstd::prelude::*;
use vstd::string::StringExecFns;
use crate::Span;

verus! {

/// Why lexing, parsing, building the class table or evaluating stopped.
#[derive(Debug, PartialEq, Eq)]
pub enum Error<'a> {
    LexError { at: usize },
    ParseError(String),
    ClassNotDefined { class: &'a str, span: Span },
    ClassAlreadyDefined { class: &'a str, first_span: Span, second_span: Span },
    MethodAlreadyDefined { class: &'a str, method: &'a str, first_span: Span, second_span: Span },
    UndefinedLocal { name: &'a str, span: Span },
    MissingArgument { name: &'a str, span: Span },
    UnexpectedArgument { name: &'a str, span: Span },
    NoSelf(Span),
    MessageSentToNonInstance(Span),
    IVarAccessedWithoutSelf(Span),
    IVarAccessedOnNonInstanceValue(Span),
    UndefinedMethod { class: &'a str, method: &'a str, span: Span },
    IVarAccessedOutsideMethod { name: &'a str, span: Span },
    UndefinedIVar { name: &'a str, span: Span },
    /// Message sends were nested deeper than the evaluator's limit.
    CallDepthExceeded(Span),
    /// The expression is accepted by the grammar but has no value.
    NotImplemented(Span),
}

/// An [`Error`] with its texts as character sequences.
pub enum ErrorView {
    LexError { at: usize },
    ParseError(Seq<char>),
    ClassNotDefined { class: Seq<char>, span: Span },
    ClassAlreadyDefined { class: Seq<char>, first_span: Span, second_span: Span },
    MethodAlreadyDefined {
        class: Seq<char>,
        method: Seq<char>,
        first_span: Span,
        second_span: Span,
    },
    UndefinedLocal { name: Seq<char>, span: Span },
    MissingArgument { name: Seq<char>, span: Span },
    UnexpectedArgument { name: Seq<char>, span: Span },
    NoSelf(Span),
    MessageSentToNonInstance(Span),
    IVarAccessedWithoutSelf(Span),
    IVarAccessedOnNonInstanceValue(Span),
    UndefinedMethod { class: Seq<char>, method: Seq<char>, span: Span },
    IVarAccessedOutsideMethod { name: Seq<char>, span: Span },
    UndefinedIVar { name: Seq<char>, span: Span },
    CallDepthExceeded(Span),
    NotImplemented(Span),
}

impl ErrorView {
    /// The diagnostic line for this error.
    pub open spec fn message(self) -> Seq<char> {
        match self {
            ErrorView::LexError { at } => "Unexpected token at "@ + crate::text::decimal(
                at as nat,
            ),
            ErrorView::ParseError(message) => message,
            ErrorView::ClassNotDefined { class, span } => "The class `"@ + class
                + "` is not defined"@,
            ErrorView::ClassAlreadyDefined { class, first_span, second_span } => "The class `"@
                + class + "` was defined more than once. First time at "@ + first_span.text()
                + ", second time at "@ + second_span.text(),
            ErrorView::MethodAlreadyDefined { class, method, first_span, second_span } =>
                "The method `"@ + class + "#"@ + method
                    + "` was defined more than once. First time at "@ + first_span.text()
                    + ", second time at "@ + second_span.text(),
            ErrorView::UndefinedLocal { name, span } => "Undefined local variable `"@ + name
                + "` at "@ + span.text(),
            ErrorView::MissingArgument { name, span } => "Missing argument `"@ + name + ":` at "@
                + span.text(),
            ErrorView::UnexpectedArgument { name, span } => "Unexpected argument `"@ + name
                + ":` at "@ + span.text(),
            ErrorView::NoSelf(span) => "`self` called outside method at "@ + span.text(),
            ErrorView::MessageSentToNonInstance(span) => "Message sent to non instance value at "@
                + span.text(),
            ErrorView::IVarAccessedWithoutSelf(span) =>
                "Instance variabled access without a `self` at "@ + span.text(),
            ErrorView::IVarAccessedOnNonInstanceValue(span) =>
                "Instance variabled access on `self` that isn't an instance at "@ + span.text(),
            ErrorView::UndefinedMethod { class, method, span } => "Undefined method `"@ + class
                + "#"@ + method + "` at "@ + span.text(),
            ErrorView::IVarAccessedOutsideMethod { name, span } => "Instance variable `"@ + name
                + "` accessed outside method at "@ + span.text(),
            ErrorView::UndefinedIVar { name, span } => "Instance variable `"@ + name
                + "` is not defined. Accessed at "@ + span.text(),
            ErrorView::CallDepthExceeded(span) => "Message sends nested too deeply at "@
                + span.text(),
            ErrorView::NotImplemented(span) => "Evaluating this expression is not implemented at "@
                + span.text(),
        }
    }
}

impl<'a> Error<'a> {
    pub open spec fn view(&self) -> ErrorView {
        match self {
            Error::LexError { at } => ErrorView::LexError { at: *at },
            Error::ParseError(message) => ErrorView::ParseError(message@),
            Error::ClassNotDefined { class, span } => ErrorView::ClassNotDefined {
                class: class@,
                span: *span,
            },
            Error::ClassAlreadyDefined { class, first_span, second_span } =>
                ErrorView::ClassAlreadyDefined {
                    class: class@,
                    first_span: *first_span,
                    second_span: *second_span,
                },
            Error::MethodAlreadyDefined { class, method, first_span, second_span } =>
                ErrorView::MethodAlreadyDefined {
                    class: class@,
                    method: method@,
                    first_span: *first_span,
                    second_span: *second_span,
                },
            Error::UndefinedLocal { name, span } => ErrorView::UndefinedLocal {
                name: name@,
                span: *span,
            },
            Error::MissingArgument { name, span } => ErrorView::MissingArgument {
                name: name@,
                span: *span,
            },
            Error::UnexpectedArgument { name, span } => ErrorView::UnexpectedArgument {
                name: name@,
                span: *span,
            },
            Error::NoSelf(span) => ErrorView::NoSelf(*span),
            Error::MessageSentToNonInstance(span) => ErrorView::MessageSentToNonInstance(*span),
            Error::IVarAccessedWithoutSelf(span) => ErrorView::IVarAccessedWithoutSelf(*span),
            Error::IVarAccessedOnNonInstanceValue(span) =>
                ErrorView::IVarAccessedOnNonInstanceValue(*span),
            Error::UndefinedMethod { class, method, span } => ErrorView::UndefinedMethod {
                class: class@,
                method: method@,
                span: *span,
            },
            Error::IVarAccessedOutsideMethod { name, span } =>
                ErrorView::IVarAccessedOutsideMethod { name: name@, span: *span },
            Error::UndefinedIVar { name, span } => ErrorView::UndefinedIVar {
                name: name@,
                span: *span,
            },
            Error::CallDepthExceeded(span) => ErrorView::CallDepthExceeded(*span),
            Error::NotImplemented(span) => ErrorView::NotImplemented(*span),
        }
    }

    /// The diagnostic line for this error.
    pub fn to_string(&self) -> (line: String)
        ensures
            line@ == self@.message(),
    {
        match self {
            Error::LexError { at } => {
                let mut out = String::from_str("Unexpected token at ");
                crate::text::push_decimal(&mut out, *at);
                out
            },
            Error::ParseError(message) => message.clone(),
            Error::ClassNotDefined { class, span } => {
                let mut out = String::from_str("The class `");
                out.append(class);
                out.append("` is not defined");
                out
            },
            Error::ClassAlreadyDefined { class, first_span, second_span } => {
                let mut out = String::from_str("The class `");
                out.append(class);
                out.append("` was defined more than once. First time at ");
                first_span.write_to(&mut out);
                out.append(", second time at ");
                second_span.write_to(&mut out);
                out
            },
            Error::MethodAlreadyDefined { class, method, first_span, second_span } => {
                let mut out = String::from_str("The method `");
                out.append(class);
                out.append("#");
                out.append(method);
                out.append("` was defined more than once. First time at ");
                first_span.write_to(&mut out);
                out.append(", second time at ");
                second_span.write_to(&mut out);
                out
            },
            Error::UndefinedLocal { name, span } => {
                let mut out = String::from_str("Undefined local variable `");
                out.append(name);
                out.append("` at ");
                span.write_to(&mut out);
                out
            },
            Error::MissingArgument { name, span } => {
                let mut out = String::from_str("Missing argument `");
                out.append(name);
                out.append(":` at ");
                span.write_to(&mut out);
                out
            },
            Error::UnexpectedArgument { name, span } => {
                let mut out = String::from_str("Unexpected argument `");
                out.append(name);
                out.append(":` at ");
                span.write_to(&mut out);
                out
            },
            Error::NoSelf(span) => {
                let mut out = String::from_str("`self` called outside method at ");
                span.write_to(&mut out);
                out
            },
            Error::MessageSentToNonInstance(span) => {
                let mut out = String::from_str("Message sent to non instance value at ");
                span.write_to(&mut out);
                out
            },
            Error::IVarAccessedWithoutSelf(span) => {
                let mut out = String::from_str("Instance variabled access without a `self` at ");
                span.write_to(&mut out);
                out
            },
            Error::IVarAccessedOnNonInstanceValue(span) => {
                let mut out = String::from_str(
                    "Instance variabled access on `self` that isn't an instance at ",
                );
                span.write_to(&mut out);
                out
            },
            Error::UndefinedMethod { class, method, span } => {
                let mut out = String::from_str("Undefined method `");
                out.append(class);
                out.append("#");
                out.append(method);
                out.append("` at ");
                span.write_to(&mut out);
                out
            },
            Error::IVarAccessedOutsideMethod { name, span } => {
                let mut out = String::from_str("Instance variable `");
                out.append(name);
                out.append("` accessed outside method at ");
                span.write_to(&mut out);
                out
            },
            Error::UndefinedIVar { name, span } => {
                let mut out = String::from_str("Instance variable `");
                out.append(name);
                out.append("` is not defined. Accessed at ");
                span.write_to(&mut out);
                out
            },
            Error::CallDepthExceeded(span) => {
                let mut out = String::from_str("Message sends nested too deeply at ");
                span.write_to(&mut out);
                out
            },
            Error::NotImplemented(span) => {
                let mut out = String::from_str("Evaluating this expression is not implemented at ");
                span.write_to(&mut out);
                out
            },
        }
    }
}

} // verus!
