//! The parser: a cursor over the tokens, and one function for each
//! production of the grammar.

use vstd::prelude::*;
use vstd::string::StringExecFns;
use crate::ast::lemma_arguments_view_push;
use crate::ast::lemma_exprs_view_push;
use crate::ast::lemma_stmts_view_push;
use crate::ast::arguments_view;
use crate::ast::exprs_view;
use crate::ast::parameters_view;
use crate::ast::selectors_view;
use crate::ast::stmts_view;
use crate::ast::Argument;
use crate::ast::Block;
use crate::ast::ClassName;
use crate::ast::ClassNameSelector;
use crate::ast::ClassNew;
use crate::ast::DefineClass;
use crate::ast::DefineMethod;
use crate::ast::Expr;
use crate::ast::False;
use crate::ast::IVar;
use crate::ast::Ident;
use crate::ast::LetIVar;
use crate::ast::LetLocal;
use crate::ast::List;
use crate::ast::Local;
use crate::ast::MessageSend;
use crate::ast::MessageSendStmt;
use crate::ast::Number;
use crate::ast::Parameter;
use crate::ast::Return;
use crate::ast::Selector;
use crate::ast::Self_;
use crate::ast::Stmt;
use crate::ast::True;
use crate::error::Error;
use crate::error::ErrorView;
use crate::grammar;
use crate::grammar::Parsed;
use crate::lex::tokens_view;
use crate::lex::Parse;
use crate::lex::Token;
use crate::lex::TokenView;
use crate::Span;

verus! {

/// A cursor into a token sequence.
pub struct ParseStream<'a> {
    pub tokens: &'a Vec<Token<'a>>,
    pub current_position: usize,
}

/// Parses a whole program: statements up to the end of the tokens.
pub fn parse<'a>(tokens: &'a Vec<Token<'a>>) -> (result: Result<Vec<Stmt<'a>>, Error<'a>>)
    ensures
        match grammar::program(tokens_view(tokens@)) {
            Ok(nodes) => result matches Ok(ast) && stmts_view(ast@) == nodes,
            Err(message) => result matches Err(e) && e@ == ErrorView::ParseError(message),
        },
{
    let mut stream = ParseStream::new(tokens);
    let acc = stream.parse_many();
    if !stream.at_eof() {
        Err(Error::ParseError(String::from_str("Expected end of input")))
    } else {
        Ok(acc)
    }
}

impl<'a> ParseStream<'a> {
    /// The tokens as plain values.
    pub open spec fn view(&self) -> Seq<TokenView> {
        tokens_view(self.tokens@)
    }

    /// The cursor is inside the tokens or just behind them.
    pub open spec fn wf(&self) -> bool {
        self.current_position <= self.tokens@.len()
    }

    /// The cursor as a number.
    pub open spec fn pos(&self) -> nat {
        self.current_position as nat
    }

    /// `after` is this stream with the cursor moved.
    pub open spec fn same_tokens(&self, after: &Self) -> bool {
        after.wf() && after.tokens == self.tokens
    }

    /// A cursor before the first of `tokens`.
    pub fn new(tokens: &'a Vec<Token<'a>>) -> (stream: Self)
        ensures
            stream.wf(),
            stream.tokens == tokens,
            stream.current_position == 0,
    {
        Self { tokens, current_position: 0 }
    }

    /// The position of the cursor: how many tokens lie before it.
    pub fn position(&self) -> (position: usize)
        ensures
            position == self.current_position,
    {
        self.current_position
    }

    /// Whether the cursor is behind the last token.
    pub fn at_eof(&self) -> (eof: bool)
        ensures
            eof == (self.current_position >= self.tokens@.len()),
    {
        self.current_position >= self.tokens.len()
    }

    /// Consumes the next token, which has to be of the kind `T`.
    pub fn parse_token<T: Parse<'a>>(&mut self) -> (result: Result<&'a T, Error<'a>>)
        requires
            old(self).wf(),
        ensures
            old(self).same_tokens(final(self)),
            match grammar::expect(old(self)@, old(self).pos(), T::kind()) {
                Parsed::Node { node, end } => result matches Ok(token) && token@ == node
                    && final(self).pos() == end && end == old(self).pos() + 1,
                Parsed::Fail { message, at } => result matches Err(e) && e@
                    == ErrorView::ParseError(message) && final(self).pos() == at,
            },
    {
        let tokens: &'a Vec<Token<'a>> = self.tokens;
        if self.current_position >= tokens.len() {
            let mut message = String::from_str("Expected '");
            message.append(T::debug_name());
            message.append("' but got end of input");
            return Err(Error::ParseError(message));
        }
        let token: &'a Token<'a> = &tokens[self.current_position];
        self.current_position = self.current_position + 1;
        match T::from_token(token) {
            Some(node) => Ok(node),
            None => {
                let mut message = String::from_str("Expected '");
                message.append(T::debug_name());
                message.append("' but got '");
                token.write_to(&mut message);
                message.append("'");
                Err(Error::ParseError(message))
            },
        }
    }

    /// Consumes the next token if it is of the kind `T`; else the cursor
    /// stays.
    pub fn try_parse_token<T: Parse<'a>>(&mut self) -> (result: Option<&'a T>)
        requires
            old(self).wf(),
        ensures
            old(self).same_tokens(final(self)),
            match grammar::expect(old(self)@, old(self).pos(), T::kind()) {
                Parsed::Node { node, end } => result matches Some(token) && token@ == node
                    && final(self).pos() == end && end == old(self).pos() + 1,
                Parsed::Fail { message, at } => result is None && final(self).pos() == old(self).pos(),
            },
    {
        let start_position = self.current_position;
        match self.parse_token::<T>() {
            Ok(token) => Some(token),
            Err(_) => {
                self.current_position = start_position;
                None
            },
        }
    }

    /// Consumes a name token that reads `name`.
    pub fn parse_specific_ident(&mut self, name: &str) -> (result: Result<Ident<'a>, Error<'a>>)
        requires
            old(self).wf(),
        ensures
            old(self).same_tokens(final(self)),
            match grammar::specific_ident(old(self)@, old(self).pos(), name@) {
                Parsed::Node { node, end } => result matches Ok(ident) && ident@ == node
                    && final(self).pos() == end && end == old(self).pos() + 1,
                Parsed::Fail { message, at } => result matches Err(e) && e@
                    == ErrorView::ParseError(message) && final(self).pos() == at,
            },
    {
        let ident = match Ident::parse(self) {
            Ok(ident) => ident,
            Err(e) => {
                return Err(e);
            },
        };
        if crate::text::str_eq(ident.name, name) {
            Ok(ident)
        } else {
            let mut message = String::from_str("Expected class named '");
            message.append(name);
            message.append("' but got '");
            message.append(ident.name);
            message.append("'");
            Err(Error::ParseError(message))
        }
    }

    /// Consumes a class name token that reads `name`.
    pub fn parse_specific_class_name(&mut self, name: &str) -> (result: Result<
        ClassName<'a>,
        Error<'a>,
    >)
        requires
            old(self).wf(),
        ensures
            old(self).same_tokens(final(self)),
            match grammar::specific_class_name(old(self)@, old(self).pos(), name@) {
                Parsed::Node { node, end } => result matches Ok(class_name) && class_name@ == node
                    && final(self).pos() == end && end == old(self).pos() + 1,
                Parsed::Fail { message, at } => result matches Err(e) && e@
                    == ErrorView::ParseError(message) && final(self).pos() == at,
            },
    {
        let class_name = match ClassName::parse(self) {
            Ok(class_name) => class_name,
            Err(e) => {
                return Err(e);
            },
        };
        if crate::text::str_eq(class_name.0.name, name) {
            Ok(class_name)
        } else {
            let mut message = String::from_str("Expected class named '");
            message.append(name);
            message.append("' but got '");
            message.append(class_name.0.name);
            message.append("'");
            Err(Error::ParseError(message))
        }
    }
}

impl<'a> Ident<'a> {
    /// `Ident`: a name token.
    pub fn parse(stream: &mut ParseStream<'a>) -> (result: Result<Self, Error<'a>>)
        requires
            old(stream).wf(),
        ensures
            old(stream).same_tokens(final(stream)),
            match grammar::ident(old(stream)@, old(stream).pos()) {
                Parsed::Node { node, end } => result matches Ok(n) && n@ == node && final(stream).pos() == end && end == old(stream).pos() + 1,
                Parsed::Fail { message, at } => result matches Err(e) && e@
                    == ErrorView::ParseError(message) && final(stream).pos() == at,
            },
    {
        match stream.parse_token::<crate::lex::Name>() {
            Ok(token) => Ok(Ident { name: token.name, span: token.span }),
            Err(e) => Err(e),
        }
    }
}

impl<'a> ClassName<'a> {
    /// `ClassName`: a class name token.
    pub fn parse(stream: &mut ParseStream<'a>) -> (result: Result<Self, Error<'a>>)
        requires
            old(stream).wf(),
        ensures
            old(stream).same_tokens(final(stream)),
            match grammar::class_name(old(stream)@, old(stream).pos()) {
                Parsed::Node { node, end } => result matches Ok(n) && n@ == node && final(stream).pos() == end && end == old(stream).pos() + 1,
                Parsed::Fail { message, at } => result matches Err(e) && e@
                    == ErrorView::ParseError(message) && final(stream).pos() == at,
            },
    {
        match stream.parse_token::<crate::lex::ClassName>() {
            Ok(token) => Ok(ClassName(Ident { name: token.name, span: token.span })),
            Err(e) => Err(e),
        }
    }
}

impl<'a> Selector<'a> {
    /// `Selector := "#" Ident`
    pub fn parse(stream: &mut ParseStream<'a>) -> (result: Result<Self, Error<'a>>)
        requires
            old(stream).wf(),
        ensures
            old(stream).same_tokens(final(stream)),
            match grammar::selector(old(stream)@, old(stream).pos()) {
                Parsed::Node { node, end } => result matches Ok(n) && n@ == node
                    && final(stream).pos() == end && old(stream).pos() < end,
                Parsed::Fail { message, at } => result matches Err(e)
                    && e@ == ErrorView::ParseError(message) && final(stream).pos() == at,
            },
    {
        let start = match stream.parse_token::<crate::lex::Hash>() {
            Ok(token) => token.span,
            Err(e) => {
                return Err(e);
            },
        };
        let ident = match Ident::parse(stream) {
            Ok(node) => node,
            Err(e) => {
                return Err(e);
            },
        };
        Ok(Selector { span: Span::new(start.from, ident.span.to), ident })
    }
}

impl<'a> ClassNameSelector<'a> {
    /// `ClassSelector := "#" ClassName`
    pub fn parse(stream: &mut ParseStream<'a>) -> (result: Result<Self, Error<'a>>)
        requires
            old(stream).wf(),
        ensures
            old(stream).same_tokens(final(stream)),
            match grammar::class_name_selector(old(stream)@, old(stream).pos()) {
                Parsed::Node { node, end } => result matches Ok(n) && n@ == node
                    && final(stream).pos() == end && old(stream).pos() < end,
                Parsed::Fail { message, at } => result matches Err(e)
                    && e@ == ErrorView::ParseError(message) && final(stream).pos() == at,
            },
    {
        let start = match stream.parse_token::<crate::lex::Hash>() {
            Ok(token) => token.span,
            Err(e) => {
                return Err(e);
            },
        };
        let class_name = match ClassName::parse(stream) {
            Ok(node) => node,
            Err(e) => {
                return Err(e);
            },
        };
        Ok(ClassNameSelector { span: Span::new(start.from, class_name.0.span.to), class_name })
    }
}

impl<'a> Parameter<'a> {
    /// `Param := Ident ":"`
    pub fn parse(stream: &mut ParseStream<'a>) -> (result: Result<Self, Error<'a>>)
        requires
            old(stream).wf(),
        ensures
            old(stream).same_tokens(final(stream)),
            match grammar::parameter(old(stream)@, old(stream).pos()) {
                Parsed::Node { node, end } => result matches Ok(n) && n@ == node
                    && final(stream).pos() == end && old(stream).pos() < end,
                Parsed::Fail { message, at } => result matches Err(e)
                    && e@ == ErrorView::ParseError(message) && final(stream).pos() == at,
            },
    {
        let ident = match Ident::parse(stream) {
            Ok(node) => node,
            Err(e) => {
                return Err(e);
            },
        };
        let end = match stream.parse_token::<crate::lex::Colon>() {
            Ok(token) => token.span,
            Err(e) => {
                return Err(e);
            },
        };
        Ok(Parameter { span: Span::new(ident.span.from, end.to), ident })
    }
}

impl<'a> Local<'a> {
    /// `Local := Ident`
    pub fn parse(stream: &mut ParseStream<'a>) -> (result: Result<Self, Error<'a>>)
        requires
            old(stream).wf(),
        ensures
            old(stream).same_tokens(final(stream)),
            match grammar::local(old(stream)@, old(stream).pos()) {
                Parsed::Node { node, end } => result matches Ok(n) && n@ == node
                    && final(stream).pos() == end && end == old(stream).pos() + 1,
                Parsed::Fail { message, at } => result matches Err(e)
                    && e@ == ErrorView::ParseError(message) && final(stream).pos() == at,
            },
    {
        let ident = match Ident::parse(stream) {
            Ok(node) => node,
            Err(e) => {
                return Err(e);
            },
        };
        Ok(Local(ident))
    }
}

impl<'a> IVar<'a> {
    /// `IVar := "@" Ident`
    pub fn parse(stream: &mut ParseStream<'a>) -> (result: Result<Self, Error<'a>>)
        requires
            old(stream).wf(),
        ensures
            old(stream).same_tokens(final(stream)),
            match grammar::ivar(old(stream)@, old(stream).pos()) {
                Parsed::Node { node, end } => result matches Ok(n) && n@ == node
                    && final(stream).pos() == end && old(stream).pos() < end,
                Parsed::Fail { message, at } => result matches Err(e)
                    && e@ == ErrorView::ParseError(message) && final(stream).pos() == at,
            },
    {
        let start = match stream.parse_token::<crate::lex::At>() {
            Ok(token) => token.span,
            Err(e) => {
                return Err(e);
            },
        };
        let ident = match Ident::parse(stream) {
            Ok(node) => node,
            Err(e) => {
                return Err(e);
            },
        };
        Ok(IVar { span: Span::new(start.from, ident.span.to), ident })
    }
}

impl Number {
    /// `Number`: a number token.
    pub fn parse<'a>(stream: &mut ParseStream<'a>) -> (result: Result<Self, Error<'a>>)
        requires
            old(stream).wf(),
        ensures
            old(stream).same_tokens(final(stream)),
            match grammar::number(old(stream)@, old(stream).pos()) {
                Parsed::Node { node, end } => result matches Ok(n) && n@ == node
                    && final(stream).pos() == end && end == old(stream).pos() + 1,
                Parsed::Fail { message, at } => result matches Err(e)
                    && e@ == ErrorView::ParseError(message) && final(stream).pos() == at,
            },
    {
        match stream.parse_token::<crate::lex::Number>() {
            Ok(token) => Ok(Number { number: token.number, span: token.span }),
            Err(e) => Err(e),
        }
    }
}

impl True {
    /// The token `true`.
    pub fn parse<'a>(stream: &mut ParseStream<'a>) -> (result: Result<Self, Error<'a>>)
        requires
            old(stream).wf(),
        ensures
            old(stream).same_tokens(final(stream)),
            match grammar::true_(old(stream)@, old(stream).pos()) {
                Parsed::Node { node, end } => result matches Ok(n) && n@ == node
                    && final(stream).pos() == end && end == old(stream).pos() + 1,
                Parsed::Fail { message, at } => result matches Err(e)
                    && e@ == ErrorView::ParseError(message) && final(stream).pos() == at,
            },
    {
        match stream.parse_token::<crate::lex::True>() {
            Ok(token) => Ok(True(token.span)),
            Err(e) => Err(e),
        }
    }
}

impl False {
    /// The token `false`.
    pub fn parse<'a>(stream: &mut ParseStream<'a>) -> (result: Result<Self, Error<'a>>)
        requires
            old(stream).wf(),
        ensures
            old(stream).same_tokens(final(stream)),
            match grammar::false_(old(stream)@, old(stream).pos()) {
                Parsed::Node { node, end } => result matches Ok(n) && n@ == node
                    && final(stream).pos() == end && end == old(stream).pos() + 1,
                Parsed::Fail { message, at } => result matches Err(e)
                    && e@ == ErrorView::ParseError(message) && final(stream).pos() == at,
            },
    {
        match stream.parse_token::<crate::lex::False>() {
            Ok(token) => Ok(False(token.span)),
            Err(e) => Err(e),
        }
    }
}

impl Self_ {
    /// The token `self`.
    pub fn parse<'a>(stream: &mut ParseStream<'a>) -> (result: Result<Self, Error<'a>>)
        requires
            old(stream).wf(),
        ensures
            old(stream).same_tokens(final(stream)),
            match grammar::self_(old(stream)@, old(stream).pos()) {
                Parsed::Node { node, end } => result matches Ok(n) && n@ == node
                    && final(stream).pos() == end && end == old(stream).pos() + 1,
                Parsed::Fail { message, at } => result matches Err(e)
                    && e@ == ErrorView::ParseError(message) && final(stream).pos() == at,
            },
    {
        match stream.parse_token::<crate::lex::Self_>() {
            Ok(token) => Ok(Self_(token.span)),
            Err(e) => Err(e),
        }
    }
}

impl<'a> DefineClass<'a> {
    /// A class definition: its name, its superclass and its fields.
    pub fn parse(stream: &mut ParseStream<'a>) -> (result: Result<Self, Error<'a>>)
        requires
            old(stream).wf(),
        ensures
            old(stream).same_tokens(final(stream)),
            match grammar::define_class(old(stream)@, old(stream).pos()) {
                Parsed::Node { node, end } => result matches Ok(n) && n@ == node
                    && final(stream).pos() == end && old(stream).pos() < end,
                Parsed::Fail { message, at } => result matches Err(e)
                    && e@ == ErrorView::ParseError(message) && final(stream).pos() == at,
            },
    {
        proof {
            reveal(grammar::define_class);
            reveal(grammar::define_class_tail);
        }
        let start = match stream.parse_token::<crate::lex::OBracket>() {
            Ok(token) => token.span,
            Err(e) => {
                return Err(e);
            },
        };
        match stream.parse_specific_class_name("Class") {
            Ok(_) => {},
            Err(e) => {
                return Err(e);
            },
        }
        match stream.parse_specific_ident("subclass") {
            Ok(_) => {},
            Err(e) => {
                return Err(e);
            },
        }
        match stream.parse_specific_ident("name") {
            Ok(_) => {},
            Err(e) => {
                return Err(e);
            },
        }
        let _name_colon = match stream.parse_token::<crate::lex::Colon>() {
            Ok(token) => token.span,
            Err(e) => {
                return Err(e);
            },
        };
        let name = match ClassNameSelector::parse(stream) {
            Ok(node) => node,
            Err(e) => {
                return Err(e);
            },
        };
        match stream.parse_specific_ident("super") {
            Ok(_) => {},
            Err(e) => {
                return Err(e);
            },
        }
        let _super_colon = match stream.parse_token::<crate::lex::Colon>() {
            Ok(token) => token.span,
            Err(e) => {
                return Err(e);
            },
        };
        let super_class = match ClassNameSelector::parse(stream) {
            Ok(node) => node,
            Err(e) => {
                return Err(e);
            },
        };
        match stream.parse_specific_ident("fields") {
            Ok(_) => {},
            Err(e) => {
                return Err(e);
            },
        }
        let _fields_colon = match stream.parse_token::<crate::lex::Colon>() {
            Ok(token) => token.span,
            Err(e) => {
                return Err(e);
            },
        };
        let _fields_open = match stream.parse_token::<crate::lex::OBracket>() {
            Ok(token) => token.span,
            Err(e) => {
                return Err(e);
            },
        };
        let fields = stream.parse_selectors();
        let _fields_close = match stream.parse_token::<crate::lex::CBracket>() {
            Ok(token) => token.span,
            Err(e) => {
                return Err(e);
            },
        };
        let _close = match stream.parse_token::<crate::lex::CBracket>() {
            Ok(token) => token.span,
            Err(e) => {
                return Err(e);
            },
        };
        let end = match stream.parse_token::<crate::lex::Semicolon>() {
            Ok(token) => token.span,
            Err(e) => {
                return Err(e);
            },
        };
        Ok(DefineClass { name, super_class, fields, span: Span::new(start.from, end.to) })
    }
}

impl<'a> ClassNew<'a> {
    /// `New := "[" ClassName "new" Argument* "]"`
    pub fn parse(stream: &mut ParseStream<'a>) -> (result: Result<Self, Error<'a>>)
        requires
            old(stream).wf(),
        ensures
            old(stream).same_tokens(final(stream)),
            match grammar::class_new(old(stream)@, old(stream).pos()) {
                Parsed::Node { node, end } => result matches Ok(n) && n@ == node
                    && final(stream).pos() == end && old(stream).pos() < end,
                Parsed::Fail { message, at } => result matches Err(e)
                    && e@ == ErrorView::ParseError(message) && final(stream).pos() == at,
            },
        decreases old(stream).tokens@.len() - old(stream).current_position, 1nat,
    {
        let start = match stream.parse_token::<crate::lex::OBracket>() {
            Ok(token) => token.span,
            Err(e) => {
                return Err(e);
            },
        };
        let class_name = match ClassName::parse(stream) {
            Ok(node) => node,
            Err(e) => {
                return Err(e);
            },
        };
        match stream.parse_specific_ident("new") {
            Ok(_) => {},
            Err(e) => {
                return Err(e);
            },
        }
        let args = stream.parse_arguments();
        let end = match stream.parse_token::<crate::lex::CBracket>() {
            Ok(token) => token.span,
            Err(e) => {
                return Err(e);
            },
        };
        Ok(ClassNew { class_name, args, span: Span::new(start.from, end.to) })
    }
}

impl<'a> Argument<'a> {
    /// `Argument := Ident ":" Expr`
    pub fn parse(stream: &mut ParseStream<'a>) -> (result: Result<Self, Error<'a>>)
        requires
            old(stream).wf(),
        ensures
            old(stream).same_tokens(final(stream)),
            match grammar::argument(old(stream)@, old(stream).pos()) {
                Parsed::Node { node, end } => result matches Ok(n) && n@ == node
                    && final(stream).pos() == end && old(stream).pos() < end,
                Parsed::Fail { message, at } => result matches Err(e)
                    && e@ == ErrorView::ParseError(message) && final(stream).pos() == at,
            },
        decreases old(stream).tokens@.len() - old(stream).current_position, 0nat,
    {
        let ident = match Ident::parse(stream) {
            Ok(node) => node,
            Err(e) => {
                return Err(e);
            },
        };
        let _colon = match stream.parse_token::<crate::lex::Colon>() {
            Ok(token) => token.span,
            Err(e) => {
                return Err(e);
            },
        };
        let expr = match Expr::parse(stream) {
            Ok(node) => node,
            Err(e) => {
                return Err(e);
            },
        };
        let end = expr.span();
        Ok(Argument { span: Span::new(ident.span.from, end.to), ident, expr })
    }
}

impl<'a> Block<'a> {
    /// `Block := "|" Param* "|" "{" Stmt* "}"`
    pub fn parse(stream: &mut ParseStream<'a>) -> (result: Result<Self, Error<'a>>)
        requires
            old(stream).wf(),
        ensures
            old(stream).same_tokens(final(stream)),
            match grammar::block(old(stream)@, old(stream).pos()) {
                Parsed::Node { node, end } => result matches Ok(n) && n@ == node
                    && final(stream).pos() == end && old(stream).pos() < end,
                Parsed::Fail { message, at } => result matches Err(e)
                    && e@ == ErrorView::ParseError(message) && final(stream).pos() == at,
            },
        decreases old(stream).tokens@.len() - old(stream).current_position, 1nat,
    {
        let start = match stream.parse_token::<crate::lex::Pipe>() {
            Ok(token) => token.span,
            Err(e) => {
                return Err(e);
            },
        };
        let parameters = stream.parse_parameters();
        let _close = match stream.parse_token::<crate::lex::Pipe>() {
            Ok(token) => token.span,
            Err(e) => {
                return Err(e);
            },
        };
        let _open = match stream.parse_token::<crate::lex::OBrace>() {
            Ok(token) => token.span,
            Err(e) => {
                return Err(e);
            },
        };
        let body = stream.parse_many();
        let end = match stream.parse_token::<crate::lex::CBrace>() {
            Ok(token) => token.span,
            Err(e) => {
                return Err(e);
            },
        };
        Ok(Block { parameters, body, span: Span::new(start.from, end.to) })
    }
}

impl<'a> List<'a> {
    /// `List := "[" Expr ("," Expr)* "]"`, or no item at all.
    pub fn parse(stream: &mut ParseStream<'a>) -> (result: Result<Self, Error<'a>>)
        requires
            old(stream).wf(),
        ensures
            old(stream).same_tokens(final(stream)),
            match grammar::list(old(stream)@, old(stream).pos()) {
                Parsed::Node { node, end } => result matches Ok(n) && n@ == node
                    && final(stream).pos() == end && old(stream).pos() < end,
                Parsed::Fail { message, at } => result matches Err(e)
                    && e@ == ErrorView::ParseError(message) && final(stream).pos() == at,
            },
        decreases old(stream).tokens@.len() - old(stream).current_position, 1nat,
    {
        let start = match stream.parse_token::<crate::lex::OBracket>() {
            Ok(token) => token.span,
            Err(e) => {
                return Err(e);
            },
        };
        let items = stream.parse_many_delimited::<crate::lex::Comma>();
        let end = match stream.parse_token::<crate::lex::CBracket>() {
            Ok(token) => token.span,
            Err(e) => {
                return Err(e);
            },
        };
        Ok(List { items, span: Span::new(start.from, end.to) })
    }
}

impl<'a> MessageSend<'a> {
    /// `MessageSend := "[" Expr Ident Argument* "]"`
    pub fn parse(stream: &mut ParseStream<'a>) -> (result: Result<Self, Error<'a>>)
        requires
            old(stream).wf(),
        ensures
            old(stream).same_tokens(final(stream)),
            match grammar::message_send(old(stream)@, old(stream).pos()) {
                Parsed::Node { node, end } => result matches Ok(n) && n.view() == node
                    && final(stream).pos() == end && old(stream).pos() < end,
                Parsed::Fail { message, at } => result matches Err(e)
                    && e@ == ErrorView::ParseError(message) && final(stream).pos() == at,
            },
        decreases old(stream).tokens@.len() - old(stream).current_position, 1nat,
    {
        let start = match stream.parse_token::<crate::lex::OBracket>() {
            Ok(token) => token.span,
            Err(e) => {
                return Err(e);
            },
        };
        let receiver = match Expr::parse(stream) {
            Ok(node) => node,
            Err(e) => {
                return Err(e);
            },
        };
        let msg = match Ident::parse(stream) {
            Ok(node) => node,
            Err(e) => {
                return Err(e);
            },
        };
        let args = stream.parse_arguments();
        let end = match stream.parse_token::<crate::lex::CBracket>() {
            Ok(token) => token.span,
            Err(e) => {
                return Err(e);
            },
        };
        Ok(MessageSend { receiver, msg, args, span: Span::new(start.from, end.to) })
    }
}

impl<'a> DefineMethod<'a> {
    /// A method definition: the class, the method name and the block that is its body.
    pub fn parse(stream: &mut ParseStream<'a>) -> (result: Result<Self, Error<'a>>)
        requires
            old(stream).wf(),
        ensures
            old(stream).same_tokens(final(stream)),
            match grammar::define_method(old(stream)@, old(stream).pos()) {
                Parsed::Node { node, end } => result matches Ok(n) && n@ == node
                    && final(stream).pos() == end && old(stream).pos() < end,
                Parsed::Fail { message, at } => result matches Err(e)
                    && e@ == ErrorView::ParseError(message) && final(stream).pos() == at,
            },
        decreases old(stream).tokens@.len() - old(stream).current_position, 3nat,
    {
        let start = match stream.parse_token::<crate::lex::OBracket>() {
            Ok(token) => token.span,
            Err(e) => {
                return Err(e);
            },
        };
        let class_name = match ClassName::parse(stream) {
            Ok(node) => node,
            Err(e) => {
                return Err(e);
            },
        };
        match stream.parse_specific_ident("def") {
            Ok(_) => {},
            Err(e) => {
                return Err(e);
            },
        }
        let _def_colon = match stream.parse_token::<crate::lex::Colon>() {
            Ok(token) => token.span,
            Err(e) => {
                return Err(e);
            },
        };
        let method_name = match Selector::parse(stream) {
            Ok(node) => node,
            Err(e) => {
                return Err(e);
            },
        };
        match stream.parse_specific_ident("do") {
            Ok(_) => {},
            Err(e) => {
                return Err(e);
            },
        }
        let _do_colon = match stream.parse_token::<crate::lex::Colon>() {
            Ok(token) => token.span,
            Err(e) => {
                return Err(e);
            },
        };
        let block = match Block::parse(stream) {
            Ok(node) => node,
            Err(e) => {
                return Err(e);
            },
        };
        let _close = match stream.parse_token::<crate::lex::CBracket>() {
            Ok(token) => token.span,
            Err(e) => {
                return Err(e);
            },
        };
        let end = match stream.parse_token::<crate::lex::Semicolon>() {
            Ok(token) => token.span,
            Err(e) => {
                return Err(e);
            },
        };
        Ok(DefineMethod { class_name, method_name, block, span: Span::new(start.from, end.to) })
    }
}

impl<'a> LetLocal<'a> {
    /// `LetLocal := "let" Ident "=" Expr ";"`
    pub fn parse(stream: &mut ParseStream<'a>) -> (result: Result<Self, Error<'a>>)
        requires
            old(stream).wf(),
        ensures
            old(stream).same_tokens(final(stream)),
            match grammar::let_local(old(stream)@, old(stream).pos()) {
                Parsed::Node { node, end } => result matches Ok(n) && n@ == node
                    && final(stream).pos() == end && old(stream).pos() < end,
                Parsed::Fail { message, at } => result matches Err(e)
                    && e@ == ErrorView::ParseError(message) && final(stream).pos() == at,
            },
        decreases old(stream).tokens@.len() - old(stream).current_position, 3nat,
    {
        let start = match stream.parse_token::<crate::lex::Let>() {
            Ok(token) => token.span,
            Err(e) => {
                return Err(e);
            },
        };
        let ident = match Ident::parse(stream) {
            Ok(node) => node,
            Err(e) => {
                return Err(e);
            },
        };
        let _eq = match stream.parse_token::<crate::lex::Eq>() {
            Ok(token) => token.span,
            Err(e) => {
                return Err(e);
            },
        };
        let body = match Expr::parse(stream) {
            Ok(node) => node,
            Err(e) => {
                return Err(e);
            },
        };
        let end = match stream.parse_token::<crate::lex::Semicolon>() {
            Ok(token) => token.span,
            Err(e) => {
                return Err(e);
            },
        };
        Ok(LetLocal { ident, body, span: Span::new(start.from, end.to) })
    }
}

impl<'a> LetIVar<'a> {
    /// `LetIVar := "let" "@" Ident "=" Expr ";"`
    pub fn parse(stream: &mut ParseStream<'a>) -> (result: Result<Self, Error<'a>>)
        requires
            old(stream).wf(),
        ensures
            old(stream).same_tokens(final(stream)),
            match grammar::let_ivar(old(stream)@, old(stream).pos()) {
                Parsed::Node { node, end } => result matches Ok(n) && n@ == node
                    && final(stream).pos() == end && old(stream).pos() < end,
                Parsed::Fail { message, at } => result matches Err(e)
                    && e@ == ErrorView::ParseError(message) && final(stream).pos() == at,
            },
        decreases old(stream).tokens@.len() - old(stream).current_position, 3nat,
    {
        let start = match stream.parse_token::<crate::lex::Let>() {
            Ok(token) => token.span,
            Err(e) => {
                return Err(e);
            },
        };
        let _at = match stream.parse_token::<crate::lex::At>() {
            Ok(token) => token.span,
            Err(e) => {
                return Err(e);
            },
        };
        let ident = match Ident::parse(stream) {
            Ok(node) => node,
            Err(e) => {
                return Err(e);
            },
        };
        let _eq = match stream.parse_token::<crate::lex::Eq>() {
            Ok(token) => token.span,
            Err(e) => {
                return Err(e);
            },
        };
        let body = match Expr::parse(stream) {
            Ok(node) => node,
            Err(e) => {
                return Err(e);
            },
        };
        let end = match stream.parse_token::<crate::lex::Semicolon>() {
            Ok(token) => token.span,
            Err(e) => {
                return Err(e);
            },
        };
        Ok(LetIVar { ident, body, span: Span::new(start.from, end.to) })
    }
}

impl<'a> MessageSendStmt<'a> {
    /// `MessageSendStmt := MessageSend ";"`
    pub fn parse(stream: &mut ParseStream<'a>) -> (result: Result<Self, Error<'a>>)
        requires
            old(stream).wf(),
        ensures
            old(stream).same_tokens(final(stream)),
            match grammar::message_send_stmt(old(stream)@, old(stream).pos()) {
                Parsed::Node { node, end } => result matches Ok(n) && n@ == node
                    && final(stream).pos() == end && old(stream).pos() < end,
                Parsed::Fail { message, at } => result matches Err(e)
                    && e@ == ErrorView::ParseError(message) && final(stream).pos() == at,
            },
        decreases old(stream).tokens@.len() - old(stream).current_position, 3nat,
    {
        let expr = match MessageSend::parse(stream) {
            Ok(node) => node,
            Err(e) => {
                return Err(e);
            },
        };
        let end = match stream.parse_token::<crate::lex::Semicolon>() {
            Ok(token) => token.span,
            Err(e) => {
                return Err(e);
            },
        };
        let start = expr.span;
        Ok(MessageSendStmt { expr, span: Span::new(start.from, end.to) })
    }
}

impl<'a> Return<'a> {
    /// `Return := "return" Expr ";"`
    pub fn parse(stream: &mut ParseStream<'a>) -> (result: Result<Self, Error<'a>>)
        requires
            old(stream).wf(),
        ensures
            old(stream).same_tokens(final(stream)),
            match grammar::return_(old(stream)@, old(stream).pos()) {
                Parsed::Node { node, end } => result matches Ok(n) && n@ == node
                    && final(stream).pos() == end && old(stream).pos() < end,
                Parsed::Fail { message, at } => result matches Err(e)
                    && e@ == ErrorView::ParseError(message) && final(stream).pos() == at,
            },
        decreases old(stream).tokens@.len() - old(stream).current_position, 3nat,
    {
        let start = match stream.parse_token::<crate::lex::Return>() {
            Ok(token) => token.span,
            Err(e) => {
                return Err(e);
            },
        };
        let expr = match Expr::parse(stream) {
            Ok(node) => node,
            Err(e) => {
                return Err(e);
            },
        };
        let end = match stream.parse_token::<crate::lex::Semicolon>() {
            Ok(token) => token.span,
            Err(e) => {
                return Err(e);
            },
        };
        Ok(Return { expr, span: Span::new(start.from, end.to) })
    }
}

impl<'a> Expr<'a> {
    /// An expression: the first of its forms that parses from here.
    pub fn parse(stream: &mut ParseStream<'a>) -> (result: Result<Self, Error<'a>>)
        requires
            old(stream).wf(),
        ensures
            old(stream).same_tokens(final(stream)),
            match grammar::expr(old(stream)@, old(stream).pos()) {
                Parsed::Node { node, end } => result matches Ok(n) && n@ == node
                    && final(stream).pos() == end && old(stream).pos() < end,
                Parsed::Fail { message, at } => result matches Err(e)
                    && e@ == ErrorView::ParseError(message) && final(stream).pos() == at,
            },
        decreases old(stream).tokens@.len() - old(stream).current_position, 2nat,
    {
        let start = stream.current_position;
        match ClassNameSelector::parse(stream) {
            Ok(node) => {
                return Ok(Expr::ClassNameSelector(node));
            },
            Err(_) => {
                stream.current_position = start;
            },
        }
        match ClassNew::parse(stream) {
            Ok(node) => {
                return Ok(Expr::ClassNew(node));
            },
            Err(_) => {
                stream.current_position = start;
            },
        }
        match Local::parse(stream) {
            Ok(node) => {
                return Ok(Expr::Local(node));
            },
            Err(_) => {
                stream.current_position = start;
            },
        }
        match IVar::parse(stream) {
            Ok(node) => {
                return Ok(Expr::IVar(node));
            },
            Err(_) => {
                stream.current_position = start;
            },
        }
        match Selector::parse(stream) {
            Ok(node) => {
                return Ok(Expr::Selector(node));
            },
            Err(_) => {
                stream.current_position = start;
            },
        }
        match Block::parse(stream) {
            Ok(node) => {
                return Ok(Expr::Block(node));
            },
            Err(_) => {
                stream.current_position = start;
            },
        }
        match Number::parse(stream) {
            Ok(node) => {
                return Ok(Expr::Number(node));
            },
            Err(_) => {
                stream.current_position = start;
            },
        }
        match List::parse(stream) {
            Ok(node) => {
                return Ok(Expr::List(node));
            },
            Err(_) => {
                stream.current_position = start;
            },
        }
        match True::parse(stream) {
            Ok(node) => {
                return Ok(Expr::True(node));
            },
            Err(_) => {
                stream.current_position = start;
            },
        }
        match False::parse(stream) {
            Ok(node) => {
                return Ok(Expr::False(node));
            },
            Err(_) => {
                stream.current_position = start;
            },
        }
        match Self_::parse(stream) {
            Ok(node) => {
                return Ok(Expr::Self_(node));
            },
            Err(_) => {
                stream.current_position = start;
            },
        }
        match MessageSend::parse(stream) {
            Ok(node) => {
                return Ok(Expr::MessageSend(Box::new(node)));
            },
            Err(_) => {
                stream.current_position = start;
            },
        }
        Err(Error::ParseError(String::from_str("expr parse failed")))
    }
}

impl<'a> Stmt<'a> {
    /// A statement: the first of its forms that parses from here.
    pub fn parse(stream: &mut ParseStream<'a>) -> (result: Result<Self, Error<'a>>)
        requires
            old(stream).wf(),
        ensures
            old(stream).same_tokens(final(stream)),
            match grammar::stmt(old(stream)@, old(stream).pos()) {
                Parsed::Node { node, end } => result matches Ok(n) && n@ == node
                    && final(stream).pos() == end && old(stream).pos() < end,
                Parsed::Fail { message, at } => result matches Err(e)
                    && e@ == ErrorView::ParseError(message) && final(stream).pos() == at,
            },
        decreases old(stream).tokens@.len() - old(stream).current_position, 4nat,
    {
        let start = stream.current_position;
        match DefineClass::parse(stream) {
            Ok(node) => {
                return Ok(Stmt::DefineClass(node));
            },
            Err(_) => {
                stream.current_position = start;
            },
        }
        match DefineMethod::parse(stream) {
            Ok(node) => {
                return Ok(Stmt::DefineMethod(node));
            },
            Err(_) => {
                stream.current_position = start;
            },
        }
        match LetLocal::parse(stream) {
            Ok(node) => {
                return Ok(Stmt::LetLocal(node));
            },
            Err(_) => {
                stream.current_position = start;
            },
        }
        match LetIVar::parse(stream) {
            Ok(node) => {
                return Ok(Stmt::LetIVar(node));
            },
            Err(_) => {
                stream.current_position = start;
            },
        }
        match MessageSendStmt::parse(stream) {
            Ok(node) => {
                return Ok(Stmt::MessageSend(node));
            },
            Err(_) => {
                stream.current_position = start;
            },
        }
        match Return::parse(stream) {
            Ok(node) => {
                return Ok(Stmt::Return(node));
            },
            Err(_) => {
                stream.current_position = start;
            },
        }
        Err(Error::ParseError(String::from_str("stmt parse failed")))
    }
}

impl<'a> ParseStream<'a> {
    /// Parses one statement.
    pub fn parse_node(&mut self) -> (result: Result<Stmt<'a>, Error<'a>>)
        requires
            old(self).wf(),
        ensures
            old(self).same_tokens(final(self)),
            match grammar::stmt(old(self)@, old(self).pos()) {
                Parsed::Node { node, end } => result matches Ok(n) && n@ == node
                    && final(self).pos() == end && old(self).pos() < end,
                Parsed::Fail { message, at } => result matches Err(e)
                    && e@ == ErrorView::ParseError(message) && final(self).pos() == at,
            },
    {
        Stmt::parse(self)
    }

    /// Parses one statement; where none parses the cursor stays.
    pub fn try_parse_node(&mut self) -> (result: Option<Stmt<'a>>)
        requires
            old(self).wf(),
        ensures
            old(self).same_tokens(final(self)),
            match grammar::stmt(old(self)@, old(self).pos()) {
                Parsed::Node { node, end } => result matches Some(n) && n@ == node
                    && final(self).pos() == end && old(self).pos() < end,
                Parsed::Fail { message, at } => result is None
                    && final(self).pos() == old(self).pos(),
            },
        decreases old(self).tokens@.len() - old(self).current_position, 5nat,
    {
        let start_position = self.current_position;
        match Stmt::parse(self) {
            Ok(node) => Some(node),
            Err(_) => {
                self.current_position = start_position;
                None
            },
        }
    }

    /// Parses statements for as long as one parses.
    pub fn parse_many(&mut self) -> (nodes: Vec<Stmt<'a>>)
        requires
            old(self).wf(),
        ensures
            old(self).same_tokens(final(self)),
            stmts_view(nodes@) == grammar::stmts(old(self)@, old(self).pos()).nodes,
            final(self).pos() == grammar::stmts(old(self)@, old(self).pos()).end,
            old(self).pos() <= final(self).pos(),
        decreases old(self).tokens@.len() - old(self).current_position, 6nat,
    {
        let mut acc: Vec<Stmt<'a>> = Vec::new();
        let ghost t = self@;
        let ghost origin = self.pos();
        assert(stmts_view(acc@) =~= Seq::empty());
        assert(Seq::empty() + grammar::stmts(t, origin).nodes =~= grammar::stmts(
            t,
            origin,
        ).nodes);
        loop
            invariant_except_break
                grammar::stmts(t, origin).nodes == stmts_view(acc@) + grammar::stmts(
                    t,
                    self.pos(),
                ).nodes,
                grammar::stmts(t, origin).end == grammar::stmts(
                    t,
                    self.pos(),
                ).end,
            invariant
                self.wf(),
                self.tokens == old(self).tokens,
                t == self@,
                origin == old(self).pos(),
                origin <= self.pos(),
            ensures
                grammar::stmts(t, origin).nodes == stmts_view(acc@),
                grammar::stmts(t, origin).end == self.pos(),
            decreases self.tokens@.len() - self.current_position,
        {
            if self.at_eof() {
                assert(stmts_view(acc@) + Seq::empty() =~= stmts_view(acc@));
                break ;
            }
            let start = self.current_position;
            match Stmt::parse(self) {
                Ok(node) => {
                    proof {
                        lemma_stmts_view_push(acc@, node);
                        let rest = grammar::stmts(t, self.pos()).nodes;
                        assert(stmts_view(acc@) + (seq![node@] + rest) =~= stmts_view(acc@).push(
                            node@,
                        ) + rest);
                    }
                    acc.push(node);
                },
                Err(_) => {
                    self.current_position = start;
                    assert(stmts_view(acc@) + Seq::empty() =~= stmts_view(acc@));
                    break ;
                },
            }
        }
        acc
    }

    /// Parses arguments for as long as one parses.
    pub fn parse_arguments(&mut self) -> (nodes: Vec<Argument<'a>>)
        requires
            old(self).wf(),
        ensures
            old(self).same_tokens(final(self)),
            arguments_view(nodes@) == grammar::arguments(old(self)@, old(self).pos()).nodes,
            final(self).pos() == grammar::arguments(old(self)@, old(self).pos()).end,
            old(self).pos() <= final(self).pos(),
        decreases old(self).tokens@.len() - old(self).current_position, 1nat,
    {
        let mut acc: Vec<Argument<'a>> = Vec::new();
        let ghost t = self@;
        let ghost origin = self.pos();
        assert(arguments_view(acc@) =~= Seq::empty());
        assert(Seq::empty() + grammar::arguments(t, origin).nodes =~= grammar::arguments(
            t,
            origin,
        ).nodes);
        loop
            invariant_except_break
                grammar::arguments(t, origin).nodes == arguments_view(acc@) + grammar::arguments(
                    t,
                    self.pos(),
                ).nodes,
                grammar::arguments(t, origin).end == grammar::arguments(
                    t,
                    self.pos(),
                ).end,
            invariant
                self.wf(),
                self.tokens == old(self).tokens,
                t == self@,
                origin == old(self).pos(),
                origin <= self.pos(),
            ensures
                grammar::arguments(t, origin).nodes == arguments_view(acc@),
                grammar::arguments(t, origin).end == self.pos(),
            decreases self.tokens@.len() - self.current_position,
        {
            if self.at_eof() {
                assert(arguments_view(acc@) + Seq::empty() =~= arguments_view(acc@));
                break ;
            }
            let start = self.current_position;
            match Argument::parse(self) {
                Ok(node) => {
                    proof {
                        lemma_arguments_view_push(acc@, node);
                        let rest = grammar::arguments(t, self.pos()).nodes;
                        assert(arguments_view(acc@) + (seq![node@] + rest) =~= arguments_view(acc@).push(
                            node@,
                        ) + rest);
                    }
                    acc.push(node);
                },
                Err(_) => {
                    self.current_position = start;
                    assert(arguments_view(acc@) + Seq::empty() =~= arguments_view(acc@));
                    break ;
                },
            }
        }
        acc
    }

    /// Parses parameters for as long as one parses.
    pub fn parse_parameters(&mut self) -> (nodes: Vec<Parameter<'a>>)
        requires
            old(self).wf(),
        ensures
            old(self).same_tokens(final(self)),
            parameters_view(nodes@) == grammar::parameters(old(self)@, old(self).pos()).nodes,
            final(self).pos() == grammar::parameters(old(self)@, old(self).pos()).end,
            old(self).pos() <= final(self).pos(),
    {
        let mut acc: Vec<Parameter<'a>> = Vec::new();
        let ghost t = self@;
        let ghost origin = self.pos();
        assert(parameters_view(acc@) =~= Seq::empty());
        assert(Seq::empty() + grammar::parameters(t, origin).nodes =~= grammar::parameters(
            t,
            origin,
        ).nodes);
        loop
            invariant_except_break
                grammar::parameters(t, origin).nodes == parameters_view(acc@) + grammar::parameters(
                    t,
                    self.pos(),
                ).nodes,
                grammar::parameters(t, origin).end == grammar::parameters(
                    t,
                    self.pos(),
                ).end,
            invariant
                self.wf(),
                self.tokens == old(self).tokens,
                t == self@,
                origin == old(self).pos(),
                origin <= self.pos(),
            ensures
                grammar::parameters(t, origin).nodes == parameters_view(acc@),
                grammar::parameters(t, origin).end == self.pos(),
            decreases self.tokens@.len() - self.current_position,
        {
            if self.at_eof() {
                assert(parameters_view(acc@) + Seq::empty() =~= parameters_view(acc@));
                break ;
            }
            let start = self.current_position;
            match Parameter::parse(self) {
                Ok(node) => {
                    proof {
                        let rest = grammar::parameters(t, self.pos()).nodes;
                        assert(parameters_view(acc@.push(node)) =~= parameters_view(acc@).push(node@));
                        assert(parameters_view(acc@) + (seq![node@] + rest) =~= parameters_view(acc@).push(
                            node@,
                        ) + rest);
                    }
                    acc.push(node);
                },
                Err(_) => {
                    self.current_position = start;
                    assert(parameters_view(acc@) + Seq::empty() =~= parameters_view(acc@));
                    break ;
                },
            }
        }
        acc
    }

    /// Parses selectors for as long as one parses.
    pub fn parse_selectors(&mut self) -> (nodes: Vec<Selector<'a>>)
        requires
            old(self).wf(),
        ensures
            old(self).same_tokens(final(self)),
            selectors_view(nodes@) == grammar::selectors(old(self)@, old(self).pos()).nodes,
            final(self).pos() == grammar::selectors(old(self)@, old(self).pos()).end,
            old(self).pos() <= final(self).pos(),
    {
        let mut acc: Vec<Selector<'a>> = Vec::new();
        let ghost t = self@;
        let ghost origin = self.pos();
        assert(selectors_view(acc@) =~= Seq::empty());
        assert(Seq::empty() + grammar::selectors(t, origin).nodes =~= grammar::selectors(
            t,
            origin,
        ).nodes);
        loop
            invariant_except_break
                grammar::selectors(t, origin).nodes == selectors_view(acc@) + grammar::selectors(
                    t,
                    self.pos(),
                ).nodes,
                grammar::selectors(t, origin).end == grammar::selectors(
                    t,
                    self.pos(),
                ).end,
            invariant
                self.wf(),
                self.tokens == old(self).tokens,
                t == self@,
                origin == old(self).pos(),
                origin <= self.pos(),
            ensures
                grammar::selectors(t, origin).nodes == selectors_view(acc@),
                grammar::selectors(t, origin).end == self.pos(),
            decreases self.tokens@.len() - self.current_position,
        {
            if self.at_eof() {
                assert(selectors_view(acc@) + Seq::empty() =~= selectors_view(acc@));
                break ;
            }
            let start = self.current_position;
            match Selector::parse(self) {
                Ok(node) => {
                    proof {
                        let rest = grammar::selectors(t, self.pos()).nodes;
                        assert(selectors_view(acc@.push(node)) =~= selectors_view(acc@).push(node@));
                        assert(selectors_view(acc@) + (seq![node@] + rest) =~= selectors_view(acc@).push(
                            node@,
                        ) + rest);
                    }
                    acc.push(node);
                },
                Err(_) => {
                    self.current_position = start;
                    assert(selectors_view(acc@) + Seq::empty() =~= selectors_view(acc@));
                    break ;
                },
            }
        }
        acc
    }

    /// Parses expressions with a token of the kind `Sep` between them: after
    /// an expression the list goes on only if the separator follows.
    pub fn parse_many_delimited<Sep: Parse<'a> + 'a>(&mut self) -> (nodes: Vec<Expr<'a>>)
        requires
            old(self).wf(),
        ensures
            old(self).same_tokens(final(self)),
            exprs_view(nodes@) == grammar::exprs_delimited(
                old(self)@,
                old(self).pos(),
                Sep::kind(),
            ).nodes,
            final(self).pos() == grammar::exprs_delimited(
                old(self)@,
                old(self).pos(),
                Sep::kind(),
            ).end,
            old(self).pos() <= final(self).pos(),
        decreases old(self).tokens@.len() - old(self).current_position, 3nat,
    {
        let mut acc: Vec<Expr<'a>> = Vec::new();
        let ghost t = self@;
        let ghost origin = self.pos();
        let ghost separator = Sep::kind();
        assert(exprs_view(acc@) =~= Seq::empty());
        assert(Seq::empty() + grammar::exprs_delimited(t, origin, separator).nodes
            =~= grammar::exprs_delimited(t, origin, separator).nodes);
        loop
            invariant_except_break
                grammar::exprs_delimited(t, origin, separator).nodes == exprs_view(acc@)
                    + grammar::exprs_delimited(t, self.pos(), separator).nodes,
                grammar::exprs_delimited(t, origin, separator).end == grammar::exprs_delimited(
                    t,
                    self.pos(),
                    separator,
                ).end,
            invariant
                self.wf(),
                self.tokens == old(self).tokens,
                t == self@,
                origin == old(self).pos(),
                origin <= self.pos(),
                separator == Sep::kind(),
            ensures
                grammar::exprs_delimited(t, origin, separator).nodes == exprs_view(acc@),
                grammar::exprs_delimited(t, origin, separator).end == self.pos(),
            decreases self.tokens@.len() - self.current_position,
        {
            if self.at_eof() {
                assert(exprs_view(acc@) + Seq::empty() =~= exprs_view(acc@));
                break ;
            }
            let start = self.current_position;
            match Expr::parse(self) {
                Ok(node) => {
                    proof {
                        lemma_exprs_view_push(acc@, node);
                    }
                    let ghost before = exprs_view(acc@);
                    let ghost item = node@;
                    acc.push(node);
                    if self.try_parse_token::<Sep>().is_none() {
                        assert(before + seq![item] =~= before.push(item));
                        break ;
                    }
                    proof {
                        let rest = grammar::exprs_delimited(t, self.pos(), separator).nodes;
                        assert(before + (seq![item] + rest) =~= before.push(item) + rest);
                    }
                },
                Err(_) => {
                    self.current_position = start;
                    assert(exprs_view(acc@) + Seq::empty() =~= exprs_view(acc@));
                    break ;
                },
            }
        }
        acc
    }
}

} // verus!
