//! Tokens and the lexer that cuts source text into them.
//!
//! What each token looks like is written as a regular expression, matched by
//! the `regex` crate.  The lexer decides in which order the expressions are
//! tried, what is skipped, where each token lies in the source and where
//! lexing fails.

use vstd::prelude::*;
use vstd::string::StringSliceAdditionalSpecFns;
use vstd::utf8::decode_utf8;
use vstd::utf8::is_char_boundary;
use crate::error::Error;
use crate::error::ErrorView;
use crate::Span;

verus! {

/// What sort of token a token is.
#[derive(Debug, PartialEq, Eq, Clone, Copy, Structural)]
pub enum TokenKind {
    Let,
    Self_,
    Name,
    ClassName,
    Eq,
    Number,
    Semicolon,
    OBracket,
    CBracket,
    OBrace,
    CBrace,
    OParen,
    CParen,
    Colon,
    At,
    Hash,
    Comma,
    Pipe,
    True,
    False,
    Return,
}

/// The token `let`.
#[derive(Eq, PartialEq, Debug)]
pub struct Let {
    pub span: Span,
}

impl Let {
    pub fn new(span: Span) -> (token: Self)
        ensures
            token.span == span,
    {
        Self { span }
    }
}

/// The token `self`.
#[derive(Eq, PartialEq, Debug)]
pub struct Self_ {
    pub span: Span,
}

impl Self_ {
    pub fn new(span: Span) -> (token: Self)
        ensures
            token.span == span,
    {
        Self { span }
    }
}

/// The token `=`.
#[derive(Eq, PartialEq, Debug)]
pub struct Eq {
    pub span: Span,
}

impl Eq {
    pub fn new(span: Span) -> (token: Self)
        ensures
            token.span == span,
    {
        Self { span }
    }
}

/// The token `;`.
#[derive(Eq, PartialEq, Debug)]
pub struct Semicolon {
    pub span: Span,
}

impl Semicolon {
    pub fn new(span: Span) -> (token: Self)
        ensures
            token.span == span,
    {
        Self { span }
    }
}

/// The token `[`.
#[derive(Eq, PartialEq, Debug)]
pub struct OBracket {
    pub span: Span,
}

impl OBracket {
    pub fn new(span: Span) -> (token: Self)
        ensures
            token.span == span,
    {
        Self { span }
    }
}

/// The token `]`.
#[derive(Eq, PartialEq, Debug)]
pub struct CBracket {
    pub span: Span,
}

impl CBracket {
    pub fn new(span: Span) -> (token: Self)
        ensures
            token.span == span,
    {
        Self { span }
    }
}

/// The token `{`.
#[derive(Eq, PartialEq, Debug)]
pub struct OBrace {
    pub span: Span,
}

impl OBrace {
    pub fn new(span: Span) -> (token: Self)
        ensures
            token.span == span,
    {
        Self { span }
    }
}

/// The token `}`.
#[derive(Eq, PartialEq, Debug)]
pub struct CBrace {
    pub span: Span,
}

impl CBrace {
    pub fn new(span: Span) -> (token: Self)
        ensures
            token.span == span,
    {
        Self { span }
    }
}

/// The token `(`.
#[derive(Eq, PartialEq, Debug)]
pub struct OParen {
    pub span: Span,
}

impl OParen {
    pub fn new(span: Span) -> (token: Self)
        ensures
            token.span == span,
    {
        Self { span }
    }
}

/// The token `)`.
#[derive(Eq, PartialEq, Debug)]
pub struct CParen {
    pub span: Span,
}

impl CParen {
    pub fn new(span: Span) -> (token: Self)
        ensures
            token.span == span,
    {
        Self { span }
    }
}

/// The token `:`.
#[derive(Eq, PartialEq, Debug)]
pub struct Colon {
    pub span: Span,
}

impl Colon {
    pub fn new(span: Span) -> (token: Self)
        ensures
            token.span == span,
    {
        Self { span }
    }
}

/// The token `@`.
#[derive(Eq, PartialEq, Debug)]
pub struct At {
    pub span: Span,
}

impl At {
    pub fn new(span: Span) -> (token: Self)
        ensures
            token.span == span,
    {
        Self { span }
    }
}

/// The token `#`.
#[derive(Eq, PartialEq, Debug)]
pub struct Hash {
    pub span: Span,
}

impl Hash {
    pub fn new(span: Span) -> (token: Self)
        ensures
            token.span == span,
    {
        Self { span }
    }
}

/// The token `,`.
#[derive(Eq, PartialEq, Debug)]
pub struct Comma {
    pub span: Span,
}

impl Comma {
    pub fn new(span: Span) -> (token: Self)
        ensures
            token.span == span,
    {
        Self { span }
    }
}

/// The token `|`.
#[derive(Eq, PartialEq, Debug)]
pub struct Pipe {
    pub span: Span,
}

impl Pipe {
    pub fn new(span: Span) -> (token: Self)
        ensures
            token.span == span,
    {
        Self { span }
    }
}

/// The token `true`.
#[derive(Eq, PartialEq, Debug)]
pub struct True {
    pub span: Span,
}

impl True {
    pub fn new(span: Span) -> (token: Self)
        ensures
            token.span == span,
    {
        Self { span }
    }
}

/// The token `false`.
#[derive(Eq, PartialEq, Debug)]
pub struct False {
    pub span: Span,
}

impl False {
    pub fn new(span: Span) -> (token: Self)
        ensures
            token.span == span,
    {
        Self { span }
    }
}

/// The token `return`.
#[derive(Eq, PartialEq, Debug)]
pub struct Return {
    pub span: Span,
}

impl Return {
    pub fn new(span: Span) -> (token: Self)
        ensures
            token.span == span,
    {
        Self { span }
    }
}

/// An identifier that starts with a lower-case letter.
#[derive(Eq, PartialEq, Debug)]
pub struct Name<'a> {
    pub name: &'a str,
    pub span: Span,
}

impl<'a> Name<'a> {
    pub fn new(name: &'a str, span: Span) -> (token: Self)
        ensures
            token.name == name,
            token.span == span,
    {
        Self { name, span }
    }
}

/// An identifier that starts with an upper-case letter.
#[derive(Eq, PartialEq, Debug)]
pub struct ClassName<'a> {
    pub name: &'a str,
    pub span: Span,
}

impl<'a> ClassName<'a> {
    pub fn new(name: &'a str, span: Span) -> (token: Self)
        ensures
            token.name == name,
            token.span == span,
    {
        Self { name, span }
    }
}

/// An integer literal.
#[derive(Eq, PartialEq, Debug)]
pub struct Number {
    pub number: i32,
    pub span: Span,
}

impl Number {
    pub fn new(number: i32, span: Span) -> (token: Self)
        ensures
            token.number == number,
            token.span == span,
    {
        Self { number, span }
    }
}

/// One token of the source text.
#[derive(Eq, PartialEq, Debug)]
pub enum Token<'a> {
    Let(Let),
    Self_(Self_),
    Name(Name<'a>),
    ClassName(ClassName<'a>),
    Eq(Eq),
    Number(Number),
    Semicolon(Semicolon),
    OBracket(OBracket),
    CBracket(CBracket),
    OBrace(OBrace),
    CBrace(CBrace),
    OParen(OParen),
    CParen(CParen),
    Colon(Colon),
    At(At),
    Hash(Hash),
    Comma(Comma),
    Pipe(Pipe),
    True(True),
    False(False),
    Return(Return),
}

/// A token as plain values: its kind, its text where it is a name, its value
/// where it is a number, and where it lies.
pub struct TokenView {
    pub kind: TokenKind,
    pub name: Seq<char>,
    pub number: i32,
    pub span: Span,
}

/// A kind of token as a type: what the parser asks for when it expects a
/// token of that kind.
pub trait Parse<'a>: Sized {
    /// The kind of token that this type holds.
    spec fn kind() -> TokenKind;

    /// The token as plain values.
    spec fn view(&self) -> TokenView;

    /// How a message names a token of this kind that was expected.
    fn debug_name() -> (name: &'static str)
        ensures
            name@ == Self::kind().debug_name_text(),
    ;

    /// What `token` holds, if it is of this kind.
    fn from_token<'b>(token: &'b Token<'a>) -> (inner: Option<&'b Self>)
        ensures
            match inner {
                Some(held) => token@.kind == Self::kind() && held@ == token@,
                None => token@.kind != Self::kind(),
            },
    ;
}

impl<'a> Parse<'a> for Let {
    open spec fn kind() -> TokenKind {
        TokenKind::Let
    }

    open spec fn view(&self) -> TokenView {
        TokenView { kind: TokenKind::Let, name: Seq::empty(), number: 0, span: self.span }
    }

    fn debug_name() -> (name: &'static str) {
        "let"
    }

    fn from_token<'b>(token: &'b Token<'a>) -> (inner: Option<&'b Self>) {
        if let Token::Let(inner) = token {
            Some(inner)
        } else {
            None
        }
    }
}

impl<'a> Parse<'a> for Self_ {
    open spec fn kind() -> TokenKind {
        TokenKind::Self_
    }

    open spec fn view(&self) -> TokenView {
        TokenView { kind: TokenKind::Self_, name: Seq::empty(), number: 0, span: self.span }
    }

    fn debug_name() -> (name: &'static str) {
        "self"
    }

    fn from_token<'b>(token: &'b Token<'a>) -> (inner: Option<&'b Self>) {
        if let Token::Self_(inner) = token {
            Some(inner)
        } else {
            None
        }
    }
}

impl<'a> Parse<'a> for Name<'a> {
    open spec fn kind() -> TokenKind {
        TokenKind::Name
    }

    open spec fn view(&self) -> TokenView {
        TokenView { kind: TokenKind::Name, name: self.name@, number: 0, span: self.span }
    }

    fn debug_name() -> (name: &'static str) {
        "name"
    }

    fn from_token<'b>(token: &'b Token<'a>) -> (inner: Option<&'b Self>) {
        if let Token::Name(inner) = token {
            Some(inner)
        } else {
            None
        }
    }
}

impl<'a> Parse<'a> for ClassName<'a> {
    open spec fn kind() -> TokenKind {
        TokenKind::ClassName
    }

    open spec fn view(&self) -> TokenView {
        TokenView { kind: TokenKind::ClassName, name: self.name@, number: 0, span: self.span }
    }

    fn debug_name() -> (name: &'static str) {
        "class name"
    }

    fn from_token<'b>(token: &'b Token<'a>) -> (inner: Option<&'b Self>) {
        if let Token::ClassName(inner) = token {
            Some(inner)
        } else {
            None
        }
    }
}

impl<'a> Parse<'a> for Eq {
    open spec fn kind() -> TokenKind {
        TokenKind::Eq
    }

    open spec fn view(&self) -> TokenView {
        TokenView { kind: TokenKind::Eq, name: Seq::empty(), number: 0, span: self.span }
    }

    fn debug_name() -> (name: &'static str) {
        "="
    }

    fn from_token<'b>(token: &'b Token<'a>) -> (inner: Option<&'b Self>) {
        if let Token::Eq(inner) = token {
            Some(inner)
        } else {
            None
        }
    }
}

impl<'a> Parse<'a> for Number {
    open spec fn kind() -> TokenKind {
        TokenKind::Number
    }

    open spec fn view(&self) -> TokenView {
        TokenView { kind: TokenKind::Number, name: Seq::empty(), number: self.number, span: self.span }
    }

    fn debug_name() -> (name: &'static str) {
        "number"
    }

    fn from_token<'b>(token: &'b Token<'a>) -> (inner: Option<&'b Self>) {
        if let Token::Number(inner) = token {
            Some(inner)
        } else {
            None
        }
    }
}

impl<'a> Parse<'a> for Semicolon {
    open spec fn kind() -> TokenKind {
        TokenKind::Semicolon
    }

    open spec fn view(&self) -> TokenView {
        TokenView { kind: TokenKind::Semicolon, name: Seq::empty(), number: 0, span: self.span }
    }

    fn debug_name() -> (name: &'static str) {
        ";"
    }

    fn from_token<'b>(token: &'b Token<'a>) -> (inner: Option<&'b Self>) {
        if let Token::Semicolon(inner) = token {
            Some(inner)
        } else {
            None
        }
    }
}

impl<'a> Parse<'a> for OBracket {
    open spec fn kind() -> TokenKind {
        TokenKind::OBracket
    }

    open spec fn view(&self) -> TokenView {
        TokenView { kind: TokenKind::OBracket, name: Seq::empty(), number: 0, span: self.span }
    }

    fn debug_name() -> (name: &'static str) {
        "["
    }

    fn from_token<'b>(token: &'b Token<'a>) -> (inner: Option<&'b Self>) {
        if let Token::OBracket(inner) = token {
            Some(inner)
        } else {
            None
        }
    }
}

impl<'a> Parse<'a> for CBracket {
    open spec fn kind() -> TokenKind {
        TokenKind::CBracket
    }

    open spec fn view(&self) -> TokenView {
        TokenView { kind: TokenKind::CBracket, name: Seq::empty(), number: 0, span: self.span }
    }

    fn debug_name() -> (name: &'static str) {
        "]"
    }

    fn from_token<'b>(token: &'b Token<'a>) -> (inner: Option<&'b Self>) {
        if let Token::CBracket(inner) = token {
            Some(inner)
        } else {
            None
        }
    }
}

impl<'a> Parse<'a> for OBrace {
    open spec fn kind() -> TokenKind {
        TokenKind::OBrace
    }

    open spec fn view(&self) -> TokenView {
        TokenView { kind: TokenKind::OBrace, name: Seq::empty(), number: 0, span: self.span }
    }

    fn debug_name() -> (name: &'static str) {
        "{"
    }

    fn from_token<'b>(token: &'b Token<'a>) -> (inner: Option<&'b Self>) {
        if let Token::OBrace(inner) = token {
            Some(inner)
        } else {
            None
        }
    }
}

impl<'a> Parse<'a> for CBrace {
    open spec fn kind() -> TokenKind {
        TokenKind::CBrace
    }

    open spec fn view(&self) -> TokenView {
        TokenView { kind: TokenKind::CBrace, name: Seq::empty(), number: 0, span: self.span }
    }

    fn debug_name() -> (name: &'static str) {
        "}"
    }

    fn from_token<'b>(token: &'b Token<'a>) -> (inner: Option<&'b Self>) {
        if let Token::CBrace(inner) = token {
            Some(inner)
        } else {
            None
        }
    }
}

impl<'a> Parse<'a> for OParen {
    open spec fn kind() -> TokenKind {
        TokenKind::OParen
    }

    open spec fn view(&self) -> TokenView {
        TokenView { kind: TokenKind::OParen, name: Seq::empty(), number: 0, span: self.span }
    }

    fn debug_name() -> (name: &'static str) {
        "("
    }

    fn from_token<'b>(token: &'b Token<'a>) -> (inner: Option<&'b Self>) {
        if let Token::OParen(inner) = token {
            Some(inner)
        } else {
            None
        }
    }
}

impl<'a> Parse<'a> for CParen {
    open spec fn kind() -> TokenKind {
        TokenKind::CParen
    }

    open spec fn view(&self) -> TokenView {
        TokenView { kind: TokenKind::CParen, name: Seq::empty(), number: 0, span: self.span }
    }

    fn debug_name() -> (name: &'static str) {
        ")"
    }

    fn from_token<'b>(token: &'b Token<'a>) -> (inner: Option<&'b Self>) {
        if let Token::CParen(inner) = token {
            Some(inner)
        } else {
            None
        }
    }
}

impl<'a> Parse<'a> for Colon {
    open spec fn kind() -> TokenKind {
        TokenKind::Colon
    }

    open spec fn view(&self) -> TokenView {
        TokenView { kind: TokenKind::Colon, name: Seq::empty(), number: 0, span: self.span }
    }

    fn debug_name() -> (name: &'static str) {
        ":"
    }

    fn from_token<'b>(token: &'b Token<'a>) -> (inner: Option<&'b Self>) {
        if let Token::Colon(inner) = token {
            Some(inner)
        } else {
            None
        }
    }
}

impl<'a> Parse<'a> for At {
    open spec fn kind() -> TokenKind {
        TokenKind::At
    }

    open spec fn view(&self) -> TokenView {
        TokenView { kind: TokenKind::At, name: Seq::empty(), number: 0, span: self.span }
    }

    fn debug_name() -> (name: &'static str) {
        "@"
    }

    fn from_token<'b>(token: &'b Token<'a>) -> (inner: Option<&'b Self>) {
        if let Token::At(inner) = token {
            Some(inner)
        } else {
            None
        }
    }
}

impl<'a> Parse<'a> for Hash {
    open spec fn kind() -> TokenKind {
        TokenKind::Hash
    }

    open spec fn view(&self) -> TokenView {
        TokenView { kind: TokenKind::Hash, name: Seq::empty(), number: 0, span: self.span }
    }

    fn debug_name() -> (name: &'static str) {
        "#"
    }

    fn from_token<'b>(token: &'b Token<'a>) -> (inner: Option<&'b Self>) {
        if let Token::Hash(inner) = token {
            Some(inner)
        } else {
            None
        }
    }
}

impl<'a> Parse<'a> for Comma {
    open spec fn kind() -> TokenKind {
        TokenKind::Comma
    }

    open spec fn view(&self) -> TokenView {
        TokenView { kind: TokenKind::Comma, name: Seq::empty(), number: 0, span: self.span }
    }

    fn debug_name() -> (name: &'static str) {
        ","
    }

    fn from_token<'b>(token: &'b Token<'a>) -> (inner: Option<&'b Self>) {
        if let Token::Comma(inner) = token {
            Some(inner)
        } else {
            None
        }
    }
}

impl<'a> Parse<'a> for Pipe {
    open spec fn kind() -> TokenKind {
        TokenKind::Pipe
    }

    open spec fn view(&self) -> TokenView {
        TokenView { kind: TokenKind::Pipe, name: Seq::empty(), number: 0, span: self.span }
    }

    fn debug_name() -> (name: &'static str) {
        "|"
    }

    fn from_token<'b>(token: &'b Token<'a>) -> (inner: Option<&'b Self>) {
        if let Token::Pipe(inner) = token {
            Some(inner)
        } else {
            None
        }
    }
}

impl<'a> Parse<'a> for True {
    open spec fn kind() -> TokenKind {
        TokenKind::True
    }

    open spec fn view(&self) -> TokenView {
        TokenView { kind: TokenKind::True, name: Seq::empty(), number: 0, span: self.span }
    }

    fn debug_name() -> (name: &'static str) {
        "true"
    }

    fn from_token<'b>(token: &'b Token<'a>) -> (inner: Option<&'b Self>) {
        if let Token::True(inner) = token {
            Some(inner)
        } else {
            None
        }
    }
}

impl<'a> Parse<'a> for False {
    open spec fn kind() -> TokenKind {
        TokenKind::False
    }

    open spec fn view(&self) -> TokenView {
        TokenView { kind: TokenKind::False, name: Seq::empty(), number: 0, span: self.span }
    }

    fn debug_name() -> (name: &'static str) {
        "false"
    }

    fn from_token<'b>(token: &'b Token<'a>) -> (inner: Option<&'b Self>) {
        if let Token::False(inner) = token {
            Some(inner)
        } else {
            None
        }
    }
}

impl<'a> Parse<'a> for Return {
    open spec fn kind() -> TokenKind {
        TokenKind::Return
    }

    open spec fn view(&self) -> TokenView {
        TokenView { kind: TokenKind::Return, name: Seq::empty(), number: 0, span: self.span }
    }

    fn debug_name() -> (name: &'static str) {
        "return"
    }

    fn from_token<'b>(token: &'b Token<'a>) -> (inner: Option<&'b Self>) {
        if let Token::Return(inner) = token {
            Some(inner)
        } else {
            None
        }
    }
}

impl TokenKind {
    /// How a message names a token of this kind that was expected.
    pub open spec fn debug_name_text(self) -> Seq<char> {
        match self {
            TokenKind::Let => "let"@,
            TokenKind::Self_ => "self"@,
            TokenKind::Name => "name"@,
            TokenKind::ClassName => "class name"@,
            TokenKind::Eq => "="@,
            TokenKind::Number => "number"@,
            TokenKind::Semicolon => ";"@,
            TokenKind::OBracket => "["@,
            TokenKind::CBracket => "]"@,
            TokenKind::OBrace => "{"@,
            TokenKind::CBrace => "}"@,
            TokenKind::OParen => "("@,
            TokenKind::CParen => ")"@,
            TokenKind::Colon => ":"@,
            TokenKind::At => "@"@,
            TokenKind::Hash => "#"@,
            TokenKind::Comma => ","@,
            TokenKind::Pipe => "|"@,
            TokenKind::True => "true"@,
            TokenKind::False => "false"@,
            TokenKind::Return => "return"@,
        }
    }

    /// How a message names a token of this kind that was expected.
    pub fn debug_name(self) -> (name: &'static str)
        ensures
            name@ == self.debug_name_text(),
    {
        match self {
            TokenKind::Let => "let",
            TokenKind::Self_ => "self",
            TokenKind::Name => "name",
            TokenKind::ClassName => "class name",
            TokenKind::Eq => "=",
            TokenKind::Number => "number",
            TokenKind::Semicolon => ";",
            TokenKind::OBracket => "[",
            TokenKind::CBracket => "]",
            TokenKind::OBrace => "{",
            TokenKind::CBrace => "}",
            TokenKind::OParen => "(",
            TokenKind::CParen => ")",
            TokenKind::Colon => ":",
            TokenKind::At => "@",
            TokenKind::Hash => "#",
            TokenKind::Comma => ",",
            TokenKind::Pipe => "|",
            TokenKind::True => "true",
            TokenKind::False => "false",
            TokenKind::Return => "return",
        }
    }

    /// The regular expression that a token of this kind matches.
    pub open spec fn pattern_text(self) -> Seq<char> {
        match self {
            TokenKind::Let => "\\A(let)"@,
            TokenKind::Self_ => "\\A(self)"@,
            TokenKind::Name => "\\A([a-z][a-zA-Z_]*)"@,
            TokenKind::ClassName => "\\A([A-Z][a-zA-Z_]*)"@,
            TokenKind::Eq => "\\A(=)"@,
            TokenKind::Number => "\\A([0-9]+)"@,
            TokenKind::Semicolon => "\\A(;)"@,
            TokenKind::OBracket => "\\A(\\[)"@,
            TokenKind::CBracket => "\\A(\\])"@,
            TokenKind::OBrace => "\\A(\\{)"@,
            TokenKind::CBrace => "\\A(\\})"@,
            TokenKind::OParen => "\\A(\\()"@,
            TokenKind::CParen => "\\A(\\))"@,
            TokenKind::Colon => "\\A(:)"@,
            TokenKind::At => "\\A(@)"@,
            TokenKind::Hash => "\\A(#)"@,
            TokenKind::Comma => "\\A(,)"@,
            TokenKind::Pipe => "\\A(\\|)"@,
            TokenKind::True => "\\A(true)"@,
            TokenKind::False => "\\A(false)"@,
            TokenKind::Return => "\\A(return)"@,
        }
    }

    /// The regular expression that a token of this kind matches.
    pub fn pattern(self) -> (pattern: &'static str)
        ensures
            pattern@ == self.pattern_text(),
    {
        match self {
            TokenKind::Let => "\\A(let)",
            TokenKind::Self_ => "\\A(self)",
            TokenKind::Name => "\\A([a-z][a-zA-Z_]*)",
            TokenKind::ClassName => "\\A([A-Z][a-zA-Z_]*)",
            TokenKind::Eq => "\\A(=)",
            TokenKind::Number => "\\A([0-9]+)",
            TokenKind::Semicolon => "\\A(;)",
            TokenKind::OBracket => "\\A(\\[)",
            TokenKind::CBracket => "\\A(\\])",
            TokenKind::OBrace => "\\A(\\{)",
            TokenKind::CBrace => "\\A(\\})",
            TokenKind::OParen => "\\A(\\()",
            TokenKind::CParen => "\\A(\\))",
            TokenKind::Colon => "\\A(:)",
            TokenKind::At => "\\A(@)",
            TokenKind::Hash => "\\A(#)",
            TokenKind::Comma => "\\A(,)",
            TokenKind::Pipe => "\\A(\\|)",
            TokenKind::True => "\\A(true)",
            TokenKind::False => "\\A(false)",
            TokenKind::Return => "\\A(return)",
        }
    }

    /// Whether a token of this kind carries the text it was read from.
    pub open spec fn has_name(self) -> bool {
        self == TokenKind::Name || self == TokenKind::ClassName
    }
}

impl<'a> Token<'a> {
    pub open spec fn view(&self) -> TokenView {
        match self {
            Token::Let(inner) => TokenView {
                kind: TokenKind::Let,
                name: Seq::empty(),
                number: 0,
                span: inner.span,
            },
            Token::Self_(inner) => TokenView {
                kind: TokenKind::Self_,
                name: Seq::empty(),
                number: 0,
                span: inner.span,
            },
            Token::Name(inner) => TokenView {
                kind: TokenKind::Name,
                name: inner.name@,
                number: 0,
                span: inner.span,
            },
            Token::ClassName(inner) => TokenView {
                kind: TokenKind::ClassName,
                name: inner.name@,
                number: 0,
                span: inner.span,
            },
            Token::Eq(inner) => TokenView {
                kind: TokenKind::Eq,
                name: Seq::empty(),
                number: 0,
                span: inner.span,
            },
            Token::Number(inner) => TokenView {
                kind: TokenKind::Number,
                name: Seq::empty(),
                number: inner.number,
                span: inner.span,
            },
            Token::Semicolon(inner) => TokenView {
                kind: TokenKind::Semicolon,
                name: Seq::empty(),
                number: 0,
                span: inner.span,
            },
            Token::OBracket(inner) => TokenView {
                kind: TokenKind::OBracket,
                name: Seq::empty(),
                number: 0,
                span: inner.span,
            },
            Token::CBracket(inner) => TokenView {
                kind: TokenKind::CBracket,
                name: Seq::empty(),
                number: 0,
                span: inner.span,
            },
            Token::OBrace(inner) => TokenView {
                kind: TokenKind::OBrace,
                name: Seq::empty(),
                number: 0,
                span: inner.span,
            },
            Token::CBrace(inner) => TokenView {
                kind: TokenKind::CBrace,
                name: Seq::empty(),
                number: 0,
                span: inner.span,
            },
            Token::OParen(inner) => TokenView {
                kind: TokenKind::OParen,
                name: Seq::empty(),
                number: 0,
                span: inner.span,
            },
            Token::CParen(inner) => TokenView {
                kind: TokenKind::CParen,
                name: Seq::empty(),
                number: 0,
                span: inner.span,
            },
            Token::Colon(inner) => TokenView {
                kind: TokenKind::Colon,
                name: Seq::empty(),
                number: 0,
                span: inner.span,
            },
            Token::At(inner) => TokenView {
                kind: TokenKind::At,
                name: Seq::empty(),
                number: 0,
                span: inner.span,
            },
            Token::Hash(inner) => TokenView {
                kind: TokenKind::Hash,
                name: Seq::empty(),
                number: 0,
                span: inner.span,
            },
            Token::Comma(inner) => TokenView {
                kind: TokenKind::Comma,
                name: Seq::empty(),
                number: 0,
                span: inner.span,
            },
            Token::Pipe(inner) => TokenView {
                kind: TokenKind::Pipe,
                name: Seq::empty(),
                number: 0,
                span: inner.span,
            },
            Token::True(inner) => TokenView {
                kind: TokenKind::True,
                name: Seq::empty(),
                number: 0,
                span: inner.span,
            },
            Token::False(inner) => TokenView {
                kind: TokenKind::False,
                name: Seq::empty(),
                number: 0,
                span: inner.span,
            },
            Token::Return(inner) => TokenView {
                kind: TokenKind::Return,
                name: Seq::empty(),
                number: 0,
                span: inner.span,
            },
        }
    }

    /// The kind of the token.
    pub fn kind(&self) -> (kind: TokenKind)
        ensures
            kind == self@.kind,
    {
        match self {
            Token::Let(_) => TokenKind::Let,
            Token::Self_(_) => TokenKind::Self_,
            Token::Name(_) => TokenKind::Name,
            Token::ClassName(_) => TokenKind::ClassName,
            Token::Eq(_) => TokenKind::Eq,
            Token::Number(_) => TokenKind::Number,
            Token::Semicolon(_) => TokenKind::Semicolon,
            Token::OBracket(_) => TokenKind::OBracket,
            Token::CBracket(_) => TokenKind::CBracket,
            Token::OBrace(_) => TokenKind::OBrace,
            Token::CBrace(_) => TokenKind::CBrace,
            Token::OParen(_) => TokenKind::OParen,
            Token::CParen(_) => TokenKind::CParen,
            Token::Colon(_) => TokenKind::Colon,
            Token::At(_) => TokenKind::At,
            Token::Hash(_) => TokenKind::Hash,
            Token::Comma(_) => TokenKind::Comma,
            Token::Pipe(_) => TokenKind::Pipe,
            Token::True(_) => TokenKind::True,
            Token::False(_) => TokenKind::False,
            Token::Return(_) => TokenKind::Return,
        }
    }

    /// Where the token lies in the source text.
    pub fn span(&self) -> (span: Span)
        ensures
            span == self@.span,
    {
        match self {
            Token::Let(inner) => inner.span,
            Token::Self_(inner) => inner.span,
            Token::Name(inner) => inner.span,
            Token::ClassName(inner) => inner.span,
            Token::Eq(inner) => inner.span,
            Token::Number(inner) => inner.span,
            Token::Semicolon(inner) => inner.span,
            Token::OBracket(inner) => inner.span,
            Token::CBracket(inner) => inner.span,
            Token::OBrace(inner) => inner.span,
            Token::CBrace(inner) => inner.span,
            Token::OParen(inner) => inner.span,
            Token::CParen(inner) => inner.span,
            Token::Colon(inner) => inner.span,
            Token::At(inner) => inner.span,
            Token::Hash(inner) => inner.span,
            Token::Comma(inner) => inner.span,
            Token::Pipe(inner) => inner.span,
            Token::True(inner) => inner.span,
            Token::False(inner) => inner.span,
            Token::Return(inner) => inner.span,
        }
    }

    /// Appends to `out` the text that shows this token in a message.
    pub fn write_to(&self, out: &mut String)
        ensures
            final(out)@ == old(out)@ + self@.text(),
    {
        match self {
            Token::Name(inner) => out.append(inner.name),
            Token::ClassName(inner) => out.append(inner.name),
            Token::Number(inner) => crate::text::push_signed_decimal(out, inner.number),
            _ => out.append(self.kind().debug_name()),
        }
    }

    /// The text that shows this token in a message.
    pub fn to_string(&self) -> (text: String)
        ensures
            text@ == self@.text(),
    {
        let mut out = String::new();
        self.write_to(&mut out);
        assert(out@ =~= self@.text());
        out
    }
}

impl TokenView {
    /// The text that shows this token in a message: a name as it was
    /// written, a number in decimal, any other token by its symbol.
    pub open spec fn text(self) -> Seq<char> {
        if self.kind.has_name() {
            self.name
        } else if self.kind == TokenKind::Number {
            crate::text::signed_decimal(self.number as int)
        } else {
            self.kind.debug_name_text()
        }
    }
}

/// The views of `tokens`, one by one.
pub open spec fn tokens_view<'a>(tokens: Seq<Token<'a>>) -> Seq<TokenView> {
    tokens.map_values(|token: Token<'a>| token@)
}

/// The kinds of token in the order in which the lexer tries them.
pub open spec fn scan_order() -> Seq<TokenKind> {
    seq![
        TokenKind::Let,
        TokenKind::Self_,
        TokenKind::Eq,
        TokenKind::OBracket,
        TokenKind::CBracket,
        TokenKind::OParen,
        TokenKind::CParen,
        TokenKind::OBrace,
        TokenKind::CBrace,
        TokenKind::Semicolon,
        TokenKind::Colon,
        TokenKind::At,
        TokenKind::Hash,
        TokenKind::Comma,
        TokenKind::Pipe,
        TokenKind::True,
        TokenKind::False,
        TokenKind::Return,
        TokenKind::ClassName,
        TokenKind::Name,
        TokenKind::Number,
    ]
}

fn kind_in_order(k: usize) -> (kind: TokenKind)
    requires
        k < scan_order().len(),
    ensures
        kind == scan_order()[k as int],
{
    if k == 0 {
        TokenKind::Let
    } else if k == 1 {
        TokenKind::Self_
    } else if k == 2 {
        TokenKind::Eq
    } else if k == 3 {
        TokenKind::OBracket
    } else if k == 4 {
        TokenKind::CBracket
    } else if k == 5 {
        TokenKind::OParen
    } else if k == 6 {
        TokenKind::CParen
    } else if k == 7 {
        TokenKind::OBrace
    } else if k == 8 {
        TokenKind::CBrace
    } else if k == 9 {
        TokenKind::Semicolon
    } else if k == 10 {
        TokenKind::Colon
    } else if k == 11 {
        TokenKind::At
    } else if k == 12 {
        TokenKind::Hash
    } else if k == 13 {
        TokenKind::Comma
    } else if k == 14 {
        TokenKind::Pipe
    } else if k == 15 {
        TokenKind::True
    } else if k == 16 {
        TokenKind::False
    } else if k == 17 {
        TokenKind::Return
    } else if k == 18 {
        TokenKind::ClassName
    } else if k == 19 {
        TokenKind::Name
    } else {
        TokenKind::Number
    }
}

/// The token of kind `kind` that was read from the text `lexeme` at `span`.
pub fn make_token<'a>(kind: TokenKind, lexeme: &'a str, span: Span) -> (token: Option<Token<'a>>)
    ensures
        match token_of(kind, lexeme@, span) {
            Some(view) => token matches Some(t) && t@ == view,
            None => token is None,
        },
{
    match kind {
        TokenKind::Let => Some(Token::Let(Let::new(span))),
        TokenKind::Self_ => Some(Token::Self_(Self_::new(span))),
        TokenKind::Name => Some(Token::Name(Name::new(lexeme, span))),
        TokenKind::ClassName => Some(Token::ClassName(ClassName::new(lexeme, span))),
        TokenKind::Eq => Some(Token::Eq(Eq::new(span))),
        TokenKind::Number => match crate::text::parse_i32(lexeme) {
            Some(number) => Some(Token::Number(Number::new(number, span))),
            None => None,
        },
        TokenKind::Semicolon => Some(Token::Semicolon(Semicolon::new(span))),
        TokenKind::OBracket => Some(Token::OBracket(OBracket::new(span))),
        TokenKind::CBracket => Some(Token::CBracket(CBracket::new(span))),
        TokenKind::OBrace => Some(Token::OBrace(OBrace::new(span))),
        TokenKind::CBrace => Some(Token::CBrace(CBrace::new(span))),
        TokenKind::OParen => Some(Token::OParen(OParen::new(span))),
        TokenKind::CParen => Some(Token::CParen(CParen::new(span))),
        TokenKind::Colon => Some(Token::Colon(Colon::new(span))),
        TokenKind::At => Some(Token::At(At::new(span))),
        TokenKind::Hash => Some(Token::Hash(Hash::new(span))),
        TokenKind::Comma => Some(Token::Comma(Comma::new(span))),
        TokenKind::Pipe => Some(Token::Pipe(Pipe::new(span))),
        TokenKind::True => Some(Token::True(True::new(span))),
        TokenKind::False => Some(Token::False(False::new(span))),
        TokenKind::Return => Some(Token::Return(Return::new(span))),
    }
}

/// How many kinds of token there are.
pub const KIND_COUNT: usize = 21;

/// The end, as a byte offset into `haystack`, of the leftmost match of the
/// regular expression `pattern` in `haystack`; `None` where nothing matches
/// or `pattern` is no regular expression.
pub uninterp spec fn regex_find_end(pattern: Seq<char>, haystack: Seq<char>) -> Option<nat>;

/// Compiles `pattern` with `regex::Regex::new`, searches `haystack` with
/// `Regex::find` and gives `Match::end` of what was found.  Nothing is
/// claimed of the offset but that it is the one the crate computes from these
/// two texts; a pattern that does not compile counts as no match.  The
/// pattern is compiled anew on every call, so that the result is a function
/// of the two texts alone.
#[verifier::external_body]
fn find_end(pattern: &str, haystack: &str) -> (end: Option<usize>)
    ensures
        match end {
            Some(n) => regex_find_end(pattern@, haystack@) == Some(n as nat),
            None => regex_find_end(pattern@, haystack@).is_none(),
        },
{
    match regex::Regex::new(pattern) {
        Ok(re) => match re.find(haystack) {
            Some(found) => Some(found.end()),
            None => None,
        },
        Err(_) => None,
    }
}

/// The expression for a comment: two slashes and the rest of the line.
pub open spec fn comment_pattern_text() -> Seq<char> {
    "^(//[^\\n]*)"@
}

/// The expression for a run of blanks, of newlines or of tabs.
pub open spec fn white_space_pattern_text() -> Seq<char> {
    "^( +|\\n+|\\t+)"@
}

fn comment_pattern() -> (pattern: &'static str)
    ensures
        pattern@ == comment_pattern_text(),
{
    "^(//[^\\n]*)"
}

fn white_space_pattern() -> (pattern: &'static str)
    ensures
        pattern@ == white_space_pattern_text(),
{
    "^( +|\\n+|\\t+)"
}

/// The length of a match that ends at byte offset `end` of the text encoded
/// in `bytes`.  A match counts only if it is not empty, ends inside the text
/// and ends between two characters.
pub open spec fn accepted_end(bytes: Seq<u8>, end: Option<nat>) -> Option<nat> {
    match end {
        Some(n) => if 0 < n <= bytes.len() && is_char_boundary(bytes, n as int) {
            Some(n)
        } else {
            None
        },
        None => None,
    }
}

/// The length in bytes of what `pattern` matches at offset `pos` of the text
/// encoded in `bytes`.
pub open spec fn match_at(pattern: Seq<char>, bytes: Seq<u8>, pos: nat) -> Option<nat> {
    if pos <= bytes.len() {
        let rest = bytes.skip(pos as int);
        accepted_end(rest, regex_find_end(pattern, decode_utf8(rest)))
    } else {
        None
    }
}

/// Cuts `text` at the end of a match: the matched text and the text behind
/// it.  An end that [`accepted_end`] does not accept gives nothing.
pub fn split_match<'a>(text: &'a str, end: Option<usize>) -> (parts: Option<(&'a str, &'a str)>)
    ensures
        match accepted_end(
            text.spec_bytes(),
            match end {
                Some(n) => Some(n as nat),
                None => None,
            },
        ) {
            Some(n) => parts matches Some((head, tail)) && head.spec_bytes()
                == text.spec_bytes().subrange(0, n as int) && tail.spec_bytes()
                == text.spec_bytes().subrange(n as int, text.spec_bytes().len() as int),
            None => parts is None,
        },
{
    proof {
        vstd::utf8::encode_utf8_valid_utf8(text@);
    }
    match end {
        Some(n) => {
            if 0 < n && n <= crate::text::byte_len(text) && text.is_char_boundary(n) {
                Some(text.split_at(n))
            } else {
                None
            }
        },
        None => None,
    }
}

/// The offset at which the comments and white space that start at `pos` end.
pub open spec fn trivia_end(bytes: Seq<u8>, pos: nat) -> nat
    decreases bytes.len() - pos,
{
    match match_at(comment_pattern_text(), bytes, pos) {
        Some(n) => trivia_end(bytes, pos + n),
        None => match match_at(white_space_pattern_text(), bytes, pos) {
            Some(n) => trivia_end(bytes, pos + n),
            None => pos,
        },
    }
}

/// The first kind of token, from the `k`-th of [`scan_order`] on, whose
/// expression matches at `pos`, with the length of the match.
pub open spec fn first_match(bytes: Seq<u8>, pos: nat, k: nat) -> Option<(TokenKind, nat)>
    decreases scan_order().len() - k,
{
    if k >= scan_order().len() {
        None
    } else {
        let kind = scan_order()[k as int];
        match match_at(kind.pattern_text(), bytes, pos) {
            Some(n) => Some((kind, n)),
            None => first_match(bytes, pos, k + 1),
        }
    }
}

/// The token of kind `kind` read from the text `lexeme`: a name keeps the
/// text, a number its value.  There is none where the text is a number that
/// does not fit.
pub open spec fn token_of(kind: TokenKind, lexeme: Seq<char>, span: Span) -> Option<TokenView> {
    if kind == TokenKind::Number {
        match crate::text::parse_i32_spec(lexeme) {
            Some(number) => Some(TokenView { kind, name: Seq::empty(), number, span }),
            None => None,
        }
    } else if kind.has_name() {
        Some(TokenView { kind, name: lexeme, number: 0, span })
    } else {
        Some(TokenView { kind, name: Seq::empty(), number: 0, span })
    }
}

/// What one step of the lexer finds at an offset.
pub enum Step {
    /// A token, and the offset behind it.
    Token { token: TokenView, next: nat },
    /// Only comments and white space were left.
    End { next: nat },
    /// Nothing matches at offset `at`.
    Fail { at: nat },
}

/// One step of the lexer from `pos`: comments and white space are skipped,
/// then the first kind that matches gives the token.
pub open spec fn step_at(bytes: Seq<u8>, pos: nat) -> Step {
    let start = trivia_end(bytes, pos);
    match first_match(bytes, start, 0) {
        Some((kind, n)) => {
            let span = Span { from: start as usize, to: (start + n) as usize };
            let lexeme = decode_utf8(bytes.subrange(start as int, (start + n) as int));
            match token_of(kind, lexeme, span) {
                Some(token) => Step::Token { token, next: start + n },
                None => Step::Fail { at: start },
            }
        },
        None => if start >= bytes.len() {
            Step::End { next: start }
        } else {
            Step::Fail { at: start }
        },
    }
}

/// The tokens of the text encoded in `bytes` from offset `pos` on, or the
/// failure at the first offset where nothing matches.  (A step that finds a
/// token always moves forward; the test on `next` only makes that plain
/// where the definition has to be shown to end.)
pub open spec fn lex_from(bytes: Seq<u8>, pos: nat) -> Result<Seq<TokenView>, ErrorView>
    decreases bytes.len() - pos,
{
    if pos >= bytes.len() {
        Ok(Seq::empty())
    } else {
        match step_at(bytes, pos) {
            Step::Token { token, next } => if pos < next <= bytes.len() {
                match lex_from(bytes, next) {
                    Ok(tokens) => Ok(seq![token] + tokens),
                    Err(error) => Err(error),
                }
            } else {
                Err(ErrorView::LexError { at: pos as usize })
            },
            Step::End { next } => Ok(Seq::empty()),
            Step::Fail { at } => Err(ErrorView::LexError { at: at as usize }),
        }
    }
}

/// Skipping comments and white space never moves backwards nor past the end.
pub proof fn lemma_trivia_end_bounds(bytes: Seq<u8>, pos: nat)
    requires
        pos <= bytes.len(),
    ensures
        pos <= trivia_end(bytes, pos) <= bytes.len(),
    decreases bytes.len() - pos,
{
    match match_at(comment_pattern_text(), bytes, pos) {
        Some(n) => lemma_trivia_end_bounds(bytes, pos + n),
        None => match match_at(white_space_pattern_text(), bytes, pos) {
            Some(n) => lemma_trivia_end_bounds(bytes, pos + n),
            None => {},
        },
    }
}

/// What [`first_match`] finds has one of the kinds, is not empty and ends
/// inside the text.
pub proof fn lemma_first_match_bounds(bytes: Seq<u8>, pos: nat, k: nat)
    ensures
        first_match(bytes, pos, k) matches Some((kind, n)) ==> 0 < n && pos + n <= bytes.len()
            && match_at(kind.pattern_text(), bytes, pos) == Some(n),
    decreases scan_order().len() - k,
{
    if k < scan_order().len() {
        lemma_first_match_bounds(bytes, pos, k + 1);
    }
}

/// The token that a step finds lies where it was read: its span is not
/// empty, starts at or behind the offset of the step and ends at the next
/// offset, inside the text, and the token holds what the text reads there.
pub proof fn lemma_step_span(bytes: Seq<u8>, pos: nat)
    requires
        pos <= bytes.len() <= usize::MAX,
    ensures
        step_at(bytes, pos) matches Step::Token { token, next } ==> {
            &&& pos <= token.span.from < token.span.to <= bytes.len()
            &&& token.span.to == next
            &&& source_of(bytes, token)
        },
{
    lemma_trivia_end_bounds(bytes, pos);
    lemma_first_match_bounds(bytes, trivia_end(bytes, pos), 0);
}

/// Whether `token` holds what the text `bytes` reads within its span: a
/// name is that text, a number is the value of that text.
pub open spec fn source_of(bytes: Seq<u8>, token: TokenView) -> bool {
    let text = decode_utf8(bytes.subrange(token.span.from as int, token.span.to as int));
    &&& token.kind.has_name() ==> token.name == text
    &&& token.kind == TokenKind::Number ==> crate::text::parse_i32_spec(text) == Some(
        token.number,
    )
}

/// Whether the tokens `tokens` lie in the text `bytes` from offset `pos` on,
/// one behind the other, each holding what the text reads within its span.
pub open spec fn spans_in_order(bytes: Seq<u8>, pos: nat, tokens: Seq<TokenView>) -> bool {
    forall|i: int|
        0 <= i < tokens.len() ==> {
            &&& pos <= (#[trigger] tokens[i]).span.from < tokens[i].span.to <= bytes.len()
            &&& i + 1 < tokens.len() ==> tokens[i].span.to <= tokens[i + 1].span.from
            &&& source_of(bytes, tokens[i])
        }
}

/// A token that lies before tokens in order lies in order with them.
proof fn lemma_spans_prepend(
    bytes: Seq<u8>,
    pos: nat,
    token: TokenView,
    next: nat,
    rest: Seq<TokenView>,
)
    requires
        pos <= token.span.from < token.span.to <= bytes.len(),
        token.span.to == next,
        source_of(bytes, token),
        spans_in_order(bytes, next, rest),
    ensures
        spans_in_order(bytes, pos, seq![token] + rest),
{
    let tokens = seq![token] + rest;
    assert forall|i: int| 0 <= i < tokens.len() implies {
        &&& pos <= (#[trigger] tokens[i]).span.from < tokens[i].span.to <= bytes.len()
        &&& i + 1 < tokens.len() ==> tokens[i].span.to <= tokens[i + 1].span.from
        &&& source_of(bytes, tokens[i])
    } by {
        if i > 0 {
            assert(tokens[i] == rest[i - 1]);
            if i + 1 < tokens.len() {
                assert(tokens[i + 1] == rest[i]);
            }
        } else {
            assert(tokens[0] == token);
            if 1 < tokens.len() {
                assert(tokens[1] == rest[0]);
            }
        }
    }
}

/// Every token that lexing gives lies where it was read: its span is not
/// empty and inside the text, the spans follow one another without overlap,
/// a name's text is the source text within its span and a number's value is
/// the value of the source text within its span.
pub proof fn lemma_lex_spans(bytes: Seq<u8>, pos: nat)
    requires
        pos <= bytes.len() <= usize::MAX,
    ensures
        lex_from(bytes, pos) matches Ok(tokens) ==> spans_in_order(bytes, pos, tokens),
    decreases bytes.len() - pos,
{
    if pos < bytes.len() {
        lemma_step_span(bytes, pos);
        let step = step_at(bytes, pos);
        if step is Token {
            let token = step->token;
            let next = step->Token_next;
            if pos < next <= bytes.len() {
                lemma_lex_spans(bytes, next);
                if lex_from(bytes, next) is Ok {
                    let rest = lex_from(bytes, next)->Ok_0;
                    lemma_spans_prepend(bytes, pos, token, next, rest);
                }
            }
        }
    }
}

/// The state of lexing: the text, how far it has been read, and the tokens
/// read so far.
pub struct Lexer<'a> {
    pub program: &'a str,
    pub rest: &'a str,
    pub current_position: usize,
    pub tokens: Vec<Token<'a>>,
}

/// `tokens`, followed by what lexing the rest gave.
pub open spec fn continue_with(
    tokens: Seq<TokenView>,
    rest: Result<Seq<TokenView>, ErrorView>,
) -> Result<Seq<TokenView>, ErrorView> {
    match rest {
        Ok(more) => Ok(tokens + more),
        Err(error) => Err(error),
    }
}

impl<'a> Lexer<'a> {
    /// The bytes of the whole text.
    pub open spec fn bytes(&self) -> Seq<u8> {
        self.program.spec_bytes()
    }

    /// `rest` is the text from `current_position` on.
    pub open spec fn wf(&self) -> bool {
        &&& self.current_position <= self.bytes().len() <= usize::MAX
        &&& self.rest.spec_bytes() == self.bytes().skip(self.current_position as int)
    }

    /// What lexing gives in the end, seen from this state.
    pub open spec fn outcome(&self) -> Result<Seq<TokenView>, ErrorView> {
        continue_with(
            tokens_view(self.tokens@),
            lex_from(self.bytes(), self.current_position as nat),
        )
    }

    /// A lexer at the start of `program`.
    pub fn new(program: &'a str) -> (lexer: Self)
        ensures
            lexer.wf(),
            lexer.program == program,
            lexer.current_position == 0,
            lexer.tokens@.len() == 0,
    {
        let lexer = Self { program, rest: program, current_position: 0, tokens: Vec::new() };
        let _ = crate::text::byte_len(program);
        assert(lexer.bytes().skip(0) =~= lexer.bytes());
        lexer
    }

    /// Cuts `program` into its tokens.
    pub fn lex(program: &'a str) -> (result: Result<Vec<Token<'a>>, Error<'a>>)
        ensures
            match lex_from(program.spec_bytes(), 0) {
                Ok(tokens) => result matches Ok(found) && tokens_view(found@) == tokens,
                Err(error) => result matches Err(e) && e@ == error,
            },
            result matches Ok(found) ==> spans_in_order(
                program.spec_bytes(),
                0,
                tokens_view(found@),
            ),
    {
        let mut lexer = Self::new(program);
        proof {
            lemma_lex_spans(program.spec_bytes(), 0);
        }
        assert(tokens_view(lexer.tokens@) =~= Seq::empty());
        assert(lexer.outcome() == lex_from(program.spec_bytes(), 0)) by {
            match lex_from(program.spec_bytes(), 0) {
                Ok(tokens) => assert(Seq::<TokenView>::empty() + tokens =~= tokens),
                Err(_) => {},
            }
        }
        while !lexer.at_end()
            invariant
                lexer.wf(),
                lexer.program == program,
                lexer.outcome() == lex_from(program.spec_bytes(), 0),
            decreases lexer.bytes().len() - lexer.current_position,
        {
            let ghost before = lexer;
            match lexer.step() {
                Ok(()) => {
                    proof {
                        lemma_step_outcome(before, lexer);
                    }
                },
                Err(error) => {
                    return Err(error);
                },
            }
        }
        assert(tokens_view(lexer.tokens@) + Seq::<TokenView>::empty() =~= tokens_view(
            lexer.tokens@,
        ));
        Ok(lexer.tokens)
    }

    /// Whether the whole text has been read.
    pub fn at_end(&self) -> (end: bool)
        requires
            self.wf(),
        ensures
            end == (self.current_position >= self.bytes().len()),
    {
        self.current_position >= crate::text::byte_len(self.program)
    }

    /// Reads one token, after the comments and white space before it.
    pub fn step(&mut self) -> (result: Result<(), Error<'a>>)
        requires
            old(self).wf(),
        ensures
            final(self).wf(),
            final(self).program == old(self).program,
            match step_at(old(self).bytes(), old(self).current_position as nat) {
                Step::Token { token, next } => result is Ok && final(self).current_position
                    == next && tokens_view(final(self).tokens@) == tokens_view(
                    old(self).tokens@,
                ).push(token),
                Step::End { next } => result is Ok && final(self).current_position == next
                    && final(self).tokens@ == old(self).tokens@,
                Step::Fail { at } => result matches Err(e) && e@ == (ErrorView::LexError {
                    at: at as usize,
                }) && final(self).current_position == at && final(self).tokens@ == old(self).tokens@,
            },
    {
        let ghost bytes = self.bytes();
        let ghost origin = self.current_position as nat;
        loop
            invariant
                self.wf(),
                self.program == old(self).program,
                self.tokens == old(self).tokens,
                bytes == self.bytes(),
                trivia_end(bytes, self.current_position as nat) == trivia_end(bytes, origin),
            ensures
                trivia_end(bytes, origin) == self.current_position,
            decreases bytes.len() - self.current_position,
        {
            if !self.skip(comment_pattern()) {
                if !self.skip(white_space_pattern()) {
                    break ;
                }
            }
        }
        let start = self.current_position;
        let mut k: usize = 0;
        assert(scan_order().len() == KIND_COUNT);
        while k < KIND_COUNT
            invariant
                k <= KIND_COUNT,
                scan_order().len() == KIND_COUNT,
                self.wf(),
                self.program == old(self).program,
                self.tokens == old(self).tokens,
                self.current_position == start,
                bytes == self.bytes(),
                origin == old(self).current_position,
                start == trivia_end(bytes, origin),
                first_match(bytes, start as nat, 0) == first_match(bytes, start as nat, k as nat),
            decreases KIND_COUNT - k,
        {
            let kind = kind_in_order(k);
            match self.scan(kind.pattern()) {
                Some((lexeme, remaining)) => {
                    let n = crate::text::byte_len(lexeme);
                    let span = self.new_span_with_length(n);
                    match make_token(kind, lexeme, span) {
                        Some(token) => {
                            self.tokens.push(token);
                            self.rest = remaining;
                            self.current_position = start + n;
                            assert(tokens_view(self.tokens@) =~= tokens_view(
                                old(self).tokens@,
                            ).push(token@));
                            return Ok(());
                        },
                        None => {
                            return Err(Error::LexError { at: start });
                        },
                    }
                },
                None => {},
            }
            k = k + 1;
        }
        if self.at_end() {
            Ok(())
        } else {
            Err(Error::LexError { at: start })
        }
    }

    /// What `pattern` matches at the current position, and the text behind
    /// the match.
    pub fn scan(&self, pattern: &str) -> (found: Option<(&'a str, &'a str)>)
        requires
            self.wf(),
        ensures
            match match_at(pattern@, self.bytes(), self.current_position as nat) {
                Some(n) => found matches Some((lexeme, remaining)) && lexeme.spec_bytes().len()
                    == n && lexeme@ == decode_utf8(
                    self.bytes().subrange(
                        self.current_position as int,
                        self.current_position + n,
                    ),
                ) && remaining.spec_bytes() == self.bytes().skip(self.current_position + n),
                None => found is None,
            },
    {
        let rest: &'a str = self.rest;
        proof {
            vstd::utf8::encode_utf8_decode_utf8(rest@);
        }
        match split_match(rest, find_end(pattern, rest)) {
            Some((lexeme, remaining)) => {
                proof {
                    let bytes = self.bytes();
                    let pos = self.current_position as int;
                    let n = lexeme.spec_bytes().len() as int;
                    vstd::utf8::encode_utf8_decode_utf8(lexeme@);
                    assert(bytes.skip(pos).subrange(0, n) =~= bytes.subrange(pos, pos + n));
                    assert(bytes.skip(pos).subrange(n, bytes.skip(pos).len() as int)
                        =~= bytes.skip(pos + n));
                }
                Some((lexeme, remaining))
            },
            None => None,
        }
    }

    /// Moves past what `pattern` matches at the current position, if it
    /// matches.
    pub fn skip(&mut self, pattern: &str) -> (skipped: bool)
        requires
            old(self).wf(),
        ensures
            final(self).wf(),
            final(self).program == old(self).program,
            final(self).tokens == old(self).tokens,
            match match_at(pattern@, old(self).bytes(), old(self).current_position as nat) {
                Some(n) => skipped && final(self).current_position == old(self).current_position
                    + n,
                None => !skipped && final(self).current_position == old(self).current_position,
            },
    {
        match self.scan(pattern) {
            Some((lexeme, remaining)) => {
                self.current_position = self.current_position + crate::text::byte_len(lexeme);
                self.rest = remaining;
                true
            },
            None => false,
        }
    }

    /// The span of `len` bytes from the current position on.
    pub fn new_span_with_length(&self, len: usize) -> (span: Span)
        requires
            self.current_position + len <= usize::MAX,
        ensures
            span.from == self.current_position,
            span.to == self.current_position + len,
    {
        Span::new(self.current_position, self.current_position + len)
    }
}

/// A step that succeeds leaves the outcome of lexing as it was, and moves on
/// unless the end was reached before.
proof fn lemma_step_outcome<'a>(before: Lexer<'a>, after: Lexer<'a>)
    requires
        before.wf(),
        before.current_position < before.bytes().len(),
        after.program == before.program,
        match step_at(before.bytes(), before.current_position as nat) {
            Step::Token { token, next } => after.current_position == next && tokens_view(
                after.tokens@,
            ) == tokens_view(before.tokens@).push(token),
            Step::End { next } => after.current_position == next && after.tokens@
                == before.tokens@,
            Step::Fail { at } => false,
        },
    ensures
        after.outcome() == before.outcome(),
        after.current_position > before.current_position,
{
    let bytes = before.bytes();
    let pos = before.current_position as nat;
    lemma_trivia_end_bounds(bytes, pos);
    lemma_first_match_bounds(bytes, trivia_end(bytes, pos), 0);
    match step_at(bytes, pos) {
        Step::Token { token, next } => {
            match lex_from(bytes, next) {
                Ok(more) => {
                    assert(tokens_view(before.tokens@) + (seq![token] + more) =~= tokens_view(
                        before.tokens@,
                    ).push(token) + more);
                },
                Err(_) => {},
            }
        },
        Step::End { next } => {
            assert(tokens_view(before.tokens@) + Seq::<TokenView>::empty() =~= tokens_view(
                before.tokens@,
            ));
        },
        Step::Fail { at } => {},
    }
}

/// Cuts `program` into its tokens: comments and white space are dropped,
/// every other stretch of text becomes the first kind of token whose
/// expression matches there, and the first offset where none matches is the
/// error.  Whatever the expressions match, each token lies in the text where
/// its span says, behind the token before it.
pub fn lex<'a>(program: &'a str) -> (result: Result<Vec<Token<'a>>, Error<'a>>)
    ensures
        match lex_from(program.spec_bytes(), 0) {
            Ok(tokens) => result matches Ok(found) && tokens_view(found@) == tokens,
            Err(error) => result matches Err(e) && e@ == error,
        },
        result matches Ok(found) ==> spans_in_order(program.spec_bytes(), 0, tokens_view(found@)),
{
    Lexer::lex(program)
}

} // verus!
