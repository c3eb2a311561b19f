//! An interpreter for a small class-based, message-passing language.
//!
//! Source text is split into tokens ([`lex`]), tokens are parsed into a
//! syntax tree ([`parse`]), the tree's class and method definitions are
//! collected into a class table ([`prep`]), and the tree is then run against
//! that table ([`interpret`]).
//!
//! Every stage states its result over plain values and is proved against
//! that statement: [`grammar`] says what a token sequence parses to,
//! [`prep`] what class table a program has, and [`semantics`] what a program
//! means.  What these definitions imply is proved beside them, in the proof
//! functions whose names start with `lemma_`.

use vstd::prelude::*;

pub mod text;
pub mod error;
pub mod lex;
pub mod ast;
pub mod grammar;
pub mod parse;
pub mod prep;
pub mod semantics;
pub mod interpret;

verus! {

/// A range of byte offsets into the source text: `from` is the first byte,
/// `to` the byte after the last one.
#[derive(Eq, PartialEq, Hash, Copy, Clone, Debug, Structural)]
pub struct Span {
    pub from: usize,
    pub to: usize,
}

impl Span {
    pub fn new(from: usize, to: usize) -> (span: Self)
        ensures
            span.from == from,
            span.to == to,
    {
        Self { from, to }
    }

    /// The span of the text `s` placed at byte offset `start`.
    pub fn from_with(start: usize, s: &str) -> (span: Self)
        requires
            start + vstd::utf8::encode_utf8(s@).len() <= usize::MAX,
        ensures
            span.from == start,
            span.to == start + vstd::utf8::encode_utf8(s@).len(),
    {
        Self::new(start, start + s.len())
    }

    /// The text that a diagnostic shows for this span: `from`, the word
    /// `to`, and `to`, in decimal.
    pub open spec fn text(self) -> Seq<char> {
        crate::text::decimal(self.from as nat) + " to "@ + crate::text::decimal(self.to as nat)
    }

    /// Appends [`Span::text`] to `out`.
    pub fn write_to(&self, out: &mut String)
        ensures
            final(out)@ == old(out)@ + self.text(),
    {
        crate::text::push_decimal(out, self.from);
        out.append(" to ");
        crate::text::push_decimal(out, self.to);
    }
}

} // verus!
