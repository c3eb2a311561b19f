//! The grammar, as functions from a token sequence and a position to what is
//! parsed there.
//!
//! Every production either gives a node and the position behind it, or fails
//! with a message and the position at which the cursor is left.  Where a node
//! has alternatives they are tried in a fixed order from the same position and
//! the first that parses completely wins.

use vstd::prelude::*;
use crate::ast::ArgumentView;
use crate::ast::BlockView;
use crate::ast::ClassNameSelectorView;
use crate::ast::ClassNewView;
use crate::ast::ExprView;
use crate::ast::IdentView;
use crate::ast::MessageSendView;
use crate::ast::ParameterView;
use crate::ast::SelectorView;
use crate::ast::StmtView;
use crate::lex::TokenKind;
use crate::lex::TokenView;
use crate::Span;

verus! {

/// What parsing a node at a position gives.
pub enum Parsed<V> {
    /// The node, and the position of the first token behind it.
    Node { node: V, end: nat },
    /// Why there is no such node here, and where the cursor stops.
    Fail { message: Seq<char>, at: nat },
}

impl<V> Parsed<V> {
    /// The same failure, for a node of another type.
    pub open spec fn fail<W>(self) -> Parsed<W> {
        Parsed::Fail { message: self->message, at: self->at }
    }
}

/// Several nodes in a row, and the position behind the last of them.
pub struct Many<V> {
    pub nodes: Seq<V>,
    pub end: nat,
}

/// The message for a token of kind `kind` that was expected where `found`
/// stands, or where the input ends.
pub open spec fn expected_message(kind: TokenKind, found: Option<TokenView>) -> Seq<char> {
    match found {
        Some(token) => "Expected '"@ + kind.debug_name_text() + "' but got '"@ + token.text()
            + "'"@,
        None => "Expected '"@ + kind.debug_name_text() + "' but got end of input"@,
    }
}

/// The message for a name or class name that had to read `wanted` and reads
/// `found`.
pub open spec fn specific_message(wanted: Seq<char>, found: Seq<char>) -> Seq<char> {
    "Expected class named '"@ + wanted + "' but got '"@ + found + "'"@
}

/// The span from the start of `first` to the end of `last`.
pub open spec fn join(first: Span, last: Span) -> Span {
    Span { from: first.from, to: last.to }
}

/// The next token, which has to be of kind `kind`.  The cursor moves past
/// the token whether it is or not; at the end of input it stays.
pub open spec fn expect(t: Seq<TokenView>, pos: nat, kind: TokenKind) -> Parsed<TokenView> {
    if pos < t.len() {
        if t[pos as int].kind == kind {
            Parsed::Node { node: t[pos as int], end: pos + 1 }
        } else {
            Parsed::Fail { message: expected_message(kind, Some(t[pos as int])), at: pos + 1 }
        }
    } else {
        Parsed::Fail { message: expected_message(kind, None), at: pos }
    }
}

/// `Ident`: a name token.
pub open spec fn ident(t: Seq<TokenView>, pos: nat) -> Parsed<IdentView> {
    let r = expect(t, pos, TokenKind::Name);
    if r is Fail {
        r.fail()
    } else {
        Parsed::Node { node: IdentView { name: r->node.name, span: r->node.span }, end: r->end }
    }
}

/// `ClassName`: a class name token.
pub open spec fn class_name(t: Seq<TokenView>, pos: nat) -> Parsed<IdentView> {
    let r = expect(t, pos, TokenKind::ClassName);
    if r is Fail {
        r.fail()
    } else {
        Parsed::Node { node: IdentView { name: r->node.name, span: r->node.span }, end: r->end }
    }
}

/// A name token that reads `wanted`.
pub open spec fn specific_ident(t: Seq<TokenView>, pos: nat, wanted: Seq<char>) -> Parsed<
    IdentView,
> {
    let r = ident(t, pos);
    if r is Fail {
        r
    } else if r->node.name == wanted {
        r
    } else {
        Parsed::Fail { message: specific_message(wanted, r->node.name), at: r->end }
    }
}

/// A class name token that reads `wanted`.
pub open spec fn specific_class_name(t: Seq<TokenView>, pos: nat, wanted: Seq<char>) -> Parsed<
    IdentView,
> {
    let r = class_name(t, pos);
    if r is Fail {
        r
    } else if r->node.name == wanted {
        r
    } else {
        Parsed::Fail { message: specific_message(wanted, r->node.name), at: r->end }
    }
}

/// `Selector := "#" Ident`
pub open spec fn selector(t: Seq<TokenView>, pos: nat) -> Parsed<SelectorView> {
    let hash = expect(t, pos, TokenKind::Hash);
    if hash is Fail {
        hash.fail()
    } else {
        let name = ident(t, hash->end);
        if name is Fail {
            name.fail()
        } else {
            Parsed::Node {
                node: SelectorView {
                    ident: name->node,
                    span: join(hash->node.span, name->node.span),
                },
                end: name->end,
            }
        }
    }
}

/// `ClassSelector := "#" ClassName`
pub open spec fn class_name_selector(t: Seq<TokenView>, pos: nat) -> Parsed<
    ClassNameSelectorView,
> {
    let hash = expect(t, pos, TokenKind::Hash);
    if hash is Fail {
        hash.fail()
    } else {
        let name = class_name(t, hash->end);
        if name is Fail {
            name.fail()
        } else {
            Parsed::Node {
                node: ClassNameSelectorView {
                    class_name: name->node,
                    span: join(hash->node.span, name->node.span),
                },
                end: name->end,
            }
        }
    }
}

/// `Param := Ident ":"`
pub open spec fn parameter(t: Seq<TokenView>, pos: nat) -> Parsed<ParameterView> {
    let name = ident(t, pos);
    if name is Fail {
        name.fail()
    } else {
        let colon = expect(t, name->end, TokenKind::Colon);
        if colon is Fail {
            colon.fail()
        } else {
            Parsed::Node {
                node: ParameterView {
                    ident: name->node,
                    span: join(name->node.span, colon->node.span),
                },
                end: colon->end,
            }
        }
    }
}

/// `Local := Ident`
pub open spec fn local(t: Seq<TokenView>, pos: nat) -> Parsed<ExprView> {
    let name = ident(t, pos);
    if name is Fail {
        name.fail()
    } else {
        Parsed::Node { node: ExprView::Local(name->node), end: name->end }
    }
}

/// `IVar := "@" Ident`
pub open spec fn ivar(t: Seq<TokenView>, pos: nat) -> Parsed<ExprView> {
    let at = expect(t, pos, TokenKind::At);
    if at is Fail {
        at.fail()
    } else {
        let name = ident(t, at->end);
        if name is Fail {
            name.fail()
        } else {
            Parsed::Node {
                node: ExprView::IVar {
                    ident: name->node,
                    span: join(at->node.span, name->node.span),
                },
                end: name->end,
            }
        }
    }
}

/// `Number`: a number token.
pub open spec fn number(t: Seq<TokenView>, pos: nat) -> Parsed<ExprView> {
    let r = expect(t, pos, TokenKind::Number);
    if r is Fail {
        r.fail()
    } else {
        Parsed::Node {
            node: ExprView::Number { number: r->node.number, span: r->node.span },
            end: r->end,
        }
    }
}

/// `True`: the token `true`.
pub open spec fn true_(t: Seq<TokenView>, pos: nat) -> Parsed<ExprView> {
    let r = expect(t, pos, TokenKind::True);
    if r is Fail {
        r.fail()
    } else {
        Parsed::Node { node: ExprView::True(r->node.span), end: r->end }
    }
}

/// `False`: the token `false`.
pub open spec fn false_(t: Seq<TokenView>, pos: nat) -> Parsed<ExprView> {
    let r = expect(t, pos, TokenKind::False);
    if r is Fail {
        r.fail()
    } else {
        Parsed::Node { node: ExprView::False(r->node.span), end: r->end }
    }
}

/// `Self`: the token `self`.
pub open spec fn self_(t: Seq<TokenView>, pos: nat) -> Parsed<ExprView> {
    let r = expect(t, pos, TokenKind::Self_);
    if r is Fail {
        r.fail()
    } else {
        Parsed::Node { node: ExprView::Self_(r->node.span), end: r->end }
    }
}

/// `Selector*`: selectors for as long as one parses.
pub open spec fn selectors(t: Seq<TokenView>, pos: nat) -> Many<SelectorView>
    decreases t.len() - pos,
{
    if pos >= t.len() {
        Many { nodes: Seq::empty(), end: pos }
    } else {
        let first = selector(t, pos);
        if first is Fail {
            Many { nodes: Seq::empty(), end: pos }
        } else {
            let rest = selectors(t, first->end);
            Many { nodes: seq![first->node] + rest.nodes, end: rest.end }
        }
    }
}

/// `Param*`: parameters for as long as one parses.
pub open spec fn parameters(t: Seq<TokenView>, pos: nat) -> Many<ParameterView>
    decreases t.len() - pos,
{
    if pos >= t.len() {
        Many { nodes: Seq::empty(), end: pos }
    } else {
        let first = parameter(t, pos);
        if first is Fail {
            Many { nodes: Seq::empty(), end: pos }
        } else {
            let rest = parameters(t, first->end);
            Many { nodes: seq![first->node] + rest.nodes, end: rest.end }
        }
    }
}

/// `DefineClass := "[" "Class" "subclass" "name" ":" ClassSelector "super"
/// ":" ClassSelector "fields" ":" "[" Selector* "]" "]" ";"`
#[verifier::opaque]
pub open spec fn define_class(t: Seq<TokenView>, pos: nat) -> Parsed<StmtView> {
    let open = expect(t, pos, TokenKind::OBracket);
    if open is Fail {
        open.fail()
    } else {
        let class = specific_class_name(t, open->end, "Class"@);
        if class is Fail {
            class.fail()
        } else {
            let subclass = specific_ident(t, class->end, "subclass"@);
            if subclass is Fail {
                subclass.fail()
            } else {
                let name_label = specific_ident(t, subclass->end, "name"@);
                if name_label is Fail {
                    name_label.fail()
                } else {
                    let name_colon = expect(t, name_label->end, TokenKind::Colon);
                    if name_colon is Fail {
                        name_colon.fail()
                    } else {
                        let name = class_name_selector(t, name_colon->end);
                        if name is Fail {
                            name.fail()
                        } else {
                            define_class_tail(t, name->end, open->node.span, name->node)
                        }
                    }
                }
            }
        }
    }
}

/// The part of a class definition from `super` on.
#[verifier::opaque]
pub open spec fn define_class_tail(
    t: Seq<TokenView>,
    pos: nat,
    start: Span,
    name: ClassNameSelectorView,
) -> Parsed<StmtView> {
    let super_label = specific_ident(t, pos, "super"@);
    if super_label is Fail {
        super_label.fail()
    } else {
        let super_colon = expect(t, super_label->end, TokenKind::Colon);
        if super_colon is Fail {
            super_colon.fail()
        } else {
            let super_class = class_name_selector(t, super_colon->end);
            if super_class is Fail {
                super_class.fail()
            } else {
                let fields_label = specific_ident(t, super_class->end, "fields"@);
                if fields_label is Fail {
                    fields_label.fail()
                } else {
                    let fields_colon = expect(t, fields_label->end, TokenKind::Colon);
                    if fields_colon is Fail {
                        fields_colon.fail()
                    } else {
                        let fields_open = expect(t, fields_colon->end, TokenKind::OBracket);
                        if fields_open is Fail {
                            fields_open.fail()
                        } else {
                            let fields = selectors(t, fields_open->end);
                            let fields_close = expect(t, fields.end, TokenKind::CBracket);
                            if fields_close is Fail {
                                fields_close.fail()
                            } else {
                                let close = expect(t, fields_close->end, TokenKind::CBracket);
                                if close is Fail {
                                    close.fail()
                                } else {
                                    let semi = expect(t, close->end, TokenKind::Semicolon);
                                    if semi is Fail {
                                        semi.fail()
                                    } else {
                                        Parsed::Node {
                                            node: StmtView::DefineClass {
                                                name,
                                                super_class: super_class->node,
                                                fields: fields.nodes,
                                                span: join(start, semi->node.span),
                                            },
                                            end: semi->end,
                                        }
                                    }
                                }
                            }
                        }
                    }
                }
            }
        }
    }
}

/// `Expr := ClassSelector | New | Local | IVar | Selector | Block | Number |
/// List | True | False | Self | MessageSend`, the first that parses.
pub open spec fn expr(t: Seq<TokenView>, pos: nat) -> Parsed<ExprView>
    decreases t.len() - pos, 2nat,
{
    if class_name_selector(t, pos) is Node {
        Parsed::Node {
            node: ExprView::ClassNameSelector(class_name_selector(t, pos)->node),
            end: class_name_selector(t, pos)->end,
        }
    } else if class_new(t, pos) is Node {
        Parsed::Node { node: ExprView::ClassNew(class_new(t, pos)->node), end: class_new(t, pos)->end }
    } else if local(t, pos) is Node {
        local(t, pos)
    } else if ivar(t, pos) is Node {
        ivar(t, pos)
    } else if selector(t, pos) is Node {
        Parsed::Node { node: ExprView::Selector(selector(t, pos)->node), end: selector(t, pos)->end }
    } else if block(t, pos) is Node {
        Parsed::Node { node: ExprView::Block(block(t, pos)->node), end: block(t, pos)->end }
    } else if number(t, pos) is Node {
        number(t, pos)
    } else if list(t, pos) is Node {
        list(t, pos)
    } else if true_(t, pos) is Node {
        true_(t, pos)
    } else if false_(t, pos) is Node {
        false_(t, pos)
    } else if self_(t, pos) is Node {
        self_(t, pos)
    } else if message_send(t, pos) is Node {
        Parsed::Node {
            node: ExprView::MessageSend(message_send(t, pos)->node),
            end: message_send(t, pos)->end,
        }
    } else {
        Parsed::Fail { message: "expr parse failed"@, at: pos }
    }
}

/// `New := "[" ClassName "new" Argument* "]"`
pub open spec fn class_new(t: Seq<TokenView>, pos: nat) -> Parsed<ClassNewView>
    decreases t.len() - pos, 1nat,
{
    let open = expect(t, pos, TokenKind::OBracket);
    if open is Fail {
        open.fail()
    } else {
        let class = class_name(t, open->end);
        if class is Fail {
            class.fail()
        } else {
            let new = specific_ident(t, class->end, "new"@);
            if new is Fail {
                new.fail()
            } else {
                let args = arguments(t, new->end);
                let close = expect(t, args.end, TokenKind::CBracket);
                if close is Fail {
                    close.fail()
                } else {
                    Parsed::Node {
                        node: ClassNewView {
                            class_name: class->node,
                            args: args.nodes,
                            span: join(open->node.span, close->node.span),
                        },
                        end: close->end,
                    }
                }
            }
        }
    }
}

/// `Argument := Ident ":" Expr`
pub open spec fn argument(t: Seq<TokenView>, pos: nat) -> Parsed<ArgumentView>
    decreases t.len() - pos, 0nat,
{
    let name = ident(t, pos);
    if name is Fail {
        name.fail()
    } else {
        let colon = expect(t, name->end, TokenKind::Colon);
        if colon is Fail {
            colon.fail()
        } else {
            let value = expr(t, colon->end);
            if value is Fail {
                value.fail()
            } else {
                Parsed::Node {
                    node: ArgumentView {
                        ident: name->node,
                        expr: value->node,
                        span: join(name->node.span, value->node.span()),
                    },
                    end: value->end,
                }
            }
        }
    }
}

/// `Argument*`: arguments for as long as one parses.  (An argument that
/// parses always ends behind its start; the test on its end only makes that
/// plain where the definition has to be shown to end.  The same test stands
/// in the other repetitions and before the repetitions inside a block and a
/// message send.)
pub open spec fn arguments(t: Seq<TokenView>, pos: nat) -> Many<ArgumentView>
    decreases t.len() - pos, 1nat,
{
    if pos >= t.len() {
        Many { nodes: Seq::empty(), end: pos }
    } else {
        let first = argument(t, pos);
        if first is Node && pos < first->end <= t.len() {
            let rest = arguments(t, first->end);
            Many { nodes: seq![first->node] + rest.nodes, end: rest.end }
        } else {
            Many { nodes: Seq::empty(), end: pos }
        }
    }
}

/// `Block := "|" Param* "|" "{" Stmt* "}"`
pub open spec fn block(t: Seq<TokenView>, pos: nat) -> Parsed<BlockView>
    decreases t.len() - pos, 1nat,
{
    let open = expect(t, pos, TokenKind::Pipe);
    if open is Fail {
        open.fail()
    } else {
        let params = parameters(t, open->end);
        let close = expect(t, params.end, TokenKind::Pipe);
        if close is Fail {
            close.fail()
        } else {
            let brace = expect(t, close->end, TokenKind::OBrace);
            if brace is Fail {
                brace.fail()
            } else if !(pos < brace->end <= t.len()) {
                Parsed::Fail { message: "stmt parse failed"@, at: brace->end }
            } else {
                let body = stmts(t, brace->end);
                let end = expect(t, body.end, TokenKind::CBrace);
                if end is Fail {
                    end.fail()
                } else {
                    Parsed::Node {
                        node: BlockView {
                            parameters: params.nodes,
                            body: body.nodes,
                            span: join(open->node.span, end->node.span),
                        },
                        end: end->end,
                    }
                }
            }
        }
    }
}

/// `List := "[" Expr ("," Expr)* "]"`, or no item at all.
pub open spec fn list(t: Seq<TokenView>, pos: nat) -> Parsed<ExprView>
    decreases t.len() - pos, 1nat,
{
    let open = expect(t, pos, TokenKind::OBracket);
    if open is Fail {
        open.fail()
    } else {
        let items = exprs_delimited(t, open->end, TokenKind::Comma);
        let close = expect(t, items.end, TokenKind::CBracket);
        if close is Fail {
            close.fail()
        } else {
            Parsed::Node {
                node: ExprView::List {
                    items: items.nodes,
                    span: join(open->node.span, close->node.span),
                },
                end: close->end,
            }
        }
    }
}

/// Expressions with a `separator` token after each but the last: after an
/// expression the list goes on only if the separator follows.
pub open spec fn exprs_delimited(t: Seq<TokenView>, pos: nat, separator: TokenKind) -> Many<
    ExprView,
>
    decreases t.len() - pos, 3nat,
{
    if pos >= t.len() {
        Many { nodes: Seq::empty(), end: pos }
    } else {
        let first = expr(t, pos);
        if first is Node && pos < first->end <= t.len() {
            if expect(t, first->end, separator) is Node {
                let rest = exprs_delimited(t, first->end + 1, separator);
                Many { nodes: seq![first->node] + rest.nodes, end: rest.end }
            } else {
                Many { nodes: seq![first->node], end: first->end }
            }
        } else {
            Many { nodes: Seq::empty(), end: pos }
        }
    }
}

/// `MessageSend := "[" Expr Ident Argument* "]"`
pub open spec fn message_send(t: Seq<TokenView>, pos: nat) -> Parsed<MessageSendView>
    decreases t.len() - pos, 1nat,
{
    let open = expect(t, pos, TokenKind::OBracket);
    if open is Fail {
        open.fail()
    } else {
        let receiver = expr(t, open->end);
        if receiver is Fail {
            receiver.fail()
        } else {
            let msg = ident(t, receiver->end);
            if msg is Fail {
                msg.fail()
            } else if !(pos < msg->end <= t.len()) {
                Parsed::Fail { message: "expr parse failed"@, at: msg->end }
            } else {
                let args = arguments(t, msg->end);
                let close = expect(t, args.end, TokenKind::CBracket);
                if close is Fail {
                    close.fail()
                } else {
                    Parsed::Node {
                        node: MessageSendView {
                            receiver: Box::new(receiver->node),
                            msg: msg->node,
                            args: args.nodes,
                            span: join(open->node.span, close->node.span),
                        },
                        end: close->end,
                    }
                }
            }
        }
    }
}

/// `Stmt := DefineClass | DefineMethod | LetLocal | LetIVar | MessageSendStmt
/// | Return`, the first that parses.
pub open spec fn stmt(t: Seq<TokenView>, pos: nat) -> Parsed<StmtView>
    decreases t.len() - pos, 4nat,
{
    if define_class(t, pos) is Node {
        define_class(t, pos)
    } else if define_method(t, pos) is Node {
        define_method(t, pos)
    } else if let_local(t, pos) is Node {
        let_local(t, pos)
    } else if let_ivar(t, pos) is Node {
        let_ivar(t, pos)
    } else if message_send_stmt(t, pos) is Node {
        message_send_stmt(t, pos)
    } else if return_(t, pos) is Node {
        return_(t, pos)
    } else {
        Parsed::Fail { message: "stmt parse failed"@, at: pos }
    }
}

/// `DefineMethod := "[" ClassName "def" ":" Selector "do" ":" Block "]" ";"`
pub open spec fn define_method(t: Seq<TokenView>, pos: nat) -> Parsed<StmtView>
    decreases t.len() - pos, 3nat,
{
    let open = expect(t, pos, TokenKind::OBracket);
    if open is Fail {
        open.fail()
    } else {
        let class = class_name(t, open->end);
        if class is Fail {
            class.fail()
        } else {
            let def = specific_ident(t, class->end, "def"@);
            if def is Fail {
                def.fail()
            } else {
                let def_colon = expect(t, def->end, TokenKind::Colon);
                if def_colon is Fail {
                    def_colon.fail()
                } else {
                    let method_name = selector(t, def_colon->end);
                    if method_name is Fail {
                        method_name.fail()
                    } else {
                        let do_label = specific_ident(t, method_name->end, "do"@);
                        if do_label is Fail {
                            do_label.fail()
                        } else {
                            let do_colon = expect(t, do_label->end, TokenKind::Colon);
                            if do_colon is Fail {
                                do_colon.fail()
                            } else {
                                let body = block(t, do_colon->end);
                                if body is Fail {
                                    body.fail()
                                } else {
                                    let close = expect(t, body->end, TokenKind::CBracket);
                                    if close is Fail {
                                        close.fail()
                                    } else {
                                        let semi = expect(t, close->end, TokenKind::Semicolon);
                                        if semi is Fail {
                                            semi.fail()
                                        } else {
                                            Parsed::Node {
                                                node: StmtView::DefineMethod {
                                                    class_name: class->node,
                                                    method_name: method_name->node,
                                                    block: body->node,
                                                    span: join(open->node.span, semi->node.span),
                                                },
                                                end: semi->end,
                                            }
                                        }
                                    }
                                }
                            }
                        }
                    }
                }
            }
        }
    }
}

/// `LetLocal := "let" Ident "=" Expr ";"`
pub open spec fn let_local(t: Seq<TokenView>, pos: nat) -> Parsed<StmtView>
    decreases t.len() - pos, 3nat,
{
    let start = expect(t, pos, TokenKind::Let);
    if start is Fail {
        start.fail()
    } else {
        let name = ident(t, start->end);
        if name is Fail {
            name.fail()
        } else {
            let eq = expect(t, name->end, TokenKind::Eq);
            if eq is Fail {
                eq.fail()
            } else {
                let body = expr(t, eq->end);
                if body is Fail {
                    body.fail()
                } else {
                    let semi = expect(t, body->end, TokenKind::Semicolon);
                    if semi is Fail {
                        semi.fail()
                    } else {
                        Parsed::Node {
                            node: StmtView::LetLocal {
                                ident: name->node,
                                body: body->node,
                                span: join(start->node.span, semi->node.span),
                            },
                            end: semi->end,
                        }
                    }
                }
            }
        }
    }
}

/// `LetIVar := "let" "@" Ident "=" Expr ";"`
pub open spec fn let_ivar(t: Seq<TokenView>, pos: nat) -> Parsed<StmtView>
    decreases t.len() - pos, 3nat,
{
    let start = expect(t, pos, TokenKind::Let);
    if start is Fail {
        start.fail()
    } else {
        let at = expect(t, start->end, TokenKind::At);
        if at is Fail {
            at.fail()
        } else {
            let name = ident(t, at->end);
            if name is Fail {
                name.fail()
            } else {
                let eq = expect(t, name->end, TokenKind::Eq);
                if eq is Fail {
                    eq.fail()
                } else {
                    let body = expr(t, eq->end);
                    if body is Fail {
                        body.fail()
                    } else {
                        let semi = expect(t, body->end, TokenKind::Semicolon);
                        if semi is Fail {
                            semi.fail()
                        } else {
                            Parsed::Node {
                                node: StmtView::LetIVar {
                                    ident: name->node,
                                    body: body->node,
                                    span: join(start->node.span, semi->node.span),
                                },
                                end: semi->end,
                            }
                        }
                    }
                }
            }
        }
    }
}

/// `MessageSendStmt := MessageSend ";"`
pub open spec fn message_send_stmt(t: Seq<TokenView>, pos: nat) -> Parsed<StmtView>
    decreases t.len() - pos, 3nat,
{
    let send = message_send(t, pos);
    if send is Fail {
        send.fail()
    } else {
        let semi = expect(t, send->end, TokenKind::Semicolon);
        if semi is Fail {
            semi.fail()
        } else {
            Parsed::Node {
                node: StmtView::MessageSend {
                    expr: send->node,
                    span: join(send->node.span, semi->node.span),
                },
                end: semi->end,
            }
        }
    }
}

/// `Return := "return" Expr ";"`
pub open spec fn return_(t: Seq<TokenView>, pos: nat) -> Parsed<StmtView>
    decreases t.len() - pos, 3nat,
{
    let start = expect(t, pos, TokenKind::Return);
    if start is Fail {
        start.fail()
    } else {
        let value = expr(t, start->end);
        if value is Fail {
            value.fail()
        } else {
            let semi = expect(t, value->end, TokenKind::Semicolon);
            if semi is Fail {
                semi.fail()
            } else {
                Parsed::Node {
                    node: StmtView::Return {
                        expr: value->node,
                        span: join(start->node.span, semi->node.span),
                    },
                    end: semi->end,
                }
            }
        }
    }
}

/// `Stmt*`: statements for as long as one parses.
pub open spec fn stmts(t: Seq<TokenView>, pos: nat) -> Many<StmtView>
    decreases t.len() - pos, 5nat,
{
    if pos >= t.len() {
        Many { nodes: Seq::empty(), end: pos }
    } else {
        let first = stmt(t, pos);
        if first is Node && pos < first->end <= t.len() {
            let rest = stmts(t, first->end);
            Many { nodes: seq![first->node] + rest.nodes, end: rest.end }
        } else {
            Many { nodes: Seq::empty(), end: pos }
        }
    }
}

/// A whole program: statements up to the end of input.  Tokens left over are
/// a failure.
pub open spec fn program(t: Seq<TokenView>) -> Result<Seq<StmtView>, Seq<char>> {
    let all = stmts(t, 0);
    if all.end >= t.len() {
        Ok(all.nodes)
    } else {
        Err("Expected end of input"@)
    }
}

/// A leaf of the tree is its token: an identifier, a class name, a number,
/// `true`, `false` and `self` carry the text, the value and the span of the
/// one token they were read from.
pub proof fn lemma_leaf_is_its_token(t: Seq<TokenView>, pos: nat)
    ensures
        ident(t, pos) matches Parsed::Node { node, end } ==> pos < t.len() && end == pos + 1
            && node.name == t[pos as int].name && node.span == t[pos as int].span,
        class_name(t, pos) matches Parsed::Node { node, end } ==> pos < t.len() && end == pos + 1
            && node.name == t[pos as int].name && node.span == t[pos as int].span,
        local(t, pos) matches Parsed::Node { node, end } ==> pos < t.len() && end == pos + 1
            && node == ExprView::Local(
            IdentView { name: t[pos as int].name, span: t[pos as int].span },
        ),
        number(t, pos) matches Parsed::Node { node, end } ==> pos < t.len() && end == pos + 1
            && node == (ExprView::Number {
            number: t[pos as int].number,
            span: t[pos as int].span,
        }),
        true_(t, pos) matches Parsed::Node { node, end } ==> pos < t.len() && end == pos + 1
            && node == ExprView::True(t[pos as int].span),
        false_(t, pos) matches Parsed::Node { node, end } ==> pos < t.len() && end == pos + 1
            && node == ExprView::False(t[pos as int].span),
        self_(t, pos) matches Parsed::Node { node, end } ==> pos < t.len() && end == pos + 1
            && node == ExprView::Self_(t[pos as int].span),
{
}

/// Repetitions never move the cursor backwards.
pub proof fn lemma_selectors_end(t: Seq<TokenView>, pos: nat)
    ensures
        pos <= selectors(t, pos).end,
    decreases t.len() - pos,
{
    if pos < t.len() && selector(t, pos) is Node {
        lemma_selectors_end(t, selector(t, pos)->end);
    }
}

/// Repetitions never move the cursor backwards.
pub proof fn lemma_parameters_end(t: Seq<TokenView>, pos: nat)
    ensures
        pos <= parameters(t, pos).end,
    decreases t.len() - pos,
{
    if pos < t.len() && parameter(t, pos) is Node {
        lemma_parameters_end(t, parameter(t, pos)->end);
    }
}

/// Repetitions never move the cursor backwards.
pub proof fn lemma_arguments_end(t: Seq<TokenView>, pos: nat)
    ensures
        pos <= arguments(t, pos).end,
    decreases t.len() - pos,
{
    if pos < t.len() {
        let first = argument(t, pos);
        if first is Node && pos < first->end <= t.len() {
            lemma_arguments_end(t, first->end);
        }
    }
}

/// Repetitions never move the cursor backwards.
pub proof fn lemma_stmts_end(t: Seq<TokenView>, pos: nat)
    ensures
        pos <= stmts(t, pos).end,
    decreases t.len() - pos,
{
    if pos < t.len() {
        let first = stmt(t, pos);
        if first is Node && pos < first->end <= t.len() {
            lemma_stmts_end(t, first->end);
        }
    }
}

/// Repetitions never move the cursor backwards.
pub proof fn lemma_exprs_delimited_end(t: Seq<TokenView>, pos: nat, separator: TokenKind)
    ensures
        pos <= exprs_delimited(t, pos, separator).end,
    decreases t.len() - pos,
{
    if pos < t.len() {
        let first = expr(t, pos);
        if first is Node && pos < first->end <= t.len() {
            if expect(t, first->end, separator) is Node {
                lemma_exprs_delimited_end(t, first->end + 1, separator);
            }
        }
    }
}

/// The span of an expression is the source range of the tokens it was read
/// from: it starts where its first token starts and ends where its last
/// token ends.
pub proof fn lemma_expr_span(t: Seq<TokenView>, pos: nat)
    ensures
        expr(t, pos) matches Parsed::Node { node, end } ==> pos < end <= t.len() && node.span()
            == join(t[pos as int].span, t[end - 1].span),
{
    if class_name_selector(t, pos) is Node {
    } else if class_new(t, pos) is Node {
        let new = specific_ident(t, pos + 2, "new"@);
        lemma_arguments_end(t, new->end);
    } else if local(t, pos) is Node {
    } else if ivar(t, pos) is Node {
    } else if selector(t, pos) is Node {
    } else if block(t, pos) is Node {
        lemma_parameters_end(t, pos + 1);
        let params = parameters(t, pos + 1);
        lemma_stmts_end(t, params.end + 2);
    } else if number(t, pos) is Node {
    } else if list(t, pos) is Node {
        lemma_exprs_delimited_end(t, pos + 1, TokenKind::Comma);
    } else if true_(t, pos) is Node {
    } else if false_(t, pos) is Node {
    } else if self_(t, pos) is Node {
    } else if message_send(t, pos) is Node {
        let receiver = expr(t, pos + 1);
        let msg = ident(t, receiver->end);
        lemma_arguments_end(t, msg->end);
    }
}

/// The span of a class definition runs from its first token to its
/// semicolon.
pub proof fn lemma_define_class_span(t: Seq<TokenView>, pos: nat)
    ensures
        define_class(t, pos) matches Parsed::Node { node, end } ==> pos < end <= t.len()
            && crate::prep::stmt_span(node) == join(t[pos as int].span, t[end - 1].span),
{
    reveal(define_class);
    reveal(define_class_tail);
    if define_class(t, pos) is Node {
        lemma_selectors_end(t, pos + 14);
    }
}

/// The span of a method definition runs from its first token to its
/// semicolon.
pub proof fn lemma_define_method_span(t: Seq<TokenView>, pos: nat)
    ensures
        define_method(t, pos) matches Parsed::Node { node, end } ==> pos < end <= t.len()
            && crate::prep::stmt_span(node) == join(t[pos as int].span, t[end - 1].span),
{
    if define_method(t, pos) is Node {
        lemma_parameters_end(t, pos + 9);
        let params = parameters(t, pos + 9);
        lemma_stmts_end(t, params.end + 2);
    }
}

/// The span of `let name = expr;` runs from `let` to the semicolon.
pub proof fn lemma_let_local_span(t: Seq<TokenView>, pos: nat)
    ensures
        let_local(t, pos) matches Parsed::Node { node, end } ==> pos < end <= t.len()
            && crate::prep::stmt_span(node) == join(t[pos as int].span, t[end - 1].span),
{
    lemma_expr_span(t, pos + 3);
}

/// The span of `let @name = expr;` runs from `let` to the semicolon.
pub proof fn lemma_let_ivar_span(t: Seq<TokenView>, pos: nat)
    ensures
        let_ivar(t, pos) matches Parsed::Node { node, end } ==> pos < end <= t.len()
            && crate::prep::stmt_span(node) == join(t[pos as int].span, t[end - 1].span),
{
    lemma_expr_span(t, pos + 4);
}

/// The span of a message send statement runs from the opening bracket to
/// the semicolon.
pub proof fn lemma_message_send_stmt_span(t: Seq<TokenView>, pos: nat)
    ensures
        message_send_stmt(t, pos) matches Parsed::Node { node, end } ==> pos < end <= t.len()
            && crate::prep::stmt_span(node) == join(t[pos as int].span, t[end - 1].span),
{
    if message_send(t, pos) is Node {
        let receiver = expr(t, pos + 1);
        let msg = ident(t, receiver->end);
        lemma_arguments_end(t, msg->end);
    }
}

/// The span of `return expr;` runs from `return` to the semicolon.
pub proof fn lemma_return_span(t: Seq<TokenView>, pos: nat)
    ensures
        return_(t, pos) matches Parsed::Node { node, end } ==> pos < end <= t.len()
            && crate::prep::stmt_span(node) == join(t[pos as int].span, t[end - 1].span),
{
    lemma_expr_span(t, pos + 1);
}

/// The span of a statement is the source range of the tokens it was read
/// from: it starts where its first token starts and ends where its last
/// token, the semicolon, ends.
pub proof fn lemma_stmt_span(t: Seq<TokenView>, pos: nat)
    ensures
        stmt(t, pos) matches Parsed::Node { node, end } ==> pos < end <= t.len()
            && crate::prep::stmt_span(node) == join(t[pos as int].span, t[end - 1].span),
{
    lemma_define_class_span(t, pos);
    lemma_define_method_span(t, pos);
    lemma_let_local_span(t, pos);
    lemma_let_ivar_span(t, pos);
    lemma_message_send_stmt_span(t, pos);
    lemma_return_span(t, pos);
}

/// An identifier of the tree reads the source text within its span: where
/// the tokens `t` lie in the text `bytes` in order, the name that is parsed
/// at `pos` is the text of `bytes` from the start to the end of its span,
/// and a number that is parsed there has the value of that text.
pub proof fn lemma_leaf_reads_the_source(bytes: Seq<u8>, t: Seq<TokenView>, pos: nat)
    requires
        crate::lex::spans_in_order(bytes, 0, t),
    ensures
        ident(t, pos) matches Parsed::Node { node, end } ==> node.span.from < node.span.to
            <= bytes.len() && node.name == vstd::utf8::decode_utf8(
            bytes.subrange(node.span.from as int, node.span.to as int),
        ),
        class_name(t, pos) matches Parsed::Node { node, end } ==> node.span.from < node.span.to
            <= bytes.len() && node.name == vstd::utf8::decode_utf8(
            bytes.subrange(node.span.from as int, node.span.to as int),
        ),
        number(t, pos) matches Parsed::Node { node, end } ==> node.span().from < node.span().to
            <= bytes.len() && crate::text::parse_i32_spec(
            vstd::utf8::decode_utf8(
                bytes.subrange(node.span().from as int, node.span().to as int),
            ),
        ) == Some(node->number),
{
    if pos < t.len() {
        assert(crate::lex::source_of(bytes, t[pos as int]));
    }
}

/// The span of a statement lies in the source text: where the tokens `t`
/// lie in the text `bytes` in order, a statement that is parsed at `pos`
/// spans a range of `bytes` that is not empty, from the start of its first
/// token to the end of its last.
pub proof fn lemma_stmt_span_lies_in_the_source(bytes: Seq<u8>, t: Seq<TokenView>, pos: nat)
    requires
        crate::lex::spans_in_order(bytes, 0, t),
    ensures
        stmt(t, pos) matches Parsed::Node { node, end } ==> crate::prep::stmt_span(node).from
            < crate::prep::stmt_span(node).to <= bytes.len(),
{
    lemma_stmt_span(t, pos);
    if stmt(t, pos) is Node {
        let end = stmt(t, pos)->end;
        lemma_spans_grow(bytes, t, pos as int, end - 1);
    }
}

/// Tokens that lie in order start no earlier than the tokens before them.
pub proof fn lemma_spans_grow(bytes: Seq<u8>, t: Seq<TokenView>, i: int, j: int)
    requires
        crate::lex::spans_in_order(bytes, 0, t),
        0 <= i <= j < t.len(),
    ensures
        t[i].span.from <= t[j].span.from,
        t[i].span.to <= t[j].span.to,
    decreases j - i,
{
    if i < j {
        lemma_spans_grow(bytes, t, i, j - 1);
        assert(t[j - 1].span.to <= t[j - 1 + 1].span.from);
    }
}

} // verus!
