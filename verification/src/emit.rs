//! The emitter: serialize the element tree into the target call-expression
//! grammar. Each element becomes a call naming its tag — `name { ... }` —
//! whose block holds one named argument `attribute_name: value,` per
//! attribute, in parse order, followed by the children, in parse order; a
//! comma follows every attribute and every child.

use vstd::prelude::*;
use crate::token::{Ident, RsxExpr, SpecIdent};
use crate::attribute::{Attribute, AttributeIdent, Attributes, SpecAttr, SpecAttrName};
use crate::element::{Child, Document, Element, SpecChild, lemma_children_view};

verus! {

/// One token of the emitted output. Punctuation and braces carry no span:
/// the token sink gives them neutral spans of its own.
#[derive(Debug)]
pub enum OutToken {
    /// A tag name or an attribute name, with its original span.
    Ident(Ident),
    /// An opaque expression passed through from the input, by its span
    /// handle: an attribute value, a string-literal attribute name, or a
    /// child.
    Expr(RsxExpr),
    /// `:` between an attribute name and its value.
    Colon,
    /// `,` after each attribute and each child.
    Comma,
    /// `{` opening an element's argument block.
    OpenBrace,
    /// `}` closing an element's argument block.
    CloseBrace,
}

/// The ghost image of an [`OutToken`].
pub enum SpecOutToken {
    Ident(SpecIdent),
    Expr(RsxExpr),
    Colon,
    Comma,
    OpenBrace,
    CloseBrace,
}

impl View for OutToken {
    type V = SpecOutToken;

    open spec fn view(&self) -> SpecOutToken {
        match self {
            OutToken::Ident(i) => SpecOutToken::Ident(i@),
            OutToken::Expr(e) => SpecOutToken::Expr(*e),
            OutToken::Colon => SpecOutToken::Colon,
            OutToken::Comma => SpecOutToken::Comma,
            OutToken::OpenBrace => SpecOutToken::OpenBrace,
            OutToken::CloseBrace => SpecOutToken::CloseBrace,
        }
    }
}

/// The ghost image of an output token sequence.
pub open spec fn out_view(s: Seq<OutToken>) -> Seq<SpecOutToken> {
    Seq::new(s.len(), |i: int| s[i]@)
}

/// What an attribute name emits: the identifier, or the string literal
/// itself for a custom attribute.
pub open spec fn spec_emit_attr_name(n: SpecAttrName) -> SpecOutToken {
    match n {
        SpecAttrName::Ident(i) => SpecOutToken::Ident(i),
        SpecAttrName::Lit(e) => SpecOutToken::Expr(e),
    }
}

/// What one attribute emits: `name : value ,`.
pub open spec fn spec_emit_attr(a: SpecAttr) -> Seq<SpecOutToken> {
    seq![
        spec_emit_attr_name(a.name),
        SpecOutToken::Colon,
        SpecOutToken::Expr(a.value),
        SpecOutToken::Comma,
    ]
}

/// What the attributes from index `i` on emit, in order.
pub open spec fn spec_emit_attrs_from(attrs: Seq<SpecAttr>, i: int) -> Seq<SpecOutToken>
    decreases attrs.len() - i,
{
    if !(0 <= i < attrs.len()) {
        seq![]
    } else {
        spec_emit_attr(attrs[i]).add(spec_emit_attrs_from(attrs, i + 1))
    }
}

/// What one child emits: an expression child is passed through — `value ,` —
/// and an element becomes `name { attributes children } ,`.
pub open spec fn spec_emit_child(c: SpecChild) -> Seq<SpecOutToken>
    decreases c, 0int,
{
    match c {
        SpecChild::Expr(e) => seq![SpecOutToken::Expr(e), SpecOutToken::Comma],
        SpecChild::Elem(el) => seq![
            SpecOutToken::Ident(el.name),
            SpecOutToken::OpenBrace,
        ].add(spec_emit_attrs_from(el.attrs, 0)).add(spec_emit_children_from(el.children, 0)).add(
            seq![SpecOutToken::CloseBrace, SpecOutToken::Comma],
        ),
    }
}

/// What the children from index `i` on emit, in order.
pub open spec fn spec_emit_children_from(cs: Seq<SpecChild>, i: int) -> Seq<SpecOutToken>
    decreases cs, cs.len() - i,
{
    if !(0 <= i < cs.len()) {
        seq![]
    } else {
        spec_emit_child(cs[i]).add(spec_emit_children_from(cs, i + 1))
    }
}

/// What a whole document emits: its top-level children, in order.
pub open spec fn spec_emit_document(cs: Seq<SpecChild>) -> Seq<SpecOutToken> {
    spec_emit_children_from(cs, 0)
}

impl AttributeIdent {
    /// Emit this attribute name.
    pub fn to_tokens(&self, tokens: &mut Vec<OutToken>)
        ensures
            out_view(final(tokens)@) == out_view(old(tokens)@).push(spec_emit_attr_name(self@)),
    {
        let ghost base = tokens@;
        match self {
            AttributeIdent::Ident(i) => tokens.push(OutToken::Ident(i.duplicate())),
            AttributeIdent::LitStr(e) => tokens.push(OutToken::Expr(*e)),
        }
        proof {
            assert(out_view(tokens@) =~= out_view(base).push(spec_emit_attr_name(self@)));
        }
    }
}

impl Attribute {
    /// Emit this attribute as a named argument: `name : value ,`.
    pub fn to_tokens(&self, tokens: &mut Vec<OutToken>)
        ensures
            out_view(final(tokens)@) == out_view(old(tokens)@).add(spec_emit_attr(self@)),
    {
        let ghost base = tokens@;
        self.name.to_tokens(tokens);
        let ghost t1 = tokens@;
        tokens.push(OutToken::Colon);
        proof {
            assert(out_view(tokens@) =~= out_view(t1).push(SpecOutToken::Colon));
        }
        let ghost t2 = tokens@;
        tokens.push(OutToken::Expr(self.value));
        proof {
            assert(out_view(tokens@) =~= out_view(t2).push(SpecOutToken::Expr(self.value)));
        }
        let ghost t3 = tokens@;
        tokens.push(OutToken::Comma);
        proof {
            assert(out_view(tokens@) =~= out_view(t3).push(SpecOutToken::Comma));
            assert(out_view(tokens@) =~= out_view(base).add(spec_emit_attr(self@)));
        }
    }
}

impl Attributes {
    /// Emit every attribute, in parse order, each followed by a comma.
    pub fn to_tokens(&self, tokens: &mut Vec<OutToken>)
        ensures
            out_view(final(tokens)@) == out_view(old(tokens)@).add(spec_emit_attrs_from(self@, 0)),
    {
        let ghost base = tokens@;
        let ghost av = self@;
        let mut i: usize = 0;
        proof {
            assert(av.len() == self.0@.len());
        }
        while i < self.0.len()
            invariant
                i <= self.0@.len(),
                av == self@,
                av.len() == self.0@.len(),
                out_view(tokens@).add(spec_emit_attrs_from(av, i as int)) == out_view(base).add(
                    spec_emit_attrs_from(av, 0),
                ),
            decreases self.0@.len() - i,
        {
            let ghost before = tokens@;
            self.0[i].to_tokens(tokens);
            proof {
                assert(av[i as int] == self.0@[i as int]@);
                assert(out_view(before).add(spec_emit_attr(av[i as int])).add(
                    spec_emit_attrs_from(av, i + 1),
                ) =~= out_view(before).add(
                    spec_emit_attr(av[i as int]).add(spec_emit_attrs_from(av, i + 1)),
                ));
            }
            i = i + 1;
        }
        proof {
            assert(out_view(tokens@).add(spec_emit_attrs_from(av, i as int)) =~= out_view(
                tokens@,
            ));
        }
    }
}

impl Child {
    /// Emit this child: an expression is passed through, an element becomes
    /// a nested call.
    pub fn to_tokens(&self, tokens: &mut Vec<OutToken>)
        ensures
            out_view(final(tokens)@) == out_view(old(tokens)@).add(spec_emit_child(self@)),
        decreases *self, 1int,
    {
        let ghost base = tokens@;
        match self {
            Child::Expr(e) => {
                tokens.push(OutToken::Expr(*e));
                tokens.push(OutToken::Comma);
                proof {
                    assert(out_view(tokens@) =~= out_view(base).add(spec_emit_child(self@)));
                }
            },
            Child::Element(el) => {
                el.to_tokens(tokens);
            },
        }
    }
}

impl Element {
    /// Emit this element as a call in the target grammar:
    /// `name { attributes... children... } ,`.
    pub fn to_tokens(&self, tokens: &mut Vec<OutToken>)
        ensures
            out_view(final(tokens)@) == out_view(old(tokens)@).add(
                spec_emit_child(SpecChild::Elem(self@)),
            ),
        decreases *self, 0int,
    {
        let ghost base = tokens@;
        let ghost ev = self@;
        tokens.push(OutToken::Ident(self.name.duplicate()));
        tokens.push(OutToken::OpenBrace);
        proof {
            assert(out_view(tokens@) =~= out_view(base).add(
                seq![SpecOutToken::Ident(ev.name), SpecOutToken::OpenBrace],
            ));
        }
        self.attributes.to_tokens(tokens);
        let ghost mid = tokens@;
        proof {
            lemma_children_view(self.children@, self.children@.len() as int);
            assert(ev.children.len() == self.children@.len());
        }
        let mut i: usize = 0;
        while i < self.children.len()
            invariant
                i <= self.children@.len(),
                ev == self@,
                ev.children.len() == self.children@.len(),
                forall|j: int| 0 <= j < ev.children.len() ==> ev.children[j]
                    == #[trigger] self.children@[j]@,
                out_view(tokens@).add(spec_emit_children_from(ev.children, i as int)) == out_view(
                    mid,
                ).add(spec_emit_children_from(ev.children, 0)),
            decreases self.children@.len() - i,
        {
            let ghost before = tokens@;
            self.children[i].to_tokens(tokens);
            proof {
                assert(out_view(before).add(spec_emit_child(ev.children[i as int])).add(
                    spec_emit_children_from(ev.children, i + 1),
                ) =~= out_view(before).add(
                    spec_emit_child(ev.children[i as int]).add(
                        spec_emit_children_from(ev.children, i + 1),
                    ),
                ));
            }
            i = i + 1;
        }
        proof {
            assert(out_view(tokens@).add(spec_emit_children_from(ev.children, i as int))
                =~= out_view(tokens@));
        }
        let ghost t4 = tokens@;
        tokens.push(OutToken::CloseBrace);
        proof {
            assert(out_view(tokens@) =~= out_view(t4).push(SpecOutToken::CloseBrace));
        }
        let ghost t5 = tokens@;
        tokens.push(OutToken::Comma);
        proof {
            assert(out_view(tokens@) =~= out_view(t5).push(SpecOutToken::Comma));
            assert(out_view(tokens@) =~= out_view(base).add(
                seq![SpecOutToken::Ident(ev.name), SpecOutToken::OpenBrace].add(
                    spec_emit_attrs_from(ev.attrs, 0),
                ).add(spec_emit_children_from(ev.children, 0)).add(
                    seq![SpecOutToken::CloseBrace, SpecOutToken::Comma],
                ),
            ));
        }
    }
}

impl Document {
    /// Emit the whole document: each top-level child in order.
    pub fn to_tokens(&self, tokens: &mut Vec<OutToken>)
        ensures
            out_view(final(tokens)@) == out_view(old(tokens)@).add(spec_emit_document(self@)),
    {
        let ghost base = tokens@;
        let ghost dv = self@;
        proof {
            lemma_children_view(self.children@, self.children@.len() as int);
        }
        let mut i: usize = 0;
        while i < self.children.len()
            invariant
                i <= self.children@.len(),
                dv == self@,
                dv.len() == self.children@.len(),
                forall|j: int| 0 <= j < dv.len() ==> dv[j] == #[trigger] self.children@[j]@,
                out_view(tokens@).add(spec_emit_children_from(dv, i as int)) == out_view(
                    base,
                ).add(spec_emit_children_from(dv, 0)),
            decreases self.children@.len() - i,
        {
            let ghost before = tokens@;
            self.children[i].to_tokens(tokens);
            proof {
                assert(out_view(before).add(spec_emit_child(dv[i as int])).add(
                    spec_emit_children_from(dv, i + 1),
                ) =~= out_view(before).add(
                    spec_emit_child(dv[i as int]).add(spec_emit_children_from(dv, i + 1)),
                ));
            }
            i = i + 1;
        }
        proof {
            assert(out_view(tokens@).add(spec_emit_children_from(dv, i as int)) =~= out_view(
                tokens@,
            ));
        }
    }
}

} // verus!
