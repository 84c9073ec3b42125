//! The element tree a successful parse produces.

use vstd::prelude::*;
use crate::token::{Ident, RsxExpr, SpecIdent};
use crate::attribute::{Attributes, SpecAttr};

verus! {

/// One child of an element or of the document root: a nested element or an
/// opaque expression.
#[derive(Debug)]
pub enum Child {
    Element(Element),
    Expr(RsxExpr),
}

/// A parsed element: a tag name, its attributes, and its children in source
/// order.
#[derive(Debug)]
pub struct Element {
    pub name: Ident,
    pub attributes: Attributes,
    pub children: Vec<Child>,
}

/// A whole parse result: the ordered top-level children.
#[derive(Debug)]
pub struct Document {
    pub children: Vec<Child>,
}

/// The ghost image of a [`Child`].
pub enum SpecChild {
    Elem(SpecElem),
    Expr(RsxExpr),
}

/// The ghost image of an [`Element`].
pub struct SpecElem {
    pub name: SpecIdent,
    pub attrs: Seq<SpecAttr>,
    pub children: Seq<SpecChild>,
}

/// The ghost image of a [`Child`], recursively.
pub open spec fn spec_child_view(c: Child) -> SpecChild
    decreases c, 1int,
{
    match c {
        Child::Element(e) => SpecChild::Elem(spec_elem_view(e)),
        Child::Expr(x) => SpecChild::Expr(x),
    }
}

/// The ghost image of an [`Element`], recursively.
pub open spec fn spec_elem_view(e: Element) -> SpecElem
    decreases e, 0int,
{
    SpecElem {
        name: e.name@,
        attrs: e.attributes@,
        children: spec_children_view_upto(e.children@, e.children@.len() as int),
    }
}

/// The ghost images of the first `n` children in a sequence.
pub open spec fn spec_children_view_upto(s: Seq<Child>, n: int) -> Seq<SpecChild>
    decreases s, n,
{
    if n <= 0 || n > s.len() {
        seq![]
    } else {
        spec_children_view_upto(s, n - 1).push(spec_child_view(s[n - 1]))
    }
}

/// The ghost images of a sequence of children.
pub open spec fn spec_children_view(s: Seq<Child>) -> Seq<SpecChild> {
    spec_children_view_upto(s, s.len() as int)
}

/// The children view maps the sequence element by element.
pub proof fn lemma_children_view(s: Seq<Child>, n: int)
    requires
        0 <= n <= s.len(),
    ensures
        spec_children_view_upto(s, n).len() == n,
        forall|i: int| 0 <= i < n ==> #[trigger] spec_children_view_upto(s, n)[i]
            == spec_child_view(s[i]),
    decreases n,
{
    if n > 0 {
        lemma_children_view(s, n - 1);
    }
}

/// The children view reads only the first `n` entries.
pub proof fn lemma_children_view_eq_prefix(s1: Seq<Child>, s2: Seq<Child>, n: int)
    requires
        0 <= n <= s1.len(),
        n <= s2.len(),
        forall|i: int| 0 <= i < n ==> s1[i] == s2[i],
    ensures
        spec_children_view_upto(s1, n) == spec_children_view_upto(s2, n),
    decreases n,
{
    if n > 0 {
        lemma_children_view_eq_prefix(s1, s2, n - 1);
    }
}

/// Appending a child appends its ghost image to the children view.
pub proof fn lemma_children_view_push(s: Seq<Child>, c: Child)
    ensures
        spec_children_view(s.push(c)) == spec_children_view(s).push(spec_child_view(c)),
{
    lemma_children_view_eq_prefix(s.push(c), s, s.len() as int);
    assert(s.push(c)[s.len() as int] == c);
}

impl View for Child {
    type V = SpecChild;

    open spec fn view(&self) -> SpecChild {
        spec_child_view(*self)
    }
}

impl View for Element {
    type V = SpecElem;

    open spec fn view(&self) -> SpecElem {
        spec_elem_view(*self)
    }
}

impl View for Document {
    type V = Seq<SpecChild>;

    open spec fn view(&self) -> Seq<SpecChild> {
        spec_children_view(self.children@)
    }
}

} // verus!
