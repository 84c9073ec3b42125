//! Attributes: `name=value` pairs inside an opening tag.
//!
//! An attribute has one of two shapes:
//! * `ident=value` — any opaque expression as the value;
//! * `"custom-attr"="string-lit"` — a string-literal name demands a
//!   string-literal value.

use vstd::prelude::*;
use crate::token::{Ident, RsxExpr, Span, SpecIdent, Token, spec_end_span, spec_token_span};
use crate::error::{ParseError, SpecError};

verus! {

/// An attribute name: either a plain identifier or a string literal (a
/// "custom" attribute).
#[derive(Debug)]
pub enum AttributeIdent {
    Ident(Ident),
    LitStr(RsxExpr),
}

/// The ghost image of an [`AttributeIdent`].
pub enum SpecAttrName {
    Ident(SpecIdent),
    Lit(RsxExpr),
}

impl View for AttributeIdent {
    type V = SpecAttrName;

    open spec fn view(&self) -> SpecAttrName {
        match self {
            AttributeIdent::Ident(i) => SpecAttrName::Ident(i@),
            AttributeIdent::LitStr(e) => SpecAttrName::Lit(*e),
        }
    }
}

/// Whether an attribute name is a plain identifier.
pub open spec fn spec_is_ident(n: SpecAttrName) -> bool {
    n is Ident
}

impl AttributeIdent {
    /// Whether this name is a plain identifier (as opposed to a string
    /// literal).
    pub fn is_ident(&self) -> (r: bool)
        ensures
            r == spec_is_ident(self@),
    {
        match self {
            AttributeIdent::Ident(_) => true,
            AttributeIdent::LitStr(_) => false,
        }
    }
}

/// One parsed attribute. `equals` keeps the span of the `=` separator.
#[derive(Debug)]
pub struct Attribute {
    pub name: AttributeIdent,
    pub equals: Span,
    pub value: RsxExpr,
}

/// The ghost image of an [`Attribute`].
pub struct SpecAttr {
    pub name: SpecAttrName,
    pub equals: Span,
    pub value: RsxExpr,
}

impl View for Attribute {
    type V = SpecAttr;

    open spec fn view(&self) -> SpecAttr {
        SpecAttr { name: self.name@, equals: self.equals, value: self.value }
    }
}

/// Whether an attribute obeys the name/value-kind invariant: a name that is
/// not a plain identifier demands a string-literal value.
pub open spec fn spec_attr_valid(a: SpecAttr) -> bool {
    spec_is_ident(a.name) || a.value.is_str
}

/// What parsing an attribute name at `pos` yields: one token, either an
/// identifier or a string literal. Any other token is a syntax error at its
/// own span; end of input is a syntax error at the end span.
pub open spec fn spec_parse_attr_name(toks: Seq<Token>, pos: int) -> Result<
    (SpecAttrName, int),
    SpecError,
> {
    if !(0 <= pos < toks.len()) {
        Err(SpecError::Syntax { span: spec_end_span(toks) })
    } else {
        match toks[pos] {
            Token::Expr(e) => if e.is_str {
                Ok((SpecAttrName::Lit(e), pos + 1))
            } else {
                Err(SpecError::Syntax { span: e.span })
            },
            Token::Ident(i) => Ok((SpecAttrName::Ident(i@), pos + 1)),
            t => Err(SpecError::Syntax { span: spec_token_span(t) }),
        }
    }
}

/// What parsing one attribute at `pos` yields: a name, an `=`, and an opaque
/// expression value — three tokens — followed by the name/value-kind check,
/// whose failure is anchored at the value's span.
pub open spec fn spec_parse_attribute(toks: Seq<Token>, pos: int) -> Result<
    (SpecAttr, int),
    SpecError,
> {
    match spec_parse_attr_name(toks, pos) {
        Err(e) => Err(e),
        Ok((name, p1)) => {
            if !(0 <= p1 < toks.len()) {
                Err(SpecError::Syntax { span: spec_end_span(toks) })
            } else {
                match toks[p1] {
                    Token::Equals(eq_span) => {
                        if !(0 <= p1 + 1 < toks.len()) {
                            Err(SpecError::Syntax { span: spec_end_span(toks) })
                        } else {
                            match toks[p1 + 1] {
                                Token::Expr(value) => {
                                    let a = SpecAttr { name, equals: eq_span, value };
                                    if spec_attr_valid(a) {
                                        Ok((a, p1 + 2))
                                    } else {
                                        Err(SpecError::Validation { span: value.span })
                                    }
                                },
                                t => Err(SpecError::Syntax { span: spec_token_span(t) }),
                            }
                        }
                    },
                    t => Err(SpecError::Syntax { span: spec_token_span(t) }),
                }
            }
        },
    }
}

/// The view of an attribute-name parse result.
pub open spec fn attr_name_res_view(r: Result<(AttributeIdent, usize), ParseError>) -> Result<
    (SpecAttrName, int),
    SpecError,
> {
    match r {
        Ok((n, next)) => Ok((n@, next as int)),
        Err(e) => Err(e@),
    }
}

/// The view of an attribute parse result.
pub open spec fn attr_res_view(r: Result<(Attribute, usize), ParseError>) -> Result<
    (SpecAttr, int),
    SpecError,
> {
    match r {
        Ok((a, next)) => Ok((a@, next as int)),
        Err(e) => Err(e@),
    }
}

impl AttributeIdent {
    /// Parse an attribute name at `pos`: a string literal becomes a custom
    /// name, an identifier a plain one; anything else is a syntax error.
    pub fn parse(toks: &Vec<Token>, pos: usize) -> (r: Result<(AttributeIdent, usize), ParseError>)
        requires
            pos <= toks@.len(),
        ensures
            attr_name_res_view(r) == spec_parse_attr_name(toks@, pos as int),
    {
        if pos == toks.len() {
            return Err(ParseError::Syntax { span: crate::token::end_span(toks) });
        }
        match &toks[pos] {
            Token::Expr(e) => {
                if e.is_str {
                    Ok((AttributeIdent::LitStr(*e), pos + 1))
                } else {
                    Err(ParseError::Syntax { span: e.span })
                }
            },
            Token::Ident(i) => Ok((AttributeIdent::Ident(i.duplicate()), pos + 1)),
            t => Err(ParseError::Syntax { span: t.token_span() }),
        }
    }
}

impl Attribute {
    /// Parse one attribute at `pos`: name, `=`, value — then validate the
    /// name/value-kind invariant.
    pub fn parse(toks: &Vec<Token>, pos: usize) -> (r: Result<(Attribute, usize), ParseError>)
        requires
            pos <= toks@.len(),
        ensures
            attr_res_view(r) == spec_parse_attribute(toks@, pos as int),
    {
        let (name, p1) = match AttributeIdent::parse(toks, pos) {
            Ok(ok) => ok,
            Err(e) => {
                return Err(e);
            },
        };
        if p1 == toks.len() {
            return Err(ParseError::Syntax { span: crate::token::end_span(toks) });
        }
        let equals = match &toks[p1] {
            Token::Equals(eq_span) => *eq_span,
            t => {
                return Err(ParseError::Syntax { span: t.token_span() });
            },
        };
        if p1 + 1 == toks.len() {
            return Err(ParseError::Syntax { span: crate::token::end_span(toks) });
        }
        let value = match &toks[p1 + 1] {
            Token::Expr(value) => *value,
            t => {
                return Err(ParseError::Syntax { span: t.token_span() });
            },
        };
        let attr = Attribute { name, equals, value };
        match attr.validate() {
            Ok(()) => Ok((attr, p1 + 2)),
            Err(e) => Err(e),
        }
    }

    /// Check the name/value-kind invariant: a string-literal name demands a
    /// string-literal value. On violation the error is anchored at the
    /// value's span.
    pub fn validate(&self) -> (r: Result<(), ParseError>)
        ensures
            r is Ok <==> spec_attr_valid(self@),
            r is Err ==> r->Err_0@ == (SpecError::Validation { span: self.value.span }),
    {
        if !self.name.is_ident() && !self.value.is_str() {
            return Err(ParseError::Validation { span: self.value.span() });
        }
        Ok(())
    }
}

/// The ordered attribute list of one opening tag.
#[derive(Debug)]
pub struct Attributes(pub Vec<Attribute>);

impl View for Attributes {
    type V = Seq<SpecAttr>;

    open spec fn view(&self) -> Seq<SpecAttr> {
        Seq::new(self.0@.len(), |i: int| self.0@[i]@)
    }
}

/// What parsing an attribute list at `pos` yields: attributes, one after the
/// other, until a `/` or `>` is seen; that terminator is not consumed. End of
/// input before a terminator is a syntax error.
pub open spec fn spec_parse_attributes(toks: Seq<Token>, pos: int) -> Result<
    (Seq<SpecAttr>, int),
    SpecError,
>
    decreases toks.len() - pos,
{
    if !(0 <= pos < toks.len()) {
        Err(SpecError::Syntax { span: spec_end_span(toks) })
    } else if (toks[pos] is Slash) || (toks[pos] is Gt) {
        Ok((seq![], pos))
    } else {
        match spec_parse_attribute(toks, pos) {
            Err(e) => Err(e),
            Ok((a, p2)) => {
                if pos < p2 <= toks.len() {
                    match spec_parse_attributes(toks, p2) {
                        Err(e) => Err(e),
                        Ok((rest, end)) => Ok((seq![a].add(rest), end)),
                    }
                } else {
                    Err(SpecError::Syntax { span: spec_end_span(toks) })
                }
            },
        }
    }
}

/// A successful attribute-list parse lands on its terminator: a `/` or `>`
/// within the input.
pub proof fn lemma_attributes_progress(toks: Seq<Token>, pos: int)
    requires
        0 <= pos <= toks.len(),
    ensures
        match spec_parse_attributes(toks, pos) {
            Ok((_, end)) => pos <= end < toks.len() && ((toks[end] is Slash) || (toks[end] is Gt)),
            Err(_) => true,
        },
    decreases toks.len() - pos,
{
    if 0 <= pos < toks.len() && !((toks[pos] is Slash) || (toks[pos] is Gt)) {
        match spec_parse_attribute(toks, pos) {
            Err(_) => {},
            Ok((a, p2)) => {
                if pos < p2 <= toks.len() {
                    lemma_attributes_progress(toks, p2);
                }
            },
        }
    }
}

/// The view of an attribute-list parse result.
pub open spec fn attrs_res_view(r: Result<(Attributes, usize), ParseError>) -> Result<
    (Seq<SpecAttr>, int),
    SpecError,
> {
    match r {
        Ok((attrs, next)) => Ok((attrs@, next as int)),
        Err(e) => Err(e@),
    }
}

impl Attributes {
    /// Parse attributes at `pos` until the next token is a `/` or `>`; the
    /// terminator is left for the tag parser.
    pub fn parse(toks: &Vec<Token>, pos: usize) -> (r: Result<(Attributes, usize), ParseError>)
        requires
            pos <= toks@.len(),
        ensures
            attrs_res_view(r) == spec_parse_attributes(toks@, pos as int),
            r is Ok ==> pos <= r->Ok_0.1 <= toks@.len(),
    {
        let ghost t = toks@;
        let mut acc: Vec<Attribute> = Vec::new();
        let mut cur: usize = pos;
        proof {
            match spec_parse_attributes(t, pos as int) {
                Ok((rest, end)) => {
                    assert(Seq::new(acc@.len(), |i: int| acc@[i]@).add(rest) =~= rest);
                },
                Err(_) => {},
            }
        }
        loop
            invariant
                pos <= cur <= t.len(),
                t == toks@,
                spec_parse_attributes(t, pos as int) == (match spec_parse_attributes(
                    t,
                    cur as int,
                ) {
                    Ok((rest, end)) => Ok::<_, SpecError>(
                        (Seq::new(acc@.len(), |i: int| acc@[i]@).add(rest), end),
                    ),
                    Err(e) => Err::<(Seq<SpecAttr>, int), _>(e),
                }),
            decreases t.len() - cur,
        {
            if cur == toks.len() {
                assert(spec_parse_attributes(t, cur as int) == Err::<(Seq<SpecAttr>, int), _>(
                    SpecError::Syntax { span: spec_end_span(t) },
                ));
                return Err(ParseError::Syntax { span: crate::token::end_span(toks) });
            }
            let stop = match &toks[cur] {
                Token::Slash(_) => true,
                Token::Gt(_) => true,
                _ => false,
            };
            if stop {
                let attrs = Attributes(acc);
                assert(spec_parse_attributes(t, cur as int) == Ok::<_, SpecError>(
                    (Seq::<SpecAttr>::empty(), cur as int),
                ));
                proof {
                    assert(attrs@ =~= Seq::new(attrs.0@.len(), |i: int| attrs.0@[i]@).add(
                        Seq::<SpecAttr>::empty(),
                    ));
                }
                return Ok((attrs, cur));
            }
            match Attribute::parse(toks, cur) {
                Err(e) => {
                    return Err(e);
                },
                Ok((a, next)) => {
                    proof {
                        let old_view = Seq::new(acc@.len(), |i: int| acc@[i]@);
                        let one = seq![a@];
                        assert(old_view.add(one.add(
                            match spec_parse_attributes(t, next as int) {
                                Ok((rest, _)) => rest,
                                Err(_) => seq![],
                            },
                        )) =~= old_view.add(one).add(
                            match spec_parse_attributes(t, next as int) {
                                Ok((rest, _)) => rest,
                                Err(_) => seq![],
                            },
                        ));
                    }
                    let ghost old_acc = acc@;
                    acc.push(a);
                    proof {
                        assert(Seq::new(acc@.len(), |i: int| acc@[i]@) =~= Seq::new(
                            old_acc.len(),
                            |i: int| old_acc[i]@,
                        ).add(seq![a@]));
                    }
                    cur = next;
                },
            }
        }
    }
}

} // verus!
