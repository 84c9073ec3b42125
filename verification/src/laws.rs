//! Laws of the parser, stated against the ghost grammar and proved once for
//! all inputs.

use vstd::prelude::*;
use crate::token::{Ident, RsxExpr, Span, Token};
use crate::error::SpecError;
use crate::attribute::{
    SpecAttr, SpecAttrName, spec_parse_attribute, spec_parse_attributes,
};
use crate::tag::{
    SpecOpenTag, lemma_close_tag_progress, lemma_open_tag_progress, spec_parse_close_tag,
    spec_parse_open_tag,
};
use crate::element::{SpecChild, SpecElem};
use crate::emit::{SpecOutToken, spec_emit_attrs_from, spec_emit_child, spec_emit_children_from};
use crate::grammar::{
    SpecFrame, spec_close_ahead, spec_parse_children, spec_parse_document, spec_parse_element,
    spec_resume, spec_resume_at, lemma_children_progress, lemma_element_progress,
};

verus! {

// ---------------------------------------------------------------------------
// Attribute validation: an attribute whose name is a string literal succeeds
// exactly when its value is a string literal too; a plain-identifier name
// succeeds with any value. The failure is a validation error at the value's
// span.
// ---------------------------------------------------------------------------

/// For a shape-correct attribute — a name token, `=`, an expression — the
/// parse fails, with a validation error anchored at the value's span, exactly
/// when the name is a string literal and the value is not; every other
/// name/value combination succeeds.
pub proof fn lemma_attribute_validation(toks: Seq<Token>, pos: int, eq: Span, v: RsxExpr)
    requires
        0 <= pos,
        pos + 2 < toks.len(),
        toks[pos + 1] == Token::Equals(eq),
        toks[pos + 2] == Token::Expr(v),
    ensures
        match toks[pos] {
            Token::Ident(i) => spec_parse_attribute(toks, pos) == Ok::<_, SpecError>(
                (SpecAttr { name: SpecAttrName::Ident(i@), equals: eq, value: v }, pos + 3),
            ),
            Token::Expr(n) => n.is_str ==> if v.is_str {
                spec_parse_attribute(toks, pos) == Ok::<_, SpecError>(
                    (SpecAttr { name: SpecAttrName::Lit(n), equals: eq, value: v }, pos + 3),
                )
            } else {
                spec_parse_attribute(toks, pos) == Err::<(SpecAttr, int), _>(
                    SpecError::Validation { span: v.span },
                )
            },
            _ => true,
        },
{
}

// ---------------------------------------------------------------------------
// Self-closing tags: `<x/>` is one childless element, four tokens long —
// no closing tag is consumed, whatever follows.
// ---------------------------------------------------------------------------

/// A self-closing tag without attributes parses to a childless element and
/// consumes exactly its own four tokens.
pub proof fn lemma_self_closing_element(toks: Seq<Token>, pos: int, name: Ident)
    requires
        0 <= pos,
        pos + 3 < toks.len(),
        toks[pos] is Lt,
        toks[pos + 1] == Token::Ident(name),
        toks[pos + 2] is Slash,
        toks[pos + 3] is Gt,
    ensures
        spec_parse_element(toks, pos) == Ok::<_, SpecError>(
            (
                SpecChild::Elem(SpecElem { name: name@, attrs: seq![], children: seq![] }),
                pos + 4,
            ),
        ),
{
    assert(spec_parse_attributes(toks, pos + 2) == Ok::<_, SpecError>(
        (Seq::<SpecAttr>::empty(), pos + 2),
    ));
    assert(spec_parse_open_tag(toks, pos) == Ok::<_, SpecError>(
        (SpecOpenTag { name: name@, attrs: seq![], self_closing: true }, pos + 4),
    ));
}

// ---------------------------------------------------------------------------
// Tag matching, failure side: whenever the parse reports a mismatch between
// an open tag and a closing tag, their names really differ.
// ---------------------------------------------------------------------------

/// A mismatch error that names an open tag is sound: the two names differ.
pub open spec fn spec_mismatch_sound(e: SpecError) -> bool {
    match e {
        SpecError::Mismatch { open, close } => match open {
            Some(o) => o.name != close.name,
            None => true,
        },
        _ => true,
    }
}

proof fn lemma_attribute_err_sound(toks: Seq<Token>, pos: int)
    ensures
        match spec_parse_attribute(toks, pos) {
            Err(e) => (e is Syntax) || (e is Validation),
            Ok(_) => true,
        },
{
}

proof fn lemma_attributes_err_sound(toks: Seq<Token>, pos: int)
    ensures
        match spec_parse_attributes(toks, pos) {
            Err(e) => (e is Syntax) || (e is Validation),
            Ok(_) => true,
        },
    decreases toks.len() - pos,
{
    if 0 <= pos < toks.len() && !((toks[pos] is Slash) || (toks[pos] is Gt)) {
        lemma_attribute_err_sound(toks, pos);
        match spec_parse_attribute(toks, pos) {
            Err(_) => {},
            Ok((_, p2)) => {
                if pos < p2 <= toks.len() {
                    lemma_attributes_err_sound(toks, p2);
                }
            },
        }
    }
}

proof fn lemma_open_tag_err_sound(toks: Seq<Token>, pos: int)
    ensures
        match spec_parse_open_tag(toks, pos) {
            Err(e) => (e is Syntax) || (e is Validation),
            Ok(_) => true,
        },
{
    if 0 <= pos < toks.len() && (toks[pos] is Lt) && pos + 1 < toks.len() {
        lemma_attributes_err_sound(toks, pos + 2);
    }
}

proof fn lemma_children_mismatch_sound(toks: Seq<Token>, pos: int)
    requires
        0 <= pos <= toks.len(),
    ensures
        match spec_parse_children(toks, pos) {
            Err(e) => spec_mismatch_sound(e),
            Ok(_) => true,
        },
    decreases toks.len() - pos, 1int,
{
    if 0 <= pos < toks.len() && !spec_close_ahead(toks, pos) {
        match toks[pos] {
            Token::Expr(_) => {
                lemma_children_mismatch_sound(toks, pos + 1);
            },
            Token::Lt(_) => {
                lemma_element_mismatch_sound(toks, pos);
                lemma_element_progress(toks, pos);
                match spec_parse_element(toks, pos) {
                    Err(_) => {},
                    Ok((_, p2)) => {
                        lemma_children_mismatch_sound(toks, p2);
                    },
                }
            },
            _ => {},
        }
    }
}

proof fn lemma_element_mismatch_sound(toks: Seq<Token>, pos: int)
    requires
        0 <= pos <= toks.len(),
    ensures
        match spec_parse_element(toks, pos) {
            Err(e) => spec_mismatch_sound(e),
            Ok(_) => true,
        },
    decreases toks.len() - pos, 0int,
{
    lemma_open_tag_err_sound(toks, pos);
    lemma_open_tag_progress(toks, pos);
    match spec_parse_open_tag(toks, pos) {
        Err(_) => {},
        Ok((tag, p2)) => {
            if !tag.self_closing {
                lemma_children_mismatch_sound(toks, p2);
                lemma_children_progress(toks, p2);
                match spec_parse_children(toks, p2) {
                    Err(_) => {},
                    Ok((_, p3)) => {},
                }
            }
        },
    }
}

proof fn lemma_resume_mismatch_sound(
    toks: Seq<Token>,
    pos: int,
    acc: Seq<SpecChild>,
    fs: Seq<SpecFrame>,
)
    requires
        0 <= pos <= toks.len(),
    ensures
        match spec_resume(toks, pos, acc, fs) {
            Err(e) => spec_mismatch_sound(e),
            Ok(_) => true,
        },
    decreases toks.len() - pos, fs.len(), 1int,
{
    lemma_children_mismatch_sound(toks, pos);
    lemma_children_progress(toks, pos);
    match spec_parse_children(toks, pos) {
        Err(_) => {},
        Ok((cs, p2)) => {
            if pos <= p2 <= toks.len() {
                lemma_resume_at_mismatch_sound(toks, p2, acc.add(cs), fs);
            }
        },
    }
}

proof fn lemma_resume_at_mismatch_sound(
    toks: Seq<Token>,
    pos: int,
    acc: Seq<SpecChild>,
    fs: Seq<SpecFrame>,
)
    requires
        0 <= pos <= toks.len(),
    ensures
        match spec_resume_at(toks, pos, acc, fs) {
            Err(e) => spec_mismatch_sound(e),
            Ok(_) => true,
        },
    decreases toks.len() - pos, fs.len(), 0int,
{
    if pos < toks.len() {
        lemma_close_tag_progress(toks, pos);
        match spec_parse_close_tag(toks, pos) {
            Err(_) => {},
            Ok((close, p3)) => {
                if fs.len() > 0 && close.name == fs.last().name.name && pos < p3 <= toks.len() {
                    lemma_resume_mismatch_sound(
                        toks,
                        p3,
                        fs.last().outer.push(
                            SpecChild::Elem(
                                SpecElem {
                                    name: fs.last().name,
                                    attrs: fs.last().attrs,
                                    children: acc,
                                },
                            ),
                        ),
                        fs.drop_last(),
                    );
                }
            },
        }
    }
}

/// Whenever parsing a document fails with a mismatch error that names both
/// tags, the closing tag's name really differs from the nearest open tag's.
pub proof fn lemma_mismatch_error_names_differ(toks: Seq<Token>)
    ensures
        match spec_parse_document(toks) {
            Err(SpecError::Mismatch { open: Some(o), close }) => o.name != close.name,
            _ => true,
        },
{
    lemma_resume_mismatch_sound(toks, 0, seq![], seq![]);
}

// ---------------------------------------------------------------------------
// Tag matching, success side: a token stream that is generated by the
// grammar — in particular, every closing tag's name equals its own opening
// tag's name, innermost first — parses successfully, to exactly the tree
// that generated it.
// ---------------------------------------------------------------------------

/// Where the region spelling out the child `c` from `lo` ends (meaningful
/// only where [`spec_matches_child`] holds).
pub open spec fn spec_child_end(toks: Seq<Token>, lo: int, c: SpecChild) -> int
    decreases c, 0int,
{
    match c {
        SpecChild::Expr(_) => lo + 1,
        SpecChild::Elem(el) => match spec_parse_open_tag(toks, lo) {
            Ok((tag, mid)) => if tag.self_closing {
                mid
            } else {
                spec_children_end(toks, mid, el.children, 0) + 4
            },
            Err(_) => lo,
        },
    }
}

/// Where the regions spelling out the children `cs[i..]` from `lo` end.
pub open spec fn spec_children_end(toks: Seq<Token>, lo: int, cs: Seq<SpecChild>, i: int) -> int
    decreases cs, cs.len() - i, 1int,
{
    if !(0 <= i < cs.len()) {
        lo
    } else {
        spec_children_end(toks, spec_child_end(toks, lo, cs[i]), cs, i + 1)
    }
}

/// The tokens from `lo` spell out the child `c` according to the grammar: an
/// expression child is its own token; an element is an opening tag carrying
/// its name and attributes, then — unless self-closing — its children's
/// regions and a closing tag bearing the same name.
pub open spec fn spec_matches_child(toks: Seq<Token>, lo: int, c: SpecChild) -> bool
    decreases c, 0int,
{
    match c {
        SpecChild::Expr(e) => 0 <= lo < toks.len() && toks[lo] == Token::Expr(e),
        SpecChild::Elem(el) => match spec_parse_open_tag(toks, lo) {
            Ok((tag, mid)) => {
                &&& tag.name == el.name
                &&& tag.attrs == el.attrs
                &&& if tag.self_closing {
                    el.children.len() == 0
                } else {
                    &&& spec_matches_children(toks, mid, el.children, 0)
                    &&& match spec_parse_close_tag(
                        toks,
                        spec_children_end(toks, mid, el.children, 0),
                    ) {
                        Ok((cl, _)) => cl.name == el.name.name,
                        Err(_) => false,
                    }
                }
            },
            Err(_) => false,
        },
    }
}

/// The tokens from `lo` spell out the children `cs[i..]`, one region after
/// the other.
pub open spec fn spec_matches_children(toks: Seq<Token>, lo: int, cs: Seq<SpecChild>, i: int) -> bool
    decreases cs, cs.len() - i, 1int,
{
    if !(0 <= i < cs.len()) {
        true
    } else {
        &&& spec_matches_child(toks, lo, cs[i])
        &&& spec_matches_children(toks, spec_child_end(toks, lo, cs[i]), cs, i + 1)
    }
}

/// The whole token stream spells out the top-level children `cs`.
pub open spec fn spec_matches_document(toks: Seq<Token>, cs: Seq<SpecChild>) -> bool {
    &&& spec_matches_children(toks, 0, cs, 0)
    &&& spec_children_end(toks, 0, cs, 0) == toks.len()
}

proof fn lemma_matches_child_bounds(toks: Seq<Token>, lo: int, c: SpecChild)
    requires
        spec_matches_child(toks, lo, c),
        0 <= lo <= toks.len(),
    ensures
        lo < spec_child_end(toks, lo, c) <= toks.len(),
    decreases c, 0int,
{
    match c {
        SpecChild::Expr(_) => {},
        SpecChild::Elem(el) => {
            lemma_open_tag_progress(toks, lo);
            match spec_parse_open_tag(toks, lo) {
                Err(_) => {},
                Ok((tag, mid)) => {
                    if !tag.self_closing {
                        lemma_matches_children_bounds(toks, mid, el.children, 0);
                        lemma_close_tag_progress(toks, spec_children_end(toks, mid, el.children, 0));
                    }
                },
            }
        },
    }
}

proof fn lemma_matches_children_bounds(toks: Seq<Token>, lo: int, cs: Seq<SpecChild>, i: int)
    requires
        spec_matches_children(toks, lo, cs, i),
        0 <= lo <= toks.len(),
    ensures
        lo <= spec_children_end(toks, lo, cs, i) <= toks.len(),
    decreases cs, cs.len() - i, 1int,
{
    if 0 <= i < cs.len() {
        lemma_matches_child_bounds(toks, lo, cs[i]);
        lemma_matches_children_bounds(toks, spec_child_end(toks, lo, cs[i]), cs, i + 1);
    }
}

proof fn lemma_children_complete(toks: Seq<Token>, lo: int, cs: Seq<SpecChild>, i: int)
    requires
        spec_matches_children(toks, lo, cs, i),
        0 <= lo <= toks.len(),
        0 <= i <= cs.len(),
        spec_children_end(toks, lo, cs, i) == toks.len() || spec_close_ahead(
            toks,
            spec_children_end(toks, lo, cs, i),
        ),
    ensures
        spec_parse_children(toks, lo) == Ok::<_, SpecError>(
            (cs.subrange(i, cs.len() as int), spec_children_end(toks, lo, cs, i)),
        ),
    decreases cs, cs.len() - i, 1int,
{
    let e = spec_children_end(toks, lo, cs, i);
    if !(0 <= i < cs.len()) {
        assert(e == lo);
        assert(cs.subrange(i, cs.len() as int) =~= Seq::<SpecChild>::empty());
        if lo < toks.len() {
            assert(spec_close_ahead(toks, lo));
        }
    } else {
        lemma_matches_child_bounds(toks, lo, cs[i]);
        let mid = spec_child_end(toks, lo, cs[i]);
        lemma_matches_children_bounds(toks, mid, cs, i + 1);
        lemma_children_complete(toks, mid, cs, i + 1);
        assert(seq![cs[i]].add(cs.subrange(i + 1, cs.len() as int)) =~= cs.subrange(
            i,
            cs.len() as int,
        ));
        assert(spec_matches_child(toks, lo, cs[i]));
        match cs[i] {
            SpecChild::Expr(e0) => {
                assert(!spec_close_ahead(toks, lo));
                assert(toks[lo] == Token::Expr(e0));
                assert(mid == lo + 1);
                assert(spec_parse_children(toks, lo) == Ok::<_, SpecError>(
                    (seq![cs[i]].add(cs.subrange(i + 1, cs.len() as int)), e),
                ));
            },
            SpecChild::Elem(el) => {
                lemma_open_tag_progress(toks, lo);
                match spec_parse_open_tag(toks, lo) {
                    Err(_) => {
                        assert(false);
                    },
                    Ok((tag, p2)) => {
                        assert(spec_matches_child(toks, lo, cs[i]));
                        assert(!spec_close_ahead(toks, lo));
                        if tag.self_closing {
                            assert(el.children.len() == 0);
                            assert(el.children =~= Seq::<SpecChild>::empty());
                            assert(SpecElem { name: tag.name, attrs: tag.attrs, children: seq![] }
                                == el);
                            assert(spec_parse_element(toks, lo) == Ok::<_, SpecError>(
                                (cs[i], mid),
                            ));
                        } else {
                            let ce = spec_children_end(toks, p2, el.children, 0);
                            lemma_matches_children_bounds(toks, p2, el.children, 0);
                            lemma_close_tag_progress(toks, ce);
                            assert(spec_close_ahead(toks, ce));
                            lemma_children_complete(toks, p2, el.children, 0);
                            assert(el.children.subrange(0, el.children.len() as int)
                                =~= el.children);
                            assert(SpecElem { name: tag.name, attrs: tag.attrs, children: el.children }
                                == el);
                            assert(spec_parse_element(toks, lo) == Ok::<_, SpecError>(
                                (cs[i], mid),
                            ));
                        }
                        assert(spec_parse_children(toks, lo) == Ok::<_, SpecError>(
                            (seq![cs[i]].add(cs.subrange(i + 1, cs.len() as int)), e),
                        ));
                    },
                }
            },
        }
    }
}

/// Tag-matching, success side: a token stream generated by the grammar —
/// every closing tag naming exactly its own opening tag — parses
/// successfully, to the very tree that generated it.
pub proof fn lemma_matched_input_parses(toks: Seq<Token>, cs: Seq<SpecChild>)
    requires
        spec_matches_document(toks, cs),
    ensures
        spec_parse_document(toks) == Ok::<_, SpecError>(cs),
{
    lemma_children_complete(toks, 0, cs, 0);
    assert(cs.subrange(0, cs.len() as int) =~= cs);
    assert(Seq::<SpecChild>::empty().add(cs) =~= cs);
}

// ---------------------------------------------------------------------------
// Round-trip: the emitted output's nested-call structure mirrors the tree it
// was emitted from. For attribute-free trees, reading the output grammar
// back yields exactly the tree — names, child counts and child order
// included.
// ---------------------------------------------------------------------------

/// Whether a child carries no attributes anywhere.
pub open spec fn spec_attr_free_child(c: SpecChild) -> bool
    decreases c, 0int,
{
    match c {
        SpecChild::Expr(_) => true,
        SpecChild::Elem(el) => el.attrs.len() == 0 && spec_attr_free_children(el.children, 0),
    }
}

/// Whether the children `cs[i..]` carry no attributes anywhere.
pub open spec fn spec_attr_free_children(cs: Seq<SpecChild>, i: int) -> bool
    decreases cs, cs.len() - i, 1int,
{
    if !(0 <= i < cs.len()) {
        true
    } else {
        spec_attr_free_child(cs[i]) && spec_attr_free_children(cs, i + 1)
    }
}

/// Read the nested-call structure back out of emitted tokens: children until
/// a closing brace or the end; an expression child is `value ,`; an element
/// is `name { children } ,`.
pub open spec fn spec_read_children(out: Seq<SpecOutToken>, pos: int) -> Option<
    (Seq<SpecChild>, int),
>
    decreases out.len() - pos,
{
    if !(0 <= pos < out.len()) || (out[pos] is CloseBrace) {
        Some((seq![], pos))
    } else {
        match out[pos] {
            SpecOutToken::Expr(e) => if pos + 1 < out.len() && (out[pos + 1] is Comma) {
                match spec_read_children(out, pos + 2) {
                    None => None,
                    Some((cs, end)) => Some((seq![SpecChild::Expr(e)].add(cs), end)),
                }
            } else {
                None
            },
            SpecOutToken::Ident(name) => if pos + 1 < out.len() && (out[pos + 1] is OpenBrace) {
                match spec_read_children(out, pos + 2) {
                    None => None,
                    Some((inner, p3)) => if pos + 2 <= p3 && p3 + 1 < out.len() && (
                    out[p3] is CloseBrace) && (out[p3 + 1] is Comma) {
                        match spec_read_children(out, p3 + 2) {
                            None => None,
                            Some((rest, end)) => Some(
                                (
                                    seq![
                                        SpecChild::Elem(
                                            SpecElem { name, attrs: seq![], children: inner },
                                        ),
                                    ].add(rest),
                                    end,
                                ),
                            ),
                        }
                    } else {
                        None
                    },
                }
            } else {
                None
            },
            _ => None,
        }
    }
}

#[verifier::rlimit(100)]
proof fn lemma_read_emit_children(
    cs: Seq<SpecChild>,
    i: int,
    pre: Seq<SpecOutToken>,
    tail: Seq<SpecOutToken>,
)
    requires
        spec_attr_free_children(cs, i),
        0 <= i <= cs.len(),
        tail.len() == 0 || tail[0] is CloseBrace,
    ensures
        spec_read_children(pre.add(spec_emit_children_from(cs, i)).add(tail), pre.len() as int)
            == Some::<(Seq<SpecChild>, int)>(
            (
                cs.subrange(i, cs.len() as int),
                pre.len() + spec_emit_children_from(cs, i).len() as int,
            ),
        ),
    decreases cs, cs.len() - i, 1int,
{
    let out = pre.add(spec_emit_children_from(cs, i)).add(tail);
    let pos = pre.len() as int;
    if !(0 <= i < cs.len()) {
        assert(spec_emit_children_from(cs, i) =~= Seq::<SpecOutToken>::empty());
        assert(cs.subrange(i, cs.len() as int) =~= Seq::<SpecChild>::empty());
        if tail.len() == 0 {
            assert(out.len() == pos);
        } else {
            assert(out[pos] == tail[0]);
        }
        assert(spec_read_children(out, pos) == Some::<(Seq<SpecChild>, int)>((seq![], pos)));
        assert(seq![] =~= cs.subrange(i, cs.len() as int));
    } else {
        assert(spec_attr_free_child(cs[i]));
        assert(seq![cs[i]].add(cs.subrange(i + 1, cs.len() as int)) =~= cs.subrange(
            i,
            cs.len() as int,
        ));
        assert(spec_emit_children_from(cs, i) == spec_emit_child(cs[i]).add(
            spec_emit_children_from(cs, i + 1),
        ));
        match cs[i] {
            SpecChild::Expr(e) => {
                assert(spec_emit_child(cs[i]) =~= seq![
                    SpecOutToken::Expr(e),
                    SpecOutToken::Comma,
                ]);
                let pre2 = pre.add(seq![SpecOutToken::Expr(e), SpecOutToken::Comma]);
                lemma_read_emit_children(cs, i + 1, pre2, tail);
                assert(pre2.add(spec_emit_children_from(cs, i + 1)).add(tail) =~= out);
                assert(out[pos] == SpecOutToken::Expr(e));
                assert(out[pos + 1] is Comma);
                assert(spec_read_children(out, pos + 2) == Some::<(Seq<SpecChild>, int)>(
                    (
                        cs.subrange(i + 1, cs.len() as int),
                        pre2.len() + spec_emit_children_from(cs, i + 1).len() as int,
                    ),
                ));
            },
            SpecChild::Elem(el) => {
                assert(spec_emit_attrs_from(el.attrs, 0) =~= Seq::<SpecOutToken>::empty());
                let head = seq![SpecOutToken::Ident(el.name), SpecOutToken::OpenBrace];
                let inner = spec_emit_children_from(el.children, 0);
                let close = seq![SpecOutToken::CloseBrace, SpecOutToken::Comma];
                assert(spec_emit_child(cs[i]) =~= head.add(inner).add(close));
                let pre2 = pre.add(head);
                let tail2 = close.add(spec_emit_children_from(cs, i + 1)).add(tail);
                lemma_read_emit_children(el.children, 0, pre2, tail2);
                assert(pre2.add(inner).add(tail2) =~= out);
                assert(el.children.subrange(0, el.children.len() as int) =~= el.children);
                let p3 = pre2.len() + inner.len() as int;
                assert(spec_read_children(out, pos + 2) == Some::<(Seq<SpecChild>, int)>(
                    (el.children, p3),
                ));
                assert(out[pos] == SpecOutToken::Ident(el.name));
                assert(out[pos + 1] is OpenBrace);
                assert(out[p3] is CloseBrace);
                assert(out[p3 + 1] is Comma);
                let pre3 = pre.add(spec_emit_child(cs[i]));
                lemma_read_emit_children(cs, i + 1, pre3, tail);
                assert(pre3.add(spec_emit_children_from(cs, i + 1)).add(tail) =~= out);
                assert(pre3.len() == p3 + 2);
                assert(spec_read_children(out, p3 + 2) == Some::<(Seq<SpecChild>, int)>(
                    (
                        cs.subrange(i + 1, cs.len() as int),
                        pre3.len() + spec_emit_children_from(cs, i + 1).len() as int,
                    ),
                ));
                assert(el.attrs =~= Seq::<SpecAttr>::empty());
                assert(SpecElem { name: el.name, attrs: seq![], children: el.children } == el);
            },
        }
    }
}

/// Round-trip: emitting an attribute-free document and reading the emitted
/// nested-call structure back yields exactly the tree that was emitted —
/// the names, the child counts and the child order all survive.
pub proof fn lemma_emit_round_trip(cs: Seq<SpecChild>)
    requires
        spec_attr_free_children(cs, 0),
    ensures
        spec_read_children(crate::emit::spec_emit_document(cs), 0) == Some::<
            (Seq<SpecChild>, int),
        >((cs, crate::emit::spec_emit_document(cs).len() as int)),
{
    lemma_read_emit_children(cs, 0, seq![], seq![]);
    assert(Seq::<SpecOutToken>::empty().add(spec_emit_children_from(cs, 0)).add(
        Seq::<SpecOutToken>::empty(),
    ) =~= crate::emit::spec_emit_document(cs));
    assert(cs.subrange(0, cs.len() as int) =~= cs);
}

} // verus!
