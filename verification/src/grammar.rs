//! The grammar of the mini-language, as a ghost recursive-descent parser:
//!
//! ```text
//! Document  := Child* ;
//! Child     := Element | Expression ;
//! Element   := OpenTag Child* CloseTag | SelfClosingTag ;
//! ```
//!
//! [`spec_parse_document`] is the meaning the executable builder is held to.
//! It is phrased through [`spec_resume`], which generalizes the document
//! parse to "continue from `pos` inside a stack of still-open tags": that
//! generalization is exactly the shape of the builder's loop invariant, and
//! one unfolding with an empty stack is the plain recursive grammar above.

use vstd::prelude::*;
use crate::token::{SpecIdent, Token, spec_end_span, spec_token_span};
use crate::error::SpecError;
use crate::attribute::SpecAttr;
use crate::tag::{
    SpecOpenTag, lemma_close_tag_progress, lemma_open_tag_progress, spec_parse_close_tag,
    spec_parse_open_tag,
};
use crate::element::{SpecChild, SpecElem};

verus! {

/// A still-open tag, together with the children already gathered in the
/// context that surrounds it.
pub struct SpecFrame {
    pub name: SpecIdent,
    pub attrs: Seq<SpecAttr>,
    pub outer: Seq<SpecChild>,
}

/// Whether a closing tag begins at `pos`.
pub open spec fn spec_close_ahead(toks: Seq<Token>, pos: int) -> bool {
    &&& 0 <= pos
    &&& pos + 1 < toks.len()
    &&& toks[pos] is Lt
    &&& toks[pos + 1] is Slash
}

/// Parse children at `pos` until end of input or a closing tag is ahead:
/// elements and opaque expressions, in source order. Any other token is a
/// syntax error at its span.
pub open spec fn spec_parse_children(toks: Seq<Token>, pos: int) -> Result<
    (Seq<SpecChild>, int),
    SpecError,
>
    decreases toks.len() - pos, 1int,
{
    if !(0 <= pos < toks.len()) || spec_close_ahead(toks, pos) {
        Ok((seq![], pos))
    } else {
        match toks[pos] {
            Token::Expr(e) => match spec_parse_children(toks, pos + 1) {
                Err(er) => Err(er),
                Ok((cs, end)) => Ok((seq![SpecChild::Expr(e)].add(cs), end)),
            },
            Token::Lt(_) => match spec_parse_element(toks, pos) {
                Err(er) => Err(er),
                // The bound on `p2` keeps the recursion well-founded; a
                // successful element parse always stays within it.
                Ok((c, p2)) => if pos < p2 <= toks.len() {
                    match spec_parse_children(toks, p2) {
                        Err(er) => Err(er),
                        Ok((cs, end)) => Ok((seq![c].add(cs), end)),
                    }
                } else {
                    Err(SpecError::Syntax { span: spec_end_span(toks) })
                },
            },
            t => Err(SpecError::Syntax { span: spec_token_span(t) }),
        }
    }
}

/// Parse one element at `pos`: an opening tag, then — unless it closes
/// itself — its children, then a closing tag whose name must equal the
/// opening tag's (else a mismatch error); an opening tag still unmatched at
/// end of input is an unclosed-tag error.
pub open spec fn spec_parse_element(toks: Seq<Token>, pos: int) -> Result<
    (SpecChild, int),
    SpecError,
>
    decreases toks.len() - pos, 0int,
{
    match spec_parse_open_tag(toks, pos) {
        Err(e) => Err(e),
        Ok((tag, p2)) => if tag.self_closing {
            Ok(
                (
                    SpecChild::Elem(
                        SpecElem { name: tag.name, attrs: tag.attrs, children: seq![] },
                    ),
                    p2,
                ),
            )
        } else if pos < p2 <= toks.len() {
            match spec_parse_children(toks, p2) {
                Err(e) => Err(e),
                Ok((cs, p3)) => if p3 >= toks.len() {
                    Err(SpecError::Unclosed { open: tag.name })
                } else {
                    match spec_parse_close_tag(toks, p3) {
                        Err(e) => Err(e),
                        Ok((close, p4)) => if close.name == tag.name.name {
                            Ok(
                                (
                                    SpecChild::Elem(
                                        SpecElem {
                                            name: tag.name,
                                            attrs: tag.attrs,
                                            children: cs,
                                        },
                                    ),
                                    p4,
                                ),
                            )
                        } else {
                            Err(SpecError::Mismatch { open: Some(tag.name), close })
                        },
                    }
                },
            }
        } else {
            Err(SpecError::Syntax { span: spec_end_span(toks) })
        },
    }
}

/// Continue the document parse from `pos`, with `acc` the children already
/// gathered in the innermost open context and `fs` the still-open tags
/// (innermost last).
pub open spec fn spec_resume(
    toks: Seq<Token>,
    pos: int,
    acc: Seq<SpecChild>,
    fs: Seq<SpecFrame>,
) -> Result<Seq<SpecChild>, SpecError>
    decreases toks.len() - pos, fs.len(), 1int,
{
    match spec_parse_children(toks, pos) {
        Err(e) => Err(e),
        Ok((cs, p2)) => if pos <= p2 <= toks.len() {
            spec_resume_at(toks, p2, acc.add(cs), fs)
        } else {
            Err(SpecError::Syntax { span: spec_end_span(toks) })
        },
    }
}

/// Continue the document parse at a stop of the children parser: end of
/// input (every tag must be closed) or a closing tag (which must match the
/// innermost open tag, completing one element).
pub open spec fn spec_resume_at(
    toks: Seq<Token>,
    pos: int,
    acc: Seq<SpecChild>,
    fs: Seq<SpecFrame>,
) -> Result<Seq<SpecChild>, SpecError>
    decreases toks.len() - pos, fs.len(), 0int,
{
    if fs.len() == 0 {
        if pos >= toks.len() {
            Ok(acc)
        } else {
            match spec_parse_close_tag(toks, pos) {
                Err(e) => Err(e),
                Ok((close, _)) => Err(SpecError::Mismatch { open: None, close }),
            }
        }
    } else {
        let f = fs.last();
        if pos >= toks.len() {
            Err(SpecError::Unclosed { open: f.name })
        } else {
            match spec_parse_close_tag(toks, pos) {
                Err(e) => Err(e),
                Ok((close, p3)) => if close.name == f.name.name {
                    if pos < p3 <= toks.len() {
                        spec_resume(
                            toks,
                            p3,
                            f.outer.push(
                                SpecChild::Elem(
                                    SpecElem { name: f.name, attrs: f.attrs, children: acc },
                                ),
                            ),
                            fs.drop_last(),
                        )
                    } else {
                        Err(SpecError::Syntax { span: spec_end_span(toks) })
                    }
                } else {
                    Err(SpecError::Mismatch { open: Some(f.name), close })
                },
            }
        }
    }
}

/// What parsing a whole token stream yields: the top-level children of the
/// document, or the first error.
pub open spec fn spec_parse_document(toks: Seq<Token>) -> Result<Seq<SpecChild>, SpecError> {
    spec_resume(toks, 0, seq![], seq![])
}

/// The children parser never moves backwards nor past the end of the input.
pub proof fn lemma_children_progress(toks: Seq<Token>, pos: int)
    requires
        0 <= pos <= toks.len(),
    ensures
        match spec_parse_children(toks, pos) {
            Ok((_, p2)) => pos <= p2 <= toks.len(),
            Err(_) => true,
        },
    decreases toks.len() - pos, 1int,
{
    if 0 <= pos < toks.len() && !spec_close_ahead(toks, pos) {
        match toks[pos] {
            Token::Expr(_) => {
                lemma_children_progress(toks, pos + 1);
            },
            Token::Lt(_) => {
                lemma_element_progress(toks, pos);
                match spec_parse_element(toks, pos) {
                    Err(_) => {},
                    Ok((_, p2)) => {
                        lemma_children_progress(toks, p2);
                    },
                }
            },
            _ => {},
        }
    }
}

/// A successful element parse consumes at least one token and ends within
/// the input.
pub proof fn lemma_element_progress(toks: Seq<Token>, pos: int)
    requires
        0 <= pos <= toks.len(),
    ensures
        match spec_parse_element(toks, pos) {
            Ok((_, p4)) => pos < p4 <= toks.len(),
            Err(_) => true,
        },
    decreases toks.len() - pos, 0int,
{
    lemma_open_tag_progress(toks, pos);
    match spec_parse_open_tag(toks, pos) {
        Err(_) => {},
        Ok((tag, p2)) => {
            if !tag.self_closing {
                lemma_children_progress(toks, p2);
                match spec_parse_children(toks, p2) {
                    Err(_) => {},
                    Ok((_, p3)) => {
                        if p3 < toks.len() {
                            lemma_close_tag_progress(toks, p3);
                        }
                    },
                }
            }
        },
    }
}

/// At end of input, the parse finishes with the gathered children — or
/// reports the innermost still-open tag.
pub proof fn lemma_resume_eof(toks: Seq<Token>, acc: Seq<SpecChild>, fs: Seq<SpecFrame>)
    ensures
        spec_resume(toks, toks.len() as int, acc, fs) == if fs.len() == 0 {
            Ok::<_, SpecError>(acc)
        } else {
            Err::<Seq<SpecChild>, _>(SpecError::Unclosed { open: fs.last().name })
        },
{
    assert(acc.add(seq![]) =~= acc);
}

/// A token that can start neither a tag nor a child expression is a syntax
/// error at its own span.
pub proof fn lemma_resume_stray(
    toks: Seq<Token>,
    pos: int,
    acc: Seq<SpecChild>,
    fs: Seq<SpecFrame>,
)
    requires
        0 <= pos < toks.len(),
        !(toks[pos] is Lt),
        !(toks[pos] is Expr),
    ensures
        spec_resume(toks, pos, acc, fs) == Err::<Seq<SpecChild>, _>(
            SpecError::Syntax { span: spec_token_span(toks[pos]) },
        ),
{
}

/// Reading one child expression extends the gathered children.
pub proof fn lemma_resume_expr(
    toks: Seq<Token>,
    pos: int,
    acc: Seq<SpecChild>,
    fs: Seq<SpecFrame>,
    e: crate::token::RsxExpr,
)
    requires
        0 <= pos < toks.len(),
        toks[pos] == Token::Expr(e),
    ensures
        spec_resume(toks, pos, acc, fs) == spec_resume(
            toks,
            pos + 1,
            acc.push(SpecChild::Expr(e)),
            fs,
        ),
{
    lemma_children_progress(toks, pos + 1);
    match spec_parse_children(toks, pos + 1) {
        Err(_) => {},
        Ok((cs, _)) => {
            assert(acc.add(seq![SpecChild::Expr(e)].add(cs)) =~= acc.push(
                SpecChild::Expr(e),
            ).add(cs));
        },
    }
}

/// A failing opening tag fails the parse with its own error.
pub proof fn lemma_resume_open_err(
    toks: Seq<Token>,
    pos: int,
    acc: Seq<SpecChild>,
    fs: Seq<SpecFrame>,
)
    requires
        0 <= pos < toks.len(),
        toks[pos] is Lt,
        !spec_close_ahead(toks, pos),
        spec_parse_open_tag(toks, pos) is Err,
    ensures
        spec_resume(toks, pos, acc, fs) == Err::<Seq<SpecChild>, _>(
            match spec_parse_open_tag(toks, pos) {
                Err(e) => e,
                Ok(_) => arbitrary(),
            },
        ),
{
    let e = match spec_parse_open_tag(toks, pos) {
        Err(e) => e,
        Ok(_) => arbitrary(),
    };
    assert(spec_parse_element(toks, pos) == Err::<(SpecChild, int), _>(e));
    assert(spec_parse_children(toks, pos) == Err::<(Seq<SpecChild>, int), _>(e));
}

/// Reading a self-closing tag appends a childless element.
pub proof fn lemma_resume_self_closing(
    toks: Seq<Token>,
    pos: int,
    acc: Seq<SpecChild>,
    fs: Seq<SpecFrame>,
    tag: SpecOpenTag,
    p2: int,
)
    requires
        0 <= pos <= toks.len(),
        spec_parse_open_tag(toks, pos) == Ok::<_, SpecError>((tag, p2)),
        tag.self_closing,
    ensures
        spec_resume(toks, pos, acc, fs) == spec_resume(
            toks,
            p2,
            acc.push(
                SpecChild::Elem(SpecElem { name: tag.name, attrs: tag.attrs, children: seq![] }),
            ),
            fs,
        ),
{
    lemma_open_tag_progress(toks, pos);
    let elem = SpecChild::Elem(SpecElem { name: tag.name, attrs: tag.attrs, children: seq![] });
    assert(!spec_close_ahead(toks, pos));
    assert(spec_parse_element(toks, pos) == Ok::<_, SpecError>((elem, p2)));
    lemma_children_progress(toks, p2);
    match spec_parse_children(toks, p2) {
        Err(_) => {},
        Ok((cs, _)) => {
            assert(acc.add(seq![elem].add(cs)) =~= acc.push(elem).add(cs));
        },
    }
}

/// Reading an ordinary opening tag opens a new frame whose surrounding
/// context keeps the children gathered so far.
pub proof fn lemma_resume_open(
    toks: Seq<Token>,
    pos: int,
    acc: Seq<SpecChild>,
    fs: Seq<SpecFrame>,
    tag: SpecOpenTag,
    p2: int,
)
    requires
        0 <= pos <= toks.len(),
        spec_parse_open_tag(toks, pos) == Ok::<_, SpecError>((tag, p2)),
        !tag.self_closing,
    ensures
        spec_resume(toks, pos, acc, fs) == spec_resume(
            toks,
            p2,
            seq![],
            fs.push(SpecFrame { name: tag.name, attrs: tag.attrs, outer: acc }),
        ),
    decreases toks.len() - pos,
{
    lemma_open_tag_progress(toks, pos);
    let fs2 = fs.push(SpecFrame { name: tag.name, attrs: tag.attrs, outer: acc });
    assert(!spec_close_ahead(toks, pos));
    assert(fs2.last() == SpecFrame { name: tag.name, attrs: tag.attrs, outer: acc });
    assert(fs2.drop_last() =~= fs);
    lemma_children_progress(toks, p2);
    match spec_parse_children(toks, p2) {
        Err(e) => {
            assert(spec_parse_element(toks, pos) == Err::<(SpecChild, int), _>(e));
            assert(spec_parse_children(toks, pos) == Err::<(Seq<SpecChild>, int), _>(e));
            assert(spec_resume(toks, p2, seq![], fs2) == Err::<Seq<SpecChild>, _>(e));
        },
        Ok((cs_in, p3)) => {
            assert(seq![].add(cs_in) =~= cs_in);
            assert(spec_resume(toks, p2, seq![], fs2) == spec_resume_at(toks, p3, cs_in, fs2));
            if p3 >= toks.len() {
                assert(spec_parse_element(toks, pos) == Err::<(SpecChild, int), _>(
                    SpecError::Unclosed { open: tag.name },
                ));
                assert(spec_resume_at(toks, p3, cs_in, fs2) == Err::<Seq<SpecChild>, _>(
                    SpecError::Unclosed { open: tag.name },
                ));
            } else {
                lemma_close_tag_progress(toks, p3);
                match spec_parse_close_tag(toks, p3) {
                    Err(e) => {
                        assert(spec_parse_element(toks, pos) == Err::<(SpecChild, int), _>(e));
                        assert(spec_resume_at(toks, p3, cs_in, fs2) == Err::<
                            Seq<SpecChild>,
                            _,
                        >(e));
                    },
                    Ok((close, p4)) => {
                        if close.name == tag.name.name {
                            let elem = SpecChild::Elem(
                                SpecElem { name: tag.name, attrs: tag.attrs, children: cs_in },
                            );
                            assert(spec_parse_element(toks, pos) == Ok::<_, SpecError>(
                                (elem, p4),
                            ));
                            assert(spec_resume_at(toks, p3, cs_in, fs2) == spec_resume(
                                toks,
                                p4,
                                acc.push(elem),
                                fs,
                            ));
                            lemma_children_progress(toks, p4);
                            match spec_parse_children(toks, p4) {
                                Err(e) => {
                                    assert(spec_parse_children(toks, pos) == Err::<
                                        (Seq<SpecChild>, int),
                                        _,
                                    >(e));
                                },
                                Ok((cs_rest, p5)) => {
                                    assert(spec_parse_children(toks, pos) == Ok::<
                                        _,
                                        SpecError,
                                    >((seq![elem].add(cs_rest), p5)));
                                    assert(acc.add(seq![elem].add(cs_rest)) =~= acc.push(
                                        elem,
                                    ).add(cs_rest));
                                    assert(spec_resume(toks, pos, acc, fs) == spec_resume_at(
                                        toks,
                                        p5,
                                        acc.push(elem).add(cs_rest),
                                        fs,
                                    ));
                                },
                            }
                        } else {
                            assert(spec_parse_element(toks, pos) == Err::<(SpecChild, int), _>(
                                SpecError::Mismatch { open: Some(tag.name), close },
                            ));
                            assert(spec_resume_at(toks, p3, cs_in, fs2) == Err::<
                                Seq<SpecChild>,
                                _,
                            >(SpecError::Mismatch { open: Some(tag.name), close }));
                        }
                    },
                }
            }
        },
    }
}

/// A closing tag either completes the innermost open element — resuming in
/// the surrounding context — or reports a mismatch.
pub proof fn lemma_resume_close(
    toks: Seq<Token>,
    pos: int,
    acc: Seq<SpecChild>,
    fs: Seq<SpecFrame>,
)
    requires
        0 <= pos < toks.len(),
        spec_close_ahead(toks, pos),
    ensures
        spec_resume(toks, pos, acc, fs) == (match spec_parse_close_tag(toks, pos) {
            Err(e) => Err::<Seq<SpecChild>, _>(e),
            Ok((close, p3)) => if fs.len() == 0 {
                Err(SpecError::Mismatch { open: None, close })
            } else if close.name == fs.last().name.name {
                spec_resume(
                    toks,
                    p3,
                    fs.last().outer.push(
                        SpecChild::Elem(
                            SpecElem {
                                name: fs.last().name,
                                attrs: fs.last().attrs,
                                children: acc,
                            },
                        ),
                    ),
                    fs.drop_last(),
                )
            } else {
                Err(SpecError::Mismatch { open: Some(fs.last().name), close })
            },
        }),
{
    lemma_close_tag_progress(toks, pos);
    assert(spec_parse_children(toks, pos) == Ok::<_, SpecError>((Seq::<SpecChild>::empty(), pos)));
    assert(acc.add(Seq::<SpecChild>::empty()) =~= acc);
}

} // verus!
