//! The element tree builder: one pass over the token stream, driven by an
//! explicit heap-allocated stack of in-progress frames. Its auxiliary native
//! call depth is constant — nesting depth only grows the frame stack — which
//! is the reason this module exists in this shape.

use vstd::prelude::*;
use crate::token::{Ident, Token};
use crate::error::{ParseError, SpecError};
use crate::attribute::Attributes;
use crate::tag::{CloseTag, OpenTag};
use crate::element::{
    Child, Document, Element, SpecChild, lemma_children_view_push, spec_child_view,
    spec_children_view,
};
use crate::grammar::{
    SpecFrame, lemma_resume_close, lemma_resume_eof, lemma_resume_expr, lemma_resume_open,
    lemma_resume_open_err, lemma_resume_self_closing, lemma_resume_stray, spec_parse_document,
};

verus! {

/// An element whose closing tag has not been seen yet: its opening tag's
/// name and attributes, and the children gathered so far.
pub struct Frame {
    pub name: Ident,
    pub attributes: Attributes,
    pub children: Vec<Child>,
}

/// The children gathered so far in the innermost open context: the top
/// frame's, or the document root's when no tag is open.
spec fn spec_acc(root: Seq<Child>, stack: Seq<Frame>) -> Seq<SpecChild> {
    if stack.len() == 0 {
        spec_children_view(root)
    } else {
        spec_children_view(stack.last().children@)
    }
}

/// The ghost frames matching the builder's stack: each open tag, paired with
/// the children its surrounding context had gathered when it opened.
spec fn spec_frames(root: Seq<Child>, stack: Seq<Frame>) -> Seq<SpecFrame> {
    Seq::new(
        stack.len(),
        |i: int|
            SpecFrame {
                name: stack[i].name@,
                attrs: stack[i].attributes@,
                outer: if i == 0 {
                    spec_children_view(root)
                } else {
                    spec_children_view(stack[i - 1].children@)
                },
            },
    )
}

/// Append a child to the innermost open context: the top frame's children,
/// or the document root when no tag is open.
fn push_child(root: &mut Vec<Child>, stack: &mut Vec<Frame>, c: Child)
    ensures
        old(stack)@.len() == 0 ==> {
            &&& final(root)@ == old(root)@.push(c)
            &&& final(stack)@ == old(stack)@
        },
        old(stack)@.len() > 0 ==> {
            &&& final(root)@ == old(root)@
            &&& final(stack)@.len() == old(stack)@.len()
            &&& final(stack)@.last().children@ == old(stack)@.last().children@.push(c)
            &&& final(stack)@.last().name == old(stack)@.last().name
            &&& final(stack)@.last().attributes == old(stack)@.last().attributes
            &&& forall|i: int| 0 <= i < old(stack)@.len() - 1 ==> final(stack)@[i] == old(stack)@[i]
        },
{
    if stack.len() == 0 {
        root.push(c);
    } else {
        let mut f = stack.pop().unwrap();
        f.children.push(c);
        stack.push(f);
    }
}

/// Parse a whole token stream into the document's element tree, or report
/// the first error. The traversal is iterative: its native call depth does
/// not grow with the input's nesting depth.
pub fn parse_document(toks: &Vec<Token>) -> (r: Result<Document, ParseError>)
    ensures
        match r {
            Ok(doc) => spec_parse_document(toks@) == Ok::<_, SpecError>(doc@),
            Err(e) => spec_parse_document(toks@) == Err::<Seq<SpecChild>, _>(e@),
        },
{
    let ghost t = toks@;
    let mut pos: usize = 0;
    let mut root: Vec<Child> = Vec::new();
    let mut stack: Vec<Frame> = Vec::new();
    proof {
        assert(spec_acc(root@, stack@) =~= seq![]);
        assert(spec_frames(root@, stack@) =~= seq![]);
    }
    loop
        invariant
            pos <= t.len(),
            t == toks@,
            spec_parse_document(t) == crate::grammar::spec_resume(
                t,
                pos as int,
                spec_acc(root@, stack@),
                spec_frames(root@, stack@),
            ),
        decreases t.len() - pos,
    {
        let ghost accg = spec_acc(root@, stack@);
        let ghost fsg = spec_frames(root@, stack@);
        if pos == toks.len() {
            proof {
                lemma_resume_eof(t, accg, fsg);
            }
            if stack.len() == 0 {
                return Ok(Document { children: root });
            } else {
                proof {
                    assert(fsg.last().name == stack@.last().name@);
                }
                let f = stack.pop().unwrap();
                return Err(ParseError::Unclosed { open: f.name });
            }
        }
        match &toks[pos] {
            Token::Expr(e) => {
                let ec = *e;
                proof {
                    lemma_resume_expr(t, pos as int, accg, fsg, ec);
                }
                let ghost old_root = root@;
                let ghost old_stack = stack@;
                push_child(&mut root, &mut stack, Child::Expr(ec));
                proof {
                    if old_stack.len() == 0 {
                        lemma_children_view_push(old_root, Child::Expr(ec));
                    } else {
                        lemma_children_view_push(old_stack.last().children@, Child::Expr(ec));
                    }
                    assert(spec_child_view(Child::Expr(ec)) == SpecChild::Expr(ec));
                    assert(spec_acc(root@, stack@) == accg.push(SpecChild::Expr(ec)));
                    assert(spec_frames(root@, stack@) =~= fsg);
                }
                pos = pos + 1;
            },
            Token::Lt(_) => {
                let close_next = pos + 1 < toks.len() && (match &toks[pos + 1] {
                    Token::Slash(_) => true,
                    _ => false,
                });
                if close_next {
                    proof {
                        lemma_resume_close(t, pos as int, accg, fsg);
                    }
                    match CloseTag::parse(toks, pos) {
                        Err(e) => {
                            return Err(e);
                        },
                        Ok((ct, p3)) => {
                            if stack.len() == 0 {
                                return Err(
                                    ParseError::Mismatch { open: None, close: ct.name },
                                );
                            }
                            proof {
                                assert(fsg.last() == SpecFrame {
                                    name: stack@.last().name@,
                                    attrs: stack@.last().attributes@,
                                    outer: if stack@.len() == 1 {
                                        spec_children_view(root@)
                                    } else {
                                        spec_children_view(
                                            stack@[stack@.len() - 2].children@,
                                        )
                                    },
                                });
                            }
                            let f = stack.pop().unwrap();
                            if f.name.name == ct.name.name {
                                let ghost old_root = root@;
                                let ghost old_stack = stack@;
                                let elem = Element {
                                    name: f.name,
                                    attributes: f.attributes,
                                    children: f.children,
                                };
                                let ghost elemc = Child::Element(elem);
                                push_child(&mut root, &mut stack, Child::Element(elem));
                                proof {
                                    if old_stack.len() == 0 {
                                        lemma_children_view_push(old_root, elemc);
                                    } else {
                                        lemma_children_view_push(
                                            old_stack.last().children@,
                                            elemc,
                                        );
                                    }
                                    assert(spec_child_view(elemc) == SpecChild::Elem(
                                        crate::element::SpecElem {
                                            name: fsg.last().name,
                                            attrs: fsg.last().attrs,
                                            children: accg,
                                        },
                                    ));
                                    assert(spec_acc(root@, stack@) == fsg.last().outer.push(
                                        spec_child_view(elemc),
                                    ));
                                    assert(spec_frames(root@, stack@) =~= fsg.drop_last());
                                }
                                pos = p3;
                            } else {
                                return Err(
                                    ParseError::Mismatch { open: Some(f.name), close: ct.name },
                                );
                            }
                        },
                    }
                } else {
                    match OpenTag::parse(toks, pos) {
                        Err(e) => {
                            proof {
                                lemma_resume_open_err(t, pos as int, accg, fsg);
                            }
                            return Err(e);
                        },
                        Ok((tag, p2)) => {
                            if tag.self_closing {
                                proof {
                                    lemma_resume_self_closing(
                                        t,
                                        pos as int,
                                        accg,
                                        fsg,
                                        tag@,
                                        p2 as int,
                                    );
                                }
                                let ghost old_root = root@;
                                let ghost old_stack = stack@;
                                let ghost tagv = tag@;
                                let elem = Element {
                                    name: tag.name,
                                    attributes: tag.attributes,
                                    children: Vec::new(),
                                };
                                let ghost elemc = Child::Element(elem);
                                push_child(&mut root, &mut stack, Child::Element(elem));
                                proof {
                                    if old_stack.len() == 0 {
                                        lemma_children_view_push(old_root, elemc);
                                    } else {
                                        lemma_children_view_push(
                                            old_stack.last().children@,
                                            elemc,
                                        );
                                    }
                                    assert(spec_children_view(elemc->Element_0.children@)
                                        =~= seq![]);
                                    assert(spec_child_view(elemc) == SpecChild::Elem(
                                        crate::element::SpecElem {
                                            name: tagv.name,
                                            attrs: tagv.attrs,
                                            children: seq![],
                                        },
                                    ));
                                    assert(spec_acc(root@, stack@) == accg.push(
                                        spec_child_view(elemc),
                                    ));
                                    assert(spec_frames(root@, stack@) =~= fsg);
                                }
                                pos = p2;
                            } else {
                                proof {
                                    lemma_resume_open(t, pos as int, accg, fsg, tag@, p2 as int);
                                }
                                let ghost tagv = tag@;
                                stack.push(
                                    Frame {
                                        name: tag.name,
                                        attributes: tag.attributes,
                                        children: Vec::new(),
                                    },
                                );
                                proof {
                                    assert(spec_children_view(stack@.last().children@)
                                        =~= seq![]);
                                    assert(spec_acc(root@, stack@) =~= seq![]);
                                    assert(spec_frames(root@, stack@) =~= fsg.push(
                                        SpecFrame {
                                            name: tagv.name,
                                            attrs: tagv.attrs,
                                            outer: accg,
                                        },
                                    ));
                                }
                                pos = p2;
                            }
                        },
                    }
                }
            },
            other => {
                proof {
                    lemma_resume_stray(t, pos as int, accg, fsg);
                }
                return Err(ParseError::Syntax { span: other.token_span() });
            },
        }
    }
}

} // verus!
