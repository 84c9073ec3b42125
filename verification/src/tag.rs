//! Opening tags `<name attr=value ... [/]>` and closing tags `</name>`.

use vstd::prelude::*;
use crate::token::{Ident, SpecIdent, Token, spec_end_span, spec_token_span};
use crate::error::{ParseError, SpecError};
use crate::attribute::{Attributes, SpecAttr, spec_parse_attributes};

verus! {

/// A parsed opening tag: `<name attr=value ... >`, or `<name attr=value ... />`
/// when `self_closing`.
#[derive(Debug)]
pub struct OpenTag {
    pub name: Ident,
    pub attributes: Attributes,
    pub self_closing: bool,
}

/// The ghost image of an [`OpenTag`].
pub struct SpecOpenTag {
    pub name: SpecIdent,
    pub attrs: Seq<SpecAttr>,
    pub self_closing: bool,
}

impl View for OpenTag {
    type V = SpecOpenTag;

    open spec fn view(&self) -> SpecOpenTag {
        SpecOpenTag { name: self.name@, attrs: self.attributes@, self_closing: self.self_closing }
    }
}

/// A parsed closing tag: `</name>`.
#[derive(Debug)]
pub struct CloseTag {
    pub name: Ident,
}

impl View for CloseTag {
    type V = SpecIdent;

    open spec fn view(&self) -> SpecIdent {
        self.name@
    }
}

/// What parsing an opening tag at `pos` yields: `<`, the tag name, the
/// attribute list, an optional `/`, then `>`. A missing or wrong token is a
/// syntax error at that token's span (or at the end span when input ends).
pub open spec fn spec_parse_open_tag(toks: Seq<Token>, pos: int) -> Result<
    (SpecOpenTag, int),
    SpecError,
> {
    if !(0 <= pos < toks.len()) {
        Err(SpecError::Syntax { span: spec_end_span(toks) })
    } else if !(toks[pos] is Lt) {
        Err(SpecError::Syntax { span: spec_token_span(toks[pos]) })
    } else if !(pos + 1 < toks.len()) {
        Err(SpecError::Syntax { span: spec_end_span(toks) })
    } else {
        match toks[pos + 1] {
            Token::Ident(name) => match spec_parse_attributes(toks, pos + 2) {
                Err(e) => Err(e),
                Ok((attrs, p2)) => {
                    if 0 <= p2 < toks.len() && (toks[p2] is Slash) {
                        if p2 + 1 < toks.len() && (toks[p2 + 1] is Gt) {
                            Ok(
                                (
                                    SpecOpenTag { name: name@, attrs, self_closing: true },
                                    p2 + 2,
                                ),
                            )
                        } else if p2 + 1 < toks.len() {
                            Err(SpecError::Syntax { span: spec_token_span(toks[p2 + 1]) })
                        } else {
                            Err(SpecError::Syntax { span: spec_end_span(toks) })
                        }
                    } else if 0 <= p2 < toks.len() && (toks[p2] is Gt) {
                        Ok((SpecOpenTag { name: name@, attrs, self_closing: false }, p2 + 1))
                    } else if 0 <= p2 < toks.len() {
                        Err(SpecError::Syntax { span: spec_token_span(toks[p2]) })
                    } else {
                        Err(SpecError::Syntax { span: spec_end_span(toks) })
                    }
                },
            },
            t => Err(SpecError::Syntax { span: spec_token_span(t) }),
        }
    }
}

/// What parsing a closing tag at `pos` yields: `<`, `/`, the tag name, `>` —
/// four tokens.
pub open spec fn spec_parse_close_tag(toks: Seq<Token>, pos: int) -> Result<
    (SpecIdent, int),
    SpecError,
> {
    if !(0 <= pos < toks.len()) {
        Err(SpecError::Syntax { span: spec_end_span(toks) })
    } else if !(toks[pos] is Lt) {
        Err(SpecError::Syntax { span: spec_token_span(toks[pos]) })
    } else if !(pos + 1 < toks.len()) {
        Err(SpecError::Syntax { span: spec_end_span(toks) })
    } else if !(toks[pos + 1] is Slash) {
        Err(SpecError::Syntax { span: spec_token_span(toks[pos + 1]) })
    } else if !(pos + 2 < toks.len()) {
        Err(SpecError::Syntax { span: spec_end_span(toks) })
    } else {
        match toks[pos + 2] {
            Token::Ident(name) => {
                if !(pos + 3 < toks.len()) {
                    Err(SpecError::Syntax { span: spec_end_span(toks) })
                } else if !(toks[pos + 3] is Gt) {
                    Err(SpecError::Syntax { span: spec_token_span(toks[pos + 3]) })
                } else {
                    Ok((name@, pos + 4))
                }
            },
            t => Err(SpecError::Syntax { span: spec_token_span(t) }),
        }
    }
}

/// A successful opening-tag parse starts with `<` and an identifier and
/// consumes at least three tokens, ending within the input.
pub proof fn lemma_open_tag_progress(toks: Seq<Token>, pos: int)
    requires
        0 <= pos <= toks.len(),
    ensures
        match spec_parse_open_tag(toks, pos) {
            Ok((_, next)) => pos + 3 <= next <= toks.len() && (toks[pos] is Lt) && pos + 1
                < toks.len() && (toks[pos + 1] is Ident),
            Err(_) => true,
        },
{
    if 0 <= pos < toks.len() && (toks[pos] is Lt) && pos + 1 < toks.len() && (toks[pos
        + 1] is Ident) {
        crate::attribute::lemma_attributes_progress(toks, pos + 2);
    }
}

/// A successful closing-tag parse starts with `<` `/` and consumes exactly
/// four tokens, ending within the input.
pub proof fn lemma_close_tag_progress(toks: Seq<Token>, pos: int)
    requires
        0 <= pos <= toks.len(),
    ensures
        match spec_parse_close_tag(toks, pos) {
            Ok((_, next)) => next == pos + 4 && next <= toks.len() && (toks[pos] is Lt) && pos + 1
                < toks.len() && (toks[pos + 1] is Slash),
            Err(_) => true,
        },
{
}

/// The view of an open-tag parse result.
pub open spec fn open_tag_res_view(r: Result<(OpenTag, usize), ParseError>) -> Result<
    (SpecOpenTag, int),
    SpecError,
> {
    match r {
        Ok((tag, next)) => Ok((tag@, next as int)),
        Err(e) => Err(e@),
    }
}

/// The view of a close-tag parse result.
pub open spec fn close_tag_res_view(r: Result<(CloseTag, usize), ParseError>) -> Result<
    (SpecIdent, int),
    SpecError,
> {
    match r {
        Ok((tag, next)) => Ok((tag@, next as int)),
        Err(e) => Err(e@),
    }
}

impl OpenTag {
    /// Parse an opening tag at `pos`.
    pub fn parse(toks: &Vec<Token>, pos: usize) -> (r: Result<(OpenTag, usize), ParseError>)
        requires
            pos <= toks@.len(),
        ensures
            open_tag_res_view(r) == spec_parse_open_tag(toks@, pos as int),
            r is Ok ==> pos < r.unwrap().1 <= toks@.len(),
    {
        if pos == toks.len() {
            return Err(ParseError::Syntax { span: crate::token::end_span(toks) });
        }
        match &toks[pos] {
            Token::Lt(_) => (),
            t => {
                return Err(ParseError::Syntax { span: t.token_span() });
            },
        }
        if pos + 1 == toks.len() {
            return Err(ParseError::Syntax { span: crate::token::end_span(toks) });
        }
        let name = match &toks[pos + 1] {
            Token::Ident(name) => name.duplicate(),
            t => {
                return Err(ParseError::Syntax { span: t.token_span() });
            },
        };
        let (attributes, p2) = match Attributes::parse(toks, pos + 2) {
            Ok(ok) => ok,
            Err(e) => {
                return Err(e);
            },
        };
        if p2 < toks.len() {
            let is_slash = match &toks[p2] {
                Token::Slash(_) => true,
                _ => false,
            };
            if is_slash {
                if p2 + 1 < toks.len() {
                    match &toks[p2 + 1] {
                        Token::Gt(_) => Ok(
                            (OpenTag { name, attributes, self_closing: true }, p2 + 2),
                        ),
                        t => Err(ParseError::Syntax { span: t.token_span() }),
                    }
                } else {
                    Err(ParseError::Syntax { span: crate::token::end_span(toks) })
                }
            } else {
                match &toks[p2] {
                    Token::Gt(_) => Ok((OpenTag { name, attributes, self_closing: false }, p2 + 1)),
                    t => Err(ParseError::Syntax { span: t.token_span() }),
                }
            }
        } else {
            Err(ParseError::Syntax { span: crate::token::end_span(toks) })
        }
    }
}

impl CloseTag {
    /// Parse a closing tag at `pos`.
    pub fn parse(toks: &Vec<Token>, pos: usize) -> (r: Result<(CloseTag, usize), ParseError>)
        requires
            pos <= toks@.len(),
        ensures
            close_tag_res_view(r) == spec_parse_close_tag(toks@, pos as int),
            r is Ok ==> r.unwrap().1 == pos + 4 && pos + 4 <= toks@.len(),
    {
        if pos == toks.len() {
            return Err(ParseError::Syntax { span: crate::token::end_span(toks) });
        }
        match &toks[pos] {
            Token::Lt(_) => (),
            t => {
                return Err(ParseError::Syntax { span: t.token_span() });
            },
        }
        if pos + 1 == toks.len() {
            return Err(ParseError::Syntax { span: crate::token::end_span(toks) });
        }
        match &toks[pos + 1] {
            Token::Slash(_) => (),
            t => {
                return Err(ParseError::Syntax { span: t.token_span() });
            },
        }
        if pos + 2 == toks.len() {
            return Err(ParseError::Syntax { span: crate::token::end_span(toks) });
        }
        let name = match &toks[pos + 2] {
            Token::Ident(name) => name.duplicate(),
            t => {
                return Err(ParseError::Syntax { span: t.token_span() });
            },
        };
        if pos + 3 == toks.len() {
            return Err(ParseError::Syntax { span: crate::token::end_span(toks) });
        }
        match &toks[pos + 3] {
            Token::Gt(_) => Ok((CloseTag { name }, pos + 4)),
            t => Err(ParseError::Syntax { span: t.token_span() }),
        }
    }
}

} // verus!
