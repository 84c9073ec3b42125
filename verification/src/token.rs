//! The lexical alphabet of the embedded HTML-flavored language.
//!
//! The host compiler's token cursor is an external collaborator: it hands the
//! parser a flat, span-annotated sequence of tokens and slices out the opaque
//! host-language sub-expressions itself. The parser never looks inside an
//! expression; it only reads its span handle and whether it is a string
//! literal.

use vstd::prelude::*;

verus! {

/// An opaque source-location handle, supplied by the token source and passed
/// through to diagnostics and to the emitted output. The parser never
/// interprets or synthesizes one; the zero handle stands for "end of input"
/// when the input holds no token to point at.
#[derive(Clone, Copy, PartialEq, Eq, Structural, Debug)]
pub struct Span {
    pub id: u64,
}

/// A tag or attribute name together with the span it was read from.
#[derive(Debug)]
pub struct Ident {
    pub name: String,
    pub span: Span,
}

/// The ghost image of an `Ident`: its characters and its span.
pub struct SpecIdent {
    pub name: Seq<char>,
    pub span: Span,
}

impl View for Ident {
    type V = SpecIdent;

    open spec fn view(&self) -> SpecIdent {
        SpecIdent { name: self.name@, span: self.span }
    }
}

impl Ident {
    /// An explicit copy; the spans and characters of the copy equal the
    /// original's.
    pub fn duplicate(&self) -> (r: Ident)
        ensures
            r == *self,
    {
        Ident { name: self.name.clone(), span: self.span }
    }
}

/// An opaque host-language sub-expression: an attribute value or a text/child
/// fragment. Only its span handle and its literal-string-ness are visible to
/// the parser.
#[derive(Clone, Copy, PartialEq, Eq, Structural, Debug)]
pub struct RsxExpr {
    pub span: Span,
    pub is_str: bool,
}

impl RsxExpr {
    /// Whether the wrapped expression is a string literal.
    pub fn is_str(&self) -> (r: bool)
        ensures
            r == self.is_str,
    {
        self.is_str
    }

    /// The span handle of the wrapped expression.
    pub fn span(&self) -> (r: Span)
        ensures
            r == self.span,
    {
        self.span
    }
}

/// One lexical token of the input stream.
#[derive(Debug)]
pub enum Token {
    /// `<`
    Lt(Span),
    /// `>`
    Gt(Span),
    /// `/`
    Slash(Span),
    /// `=`
    Equals(Span),
    /// A plain identifier (a tag name or an attribute name).
    Ident(Ident),
    /// An opaque host-language expression, pre-sliced by the token source.
    Expr(RsxExpr),
}

/// The span a token would be reported at.
pub open spec fn spec_token_span(t: Token) -> Span {
    match t {
        Token::Lt(s) => s,
        Token::Gt(s) => s,
        Token::Slash(s) => s,
        Token::Equals(s) => s,
        Token::Ident(i) => i.span,
        Token::Expr(e) => e.span,
    }
}

/// The span an error at end of input is anchored at: the last token's span,
/// or the zero handle if the input is empty.
pub open spec fn spec_end_span(toks: Seq<Token>) -> Span {
    if toks.len() > 0 {
        spec_token_span(toks[toks.len() - 1])
    } else {
        Span { id: 0 }
    }
}

impl Token {
    /// The span this token would be reported at.
    pub fn token_span(&self) -> (r: Span)
        ensures
            r == spec_token_span(*self),
    {
        match self {
            Token::Lt(s) => *s,
            Token::Gt(s) => *s,
            Token::Slash(s) => *s,
            Token::Equals(s) => *s,
            Token::Ident(i) => i.span,
            Token::Expr(e) => e.span,
        }
    }
}

/// The end-of-input span of a token vector (see [`spec_end_span`]).
pub fn end_span(toks: &Vec<Token>) -> (r: Span)
    ensures
        r == spec_end_span(toks@),
{
    if toks.len() > 0 {
        toks[toks.len() - 1].token_span()
    } else {
        Span { id: 0 }
    }
}

} // verus!
