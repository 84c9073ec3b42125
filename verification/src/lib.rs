//! A compile-time transformer for an HTML/JSX-flavored mini-language.
//!
//! The library parses a flat, span-annotated token stream into a tree of
//! elements — enforcing open/close tag matching and attribute-shape
//! invariants with span-accurate diagnostics — and re-serializes the tree as
//! the call-expression grammar a downstream macro consumes. The tree is built
//! with an explicit stack of in-progress frames, never with recursion whose
//! depth follows the input's nesting depth.

pub mod token;
pub mod error;
pub mod attribute;
pub mod tag;
pub mod element;
pub mod grammar;
pub mod builder;
pub mod emit;
pub mod laws;

use vstd::prelude::*;

verus! {

use crate::token::Token;
use crate::error::{ParseError, SpecError};
use crate::element::SpecChild;
use crate::emit::{OutToken, out_view, spec_emit_document};
use crate::grammar::spec_parse_document;

/// Transform a token stream of the mini-language into the target
/// call-expression grammar: parse the document, then emit it. Returns the
/// output tokens, or the first parse error.
pub fn html(toks: &Vec<Token>) -> (r: Result<Vec<OutToken>, ParseError>)
    ensures
        match r {
            Ok(out) => match spec_parse_document(toks@) {
                Ok(cs) => out_view(out@) == spec_emit_document(cs),
                Err(_) => false,
            },
            Err(e) => spec_parse_document(toks@) == Err::<Seq<SpecChild>, _>(e@),
        },
{
    match crate::builder::parse_document(toks) {
        Ok(doc) => {
            let mut out: Vec<OutToken> = Vec::new();
            proof {
                assert(out_view(out@) =~= Seq::<crate::emit::SpecOutToken>::empty());
            }
            doc.to_tokens(&mut out);
            proof {
                assert(Seq::<crate::emit::SpecOutToken>::empty().add(spec_emit_document(doc@))
                    =~= spec_emit_document(doc@));
            }
            Ok(out)
        },
        Err(e) => Err(e),
    }
}

} // verus!
