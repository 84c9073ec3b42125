//! Parse failures. Every failure is terminal for the whole transformation and
//! carries the source span(s) of the offending token(s).

use vstd::prelude::*;
use crate::token::{Ident, Span, SpecIdent};

verus! {

/// Why a parse failed.
#[derive(Debug)]
pub enum ParseError {
    /// A required token is missing or of the wrong kind.
    Syntax { span: Span },
    /// An attribute with a string-literal name whose value is not a string
    /// literal; anchored at the value's span.
    Validation { span: Span },
    /// A closing tag whose name does not equal the nearest open tag's name
    /// (`open` holds that tag), or a closing tag with no open tag pending
    /// (`open` is `None`).
    Mismatch { open: Option<Ident>, close: Ident },
    /// End of input with the named tag still open.
    Unclosed { open: Ident },
}

/// The ghost image of a [`ParseError`].
pub enum SpecError {
    Syntax { span: Span },
    Validation { span: Span },
    Mismatch { open: Option<SpecIdent>, close: SpecIdent },
    Unclosed { open: SpecIdent },
}

impl View for ParseError {
    type V = SpecError;

    open spec fn view(&self) -> SpecError {
        match self {
            ParseError::Syntax { span } => SpecError::Syntax { span: *span },
            ParseError::Validation { span } => SpecError::Validation { span: *span },
            ParseError::Mismatch { open, close } => SpecError::Mismatch {
                open: match open {
                    Some(i) => Some(i@),
                    None => None,
                },
                close: close@,
            },
            ParseError::Unclosed { open } => SpecError::Unclosed { open: open@ },
        }
    }
}

} // verus!
