//! The ways in which assembling can fail.

use vstd::prelude::*;
use crate::token::{Token, TokenView, token_views};

verus! {

/// Why a source text could not be assembled.
#[derive(Debug, PartialEq, Eq)]
pub enum AsmError {
    /// Some span of the text is neither white space, a comment nor a token.
    Lex,
    /// The leading tokens of a line match no encoding rule; holds that line.
    UnrecognizedLine(Vec<Token>),
    /// A label is referred to and defined nowhere.
    UndefinedLabel,
}

/// The mathematical value of an [`AsmError`].
pub ghost enum AsmErrorView {
    Lex,
    UnrecognizedLine(Seq<TokenView>),
    UndefinedLabel,
}

impl View for AsmError {
    type V = AsmErrorView;

    open spec fn view(&self) -> AsmErrorView {
        match *self {
            AsmError::Lex => AsmErrorView::Lex,
            AsmError::UnrecognizedLine(line) => AsmErrorView::UnrecognizedLine(token_views(line@)),
            AsmError::UndefinedLabel => AsmErrorView::UndefinedLabel,
        }
    }
}

impl AsmError {
    /// A short message for the user.
    pub fn message(&self) -> (msg: &'static str)
        ensures
            msg@ == (match self@ {
                AsmErrorView::Lex => "unrecognized text in the source"@,
                AsmErrorView::UnrecognizedLine(_) => "a line matches no instruction form"@,
                AsmErrorView::UndefinedLabel => "reference to an undefined label"@,
            }),
    {
        match self {
            AsmError::Lex => "unrecognized text in the source",
            AsmError::UnrecognizedLine(_) => "a line matches no instruction form",
            AsmError::UndefinedLabel => "reference to an undefined label",
        }
    }
}

} // verus!
