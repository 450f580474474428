//! The assembler as a whole: from source text to a memory image.

use vstd::prelude::*;
use vstd::string::StringSliceAdditionalSpecFns;
use crate::encoder::{encode, image_of, labels_of, resolve_labels};
use crate::error::{AsmError, AsmErrorView};
use crate::lexer::{tokenize, tokens_of};
use crate::lines::{group_lines, lines_of};

verus! {

/// What assembling the source bytes `src` yields: the image, or the failure.
pub open spec fn assembled(src: Seq<u8>) -> Result<Seq<u8>, AsmErrorView> {
    match tokens_of(src) {
        None => Err(AsmErrorView::Lex),
        Some(ts) => image_of(lines_of(ts), labels_of(lines_of(ts))),
    }
}

/// Assembles source bytes into an image of 65536 bytes.
pub fn assemble_bytes(src: &[u8]) -> (r: Result<[u8; 65536], AsmError>)
    ensures
        r is Ok ==> r.unwrap()@.len() == 65536,
        match r {
            Ok(rom) => assembled(src@) == Ok::<Seq<u8>, AsmErrorView>(rom@),
            Err(e) => assembled(src@) == Err::<Seq<u8>, AsmErrorView>(e@),
        },
{
    match tokenize(src) {
        Err(e) => Err(e),
        Ok(tokens) => {
            let lines = group_lines(&tokens);
            let table = resolve_labels(&lines);
            encode(&lines, &table)
        },
    }
}

/// Assembles a program text into an image of 65536 bytes.
///
/// The result is the image where the text is lexically valid, every line
/// matches an encoding rule and every label referred to is defined; otherwise
/// it is the failure met first, and no image.
pub fn assemble(program: &str) -> (r: Result<[u8; 65536], AsmError>)
    ensures
        r is Ok ==> r.unwrap()@.len() == 65536,
        match r {
            Ok(rom) => assembled(program.spec_bytes()) == Ok::<Seq<u8>, AsmErrorView>(rom@),
            Err(e) => assembled(program.spec_bytes()) == Err::<Seq<u8>, AsmErrorView>(e@),
        },
{
    assemble_bytes(program.as_bytes())
}

} // verus!
