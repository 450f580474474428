//! The opcode table.

use vstd::prelude::*;
use crate::token::{Token, TokenView};

verus! {

/// The opcode of a mnemonic that takes an operand: the high four bits of the
/// encoded byte. `None` for every other token.
pub open spec fn opcode_nibble(t: TokenView) -> Option<u8> {
    match t {
        TokenView::Lit => Some(0x0),
        TokenView::Jmp => Some(0x1),
        TokenView::Cjmp => Some(0x2),
        TokenView::Tac => Some(0x3),
        TokenView::Tre => Some(0x4),
        TokenView::R => Some(0x5),
        TokenView::W => Some(0x6),
        TokenView::Eq => Some(0x7),
        TokenView::Cmp => Some(0x8),
        TokenView::Add => Some(0x9),
        TokenView::Sub => Some(0xa),
        TokenView::Lsf => Some(0xb),
        TokenView::Rsf => Some(0xc),
        TokenView::Or => Some(0xd),
        TokenView::And => Some(0xe),
        TokenView::Not => Some(0xf),
        _ => None,
    }
}

/// Looks a mnemonic up in the opcode table.
pub fn opcode(t: &Token) -> (r: Option<u8>)
    ensures
        r == opcode_nibble(t@),
{
    match t {
        Token::Lit => Some(0x0),
        Token::Jmp => Some(0x1),
        Token::Cjmp => Some(0x2),
        Token::Tac => Some(0x3),
        Token::Tre => Some(0x4),
        Token::R => Some(0x5),
        Token::W => Some(0x6),
        Token::Eq => Some(0x7),
        Token::Cmp => Some(0x8),
        Token::Add => Some(0x9),
        Token::Sub => Some(0xa),
        Token::Lsf => Some(0xb),
        Token::Rsf => Some(0xc),
        Token::Or => Some(0xd),
        Token::And => Some(0xe),
        Token::Not => Some(0xf),
        _ => None,
    }
}

} // verus!
