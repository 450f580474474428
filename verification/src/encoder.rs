//! The two passes over the logical lines.
//!
//! Both passes walk the lines with a 16-bit location counter that starts at 0.
//! A line that starts with a label definition leaves the counter alone, one
//! that starts with an address directive sets it, and every other line takes
//! one byte and moves it on by one, from 0xFFFF round to 0. The first pass
//! records the address of each label; the second writes one byte per
//! instruction line into an image of 65536 zero bytes.

use vstd::prelude::*;
use crate::error::{AsmError, AsmErrorView};
use crate::labels::LabelTable;
use crate::chars::copy_bytes;
use crate::token::{
    copy_tokens, line_views, token_views, Label, LabelView, Nibble, Token, TokenView,
};

verus! {

/// The location counter after a line, given the counter before it.
pub open spec fn next_address(pc: u16, line: Seq<TokenView>) -> u16 {
    if line.len() == 0 {
        pc
    } else {
        match line[0] {
            TokenView::LabelDef(_) => pc,
            TokenView::MemPos(a) => a,
            _ => if pc == 0xffff {
                0
            } else {
                (pc + 1) as u16
            },
        }
    }
}

/// The location counter after all of `lines`.
pub open spec fn address_after(lines: Seq<Seq<TokenView>>) -> u16
    decreases lines.len(),
{
    if lines.len() == 0 {
        0
    } else {
        next_address(address_after(lines.drop_last()), lines.last())
    }
}

/// The address of line `k`: the location counter after the lines before it.
pub open spec fn line_address(lines: Seq<Seq<TokenView>>, k: int) -> u16 {
    address_after(lines.take(k))
}

/// The label table that the first pass builds: each defined name with the
/// address of its last definition.
pub open spec fn labels_of(lines: Seq<Seq<TokenView>>) -> Map<Seq<u8>, u16>
    decreases lines.len(),
{
    if lines.len() == 0 {
        Map::empty()
    } else {
        let before = labels_of(lines.drop_last());
        if lines.last().len() > 0 && lines.last()[0] is LabelDef {
            before.insert(lines.last()[0]->LabelDef_0, address_after(lines.drop_last()))
        } else {
            before
        }
    }
}

/// The part of an address that a reference selects: for `High` the whole
/// upper byte, for `Low` the lowest four bits.
pub open spec fn selected_part(addr: u16, nibble: Nibble) -> u8 {
    match nibble {
        Nibble::High => (addr / 256) as u8,
        Nibble::Low => (addr % 16) as u8,
    }
}

/// The value of a label reference under a table; `None` where the label is undefined.
pub open spec fn reference_value(table: Map<Seq<u8>, u16>, label: LabelView) -> Option<u8> {
    if table.contains_key(label.name) {
        Some(selected_part(table[label.name], label.nibble))
    } else {
        None
    }
}

/// What a line contributes to the image.
#[derive(Clone, Copy, Debug, PartialEq, Eq, Structural)]
pub enum Encoding {
    /// No byte: a label definition or an address directive.
    Nothing,
    /// One byte at the line's address.
    Byte(u8),
    /// The line refers to a label that is not defined.
    UndefinedLabel,
    /// The line's leading tokens match no encoding rule.
    Unrecognized,
}

/// The byte for a line that holds nothing but `first`.
pub open spec fn sole_encoding(first: TokenView, table: Map<Seq<u8>, u16>) -> Encoding {
    match first {
        TokenView::Label(label) => match reference_value(table, label) {
            Some(v) => Encoding::Byte(v),
            None => Encoding::UndefinedLabel,
        },
        TokenView::Num(n) => Encoding::Byte(n),
        TokenView::Jmp => Encoding::Byte(0x10),
        TokenView::Call => Encoding::Byte(0x11),
        TokenView::Ret => Encoding::Byte(0x12),
        TokenView::Halt => Encoding::Byte(0x13),
        _ => Encoding::Unrecognized,
    }
}

/// The byte for a line that starts with a mnemonic of opcode `nibble` and `operand`.
pub open spec fn operand_encoding(
    nibble: u8,
    operand: TokenView,
    table: Map<Seq<u8>, u16>,
) -> Encoding {
    match operand {
        TokenView::Reg(r) => Encoding::Byte((nibble << 4) | r),
        TokenView::Label(label) => match reference_value(table, label) {
            Some(v) => Encoding::Byte((nibble << 4) | v),
            None => Encoding::UndefinedLabel,
        },
        _ => Encoding::Unrecognized,
    }
}

/// What a line contributes, decided by its first one or two tokens.
pub open spec fn encoding_of(line: Seq<TokenView>, table: Map<Seq<u8>, u16>) -> Encoding {
    if line.len() == 0 {
        Encoding::Nothing
    } else if line[0] is LabelDef || line[0] is MemPos {
        Encoding::Nothing
    } else if line.len() == 1 {
        sole_encoding(line[0], table)
    } else {
        match crate::opcode::opcode_nibble(line[0]) {
            Some(nibble) => operand_encoding(nibble, line[1], table),
            None => Encoding::Unrecognized,
        }
    }
}

/// The image after the second pass over `lines`, or the failure of the first
/// line that cannot be encoded.
pub open spec fn image_of(lines: Seq<Seq<TokenView>>, table: Map<Seq<u8>, u16>) -> Result<
    Seq<u8>,
    AsmErrorView,
>
    decreases lines.len(),
{
    if lines.len() == 0 {
        Ok(Seq::new(65536, |a: int| 0u8))
    } else {
        match image_of(lines.drop_last(), table) {
            Err(e) => Err(e),
            Ok(rom) => match encoding_of(lines.last(), table) {
                Encoding::Nothing => Ok(rom),
                Encoding::Byte(b) => Ok(rom.update(address_after(lines.drop_last()) as int, b)),
                Encoding::UndefinedLabel => Err(AsmErrorView::UndefinedLabel),
                Encoding::Unrecognized => Err(AsmErrorView::UnrecognizedLine(lines.last())),
            },
        }
    }
}

/// Once a line has failed, the lines after it change nothing.
pub proof fn lemma_failure_is_final(lines: Seq<Seq<TokenView>>, table: Map<Seq<u8>, u16>, k: int)
    requires
        0 <= k <= lines.len(),
        image_of(lines.take(k), table) is Err,
    ensures
        image_of(lines, table) == image_of(lines.take(k), table),
    decreases lines.len() - k,
{
    if k == lines.len() {
        assert(lines.take(k) =~= lines);
    } else {
        assert(lines.take(k + 1).drop_last() =~= lines.take(k));
        lemma_failure_is_final(lines, table, k + 1);
    }
}

/// Moves the location counter past a line.
pub fn advance(pc: u16, line: &Vec<Token>) -> (next: u16)
    ensures
        next == next_address(pc, token_views(line@)),
{
    if line.len() == 0 {
        pc
    } else {
        match &line[0] {
            Token::LabelDef(_) => pc,
            Token::MemPos(a) => *a,
            _ => if pc == 0xffff {
                0
            } else {
                pc + 1
            },
        }
    }
}

/// The first pass: records the address of every label definition.
pub fn resolve_labels(lines: &Vec<Vec<Token>>) -> (table: LabelTable)
    ensures
        table@ == labels_of(line_views(lines@)),
{
    let mut table = LabelTable::new();
    let mut pc: u16 = 0;
    let mut k: usize = 0;
    let ghost lv = line_views(lines@);
    while k < lines.len()
        invariant
            k <= lines.len(),
            lv == line_views(lines@),
            pc == address_after(lv.take(k as int)),
            table@ == labels_of(lv.take(k as int)),
        decreases lines.len() - k,
    {
        proof {
            assert(lv.take(k + 1).drop_last() =~= lv.take(k as int));
            assert(lv.take(k + 1).last() == token_views(lines@[k as int]@));
        }
        let line = &lines[k];
        if line.len() > 0 {
            match &line[0] {
                Token::LabelDef(name) => {
                    table.insert(copy_bytes(name.as_slice()), pc);
                },
                _ => {},
            }
        }
        pc = advance(pc, line);
        k += 1;
    }
    proof {
        assert(lv.take(lines.len() as int) =~= lv);
    }
    table
}

/// Resolves a label reference against the table: the selected part of the
/// label's address, or `None` where the label is not defined.
pub fn get_label(labels: &LabelTable, label: &Label) -> (r: Option<u8>)
    ensures
        r == reference_value(labels@, label@),
{
    match labels.get(label.name.as_slice()) {
        Some(addr) => {
            assert(addr >> 8 == addr / 256 && addr & 0x0f == addr % 16 && addr >> 8 <= 255)
                by (bit_vector);
            match label.nibble {
                Nibble::High => Some((addr >> 8) as u8),
                Nibble::Low => Some((addr & 0x0f) as u8),
            }
        },
        None => None,
    }
}

fn encode_sole(first: &Token, table: &LabelTable) -> (r: Encoding)
    ensures
        r == sole_encoding(first@, table@),
{
    match first {
        Token::Label(label) => match get_label(table, label) {
            Some(v) => Encoding::Byte(v),
            None => Encoding::UndefinedLabel,
        },
        Token::Num(n) => Encoding::Byte(*n),
        Token::Jmp => Encoding::Byte(0x10),
        Token::Call => Encoding::Byte(0x11),
        Token::Ret => Encoding::Byte(0x12),
        Token::Halt => Encoding::Byte(0x13),
        _ => Encoding::Unrecognized,
    }
}

fn encode_operand(nibble: u8, operand: &Token, table: &LabelTable) -> (r: Encoding)
    ensures
        r == operand_encoding(nibble, operand@, table@),
{
    match operand {
        Token::Reg(r) => Encoding::Byte((nibble << 4) | *r),
        Token::Label(label) => match get_label(table, label) {
            Some(v) => Encoding::Byte((nibble << 4) | v),
            None => Encoding::UndefinedLabel,
        },
        _ => Encoding::Unrecognized,
    }
}

/// Decides what one line contributes to the image.
pub fn encode_line(line: &Vec<Token>, table: &LabelTable) -> (r: Encoding)
    ensures
        r == encoding_of(token_views(line@), table@),
{
    if line.len() == 0 {
        return Encoding::Nothing;
    }
    match &line[0] {
        Token::LabelDef(_) => Encoding::Nothing,
        Token::MemPos(_) => Encoding::Nothing,
        first => {
            if line.len() == 1 {
                encode_sole(first, table)
            } else {
                match crate::opcode::opcode(first) {
                    Some(nibble) => encode_operand(nibble, &line[1], table),
                    None => Encoding::Unrecognized,
                }
            }
        },
    }
}

/// The second pass: writes one byte per instruction line into a fresh image.
///
/// Returns the image where every line can be encoded, and otherwise the
/// failure of the first line that cannot.
pub fn encode(lines: &Vec<Vec<Token>>, table: &LabelTable) -> (r: Result<[u8; 65536], AsmError>)
    ensures
        r is Ok ==> r.unwrap()@.len() == 65536,
        match r {
            Ok(rom) => image_of(line_views(lines@), table@) == Ok::<Seq<u8>, AsmErrorView>(rom@),
            Err(e) => image_of(line_views(lines@), table@) == Err::<Seq<u8>, AsmErrorView>(e@),
        },
{
    let mut rom: [u8; 65536] = [0u8; 65536];
    let mut pc: u16 = 0;
    let mut k: usize = 0;
    let ghost lv = line_views(lines@);
    proof {
        assert(rom@ =~= Seq::new(65536, |a: int| 0u8));
    }
    while k < lines.len()
        invariant
            k <= lines.len(),
            lv == line_views(lines@),
            pc == address_after(lv.take(k as int)),
            image_of(lv.take(k as int), table@) == Ok::<Seq<u8>, AsmErrorView>(rom@),
        decreases lines.len() - k,
    {
        proof {
            assert(lv.take(k + 1).drop_last() =~= lv.take(k as int));
            assert(lv.take(k + 1).last() == token_views(lines@[k as int]@));
        }
        let line = &lines[k];
        match encode_line(line, table) {
            Encoding::Nothing => {},
            Encoding::Byte(b) => {
                rom[pc as usize] = b;
            },
            Encoding::UndefinedLabel => {
                proof {
                    lemma_failure_is_final(lv, table@, k + 1);
                }
                return Err(AsmError::UndefinedLabel);
            },
            Encoding::Unrecognized => {
                proof {
                    lemma_failure_is_final(lv, table@, k + 1);
                }
                return Err(AsmError::UnrecognizedLine(copy_tokens(line)));
            },
        }
        pc = advance(pc, line);
        k += 1;
    }
    proof {
        assert(lv.take(lines.len() as int) =~= lv);
    }
    Ok(rom)
}

} // verus!
