//! What holds of every program: facts about the label table and the image,
//! proved from the definitions of the two passes.

use vstd::prelude::*;
use crate::assembler::assembled;
use crate::encoder::{
    encoding_of, image_of, labels_of, lemma_failure_is_final, line_address, operand_encoding,
    reference_value, selected_part, Encoding,
};
use crate::error::AsmErrorView;
use crate::lexer::tokens_of;
use crate::lines::lines_of;
use crate::opcode::opcode_nibble;
use crate::token::{LabelView, Nibble, TokenView};

verus! {

/// Whether `line` starts with a definition of the label `name`.
pub open spec fn defines(line: Seq<TokenView>, name: Seq<u8>) -> bool {
    line.len() > 0 && line[0] == TokenView::LabelDef(name)
}

/// Whether line `k` writes a byte at address `a`.
pub open spec fn writes_at(
    lines: Seq<Seq<TokenView>>,
    table: Map<Seq<u8>, u16>,
    k: int,
    a: int,
) -> bool {
    encoding_of(lines[k], table) is Byte && line_address(lines, k) == a
}

/// Dropping the last line changes neither an earlier line nor its address.
proof fn lemma_prefix_of_prefix(lines: Seq<Seq<TokenView>>, k: int)
    requires
        0 <= k < lines.len(),
    ensures
        lines.drop_last().take(k) == lines.take(k),
        lines.drop_last()[k] == lines[k] || k == lines.len() - 1,
        line_address(lines.drop_last(), k) == line_address(lines, k),
{
    assert(lines.drop_last().take(k) =~= lines.take(k));
}

/// A label takes the address of its last definition: where line `k` defines
/// `name` and no later line does, the table binds `name` to the address of
/// line `k`, and every reference to `name` resolves to the selected part of
/// that address.
pub proof fn lemma_last_definition_wins(
    lines: Seq<Seq<TokenView>>,
    name: Seq<u8>,
    k: int,
    nibble: Nibble,
)
    requires
        0 <= k < lines.len(),
        defines(lines[k], name),
        forall|j: int| k < j < lines.len() ==> !defines(#[trigger] lines[j], name),
    ensures
        labels_of(lines).contains_key(name),
        labels_of(lines)[name] == line_address(lines, k),
        reference_value(labels_of(lines), LabelView { name, nibble }) == Some(
            selected_part(line_address(lines, k), nibble),
        ),
    decreases lines.len(),
{
    lemma_prefix_of_prefix(lines, k);
    if k < lines.len() - 1 {
        assert(!defines(lines[lines.len() - 1], name));
        assert forall|j: int| k < j < lines.drop_last().len() implies !defines(
            #[trigger] lines.drop_last()[j],
            name,
        ) by {
            assert(lines.drop_last()[j] == lines[j]);
        }
        lemma_last_definition_wins(lines.drop_last(), name, k, nibble);
    }
}

/// A label that no line defines is not in the table, so a reference to it
/// has no value.
pub proof fn lemma_undefined_is_unbound(lines: Seq<Seq<TokenView>>, name: Seq<u8>, nibble: Nibble)
    requires
        forall|j: int| 0 <= j < lines.len() ==> !defines(#[trigger] lines[j], name),
    ensures
        !labels_of(lines).contains_key(name),
        reference_value(labels_of(lines), LabelView { name, nibble }) is None,
    decreases lines.len(),
{
    if lines.len() > 0 {
        assert(!defines(lines[lines.len() - 1], name));
        assert forall|j: int| 0 <= j < lines.drop_last().len() implies !defines(
            #[trigger] lines.drop_last()[j],
            name,
        ) by {
            assert(lines.drop_last()[j] == lines[j]);
        }
        lemma_undefined_is_unbound(lines.drop_last(), name, nibble);
    }
}

/// An image has exactly 65536 bytes.
pub proof fn lemma_image_size(lines: Seq<Seq<TokenView>>, table: Map<Seq<u8>, u16>)
    requires
        image_of(lines, table) is Ok,
    ensures
        image_of(lines, table)->Ok_0.len() == 65536,
    decreases lines.len(),
{
    if lines.len() > 0 {
        lemma_image_size(lines.drop_last(), table);
    }
}

/// A byte of the image that no line writes is zero.
pub proof fn lemma_unwritten_is_zero(lines: Seq<Seq<TokenView>>, table: Map<Seq<u8>, u16>, a: int)
    requires
        image_of(lines, table) is Ok,
        0 <= a < 65536,
        forall|j: int| 0 <= j < lines.len() ==> !writes_at(lines, table, j, a),
    ensures
        image_of(lines, table)->Ok_0[a] == 0,
    decreases lines.len(),
{
    if lines.len() > 0 {
        let front = lines.drop_last();
        lemma_image_size(front, table);
        assert forall|j: int| 0 <= j < front.len() implies !writes_at(front, table, j, a) by {
            lemma_prefix_of_prefix(lines, j);
            assert(!writes_at(lines, table, j, a));
        }
        lemma_unwritten_is_zero(front, table, a);
        lemma_prefix_of_prefix(lines, lines.len() - 1);
        assert(lines.take(lines.len() - 1) =~= front);
        assert(!writes_at(lines, table, lines.len() - 1, a));
    }
}

/// The image holds, at the address of an instruction line, the byte of that
/// line, unless a later line writes at the same address.
pub proof fn lemma_written_byte(lines: Seq<Seq<TokenView>>, table: Map<Seq<u8>, u16>, k: int)
    requires
        image_of(lines, table) is Ok,
        0 <= k < lines.len(),
        encoding_of(lines[k], table) is Byte,
        forall|j: int|
            k < j < lines.len() ==> !writes_at(lines, table, j, line_address(lines, k) as int),
    ensures
        image_of(lines, table)->Ok_0[line_address(lines, k) as int] == encoding_of(
            lines[k],
            table,
        )->Byte_0,
    decreases lines.len(),
{
    let front = lines.drop_last();
    let a = line_address(lines, k) as int;
    lemma_image_size(front, table);
    lemma_prefix_of_prefix(lines, k);
    assert(lines.take(lines.len() - 1) =~= front);
    if k < lines.len() - 1 {
        assert forall|j: int| k < j < front.len() implies !writes_at(front, table, j, a) by {
            lemma_prefix_of_prefix(lines, j);
            assert(!writes_at(lines, table, j, a));
        }
        lemma_written_byte(front, table, k);
        assert(!writes_at(lines, table, lines.len() - 1, a));
    }
}

/// For every program that assembles, the image has 65536 bytes and holds
/// zero at every address that no line of the program writes.
pub proof fn lemma_assembled_image(src: Seq<u8>, a: int)
    requires
        assembled(src) is Ok,
        0 <= a < 65536,
        forall|j: int|
            0 <= j < lines_of(tokens_of(src).unwrap()).len() ==> !writes_at(
                lines_of(tokens_of(src).unwrap()),
                labels_of(lines_of(tokens_of(src).unwrap())),
                j,
                a,
            ),
    ensures
        assembled(src)->Ok_0.len() == 65536,
        assembled(src)->Ok_0[a] == 0,
{
    let lines = lines_of(tokens_of(src).unwrap());
    lemma_image_size(lines, labels_of(lines));
    lemma_unwritten_is_zero(lines, labels_of(lines), a);
}

/// The byte of a mnemonic with a register operand holds the opcode in its
/// high four bits and the register number in its low four bits.
pub proof fn lemma_register_byte(nibble: u8, r: u8, table: Map<Seq<u8>, u16>)
    requires
        nibble < 16,
        r < 16,
    ensures
        ((nibble << 4) | r) >> 4 == nibble,
        ((nibble << 4) | r) & 0x0f == r,
        operand_encoding(nibble, TokenView::Reg(r), table) == Encoding::Byte((nibble << 4) | r),
{
    assert(((nibble << 4) | r) >> 4 == nibble && ((nibble << 4) | r) & 0x0f == r) by (bit_vector)
        requires
            nibble < 16,
            r < 16,
    ;
}

/// Whether a line cannot be encoded under a table.
pub open spec fn fails(line: Seq<TokenView>, table: Map<Seq<u8>, u16>) -> bool {
    encoding_of(line, table) is UndefinedLabel || encoding_of(line, table) is Unrecognized
}

/// Where every line can be encoded, there is an image.
pub proof fn lemma_image_exists(lines: Seq<Seq<TokenView>>, table: Map<Seq<u8>, u16>)
    requires
        forall|j: int| 0 <= j < lines.len() ==> !fails(#[trigger] lines[j], table),
    ensures
        image_of(lines, table) is Ok,
    decreases lines.len(),
{
    if lines.len() > 0 {
        assert(!fails(lines[lines.len() - 1], table));
        assert forall|j: int| 0 <= j < lines.drop_last().len() implies !fails(
            #[trigger] lines.drop_last()[j],
            table,
        ) by {
            assert(lines.drop_last()[j] == lines[j]);
        }
        lemma_image_exists(lines.drop_last(), table);
    }
}

/// The first line that cannot be encoded decides the failure: an undefined
/// label where it refers to one, and otherwise the line itself as unrecognized.
pub proof fn lemma_first_failure(lines: Seq<Seq<TokenView>>, table: Map<Seq<u8>, u16>, k: int)
    requires
        0 <= k < lines.len(),
        fails(lines[k], table),
        forall|j: int| 0 <= j < k ==> !fails(#[trigger] lines[j], table),
    ensures
        image_of(lines, table) == Err::<Seq<u8>, AsmErrorView>(
            if encoding_of(lines[k], table) is UndefinedLabel {
                AsmErrorView::UndefinedLabel
            } else {
                AsmErrorView::UnrecognizedLine(lines[k])
            },
        ),
{
    assert forall|j: int| 0 <= j < lines.take(k).len() implies !fails(
        #[trigger] lines.take(k)[j],
        table,
    ) by {
        assert(lines.take(k)[j] == lines[j]);
    }
    lemma_image_exists(lines.take(k), table);
    assert(lines.take(k + 1).drop_last() =~= lines.take(k));
    assert(lines.take(k + 1).last() == lines[k]);
    lemma_failure_is_final(lines, table, k + 1);
}

/// Whether a line is encoded from a reference to the label `name`: the
/// reference stands alone, or follows a mnemonic that takes an operand.
pub open spec fn refers_to(line: Seq<TokenView>, name: Seq<u8>) -> bool {
    ||| line.len() == 1 && line[0] is Label && line[0]->Label_0.name == name
    ||| line.len() >= 2 && opcode_nibble(line[0]) is Some && line[1] is Label
        && line[1]->Label_0.name == name
}

/// A line that refers to a label which no line defines fails with an
/// undefined label.
pub proof fn lemma_dangling_reference(lines: Seq<Seq<TokenView>>, k: int, name: Seq<u8>)
    requires
        0 <= k < lines.len(),
        refers_to(lines[k], name),
        forall|j: int| 0 <= j < lines.len() ==> !defines(#[trigger] lines[j], name),
    ensures
        encoding_of(lines[k], labels_of(lines)) is UndefinedLabel,
{
    lemma_undefined_is_unbound(lines, name, Nibble::High);
}

} // verus!
