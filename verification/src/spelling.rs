//! How each token is written, and the proof that the tokenizer takes, at
//! every position, the longest token that is written there.

use vstd::prelude::*;
use crate::chars::{
    at, byte_spelling, digit_spelling, hex_word, ident_len, is_hex, is_ident_char,
    is_ident_start, is_identifier, lemma_digits_of_word, lemma_ident_len_at_least,
    lemma_ident_len_run, lemma_word_of_digits, line_rest, word_spelling, BAR, CH_A, CH_B, CH_C,
    CH_D, CH_E, CH_F, CH_H, CH_I, CH_J, CH_L, CH_M, CH_N, CH_O, CH_P, CH_Q, CH_R, CH_S, CH_T,
    CH_U, CH_W, COLON, LINE_FEED, SEMICOLON, SPACE, TAB, UNDERSCORE,
};
use crate::lexer::{token_at, tokens_from, unread, word_of};
use crate::token::{LabelView, Nibble, TokenView};

verus! {

/// The bytes that write a token.
pub open spec fn spelling(t: TokenView) -> Seq<u8> {
    match t {
        TokenView::Lit => seq![CH_L, CH_I, CH_T],
        TokenView::Jmp => seq![CH_J, CH_M, CH_P],
        TokenView::Cjmp => seq![CH_C, CH_J, CH_M, CH_P],
        TokenView::Tac => seq![CH_T, CH_A, CH_C],
        TokenView::Tre => seq![CH_T, CH_R, CH_E],
        TokenView::R => seq![CH_R],
        TokenView::W => seq![CH_W],
        TokenView::Eq => seq![CH_E, CH_Q],
        TokenView::Cmp => seq![CH_C, CH_M, CH_P],
        TokenView::Add => seq![CH_A, CH_D, CH_D],
        TokenView::Sub => seq![CH_S, CH_U, CH_B],
        TokenView::Lsf => seq![CH_L, CH_S, CH_F],
        TokenView::Rsf => seq![CH_R, CH_S, CH_F],
        TokenView::Or => seq![CH_O, CH_R],
        TokenView::And => seq![CH_A, CH_N, CH_D],
        TokenView::Not => seq![CH_N, CH_O, CH_T],
        TokenView::Call => seq![CH_C, CH_A, CH_L, CH_L],
        TokenView::Ret => seq![CH_R, CH_E, CH_T],
        TokenView::Halt => seq![CH_H, CH_A, CH_L, CH_T],
        TokenView::Reg(v) => seq![CH_R, digit_spelling(v)],
        TokenView::Num(v) => byte_spelling(v),
        TokenView::LabelDef(name) => name.push(COLON),
        TokenView::Label(label) => seq![
            match label.nibble {
                Nibble::High => CH_H,
                Nibble::Low => CH_L,
            },
            UNDERSCORE,
        ] + label.name,
        TokenView::MemPos(a) => seq![BAR] + word_spelling(a),
        TokenView::Newline => seq![LINE_FEED],
    }
}

/// Whether a token can be written at all: a register number is below 16, and
/// a label name is an identifier.
pub open spec fn well_formed(t: TokenView) -> bool {
    match t {
        TokenView::Reg(v) => v < 16,
        TokenView::LabelDef(name) => is_identifier(name),
        TokenView::Label(label) => is_identifier(label.name),
        _ => true,
    }
}

/// Whether the token `t` is written in `s` at position `i`.
pub open spec fn written_at(s: Seq<u8>, i: int, t: TokenView) -> bool {
    &&& well_formed(t)
    &&& 0 <= i
    &&& i + spelling(t).len() <= s.len()
    &&& s.subrange(i, i + spelling(t).len()) == spelling(t)
}

/// Whether a token is a keyword, a register operand or a raw byte.
pub open spec fn is_word(t: TokenView) -> bool {
    !(t is Newline || t is MemPos || t is LabelDef || t is Label)
}

/// Whether the bytes `c0 c1 c2 c3` begin with the spelling of `t`.
pub open spec fn begins_with(t: TokenView, c0: u8, c1: u8, c2: u8, c3: u8) -> bool {
    let w = spelling(t);
    &&& 1 <= w.len() <= 4
    &&& w[0] == c0
    &&& w.len() >= 2 ==> w[1] == c1
    &&& w.len() >= 3 ==> w[2] == c2
    &&& w.len() >= 4 ==> w[3] == c3
}

/// What `word_of` recognizes in four bytes is a keyword, register operand or raw
/// byte that those bytes begin with.
proof fn lemma_word_is_spelled(c0: u8, c1: u8, c2: u8, c3: u8)
    requires
        word_of(c0, c1, c2, c3) is Some,
    ensures
        is_word(word_of(c0, c1, c2, c3).unwrap().0),
        well_formed(word_of(c0, c1, c2, c3).unwrap().0),
        spelling(word_of(c0, c1, c2, c3).unwrap().0).len() == word_of(c0, c1, c2, c3).unwrap().1,
        begins_with(word_of(c0, c1, c2, c3).unwrap().0, c0, c1, c2, c3),
{
}

/// `word_of` recognizes the longest keyword, register operand or raw byte that
/// four bytes begin with, and no other of that length.
proof fn lemma_word_is_longest(t: TokenView, c0: u8, c1: u8, c2: u8, c3: u8)
    requires
        is_word(t),
        well_formed(t),
        begins_with(t, c0, c1, c2, c3),
    ensures
        word_of(c0, c1, c2, c3) is Some,
        spelling(t).len() <= word_of(c0, c1, c2, c3).unwrap().1,
        spelling(t).len() == word_of(c0, c1, c2, c3).unwrap().1 ==> word_of(
            c0,
            c1,
            c2,
            c3,
        ).unwrap().0 == t,
{
}

/// What the spellings of keywords, register operands and raw bytes are made of.
proof fn lemma_word_in_run(t: TokenView)
    requires
        is_word(t),
        well_formed(t),
    ensures
        1 <= spelling(t).len() <= 4,
        spelling(t)[0] != LINE_FEED && spelling(t)[0] != BAR && spelling(t)[0] != 0,
        !(t is Num) ==> forall|k: int|
            0 <= k < spelling(t).len() ==> is_ident_char(#[trigger] spelling(t)[k]),
        spelling(t).len() >= 2 ==> spelling(t)[1] != UNDERSCORE,
        spelling(t).len() == 1 ==> spelling(t)[0] == CH_R || spelling(t)[0] == CH_W,
        forall|k: int| 0 <= k < spelling(t).len() ==> #[trigger] spelling(t)[k] != 0,
        t is Num ==> is_hex(spelling(t)[0]) && is_hex(spelling(t)[1]),
{
}

/// A line feed writes the line break.
proof fn lemma_line_break_is_written(s: Seq<u8>, i: int)
    requires
        0 <= i < s.len(),
        s[i] == LINE_FEED,
    ensures
        written_at(s, i, TokenView::Newline),
{
    assert(s.subrange(i, i + 1) =~= seq![LINE_FEED]);
}

/// The address directive taken at a bar is written there.
proof fn lemma_directive_is_written(s: Seq<u8>, i: int)
    requires
        0 <= i < s.len(),
        s[i] == BAR,
        token_at(s, i) is Some,
    ensures
        written_at(s, i, token_at(s, i).unwrap().0),
        spelling(token_at(s, i).unwrap().0).len() == 5,
{
    let a = hex_word(at(s, i + 1), at(s, i + 2), at(s, i + 3), at(s, i + 4));
    lemma_word_of_digits(at(s, i + 1), at(s, i + 2), at(s, i + 3), at(s, i + 4));
    assert(token_at(s, i).unwrap().0 == TokenView::MemPos(a));
    assert(s.subrange(i, i + 5) =~= seq![BAR] + word_spelling(a));
}

/// A run of identifier characters before a colon writes a label definition.
proof fn lemma_definition_is_written(s: Seq<u8>, i: int)
    requires
        0 <= i < s.len(),
        is_ident_start(s[i]),
        at(s, i + ident_len(s, i)) == COLON,
    ensures
        written_at(s, i, TokenView::LabelDef(s.subrange(i, i + ident_len(s, i)))),
        spelling(TokenView::LabelDef(s.subrange(i, i + ident_len(s, i)))).len() == ident_len(s, i)
            + 1,
{
    lemma_ident_len_run(s, i);
    let run = ident_len(s, i);
    let name = s.subrange(i, i + run);
    assert(is_identifier(name));
    assert(s.subrange(i, i + run + 1) =~= name.push(COLON));
}

/// A selector, an underscore and a run of identifier characters write a label
/// reference.
proof fn lemma_reference_is_written(s: Seq<u8>, i: int, nibble: Nibble)
    requires
        0 <= i < s.len(),
        s[i] == (match nibble {
            Nibble::High => CH_H,
            Nibble::Low => CH_L,
        }),
        at(s, i + 1) == UNDERSCORE,
        is_ident_start(at(s, i + 2)),
    ensures
        written_at(
            s,
            i,
            TokenView::Label(
                LabelView { name: s.subrange(i + 2, i + 2 + ident_len(s, i + 2)), nibble },
            ),
        ),
        spelling(
            TokenView::Label(
                LabelView { name: s.subrange(i + 2, i + 2 + ident_len(s, i + 2)), nibble },
            ),
        ).len() == 2 + ident_len(s, i + 2),
{
    lemma_ident_len_run(s, i + 2);
    let tail = ident_len(s, i + 2);
    let name = s.subrange(i + 2, i + 2 + tail);
    assert(is_identifier(name));
    assert(s.subrange(i, i + 2 + tail) =~= seq![s[i], UNDERSCORE] + name);
}

/// The keyword, register operand or raw byte taken at a position is written there.
proof fn lemma_word_is_written(s: Seq<u8>, i: int)
    requires
        0 <= i < s.len(),
        word_of(at(s, i), at(s, i + 1), at(s, i + 2), at(s, i + 3)) is Some,
    ensures
        written_at(s, i, word_of(at(s, i), at(s, i + 1), at(s, i + 2), at(s, i + 3)).unwrap().0),
        spelling(word_of(at(s, i), at(s, i + 1), at(s, i + 2), at(s, i + 3)).unwrap().0).len()
            == word_of(at(s, i), at(s, i + 1), at(s, i + 2), at(s, i + 3)).unwrap().1,
{
    let t = word_of(at(s, i), at(s, i + 1), at(s, i + 2), at(s, i + 3)).unwrap().0;
    lemma_word_is_spelled(at(s, i), at(s, i + 1), at(s, i + 2), at(s, i + 3));
    lemma_word_in_run(t);
    let w = spelling(t);
    assert(w[0] != 0);
    if w.len() >= 2 {
        assert(w[1] != 0);
    }
    if w.len() >= 3 {
        assert(w[2] != 0);
    }
    if w.len() >= 4 {
        assert(w[3] != 0);
    }
    assert(s.subrange(i, i + w.len()) =~= w);
}

/// What the tokenizer takes at a position is a token written there.
pub proof fn lemma_token_at_is_written(s: Seq<u8>, i: int)
    requires
        0 <= i < s.len(),
        token_at(s, i) is Some,
    ensures
        written_at(s, i, token_at(s, i).unwrap().0),
        spelling(token_at(s, i).unwrap().0).len() == token_at(s, i).unwrap().1,
{
    let c = s[i];
    if c == LINE_FEED {
        lemma_line_break_is_written(s, i);
    } else if c == BAR {
        lemma_directive_is_written(s, i);
    } else if is_ident_start(c) && at(s, i + ident_len(s, i)) == COLON {
        lemma_definition_is_written(s, i);
    } else if (c == CH_H || c == CH_L) && at(s, i + 1) == UNDERSCORE && is_ident_start(at(s, i + 2)) {
        lemma_reference_is_written(
            s,
            i,
            if c == CH_H {
                Nibble::High
            } else {
                Nibble::Low
            },
        );
    } else {
        lemma_word_is_written(s, i);
    }
}

/// Where a token is written, the text holds its spelling byte for byte.
proof fn lemma_spelled(s: Seq<u8>, i: int, t: TokenView)
    requires
        written_at(s, i, t),
    ensures
        forall|k: int| 0 <= k < spelling(t).len() ==> at(s, i + k) == #[trigger] spelling(t)[k],
{
    assert forall|k: int| 0 <= k < spelling(t).len() implies at(s, i + k) == #[trigger] spelling(
        t,
    )[k] by {
        assert(s.subrange(i, i + spelling(t).len())[k] == s[i + k]);
    }
}

/// An address directive that is written at a position is taken there.
proof fn lemma_directive_is_taken(s: Seq<u8>, i: int, a: u16)
    requires
        0 <= i < s.len(),
        written_at(s, i, TokenView::MemPos(a)),
    ensures
        token_at(s, i) == Some((TokenView::MemPos(a), 5nat)),
{
    let w = spelling(TokenView::MemPos(a));
    lemma_spelled(s, i, TokenView::MemPos(a));
    lemma_digits_of_word(a);
    assert(w.len() == 5);
    assert(at(s, i) == w[0]);
    assert(at(s, i + 1) == w[1]);
    assert(at(s, i + 2) == w[2]);
    assert(at(s, i + 3) == w[3]);
    assert(at(s, i + 4) == w[4]);
    assert(w[1] == word_spelling(a)[0]);
    assert(w[2] == word_spelling(a)[1]);
    assert(w[3] == word_spelling(a)[2]);
    assert(w[4] == word_spelling(a)[3]);
}

/// A label definition that is written at a position is taken there.
proof fn lemma_definition_is_taken(s: Seq<u8>, i: int, name: Seq<u8>)
    requires
        0 <= i < s.len(),
        written_at(s, i, TokenView::LabelDef(name)),
    ensures
        token_at(s, i) == Some((TokenView::LabelDef(name), name.len() + 1)),
{
    let t = TokenView::LabelDef(name);
    lemma_spelled(s, i, t);
    lemma_ident_len_run(s, i);
    assert(at(s, i + 0) == spelling(t)[0]);
    assert forall|k: int| i <= k < i + name.len() implies is_ident_char(#[trigger] s[k]) by {
        assert(at(s, i + (k - i)) == spelling(t)[k - i]);
        assert(spelling(t)[k - i] == name[k - i]);
    }
    lemma_ident_len_at_least(s, i, name.len());
    assert(at(s, i + name.len()) == spelling(t)[name.len() as int]);
    assert(ident_len(s, i) == name.len());
    assert(s.subrange(i, i + ident_len(s, i)) =~= name) by {
        assert forall|k: int| 0 <= k < name.len() implies s[i + k] == name[k] by {
            assert(at(s, i + k) == spelling(t)[k]);
        }
    }
}

/// Where a label reference is written, what is taken is no shorter, and is that
/// reference where it is as long.
proof fn lemma_reference_is_longest(s: Seq<u8>, i: int, label: LabelView)
    requires
        0 <= i < s.len(),
        written_at(s, i, TokenView::Label(label)),
    ensures
        token_at(s, i) is Some,
        2 + label.name.len() <= token_at(s, i).unwrap().1,
        2 + label.name.len() == token_at(s, i).unwrap().1 ==> token_at(s, i).unwrap().0
            == TokenView::Label(label),
{
    let t = TokenView::Label(label);
    let name = label.name;
    lemma_spelled(s, i, t);
    lemma_ident_len_run(s, i);
    lemma_ident_len_run(s, i + 2);
    assert(at(s, i + 0) == spelling(t)[0]);
    assert(at(s, i + 1) == spelling(t)[1]);
    assert(at(s, i + 2) == spelling(t)[2]);
    assert(spelling(t)[2] == name[0]);
    assert forall|k: int| i <= k < i + 2 + name.len() implies is_ident_char(#[trigger] s[k]) by {
        assert(at(s, i + (k - i)) == spelling(t)[k - i]);
        if k - i >= 2 {
            assert(spelling(t)[k - i] == name[k - i - 2]);
        }
    }
    lemma_ident_len_at_least(s, i, 2 + name.len());
    lemma_ident_len_at_least(s, i + 2, name.len());
    if ident_len(s, i + 2) == name.len() {
        assert(s.subrange(i + 2, i + 2 + ident_len(s, i + 2)) =~= name) by {
            assert forall|k: int| 0 <= k < name.len() implies s[i + 2 + k] == name[k] by {
                assert(at(s, i + (k + 2)) == spelling(t)[k + 2]);
                assert(spelling(t)[k + 2] == name[k]);
            }
        }
    }
}

/// Where a keyword, register operand or raw byte is written, what is taken is no
/// shorter, and is that token where it is as long.
proof fn lemma_word_is_taken(s: Seq<u8>, i: int, t: TokenView)
    requires
        0 <= i < s.len(),
        is_word(t),
        written_at(s, i, t),
    ensures
        token_at(s, i) is Some,
        spelling(t).len() <= token_at(s, i).unwrap().1,
        spelling(t).len() == token_at(s, i).unwrap().1 ==> token_at(s, i).unwrap().0 == t,
{
    let w = spelling(t);
    let n = w.len();
    lemma_spelled(s, i, t);
    lemma_word_in_run(t);
    lemma_ident_len_run(s, i);
    assert(at(s, i + 0) == w[0]);
    if n >= 2 {
        assert(at(s, i + 1) == w[1]);
    }
    if n >= 3 {
        assert(at(s, i + 2) == w[2]);
    }
    if n >= 4 {
        assert(at(s, i + 3) == w[3]);
    }
    lemma_word_is_longest(t, at(s, i), at(s, i + 1), at(s, i + 2), at(s, i + 3));
    if t is Num {
        if is_ident_char(s[i]) {
            lemma_ident_len_at_least(s, i, 1);
        }
    } else {
        assert forall|k: int| i <= k < i + n implies is_ident_char(#[trigger] s[k]) by {
            assert(at(s, i + (k - i)) == w[k - i]);
        }
        lemma_ident_len_at_least(s, i, n);
    }
}

/// The tokenizer takes the longest token: where a token `t` is written at a
/// position, the tokenizer takes a token there that is at least as long, and
/// `t` itself where it is as long.
pub proof fn lemma_token_at_is_longest(s: Seq<u8>, i: int, t: TokenView)
    requires
        0 <= i < s.len(),
        written_at(s, i, t),
    ensures
        token_at(s, i) is Some,
        spelling(t).len() <= token_at(s, i).unwrap().1,
        spelling(t).len() == token_at(s, i).unwrap().1 ==> token_at(s, i).unwrap().0 == t,
{
    match t {
        TokenView::Newline => {
            lemma_spelled(s, i, t);
            assert(at(s, i + 0) == spelling(t)[0]);
        },
        TokenView::MemPos(a) => {
            lemma_directive_is_taken(s, i, a);
        },
        TokenView::LabelDef(name) => {
            lemma_definition_is_taken(s, i, name);
        },
        TokenView::Label(label) => {
            lemma_reference_is_longest(s, i, label);
        },
        _ => {
            lemma_word_is_taken(s, i, t);
        },
    }
}

/// Every token of a text can be written: its register numbers are below 16
/// and its label names are identifiers.
pub proof fn lemma_tokens_are_well_formed(s: Seq<u8>, i: int)
    requires
        0 <= i,
        tokens_from(s, i) is Some,
    ensures
        forall|k: int|
            0 <= k < tokens_from(s, i).unwrap().len() ==> well_formed(
                #[trigger] tokens_from(s, i).unwrap()[k],
            ),
    decreases unread(s, i),
{
    if i >= s.len() {
    } else if s[i] == SPACE || s[i] == TAB {
        lemma_tokens_are_well_formed(s, i + 1);
    } else if s[i] == SEMICOLON {
        lemma_tokens_are_well_formed(s, i + 1 + line_rest(s, i + 1));
    } else {
        let (t, n) = token_at(s, i).unwrap();
        lemma_token_at_is_written(s, i);
        lemma_tokens_are_well_formed(s, i + n);
    }
}

} // verus!
