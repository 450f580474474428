//! The tokenizer: from source bytes to a sequence of tokens.
//!
//! Blanks, tabs and comments (from `;` to the end of the line) separate tokens
//! and yield none. Everywhere else the longest token that starts at the
//! current position is taken. A position at which no token starts makes the
//! whole text invalid.

use vstd::prelude::*;
use crate::chars::{
    at, byte_at, copy_range, hex_byte, hex_digit, hex_nibble, hex_value, hex_word, ident_len,
    ident_start, is_hex, is_ident_start, line_rest, parse_hex_byte, parse_hex_word, scan_ident,
    scan_line_rest, BAR, CH_A, CH_B, CH_C, CH_D, CH_E, CH_F, CH_H, CH_I, CH_J, CH_L, CH_M,
    CH_N, CH_O, CH_P, CH_Q, CH_R, CH_S, CH_T, CH_U, CH_W, COLON, LINE_FEED, SEMICOLON, SPACE,
    TAB, UNDERSCORE,
};
use crate::error::{AsmError, AsmErrorView};
use crate::token::{Label, LabelView, Nibble, Token, TokenView, token_views};

verus! {

/// The keyword, register operand or raw byte that the lookahead `c0 c1 c2 c3`
/// begins with, and its length. A longer match is preferred: `ret` is the
/// keyword, not the register `re`; `r5` is a register, not the keyword `r`.
pub open spec fn word_of(c0: u8, c1: u8, c2: u8, c3: u8) -> Option<(TokenView, nat)> {
    if c0 == CH_C && c1 == CH_J && c2 == CH_M && c3 == CH_P {
        Some((TokenView::Cjmp, 4))
    } else if c0 == CH_C && c1 == CH_A && c2 == CH_L && c3 == CH_L {
        Some((TokenView::Call, 4))
    } else if c0 == CH_H && c1 == CH_A && c2 == CH_L && c3 == CH_T {
        Some((TokenView::Halt, 4))
    } else if c0 == CH_L && c1 == CH_I && c2 == CH_T {
        Some((TokenView::Lit, 3))
    } else if c0 == CH_J && c1 == CH_M && c2 == CH_P {
        Some((TokenView::Jmp, 3))
    } else if c0 == CH_T && c1 == CH_A && c2 == CH_C {
        Some((TokenView::Tac, 3))
    } else if c0 == CH_T && c1 == CH_R && c2 == CH_E {
        Some((TokenView::Tre, 3))
    } else if c0 == CH_C && c1 == CH_M && c2 == CH_P {
        Some((TokenView::Cmp, 3))
    } else if c0 == CH_A && c1 == CH_D && c2 == CH_D {
        Some((TokenView::Add, 3))
    } else if c0 == CH_S && c1 == CH_U && c2 == CH_B {
        Some((TokenView::Sub, 3))
    } else if c0 == CH_L && c1 == CH_S && c2 == CH_F {
        Some((TokenView::Lsf, 3))
    } else if c0 == CH_R && c1 == CH_S && c2 == CH_F {
        Some((TokenView::Rsf, 3))
    } else if c0 == CH_A && c1 == CH_N && c2 == CH_D {
        Some((TokenView::And, 3))
    } else if c0 == CH_N && c1 == CH_O && c2 == CH_T {
        Some((TokenView::Not, 3))
    } else if c0 == CH_R && c1 == CH_E && c2 == CH_T {
        Some((TokenView::Ret, 3))
    } else if c0 == CH_E && c1 == CH_Q {
        Some((TokenView::Eq, 2))
    } else if c0 == CH_O && c1 == CH_R {
        Some((TokenView::Or, 2))
    } else if c0 == CH_R && is_hex(c1) {
        Some((TokenView::Reg(hex_nibble(c1)), 2))
    } else if is_hex(c0) && is_hex(c1) {
        Some((TokenView::Num(hex_byte(c0, c1)), 2))
    } else if c0 == CH_R {
        Some((TokenView::R, 1))
    } else if c0 == CH_W {
        Some((TokenView::W, 1))
    } else {
        None
    }
}

/// The token that starts at position `i` of `s`, and its length in bytes;
/// `None` where no token starts there.
///
/// A label definition, where one matches, is the longest match: it takes the
/// whole run of identifier characters and the colon. A label reference takes
/// the whole run likewise, and so is longer than any keyword.
pub open spec fn token_at(s: Seq<u8>, i: int) -> Option<(TokenView, nat)> {
    let c = at(s, i);
    let run = ident_len(s, i);
    let tail = ident_len(s, i + 2);
    if c == LINE_FEED {
        Some((TokenView::Newline, 1))
    } else if c == BAR {
        if is_hex(at(s, i + 1)) && is_hex(at(s, i + 2)) && is_hex(at(s, i + 3)) && is_hex(
            at(s, i + 4),
        ) {
            Some(
                (
                    TokenView::MemPos(
                        hex_word(at(s, i + 1), at(s, i + 2), at(s, i + 3), at(s, i + 4)),
                    ),
                    5,
                ),
            )
        } else {
            None
        }
    } else if is_ident_start(c) && at(s, i + run) == COLON {
        Some((TokenView::LabelDef(s.subrange(i, i + run)), run + 1))
    } else if (c == CH_H || c == CH_L) && at(s, i + 1) == UNDERSCORE && is_ident_start(at(s, i + 2)) {
        Some(
            (
                TokenView::Label(
                    LabelView {
                        name: s.subrange(i + 2, i + 2 + tail),
                        nibble: if c == CH_H {
                            Nibble::High
                        } else {
                            Nibble::Low
                        },
                    },
                ),
                2 + tail,
            ),
        )
    } else {
        word_of(c, at(s, i + 1), at(s, i + 2), at(s, i + 3))
    }
}

/// `front` followed by `rest`, where there is a `rest`.
pub open spec fn prepend(front: Seq<TokenView>, rest: Option<Seq<TokenView>>) -> Option<
    Seq<TokenView>,
> {
    match rest {
        Some(r) => Some(front + r),
        None => None,
    }
}

/// How many bytes of `s` lie at or after position `i`.
pub open spec fn unread(s: Seq<u8>, i: int) -> nat {
    if i <= s.len() {
        (s.len() - i) as nat
    } else {
        0
    }
}

/// The tokens of `s` from position `i` on; `None` where some span is no token.
pub open spec fn tokens_from(s: Seq<u8>, i: int) -> Option<Seq<TokenView>>
    decreases unread(s, i),
{
    if i < 0 || i >= s.len() {
        Some(Seq::empty())
    } else if s[i] == SPACE || s[i] == TAB {
        tokens_from(s, i + 1)
    } else if s[i] == SEMICOLON {
        tokens_from(s, i + 1 + line_rest(s, i + 1))
    } else {
        match token_at(s, i) {
            Some((t, n)) => prepend(seq![t], tokens_from(s, i + n)),
            None => None,
        }
    }
}

/// The tokens of a source text; `None` where the text is lexically invalid.
pub open spec fn tokens_of(s: Seq<u8>) -> Option<Seq<TokenView>> {
    tokens_from(s, 0)
}

/// Recognizes a keyword, a register operand or a raw byte in four bytes of lookahead.
pub fn scan_word(c0: u8, c1: u8, c2: u8, c3: u8) -> (r: Option<(Token, usize)>)
    ensures
        r is Some <==> word_of(c0, c1, c2, c3) is Some,
        r is Some ==> r.unwrap().0@ == word_of(c0, c1, c2, c3).unwrap().0 && r.unwrap().1
            == word_of(c0, c1, c2, c3).unwrap().1,
        r is Some ==> 1 <= r.unwrap().1 <= 4 && c0 != 0,
        r is Some && r.unwrap().1 >= 2 ==> c1 != 0,
        r is Some && r.unwrap().1 >= 3 ==> c2 != 0,
        r is Some && r.unwrap().1 >= 4 ==> c3 != 0,
{
    if c0 == CH_C && c1 == CH_J && c2 == CH_M && c3 == CH_P {
        Some((Token::Cjmp, 4))
    } else if c0 == CH_C && c1 == CH_A && c2 == CH_L && c3 == CH_L {
        Some((Token::Call, 4))
    } else if c0 == CH_H && c1 == CH_A && c2 == CH_L && c3 == CH_T {
        Some((Token::Halt, 4))
    } else if c0 == CH_L && c1 == CH_I && c2 == CH_T {
        Some((Token::Lit, 3))
    } else if c0 == CH_J && c1 == CH_M && c2 == CH_P {
        Some((Token::Jmp, 3))
    } else if c0 == CH_T && c1 == CH_A && c2 == CH_C {
        Some((Token::Tac, 3))
    } else if c0 == CH_T && c1 == CH_R && c2 == CH_E {
        Some((Token::Tre, 3))
    } else if c0 == CH_C && c1 == CH_M && c2 == CH_P {
        Some((Token::Cmp, 3))
    } else if c0 == CH_A && c1 == CH_D && c2 == CH_D {
        Some((Token::Add, 3))
    } else if c0 == CH_S && c1 == CH_U && c2 == CH_B {
        Some((Token::Sub, 3))
    } else if c0 == CH_L && c1 == CH_S && c2 == CH_F {
        Some((Token::Lsf, 3))
    } else if c0 == CH_R && c1 == CH_S && c2 == CH_F {
        Some((Token::Rsf, 3))
    } else if c0 == CH_A && c1 == CH_N && c2 == CH_D {
        Some((Token::And, 3))
    } else if c0 == CH_N && c1 == CH_O && c2 == CH_T {
        Some((Token::Not, 3))
    } else if c0 == CH_R && c1 == CH_E && c2 == CH_T {
        Some((Token::Ret, 3))
    } else if c0 == CH_E && c1 == CH_Q {
        Some((Token::Eq, 2))
    } else if c0 == CH_O && c1 == CH_R {
        Some((Token::Or, 2))
    } else if c0 == CH_R && hex_digit(c1) {
        Some((Token::Reg(hex_value(c1)), 2))
    } else if hex_digit(c0) && hex_digit(c1) {
        Some((Token::Num(parse_hex_byte(c0, c1)), 2))
    } else if c0 == CH_R {
        Some((Token::R, 1))
    } else if c0 == CH_W {
        Some((Token::W, 1))
    } else {
        None
    }
}

/// Builds the label reference that the bytes of `slice` spell: the selector
/// from the first byte, the name from what follows the two-byte prefix.
pub fn parse_label(slice: &[u8]) -> (label: Label)
    requires
        slice@.len() >= 2,
        slice@[0] == CH_H || slice@[0] == CH_L,
    ensures
        label@.name == slice@.subrange(2, slice@.len() as int),
        label@.nibble == (if slice@[0] == CH_H {
            Nibble::High
        } else {
            Nibble::Low
        }),
{
    let name = copy_range(slice, 2, slice.len());
    if slice[0] == CH_H {
        Label { name, nibble: Nibble::High }
    } else {
        Label { name, nibble: Nibble::Low }
    }
}

/// Scans the token that starts at position `i`.
pub fn scan_token(src: &[u8], i: usize) -> (r: Option<(Token, usize)>)
    requires
        i < src.len(),
    ensures
        r is Some <==> token_at(src@, i as int) is Some,
        r is Some ==> r.unwrap().0@ == token_at(src@, i as int).unwrap().0 && r.unwrap().1
            == token_at(src@, i as int).unwrap().1,
        r is Some ==> 1 <= r.unwrap().1 && i + r.unwrap().1 <= src.len(),
{
    let c = src[i];
    let c1 = byte_at(src, i, 1);
    let c2 = byte_at(src, i, 2);
    let c3 = byte_at(src, i, 3);
    let c4 = byte_at(src, i, 4);
    let run = scan_ident(src, i);
    if c == LINE_FEED {
        Some((Token::Newline, 1))
    } else if c == BAR {
        if hex_digit(c1) && hex_digit(c2) && hex_digit(c3) && hex_digit(c4) {
            Some((Token::MemPos(parse_hex_word(c1, c2, c3, c4)), 5))
        } else {
            None
        }
    } else if ident_start(c) && byte_at(src, i, run) == COLON {
        Some((Token::LabelDef(copy_range(src, i, i + run)), run + 1))
    } else if (c == CH_H || c == CH_L) && c1 == UNDERSCORE && ident_start(c2) {
        let tail = scan_ident(src, i + 2);
        let end = i + 2 + tail;
        let label = parse_label(vstd::slice::slice_subrange(src, i, end));
        proof {
            assert(src@.subrange(i as int, end as int).subrange(2, end - i) =~= src@.subrange(
                i + 2,
                end as int,
            ));
        }
        Some((Token::Label(label), 2 + tail))
    } else {
        scan_word(c, c1, c2, c3)
    }
}

/// Scans a whole source text into its tokens.
///
/// Succeeds exactly where every span outside blanks and comments is a token,
/// and then returns those tokens in order.
pub fn tokenize(src: &[u8]) -> (r: Result<Vec<Token>, AsmError>)
    ensures
        match r {
            Ok(ts) => tokens_of(src@) == Some(token_views(ts@)),
            Err(e) => tokens_of(src@) is None && e@ == AsmErrorView::Lex,
        },
{
    let mut toks: Vec<Token> = Vec::new();
    let mut i: usize = 0;
    while i < src.len()
        invariant
            i <= src.len(),
            tokens_of(src@) == prepend(token_views(toks@), tokens_from(src@, i as int)),
        decreases src.len() - i,
    {
        let c = src[i];
        if c == SPACE || c == TAB {
            i += 1;
        } else if c == SEMICOLON {
            let n = scan_line_rest(src, i + 1);
            i = i + 1 + n;
        } else {
            match scan_token(src, i) {
                None => {
                    return Err(AsmError::Lex);
                },
                Some((t, n)) => {
                    proof {
                        let rest = tokens_from(src@, i + n);
                        let before = token_views(toks@);
                        assert(token_views(toks@.push(t)) =~= before.push(t@));
                        if rest is Some {
                            assert(before + (seq![t@] + rest.unwrap()) =~= before.push(t@)
                                + rest.unwrap());
                        }
                    }
                    toks.push(t);
                    i += n;
                },
            }
        }
    }
    proof {
        assert(token_views(toks@) + Seq::<TokenView>::empty() =~= token_views(toks@));
    }
    Ok(toks)
}

} // verus!
