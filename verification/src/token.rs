//! The tokens of the assembly language and their mathematical views.

use vstd::prelude::*;
use crate::chars::copy_bytes;

verus! {

/// Which part of a label's address a reference selects.
#[derive(Clone, Copy, Debug, PartialEq, Eq, Structural)]
pub enum Nibble {
    High,
    Low,
}

/// A reference to a label: the label's name (ASCII bytes) and the selected part.
#[derive(Debug, PartialEq, Eq)]
pub struct Label {
    pub name: Vec<u8>,
    pub nibble: Nibble,
}

/// The mathematical value of a [`Label`].
pub ghost struct LabelView {
    pub name: Seq<u8>,
    pub nibble: Nibble,
}

impl View for Label {
    type V = LabelView;

    open spec fn view(&self) -> LabelView {
        LabelView { name: self.name@, nibble: self.nibble }
    }
}

/// One token of source text.
#[derive(Debug, PartialEq, Eq)]
pub enum Token {
    Lit,
    Jmp,
    Cjmp,
    Tac,
    Tre,
    R,
    W,
    Eq,
    Cmp,
    Add,
    Sub,
    Lsf,
    Rsf,
    Or,
    And,
    Not,
    Call,
    Ret,
    Halt,
    /// A register operand, `r` and one hexadecimal digit.
    Reg(u8),
    /// A raw byte, two hexadecimal digits.
    Num(u8),
    /// A label definition, an identifier followed by `:`.
    LabelDef(Vec<u8>),
    /// A label reference, `h_` or `l_` followed by an identifier.
    Label(Label),
    /// An address directive, `|` and four hexadecimal digits.
    MemPos(u16),
    /// A line break.
    Newline,
}

/// The mathematical value of a [`Token`].
pub ghost enum TokenView {
    Lit,
    Jmp,
    Cjmp,
    Tac,
    Tre,
    R,
    W,
    Eq,
    Cmp,
    Add,
    Sub,
    Lsf,
    Rsf,
    Or,
    And,
    Not,
    Call,
    Ret,
    Halt,
    Reg(u8),
    Num(u8),
    LabelDef(Seq<u8>),
    Label(LabelView),
    MemPos(u16),
    Newline,
}

impl View for Token {
    type V = TokenView;

    open spec fn view(&self) -> TokenView {
        match *self {
            Token::Lit => TokenView::Lit,
            Token::Jmp => TokenView::Jmp,
            Token::Cjmp => TokenView::Cjmp,
            Token::Tac => TokenView::Tac,
            Token::Tre => TokenView::Tre,
            Token::R => TokenView::R,
            Token::W => TokenView::W,
            Token::Eq => TokenView::Eq,
            Token::Cmp => TokenView::Cmp,
            Token::Add => TokenView::Add,
            Token::Sub => TokenView::Sub,
            Token::Lsf => TokenView::Lsf,
            Token::Rsf => TokenView::Rsf,
            Token::Or => TokenView::Or,
            Token::And => TokenView::And,
            Token::Not => TokenView::Not,
            Token::Call => TokenView::Call,
            Token::Ret => TokenView::Ret,
            Token::Halt => TokenView::Halt,
            Token::Reg(r) => TokenView::Reg(r),
            Token::Num(n) => TokenView::Num(n),
            Token::LabelDef(name) => TokenView::LabelDef(name@),
            Token::Label(label) => TokenView::Label(label@),
            Token::MemPos(a) => TokenView::MemPos(a),
            Token::Newline => TokenView::Newline,
        }
    }
}

/// The views of a sequence of tokens, in order.
pub open spec fn token_views(ts: Seq<Token>) -> Seq<TokenView> {
    Seq::new(ts.len(), |k: int| ts[k]@)
}

/// The views of a sequence of lines, in order.
pub open spec fn line_views(ls: Seq<Vec<Token>>) -> Seq<Seq<TokenView>> {
    Seq::new(ls.len(), |k: int| token_views(ls[k]@))
}

impl Clone for Label {
    fn clone(&self) -> (out: Self)
        ensures
            out@ == self@,
    {
        Label { name: copy_bytes(self.name.as_slice()), nibble: self.nibble }
    }
}

impl Clone for Token {
    fn clone(&self) -> (out: Self)
        ensures
            out@ == self@,
    {
        match self {
            Token::Lit => Token::Lit,
            Token::Jmp => Token::Jmp,
            Token::Cjmp => Token::Cjmp,
            Token::Tac => Token::Tac,
            Token::Tre => Token::Tre,
            Token::R => Token::R,
            Token::W => Token::W,
            Token::Eq => Token::Eq,
            Token::Cmp => Token::Cmp,
            Token::Add => Token::Add,
            Token::Sub => Token::Sub,
            Token::Lsf => Token::Lsf,
            Token::Rsf => Token::Rsf,
            Token::Or => Token::Or,
            Token::And => Token::And,
            Token::Not => Token::Not,
            Token::Call => Token::Call,
            Token::Ret => Token::Ret,
            Token::Halt => Token::Halt,
            Token::Reg(r) => Token::Reg(*r),
            Token::Num(n) => Token::Num(*n),
            Token::LabelDef(name) => Token::LabelDef(copy_bytes(name.as_slice())),
            Token::Label(label) => Token::Label(label.clone()),
            Token::MemPos(a) => Token::MemPos(*a),
            Token::Newline => Token::Newline,
        }
    }
}

/// Copies a line of tokens.
pub fn copy_tokens(line: &Vec<Token>) -> (out: Vec<Token>)
    ensures
        token_views(out@) == token_views(line@),
{
    let mut out: Vec<Token> = Vec::new();
    let mut i: usize = 0;
    while i < line.len()
        invariant
            i <= line.len(),
            out@.len() == i,
            forall|k: int| 0 <= k < i ==> out@[k]@ == line@[k]@,
        decreases line.len() - i,
    {
        out.push(line[i].clone());
        i += 1;
    }
    assert(token_views(out@) =~= token_views(line@));
    out
}

} // verus!
