//! Character classes of the source text and the scanning primitives built on them.

use vstd::prelude::*;

verus! {

/// The byte of tab.
pub const TAB: u8 = 0x09;

/// The byte of line feed.
pub const LINE_FEED: u8 = 0x0a;

/// The byte of space.
pub const SPACE: u8 = 0x20;

/// The byte of the character `0`.
pub const DIGIT_0: u8 = 0x30;

/// The byte of the character `9`.
pub const DIGIT_9: u8 = 0x39;

/// The byte of the character `A`.
pub const UPPER_A: u8 = 0x41;

/// The byte of the character `Z`.
pub const UPPER_Z: u8 = 0x5a;

/// The byte of the character `z`.
pub const CH_Z: u8 = 0x7a;

/// The byte of the character `:`.
pub const COLON: u8 = 0x3a;

/// The byte of the character `;`.
pub const SEMICOLON: u8 = 0x3b;

/// The byte of the character `_`.
pub const UNDERSCORE: u8 = 0x5f;

/// The byte of the character `|`.
pub const BAR: u8 = 0x7c;

/// The byte of the character `a`.
pub const CH_A: u8 = 0x61;

/// The byte of the character `b`.
pub const CH_B: u8 = 0x62;

/// The byte of the character `c`.
pub const CH_C: u8 = 0x63;

/// The byte of the character `d`.
pub const CH_D: u8 = 0x64;

/// The byte of the character `e`.
pub const CH_E: u8 = 0x65;

/// The byte of the character `f`.
pub const CH_F: u8 = 0x66;

/// The byte of the character `h`.
pub const CH_H: u8 = 0x68;

/// The byte of the character `i`.
pub const CH_I: u8 = 0x69;

/// The byte of the character `j`.
pub const CH_J: u8 = 0x6a;

/// The byte of the character `l`.
pub const CH_L: u8 = 0x6c;

/// The byte of the character `m`.
pub const CH_M: u8 = 0x6d;

/// The byte of the character `n`.
pub const CH_N: u8 = 0x6e;

/// The byte of the character `o`.
pub const CH_O: u8 = 0x6f;

/// The byte of the character `p`.
pub const CH_P: u8 = 0x70;

/// The byte of the character `q`.
pub const CH_Q: u8 = 0x71;

/// The byte of the character `r`.
pub const CH_R: u8 = 0x72;

/// The byte of the character `s`.
pub const CH_S: u8 = 0x73;

/// The byte of the character `t`.
pub const CH_T: u8 = 0x74;

/// The byte of the character `u`.
pub const CH_U: u8 = 0x75;

/// The byte of the character `w`.
pub const CH_W: u8 = 0x77;

/// The byte at position `i` of `s`, or 0 where `i` lies outside `s`.
/// No token contains a zero byte, so 0 stands for "nothing here".
pub open spec fn at(s: Seq<u8>, i: int) -> u8 {
    if 0 <= i < s.len() {
        s[i]
    } else {
        0
    }
}

/// `0`-`9` or `a`-`f` (lower case only).
pub open spec fn is_hex(c: u8) -> bool {
    (DIGIT_0 <= c && c <= DIGIT_9) || (CH_A <= c && c <= CH_F)
}

/// The value of a hexadecimal digit.
pub open spec fn hex_val(c: u8) -> int {
    if c <= DIGIT_9 {
        c - DIGIT_0
    } else {
        c - CH_A + 10
    }
}

/// The value of a hexadecimal digit, as a byte.
pub open spec fn hex_nibble(c: u8) -> u8 {
    hex_val(c) as u8
}

/// The byte written by two hexadecimal digits.
pub open spec fn hex_byte(c0: u8, c1: u8) -> u8 {
    (hex_val(c0) * 16 + hex_val(c1)) as u8
}

/// The 16-bit value written by four hexadecimal digits.
pub open spec fn hex_word(c0: u8, c1: u8, c2: u8, c3: u8) -> u16 {
    (hex_val(c0) * 4096 + hex_val(c1) * 256 + hex_val(c2) * 16 + hex_val(c3)) as u16
}

/// The hexadecimal digit that writes the value `v`.
pub open spec fn hex_char(v: int) -> u8 {
    if v < 10 {
        (DIGIT_0 + v) as u8
    } else {
        (CH_A + v - 10) as u8
    }
}

/// The digit that writes a register number.
pub open spec fn digit_spelling(v: u8) -> u8 {
    hex_char(v as int)
}

/// The two digits that write a byte.
pub open spec fn byte_spelling(v: u8) -> Seq<u8> {
    seq![hex_char(v as int / 16), hex_char(v as int % 16)]
}

/// The four digits that write a 16-bit value.
pub open spec fn word_spelling(a: u16) -> Seq<u8> {
    seq![
        hex_char(a as int / 4096),
        hex_char(a as int / 256 % 16),
        hex_char(a as int / 16 % 16),
        hex_char(a as int % 16),
    ]
}

/// A letter or `_`.
pub open spec fn is_ident_start(c: u8) -> bool {
    (UPPER_A <= c && c <= UPPER_Z) || (CH_A <= c && c <= CH_Z) || c == UNDERSCORE
}

/// A letter, a decimal digit or `_`.
pub open spec fn is_ident_char(c: u8) -> bool {
    is_ident_start(c) || (DIGIT_0 <= c && c <= DIGIT_9)
}

/// The length of the longest run of identifier characters that starts at `i`.
pub open spec fn ident_len(s: Seq<u8>, i: int) -> nat
    decreases s.len() - i,
{
    if 0 <= i < s.len() && is_ident_char(s[i]) {
        1 + ident_len(s, i + 1)
    } else {
        0
    }
}

/// The number of bytes from `i` up to the next line feed or the end of `s`.
pub open spec fn line_rest(s: Seq<u8>, i: int) -> nat
    decreases s.len() - i,
{
    if 0 <= i < s.len() && s[i] != LINE_FEED {
        1 + line_rest(s, i + 1)
    } else {
        0
    }
}

/// Four hexadecimal digits write the value they are read as.
pub proof fn lemma_word_of_digits(c0: u8, c1: u8, c2: u8, c3: u8)
    requires
        is_hex(c0),
        is_hex(c1),
        is_hex(c2),
        is_hex(c3),
    ensures
        word_spelling(hex_word(c0, c1, c2, c3)) == seq![c0, c1, c2, c3],
{
    let h0 = hex_val(c0);
    let h1 = hex_val(c1);
    let h2 = hex_val(c2);
    let h3 = hex_val(c3);
    let a = h0 * 4096 + h1 * 256 + h2 * 16 + h3;
    assert(0 <= a < 65536);
    assert(a % 16 == h3);
    assert(a / 16 == h0 * 256 + h1 * 16 + h2);
    assert((a / 16) % 16 == h2);
    assert(a / 256 == h0 * 16 + h1);
    assert((a / 256) % 16 == h1);
    assert(a / 4096 == h0);
    assert(hex_word(c0, c1, c2, c3) as int == a);
    assert(hex_char(h0) == c0 && hex_char(h1) == c1 && hex_char(h2) == c2 && hex_char(h3) == c3);
}

/// A 16-bit value is read back from the four digits that write it.
pub proof fn lemma_digits_of_word(a: u16)
    ensures
        word_spelling(a).len() == 4,
        forall|k: int| 0 <= k < 4 ==> is_hex(#[trigger] word_spelling(a)[k]),
        hex_word(word_spelling(a)[0], word_spelling(a)[1], word_spelling(a)[2], word_spelling(a)[3])
            == a,
{
    let v = a as int;
    let h0 = v / 4096;
    let h1 = v / 256 % 16;
    let h2 = v / 16 % 16;
    let h3 = v % 16;
    assert(0 <= h0 < 16 && 0 <= h1 < 16 && 0 <= h2 < 16 && 0 <= h3 < 16);
    assert(v == (v / 16) * 16 + h3);
    assert(v / 16 == (v / 256) * 16 + h2);
    assert(v / 256 == h0 * 16 + h1);
    assert(v == h0 * 4096 + h1 * 256 + h2 * 16 + h3);
    assert(hex_val(hex_char(h0)) == h0 && hex_val(hex_char(h1)) == h1 && hex_val(hex_char(h2))
        == h2 && hex_val(hex_char(h3)) == h3);
    assert(is_hex(hex_char(h0)) && is_hex(hex_char(h1)) && is_hex(hex_char(h2)) && is_hex(
        hex_char(h3),
    ));
}

/// A run of identifier characters is at least as long as any stretch of them.
pub proof fn lemma_ident_len_at_least(s: Seq<u8>, i: int, n: nat)
    requires
        0 <= i,
        i + n <= s.len(),
        forall|k: int| i <= k < i + n ==> is_ident_char(#[trigger] s[k]),
    ensures
        ident_len(s, i) >= n,
    decreases n,
{
    if n > 0 {
        lemma_ident_len_at_least(s, i + 1, (n - 1) as nat);
    }
}

/// A run of identifier characters holds only such characters, lies within
/// the text, and ends before a character of another kind.
pub proof fn lemma_ident_len_run(s: Seq<u8>, i: int)
    requires
        0 <= i,
    ensures
        i + ident_len(s, i) <= s.len() || ident_len(s, i) == 0,
        forall|k: int| i <= k < i + ident_len(s, i) ==> is_ident_char(#[trigger] s[k]),
        !is_ident_char(at(s, i + ident_len(s, i))),
    decreases s.len() - i,
{
    if i < s.len() && is_ident_char(s[i]) {
        lemma_ident_len_run(s, i + 1);
    }
}

/// Whether `name` is an identifier: a letter or `_`, then letters, digits and `_`.
pub open spec fn is_identifier(name: Seq<u8>) -> bool {
    &&& name.len() > 0
    &&& is_ident_start(name[0])
    &&& forall|k: int| 0 <= k < name.len() ==> is_ident_char(#[trigger] name[k])
}

pub fn hex_digit(c: u8) -> (r: bool)
    ensures
        r == is_hex(c),
{
    (DIGIT_0 <= c && c <= DIGIT_9) || (CH_A <= c && c <= CH_F)
}

pub fn hex_value(c: u8) -> (v: u8)
    requires
        is_hex(c),
    ensures
        v == hex_val(c),
        v == hex_nibble(c),
        v < 16,
{
    if c <= DIGIT_9 {
        c - DIGIT_0
    } else {
        c - CH_A + 10
    }
}

pub fn parse_hex_byte(c0: u8, c1: u8) -> (v: u8)
    requires
        is_hex(c0),
        is_hex(c1),
    ensures
        v == hex_byte(c0, c1),
{
    hex_value(c0) * 16 + hex_value(c1)
}

pub fn parse_hex_word(c0: u8, c1: u8, c2: u8, c3: u8) -> (v: u16)
    requires
        is_hex(c0),
        is_hex(c1),
        is_hex(c2),
        is_hex(c3),
    ensures
        v == hex_word(c0, c1, c2, c3),
{
    let hi: u16 = parse_hex_byte(c0, c1) as u16;
    let lo: u16 = parse_hex_byte(c2, c3) as u16;
    hi * 256 + lo
}

pub fn ident_start(c: u8) -> (r: bool)
    ensures
        r == is_ident_start(c),
{
    (UPPER_A <= c && c <= UPPER_Z) || (CH_A <= c && c <= CH_Z) || c == UNDERSCORE
}

pub fn ident_char(c: u8) -> (r: bool)
    ensures
        r == is_ident_char(c),
{
    ident_start(c) || (DIGIT_0 <= c && c <= DIGIT_9)
}

/// The byte `k` places after position `i`, or 0 past the end.
pub fn byte_at(src: &[u8], i: usize, k: usize) -> (c: u8)
    requires
        i <= src.len(),
    ensures
        c == at(src@, i + k),
{
    if k < src.len() - i {
        src[i + k]
    } else {
        0
    }
}

/// Measures the run of identifier characters that starts at `i`.
pub fn scan_ident(src: &[u8], i: usize) -> (n: usize)
    requires
        i <= src.len(),
    ensures
        n == ident_len(src@, i as int),
        i + n <= src.len(),
{
    let mut j: usize = i;
    while j < src.len() && ident_char(src[j])
        invariant
            i <= j <= src.len(),
            ident_len(src@, i as int) == (j - i) + ident_len(src@, j as int),
        decreases src.len() - j,
    {
        j += 1;
    }
    j - i
}

/// Measures the rest of the line that starts at `i`, the line feed not included.
pub fn scan_line_rest(src: &[u8], i: usize) -> (n: usize)
    requires
        i <= src.len(),
    ensures
        n == line_rest(src@, i as int),
        i + n <= src.len(),
{
    let mut j: usize = i;
    while j < src.len() && src[j] != LINE_FEED
        invariant
            i <= j <= src.len(),
            line_rest(src@, i as int) == (j - i) + line_rest(src@, j as int),
        decreases src.len() - j,
    {
        j += 1;
    }
    j - i
}

/// Copies the bytes of `src` from `from` up to `to`.
pub fn copy_range(src: &[u8], from: usize, to: usize) -> (out: Vec<u8>)
    requires
        from <= to <= src.len(),
    ensures
        out@ == src@.subrange(from as int, to as int),
{
    let mut out: Vec<u8> = Vec::new();
    let mut j: usize = from;
    while j < to
        invariant
            from <= j <= to <= src.len(),
            out@ == src@.subrange(from as int, j as int),
        decreases to - j,
    {
        out.push(src[j]);
        assert(src@.subrange(from as int, j + 1) == src@.subrange(from as int, j as int).push(
            src@[j as int],
        ));
        j += 1;
    }
    out
}

/// Copies a byte string.
pub fn copy_bytes(src: &[u8]) -> (out: Vec<u8>)
    ensures
        out@ == src@,
{
    assert(src@.subrange(0, src@.len() as int) =~= src@);
    copy_range(src, 0, src.len())
}

/// Whether two byte strings are equal.
pub fn bytes_equal(a: &[u8], b: &[u8]) -> (r: bool)
    ensures
        r == (a@ == b@),
{
    if a.len() != b.len() {
        return false;
    }
    let mut j: usize = 0;
    while j < a.len()
        invariant
            j <= a.len(),
            a.len() == b.len(),
            forall|k: int| 0 <= k < j ==> a@[k] == b@[k],
        decreases a.len() - j,
    {
        if a[j] != b[j] {
            return false;
        }
        j += 1;
    }
    assert(a@ =~= b@);
    true
}

} // verus!
