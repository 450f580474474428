use rom_assembler::{
    encode, encode_line, get_label, group_lines, parse_label, resolve_labels, tokenize, AsmError,
    Encoding, Label, LabelTable, Nibble, Token,
};

fn label(name: &str, nibble: Nibble) -> Token {
    Token::Label(Label { name: name.as_bytes().to_vec(), nibble })
}

#[test]
fn tokenize_all_keywords() {
    let src = b"lit jmp cjmp tac tre r w eq cmp add sub lsf rsf or and not call ret halt";
    assert_eq!(
        tokenize(src),
        Ok(vec![
            Token::Lit, Token::Jmp, Token::Cjmp, Token::Tac, Token::Tre, Token::R, Token::W,
            Token::Eq, Token::Cmp, Token::Add, Token::Sub, Token::Lsf, Token::Rsf, Token::Or,
            Token::And, Token::Not, Token::Call, Token::Ret, Token::Halt,
        ])
    );
}

#[test]
fn tokenize_operands() {
    assert_eq!(
        tokenize(b"r0 rf 00 ff a9 |00ff |beef\n"),
        Ok(vec![
            Token::Reg(0), Token::Reg(15), Token::Num(0), Token::Num(255), Token::Num(0xa9),
            Token::MemPos(0x00ff), Token::MemPos(0xbeef), Token::Newline,
        ])
    );
}

#[test]
fn tokenize_labels() {
    assert_eq!(
        tokenize(b"loop_1:\n_x: h_loop_1 l__x"),
        Ok(vec![
            Token::LabelDef(b"loop_1".to_vec()),
            Token::Newline,
            Token::LabelDef(b"_x".to_vec()),
            label("loop_1", Nibble::High),
            label("_x", Nibble::Low),
        ])
    );
}

#[test]
fn reference_name_is_what_follows_the_prefix() {
    assert_eq!(tokenize(b"h_h_x"), Ok(vec![label("h_x", Nibble::High)]));
    assert_eq!(tokenize(b"l_l_"), Ok(vec![label("l_", Nibble::Low)]));
}

#[test]
fn longest_match_wins() {
    assert_eq!(tokenize(b"ret"), Ok(vec![Token::Ret]));
    assert_eq!(tokenize(b"re"), Ok(vec![Token::Reg(14)]));
    assert_eq!(tokenize(b"r"), Ok(vec![Token::R]));
    assert_eq!(tokenize(b"r5"), Ok(vec![Token::Reg(5)]));
    assert_eq!(tokenize(b"add"), Ok(vec![Token::Add]));
    assert_eq!(tokenize(b"ad"), Ok(vec![Token::Num(0xad)]));
    assert_eq!(tokenize(b"call"), Ok(vec![Token::Call]));
    assert_eq!(tokenize(b"ca"), Ok(vec![Token::Num(0xca)]));
    assert_eq!(tokenize(b"add:"), Ok(vec![Token::LabelDef(b"add".to_vec())]));
    assert_eq!(tokenize(b"r5:"), Ok(vec![Token::LabelDef(b"r5".to_vec())]));
    assert_eq!(tokenize(b"h_a:"), Ok(vec![Token::LabelDef(b"h_a".to_vec())]));
    assert_eq!(tokenize(b"ff:"), Ok(vec![Token::LabelDef(b"ff".to_vec())]));
    assert_eq!(tokenize(b"h_halt"), Ok(vec![label("halt", Nibble::High)]));
}

#[test]
fn adjacent_tokens_need_no_blank() {
    assert_eq!(tokenize(b"addr3"), Ok(vec![Token::Add, Token::Reg(3)]));
    assert_eq!(tokenize(b"1234"), Ok(vec![Token::Num(0x12), Token::Num(0x34)]));
    assert_eq!(tokenize(b"|12345"), Err(AsmError::Lex));
    assert_eq!(tokenize(b"|123456"), Ok(vec![Token::MemPos(0x1234), Token::Num(0x56)]));
}

#[test]
fn tokenize_rejects_unknown_spans() {
    assert_eq!(tokenize(b"x"), Err(AsmError::Lex));
    assert_eq!(tokenize(b"1"), Err(AsmError::Lex));
    assert_eq!(tokenize(b"R5"), Err(AsmError::Lex));
    assert_eq!(tokenize(b"rF"), Err(AsmError::Lex));
    assert_eq!(tokenize(b"|12g4"), Err(AsmError::Lex));
    assert_eq!(tokenize(b"|"), Err(AsmError::Lex));
    assert_eq!(tokenize(b":"), Err(AsmError::Lex));
    assert_eq!(tokenize(b"1a:"), Err(AsmError::Lex));
    assert_eq!(tokenize(b"h_"), Err(AsmError::Lex));
    assert_eq!(tokenize(b"h_1"), Err(AsmError::Lex));
    assert_eq!(tokenize(b"\0"), Err(AsmError::Lex));
    assert_eq!(tokenize(b"halt\r\n"), Err(AsmError::Lex));
}

#[test]
fn tokenize_skips_blanks_and_comments() {
    assert_eq!(tokenize(b""), Ok(vec![]));
    assert_eq!(tokenize(b" \t ; nothing ? here"), Ok(vec![]));
    assert_eq!(
        tokenize(b"halt;stop\n;\nret"),
        Ok(vec![Token::Halt, Token::Newline, Token::Newline, Token::Ret])
    );
}

#[test]
fn parse_label_reads_selector_and_name() {
    assert_eq!(parse_label(b"h_top"), Label { name: b"top".to_vec(), nibble: Nibble::High });
    assert_eq!(parse_label(b"l_top"), Label { name: b"top".to_vec(), nibble: Nibble::Low });
}

#[test]
fn group_lines_drops_blank_and_unterminated_lines() {
    let tokens = vec![
        Token::Newline, Token::Lit, Token::Reg(1), Token::Newline, Token::Newline, Token::Halt,
        Token::Newline, Token::Ret,
    ];
    assert_eq!(group_lines(&tokens), vec![vec![Token::Lit, Token::Reg(1)], vec![Token::Halt]]);
    assert_eq!(group_lines(&vec![]), Vec::<Vec<Token>>::new());
    assert_eq!(group_lines(&vec![Token::Halt]), Vec::<Vec<Token>>::new());
}

#[test]
fn label_table_last_write_wins() {
    let mut table = LabelTable::new();
    assert_eq!(table.get(b"a"), None);
    table.insert(b"a".to_vec(), 1);
    table.insert(b"b".to_vec(), 2);
    assert_eq!(table.get(b"a"), Some(1));
    table.insert(b"a".to_vec(), 3);
    assert_eq!(table.get(b"a"), Some(3));
    assert_eq!(table.get(b"b"), Some(2));
    assert_eq!(table.get(b"A"), None);
    assert_eq!(table.get(b""), None);
}

#[test]
fn resolve_labels_records_addresses() {
    let lines = vec![
        vec![Token::LabelDef(b"zero".to_vec())],
        vec![Token::Halt],
        vec![Token::LabelDef(b"one".to_vec()), Token::Halt],
        vec![Token::MemPos(0x1234), Token::Halt],
        vec![Token::LabelDef(b"far".to_vec())],
        vec![Token::Num(1)],
        vec![Token::LabelDef(b"next".to_vec())],
    ];
    let table = resolve_labels(&lines);
    assert_eq!(table.get(b"zero"), Some(0));
    assert_eq!(table.get(b"one"), Some(1));
    assert_eq!(table.get(b"far"), Some(0x1234));
    assert_eq!(table.get(b"next"), Some(0x1235));
    assert_eq!(table.get(b"none"), None);
}

#[test]
fn get_label_selects_part() {
    let mut table = LabelTable::new();
    table.insert(b"x".to_vec(), 0xabcd);
    let high = Label { name: b"x".to_vec(), nibble: Nibble::High };
    let low = Label { name: b"x".to_vec(), nibble: Nibble::Low };
    let none = Label { name: b"y".to_vec(), nibble: Nibble::Low };
    assert_eq!(get_label(&table, &high), Some(0xab));
    assert_eq!(get_label(&table, &low), Some(0x0d));
    assert_eq!(get_label(&table, &none), None);
}

#[test]
fn encode_line_by_form() {
    let mut table = LabelTable::new();
    table.insert(b"x".to_vec(), 0x0307);
    assert_eq!(encode_line(&vec![], &table), Encoding::Nothing);
    assert_eq!(encode_line(&vec![Token::LabelDef(b"q".to_vec())], &table), Encoding::Nothing);
    assert_eq!(encode_line(&vec![Token::MemPos(7)], &table), Encoding::Nothing);
    assert_eq!(encode_line(&vec![Token::Jmp], &table), Encoding::Byte(0x10));
    assert_eq!(encode_line(&vec![Token::Num(0x42)], &table), Encoding::Byte(0x42));
    assert_eq!(encode_line(&vec![label("x", Nibble::High)], &table), Encoding::Byte(0x03));
    assert_eq!(encode_line(&vec![Token::Jmp, Token::Reg(3)], &table), Encoding::Byte(0x13));
    assert_eq!(
        encode_line(&vec![Token::Sub, label("x", Nibble::Low)], &table),
        Encoding::Byte(0xa7)
    );
    assert_eq!(
        encode_line(&vec![Token::Sub, label("y", Nibble::Low)], &table),
        Encoding::UndefinedLabel
    );
    assert_eq!(encode_line(&vec![Token::Sub], &table), Encoding::Unrecognized);
    assert_eq!(encode_line(&vec![Token::Call, Token::Reg(1)], &table), Encoding::Unrecognized);
    assert_eq!(encode_line(&vec![Token::Newline], &table), Encoding::Unrecognized);
}

#[test]
fn encode_writes_at_line_addresses() {
    let lines = vec![
        vec![Token::Halt],
        vec![Token::MemPos(0x0200)],
        vec![Token::Add, Token::Reg(2)],
        vec![],
        vec![Token::Ret],
    ];
    let rom = encode(&lines, &LabelTable::new()).unwrap();
    assert_eq!(rom[0], 0x13);
    assert_eq!(rom[0x0200], 0x92);
    assert_eq!(rom[0x0201], 0x12);
    assert_eq!(rom.iter().filter(|b| **b != 0).count(), 3);
}
