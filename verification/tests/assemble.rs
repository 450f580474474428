use rom_assembler::{assemble, assemble_bytes, AsmError, Label, Nibble, Token};

fn image(src: &str) -> [u8; 65536] {
    match assemble(src) {
        Ok(rom) => rom,
        Err(e) => panic!("assembling failed: {}", e.message()),
    }
}

fn assert_zero_except(rom: &[u8; 65536], written: &[usize]) {
    for (a, b) in rom.iter().enumerate() {
        if !written.contains(&a) {
            assert_eq!(*b, 0, "address {a:#06x}");
        }
    }
}

#[test]
fn image_has_fixed_size_and_is_zero_where_unwritten() {
    let rom = image("|1234\nadd r1\n");
    assert_eq!(rom.len(), 65536);
    assert_eq!(rom[0x1234], 0x91);
    assert_zero_except(&rom, &[0x1234]);
}

#[test]
fn empty_source_gives_all_zero_image() {
    let rom = image("");
    assert_eq!(rom.len(), 65536);
    assert_zero_except(&rom, &[]);
}

#[test]
fn later_label_definition_overrides_earlier() {
    let src = "a:\nhalt\nhalt\nhalt\nhalt\nhalt\na:\nl_a\nh_a\n";
    let rom = image(src);
    assert_eq!(rom[5], 0x05);
    assert_eq!(rom[6], 0x00);
    assert_zero_except(&rom, &[0, 1, 2, 3, 4, 5, 6]);
}

#[test]
fn later_definition_wins_for_earlier_references_too() {
    let rom = image("a:\nlit l_a\n|0005\na:\n");
    assert_eq!(rom[0], 0x05);
}

#[test]
fn zero_operand_keywords() {
    let rom = image("jmp\ncall\nret\nhalt\n");
    assert_eq!(&rom[0..4], &[0x10, 0x11, 0x12, 0x13]);
    assert_zero_except(&rom, &[0, 1, 2, 3]);
}

#[test]
fn lit_with_register() {
    let rom = image("lit r5\n");
    assert_eq!(rom[0], 0x05);
    assert_zero_except(&rom, &[0]);
}

#[test]
fn add_with_register() {
    let rom = image("add r3\n");
    assert_eq!(rom[0], 0x93);
    assert_zero_except(&rom, &[0]);
}

#[test]
fn every_mnemonic_with_register() {
    let src = "lit rf\njmp rf\ncjmp rf\ntac rf\ntre rf\nr rf\nw rf\neq rf\ncmp rf\nadd rf\nsub rf\nlsf rf\nrsf rf\nor rf\nand rf\nnot rf\n";
    let rom = image(src);
    for k in 0..16usize {
        assert_eq!(rom[k], ((k as u8) << 4) | 0x0f);
    }
    let src = "lit r0\njmp r1\ncjmp r2\ntac r3\ntre r4\nr r5\nw r6\neq r7\ncmp r8\nadd r9\nsub ra\nlsf rb\nrsf rc\nor rd\nand re\nnot rf\n";
    let rom = image(src);
    for k in 0..16usize {
        assert_eq!(rom[k], ((k as u8) << 4) | (k as u8));
    }
}

#[test]
fn address_directive_then_instruction() {
    let rom = image("|0100\nhalt\n");
    assert_eq!(rom[0x0100], 0x13);
    assert_zero_except(&rom, &[0x0100]);
}

#[test]
fn three_instructions_end_to_end() {
    let rom = image("lit r1\nadd r2\nhalt\n");
    assert_eq!(rom[0], 0x01);
    assert_eq!(rom[1], 0x92);
    assert_eq!(rom[2], 0x13);
    assert_eq!(rom.iter().filter(|b| **b == 0).count(), 65533);
    assert_zero_except(&rom, &[0, 1, 2]);
}

#[test]
fn label_end_to_end() {
    let rom = image("start:\njmp h_start\nhalt\n");
    assert_eq!(rom[0], 0x10);
    assert_eq!(rom[1], 0x13);
    assert_zero_except(&rom, &[0, 1]);
}

#[test]
fn undefined_label_fails() {
    assert_eq!(assemble("jmp h_missing\n"), Err(AsmError::UndefinedLabel));
    assert_eq!(assemble("l_missing\n"), Err(AsmError::UndefinedLabel));
    assert_eq!(assemble("halt\nmissing_not:\nhalt\njmp l_missing\n"), Err(AsmError::UndefinedLabel));
}

#[test]
fn malformed_line_fails_with_its_tokens() {
    assert_eq!(
        assemble("halt\njmp jmp\nhalt\n"),
        Err(AsmError::UnrecognizedLine(vec![Token::Jmp, Token::Jmp]))
    );
    assert_eq!(assemble("lit\n"), Err(AsmError::UnrecognizedLine(vec![Token::Lit])));
    assert_eq!(
        assemble("halt r1\n"),
        Err(AsmError::UnrecognizedLine(vec![Token::Halt, Token::Reg(1)]))
    );
    assert_eq!(assemble("r3\n"), Err(AsmError::UnrecognizedLine(vec![Token::Reg(3)])));
    assert_eq!(
        assemble("add 12\n"),
        Err(AsmError::UnrecognizedLine(vec![Token::Add, Token::Num(0x12)]))
    );
}

#[test]
fn sole_forms_take_no_second_token() {
    assert_eq!(
        assemble("12 34\n"),
        Err(AsmError::UnrecognizedLine(vec![Token::Num(0x12), Token::Num(0x34)]))
    );
    assert_eq!(
        assemble("x:\nh_x r1\n"),
        Err(AsmError::UnrecognizedLine(vec![
            Token::Label(Label { name: b"x".to_vec(), nibble: Nibble::High }),
            Token::Reg(1)
        ]))
    );
}

#[test]
fn first_failure_is_reported() {
    assert_eq!(
        assemble("lit\njmp h_missing\n"),
        Err(AsmError::UnrecognizedLine(vec![Token::Lit]))
    );
    assert_eq!(assemble("jmp h_missing\nlit\n"), Err(AsmError::UndefinedLabel));
    assert_eq!(assemble("lit\n$\n"), Err(AsmError::Lex));
}

#[test]
fn lexical_error_fails() {
    assert_eq!(assemble("halt\n?\n"), Err(AsmError::Lex));
    assert_eq!(assemble("LIT r1\n"), Err(AsmError::Lex));
    assert_eq!(assemble("lit r1\r\n"), Err(AsmError::Lex));
    assert_eq!(assemble("|12\n"), Err(AsmError::Lex));
    assert_eq!(assemble("123\n"), Err(AsmError::Lex));
    assert_eq!(assemble("lit rg\n"), Err(AsmError::Lex));
    assert_eq!(assemble("foo\n"), Err(AsmError::Lex));
}

#[test]
fn raw_byte_is_emitted_verbatim() {
    let rom = image("ff\n0a\n7e\n");
    assert_eq!(&rom[0..3], &[0xff, 0x0a, 0x7e]);
}

#[test]
fn high_part_is_the_whole_upper_byte_and_low_part_four_bits() {
    let rom = image("|abcd\nhere:\n|0000\nh_here\nl_here\nlit h_here\nnot l_here\njmp h_here\n");
    assert_eq!(rom[0], 0xab);
    assert_eq!(rom[1], 0x0d);
    assert_eq!(rom[2], 0xab);
    assert_eq!(rom[3], 0xfd);
    assert_eq!(rom[4], 0x10 | 0xab);
}

#[test]
fn forward_reference_resolves() {
    let rom = image("jmp l_end\nhalt\nhalt\nend:\nhalt\n");
    assert_eq!(rom[0], 0x13);
    assert_eq!(rom[3], 0x13);
}

#[test]
fn label_definition_and_directive_ignore_rest_of_line() {
    let rom = image("top: halt halt\n|0010 jmp jmp\nl_top\n");
    assert_eq!(rom[0x10], 0x00);
    assert_zero_except(&rom, &[]);
    let rom = image("|0010 halt\nhalt\n");
    assert_eq!(rom[0x10], 0x13);
    assert_zero_except(&rom, &[0x10]);
}

#[test]
fn third_token_is_ignored() {
    let rom = image("add r3 r4\n");
    assert_eq!(rom[0], 0x93);
}

#[test]
fn comments_and_blank_lines_take_no_address() {
    let rom = image("; header\n\n   \t\nlit r1 ; load\n\n;x\nhalt\n");
    assert_eq!(rom[0], 0x01);
    assert_eq!(rom[1], 0x13);
    assert_zero_except(&rom, &[0, 1]);
}

#[test]
fn unterminated_last_line_forms_no_line() {
    let rom = image("lit r1\nhalt");
    assert_eq!(rom[0], 0x01);
    assert_zero_except(&rom, &[0]);
    let rom = image("jmp jmp");
    assert_zero_except(&rom, &[]);
}

#[test]
fn location_counter_wraps_round() {
    let rom = image("|ffff\nhalt\nret\n");
    assert_eq!(rom[0xffff], 0x13);
    assert_eq!(rom[0], 0x12);
    assert_zero_except(&rom, &[0, 0xffff]);
}

#[test]
fn later_write_to_an_address_wins() {
    let rom = image("halt\n|0000\nret\n");
    assert_eq!(rom[0], 0x12);
    assert_zero_except(&rom, &[0]);
}

#[test]
fn bytes_and_text_agree() {
    let src = "start:\njmp h_start\nhalt\n";
    assert_eq!(assemble_bytes(src.as_bytes()), assemble(src));
    assert_eq!(assemble_bytes(b"; \xff\xfe\nhalt\n").map(|rom| rom[0]), Ok(0x13));
}

#[test]
fn error_messages() {
    assert_eq!(AsmError::Lex.message(), "unrecognized text in the source");
    assert_eq!(AsmError::UndefinedLabel.message(), "reference to an undefined label");
    assert_eq!(
        AsmError::UnrecognizedLine(vec![Token::Lit]).message(),
        "a line matches no instruction form"
    );
}
