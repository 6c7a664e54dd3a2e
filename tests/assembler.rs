use hexvm::assembler::{assemble, parse_mnemonic, AsmError};
use hexvm::isa::Opcode;
use hexvm::text::{chars_of, format_hex, parse_hex_word, replace_chars, split_chars, words_of};

#[test]
fn round_trip_program_bytes() {
    let bytes = assemble("LDI x 0012\nLDI y 0003\nADD\nHLT").unwrap();
    assert_eq!(bytes, vec![0x16, 0x00, 0x00, 0x12, 0x16, 0x01, 0x00, 0x03, 0x20, 0x01]);
}

#[test]
fn forward_and_backward_references_agree() {
    let src = "JMP target\nNOP\ntarget: NOP\nJMP target";
    let bytes = assemble(src).unwrap();
    assert_eq!(bytes, vec![0x30, 0x00, 0x04, 0x00, 0x00, 0x30, 0x00, 0x04]);
}

#[test]
fn label_alone_on_its_line_binds_next_instruction() {
    let src = "NOP\nloop:\n\nSCF\nJMP loop";
    let bytes = assemble(src).unwrap();
    assert_eq!(bytes, vec![0x00, 0x40, 0x30, 0x00, 0x01]);
}

#[test]
fn mnemonics_are_case_insensitive() {
    let bytes = assemble("ldi x 0001\nAdD\nccf").unwrap();
    assert_eq!(bytes, vec![0x16, 0x00, 0x00, 0x01, 0x20, 0x41]);
    // an upper-case X is no register token
    assert_eq!(assemble("ldi X 0001"), Err(AsmError::MalformedOperand { line: 1 }));
    assert_eq!(assemble("LDI x 0001\nscf\nccf").unwrap(), vec![0x16, 0x00, 0x00, 0x01, 0x40, 0x41]);
}

#[test]
fn every_layout_encodes_big_endian() {
    let src = "MOV y\nLOD x abcd\nSTO y 1234\nLDR x\nSTR y\nSWP\nJGE beef\nJL 0\nMUL\nDIV\nMOD\nSUB";
    let bytes = assemble(src).unwrap();
    assert_eq!(
        bytes,
        vec![
            0x10, 0x01, 0x11, 0x00, 0xab, 0xcd, 0x12, 0x01, 0x12, 0x34, 0x13, 0x00, 0x14, 0x01,
            0x15, 0x35, 0xbe, 0xef, 0x36, 0x00, 0x00, 0x22, 0x23, 0x24, 0x21
        ]
    );
}

#[test]
fn byte_operand_keeps_low_byte() {
    assert_eq!(assemble("MOV 1234").unwrap(), vec![0x10, 0x34]);
}

#[test]
fn blanks_and_carriage_returns_separate_words() {
    let bytes = assemble("  LDI   x\t0012 \r\n\r\nHLT\r\n").unwrap();
    assert_eq!(bytes, vec![0x16, 0x00, 0x00, 0x12, 0x01]);
}

#[test]
fn empty_program_is_empty() {
    assert_eq!(assemble("").unwrap(), Vec::<u8>::new());
    assert_eq!(assemble("\n\n").unwrap(), Vec::<u8>::new());
}

#[test]
fn malformed_operand_names_its_line() {
    assert_eq!(
        assemble("NOP\nLDI x 00g2\nHLT"),
        Err(AsmError::MalformedOperand { line: 2 })
    );
    assert_eq!(assemble("NOP\n\nJMP"), Err(AsmError::MalformedOperand { line: 3 }));
    assert_eq!(assemble("JMP 10000"), Err(AsmError::MalformedOperand { line: 1 }));
}

#[test]
fn unknown_mnemonic_names_its_line() {
    assert_eq!(assemble("NOP\nNOP\nFOO 12"), Err(AsmError::UnknownMnemonic { line: 3 }));
    assert_eq!(assemble("here: BAR"), Err(AsmError::UnknownMnemonic { line: 1 }));
}

#[test]
fn mnemonic_lookup() {
    assert_eq!(parse_mnemonic(&"jnz".chars().collect()), Some(Opcode::Jnz));
    assert_eq!(parse_mnemonic(&"Ldi".chars().collect()), Some(Opcode::Ldi));
    assert_eq!(parse_mnemonic(&"JMPX".chars().collect()), None);
    assert_eq!(parse_mnemonic(&"".chars().collect()), None);
}

#[test]
fn hex_words() {
    assert_eq!(parse_hex_word(&"00ff".chars().collect()), Some(0xff));
    assert_eq!(parse_hex_word(&"FFFF".chars().collect()), Some(0xffff));
    assert_eq!(parse_hex_word(&"0000012".chars().collect()), Some(0x12));
    assert_eq!(parse_hex_word(&"10000".chars().collect()), None);
    assert_eq!(parse_hex_word(&"+12".chars().collect()), None);
    assert_eq!(parse_hex_word(&"".chars().collect()), None);
    assert_eq!(format_hex(0x2a, 4), "002a".chars().collect::<Vec<char>>());
    assert_eq!(format_hex(0x12345, 4), "12345".chars().collect::<Vec<char>>());
    assert_eq!(format_hex(0, 0), Vec::<char>::new());
}

#[test]
fn text_helpers() {
    let s = chars_of("ab\n\ncd");
    assert_eq!(s, "ab\n\ncd".chars().collect::<Vec<char>>());
    let parts = split_chars(&s, '\n');
    assert_eq!(parts.len(), 3);
    assert_eq!(parts[1], Vec::<char>::new());
    let ws = words_of(&" a  bc\td ".chars().collect());
    assert_eq!(ws, vec![vec!['a'], vec!['b', 'c'], vec!['d']]);
    let r = replace_chars(&"aXbXX".chars().collect(), &vec!['X'], &vec!['0', '0']);
    assert_eq!(r, "a00b0000".chars().collect::<Vec<char>>());
    let r = replace_chars(&"aaa".chars().collect(), &vec!['a', 'a'], &vec!['b']);
    assert_eq!(r, "ba".chars().collect::<Vec<char>>());
}
