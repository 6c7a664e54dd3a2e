use hexvm::isa::{lookup, Layout, Opcode};

#[test]
fn table_lookup() {
    let d = lookup(0x16).unwrap();
    assert_eq!(d.opcode, 0x16);
    assert_eq!(d.mnemonic, "LDI");
    assert!(d.description.starts_with("Load immediate"));
    assert_eq!(lookup(0x41).unwrap().mnemonic, "CCF");
    assert!(lookup(0x02).is_none());
    assert!(lookup(0x37).is_none());
    assert!(lookup(0xff).is_none());
}

#[test]
fn opcode_bytes_round_trip() {
    let mut known = 0;
    for b in 0..=255u8 {
        if let Some(op) = Opcode::from_byte(b) {
            assert_eq!(op.byte(), b);
            known += 1;
        }
    }
    assert_eq!(known, 23);
}

#[test]
fn lengths_follow_layouts() {
    assert_eq!(Opcode::Nop.len(), 1);
    assert_eq!(Opcode::Mov.len(), 2);
    assert_eq!(Opcode::Lod.len(), 4);
    assert_eq!(Opcode::Ldi.layout(), Layout::RegImm);
    assert_eq!(Opcode::Jl.len(), 3);
    assert_eq!(Opcode::Scf.byte(), 0x40);
    assert_eq!(Opcode::Jge.mnemonic(), "JGE");
}

#[test]
fn every_mnemonic_names_its_opcode() {
    for b in 0..=255u8 {
        if let Some(op) = Opcode::from_byte(b) {
            let word: Vec<char> = op.mnemonic().chars().collect();
            assert_eq!(hexvm::assembler::parse_mnemonic(&word), Some(op));
            let lower: Vec<char> = op.mnemonic().to_lowercase().chars().collect();
            assert_eq!(hexvm::assembler::parse_mnemonic(&lower), Some(op));
        }
    }
}
