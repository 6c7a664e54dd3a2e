use hexvm::assembler::assemble;
use hexvm::machine::{Machine, Tag};
use hexvm::scanner::SCAN_LIMIT;

#[test]
fn tags_operand_roles() {
    let bytes = assemble("LDI x 0012\nMOV y\nSTO y 0100\nJMP 0000\nHLT").unwrap();
    let mut m = Machine::load(&bytes).unwrap();
    m.scan_tags(&vec![]);
    let tags: Vec<Tag> = m.ram[..18].iter().map(|c| c.tag).collect();
    assert_eq!(
        tags,
        vec![
            Tag::Instruction, Tag::Register, Tag::Value, Tag::Value, Tag::Instruction,
            Tag::Register, Tag::Instruction, Tag::Register, Tag::Pointer, Tag::Pointer,
            Tag::Instruction, Tag::Pointer, Tag::Pointer, Tag::Instruction, Tag::Unknown,
            Tag::Unknown, Tag::Unknown, Tag::Unknown
        ]
    );
}

#[test]
fn scan_never_changes_values() {
    let bytes = assemble("LDI x 0012\nJZ 0000\nSTO y ffff\nLDI y 0003\nADD\nHLT").unwrap();
    let mut m = Machine::load(&bytes).unwrap();
    m.x = 7;
    m.carry = true;
    m.edit_byte(0x8000, 0x99);
    let before: Vec<u8> = m.ram.iter().map(|c| c.value).collect();
    for choices in [vec![], vec![true; 100], vec![false, true, true]] {
        m.scan_tags(&choices);
        let after: Vec<u8> = m.ram.iter().map(|c| c.value).collect();
        assert_eq!(before, after);
        assert_eq!((m.x, m.y, m.carry, m.pointer, m.target_pointer), (7, 0, true, 0, 0));
    }
}

#[test]
fn branch_choice_picks_the_path() {
    // JMP 0010 over zeroed memory, which reads as NOPs
    let mut m = Machine::load(&vec![0x30, 0x00, 0x10]).unwrap();
    m.scan_tags(&vec![true]);
    assert_eq!(m.ram[0x10].tag, Tag::Instruction);
    assert_eq!(m.ram[3].tag, Tag::Unknown);
    // the jump plus 99 NOPs from 0x10
    assert_eq!(m.ram[0x10 + SCAN_LIMIT - 2].tag, Tag::Instruction);
    assert_eq!(m.ram[0x10 + SCAN_LIMIT - 1].tag, Tag::Unknown);

    let mut m = Machine::load(&vec![0x30, 0x00, 0x10]).unwrap();
    m.scan_tags(&vec![false]);
    assert_eq!(m.ram[3].tag, Tag::Instruction);
    assert_eq!(m.ram[1].tag, Tag::Pointer);
    assert_eq!(m.ram[2].tag, Tag::Pointer);
    assert_eq!(m.ram[3 + SCAN_LIMIT - 2].tag, Tag::Instruction);
    assert_eq!(m.ram[3 + SCAN_LIMIT - 1].tag, Tag::Unknown);
}

#[test]
fn scan_starts_at_target_and_marks_pointer() {
    let mut m = Machine::load(&vec![0xee, 0xee, 0xee, 0x01]).unwrap();
    m.request_jump(3);
    m.scan_tags(&vec![]);
    assert_eq!(m.ram[0].tag, Tag::Instruction);
    assert_eq!(m.ram[1].tag, Tag::Unknown);
    assert_eq!(m.ram[3].tag, Tag::Instruction);
    assert_eq!(m.ram[4].tag, Tag::Unknown);
}

#[test]
fn scan_stops_at_end_of_memory() {
    let mut m = Machine::new();
    m.edit_byte(0xfffe, 0x16);
    m.request_jump(0xfffe);
    m.scan_tags(&vec![]);
    assert_eq!(m.ram[0xfffe].tag, Tag::Instruction);
    assert_eq!(m.ram[0xffff].tag, Tag::Unknown);
}
