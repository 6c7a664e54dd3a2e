use hexvm::assembler::assemble;
use hexvm::machine::{ExecError, Machine, Outcome, Tag, MEMORY_SIZE};

fn load(bytes: &[u8]) -> Machine {
    Machine::load(&bytes.to_vec()).unwrap()
}

/// One step with the pointer brought to rest afterwards.
fn step(m: &mut Machine) -> Result<Outcome, ExecError> {
    let r = m.execute();
    m.settle();
    r
}

fn run(m: &mut Machine) -> Result<Outcome, ExecError> {
    for _ in 0..10_000 {
        match step(m) {
            Ok(Outcome::Continued) => {}
            other => return other,
        }
    }
    panic!("program did not stop");
}

#[test]
fn round_trip_program_runs() {
    let bytes = assemble("LDI x 0012\nLDI y 0003\nADD\nHLT").unwrap();
    let mut m = Machine::load(&bytes).unwrap();
    assert_eq!(run(&mut m), Ok(Outcome::Halted));
    assert_eq!(m.x, 0x0015);
    assert_eq!(m.y, 0x0003);
    assert!(!m.carry);
    // HLT leaves the pointer on itself
    assert_eq!(m.pointer, 9);
    assert_eq!(m.target_pointer, 9);
}

#[test]
fn replay_matches_hand_trace() {
    let src = "LDI x 0010\nLDI y 0003\nADD\nSUB\nMUL\nDIV\nMOD\nSWP\nMOV x\nMOV y\n\
STO x 0100\nLOD y 0100\nLDI x 0200\nSTR y\nLDR y\nSCF\nJC skip1\nNOP\nskip1: CCF\nJNC skip2\nHLT\n\
skip2: JZ end\nJNZ nz\nHLT\nnz: JGE ge\nHLT\nge: JL end\nJMP end\nNOP\nend: HLT";
    let bytes = assemble(src).unwrap();
    let mut m = Machine::load(&bytes).unwrap();
    // (pointer, X, Y, carry) after each step
    let trace: [(u16, u16, u16, bool); 24] = [
        (4, 0x10, 0, false),
        (8, 0x10, 3, false),
        (9, 0x13, 3, false),
        (10, 0x10, 3, false),
        (11, 0x30, 3, false),
        (12, 0x10, 3, false),
        (13, 0x01, 3, false),
        (14, 3, 1, false),
        (16, 1, 1, false),
        (18, 1, 1, false),
        (22, 1, 1, false),
        (26, 1, 1, false),
        (30, 0x200, 1, false),
        (32, 0x200, 1, false),
        (34, 0x200, 1, false),
        (35, 0x200, 1, true),
        (39, 0x200, 1, true),
        (40, 0x200, 1, false),
        (44, 0x200, 1, false),
        (47, 0x200, 1, false),
        (51, 0x200, 1, false),
        (55, 0x200, 1, false),
        (58, 0x200, 1, false),
        (62, 0x200, 1, false),
    ];
    for (k, want) in trace.iter().enumerate() {
        assert_eq!(step(&mut m), Ok(Outcome::Continued), "step {}", k);
        assert_eq!((m.pointer, m.x, m.y, m.carry), *want, "step {}", k);
    }
    assert_eq!(step(&mut m), Ok(Outcome::Halted));
    assert_eq!(m.pointer, 62);
    assert_eq!(m.byte_at(0x100), 0x00);
    assert_eq!(m.byte_at(0x101), 0x01);
    assert_eq!(m.byte_at(0x200), 0x00);
    assert_eq!(m.byte_at(0x201), 0x01);
}

#[test]
fn add_then_sub_restores_x() {
    for &(x, y) in &[(0u16, 0u16), (0x1234, 0x0fff), (0xffff, 0x0001), (0x8000, 0x8000), (5, 0xfffe)] {
        let mut m = load(&[0x20, 0x21]);
        m.x = x;
        m.y = y;
        step(&mut m).unwrap();
        let overflow = x as u32 + y as u32 > 0xffff;
        assert_eq!(m.carry, overflow);
        step(&mut m).unwrap();
        assert_eq!(m.x, x);
        assert_eq!(m.y, y);
        assert_eq!(m.carry, overflow);
        assert_eq!(m.pointer, 2);
    }
}

#[test]
fn add_wraps_and_sets_carry() {
    let mut m = load(&[0x20]);
    m.x = 0xfff0;
    m.y = 0x0020;
    assert_eq!(step(&mut m), Ok(Outcome::Continued));
    assert_eq!(m.x, 0x0010);
    assert!(m.carry);
}

#[test]
fn sub_borrows() {
    let mut m = load(&[0x21, 0x21]);
    m.x = 1;
    m.y = 2;
    step(&mut m).unwrap();
    assert_eq!(m.x, 0xffff);
    assert!(m.carry);
    m.y = 0xffff;
    step(&mut m).unwrap();
    assert_eq!(m.x, 0);
    assert!(!m.carry);
}

#[test]
fn mul_wraps() {
    let mut m = load(&[0x22]);
    m.x = 0x0100;
    m.y = 0x0101;
    step(&mut m).unwrap();
    assert_eq!(m.x, 0x0100);
}

#[test]
fn division_by_zero_is_fatal_and_changes_nothing() {
    for &(op, err) in &[(0x23u8, ExecError::DivisionByZero), (0x24u8, ExecError::ModuloByZero)] {
        let mut m = load(&[op]);
        m.x = 0x1234;
        m.y = 0;
        m.carry = true;
        assert_eq!(m.execute(), Err(err));
        assert_eq!((m.x, m.y, m.carry), (0x1234, 0, true));
        assert_eq!((m.pointer, m.target_pointer), (0, 0));
    }
}

#[test]
fn jump_to_top_then_multibyte_is_out_of_range() {
    for &op in &[0x10u8, 0x11, 0x12, 0x13, 0x14, 0x16, 0x30, 0x31, 0x36] {
        let mut m = load(&[0x30, 0xff, 0xff]);
        m.edit_byte(0xffff, op);
        assert_eq!(step(&mut m), Ok(Outcome::Continued));
        assert_eq!(m.pointer, 0xffff);
        assert_eq!(m.execute(), Err(ExecError::AddressOutOfRange));
        assert_eq!(m.target_pointer, 0xffff);
    }
}

#[test]
fn single_byte_at_top_cannot_move_on() {
    let mut m = load(&[0x30, 0xff, 0xff]);
    m.edit_byte(0xffff, 0x00);
    step(&mut m).unwrap();
    assert_eq!(m.execute(), Err(ExecError::AddressOutOfRange));
    m.edit_byte(0xffff, 0x01);
    assert_eq!(m.execute(), Ok(Outcome::Halted));
}

#[test]
fn memory_operands_must_fit() {
    // STO x ffff
    let mut m = load(&[0x12, 0x00, 0xff, 0xff]);
    assert_eq!(m.execute(), Err(ExecError::AddressOutOfRange));
    assert_eq!(m.byte_at(0xffff), 0);
    // LOD y fffe reads the last two cells
    let mut m = load(&[0x11, 0x01, 0xff, 0xfe]);
    m.edit_byte(0xfffe, 0xab);
    m.edit_byte(0xffff, 0xcd);
    assert_eq!(step(&mut m), Ok(Outcome::Continued));
    assert_eq!(m.y, 0xabcd);
    // LDR with X at the last cell
    let mut m = load(&[0x13, 0x00]);
    m.x = 0xffff;
    assert_eq!(m.execute(), Err(ExecError::AddressOutOfRange));
}

#[test]
fn store_by_register_uses_x_as_address() {
    let mut m = load(&[0x14, 0x00]);
    m.x = 0x0300;
    step(&mut m).unwrap();
    assert_eq!(m.byte_at(0x300), 0x03);
    assert_eq!(m.byte_at(0x301), 0x00);
}

#[test]
fn conditional_jumps_fall_through() {
    // JZ 0040 with X = 1, JNC 0040 with carry set, JGE 0040 with X < Y
    let mut m = load(&[0x31, 0x00, 0x40, 0x34, 0x00, 0x40, 0x35, 0x00, 0x40, 0x32, 0x00, 0x40]);
    m.x = 1;
    m.y = 2;
    m.carry = true;
    step(&mut m).unwrap();
    assert_eq!(m.pointer, 3);
    step(&mut m).unwrap();
    assert_eq!(m.pointer, 6);
    step(&mut m).unwrap();
    assert_eq!(m.pointer, 9);
    step(&mut m).unwrap();
    assert_eq!(m.pointer, 0x40);
}

#[test]
fn unknown_opcode_stalls() {
    let mut m = load(&[0xee]);
    assert_eq!(m.execute(), Ok(Outcome::Stalled));
    assert_eq!((m.pointer, m.target_pointer), (0, 0));
}

#[test]
fn step_moves_target_not_pointer() {
    let mut m = load(&[0x00, 0x00]);
    assert_eq!(m.execute(), Ok(Outcome::Continued));
    assert_eq!(m.pointer, 0);
    assert_eq!(m.target_pointer, 1);
    m.settle();
    assert_eq!(m.pointer, 1);
}

#[test]
fn fresh_memory_is_zero_and_unknown() {
    let m = Machine::new();
    assert_eq!(m.ram.len(), MEMORY_SIZE);
    assert!(m.ram.iter().all(|c| c.value == 0 && c.tag == Tag::Unknown));
    assert!(Machine::load(&vec![0u8; MEMORY_SIZE]).is_ok());
    assert_eq!(Machine::load(&vec![0u8; MEMORY_SIZE + 1]).err(), Some(ExecError::AddressOutOfRange));
}

#[test]
fn register_edits() {
    let mut m = Machine::new();
    m.set_register(0, 0x1111);
    m.set_register(7, 0x2222);
    assert_eq!((m.x, m.y), (0x1111, 0x2222));
    m.request_jump(0xff00);
    assert_eq!((m.pointer, m.target_pointer), (0, 0xff00));
}
