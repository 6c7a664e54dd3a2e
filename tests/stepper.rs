use hexvm::machine::{ExecError, Machine, Outcome};
use hexvm::stepper::{apply_byte_edit, apply_jump_edit, apply_register_edit, Stepper};

#[test]
fn manual_steps_only_on_request() {
    let mut m = Machine::load(&vec![0x00, 0x00, 0x01]).unwrap();
    let mut s = Stepper::new();
    assert_eq!(s.tick(&mut m, &vec![]), None);
    s.request_step();
    assert_eq!(s.tick(&mut m, &vec![]), Some(Ok(Outcome::Continued)));
    assert!(!s.requested);
    assert_eq!((m.pointer, m.target_pointer), (0, 1));
    // in transition: no step even when asked
    s.request_step();
    assert_eq!(s.tick(&mut m, &vec![]), None);
    m.settle();
    assert_eq!(s.tick(&mut m, &vec![]), Some(Ok(Outcome::Continued)));
}

#[test]
fn turbo_catches_up_and_auto_runs_to_halt() {
    let mut m = Machine::load(&vec![0x40, 0x00, 0x01]).unwrap();
    let mut s = Stepper::new();
    s.toggle_auto();
    s.toggle_turbo();
    assert!(s.auto && s.turbo);
    assert_eq!(s.tick(&mut m, &vec![]), Some(Ok(Outcome::Continued)));
    assert_eq!(s.tick(&mut m, &vec![]), Some(Ok(Outcome::Continued)));
    assert_eq!(s.tick(&mut m, &vec![]), Some(Ok(Outcome::Halted)));
    assert!(s.halted);
    assert!(m.carry);
    assert_eq!(m.pointer, 2);
    assert_eq!(s.tick(&mut m, &vec![]), None);
    s.resume();
    assert_eq!(s.tick(&mut m, &vec![]), Some(Ok(Outcome::Halted)));
}

#[test]
fn fatal_error_halts() {
    let mut m = Machine::load(&vec![0x23]).unwrap();
    let mut s = Stepper::new();
    s.request_step();
    assert_eq!(s.tick(&mut m, &vec![]), Some(Err(ExecError::DivisionByZero)));
    assert!(s.halted);
    assert_eq!(m.target_pointer, 0);
}

#[test]
fn typed_edits_apply_all_or_nothing() {
    let mut m = Machine::new();
    assert!(apply_byte_edit(&mut m, 5, "aB"));
    assert_eq!(m.byte_at(5), 0xab);
    assert!(!apply_byte_edit(&mut m, 5, "zz"));
    assert!(!apply_byte_edit(&mut m, 5, "1ff"));
    assert_eq!(m.byte_at(5), 0xab);
    assert!(apply_register_edit(&mut m, 0, "1234"));
    assert!(apply_register_edit(&mut m, 1, "00ff"));
    assert!(!apply_register_edit(&mut m, 1, "12g4"));
    assert_eq!((m.x, m.y), (0x1234, 0x00ff));
    assert!(apply_jump_edit(&mut m, "ff00"));
    assert!(!apply_jump_edit(&mut m, "x"));
    assert_eq!(m.target_pointer, 0xff00);
}
