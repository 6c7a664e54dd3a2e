//! The per-tick control: whether a step is taken this tick, under the
//! manual, auto and turbo policies, and the edit requests that the display
//! hands in.
use vstd::prelude::*;
use crate::machine::{Machine, ExecError, Outcome, executes, with_reg};
use crate::scanner::scanned_tags;
use crate::text::{chars_of, parse_hex, parse_hex_word};

verus! {

/// The scheduling state. `auto` steps whenever the machine is at rest,
/// `turbo` skips the transition so the pointer catches up at once,
/// `requested` is a pending manual step, and `halted` is set by `HLT`, an
/// undecodable byte or a fatal error and stops further steps.
#[derive(PartialEq, Eq, Structural, Clone, Copy, Debug)]
pub struct Stepper {
    pub auto: bool,
    pub turbo: bool,
    pub requested: bool,
    pub halted: bool,
}

/// The machine as the tick finds it once turbo has let the pointer catch up.
pub open spec fn caught_up(m: Machine, s: Stepper) -> Machine {
    if m.pointer != m.target_pointer && s.turbo {
        Machine { pointer: m.target_pointer, ..m }
    } else {
        m
    }
}

/// Whether a tick takes a step from `m`.
pub open spec fn fires(m: Machine, s: Stepper) -> bool {
    m.at_rest() && !s.halted && (s.auto || s.requested)
}

impl Stepper {
    /// Manual mode, nothing pending.
    pub fn new() -> (r: Stepper)
        ensures
            r == (Stepper { auto: false, turbo: false, requested: false, halted: false }),
    {
        Stepper { auto: false, turbo: false, requested: false, halted: false }
    }

    pub fn toggle_auto(&mut self)
        ensures
            *final(self) == (Stepper { auto: !old(self).auto, ..*old(self) }),
    {
        self.auto = !self.auto;
    }

    pub fn toggle_turbo(&mut self)
        ensures
            *final(self) == (Stepper { turbo: !old(self).turbo, ..*old(self) }),
    {
        self.turbo = !self.turbo;
    }

    /// Asks for one manual step; it is taken at the next tick at rest.
    pub fn request_step(&mut self)
        ensures
            *final(self) == (Stepper { requested: true, ..*old(self) }),
    {
        self.requested = true;
    }

    /// Lets a halted machine run again.
    pub fn resume(&mut self)
        ensures
            *final(self) == (Stepper { halted: false, ..*old(self) }),
    {
        self.halted = false;
    }

    /// One tick. Under turbo a pointer still in transition catches up; the
    /// scanner then retags from the target pointer; and when the machine is
    /// at rest, not halted, and in auto mode or with a step requested, one
    /// step runs, the request is consumed, and anything but a continued
    /// step halts. The result is that step's, or `None` when none ran.
    pub fn tick(&mut self, m: &mut Machine, choices: &Vec<bool>) -> (r: Option<Result<Outcome, ExecError>>)
        requires
            old(m).wf(),
        ensures
            final(m).wf(),
            final(m).tags() == scanned_tags(caught_up(*old(m), *old(self)), choices@),
            r is Some <==> fires(caught_up(*old(m), *old(self)), *old(self)),
            r is Some ==> {
                &&& executes(caught_up(*old(m), *old(self)), *final(m), r->0)
                &&& *final(self) == (Stepper {
                    requested: false,
                    halted: r->0 != Ok::<Outcome, ExecError>(Outcome::Continued),
                    ..*old(self)
                })
            },
            r is None ==> {
                &&& final(m).cpu() == caught_up(*old(m), *old(self)).cpu()
                &&& final(m).target_pointer == old(m).target_pointer
                &&& *final(self) == *old(self)
            },
    {
        if m.pointer != m.target_pointer && self.turbo {
            m.settle();
        }
        let ghost before = *m;
        assert(before.ram == caught_up(*old(m), *old(self)).ram);
        m.scan_tags(choices);
        if m.pointer == m.target_pointer && !self.halted && (self.auto || self.requested) {
            self.requested = false;
            let ghost scanned = *m;
            let r = m.execute();
            assert(scanned.cpu() == before.cpu());
            assert(scanned.committed() == before.committed());
            assert(executes(before, *m, r));
            self.halted = match r {
                Ok(Outcome::Continued) => false,
                _ => true,
            };
            Some(r)
        } else {
            None
        }
    }
}

/// Applies a typed byte edit at `a`: the text must be a hexadecimal number
/// of at most `ff`; otherwise nothing changes. Returns whether it applied.
pub fn apply_byte_edit(m: &mut Machine, a: u16, text: &str) -> (r: bool)
    requires
        old(m).wf(),
    ensures
        final(m).wf(),
        r == (parse_hex(text@) is Some && parse_hex(text@)->0 <= 0xFF),
        r ==> final(m).values() == old(m).values().update(a as int, parse_hex(text@)->0 as u8),
        !r ==> final(m).values() == old(m).values(),
        final(m).tags() == old(m).tags(),
        final(m).x == old(m).x,
        final(m).y == old(m).y,
        final(m).carry == old(m).carry,
        final(m).pointer == old(m).pointer,
        final(m).target_pointer == old(m).target_pointer,
{
    let w = chars_of(text);
    match parse_hex_word(&w) {
        Some(v) => {
            if v <= 0xFF {
                m.edit_byte(a, v as u8);
                true
            } else {
                false
            }
        },
        None => false,
    }
}

/// Applies a typed register edit: the text must be a hexadecimal number of
/// sixteen bits; otherwise nothing changes. Returns whether it applied.
pub fn apply_register_edit(m: &mut Machine, sel: u8, text: &str) -> (r: bool)
    ensures
        r == parse_hex(text@) is Some,
        r ==> final(m).cpu() == with_reg(old(m).cpu(), sel, parse_hex(text@)->0),
        !r ==> final(m).cpu() == old(m).cpu(),
        final(m).ram == old(m).ram,
        final(m).target_pointer == old(m).target_pointer,
{
    let w = chars_of(text);
    match parse_hex_word(&w) {
        Some(v) => {
            m.set_register(sel, v);
            true
        },
        None => false,
    }
}

/// Applies a typed jump request: the text must be a hexadecimal address;
/// otherwise nothing changes. Returns whether it applied.
pub fn apply_jump_edit(m: &mut Machine, text: &str) -> (r: bool)
    ensures
        r == parse_hex(text@) is Some,
        r ==> final(m).target_pointer == parse_hex(text@)->0,
        !r ==> final(m).target_pointer == old(m).target_pointer,
        final(m).cpu() == old(m).cpu(),
        final(m).ram == old(m).ram,
{
    let w = chars_of(text);
    match parse_hex_word(&w) {
        Some(v) => {
            m.request_jump(v);
            true
        },
        None => false,
    }
}

} // verus!
