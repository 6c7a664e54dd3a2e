//! The tagging scanner: a bounded look-ahead decode from the target pointer
//! that classifies operand bytes for display. It reads memory and writes
//! tags only.
use vstd::prelude::*;
use crate::isa::{Layout, Opcode, opcode_of};
use crate::machine::{Machine, Tag, MEMORY_SIZE, word_at};

verus! {

/// How many instructions one scan classifies at most.
pub const SCAN_LIMIT: usize = 100;

/// Whether the scan follows the branch at its `k`-th instruction; where
/// no choice is given it falls through.
pub open spec fn takes_branch(choices: Seq<bool>, k: int) -> bool {
    0 <= k < choices.len() && choices[k]
}

/// `t` with the operand bytes of an instruction at `ip` classified.
pub open spec fn tag_operands(t: Seq<Tag>, ip: int, layout: Layout) -> Seq<Tag> {
    match layout {
        Layout::Bare => t,
        Layout::Reg => t.update(ip + 1, Tag::Register),
        Layout::RegAddr => t.update(ip + 1, Tag::Register).update(ip + 2, Tag::Pointer).update(
            ip + 3,
            Tag::Pointer,
        ),
        Layout::RegImm => t.update(ip + 1, Tag::Register).update(ip + 2, Tag::Value).update(
            ip + 3,
            Tag::Value,
        ),
        Layout::Addr => t.update(ip + 1, Tag::Pointer).update(ip + 2, Tag::Pointer),
    }
}

/// The tags that the scan leaves when it reaches `ip` with `t` after `k`
/// instructions. It stops after `SCAN_LIMIT` instructions, outside memory,
/// on `HLT`, on an undecodable byte, and on an instruction that runs past
/// the last address; the byte it stops on, if any, is still an instruction.
pub open spec fn scan_from(mem: Seq<u8>, t: Seq<Tag>, ip: int, choices: Seq<bool>, k: nat) -> Seq<Tag>
    decreases SCAN_LIMIT - k,
{
    if k >= SCAN_LIMIT || !(0 <= ip < 0x10000) {
        t
    } else {
        let t1 = t.update(ip, Tag::Instruction);
        match opcode_of(mem[ip]) {
            None => t1,
            Some(op) => if op == Opcode::Hlt || ip + op.size() > 0x10000 {
                t1
            } else {
                let next = if op.layout_of() == Layout::Addr && takes_branch(choices, k as int) {
                    word_at(mem, ip + 1) as int
                } else {
                    ip + op.size()
                };
                scan_from(mem, tag_operands(t1, ip, op.layout_of()), next, choices, k + 1)
            },
        }
    }
}

/// The tags after a scan of `m`: the resting pointer's byte is an
/// instruction, then the scan runs from the target pointer.
pub open spec fn scanned_tags(m: Machine, choices: Seq<bool>) -> Seq<Tag> {
    scan_from(
        m.values(),
        m.tags().update(m.pointer as int, Tag::Instruction),
        m.target_pointer as int,
        choices,
        0,
    )
}

impl Machine {
    fn set_tag(&mut self, a: usize, tag: Tag)
        requires
            old(self).wf(),
            a < MEMORY_SIZE,
        ensures
            final(self).wf(),
            final(self).tags() == old(self).tags().update(a as int, tag),
            final(self).values() == old(self).values(),
            final(self).x == old(self).x,
            final(self).y == old(self).y,
            final(self).carry == old(self).carry,
            final(self).pointer == old(self).pointer,
            final(self).target_pointer == old(self).target_pointer,
    {
        let v = self.ram[a].value;
        self.ram.set(a, crate::machine::Cell { value: v, tag });
        assert(self.values() =~= old(self).values());
        assert(self.tags() =~= old(self).tags().update(a as int, tag));
    }

    /// Classifies up to `SCAN_LIMIT` instructions ahead of the target
    /// pointer. At the `k`-th jump-like instruction the scan follows the
    /// jump when `choices[k]` holds, and falls through otherwise. Only tags
    /// change: memory values, registers, flag and pointers stay as they were.
    pub fn scan_tags(&mut self, choices: &Vec<bool>)
        requires
            old(self).wf(),
        ensures
            final(self).wf(),
            final(self).tags() == scanned_tags(*old(self), choices@),
            final(self).values() == old(self).values(),
            final(self).x == old(self).x,
            final(self).y == old(self).y,
            final(self).carry == old(self).carry,
            final(self).pointer == old(self).pointer,
            final(self).target_pointer == old(self).target_pointer,
    {
        let ghost start = *self;
        let ghost mem = self.values();
        self.set_tag(self.pointer as usize, Tag::Instruction);
        let mut ip: usize = self.target_pointer as usize;
        let mut k: usize = 0;
        while k < SCAN_LIMIT
            invariant
                self.wf(),
                start == *old(self),
                mem == start.values(),
                ip < MEMORY_SIZE,
                k <= SCAN_LIMIT,
                self.values() == mem,
                self.x == start.x,
                self.y == start.y,
                self.carry == start.carry,
                self.pointer == start.pointer,
                self.target_pointer == start.target_pointer,
                scan_from(mem, self.tags(), ip as int, choices@, k as nat) == scanned_tags(
                    start,
                    choices@,
                ),
            decreases SCAN_LIMIT - k,
        {
            let ghost t0 = self.tags();
            self.set_tag(ip, Tag::Instruction);
            assert(mem[ip as int] == self.ram@[ip as int].value);
            let op = match Opcode::from_byte(self.ram[ip].value) {
                Some(op) => op,
                None => return ,
            };
            let len = op.len();
            if op == Opcode::Hlt || ip + len > MEMORY_SIZE {
                return ;
            }
            let layout = op.layout();
            match layout {
                Layout::Bare => {},
                Layout::Reg => {
                    self.set_tag(ip + 1, Tag::Register);
                },
                Layout::RegAddr => {
                    self.set_tag(ip + 1, Tag::Register);
                    self.set_tag(ip + 2, Tag::Pointer);
                    self.set_tag(ip + 3, Tag::Pointer);
                },
                Layout::RegImm => {
                    self.set_tag(ip + 1, Tag::Register);
                    self.set_tag(ip + 2, Tag::Value);
                    self.set_tag(ip + 3, Tag::Value);
                },
                Layout::Addr => {
                    self.set_tag(ip + 1, Tag::Pointer);
                    self.set_tag(ip + 2, Tag::Pointer);
                },
            }
            let take = layout == Layout::Addr && k < choices.len() && choices[k];
            let next = if take {
                let hi = self.ram[ip + 1].value;
                let lo = self.ram[ip + 2].value;
                (hi as usize) * 256 + (lo as usize)
            } else {
                ip + len
            };
            k = k + 1;
            if next >= MEMORY_SIZE {
                assert(scan_from(mem, self.tags(), next as int, choices@, k as nat) == self.tags());
                return ;
            }
            ip = next;
        }
    }
}

} // verus!
