//! The memory model, the registers and flag, and the execution engine that
//! performs one fetch-decode-execute step.
use vstd::prelude::*;
use crate::isa::{Opcode, opcode_of};

verus! {

/// Number of addressable memory cells.
pub const MEMORY_SIZE: usize = 0x1_0000;

/// What the scanner has classified a memory byte as, for display.
#[derive(PartialEq, Eq, Structural, Clone, Copy, Debug)]
pub enum Tag {
    Unknown,
    Instruction,
    Register,
    Value,
    Pointer,
}

/// One byte of memory with its display classification.
#[derive(PartialEq, Eq, Structural, Clone, Copy, Debug)]
pub struct Cell {
    pub value: u8,
    pub tag: Tag,
}

/// A fatal run-time error. The step that raises it changes nothing.
#[derive(PartialEq, Eq, Structural, Clone, Copy, Debug)]
pub enum ExecError {
    DivisionByZero,
    ModuloByZero,
    AddressOutOfRange,
}

/// How a step that raised no error ended.
#[derive(PartialEq, Eq, Structural, Clone, Copy, Debug)]
pub enum Outcome {
    /// The instruction ran and the target pointer moved on.
    Continued,
    /// The instruction was `HLT`; nothing changed.
    Halted,
    /// The byte at the pointer is no opcode; nothing changed.
    Stalled,
}

/// The architectural state: memory contents, registers, flag and pointer.
pub struct Cpu {
    pub mem: Seq<u8>,
    pub x: u16,
    pub y: u16,
    pub carry: bool,
    pub pc: int,
}

/// The result of one step of the semantics.
pub enum Transition {
    Next(Cpu),
    Halt,
    Stall,
    Fault(ExecError),
}

/// The big-endian word made of two bytes.
pub open spec fn word(hi: u8, lo: u8) -> u16 {
    (hi as int * 256 + lo as int) as u16
}

pub open spec fn word_at(mem: Seq<u8>, a: int) -> u16 {
    word(mem[a], mem[a + 1])
}

/// `mem` with `w` written big-endian at `a` and `a + 1`.
pub open spec fn put_word(mem: Seq<u8>, a: int, w: u16) -> Seq<u8> {
    mem.update(a, (w / 256) as u8).update(a + 1, (w % 256) as u8)
}

/// Whether the two cells `a` and `a + 1` both exist.
pub open spec fn word_fits(a: int) -> bool {
    0 <= a && a + 2 <= 0x10000
}

/// The register that a selector byte names: zero is `X`, anything else `Y`.
pub open spec fn reg_of(c: Cpu, sel: u8) -> u16 {
    if sel == 0 { c.x } else { c.y }
}

pub open spec fn with_reg(c: Cpu, sel: u8, v: u16) -> Cpu {
    if sel == 0 { Cpu { x: v, ..c } } else { Cpu { y: v, ..c } }
}

/// Moves on by `n` bytes from `c.pc`; the next pointer must be an address.
pub open spec fn fall(c: Cpu, n: int) -> Transition {
    if c.pc + n <= 0xFFFF {
        Transition::Next(Cpu { pc: c.pc + n, ..c })
    } else {
        Transition::Fault(ExecError::AddressOutOfRange)
    }
}

/// A conditional jump: to `dest` when `cond`, else past the three bytes.
pub open spec fn branch(c: Cpu, cond: bool, dest: u16) -> Transition {
    if cond {
        Transition::Next(Cpu { pc: dest as int, ..c })
    } else {
        fall(c, 3)
    }
}

/// The effect of an instruction whose bytes all lie in memory.
///
/// `ADD` and `SUB` both set or clear the carry flag: `ADD` sets it when the
/// unwrapped sum exceeds `ffff`, `SUB` when `Y` is larger than `X`, that is
/// when the subtraction borrows. `MUL` wraps and leaves the flag alone.
pub open spec fn exec_op(c: Cpu, op: Opcode) -> Transition {
    let sel = c.mem[c.pc + 1];
    let imm = word_at(c.mem, c.pc + 2);
    let dest = word_at(c.mem, c.pc + 1);
    match op {
        Opcode::Nop => fall(c, 1),
        Opcode::Hlt => Transition::Halt,
        Opcode::Mov => fall(if sel == 0 { Cpu { x: c.y, ..c } } else { Cpu { y: c.x, ..c } }, 2),
        Opcode::Lod => if word_fits(imm as int) {
            fall(with_reg(c, sel, word_at(c.mem, imm as int)), 4)
        } else {
            Transition::Fault(ExecError::AddressOutOfRange)
        },
        Opcode::Sto => if word_fits(imm as int) {
            fall(Cpu { mem: put_word(c.mem, imm as int, reg_of(c, sel)), ..c }, 4)
        } else {
            Transition::Fault(ExecError::AddressOutOfRange)
        },
        Opcode::Ldr => if word_fits(c.x as int) {
            fall(with_reg(c, sel, word_at(c.mem, c.x as int)), 2)
        } else {
            Transition::Fault(ExecError::AddressOutOfRange)
        },
        Opcode::Str => if word_fits(c.x as int) {
            fall(Cpu { mem: put_word(c.mem, c.x as int, reg_of(c, sel)), ..c }, 2)
        } else {
            Transition::Fault(ExecError::AddressOutOfRange)
        },
        Opcode::Swp => fall(Cpu { x: c.y, y: c.x, ..c }, 1),
        Opcode::Ldi => fall(with_reg(c, sel, imm), 4),
        Opcode::Add => fall(
            Cpu { x: ((c.x + c.y) % 0x10000) as u16, carry: c.x + c.y > 0xFFFF, ..c },
            1,
        ),
        Opcode::Sub => fall(
            Cpu { x: ((c.x - c.y + 0x10000) % 0x10000) as u16, carry: c.x < c.y, ..c },
            1,
        ),
        Opcode::Mul => fall(Cpu { x: ((c.x * c.y) % 0x10000) as u16, ..c }, 1),
        Opcode::Div => if c.y == 0 {
            Transition::Fault(ExecError::DivisionByZero)
        } else {
            fall(Cpu { x: (c.x / c.y) as u16, ..c }, 1)
        },
        Opcode::Mod => if c.y == 0 {
            Transition::Fault(ExecError::ModuloByZero)
        } else {
            fall(Cpu { x: (c.x % c.y) as u16, ..c }, 1)
        },
        Opcode::Jmp => Transition::Next(Cpu { pc: dest as int, ..c }),
        Opcode::Jz => branch(c, c.x == 0, dest),
        Opcode::Jnz => branch(c, c.x != 0, dest),
        Opcode::Jc => branch(c, c.carry, dest),
        Opcode::Jnc => branch(c, !c.carry, dest),
        Opcode::Jge => branch(c, c.x >= c.y, dest),
        Opcode::Jl => branch(c, c.x < c.y, dest),
        Opcode::Scf => fall(Cpu { carry: true, ..c }, 1),
        Opcode::Ccf => fall(Cpu { carry: false, ..c }, 1),
    }
}

/// One step of the machine from `c`. The opcode at the pointer is decoded;
/// an instruction whose bytes run past the last address, or whose memory
/// operand or next pointer does, raises `AddressOutOfRange`.
pub open spec fn step(c: Cpu) -> Transition {
    if !(0 <= c.pc < 0x10000) {
        Transition::Fault(ExecError::AddressOutOfRange)
    } else {
        match opcode_of(c.mem[c.pc]) {
            None => Transition::Stall,
            Some(op) => if c.pc + op.size() > 0x10000 {
                Transition::Fault(ExecError::AddressOutOfRange)
            } else {
                exec_op(c, op)
            },
        }
    }
}

/// `after` and `r` are what one execution step makes of `before`: the
/// committed state follows `step` from the resting pointer, and `HLT`, an
/// undecodable byte and every error change nothing. The resting pointer
/// stays where it was.
pub open spec fn executes(before: Machine, after: Machine, r: Result<Outcome, ExecError>) -> bool {
    &&& after.pointer == before.pointer
    &&& match step(before.cpu()) {
        Transition::Next(c) => r == Ok::<Outcome, ExecError>(Outcome::Continued)
            && after.committed() == c,
        Transition::Halt => r == Ok::<Outcome, ExecError>(Outcome::Halted)
            && after.committed() == before.committed(),
        Transition::Stall => r == Ok::<Outcome, ExecError>(Outcome::Stalled)
            && after.committed() == before.committed(),
        Transition::Fault(e) => r == Err::<Outcome, ExecError>(e)
            && after.committed() == before.committed(),
    }
}

/// The whole machine: memory, registers, carry flag, and the pair of
/// pointers. `pointer` is where the machine rests; `target_pointer` is where
/// the last step decided to go.
pub struct Machine {
    pub ram: Vec<Cell>,
    pub x: u16,
    pub y: u16,
    pub carry: bool,
    pub pointer: u16,
    pub target_pointer: u16,
}

impl Machine {
    /// Memory has exactly one cell per address.
    pub open spec fn wf(&self) -> bool {
        self.ram@.len() == MEMORY_SIZE
    }

    pub open spec fn values(&self) -> Seq<u8> {
        self.ram@.map_values(|c: Cell| c.value)
    }

    pub open spec fn tags(&self) -> Seq<Tag> {
        self.ram@.map_values(|c: Cell| c.tag)
    }

    /// The state as it stands at the resting pointer.
    pub open spec fn cpu(&self) -> Cpu {
        Cpu {
            mem: self.values(),
            x: self.x,
            y: self.y,
            carry: self.carry,
            pc: self.pointer as int,
        }
    }

    /// The state with the pointer moved to the target.
    pub open spec fn committed(&self) -> Cpu {
        Cpu { pc: self.target_pointer as int, ..self.cpu() }
    }

    pub open spec fn at_rest(&self) -> bool {
        self.pointer == self.target_pointer
    }

    /// A machine with zeroed memory, registers and flag, at address zero.
    pub fn new() -> (r: Machine)
        ensures
            r.wf(),
            forall|i: int| 0 <= i < MEMORY_SIZE ==> r.ram@[i] == (Cell { value: 0, tag: Tag::Unknown }),
            r.x == 0 && r.y == 0 && !r.carry,
            r.pointer == 0 && r.target_pointer == 0,
    {
        let mut ram: Vec<Cell> = Vec::new();
        let mut i: usize = 0;
        while i < MEMORY_SIZE
            invariant
                i <= MEMORY_SIZE,
                ram@.len() == i,
                forall|k: int| 0 <= k < i ==> ram@[k] == (Cell { value: 0, tag: Tag::Unknown }),
            decreases MEMORY_SIZE - i,
        {
            ram.push(Cell { value: 0, tag: Tag::Unknown });
            i = i + 1;
        }
        Machine { ram, x: 0, y: 0, carry: false, pointer: 0, target_pointer: 0 }
    }

    /// A fresh machine with `program` written from address zero. A program
    /// larger than memory raises `AddressOutOfRange`.
    pub fn load(program: &Vec<u8>) -> (r: Result<Machine, ExecError>)
        ensures
            r is Err <==> program@.len() > MEMORY_SIZE,
            r is Err ==> r == Err::<Machine, ExecError>(ExecError::AddressOutOfRange),
            r is Ok ==> {
                let m = r->Ok_0;
                &&& m.wf()
                &&& forall|i: int| 0 <= i < program@.len() ==> m.values()[i] == program@[i]
                &&& forall|i: int| program@.len() <= i < MEMORY_SIZE ==> m.values()[i] == 0
                &&& forall|i: int| 0 <= i < MEMORY_SIZE ==> m.tags()[i] == Tag::Unknown
                &&& m.x == 0 && m.y == 0 && !m.carry
                &&& m.pointer == 0 && m.target_pointer == 0
            },
    {
        if program.len() > MEMORY_SIZE {
            return Err(ExecError::AddressOutOfRange);
        }
        let mut m = Machine::new();
        let mut i: usize = 0;
        while i < program.len()
            invariant
                program@.len() <= MEMORY_SIZE,
                i <= program@.len(),
                m.wf(),
                forall|k: int| 0 <= k < i ==> m.ram@[k] == (Cell { value: program@[k], tag: Tag::Unknown }),
                forall|k: int| i <= k < MEMORY_SIZE ==> m.ram@[k] == (Cell { value: 0, tag: Tag::Unknown }),
                m.x == 0 && m.y == 0 && !m.carry,
                m.pointer == 0 && m.target_pointer == 0,
            decreases program@.len() - i,
        {
            m.ram.set(i, Cell { value: program[i], tag: Tag::Unknown });
            i = i + 1;
        }
        Ok(m)
    }

    /// Writes one byte on request from outside; the tag is left for the
    /// scanner to recompute.
    pub fn edit_byte(&mut self, a: u16, v: u8)
        requires
            old(self).wf(),
        ensures
            final(self).wf(),
            final(self).values() == old(self).values().update(a as int, v),
            final(self).tags() == old(self).tags(),
            final(self).x == old(self).x,
            final(self).y == old(self).y,
            final(self).carry == old(self).carry,
            final(self).pointer == old(self).pointer,
            final(self).target_pointer == old(self).target_pointer,
    {
        self.put_byte(a as usize, v);
    }

    /// Writes a register on request from outside: selector zero is `X`,
    /// anything else `Y`.
    pub fn set_register(&mut self, sel: u8, v: u16)
        ensures
            final(self).cpu() == with_reg(old(self).cpu(), sel, v),
            final(self).ram == old(self).ram,
            final(self).target_pointer == old(self).target_pointer,
    {
        if sel == 0 {
            self.x = v;
        } else {
            self.y = v;
        }
    }

    /// Moves the target pointer on request from outside; the resting
    /// pointer follows it as the display catches up.
    pub fn request_jump(&mut self, a: u16)
        ensures
            final(self).target_pointer == a,
            final(self).cpu() == old(self).cpu(),
            final(self).ram == old(self).ram,
    {
        self.target_pointer = a;
    }

    /// Brings the resting pointer to the target.
    pub fn settle(&mut self)
        ensures
            final(self).pointer == old(self).target_pointer,
            final(self).committed() == old(self).committed(),
            final(self).ram == old(self).ram,
    {
        self.pointer = self.target_pointer;
    }

    /// The byte stored at `a`.
    pub fn byte_at(&self, a: u16) -> (r: u8)
        requires
            self.wf(),
        ensures
            r == self.values()[a as int],
    {
        self.ram[a as usize].value
    }

    /// The big-endian word at `a` and `a + 1`.
    fn read_word(&self, a: usize) -> (r: u16)
        requires
            self.wf(),
            a + 2 <= MEMORY_SIZE,
        ensures
            r == word_at(self.values(), a as int),
    {
        let hi = self.ram[a].value;
        let lo = self.ram[a + 1].value;
        (hi as u16) * 256 + (lo as u16)
    }

    /// Overwrites the value at `a`, keeping its tag.
    fn put_byte(&mut self, a: usize, v: u8)
        requires
            old(self).wf(),
            a < MEMORY_SIZE,
        ensures
            final(self).wf(),
            final(self).values() == old(self).values().update(a as int, v),
            final(self).tags() == old(self).tags(),
            final(self).x == old(self).x,
            final(self).y == old(self).y,
            final(self).carry == old(self).carry,
            final(self).pointer == old(self).pointer,
            final(self).target_pointer == old(self).target_pointer,
    {
        let t = self.ram[a].tag;
        self.ram.set(a, Cell { value: v, tag: t });
        assert(self.values() =~= old(self).values().update(a as int, v));
        assert(self.tags() =~= old(self).tags());
    }

    fn write_word(&mut self, a: usize, w: u16)
        requires
            old(self).wf(),
            a + 2 <= MEMORY_SIZE,
        ensures
            final(self).wf(),
            final(self).values() == put_word(old(self).values(), a as int, w),
            final(self).tags() == old(self).tags(),
            final(self).x == old(self).x,
            final(self).y == old(self).y,
            final(self).carry == old(self).carry,
            final(self).pointer == old(self).pointer,
            final(self).target_pointer == old(self).target_pointer,
    {
        self.put_byte(a, (w / 256) as u8);
        self.put_byte(a + 1, (w % 256) as u8);
    }

    /// Moves the target `n` bytes past the pointer, or raises
    /// `AddressOutOfRange` without a change when that leaves memory.
    fn advance(&mut self, n: u16) -> (r: Result<Outcome, ExecError>)
        requires
            n <= 4,
        ensures
            r is Ok ==> r == Ok::<Outcome, ExecError>(Outcome::Continued),
            r is Ok <==> old(self).pointer + n <= 0xFFFF,
            r is Err ==> r == Err::<Outcome, ExecError>(ExecError::AddressOutOfRange),
            r is Ok ==> final(self).target_pointer == old(self).pointer + n,
            r is Err ==> final(self).target_pointer == old(self).target_pointer,
            final(self).ram == old(self).ram,
            final(self).x == old(self).x,
            final(self).y == old(self).y,
            final(self).carry == old(self).carry,
            final(self).pointer == old(self).pointer,
    {
        if self.pointer > 0xFFFF - n {
            Err(ExecError::AddressOutOfRange)
        } else {
            self.target_pointer = self.pointer + n;
            Ok(Outcome::Continued)
        }
    }

    /// Executes the instruction at the pointer: registers, flag and memory
    /// change as the instruction says and the target pointer moves to the
    /// next address. `HLT`, an undecodable byte and every error leave the
    /// machine as it was. Tags and the resting pointer never change.
    pub fn execute(&mut self) -> (r: Result<Outcome, ExecError>)
        requires
            old(self).wf(),
        ensures
            final(self).wf(),
            final(self).tags() == old(self).tags(),
            executes(*old(self), *final(self), r),
    {
        let ghost c = old(self).cpu();
        let p = self.pointer as usize;
        let op = match Opcode::from_byte(self.ram[p].value) {
            Some(op) => op,
            None => return Ok(Outcome::Stalled),
        };
        let len = op.len();
        if p + len > MEMORY_SIZE {
            return Err(ExecError::AddressOutOfRange);
        }
        assert(c.mem.len() == MEMORY_SIZE);
        match op {
            Opcode::Nop => self.advance(1),
            Opcode::Hlt => Ok(Outcome::Halted),
            Opcode::Mov => {
                if self.pointer > 0xFFFF - 2 {
                    return Err(ExecError::AddressOutOfRange);
                }
                if self.ram[p + 1].value == 0 {
                    self.x = self.y;
                } else {
                    self.y = self.x;
                }
                self.advance(2)
            },
            Opcode::Lod | Opcode::Ldi => {
                if self.pointer > 0xFFFF - 4 {
                    return Err(ExecError::AddressOutOfRange);
                }
                let sel = self.ram[p + 1].value;
                let imm = self.read_word(p + 2);
                let v = if op == Opcode::Ldi {
                    imm
                } else {
                    if imm as usize + 2 > MEMORY_SIZE {
                        return Err(ExecError::AddressOutOfRange);
                    }
                    self.read_word(imm as usize)
                };
                if sel == 0 {
                    self.x = v;
                } else {
                    self.y = v;
                }
                self.advance(4)
            },
            Opcode::Sto => {
                if self.pointer > 0xFFFF - 4 {
                    return Err(ExecError::AddressOutOfRange);
                }
                let sel = self.ram[p + 1].value;
                let a = self.read_word(p + 2);
                if a as usize + 2 > MEMORY_SIZE {
                    return Err(ExecError::AddressOutOfRange);
                }
                let v = if sel == 0 { self.x } else { self.y };
                self.write_word(a as usize, v);
                self.advance(4)
            },
            Opcode::Ldr => {
                if self.pointer > 0xFFFF - 2 {
                    return Err(ExecError::AddressOutOfRange);
                }
                if self.x as usize + 2 > MEMORY_SIZE {
                    return Err(ExecError::AddressOutOfRange);
                }
                let sel = self.ram[p + 1].value;
                let v = self.read_word(self.x as usize);
                if sel == 0 {
                    self.x = v;
                } else {
                    self.y = v;
                }
                self.advance(2)
            },
            Opcode::Str => {
                if self.pointer > 0xFFFF - 2 {
                    return Err(ExecError::AddressOutOfRange);
                }
                if self.x as usize + 2 > MEMORY_SIZE {
                    return Err(ExecError::AddressOutOfRange);
                }
                let sel = self.ram[p + 1].value;
                let v = if sel == 0 { self.x } else { self.y };
                self.write_word(self.x as usize, v);
                self.advance(2)
            },
            Opcode::Swp => {
                if self.pointer > 0xFFFF - 1 {
                    return Err(ExecError::AddressOutOfRange);
                }
                let t = self.x;
                self.x = self.y;
                self.y = t;
                self.advance(1)
            },
            Opcode::Add => {
                if self.pointer > 0xFFFF - 1 {
                    return Err(ExecError::AddressOutOfRange);
                }
                let sum: u32 = self.x as u32 + self.y as u32;
                self.x = (sum % 0x10000) as u16;
                self.carry = sum > 0xFFFF;
                self.advance(1)
            },
            Opcode::Sub => {
                if self.pointer > 0xFFFF - 1 {
                    return Err(ExecError::AddressOutOfRange);
                }
                let diff: u32 = self.x as u32 + 0x10000 - self.y as u32;
                self.carry = self.x < self.y;
                self.x = (diff % 0x10000) as u16;
                self.advance(1)
            },
            Opcode::Mul => {
                if self.pointer > 0xFFFF - 1 {
                    return Err(ExecError::AddressOutOfRange);
                }
                let a = self.x;
                let b = self.y;
                assert((a as int) * (b as int) <= 0xFFFF * 0xFFFF) by (nonlinear_arith)
                    requires
                        a <= 0xFFFF,
                        b <= 0xFFFF,
                ;
                let prod: u32 = a as u32 * b as u32;
                self.x = (prod % 0x10000) as u16;
                self.advance(1)
            },
            Opcode::Div => {
                if self.y == 0 {
                    return Err(ExecError::DivisionByZero);
                }
                if self.pointer > 0xFFFF - 1 {
                    return Err(ExecError::AddressOutOfRange);
                }
                self.x = self.x / self.y;
                self.advance(1)
            },
            Opcode::Mod => {
                if self.y == 0 {
                    return Err(ExecError::ModuloByZero);
                }
                if self.pointer > 0xFFFF - 1 {
                    return Err(ExecError::AddressOutOfRange);
                }
                self.x = self.x % self.y;
                self.advance(1)
            },
            Opcode::Scf => {
                if self.pointer > 0xFFFF - 1 {
                    return Err(ExecError::AddressOutOfRange);
                }
                self.carry = true;
                self.advance(1)
            },
            Opcode::Ccf => {
                if self.pointer > 0xFFFF - 1 {
                    return Err(ExecError::AddressOutOfRange);
                }
                self.carry = false;
                self.advance(1)
            },
            _ => {
                let dest = self.read_word(p + 1);
                let taken = match op {
                    Opcode::Jmp => true,
                    Opcode::Jz => self.x == 0,
                    Opcode::Jnz => self.x != 0,
                    Opcode::Jc => self.carry,
                    Opcode::Jnc => !self.carry,
                    Opcode::Jge => self.x >= self.y,
                    _ => self.x < self.y,
                };
                if taken {
                    self.target_pointer = dest;
                    Ok(Outcome::Continued)
                } else {
                    self.advance(3)
                }
            },
        }
    }
}

} // verus!
