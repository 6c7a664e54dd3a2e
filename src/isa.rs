//! The instruction set: one-byte opcodes, their mnemonics, and the layout of
//! the operand bytes that follow each opcode.
use vstd::prelude::*;

verus! {

/// Every instruction the machine knows, decoded from its opcode byte.
#[derive(PartialEq, Eq, Structural, Clone, Copy, Debug)]
pub enum Opcode {
    Nop,
    Hlt,
    Mov,
    Lod,
    Sto,
    Ldr,
    Str,
    Swp,
    Ldi,
    Add,
    Sub,
    Mul,
    Div,
    Mod,
    Jmp,
    Jz,
    Jnz,
    Jc,
    Jnc,
    Jge,
    Jl,
    Scf,
    Ccf,
}

/// What follows the opcode byte.
#[derive(PartialEq, Eq, Structural, Clone, Copy, Debug)]
pub enum Layout {
    /// Nothing.
    Bare,
    /// One register selector byte.
    Reg,
    /// A selector byte, then a big-endian address.
    RegAddr,
    /// A selector byte, then a big-endian 16-bit immediate.
    RegImm,
    /// A big-endian address.
    Addr,
}

/// The opcode named by a byte, if any.
pub open spec fn opcode_of(b: u8) -> Option<Opcode> {
    if b == 0x00 { Some(Opcode::Nop) }
    else if b == 0x01 { Some(Opcode::Hlt) }
    else if b == 0x10 { Some(Opcode::Mov) }
    else if b == 0x11 { Some(Opcode::Lod) }
    else if b == 0x12 { Some(Opcode::Sto) }
    else if b == 0x13 { Some(Opcode::Ldr) }
    else if b == 0x14 { Some(Opcode::Str) }
    else if b == 0x15 { Some(Opcode::Swp) }
    else if b == 0x16 { Some(Opcode::Ldi) }
    else if b == 0x20 { Some(Opcode::Add) }
    else if b == 0x21 { Some(Opcode::Sub) }
    else if b == 0x22 { Some(Opcode::Mul) }
    else if b == 0x23 { Some(Opcode::Div) }
    else if b == 0x24 { Some(Opcode::Mod) }
    else if b == 0x30 { Some(Opcode::Jmp) }
    else if b == 0x31 { Some(Opcode::Jz) }
    else if b == 0x32 { Some(Opcode::Jnz) }
    else if b == 0x33 { Some(Opcode::Jc) }
    else if b == 0x34 { Some(Opcode::Jnc) }
    else if b == 0x35 { Some(Opcode::Jge) }
    else if b == 0x36 { Some(Opcode::Jl) }
    else if b == 0x40 { Some(Opcode::Scf) }
    else if b == 0x41 { Some(Opcode::Ccf) }
    else { None }
}

impl Opcode {
    pub open spec fn code(self) -> u8 {
        match self {
            Opcode::Nop => 0x00,
            Opcode::Hlt => 0x01,
            Opcode::Mov => 0x10,
            Opcode::Lod => 0x11,
            Opcode::Sto => 0x12,
            Opcode::Ldr => 0x13,
            Opcode::Str => 0x14,
            Opcode::Swp => 0x15,
            Opcode::Ldi => 0x16,
            Opcode::Add => 0x20,
            Opcode::Sub => 0x21,
            Opcode::Mul => 0x22,
            Opcode::Div => 0x23,
            Opcode::Mod => 0x24,
            Opcode::Jmp => 0x30,
            Opcode::Jz => 0x31,
            Opcode::Jnz => 0x32,
            Opcode::Jc => 0x33,
            Opcode::Jnc => 0x34,
            Opcode::Jge => 0x35,
            Opcode::Jl => 0x36,
            Opcode::Scf => 0x40,
            Opcode::Ccf => 0x41,
        }
    }

    pub open spec fn layout_of(self) -> Layout {
        match self {
            Opcode::Mov | Opcode::Ldr | Opcode::Str => Layout::Reg,
            Opcode::Lod | Opcode::Sto => Layout::RegAddr,
            Opcode::Ldi => Layout::RegImm,
            Opcode::Jmp | Opcode::Jz | Opcode::Jnz | Opcode::Jc | Opcode::Jnc | Opcode::Jge
            | Opcode::Jl => Layout::Addr,
            _ => Layout::Bare,
        }
    }

    /// Length in bytes of the whole instruction, opcode included.
    pub open spec fn size(self) -> nat {
        self.layout_of().size()
    }

    /// The mnemonic, in upper case.
    pub open spec fn name(self) -> Seq<char> {
        match self {
            Opcode::Nop => seq!['N', 'O', 'P'],
            Opcode::Hlt => seq!['H', 'L', 'T'],
            Opcode::Mov => seq!['M', 'O', 'V'],
            Opcode::Lod => seq!['L', 'O', 'D'],
            Opcode::Sto => seq!['S', 'T', 'O'],
            Opcode::Ldr => seq!['L', 'D', 'R'],
            Opcode::Str => seq!['S', 'T', 'R'],
            Opcode::Swp => seq!['S', 'W', 'P'],
            Opcode::Ldi => seq!['L', 'D', 'I'],
            Opcode::Add => seq!['A', 'D', 'D'],
            Opcode::Sub => seq!['S', 'U', 'B'],
            Opcode::Mul => seq!['M', 'U', 'L'],
            Opcode::Div => seq!['D', 'I', 'V'],
            Opcode::Mod => seq!['M', 'O', 'D'],
            Opcode::Jmp => seq!['J', 'M', 'P'],
            Opcode::Jz => seq!['J', 'Z'],
            Opcode::Jnz => seq!['J', 'N', 'Z'],
            Opcode::Jc => seq!['J', 'C'],
            Opcode::Jnc => seq!['J', 'N', 'C'],
            Opcode::Jge => seq!['J', 'G', 'E'],
            Opcode::Jl => seq!['J', 'L'],
            Opcode::Scf => seq!['S', 'C', 'F'],
            Opcode::Ccf => seq!['C', 'C', 'F'],
        }
    }

    /// Decodes an opcode byte; bytes outside the table decode to nothing.
    pub fn from_byte(b: u8) -> (r: Option<Opcode>)
        ensures
            r == opcode_of(b),
    {
        match b {
            0x00 => Some(Opcode::Nop),
            0x01 => Some(Opcode::Hlt),
            0x10 => Some(Opcode::Mov),
            0x11 => Some(Opcode::Lod),
            0x12 => Some(Opcode::Sto),
            0x13 => Some(Opcode::Ldr),
            0x14 => Some(Opcode::Str),
            0x15 => Some(Opcode::Swp),
            0x16 => Some(Opcode::Ldi),
            0x20 => Some(Opcode::Add),
            0x21 => Some(Opcode::Sub),
            0x22 => Some(Opcode::Mul),
            0x23 => Some(Opcode::Div),
            0x24 => Some(Opcode::Mod),
            0x30 => Some(Opcode::Jmp),
            0x31 => Some(Opcode::Jz),
            0x32 => Some(Opcode::Jnz),
            0x33 => Some(Opcode::Jc),
            0x34 => Some(Opcode::Jnc),
            0x35 => Some(Opcode::Jge),
            0x36 => Some(Opcode::Jl),
            0x40 => Some(Opcode::Scf),
            0x41 => Some(Opcode::Ccf),
            _ => None,
        }
    }

    /// The opcode byte.
    pub fn byte(self) -> (r: u8)
        ensures
            r == self.code(),
            opcode_of(r) == Some(self),
    {
        match self {
            Opcode::Nop => 0x00,
            Opcode::Hlt => 0x01,
            Opcode::Mov => 0x10,
            Opcode::Lod => 0x11,
            Opcode::Sto => 0x12,
            Opcode::Ldr => 0x13,
            Opcode::Str => 0x14,
            Opcode::Swp => 0x15,
            Opcode::Ldi => 0x16,
            Opcode::Add => 0x20,
            Opcode::Sub => 0x21,
            Opcode::Mul => 0x22,
            Opcode::Div => 0x23,
            Opcode::Mod => 0x24,
            Opcode::Jmp => 0x30,
            Opcode::Jz => 0x31,
            Opcode::Jnz => 0x32,
            Opcode::Jc => 0x33,
            Opcode::Jnc => 0x34,
            Opcode::Jge => 0x35,
            Opcode::Jl => 0x36,
            Opcode::Scf => 0x40,
            Opcode::Ccf => 0x41,
        }
    }

    /// The operand layout.
    pub fn layout(self) -> (r: Layout)
        ensures
            r == self.layout_of(),
    {
        match self {
            Opcode::Mov | Opcode::Ldr | Opcode::Str => Layout::Reg,
            Opcode::Lod | Opcode::Sto => Layout::RegAddr,
            Opcode::Ldi => Layout::RegImm,
            Opcode::Jmp | Opcode::Jz | Opcode::Jnz | Opcode::Jc | Opcode::Jnc | Opcode::Jge
            | Opcode::Jl => Layout::Addr,
            _ => Layout::Bare,
        }
    }

    /// Length in bytes of the whole instruction.
    pub fn len(self) -> (r: usize)
        ensures
            r as nat == self.size(),
            1 <= r <= 4,
    {
        self.layout().len()
    }

    /// The mnemonic, in upper case.
    pub fn mnemonic(self) -> (r: &'static str)
        ensures
            r@ == self.name(),
    {
        let r = match self {
            Opcode::Nop => "NOP",
            Opcode::Hlt => "HLT",
            Opcode::Mov => "MOV",
            Opcode::Lod => "LOD",
            Opcode::Sto => "STO",
            Opcode::Ldr => "LDR",
            Opcode::Str => "STR",
            Opcode::Swp => "SWP",
            Opcode::Ldi => "LDI",
            Opcode::Add => "ADD",
            Opcode::Sub => "SUB",
            Opcode::Mul => "MUL",
            Opcode::Div => "DIV",
            Opcode::Mod => "MOD",
            Opcode::Jmp => "JMP",
            Opcode::Jz => "JZ",
            Opcode::Jnz => "JNZ",
            Opcode::Jc => "JC",
            Opcode::Jnc => "JNC",
            Opcode::Jge => "JGE",
            Opcode::Jl => "JL",
            Opcode::Scf => "SCF",
            Opcode::Ccf => "CCF",
        };
        proof {
            reveal_strlit("NOP");
            reveal_strlit("HLT");
            reveal_strlit("MOV");
            reveal_strlit("LOD");
            reveal_strlit("STO");
            reveal_strlit("LDR");
            reveal_strlit("STR");
            reveal_strlit("SWP");
            reveal_strlit("LDI");
            reveal_strlit("ADD");
            reveal_strlit("SUB");
            reveal_strlit("MUL");
            reveal_strlit("DIV");
            reveal_strlit("MOD");
            reveal_strlit("JMP");
            reveal_strlit("JZ");
            reveal_strlit("JNZ");
            reveal_strlit("JC");
            reveal_strlit("JNC");
            reveal_strlit("JGE");
            reveal_strlit("JL");
            reveal_strlit("SCF");
            reveal_strlit("CCF");
        }
        assert(r@ =~= self.name());
        r
    }

    /// A one-sentence explanation of the instruction, for annotation.
    pub fn description(self) -> (r: &'static str) {
        match self {
            Opcode::Nop => "No operation, just increments the program counter, usually used for padding.",
            Opcode::Hlt => "Halt, halts the program.",
            Opcode::Mov => "Move, copies value from one register to another register.",
            Opcode::Lod => "Load, loads value from memory to a register.",
            Opcode::Sto => "Store, stores value from a register to memory.",
            Opcode::Ldr => "Load by register, loads value from memory to a register using X as an address.",
            Opcode::Str => "Store by register, stores value from a register to memory using X as an address.",
            Opcode::Swp => "Swap, swaps X and Y.",
            Opcode::Ldi => "Load immediate, loads value into a register.",
            Opcode::Add => "Add, adds the Y value to X.",
            Opcode::Sub => "Subtract, subtracts the Y value from X.",
            Opcode::Mul => "Multiply, multiplies X by Y.",
            Opcode::Div => "Divide, divides X by Y.",
            Opcode::Mod => "Modulo, divides X by Y and returns the remainder.",
            Opcode::Jmp => "Jump, jumps to a memory address.",
            Opcode::Jz => "Jump if zero, jumps to a memory address if X is zero.",
            Opcode::Jnz => "Jump if not zero, jumps to a memory address if X is not zero.",
            Opcode::Jc => "Jump if carry, jumps to a memory address if carry flag is set.",
            Opcode::Jnc => "Jump if not carry, jumps to a memory address if carry flag is not set.",
            Opcode::Jge => "Jump if greater or equal, jumps to a memory address if X is greater or equal to Y.",
            Opcode::Jl => "Jump if less, jumps to a memory address if X is less than Y.",
            Opcode::Scf => "Set carry flag, sets the carry flag.",
            Opcode::Ccf => "Clear carry flag, clears the carry flag.",
        }
    }
}

impl Layout {
    pub open spec fn size(self) -> nat {
        match self {
            Layout::Bare => 1,
            Layout::Reg => 2,
            Layout::RegAddr | Layout::RegImm => 4,
            Layout::Addr => 3,
        }
    }

    pub fn len(self) -> (r: usize)
        ensures
            r as nat == self.size(),
    {
        match self {
            Layout::Bare => 1,
            Layout::Reg => 2,
            Layout::RegAddr | Layout::RegImm => 4,
            Layout::Addr => 3,
        }
    }
}

/// An entry of the opcode table.
#[derive(Clone, Copy, Debug)]
pub struct InstructionDescriptor {
    pub opcode: u8,
    pub mnemonic: &'static str,
    pub description: &'static str,
}

/// Looks an opcode byte up in the table. Bytes outside the table are not
/// decodable and give `None`.
pub fn lookup(opcode: u8) -> (r: Option<InstructionDescriptor>)
    ensures
        r is Some <==> opcode_of(opcode) is Some,
        r is Some ==> r->0.opcode == opcode && r->0.mnemonic@ == opcode_of(opcode)->0.name(),
{
    match Opcode::from_byte(opcode) {
        Some(op) => Some(
            InstructionDescriptor {
                opcode: op.byte(),
                mnemonic: op.mnemonic(),
                description: op.description(),
            },
        ),
        None => None,
    }
}

} // verus!
