//! Properties that relate several steps or several functions.
use vstd::prelude::*;
use crate::isa::{Layout, Opcode, opcode_of};
use crate::machine::{Cpu, ExecError, Machine, Outcome, Transition, executes, exec_op, step, word};
use crate::text::replace_all;
use crate::assembler::{collect_labels, encode, first_spelled, hi, instr_words, label_of, lo, mnemonic_op};

verus! {

/// `ADD` then `SUB` gives `X` back for every `X` and `Y`: the sum wraps
/// modulo 2^16 and the difference wraps back. `Y` and memory are untouched.
/// The carry flag after `SUB` is set exactly when the `ADD` overflowed,
/// since the wrapped sum is then below `Y`.
pub proof fn add_then_sub_restores_x(c: Cpu)
    requires
        0 <= c.pc,
        c.pc + 2 <= 0xFFFF,
        c.mem.len() == 0x10000,
        c.mem[c.pc] == 0x20,
        c.mem[c.pc + 1] == 0x21,
    ensures
        step(c) is Next,
        step(step(c)->Next_0) is Next,
        step(step(c)->Next_0)->Next_0 == (Cpu { pc: c.pc + 2, carry: c.x + c.y > 0xFFFF, ..c }),
{
    let c1 = step(c)->Next_0;
    assert(c1.x == ((c.x + c.y) % 0x10000) as u16);
    assert(c1.mem[c1.pc] == 0x21);
    let c2 = step(c1)->Next_0;
    assert(c2.x == c.x);
}

/// With `Y` zero, `DIV` raises `DivisionByZero` and `MOD` raises
/// `ModuloByZero`; the step leaves registers, flag, memory and pointers as
/// they were.
pub proof fn division_by_zero_changes_nothing(m: Machine, after: Machine, r: Result<Outcome, ExecError>)
    requires
        m.wf(),
        m.y == 0,
        m.values()[m.pointer as int] == 0x23 || m.values()[m.pointer as int] == 0x24,
        executes(m, after, r),
    ensures
        m.values()[m.pointer as int] == 0x23 ==> r == Err::<Outcome, ExecError>(ExecError::DivisionByZero),
        m.values()[m.pointer as int] == 0x24 ==> r == Err::<Outcome, ExecError>(ExecError::ModuloByZero),
        after.x == m.x,
        after.y == m.y,
        after.carry == m.carry,
        after.values() == m.values(),
        after.pointer == m.pointer,
        after.target_pointer == m.target_pointer,
{
}

/// A jump to `ffff` lands there; if an instruction of more than one byte
/// starts there, the next step raises `AddressOutOfRange` instead of
/// reading operands wrapped round to address zero.
pub proof fn no_wrap_past_top(c: Cpu, op: Opcode)
    requires
        c.mem.len() == 0x10000,
        0 <= c.pc,
        c.pc + 3 <= 0x10000,
        c.mem[c.pc] == 0x30,
        c.mem[c.pc + 1] == 0xFF,
        c.mem[c.pc + 2] == 0xFF,
        opcode_of(c.mem[0xFFFF]) == Some(op),
        op.size() > 1,
    ensures
        step(c) is Next,
        step(c)->Next_0.pc == 0xFFFF,
        step(step(c)->Next_0) == Transition::Fault(ExecError::AddressOutOfRange),
{
    assert(word(0xFF, 0xFF) == 0xFFFF);
}

/// An instruction encoded by the assembler decodes back to itself: its
/// first byte is the opcode, it is as long as the opcode says, and the
/// selector and sixteen-bit operands that execution reads are the low
/// byte of the first operand and the operands themselves.
pub proof fn encoded_instruction_decodes(op: Opcode, a: Seq<u16>)
    requires
        operands_fit(op, a),
    ensures
        encode(op, a).len() == op.size(),
        opcode_of(encode(op, a)[0]) == Some(op),
        (op.layout_of() == Layout::Reg || op.layout_of() == Layout::RegAddr || op.layout_of()
            == Layout::RegImm) ==> encode(op, a)[1] == lo(a[0]),
        (op.layout_of() == Layout::RegAddr || op.layout_of() == Layout::RegImm) ==> word(
            encode(op, a)[2],
            encode(op, a)[3],
        ) == a[1],
        op.layout_of() == Layout::Addr ==> word(encode(op, a)[1], encode(op, a)[2]) == a[0],
{
    let b = encode(op, a);
    if op.layout_of() == Layout::RegAddr || op.layout_of() == Layout::RegImm {
        assert(hi(a[1]) as int * 256 + lo(a[1]) as int == a[1] as int);
    }
    if op.layout_of() == Layout::Addr {
        assert(hi(a[0]) as int * 256 + lo(a[0]) as int == a[0] as int);
    }
}

/// Whether `a` holds the operands that instructions of `op` read.
pub open spec fn operands_fit(op: Opcode, a: Seq<u16>) -> bool {
    a.len() >= 2 || (a.len() >= 1 && op.layout_of() != Layout::RegAddr && op.layout_of()
        != Layout::RegImm) || op.layout_of() == Layout::Bare
}

/// The bytes of a straight sequence of instructions, each encoded as the
/// assembler encodes it, one after the other.
pub open spec fn program_bytes(p: Seq<(Opcode, Seq<u16>)>) -> Seq<u8>
    decreases p.len(),
{
    if p.len() == 0 {
        Seq::empty()
    } else {
        program_bytes(p.drop_last()) + encode(p.last().0, p.last().1)
    }
}

/// Where the `k`-th instruction of `p` starts.
pub open spec fn offset(p: Seq<(Opcode, Seq<u16>)>, k: int) -> nat {
    program_bytes(p.subrange(0, k)).len()
}

proof fn lemma_program_prefix(p: Seq<(Opcode, Seq<u16>)>, j: int)
    requires
        0 <= j <= p.len(),
    ensures
        program_bytes(p.subrange(0, j)).len() <= program_bytes(p).len(),
        program_bytes(p) == program_bytes(p.subrange(0, j)) + program_bytes(p).subrange(
            program_bytes(p.subrange(0, j)).len() as int,
            program_bytes(p).len() as int,
        ),
    decreases p.len() - j,
{
    if j < p.len() {
        lemma_program_prefix(p, j + 1);
        let q = p.subrange(0, j + 1);
        assert(q.drop_last() =~= p.subrange(0, j));
        let a = program_bytes(p.subrange(0, j));
        let all = program_bytes(p);
        assert(all =~= a + all.subrange(a.len() as int, all.len() as int));
    } else {
        assert(p.subrange(0, j) =~= p);
        assert(program_bytes(p).subrange(
            program_bytes(p).len() as int,
            program_bytes(p).len() as int,
        ) =~= Seq::<u8>::empty());
        assert(program_bytes(p) + Seq::<u8>::empty() =~= program_bytes(p));
    }
}

/// A program laid out instruction after instruction replays instruction
/// by instruction: wherever it is loaded, the step taken from the start of
/// its `k`-th instruction decodes that instruction and executes it on the
/// operands it was written with.
pub proof fn program_replays(p: Seq<(Opcode, Seq<u16>)>, k: int, c: Cpu)
    requires
        0 <= k < p.len(),
        forall|i: int| 0 <= i < p.len() ==> operands_fit(#[trigger] p[i].0, p[i].1),
        c.mem.len() == 0x10000,
        program_bytes(p).len() <= 0x10000,
        forall|i: int| 0 <= i < program_bytes(p).len() ==> c.mem[i] == program_bytes(p)[i],
        c.pc == offset(p, k),
    ensures
        c.mem.subrange(c.pc, c.pc + p[k].0.size()) == encode(p[k].0, p[k].1),
        opcode_of(c.mem[c.pc]) == Some(p[k].0),
        step(c) == exec_op(c, p[k].0),
{
    let (op, a) = p[k];
    let q = p.subrange(0, k + 1);
    assert(q.drop_last() =~= p.subrange(0, k));
    assert(q.last() == p[k]);
    lemma_program_prefix(p, k + 1);
    let pre = program_bytes(p.subrange(0, k));
    let e = encode(op, a);
    encoded_instruction_decodes(op, a);
    assert(program_bytes(q) == pre + e);
    let all = program_bytes(p);
    assert forall|i: int| 0 <= i < e.len() implies c.mem[c.pc + i] == e[i] by {
        assert(all[pre.len() + i] == (pre + e)[pre.len() + i]);
    }
    assert(c.mem.subrange(c.pc, c.pc + op.size()) =~= e);
    assert(c.mem[c.pc] == e[0]);
}

/// Each mnemonic, in upper case, assembles to its own instruction.
#[verifier::spinoff_prover]
#[verifier::rlimit(50)]
pub proof fn mnemonic_names_its_opcode(op: Opcode)
    ensures
        mnemonic_op(op.name()) == Some(op),
{
    match op {
        Opcode::Nop => {
            reveal_with_fuel(first_spelled, 2);
            assert(mnemonic_op(op.name()) == Some(op));
        },
        Opcode::Hlt => {
            reveal_with_fuel(first_spelled, 3);
            assert(mnemonic_op(op.name()) == Some(op));
        },
        Opcode::Mov => {
            reveal_with_fuel(first_spelled, 4);
            assert(mnemonic_op(op.name()) == Some(op));
        },
        Opcode::Lod => {
            reveal_with_fuel(first_spelled, 5);
            assert(mnemonic_op(op.name()) == Some(op));
        },
        Opcode::Sto => {
            reveal_with_fuel(first_spelled, 6);
            assert(mnemonic_op(op.name()) == Some(op));
        },
        Opcode::Ldr => {
            reveal_with_fuel(first_spelled, 7);
            assert(mnemonic_op(op.name()) == Some(op));
        },
        Opcode::Str => {
            reveal_with_fuel(first_spelled, 8);
            assert(mnemonic_op(op.name()) == Some(op));
        },
        Opcode::Swp => {
            reveal_with_fuel(first_spelled, 9);
            assert(mnemonic_op(op.name()) == Some(op));
        },
        Opcode::Ldi => {
            reveal_with_fuel(first_spelled, 10);
            assert(mnemonic_op(op.name()) == Some(op));
        },
        Opcode::Add => {
            reveal_with_fuel(first_spelled, 11);
            assert(mnemonic_op(op.name()) == Some(op));
        },
        Opcode::Sub => {
            reveal_with_fuel(first_spelled, 12);
            assert(mnemonic_op(op.name()) == Some(op));
        },
        Opcode::Mul => {
            reveal_with_fuel(first_spelled, 13);
            assert(mnemonic_op(op.name()) == Some(op));
        },
        Opcode::Div => {
            reveal_with_fuel(first_spelled, 14);
            assert(mnemonic_op(op.name()) == Some(op));
        },
        Opcode::Mod => {
            reveal_with_fuel(first_spelled, 15);
            assert(mnemonic_op(op.name()) == Some(op));
        },
        Opcode::Jmp => {
            reveal_with_fuel(first_spelled, 16);
            assert(mnemonic_op(op.name()) == Some(op));
        },
        Opcode::Jz => {
            reveal_with_fuel(first_spelled, 17);
            assert(mnemonic_op(op.name()) == Some(op));
        },
        Opcode::Jnz => {
            reveal_with_fuel(first_spelled, 18);
            assert(mnemonic_op(op.name()) == Some(op));
        },
        Opcode::Jc => {
            reveal_with_fuel(first_spelled, 19);
            assert(mnemonic_op(op.name()) == Some(op));
        },
        Opcode::Jnc => {
            reveal_with_fuel(first_spelled, 20);
            assert(mnemonic_op(op.name()) == Some(op));
        },
        Opcode::Jge => {
            reveal_with_fuel(first_spelled, 21);
            assert(mnemonic_op(op.name()) == Some(op));
        },
        Opcode::Jl => {
            reveal_with_fuel(first_spelled, 22);
            assert(mnemonic_op(op.name()) == Some(op));
        },
        Opcode::Scf => {
            reveal_with_fuel(first_spelled, 23);
            assert(mnemonic_op(op.name()) == Some(op));
        },
        Opcode::Ccf => {
            reveal_with_fuel(first_spelled, 24);
            assert(mnemonic_op(op.name()) == Some(op));
        },
    }
}

/// Whether `p` occurs in `s` starting at `i`.
pub open spec fn occurs_at(s: Seq<char>, i: int, p: Seq<char>) -> bool {
    0 <= i && i + p.len() <= s.len() && s.subrange(i, i + p.len()) == p
}

/// In `u + p + t`, where no occurrence of `p` starts inside `u`, the `p`
/// after `u` is replaced by `r` and `u` is kept as it is.
pub proof fn occurrence_after_clean_prefix(u: Seq<char>, p: Seq<char>, r: Seq<char>, t: Seq<char>)
    requires
        p.len() > 0,
        forall|i: int| 0 <= i < u.len() ==> !occurs_at(u + p + t, i, p),
    ensures
        replace_all(u + p + t, p, r) == u + r + replace_all(t, p, r),
    decreases u.len(),
{
    let s = u + p + t;
    if u.len() == 0 {
        assert(s =~= p + t);
        assert(s.subrange(0, p.len() as int) =~= p);
        assert(s.subrange(p.len() as int, s.len() as int) =~= t);
        assert(u + r + replace_all(t, p, r) =~= r + replace_all(t, p, r));
    } else {
        let u1 = u.drop_first();
        assert(!occurs_at(s, 0, p));
        assert forall|i: int| 0 <= i < u1.len() implies !occurs_at(u1 + p + t, i, p) by {
            assert(!occurs_at(s, i + 1, p));
            if i + p.len() <= (u1 + p + t).len() {
                assert((u1 + p + t).subrange(i, i + p.len()) =~= s.subrange(i + 1, i + 1 + p.len()));
            }
        }
        occurrence_after_clean_prefix(u1, p, r, t);
        assert(s.drop_first() =~= u1 + p + t);
        assert(u + r + replace_all(t, p, r) =~= seq![s[0]] + (u1 + r + replace_all(t, p, r)));
    }
}

/// A label name used before and after its definition becomes the same text
/// at both places: in `u + p + w + p + v`, where no other occurrence of `p`
/// starts inside `u` or `w`, both occurrences are replaced by `r`.
pub proof fn references_resolve_alike(
    u: Seq<char>,
    p: Seq<char>,
    w: Seq<char>,
    v: Seq<char>,
    r: Seq<char>,
)
    requires
        p.len() > 0,
        forall|i: int| 0 <= i < u.len() ==> !occurs_at(u + p + w + p + v, i, p),
        forall|i: int| 0 <= i < w.len() ==> !occurs_at(w + p + v, i, p),
    ensures
        replace_all(u + p + w + p + v, p, r) == u + r + w + r + replace_all(v, p, r),
{
    let t = w + p + v;
    assert(u + p + w + p + v =~= u + p + t);
    occurrence_after_clean_prefix(u, p, r, t);
    occurrence_after_clean_prefix(w, p, r, v);
    assert(u + r + (w + r + replace_all(v, p, r)) =~= u + r + w + r + replace_all(v, p, r));
}

/// Pass one reads only the label and the mnemonic of each line: two
/// programs that agree on those, line by line, give the same label table
/// wherever the labels are referenced, before or after their definition.
pub proof fn labels_ignore_references(
    ls1: Seq<Seq<char>>,
    ls2: Seq<Seq<char>>,
    i: nat,
    addr: nat,
    labels: Seq<(Seq<char>, nat)>,
)
    requires
        ls1.len() == ls2.len(),
        forall|k: int|
            0 <= k < ls1.len() ==> label_of(#[trigger] ls1[k]) == label_of(ls2[k]) && (
            instr_words(ls1[k]).len() == 0) == (instr_words(ls2[k]).len() == 0) && (
            instr_words(ls1[k]).len() > 0 ==> mnemonic_op(instr_words(ls1[k])[0]) == mnemonic_op(
                instr_words(ls2[k])[0],
            )),
    ensures
        collect_labels(ls1, i, addr, labels) == collect_labels(ls2, i, addr, labels),
    decreases ls1.len() - i,
{
    if i < ls1.len() {
        let l1 = ls1[i as int];
        let l2 = ls2[i as int];
        assert(label_of(l1) == label_of(l2));
        let found = match label_of(l1) {
            Some(n) => if n.len() > 0 { labels.push((n, addr)) } else { labels },
            None => labels,
        };
        if instr_words(l1).len() == 0 {
            labels_ignore_references(ls1, ls2, i + 1, addr, found);
        } else {
            match mnemonic_op(instr_words(l1)[0]) {
                None => {},
                Some(op) => {
                    labels_ignore_references(ls1, ls2, i + 1, addr + op.size(), found);
                },
            }
        }
    }
}

} // verus!
