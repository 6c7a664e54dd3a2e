//! The two-pass assembler. Pass one sizes each line and records where each
//! label lands; the label names and the register tokens are then replaced
//! in the text; pass two encodes each line into bytes.
use vstd::prelude::*;
use crate::isa::{Layout, Opcode};
use crate::text::{
    chars_of, deep, format_hex, hex_text, parse_hex, parse_hex_word, replace_all, replace_chars,
    split, split_chars, words, words_of,
};

verus! {

/// Why a program failed to assemble; `line` counts from one.
#[derive(PartialEq, Eq, Structural, Clone, Copy, Debug)]
pub enum AsmError {
    /// An operand is not a hexadecimal number of at most sixteen bits, or
    /// one is missing.
    MalformedOperand { line: usize },
    /// The first word of an instruction names no instruction.
    UnknownMnemonic { line: usize },
}

/// Every opcode, in table order.
pub open spec fn all_opcodes() -> Seq<Opcode> {
    seq![
        Opcode::Nop, Opcode::Hlt, Opcode::Mov, Opcode::Lod, Opcode::Sto, Opcode::Ldr,
        Opcode::Str, Opcode::Swp, Opcode::Ldi, Opcode::Add, Opcode::Sub, Opcode::Mul,
        Opcode::Div, Opcode::Mod, Opcode::Jmp, Opcode::Jz, Opcode::Jnz, Opcode::Jc,
        Opcode::Jnc, Opcode::Jge, Opcode::Jl, Opcode::Scf, Opcode::Ccf,
    ]
}

/// Whether `w` spells the upper-case `name` in any mix of letter case.
pub open spec fn spells(w: Seq<char>, name: Seq<char>) -> bool {
    w.len() == name.len() && forall|i: int|
        0 <= i < w.len() ==> (#[trigger] w[i] == name[i] || w[i] as u32 == name[i] as u32 + 32)
}

pub open spec fn first_spelled(w: Seq<char>, ops: Seq<Opcode>) -> Option<Opcode>
    decreases ops.len(),
{
    if ops.len() == 0 {
        None
    } else if spells(w, ops[0].name()) {
        Some(ops[0])
    } else {
        first_spelled(w, ops.drop_first())
    }
}

/// The instruction that the word `w` names; mnemonics are distinct, so at
/// most one matches.
pub open spec fn mnemonic_op(w: Seq<char>) -> Option<Opcode> {
    first_spelled(w, all_opcodes())
}

pub open spec fn is_label(w: Seq<char>) -> bool {
    w.len() > 0 && w.last() == ':'
}

/// The label that a line defines, if its first word ends in a colon.
pub open spec fn label_of(l: Seq<char>) -> Option<Seq<char>> {
    let ws = words(l);
    if ws.len() > 0 && is_label(ws[0]) {
        Some(ws[0].drop_last())
    } else {
        None
    }
}

/// The words of a line after any label: mnemonic, then operands.
pub open spec fn instr_words(l: Seq<char>) -> Seq<Seq<char>> {
    let ws = words(l);
    if ws.len() > 0 && is_label(ws[0]) {
        ws.drop_first()
    } else {
        ws
    }
}

pub open spec fn lines(s: Seq<char>) -> Seq<Seq<char>> {
    split(s, '\n')
}

/// Pass one from line `i` on, at address `addr`, with the labels found so
/// far: each label binds to the address of the next instruction; a label
/// with an empty name binds nothing.
pub open spec fn collect_labels(
    ls: Seq<Seq<char>>,
    i: nat,
    addr: nat,
    labels: Seq<(Seq<char>, nat)>,
) -> Result<Seq<(Seq<char>, nat)>, AsmError>
    decreases ls.len() - i,
{
    if i >= ls.len() {
        Ok(labels)
    } else {
        let l = ls[i as int];
        let found = match label_of(l) {
            Some(n) => if n.len() > 0 { labels.push((n, addr)) } else { labels },
            None => labels,
        };
        let ws = instr_words(l);
        if ws.len() == 0 {
            collect_labels(ls, i + 1, addr, found)
        } else {
            match mnemonic_op(ws[0]) {
                None => Err(AsmError::UnknownMnemonic { line: (i + 1) as usize }),
                Some(op) => collect_labels(ls, i + 1, addr + op.size(), found),
            }
        }
    }
}

/// Replaces each label name, from the `i`-th on, by its address in four or
/// more hexadecimal digits.
pub open spec fn substitute(s: Seq<char>, labels: Seq<(Seq<char>, nat)>, i: nat) -> Seq<char>
    decreases labels.len() - i,
{
    if i >= labels.len() {
        s
    } else {
        substitute(
            replace_all(s, labels[i as int].0, hex_text(labels[i as int].1, 4)),
            labels,
            i + 1,
        )
    }
}

/// The text after label substitution and then `x` to `00`, `y` to `01`.
pub open spec fn resolve(s: Seq<char>, labels: Seq<(Seq<char>, nat)>) -> Seq<char> {
    replace_all(
        replace_all(substitute(s, labels, 0), seq!['x'], seq!['0', '0']),
        seq!['y'],
        seq!['0', '1'],
    )
}

/// How many operands an instruction of this layout reads.
pub open spec fn arity(l: Layout) -> nat {
    match l {
        Layout::Bare => 0,
        Layout::Reg | Layout::Addr => 1,
        Layout::RegAddr | Layout::RegImm => 2,
    }
}

pub open spec fn operands_ok(ws: Seq<Seq<char>>) -> bool {
    forall|j: int| 0 <= j < ws.len() ==> (#[trigger] parse_hex(ws[j])) is Some
}

pub open spec fn operand_values(ws: Seq<Seq<char>>) -> Seq<u16> {
    ws.map_values(|w: Seq<char>| parse_hex(w)->0)
}

pub open spec fn lo(w: u16) -> u8 {
    (w % 256) as u8
}

pub open spec fn hi(w: u16) -> u8 {
    (w / 256) as u8
}

/// The bytes of one instruction: the opcode, a selector as its low byte,
/// sixteen-bit operands high byte first.
pub open spec fn encode(op: Opcode, a: Seq<u16>) -> Seq<u8> {
    match op.layout_of() {
        Layout::Bare => seq![op.code()],
        Layout::Reg => seq![op.code(), lo(a[0])],
        Layout::RegAddr | Layout::RegImm => seq![op.code(), lo(a[0]), hi(a[1]), lo(a[1])],
        Layout::Addr => seq![op.code(), hi(a[0]), lo(a[0])],
    }
}

/// Pass two from line `i` on, with `out` encoded so far.
pub open spec fn encode_lines(ls: Seq<Seq<char>>, i: nat, out: Seq<u8>) -> Result<Seq<u8>, AsmError>
    decreases ls.len() - i,
{
    if i >= ls.len() {
        Ok(out)
    } else {
        let ws = instr_words(ls[i as int]);
        if ws.len() == 0 {
            encode_lines(ls, i + 1, out)
        } else {
            match mnemonic_op(ws[0]) {
                None => Err(AsmError::UnknownMnemonic { line: (i + 1) as usize }),
                Some(op) => {
                    let args = ws.drop_first();
                    if !operands_ok(args) || args.len() < arity(op.layout_of()) {
                        Err(AsmError::MalformedOperand { line: (i + 1) as usize })
                    } else {
                        encode_lines(ls, i + 1, out + encode(op, operand_values(args)))
                    }
                }
            }
        }
    }
}

/// The bytes that the program text `s` assembles to, or the first error.
pub open spec fn assembled(s: Seq<char>) -> Result<Seq<u8>, AsmError> {
    match collect_labels(lines(s), 0, 0, Seq::empty()) {
        Err(e) => Err(e),
        Ok(labels) => encode_lines(lines(resolve(s, labels)), 0, Seq::empty()),
    }
}

pub open spec fn label_view(v: Seq<(Vec<char>, usize)>) -> Seq<(Seq<char>, nat)> {
    v.map_values(|p: (Vec<char>, usize)| (p.0@, p.1 as nat))
}

/// The first `k` characters of `w`, as a new vector.
fn prefix(w: &Vec<char>, k: usize) -> (r: Vec<char>)
    requires
        k <= w@.len(),
    ensures
        r@ == w@.subrange(0, k as int),
{
    let mut r: Vec<char> = Vec::new();
    let mut j: usize = 0;
    while j < k
        invariant
            k <= w@.len(),
            j <= k,
            r@ == w@.subrange(0, j as int),
        decreases k - j,
    {
        r.push(w[j]);
        j = j + 1;
        assert(r@ =~= w@.subrange(0, j as int));
    }
    r
}

fn spells_name(w: &Vec<char>, name: &str) -> (r: bool)
    ensures
        r == spells(w@, name@),
{
    let n = name.unicode_len();
    if w.len() != n {
        return false;
    }
    let mut j: usize = 0;
    while j < n
        invariant
            n == name@.len(),
            n == w@.len(),
            j <= n,
            forall|i: int|
                0 <= i < j ==> (#[trigger] w@[i] == name@[i] || w@[i] as u32 == name@[i] as u32
                    + 32),
        decreases n - j,
    {
        let c = w[j];
        let u = name.get_char(j);
        if !(c == u || c as u32 == u as u32 + 32) {
            return false;
        }
        j = j + 1;
    }
    true
}

/// The instruction that the word `w` names, in any letter case.
pub fn parse_mnemonic(w: &Vec<char>) -> (r: Option<Opcode>)
    ensures
        r == mnemonic_op(w@),
{
    let ops: Vec<Opcode> = vec![
        Opcode::Nop, Opcode::Hlt, Opcode::Mov, Opcode::Lod, Opcode::Sto, Opcode::Ldr,
        Opcode::Str, Opcode::Swp, Opcode::Ldi, Opcode::Add, Opcode::Sub, Opcode::Mul,
        Opcode::Div, Opcode::Mod, Opcode::Jmp, Opcode::Jz, Opcode::Jnz, Opcode::Jc,
        Opcode::Jnc, Opcode::Jge, Opcode::Jl, Opcode::Scf, Opcode::Ccf,
    ];
    assert(ops@ =~= all_opcodes());
    let n = ops.len();
    let mut i: usize = 0;
    assert(ops@.subrange(0, n as int) =~= ops@);
    while i < n
        invariant
            n == ops@.len(),
            i <= n,
            first_spelled(w@, ops@.subrange(i as int, n as int)) == mnemonic_op(w@),
        decreases n - i,
    {
        let op = ops[i];
        let ghost rest = ops@.subrange(i as int, n as int);
        if spells_name(w, op.mnemonic()) {
            return Some(op);
        }
        assert(rest.drop_first() =~= ops@.subrange(i + 1, n as int));
        i = i + 1;
    }
    None
}

/// The words of a line, and whether the first of them is a label.
fn line_words(l: &Vec<char>) -> (r: (Vec<Vec<char>>, bool))
    ensures
        deep(r.0@) == words(l@),
        r.1 == (words(l@).len() > 0 && is_label(words(l@)[0])),
{
    let ws = words_of(l);
    let labelled = ws.len() > 0 && ws[0].len() > 0 && ws[0][ws[0].len() - 1] == ':';
    proof {
        if ws@.len() > 0 {
            assert(deep(ws@)[0] == ws@[0]@);
        }
    }
    (ws, labelled)
}

/// Pass one: the labels with their addresses.
fn label_table(ls: &Vec<Vec<char>>) -> (r: Result<Vec<(Vec<char>, usize)>, AsmError>)
    requires
        4 * ls@.len() <= usize::MAX,
    ensures
        r is Ok <==> collect_labels(deep(ls@), 0, 0, Seq::empty()) is Ok,
        r is Ok ==> label_view(r->Ok_0@) == collect_labels(deep(ls@), 0, 0, Seq::empty())->Ok_0,
        r is Err ==> r->Err_0 == collect_labels(deep(ls@), 0, 0, Seq::empty())->Err_0,
{
    let ghost ds = deep(ls@);
    let mut labels: Vec<(Vec<char>, usize)> = Vec::new();
    let mut addr: usize = 0;
    let mut i: usize = 0;
    assert(label_view(labels@) =~= Seq::<(Seq<char>, nat)>::empty());
    while i < ls.len()
        invariant
            4 * ls@.len() <= usize::MAX,
            ds == deep(ls@),
            i <= ls@.len(),
            addr <= 4 * i,
            collect_labels(ds, i as nat, addr as nat, label_view(labels@)) == collect_labels(
                ds,
                0,
                0,
                Seq::empty(),
            ),
        decreases ls@.len() - i,
    {
        let ghost before = label_view(labels@);
        let (ws, labelled) = line_words(&ls[i]);
        assert(ds[i as int] == ls@[i as int]@);
        if labelled {
            let name = prefix(&ws[0], ws[0].len() - 1);
            assert(deep(ws@)[0] == ws@[0]@);
            assert(name@ =~= ws@[0]@.drop_last());
            if name.len() > 0 {
                labels.push((name, addr));
                assert(label_view(labels@) =~= before.push((name@, addr as nat)));
            }
        }
        let first: usize = if labelled { 1 } else { 0 };
        if ws.len() > first {
            assert(deep(ws@)[first as int] == ws@[first as int]@);
            match parse_mnemonic(&ws[first]) {
                None => {
                    return Err(AsmError::UnknownMnemonic { line: i + 1 });
                },
                Some(op) => {
                    addr = addr + op.len();
                },
            }
        }
        i = i + 1;
    }
    Ok(labels)
}

/// Pass two: the bytes of every line.
fn encode_all(ls: &Vec<Vec<char>>) -> (r: Result<Vec<u8>, AsmError>)
    ensures
        r is Ok <==> encode_lines(deep(ls@), 0, Seq::empty()) is Ok,
        r is Ok ==> r->Ok_0@ == encode_lines(deep(ls@), 0, Seq::empty())->Ok_0,
        r is Err ==> r->Err_0 == encode_lines(deep(ls@), 0, Seq::empty())->Err_0,
{
    let ghost ds = deep(ls@);
    let mut out: Vec<u8> = Vec::new();
    let mut i: usize = 0;
    while i < ls.len()
        invariant
            ds == deep(ls@),
            i <= ls@.len(),
            encode_lines(ds, i as nat, out@) == encode_lines(ds, 0, Seq::empty()),
        decreases ls@.len() - i,
    {
        let (ws, labelled) = line_words(&ls[i]);
        assert(ds[i as int] == ls@[i as int]@);
        let first: usize = if labelled { 1 } else { 0 };
        let ghost iw = instr_words(ds[i as int]);
        assert(iw =~= deep(ws@).subrange(first as int, ws@.len() as int));
        if ws.len() > first {
            assert(deep(ws@)[first as int] == ws@[first as int]@);
            let op = match parse_mnemonic(&ws[first]) {
                None => {
                    return Err(AsmError::UnknownMnemonic { line: i + 1 });
                },
                Some(op) => op,
            };
            let ghost args = iw.drop_first();
            let line = i + 1;
            let mut vals: Vec<u16> = Vec::new();
            let mut j: usize = first + 1;
            while j < ws.len()
                invariant
                    ds == deep(ls@),
                    i < ls@.len(),
                    line == i + 1,
                    encode_lines(ds, i as nat, out@) == encode_lines(ds, 0, Seq::empty()),
                    iw == instr_words(ds[i as int]),
                    iw == deep(ws@).subrange(first as int, ws@.len() as int),
                    ws@.len() > first,
                    mnemonic_op(iw[0]) == Some(op),
                    args == iw.drop_first(),
                    first + 1 <= j <= ws@.len(),
                    args == deep(ws@).subrange(first + 1, ws@.len() as int),
                    vals@.len() == j - first - 1,
                    forall|k: int|
                        0 <= k < vals@.len() ==> parse_hex(#[trigger] args[k]) == Some(vals@[k]),
                decreases ws@.len() - j,
            {
                assert(args[j - first - 1] == ws@[j as int]@);
                match parse_hex_word(&ws[j]) {
                    None => {
                        assert(!operands_ok(args));
                        return Err(AsmError::MalformedOperand { line });
                    },
                    Some(v) => {
                        vals.push(v);
                    },
                }
                j = j + 1;
            }
            assert(operands_ok(args));
            assert(vals@ =~= operand_values(args));
            let code = op.byte();
            let ghost before = out@;
            match op.layout() {
                Layout::Bare => {
                    out.push(code);
                },
                Layout::Reg => {
                    if vals.len() < 1 {
                        return Err(AsmError::MalformedOperand { line: i + 1 });
                    }
                    out.push(code);
                    out.push((vals[0] % 256) as u8);
                },
                Layout::RegAddr | Layout::RegImm => {
                    if vals.len() < 2 {
                        return Err(AsmError::MalformedOperand { line: i + 1 });
                    }
                    out.push(code);
                    out.push((vals[0] % 256) as u8);
                    out.push((vals[1] / 256) as u8);
                    out.push((vals[1] % 256) as u8);
                },
                Layout::Addr => {
                    if vals.len() < 1 {
                        return Err(AsmError::MalformedOperand { line: i + 1 });
                    }
                    out.push(code);
                    out.push((vals[0] / 256) as u8);
                    out.push((vals[0] % 256) as u8);
                },
            }
            assert(out@ =~= before + encode(op, operand_values(args)));
        }
        i = i + 1;
    }
    Ok(out)
}

/// Assembles program text into bytes to be loaded at address zero.
/// Mnemonics are matched in any letter case; words are separated by
/// blanks; `name:` before an instruction, or alone on a line, binds `name`
/// to the address of the next instruction. Label names are then replaced
/// throughout the text by their four-digit hexadecimal address, and the
/// letters `x` and `y` by `00` and `01`. An unknown mnemonic, or an operand
/// that is missing or no hexadecimal number of sixteen bits, fails the
/// whole program with the number of the line.
pub fn assemble(src: &str) -> (r: Result<Vec<u8>, AsmError>)
    requires
        4 * (src@.len() + 1) <= usize::MAX,
    ensures
        r is Ok <==> assembled(src@) is Ok,
        r is Ok ==> r->Ok_0@ == assembled(src@)->Ok_0,
        r is Err ==> r->Err_0 == assembled(src@)->Err_0,
{
    let text = chars_of(src);
    let ls = split_chars(&text, '\n');
    let labels = match label_table(&ls) {
        Ok(t) => t,
        Err(e) => return Err(e),
    };
    let ghost table = label_view(labels@);
    let mut resolved = text;
    let mut k: usize = 0;
    while k < labels.len()
        invariant
            table == label_view(labels@),
            k <= labels@.len(),
            substitute(resolved@, table, k as nat) == substitute(src@, table, 0),
        decreases labels@.len() - k,
    {
        let addr_text = format_hex(labels[k].1, 4);
        resolved = replace_chars(&resolved, &labels[k].0, &addr_text);
        k = k + 1;
    }
    let xs: Vec<char> = vec!['x'];
    let ys: Vec<char> = vec!['y'];
    let x_code: Vec<char> = vec!['0', '0'];
    let y_code: Vec<char> = vec!['0', '1'];
    assert(xs@ =~= seq!['x']);
    assert(ys@ =~= seq!['y']);
    assert(x_code@ =~= seq!['0', '0']);
    assert(y_code@ =~= seq!['0', '1']);
    let resolved = replace_chars(&resolved, &xs, &x_code);
    let resolved = replace_chars(&resolved, &ys, &y_code);
    assert(resolved@ == resolve(src@, table));
    let ls2 = split_chars(&resolved, '\n');
    encode_all(&ls2)
}

} // verus!
