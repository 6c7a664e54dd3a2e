//! Character-level text handling for the assembler: lines, words,
//! hexadecimal numbers, and textual substitution.
use vstd::prelude::*;

verus! {

/// The character sequences held by a vector of character vectors.
pub open spec fn deep(v: Seq<Vec<char>>) -> Seq<Seq<char>> {
    v.map_values(|x: Vec<char>| x@)
}

/// `s` cut at every `sep`; two adjacent separators leave an empty piece.
pub open spec fn split(s: Seq<char>, sep: char) -> Seq<Seq<char>>
    decreases s.len(),
{
    if s.len() == 0 {
        seq![Seq::<char>::empty()]
    } else {
        let r = split(s.drop_last(), sep);
        if s.last() == sep {
            r.push(Seq::<char>::empty())
        } else {
            r.update(r.len() - 1, r.last().push(s.last()))
        }
    }
}

pub proof fn lemma_split_len(s: Seq<char>, sep: char)
    ensures
        1 <= split(s, sep).len() <= s.len() + 1,
    decreases s.len(),
{
    if s.len() > 0 {
        lemma_split_len(s.drop_last(), sep);
    }
}

/// Characters that separate words on a line.
pub open spec fn is_blank(c: char) -> bool {
    c == ' ' || c == '\t' || c == '\r'
}

/// The words completed so far, and the word in progress, after reading `s`.
pub open spec fn word_split(s: Seq<char>) -> (Seq<Seq<char>>, Seq<char>)
    decreases s.len(),
{
    if s.len() == 0 {
        (Seq::<Seq<char>>::empty(), Seq::<char>::empty())
    } else {
        let p = word_split(s.drop_last());
        if is_blank(s.last()) {
            (if p.1.len() > 0 { p.0.push(p.1) } else { p.0 }, Seq::<char>::empty())
        } else {
            (p.0, p.1.push(s.last()))
        }
    }
}

/// The non-empty runs of non-blank characters of `s`, in order.
pub open spec fn words(s: Seq<char>) -> Seq<Seq<char>> {
    let p = word_split(s);
    if p.1.len() > 0 { p.0.push(p.1) } else { p.0 }
}

pub open spec fn is_hex_digit(c: char) -> bool {
    ('0' <= c && c <= '9') || ('a' <= c && c <= 'f') || ('A' <= c && c <= 'F')
}

pub open spec fn digit_value(c: char) -> int {
    if '0' <= c && c <= '9' {
        c as int - '0' as int
    } else if 'a' <= c && c <= 'f' {
        c as int - 'a' as int + 10
    } else {
        c as int - 'A' as int + 10
    }
}

/// The number that the hexadecimal digits `w` spell, most significant first.
pub open spec fn hex_value(w: Seq<char>) -> int
    decreases w.len(),
{
    if w.len() == 0 {
        0
    } else {
        hex_value(w.drop_last()) * 16 + digit_value(w.last())
    }
}

/// `w` read as a hexadecimal number that fits in sixteen bits: one or more
/// digits of either case, no sign or prefix.
pub open spec fn parse_hex(w: Seq<char>) -> Option<u16> {
    if w.len() > 0 && (forall|i: int| 0 <= i < w.len() ==> is_hex_digit(#[trigger] w[i]))
        && hex_value(w) <= 0xFFFF {
        Some(hex_value(w) as u16)
    } else {
        None
    }
}

/// The lower-case hexadecimal digit for `d < 16`.
pub open spec fn hex_char(d: int) -> char {
    seq!['0', '1', '2', '3', '4', '5', '6', '7', '8', '9', 'a', 'b', 'c', 'd', 'e', 'f'][d]
}

/// `n` in lower-case hexadecimal, padded with zeros to at least `width`
/// digits.
pub open spec fn hex_text(n: nat, width: nat) -> Seq<char>
    decreases n, width,
{
    if n == 0 && width == 0 {
        Seq::<char>::empty()
    } else {
        hex_text(n / 16, if width > 0 { (width - 1) as nat } else { 0 }).push(hex_char((n % 16) as int))
    }
}

/// `s` with every occurrence of `p` replaced by `r`, scanning from the
/// front and resuming after each replaced occurrence. An empty `p` replaces
/// nothing.
pub open spec fn replace_all(s: Seq<char>, p: Seq<char>, r: Seq<char>) -> Seq<char>
    decreases s.len(),
{
    if s.len() == 0 {
        s
    } else if p.len() > 0 && p.len() <= s.len() && s.subrange(0, p.len() as int) == p {
        r + replace_all(s.subrange(p.len() as int, s.len() as int), p, r)
    } else {
        seq![s[0]] + replace_all(s.drop_first(), p, r)
    }
}

/// The characters of `s`.
pub fn chars_of(s: &str) -> (r: Vec<char>)
    ensures
        r@ == s@,
{
    let n = s.unicode_len();
    let mut r: Vec<char> = Vec::new();
    let mut i: usize = 0;
    while i < n
        invariant
            n == s@.len(),
            i <= n,
            r@ == s@.subrange(0, i as int),
        decreases n - i,
    {
        r.push(s.get_char(i));
        i = i + 1;
    }
    assert(r@ =~= s@);
    r
}

/// Cuts `s` at every `sep`.
pub fn split_chars(s: &Vec<char>, sep: char) -> (r: Vec<Vec<char>>)
    ensures
        deep(r@) == split(s@, sep),
        r@.len() <= s@.len() + 1,
{
    let mut parts: Vec<Vec<char>> = Vec::new();
    let mut cur: Vec<char> = Vec::new();
    let mut i: usize = 0;
    while i < s.len()
        invariant
            i <= s@.len(),
            deep(parts@).push(cur@) == split(s@.subrange(0, i as int), sep),
            parts@.len() <= i,
        decreases s@.len() - i,
    {
        let ghost pre = s@.subrange(0, i as int);
        let ghost next = s@.subrange(0, i + 1);
        assert(next.drop_last() =~= pre);
        proof {
            lemma_split_len(pre, sep);
        }
        let c = s[i];
        if c == sep {
            parts.push(cur);
            cur = Vec::new();
            assert(deep(parts@).push(cur@) =~= split(next, sep));
        } else {
            cur.push(c);
            assert(deep(parts@).push(cur@) =~= split(next, sep));
        }
        i = i + 1;
    }
    assert(s@.subrange(0, s@.len() as int) =~= s@);
    parts.push(cur);
    assert(deep(parts@) =~= split(s@, sep));
    parts
}

/// The words of `s`.
pub fn words_of(s: &Vec<char>) -> (r: Vec<Vec<char>>)
    ensures
        deep(r@) == words(s@),
{
    let mut ws: Vec<Vec<char>> = Vec::new();
    let mut cur: Vec<char> = Vec::new();
    let mut i: usize = 0;
    while i < s.len()
        invariant
            i <= s@.len(),
            deep(ws@) == word_split(s@.subrange(0, i as int)).0,
            cur@ == word_split(s@.subrange(0, i as int)).1,
        decreases s@.len() - i,
    {
        let ghost pre = s@.subrange(0, i as int);
        let ghost next = s@.subrange(0, i + 1);
        assert(next.drop_last() =~= pre);
        let c = s[i];
        if c == ' ' || c == '\t' || c == '\r' {
            if cur.len() > 0 {
                ws.push(cur);
                assert(deep(ws@) =~= word_split(next).0);
            }
            cur = Vec::new();
        } else {
            cur.push(c);
        }
        assert(cur@ =~= word_split(next).1);
        i = i + 1;
    }
    assert(s@.subrange(0, s@.len() as int) =~= s@);
    if cur.len() > 0 {
        ws.push(cur);
        assert(deep(ws@) =~= words(s@));
    }
    ws
}

/// Reads `w` as a hexadecimal number of sixteen bits.
pub fn parse_hex_word(w: &Vec<char>) -> (r: Option<u16>)
    ensures
        r == parse_hex(w@),
{
    if w.len() == 0 {
        return None;
    }
    // the value read so far, held at 0x10000 once it is larger than that
    let mut acc: u32 = 0;
    let mut i: usize = 0;
    while i < w.len()
        invariant
            i <= w@.len(),
            forall|j: int| 0 <= j < i ==> is_hex_digit(#[trigger] w@[j]),
            acc as int == if hex_value(w@.subrange(0, i as int)) <= 0x10000 {
                hex_value(w@.subrange(0, i as int))
            } else {
                0x10000
            },
        decreases w@.len() - i,
    {
        let c = w[i];
        let d: u32 = if '0' <= c && c <= '9' {
            c as u32 - '0' as u32
        } else if 'a' <= c && c <= 'f' {
            c as u32 - 'a' as u32 + 10
        } else if 'A' <= c && c <= 'F' {
            c as u32 - 'A' as u32 + 10
        } else {
            return None;
        };
        let ghost next = w@.subrange(0, i + 1);
        assert(next.drop_last() =~= w@.subrange(0, i as int));
        assert(hex_value(next) == hex_value(w@.subrange(0, i as int)) * 16 + d);
        let v = acc * 16 + d;
        acc = if v > 0x10000 { 0x10000 } else { v };
        i = i + 1;
    }
    assert(w@.subrange(0, w@.len() as int) =~= w@);
    if acc > 0xFFFF {
        None
    } else {
        Some(acc as u16)
    }
}

fn hex_digit_char(d: usize) -> (r: char)
    requires
        d < 16,
    ensures
        r == hex_char(d as int),
{
    let r = match d {
        0 => '0',
        1 => '1',
        2 => '2',
        3 => '3',
        4 => '4',
        5 => '5',
        6 => '6',
        7 => '7',
        8 => '8',
        9 => '9',
        10 => 'a',
        11 => 'b',
        12 => 'c',
        13 => 'd',
        14 => 'e',
        _ => 'f',
    };
    r
}

/// `n` in lower-case hexadecimal with at least `width` digits.
pub fn format_hex(n: usize, width: usize) -> (r: Vec<char>)
    ensures
        r@ == hex_text(n as nat, width as nat),
    decreases n, width,
{
    if n == 0 && width == 0 {
        Vec::new()
    } else {
        let w = if width > 0 { width - 1 } else { 0 };
        let mut r = format_hex(n / 16, w);
        r.push(hex_digit_char(n % 16));
        r
    }
}

/// Whether `p` occurs in `s` at position `i`.
fn occurs_at(s: &Vec<char>, i: usize, p: &Vec<char>) -> (r: bool)
    requires
        i <= s@.len(),
    ensures
        r == (i + p@.len() <= s@.len() && s@.subrange(i as int, i + p@.len()) == p@),
{
    let n = s.len();
    if p.len() > n - i {
        return false;
    }
    let mut j: usize = 0;
    while j < p.len()
        invariant
            n == s@.len(),
            i + p@.len() <= n,
            j <= p@.len(),
            forall|k: int| 0 <= k < j ==> s@[i + k] == p@[k],
        decreases p@.len() - j,
    {
        if s[i + j] != p[j] {
            assert(s@.subrange(i as int, i + p@.len())[j as int] != p@[j as int]);
            return false;
        }
        j = j + 1;
    }
    assert(s@.subrange(i as int, i + p@.len()) =~= p@);
    true
}

fn append_chars(out: &mut Vec<char>, r: &Vec<char>)
    ensures
        final(out)@ == old(out)@ + r@,
{
    let ghost start = out@;
    let mut j: usize = 0;
    while j < r.len()
        invariant
            j <= r@.len(),
            out@ == start + r@.subrange(0, j as int),
        decreases r@.len() - j,
    {
        out.push(r[j]);
        j = j + 1;
        assert(out@ =~= start + r@.subrange(0, j as int));
    }
    assert(r@.subrange(0, r@.len() as int) =~= r@);
}

/// `s` with every occurrence of `p` replaced by `r`.
pub fn replace_chars(s: &Vec<char>, p: &Vec<char>, r: &Vec<char>) -> (out: Vec<char>)
    ensures
        out@ == replace_all(s@, p@, r@),
{
    let mut out: Vec<char> = Vec::new();
    let mut i: usize = 0;
    let n = s.len();
    assert(s@.subrange(0, n as int) =~= s@);
    while i < n
        invariant
            n == s@.len(),
            i <= n,
            out@ + replace_all(s@.subrange(i as int, n as int), p@, r@) == replace_all(
                s@,
                p@,
                r@,
            ),
        decreases n - i,
    {
        let ghost rest = s@.subrange(i as int, n as int);
        let ghost before = out@;
        if p.len() > 0 && occurs_at(s, i, p) {
            assert(rest.subrange(0, p@.len() as int) =~= s@.subrange(i as int, i + p@.len()));
            assert(rest.subrange(p@.len() as int, rest.len() as int) =~= s@.subrange(
                i + p@.len(),
                n as int,
            ));
            append_chars(&mut out, r);
            i = i + p.len();
            assert(out@ + replace_all(s@.subrange(i as int, n as int), p@, r@) =~= before + (r@
                + replace_all(s@.subrange(i as int, n as int), p@, r@)));
        } else {
            assert(!(p@.len() > 0 && p@.len() <= rest.len() && rest.subrange(0, p@.len() as int)
                == p@)) by {
                if p@.len() > 0 && p@.len() <= rest.len() {
                    assert(rest.subrange(0, p@.len() as int) =~= s@.subrange(
                        i as int,
                        i + p@.len(),
                    ));
                }
            }
            assert(rest.drop_first() =~= s@.subrange(i + 1, n as int));
            out.push(s[i]);
            i = i + 1;
            assert(out@ + replace_all(s@.subrange(i as int, n as int), p@, r@) =~= before + (seq![
                rest[0],
            ] + replace_all(s@.subrange(i as int, n as int), p@, r@)));
        }
    }
    assert(out@ =~= replace_all(s@, p@, r@));
    out
}

} // verus!
