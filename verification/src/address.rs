//! IPv6 host addresses: their text (std `Display`) and how std reads them, with the
//! bracketed socket-address form `[v6%zone]:port` that discovery accepts.

use vstd::prelude::*;

use crate::device::{ipv4_text, ipv6_of, Ipv4, Ipv6};
use crate::discovery::{octet_v, port_v};
use crate::text::{all_digits, digits_val, push_dec, sub_chars};

verus! {

// ----- text -------------------------------------------------------------------------

/// The lowercase hex digit of `d < 16`.
pub open spec fn hex_char(d: nat) -> char {
    if d < 10 {
        (48 + d) as char
    } else {
        (87 + d) as char
    }
}

/// Lowercase hex rendering of `n` without leading zeros (std `{:x}`).
pub open spec fn hex_text(n: nat) -> Seq<char>
    decreases n,
{
    if n < 16 {
        seq![hex_char(n)]
    } else {
        hex_text(n / 16).push(hex_char(n % 16))
    }
}

/// Segments in hex, separated by `:`.
pub open spec fn groups_text(g: Seq<u16>) -> Seq<char>
    decreases g.len(),
{
    if g.len() == 0 {
        Seq::empty()
    } else if g.len() == 1 {
        hex_text(g[0] as nat)
    } else {
        groups_text(g.drop_last()) + seq![':'] + hex_text(g.last() as nat)
    }
}

/// The longest run of zero segments from index `i` on, as `(start, length)`, given
/// the run `cur` in progress and the longest `best` so far (the first of equal runs).
pub open spec fn span_from(g: Seq<u16>, i: nat, cur: (nat, nat), best: (nat, nat)) -> (nat, nat)
    decreases g.len() - i,
{
    if i >= g.len() {
        best
    } else if g[i as int] == 0 {
        let c = (if cur.1 == 0 {
            i
        } else {
            cur.0
        }, cur.1 + 1);
        span_from(g, i + 1, c, if c.1 > best.1 {
            c
        } else {
            best
        })
    } else {
        span_from(g, i + 1, (0, 0), best)
    }
}

/// The longest run of zero segments (the first one among equals), as `(start, length)`.
pub open spec fn zero_span(g: Seq<u16>) -> (nat, nat) {
    span_from(g, 0, (0, 0), (0, 0))
}

/// Whether `g` is an IPv4-mapped address `::ffff:a.b.c.d`.
pub open spec fn is_mapped(g: Seq<u16>) -> bool {
    g[0] == 0 && g[1] == 0 && g[2] == 0 && g[3] == 0 && g[4] == 0 && g[5] == 0xffff
}

/// The IPv4 address carried in the last two segments.
pub open spec fn mapped_v4(g: Seq<u16>) -> Ipv4 {
    Ipv4 { a: (g[6] / 256) as u8, b: (g[6] % 256) as u8, c: (g[7] / 256) as u8, d: (g[7] % 256) as u8 }
}

/// The text of an IPv6 address (std `Display`): `::ffff:a.b.c.d` for an IPv4-mapped
/// address; otherwise hex segments with the longest run of two or more zero segments
/// written as `::`.
pub open spec fn ipv6_text(a: Ipv6) -> Seq<char> {
    let g = a.segs();
    if is_mapped(g) {
        seq![':', ':', 'f', 'f', 'f', 'f', ':'] + ipv4_text(mapped_v4(g))
    } else {
        let sp = zero_span(g);
        if sp.1 > 1 {
            groups_text(g.subrange(0, sp.0 as int)) + seq![':', ':'] + groups_text(
                g.subrange((sp.0 + sp.1) as int, 8),
            )
        } else {
            groups_text(g)
        }
    }
}

/// Appends the hex rendering of `n`.
fn push_hex(out: &mut Vec<char>, n: u16)
    ensures
        final(out)@ == old(out)@ + hex_text(n as nat),
    decreases n,
{
    if n >= 16 {
        push_hex(out, n / 16);
    }
    let d = n % 16;
    let c = if d < 10 {
        (48u8 + d as u8) as char
    } else {
        (87u8 + d as u8) as char
    };
    out.push(c);
    assert(old(out)@ + hex_text(n as nat) =~= old(out)@ + hex_text((n / 16) as nat) + seq![c]
        || n < 16);
}

/// Appends the segments `g[from..to]` in hex, separated by `:`.
fn push_groups(out: &mut Vec<char>, g: &Vec<u16>, from: usize, to: usize)
    requires
        from <= to <= g@.len(),
    ensures
        final(out)@ == old(out)@ + groups_text(g@.subrange(from as int, to as int)),
{
    let mut j: usize = from;
    assert(groups_text(g@.subrange(from as int, from as int)) == Seq::<char>::empty()) by {
        assert(g@.subrange(from as int, from as int).len() == 0);
    }
    assert(out@ =~= old(out)@ + groups_text(g@.subrange(from as int, from as int)));
    while j < to
        invariant
            from <= j <= to <= g@.len(),
            out@ == old(out)@ + groups_text(g@.subrange(from as int, j as int)),
        decreases to - j,
    {
        let ghost before = out@;
        let ghost t = g@.subrange(from as int, j as int + 1);
        assert(t.drop_last() =~= g@.subrange(from as int, j as int));
        assert(t.last() == g@[j as int]);
        if j > from {
            out.push(':');
        }
        push_hex(out, g[j]);
        if j == from {
            assert(t.len() == 1);
            assert(out@ =~= old(out)@ + groups_text(t));
        } else {
            assert(out@ =~= old(out)@ + groups_text(t));
        }
        j = j + 1;
    }
}

/// The segments of `a` as a vector.
fn segs_vec(a: Ipv6) -> (g: Vec<u16>)
    ensures
        g@ == a.segs(),
{
    let g = vec![a.s0, a.s1, a.s2, a.s3, a.s4, a.s5, a.s6, a.s7];
    assert(g@ =~= a.segs());
    g
}

/// The longest run of zero segments (see [`zero_span`]).
fn find_zero_span(g: &Vec<u16>) -> (r: (usize, usize))
    requires
        g@.len() == 8,
    ensures
        (r.0 as nat, r.1 as nat) == zero_span(g@),
        r.0 + r.1 <= 8,
{
    let mut i: usize = 0;
    let mut cur: (usize, usize) = (0, 0);
    let mut best: (usize, usize) = (0, 0);
    while i < 8
        invariant
            i <= 8,
            g@.len() == 8,
            zero_span(g@) == span_from(g@, i as nat, (cur.0 as nat, cur.1 as nat), (best.0 as nat, best.1 as nat)),
            cur.0 + cur.1 <= i,
            best.0 + best.1 <= i,
        decreases 8 - i,
    {
        if g[i] == 0 {
            let c = (if cur.1 == 0 { i } else { cur.0 }, cur.1 + 1);
            assert(c.0 + c.1 <= i + 1);
            if c.1 > best.1 {
                best = c;
            }
            cur = c;
        } else {
            cur = (0, 0);
        }
        i = i + 1;
    }
    best
}

/// Appends the text of an IPv6 address (see [`ipv6_text`]).
pub fn push_ipv6(out: &mut Vec<char>, a: Ipv6)
    ensures
        final(out)@ == old(out)@ + ipv6_text(a),
{
    let g = segs_vec(a);
    if g[0] == 0 && g[1] == 0 && g[2] == 0 && g[3] == 0 && g[4] == 0 && g[5] == 0xffff {
        out.push(':');
        out.push(':');
        out.push('f');
        out.push('f');
        out.push('f');
        out.push('f');
        out.push(':');
        push_dec(out, (g[6] / 256) as u64);
        out.push('.');
        push_dec(out, (g[6] % 256) as u64);
        out.push('.');
        push_dec(out, (g[7] / 256) as u64);
        out.push('.');
        push_dec(out, (g[7] % 256) as u64);
        assert(final(out)@ =~= old(out)@ + ipv6_text(a));
    } else {
        let (st, ln) = find_zero_span(&g);
        if ln > 1 {
            push_groups(out, &g, 0, st);
            out.push(':');
            out.push(':');
            push_groups(out, &g, st + ln, 8);
        } else {
            push_groups(out, &g, 0, 8);
            assert(g@.subrange(0, 8) =~= g@);
        }
        assert(final(out)@ =~= old(out)@ + ipv6_text(a));
    }
}

// ----- reading ------------------------------------------------------------------------

/// Whether `c` is an ASCII hex digit.
pub open spec fn is_hex_digit(c: char) -> bool {
    ('0' <= c <= '9') || ('a' <= c <= 'f') || ('A' <= c <= 'F')
}

/// The value of a hex digit.
pub open spec fn hex_digit_val(c: char) -> nat {
    if '0' <= c <= '9' {
        (c as nat - 48) as nat
    } else if 'a' <= c <= 'f' {
        (c as nat - 87) as nat
    } else {
        (c as nat - 55) as nat
    }
}

/// The value of a run of hex digits.
pub open spec fn hex_val(s: Seq<char>) -> nat
    decreases s.len(),
{
    if s.len() == 0 {
        0
    } else {
        hex_val(s.drop_last()) * 16 + hex_digit_val(s.last())
    }
}

/// Whether `c` is a digit of the given kind (hex or decimal).
pub open spec fn is_digit_of(c: char, hex: bool) -> bool {
    if hex {
        is_hex_digit(c)
    } else {
        '0' <= c <= '9'
    }
}

/// The number of digits of the given kind starting at index `i`.
pub open spec fn run_len(s: Seq<char>, i: int, hex: bool) -> nat
    decreases s.len() - i,
{
    if 0 <= i < s.len() && is_digit_of(s[i], hex) {
        1 + run_len(s, i + 1, hex)
    } else {
        0
    }
}

/// The run of digits of the given kind starting at index `i`.
pub open spec fn run(s: Seq<char>, i: int, hex: bool) -> Seq<char> {
    s.subrange(i, i + run_len(s, i, hex))
}

/// One hex segment at `i` as std reads it: one to four hex digits (the whole run).
pub open spec fn group_at(s: Seq<char>, i: int) -> Option<(u16, int)> {
    let t = run(s, i, true);
    if 1 <= t.len() <= 4 {
        Some((hex_val(t) as u16, i + t.len()))
    } else {
        None
    }
}

/// One IPv4 octet at `i` as std reads it (see [`octet_v`]).
pub open spec fn octet_at(s: Seq<char>, i: int) -> Option<(u8, int)> {
    match octet_v(run(s, i, false)) {
        Some(o) => Some((o, i + run_len(s, i, false))),
        None => None,
    }
}

/// Whether `s[i]` is `c`.
pub open spec fn char_at(s: Seq<char>, i: int, c: char) -> bool {
    0 <= i < s.len() && s[i] == c
}

/// A dotted IPv4 address at `i`, and where it ends.
pub open spec fn ipv4_at(s: Seq<char>, i: int) -> Option<(Ipv4, int)> {
    match octet_at(s, i) {
        Some((a, e1)) => if char_at(s, e1, '.') {
            match octet_at(s, e1 + 1) {
                Some((b, e2)) => if char_at(s, e2, '.') {
                    match octet_at(s, e2 + 1) {
                        Some((c, e3)) => if char_at(s, e3, '.') {
                            match octet_at(s, e3 + 1) {
                                Some((d, e4)) => Some((Ipv4 { a, b, c, d }, e4)),
                                None => None,
                            }
                        } else {
                            None
                        },
                        None => None,
                    }
                } else {
                    None
                },
                None => None,
            }
        } else {
            None
        },
        None => None,
    }
}

/// The two segments an embedded IPv4 address stands for.
pub open spec fn v4_segs(v: Ipv4) -> Seq<u16> {
    seq![(v.a as nat * 256 + v.b as nat) as u16, (v.c as nat * 256 + v.d as nat) as u16]
}

/// Segments read from `pos` as std does, the `j`-th of at most `limit`: each after a
/// `:` (but the first), an embedded IPv4 address (ending the run) while two segments
/// are left, else a hex segment. Gives the segments, where reading stopped, and
/// whether an IPv4 address ended the run.
pub open spec fn groups_from(s: Seq<char>, pos: int, j: nat, limit: nat) -> (Seq<u16>, int, bool)
    decreases limit - j,
{
    if j >= limit {
        (Seq::empty(), pos, false)
    } else {
        let start: Option<int> = if j == 0 {
            Some(pos)
        } else if char_at(s, pos, ':') {
            Some(pos + 1)
        } else {
            None
        };
        match start {
            None => (Seq::empty(), pos, false),
            Some(q) => match (if j + 1 < limit {
                ipv4_at(s, q)
            } else {
                None
            }) {
                Some((v, e)) => (v4_segs(v), e, true),
                None => match group_at(s, q) {
                    Some((g, e)) => {
                        let rest = groups_from(s, e, j + 1, limit);
                        (seq![g] + rest.0, rest.1, rest.2)
                    },
                    None => (Seq::empty(), pos, false),
                },
            },
        }
    }
}

/// An IPv6 address at `i` as std reads it: eight segments, or fewer around one `::`
/// standing for the missing zero segments (an embedded IPv4 address only at the end).
pub open spec fn ipv6_at(s: Seq<char>, i: int) -> Option<(Seq<u16>, int)> {
    let (head, p, h4) = groups_from(s, i, 0, 8);
    if head.len() == 8 {
        Some((head, p))
    } else if h4 {
        None
    } else if char_at(s, p, ':') && char_at(s, p + 1, ':') {
        let (tail, p2, _) = groups_from(s, p + 2, 0, (7 - head.len()) as nat);
        Some((head + Seq::new((8 - head.len() - tail.len()) as nat, |k: int| 0u16) + tail, p2))
    } else {
        None
    }
}

/// The optional zone `%n` at `p`: its value and where it ends (0 and `p` when there
/// is no readable zone).
pub open spec fn scope_at(s: Seq<char>, p: int) -> (u32, int) {
    let t = run(s, p + 1, false);
    if char_at(s, p, '%') && t.len() >= 1 && digits_val(t) <= u32::MAX {
        (digits_val(t) as u32, p + 1 + t.len())
    } else {
        (0, p)
    }
}

/// The IPv6 socket address `[v6%zone]:port` that `s` spells (std `SocketAddrV6`), as
/// address, zone and port.
pub open spec fn socket_v6_of(s: Seq<char>) -> Option<(Ipv6, u32, u16)> {
    if char_at(s, 0, '[') {
        match ipv6_at(s, 1) {
            Some((g, p)) => {
                let (sc, p2) = scope_at(s, p);
                if char_at(s, p2, ']') && char_at(s, p2 + 1, ':') {
                    match port_v(s.subrange(p2 + 2, s.len() as int)) {
                        Some(port) => Some((ipv6_of(g), sc, port)),
                        None => None,
                    }
                } else {
                    None
                }
            },
            None => None,
        }
    } else {
        None
    }
}

// ----- reading, executable --------------------------------------------------------------

proof fn lemma_run_len(s: Seq<char>, i: int, hex: bool)
    requires
        0 <= i <= s.len(),
    ensures
        i + run_len(s, i, hex) <= s.len(),
        forall|k: int| i <= k < i + run_len(s, i, hex) ==> #[trigger] is_digit_of(s[k], hex),
        i + run_len(s, i, hex) < s.len() ==> !is_digit_of(s[i + run_len(s, i, hex)], hex),
    decreases s.len() - i,
{
    if i < s.len() && is_digit_of(s[i], hex) {
        lemma_run_len(s, i + 1, hex);
    }
}

/// Whether `c` is a digit of the given kind (see [`is_digit_of`]).
fn digit_of(c: char, hex: bool) -> (b: bool)
    ensures
        b == is_digit_of(c, hex),
{
    if hex {
        ('0' <= c && c <= '9') || ('a' <= c && c <= 'f') || ('A' <= c && c <= 'F')
    } else {
        '0' <= c && c <= '9'
    }
}

/// Where the run of digits of the given kind starting at `i` ends.
fn run_end(s: &[char], i: usize, hex: bool) -> (e: usize)
    requires
        i <= s@.len(),
    ensures
        e == i + run_len(s@, i as int, hex),
        e <= s@.len(),
{
    let mut j: usize = i;
    proof {
        lemma_run_len(s@, i as int, hex);
    }
    while j < s.len() && digit_of(s[j], hex)
        invariant
            i <= j <= s@.len(),
            run_len(s@, i as int, hex) == (j - i) + run_len(s@, j as int, hex),
        decreases s@.len() - j,
    {
        j = j + 1;
    }
    j
}

/// The value of one to four hex digits.
fn hex_value(t: &[char]) -> (v: u16)
    requires
        1 <= t@.len() <= 4,
        forall|k: int| 0 <= k < t@.len() ==> #[trigger] is_hex_digit(t@[k]),
    ensures
        v == hex_val(t@),
{
    let mut v: u32 = 0;
    let mut j: usize = 0;
    assert(t@.subrange(0, 0) =~= Seq::<char>::empty());
    while j < t.len()
        invariant
            j <= t@.len() <= 4,
            forall|k: int| 0 <= k < t@.len() ==> #[trigger] is_hex_digit(t@[k]),
            v == hex_val(t@.subrange(0, j as int)),
            j == 0 ==> v == 0,
            j <= 1 ==> v < 16,
            j <= 2 ==> v < 256,
            j <= 3 ==> v < 4096,
            v < 65536,
        decreases t@.len() - j,
    {
        let c = t[j];
        assert(is_hex_digit(t@[j as int]));
        let d: u32 = if '0' <= c && c <= '9' {
            (c as u32) - 48
        } else if 'a' <= c && c <= 'f' {
            (c as u32) - 87
        } else {
            (c as u32) - 55
        };
        assert(d == hex_digit_val(c) && d < 16);
        assert(t@.subrange(0, j as int + 1).drop_last() =~= t@.subrange(0, j as int));
        v = v * 16 + d;
        j = j + 1;
    }
    assert(t@.subrange(0, t@.len() as int) =~= t@);
    v as u16
}

/// One hex segment at `i` (see [`group_at`]).
fn read_group(s: &[char], i: usize) -> (r: Option<(u16, usize)>)
    requires
        i <= s@.len(),
    ensures
        match r {
            Some((g, e)) => group_at(s@, i as int) == Some((g, e as int)) && e <= s@.len(),
            None => group_at(s@, i as int) is None,
        },
{
    let e = run_end(s, i, true);
    proof {
        lemma_run_len(s@, i as int, true);
    }
    if e - i < 1 || e - i > 4 {
        return None;
    }
    let t = sub_chars(s, i, e);
    assert(t@ == run(s@, i as int, true));
    assert forall|k: int| 0 <= k < t@.len() implies #[trigger] is_hex_digit(t@[k]) by {
        assert(t@[k] == s@[i + k]);
        assert(is_digit_of(s@[i + k], true));
    }
    Some((hex_value(&t), e))
}

/// One IPv4 octet at `i` (see [`octet_at`]).
fn read_octet(s: &[char], i: usize) -> (r: Option<(u8, usize)>)
    requires
        i <= s@.len(),
    ensures
        match r {
            Some((o, e)) => octet_at(s@, i as int) == Some((o, e as int)) && e <= s@.len(),
            None => octet_at(s@, i as int) is None,
        },
{
    let e = run_end(s, i, false);
    let t = sub_chars(s, i, e);
    assert(t@ == run(s@, i as int, false));
    match crate::discovery::parse_octet(&t) {
        Some(o) => Some((o, e)),
        None => None,
    }
}

/// Whether `s[i]` is `c`.
fn is_char_at(s: &[char], i: usize, c: char) -> (b: bool)
    ensures
        b == char_at(s@, i as int, c),
        b ==> i < usize::MAX,
{
    i < s.len() && s[i] == c
}

/// A dotted IPv4 address at `i` (see [`ipv4_at`]).
fn read_ipv4(s: &[char], i: usize) -> (r: Option<(Ipv4, usize)>)
    requires
        i <= s@.len(),
    ensures
        match r {
            Some((v, e)) => ipv4_at(s@, i as int) == Some((v, e as int)) && e <= s@.len(),
            None => ipv4_at(s@, i as int) is None,
        },
{
    let (a, e1) = match read_octet(s, i) {
        Some(x) => x,
        None => {
            return None;
        },
    };
    if !is_char_at(s, e1, '.') {
        return None;
    }
    let (b, e2) = match read_octet(s, e1 + 1) {
        Some(x) => x,
        None => {
            return None;
        },
    };
    if !is_char_at(s, e2, '.') {
        return None;
    }
    let (c, e3) = match read_octet(s, e2 + 1) {
        Some(x) => x,
        None => {
            return None;
        },
    };
    if !is_char_at(s, e3, '.') {
        return None;
    }
    let (d, e4) = match read_octet(s, e3 + 1) {
        Some(x) => x,
        None => {
            return None;
        },
    };
    Some((Ipv4 { a, b, c, d }, e4))
}

/// Segments read from `pos` (see [`groups_from`]).
fn read_groups(s: &[char], pos: usize, j: usize, limit: usize) -> (r: (Vec<u16>, usize, bool))
    requires
        pos <= s@.len(),
        limit <= 8,
    ensures
        (r.0@, r.1 as int, r.2) == groups_from(s@, pos as int, j as nat, limit as nat),
        r.1 <= s@.len(),
        j <= limit ==> r.0@.len() <= limit - j,
    decreases limit - j,
{
    if j >= limit {
        return (Vec::new(), pos, false);
    }
    let q = if j == 0 {
        pos
    } else if is_char_at(s, pos, ':') {
        pos + 1
    } else {
        return (Vec::new(), pos, false);
    };
    if j + 1 < limit {
        if let Some((v, e)) = read_ipv4(s, q) {
            let hi = (v.a as u16) * 256 + v.b as u16;
            let lo = (v.c as u16) * 256 + v.d as u16;
            let out = vec![hi, lo];
            assert(out@ =~= v4_segs(v));
            return (out, e, true);
        }
    }
    match read_group(s, q) {
        Some((g, e)) => {
            let (rest, e2, b) = read_groups(s, e, j + 1, limit);
            let mut out = vec![g];
            let mut rest = rest;
            out.append(&mut rest);
            assert(out@ =~= seq![g] + groups_from(s@, e as int, (j + 1) as nat, limit as nat).0);
            (out, e2, b)
        },
        None => (Vec::new(), pos, false),
    }
}

/// An IPv6 address at `i` (see [`ipv6_at`]).
fn read_ipv6(s: &[char], i: usize) -> (r: Option<(Vec<u16>, usize)>)
    requires
        i <= s@.len(),
    ensures
        match r {
            Some((g, e)) => ipv6_at(s@, i as int) == Some((g@, e as int)) && e <= s@.len() && g@.len()
                == 8,
            None => ipv6_at(s@, i as int) is None,
        },
{
    let (head, p, h4) = read_groups(s, i, 0, 8);
    if head.len() == 8 {
        return Some((head, p));
    }
    if h4 {
        return None;
    }
    if !(is_char_at(s, p, ':') && is_char_at(s, p + 1, ':')) {
        return None;
    }
    let (tail, p2, _) = read_groups(s, p + 2, 0, 7 - head.len());
    let mut g = head;
    let zeros = 8 - g.len() - tail.len();
    let ghost hv = g@;
    let mut k: usize = 0;
    while k < zeros
        invariant
            k <= zeros,
            g@ == hv + Seq::new(k as nat, |x: int| 0u16),
        decreases zeros - k,
    {
        g.push(0);
        k = k + 1;
        assert(g@ =~= hv + Seq::new(k as nat, |x: int| 0u16));
    }
    let mut tail = tail;
    let ghost gv = g@;
    g.append(&mut tail);
    Some((g, p2))
}

/// The IPv6 socket address that `s` spells (see [`socket_v6_of`]).
pub fn parse_socket_v6(s: &[char]) -> (r: Option<(Ipv6, u32, u16)>)
    ensures
        r == socket_v6_of(s@),
{
    if !is_char_at(s, 0, '[') {
        return None;
    }
    let (g, p) = match read_ipv6(s, 1) {
        Some(x) => x,
        None => {
            return None;
        },
    };
    let addr = Ipv6 { s0: g[0], s1: g[1], s2: g[2], s3: g[3], s4: g[4], s5: g[5], s6: g[6], s7: g[7] };
    assert(addr == ipv6_of(g@));
    let mut scope: u32 = 0;
    let mut p2: usize = p;
    if is_char_at(s, p, '%') {
        let e = run_end(s, p + 1, false);
        let t = sub_chars(s, p + 1, e);
        assert(t@ == run(s@, p as int + 1, false));
        proof {
            lemma_run_len(s@, p as int + 1, false);
            assert forall|k: int| 0 <= k < t@.len() implies '0' <= #[trigger] t@[k] <= '9' by {
                assert(t@[k] == s@[p + 1 + k]);
                assert(is_digit_of(s@[p + 1 + k], false));
            }
        }
        if let Some(v) = crate::text::parse_digits(&t, 0xffff_ffff) {
            scope = v as u32;
            p2 = e;
        }
    }
    assert((scope, p2 as int) == scope_at(s@, p as int));
    if !(is_char_at(s, p2, ']') && is_char_at(s, p2 + 1, ':')) {
        return None;
    }
    let rest = sub_chars(s, p2 + 2, s.len());
    match crate::discovery::parse_port(&rest) {
        Some(port) => Some((addr, scope, port)),
        None => None,
    }
}

} // verus!
