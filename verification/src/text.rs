//! Character-level text helpers shared by the protocol parsers and renderers.
//!
//! Text is handled as `Vec<char>` inside the library; each helper states its
//! result over `Seq<char>` so parsers and renderers can be specified exactly.

use vstd::prelude::*;

verus! {

/// Appends one character to a `String` (std `String::push`).
///
/// Trusted: `String::push` appends exactly `c` to the end of the string, as its
/// documentation states.
#[verifier::external_body]
pub(crate) fn push_char(s: &mut String, c: char)
    ensures
        final(s)@ == old(s)@.push(c),
{
    s.push(c)
}

/// The characters of `s`, in order.
pub fn chars_of(s: &str) -> (out: Vec<char>)
    ensures
        out@ == s@,
{
    let mut out: Vec<char> = Vec::new();
    for c in it: s.chars()
        invariant
            out@ == it.seq().take(it.index() as int),
            it.seq() == s@,
    {
        out.push(c);
    }
    out
}

/// A `String` holding exactly the characters of `v`.
pub fn string_of(v: &[char]) -> (out: String)
    ensures
        out@ == v@,
{
    let mut out = String::new();
    let mut i: usize = 0;
    while i < v.len()
        invariant
            i <= v@.len(),
            out@ == v@.take(i as int),
        decreases v@.len() - i,
    {
        push_char(&mut out, v[i]);
        i = i + 1;
        assert(v@.take(i as int) == v@.take((i - 1) as int).push(v@[i - 1]));
    }
    assert(v@.take(v@.len() as int) == v@);
    out
}

/// Appends all characters of `src` to `dst`.
pub fn extend_chars(dst: &mut Vec<char>, src: &[char])
    ensures
        final(dst)@ == old(dst)@ + src@,
{
    let mut i: usize = 0;
    while i < src.len()
        invariant
            i <= src@.len(),
            dst@ == old(dst)@ + src@.take(i as int),
        decreases src@.len() - i,
    {
        dst.push(src[i]);
        i = i + 1;
        assert(src@.take(i as int) == src@.take((i - 1) as int).push(src@[i - 1]));
    }
    assert(src@.take(src@.len() as int) == src@);
}

/// The characters `v[from..to]`.
pub fn sub_chars(v: &[char], from: usize, to: usize) -> (out: Vec<char>)
    requires
        from <= to <= v@.len(),
    ensures
        out@ == v@.subrange(from as int, to as int),
{
    let mut out: Vec<char> = Vec::new();
    let mut i: usize = from;
    while i < to
        invariant
            from <= i <= to <= v@.len(),
            out@ == v@.subrange(from as int, i as int),
        decreases to - i,
    {
        out.push(v[i]);
        i = i + 1;
        assert(v@.subrange(from as int, i as int) == v@.subrange(from as int, (i - 1) as int).push(
            v@[i - 1],
        ));
    }
    out
}

/// Whether two character sequences are equal.
pub fn chars_eq(a: &[char], b: &[char]) -> (r: bool)
    ensures
        r == (a@ == b@),
{
    if a.len() != b.len() {
        return false;
    }
    let mut i: usize = 0;
    while i < a.len()
        invariant
            a@.len() == b@.len(),
            i <= a@.len(),
            forall|j: int| 0 <= j < i ==> a@[j] == b@[j],
        decreases a@.len() - i,
    {
        if a[i] != b[i] {
            return false;
        }
        i = i + 1;
    }
    assert(a@ =~= b@);
    true
}

// ----- whitespace and trimming ------------------------------------------------

/// Rust's `char::is_whitespace`: the Unicode `White_Space` property.
pub open spec fn is_ws(c: char) -> bool {
    let u = c as u32;
    (0x9 <= u <= 0xd) || u == 0x20 || u == 0x85 || u == 0xa0 || u == 0x1680 || (0x2000 <= u
        <= 0x200a) || u == 0x2028 || u == 0x2029 || u == 0x202f || u == 0x205f || u == 0x3000
}

/// `c` is whitespace (std `char::is_whitespace`).
pub fn char_is_ws(c: char) -> (r: bool)
    ensures
        r == is_ws(c),
{
    let u = c as u32;
    (0x9 <= u && u <= 0xd) || u == 0x20 || u == 0x85 || u == 0xa0 || u == 0x1680 || (0x2000 <= u
        && u <= 0x200a) || u == 0x2028 || u == 0x2029 || u == 0x202f || u == 0x205f || u == 0x3000
}

/// `s` with leading whitespace removed (std `str::trim_start`).
pub open spec fn trim_start(s: Seq<char>) -> Seq<char>
    decreases s.len(),
{
    if s.len() > 0 && is_ws(s[0]) {
        trim_start(s.drop_first())
    } else {
        s
    }
}

/// `s` with trailing whitespace removed (std `str::trim_end`).
pub open spec fn trim_end(s: Seq<char>) -> Seq<char>
    decreases s.len(),
{
    if s.len() > 0 && is_ws(s.last()) {
        trim_end(s.drop_last())
    } else {
        s
    }
}

/// `s` with leading and trailing whitespace removed (std `str::trim`).
pub open spec fn trim(s: Seq<char>) -> Seq<char> {
    trim_end(trim_start(s))
}

proof fn lemma_trim_start_skip(s: Seq<char>, i: int)
    requires
        0 <= i <= s.len(),
        forall|j: int| 0 <= j < i ==> is_ws(#[trigger] s[j]),
    ensures
        trim_start(s) == trim_start(s.skip(i)),
    decreases i,
{
    if i > 0 {
        assert(s.skip(1) == s.drop_first());
        lemma_trim_start_skip(s.drop_first(), i - 1);
        assert(s.drop_first().skip(i - 1) == s.skip(i));
    } else {
        assert(s.skip(0) == s);
    }
}

proof fn lemma_trim_end_take(s: Seq<char>, k: int)
    requires
        0 <= k <= s.len(),
        forall|j: int| k <= j < s.len() ==> is_ws(#[trigger] s[j]),
    ensures
        trim_end(s) == trim_end(s.take(k)),
    decreases s.len() - k,
{
    if k < s.len() {
        assert(s.drop_last() == s.take(s.len() - 1));
        lemma_trim_end_take(s.drop_last(), k);
        assert(s.drop_last().take(k) == s.take(k));
    } else {
        assert(s.take(k) == s);
    }
}

/// `v` with leading and trailing whitespace removed (std `str::trim`).
pub fn trim_chars(v: &[char]) -> (out: Vec<char>)
    ensures
        out@ == trim(v@),
{
    let mut i: usize = 0;
    while i < v.len() && char_is_ws(v[i])
        invariant
            i <= v@.len(),
            forall|j: int| 0 <= j < i ==> is_ws(#[trigger] v@[j]),
        decreases v@.len() - i,
    {
        i = i + 1;
    }
    proof {
        lemma_trim_start_skip(v@, i as int);
        if i < v@.len() {
            assert(!is_ws(v@.skip(i as int)[0]));
        }
    }
    let ghost t = v@.skip(i as int);
    assert(trim_start(t) == t);
    let mut k: usize = v.len();
    while k > i && char_is_ws(v[k - 1])
        invariant
            i <= k <= v@.len(),
            forall|j: int| k <= j < v@.len() ==> is_ws(#[trigger] v@[j]),
        decreases k,
    {
        k = k - 1;
    }
    proof {
        let tt = v@.skip(i as int);
        let kk = k - i;
        assert forall|j: int| kk <= j < tt.len() implies is_ws(#[trigger] tt[j]) by {
            assert(tt[j] == v@[j + i]);
        }
        lemma_trim_end_take(tt, kk);
        assert(tt.take(kk) == v@.subrange(i as int, k as int));
        if kk > 0 {
            assert(!is_ws(tt.take(kk).last()));
        }
    }
    sub_chars(v, i, k)
}

// ----- prefixes, substrings, case -------------------------------------------

/// Whether `s` starts with `p` (std `str::starts_with`).
pub open spec fn has_prefix(s: Seq<char>, p: Seq<char>) -> bool {
    p.len() <= s.len() && s.take(p.len() as int) == p
}

/// Whether `s` contains `p` as a contiguous run (std `str::contains`).
pub open spec fn has_infix(s: Seq<char>, p: Seq<char>) -> bool {
    exists|i: int| 0 <= i && i + p.len() <= s.len() && #[trigger] s.subrange(i, i + p.len()) == p
}

/// Whether `s` starts with `p`.
pub fn starts_with(s: &[char], p: &[char]) -> (r: bool)
    ensures
        r == has_prefix(s@, p@),
{
    if p.len() > s.len() {
        return false;
    }
    let mut i: usize = 0;
    while i < p.len()
        invariant
            p@.len() <= s@.len(),
            i <= p@.len(),
            forall|j: int| 0 <= j < i ==> s@[j] == p@[j],
        decreases p@.len() - i,
    {
        if s[i] != p[i] {
            assert(s@.take(p@.len() as int)[i as int] != p@[i as int]);
            return false;
        }
        i = i + 1;
    }
    assert(s@.take(p@.len() as int) =~= p@);
    true
}

/// Whether `p` occurs in `s` at position `at`.
fn matches_at(s: &[char], p: &[char], at: usize) -> (r: bool)
    requires
        at + p@.len() <= s@.len(),
    ensures
        r == (s@.subrange(at as int, at + p@.len()) == p@),
{
    let mut i: usize = 0;
    while i < p.len()
        invariant
            at + p@.len() <= s@.len(),
            s@.len() == s.len(),
            i <= p@.len(),
            forall|j: int| 0 <= j < i ==> s@[at + j] == p@[j],
        decreases p@.len() - i,
    {
        if s[at + i] != p[i] {
            assert(s@.subrange(at as int, at + p@.len())[i as int] != p@[i as int]);
            return false;
        }
        i = i + 1;
    }
    assert(s@.subrange(at as int, at + p@.len()) =~= p@);
    true
}

/// Whether `p` occurs in `s` (std `str::contains`).
pub fn contains_chars(s: &[char], p: &[char]) -> (r: bool)
    ensures
        r == has_infix(s@, p@),
{
    if p.len() > s.len() {
        return false;
    }
    if p.len() == 0 {
        assert(s@.subrange(0, 0 + p@.len() as int) =~= p@);
        return true;
    }
    let last = s.len() - p.len();
    let mut at: usize = 0;
    while at <= last
        invariant
            last + p@.len() == s@.len(),
            p@.len() > 0,
            s@.len() == s.len(),
            at <= last + 1,
            forall|i: int|
                0 <= i < at ==> #[trigger] s@.subrange(i, i + p@.len()) != p@,
        decreases last + 1 - at,
    {
        if matches_at(s, p, at) {
            assert(s@.subrange(at as int, at + p@.len()) == p@);
            return true;
        }
        at = at + 1;
    }
    false
}

/// Whether the string `s` contains the string `p`.
pub fn str_contains(s: &str, p: &str) -> (r: bool)
    ensures
        r == has_infix(s@, p@),
{
    let sv = chars_of(s);
    let pv = chars_of(p);
    contains_chars(&sv, &pv)
}

/// ASCII lowercase of one character (std `char::to_ascii_lowercase`).
pub open spec fn lower(c: char) -> char {
    if 'A' <= c <= 'Z' {
        ((c as u32) + 32) as char
    } else {
        c
    }
}

/// ASCII lowercase of a sequence (std `str::to_ascii_lowercase`).
pub open spec fn lower_seq(s: Seq<char>) -> Seq<char> {
    s.map_values(|c: char| lower(c))
}

/// ASCII lowercase of one character.
pub fn char_lower(c: char) -> (r: char)
    ensures
        r == lower(c),
{
    if 'A' <= c && c <= 'Z' {
        let u = (c as u8) + 32;
        u as char
    } else {
        c
    }
}

/// ASCII lowercase of `v`.
pub fn lower_chars(v: &[char]) -> (out: Vec<char>)
    ensures
        out@ == lower_seq(v@),
{
    let mut out: Vec<char> = Vec::new();
    let mut i: usize = 0;
    while i < v.len()
        invariant
            i <= v@.len(),
            out@ == lower_seq(v@.take(i as int)),
        decreases v@.len() - i,
    {
        let c = char_lower(v[i]);
        out.push(c);
        i = i + 1;
        assert(lower_seq(v@.take(i as int)) =~= lower_seq(v@.take((i - 1) as int)).push(
            lower(v@[i - 1]),
        ));
    }
    assert(v@.take(v@.len() as int) == v@);
    out
}


// ----- decimal numbers --------------------------------------------------------

/// The ASCII digit for `d` (`0..=9`).
pub open spec fn digit_char(d: nat) -> char {
    (48 + d) as char
}

/// Decimal rendering of `n` without sign or leading zeros (std `Display` for
/// unsigned integers).
pub open spec fn dec(n: nat) -> Seq<char>
    decreases n,
{
    if n < 10 {
        seq![digit_char(n)]
    } else {
        dec(n / 10).push(digit_char(n % 10))
    }
}

/// Decimal rendering of a signed integer (std `Display` for signed integers).
pub open spec fn dec_int(i: int) -> Seq<char> {
    if i < 0 {
        seq!['-'] + dec((-i) as nat)
    } else {
        dec(i as nat)
    }
}

/// Appends the decimal digits of `n` to `out`.
pub fn push_dec(out: &mut Vec<char>, n: u64)
    ensures
        final(out)@ == old(out)@ + dec(n as nat),
    decreases n,
{
    if n >= 10 {
        push_dec(out, n / 10);
    }
    let d = (n % 10) as u8;
    let c = (48u8 + d) as char;
    out.push(c);
    assert(old(out)@ + dec(n as nat) =~= old(out)@ + dec((n / 10) as nat) + seq![c] || n < 10);
}

/// Appends the decimal rendering of the signed `n` to `out`.
pub fn push_dec_int(out: &mut Vec<char>, n: i64)
    ensures
        final(out)@ == old(out)@ + dec_int(n as int),
{
    if n < 0 {
        out.push('-');
        let m = (-(n as i128)) as u64;
        push_dec(out, m);
        assert(final(out)@ =~= old(out)@ + dec_int(n as int)) by {
            assert(old(out)@.push('-') + dec(m as nat) =~= old(out)@ + (seq!['-'] + dec(m as nat)));
        }
    } else {
        push_dec(out, n as u64);
    }
}

/// The decimal rendering of `n`.
pub fn dec_chars(n: u64) -> (out: Vec<char>)
    ensures
        out@ == dec(n as nat),
{
    let mut out: Vec<char> = Vec::new();
    push_dec(&mut out, n);
    assert(out@ =~= dec(n as nat));
    out
}

/// Whether every character of `s` is an ASCII digit.
pub open spec fn all_digits(s: Seq<char>) -> bool {
    forall|i: int| 0 <= i < s.len() ==> '0' <= #[trigger] s[i] <= '9'
}

/// The value of a run of ASCII digits.
pub open spec fn digits_val(s: Seq<char>) -> nat
    decreases s.len(),
{
    if s.len() == 0 {
        0
    } else {
        digits_val(s.drop_last()) * 10 + ((s.last() as nat) - 48) as nat
    }
}

/// std `FromStr` for an unsigned integer type whose maximum is `max`: an
/// optional `+`, then at least one ASCII digit, with a value of at most `max`.
pub open spec fn parse_uint(s: Seq<char>, max: nat) -> Option<nat> {
    let d = if s.len() > 0 && s[0] == '+' {
        s.drop_first()
    } else {
        s
    };
    if d.len() > 0 && all_digits(d) && digits_val(d) <= max {
        Some(digits_val(d))
    } else {
        None
    }
}

/// std `FromStr` for a signed integer type with range `-(max + 1)..=max`: an
/// optional `+` or `-`, then at least one ASCII digit, in range.
pub open spec fn parse_sint(s: Seq<char>, max: nat) -> Option<int> {
    if s.len() > 0 && s[0] == '-' {
        let d = s.drop_first();
        if d.len() > 0 && all_digits(d) && digits_val(d) <= max + 1 {
            Some(-(digits_val(d) as int))
        } else {
            None
        }
    } else {
        match parse_uint(s, max) {
            Some(v) => Some(v as int),
            None => None,
        }
    }
}

proof fn lemma_digits_val_mono(s: Seq<char>, k: int)
    requires
        0 <= k <= s.len(),
        all_digits(s),
    ensures
        digits_val(s.take(k)) <= digits_val(s),
    decreases s.len() - k,
{
    if k < s.len() {
        assert(s.drop_last().take(k) == s.take(k));
        assert(all_digits(s.drop_last())) by {
            assert forall|i: int| 0 <= i < s.drop_last().len() implies '0' <= #[trigger] s.drop_last()[i] <= '9' by {
                assert(s.drop_last()[i] == s[i]);
            }
        }
        lemma_digits_val_mono(s.drop_last(), k);
    } else {
        assert(s.take(k) == s);
    }
}

/// Parses the unsigned digit run `d` (no sign), failing above `max`.
pub fn parse_digits(d: &[char], max: u64) -> (r: Option<u64>)
    ensures
        r == (if d@.len() > 0 && all_digits(d@) && digits_val(d@) <= max {
            Some(digits_val(d@) as u64)
        } else {
            None::<u64>
        }),
{
    if d.len() == 0 {
        return None;
    }
    let mut v: u64 = 0;
    let mut i: usize = 0;
    while i < d.len()
        invariant
            i <= d@.len(),
            all_digits(d@.take(i as int)),
            v == digits_val(d@.take(i as int)),
            v <= max,
        decreases d@.len() - i,
    {
        let c = d[i];
        if c < '0' || c > '9' {
            assert(!all_digits(d@));
            return None;
        }
        let dv = (c as u32 - 48) as u64;
        assert(d@.take(i + 1).drop_last() == d@.take(i as int));
        if dv > max || v > (max - dv) / 10 {
            proof {
                assert(digits_val(d@.take(i + 1)) == v * 10 + dv);
                assert(v * 10 + dv > max) by (nonlinear_arith)
                    requires
                        dv > max || v > (max - dv) / 10,
                        v >= 0,
                ;
                if all_digits(d@) {
                    lemma_digits_val_mono(d@, i + 1);
                }
            }
            return None;
        }
        proof {
            assert(v * 10 + dv <= max) by (nonlinear_arith)
                requires
                    v <= (max - dv) / 10,
                    dv <= max,
            ;
        }
        v = v * 10 + dv;
        i = i + 1;
        assert(all_digits(d@.take(i as int))) by {
            assert forall|j: int| 0 <= j < i implies '0' <= #[trigger] d@.take(i as int)[j] <= '9' by {
                if j < i - 1 {
                    assert(d@.take(i as int)[j] == d@.take((i - 1) as int)[j]);
                }
            }
        }
    }
    assert(d@.take(d@.len() as int) == d@);
    Some(v)
}

/// std `FromStr` for the unsigned integer type whose maximum is `max`.
pub fn parse_uint_chars(s: &[char], max: u64) -> (r: Option<u64>)
    ensures
        r == (match parse_uint(s@, max as nat) {
            Some(v) => Some(v as u64),
            None => None::<u64>,
        }),
{
    if s.len() > 0 && s[0] == '+' {
        let d = sub_chars(s, 1, s.len());
        assert(d@ == s@.drop_first());
        parse_digits(&d, max)
    } else {
        parse_digits(s, max)
    }
}

/// std `FromStr` for the signed integer type with range `-(max + 1)..=max`.
pub fn parse_sint_chars(s: &[char], max: u64) -> (r: Option<i64>)
    requires
        max < 0x7fff_ffff_ffff_ffff,
    ensures
        r == (match parse_sint(s@, max as nat) {
            Some(v) => Some(v as i64),
            None => None::<i64>,
        }),
{
    if s.len() > 0 && s[0] == '-' {
        let d = sub_chars(s, 1, s.len());
        assert(d@ == s@.drop_first());
        match parse_digits(&d, max + 1) {
            Some(v) => Some(-(v as i64)),
            None => None,
        }
    } else {
        match parse_uint_chars(s, max) {
            Some(v) => Some(v as i64),
            None => None,
        }
    }
}

/// std `str::parse::<u8>`.
pub fn parse_u8(s: &[char]) -> (r: Option<u8>)
    ensures
        r == (match parse_uint(s@, 0xff) {
            Some(v) => Some(v as u8),
            None => None::<u8>,
        }),
{
    match parse_uint_chars(s, 0xff) {
        Some(v) => Some(v as u8),
        None => None,
    }
}

/// std `str::parse::<u16>`.
pub fn parse_u16(s: &[char]) -> (r: Option<u16>)
    ensures
        r == (match parse_uint(s@, 0xffff) {
            Some(v) => Some(v as u16),
            None => None::<u16>,
        }),
{
    match parse_uint_chars(s, 0xffff) {
        Some(v) => Some(v as u16),
        None => None,
    }
}

/// std `str::parse::<u32>`.
pub fn parse_u32(s: &[char]) -> (r: Option<u32>)
    ensures
        r == (match parse_uint(s@, 0xffff_ffff) {
            Some(v) => Some(v as u32),
            None => None::<u32>,
        }),
{
    match parse_uint_chars(s, 0xffff_ffff) {
        Some(v) => Some(v as u32),
        None => None,
    }
}

/// std `str::parse::<i8>`.
pub fn parse_i8(s: &[char]) -> (r: Option<i8>)
    ensures
        r == (match parse_sint(s@, 127) {
            Some(v) => Some(v as i8),
            None => None::<i8>,
        }),
{
    match parse_sint_chars(s, 127) {
        Some(v) => Some(v as i8),
        None => None,
    }
}


// ----- splitting -------------------------------------------------------------------

/// The views of a list of character vectors.
pub open spec fn views(v: Seq<Vec<char>>) -> Seq<Seq<char>> {
    v.map_values(|x: Vec<char>| x@)
}

/// Position of the first `c` in `s`.
pub open spec fn find_char(s: Seq<char>, c: char) -> Option<nat>
    decreases s.len(),
{
    if s.len() == 0 {
        None
    } else if s[0] == c {
        Some(0)
    } else {
        match find_char(s.drop_first(), c) {
            Some(k) => Some(k + 1),
            None => None,
        }
    }
}

/// `find_char` finds the first occurrence, if there is one.
pub proof fn lemma_find_char(s: Seq<char>, c: char, j: int)
    requires
        0 <= j <= s.len(),
        forall|i: int| 0 <= i < j ==> s[i] != c,
    ensures
        j < s.len() && s[j] == c ==> find_char(s, c) == Some(j as nat),
        j == s.len() ==> find_char(s, c) is None,
    decreases j,
{
    if j > 0 {
        lemma_find_char(s.drop_first(), c, j - 1);
    }
}

/// `find_char` returns a position inside `s` holding `c`.
pub proof fn lemma_find_char_in(s: Seq<char>, c: char)
    ensures
        find_char(s, c) matches Some(k) ==> k < s.len() && s[k as int] == c,
        find_char(s, c) is None ==> forall|i: int| 0 <= i < s.len() ==> s[i] != c,
    decreases s.len(),
{
    if s.len() > 0 {
        lemma_find_char_in(s.drop_first(), c);
        if s[0] != c {
            assert forall|i: int| 0 <= i < s.len() && find_char(s, c) is None implies s[i] != c by {
                if i > 0 {
                    assert(s[i] == s.drop_first()[i - 1]);
                }
            }
        }
    }
}

/// The pieces of `s` between occurrences of `c` (std `str::split` on a char).
pub open spec fn split_on(s: Seq<char>, c: char) -> Seq<Seq<char>>
    decreases s.len(),
{
    match find_char(s, c) {
        Some(k) => {
            proof {
                lemma_find_char_in(s, c);
            }
            seq![s.take(k as int)] + split_on(s.skip(k + 1int), c)
        },
        None => seq![s],
    }
}

/// The pieces of `s` between occurrences of `c`.
pub fn split_chars(s: &[char], c: char) -> (out: Vec<Vec<char>>)
    ensures
        views(out@) == split_on(s@, c),
{
    let mut out: Vec<Vec<char>> = Vec::new();
    let mut start: usize = 0;
    let mut i: usize = 0;
    assert(s@.skip(0) == s@);
    while i < s.len()
        invariant
            start <= i <= s@.len(),
            forall|j: int| start <= j < i ==> s@[j] != c,
            views(out@) + split_on(s@.skip(start as int), c) == split_on(s@, c),
        decreases s@.len() - i,
    {
        if s[i] == c {
            let piece = sub_chars(s, start, i);
            proof {
                let t = s@.skip(start as int);
                assert forall|j: int| 0 <= j < i - start implies t[j] != c by {
                    assert(t[j] == s@[start + j]);
                }
                lemma_find_char(t, c, i - start);
                assert(t.take(i - start) == piece@);
                assert(t.skip(i - start + 1) == s@.skip(i + 1));
                assert(views(out@.push(piece)) == views(out@).push(piece@));
                assert(views(out@).push(piece@) + split_on(s@.skip(i + 1), c) =~= views(out@) + (
                seq![piece@] + split_on(s@.skip(i + 1), c)));
            }
            out.push(piece);
            start = i + 1;
        }
        i = i + 1;
    }
    let last = sub_chars(s, start, s.len());
    proof {
        let t = s@.skip(start as int);
        assert forall|j: int| 0 <= j < t.len() implies t[j] != c by {
            assert(t[j] == s@[start + j]);
        }
        lemma_find_char(t, c, t.len() as int);
        assert(t == last@);
        assert(views(out@.push(last)) == views(out@).push(last@));
        assert(views(out@).push(last@) =~= views(out@) + seq![last@]);
    }
    out.push(last);
    out
}

/// `s` without one trailing carriage return.
pub open spec fn strip_cr(s: Seq<char>) -> Seq<char> {
    if s.len() > 0 && s.last() == '\r' {
        s.drop_last()
    } else {
        s
    }
}

/// The lines of `s` (std `str::lines`): split at each `\n`, a `\r` right before
/// the `\n` removed, and no final empty line after a trailing `\n`.
pub open spec fn lines_v(s: Seq<char>) -> Seq<Seq<char>> {
    let p = split_on(s, '\n');
    let body = Seq::new((p.len() - 1) as nat, |i: int| strip_cr(p[i]));
    if p.last().len() == 0 {
        body
    } else {
        body.push(p.last())
    }
}

proof fn lemma_split_nonempty(s: Seq<char>, c: char)
    ensures
        split_on(s, c).len() >= 1,
    decreases s.len(),
{
    lemma_find_char_in(s, c);
    if let Some(k) = find_char(s, c) {
        lemma_split_nonempty(s.skip(k + 1int), c);
    }
}

/// `v` without one trailing carriage return.
fn strip_cr_chars(v: &[char]) -> (out: Vec<char>)
    ensures
        out@ == strip_cr(v@),
{
    if v.len() > 0 && v[v.len() - 1] == '\r' {
        sub_chars(v, 0, v.len() - 1)
    } else {
        sub_chars(v, 0, v.len())
    }
}

/// The lines of `s` (see [`lines_v`]).
pub fn lines(s: &[char]) -> (out: Vec<Vec<char>>)
    ensures
        views(out@) == lines_v(s@),
{
    let p = split_chars(s, '\n');
    proof {
        lemma_split_nonempty(s@, '\n');
    }
    let ghost pv = split_on(s@, '\n');
    let n = p.len();
    let mut out: Vec<Vec<char>> = Vec::new();
    let mut i: usize = 0;
    while i + 1 < n
        invariant
            n == p@.len(),
            n >= 1,
            views(p@) == pv,
            i <= n - 1,
            views(out@) == Seq::new(i as nat, |j: int| strip_cr(pv[j])),
        decreases n - i,
    {
        let l = strip_cr_chars(&p[i]);
        assert(p@[i as int]@ == pv[i as int]);
        let ghost before = out@;
        out.push(l);
        assert(views(out@) =~= views(before).push(l@));
        i = i + 1;
        assert(views(out@) =~= Seq::new(i as nat, |j: int| strip_cr(pv[j])));
    }
    assert(p@[n - 1]@ == pv.last());
    if p[n - 1].len() > 0 {
        let l = sub_chars(&p[n - 1], 0, p[n - 1].len());
        let ghost before = out@;
        assert(l@ =~= pv.last());
        out.push(l);
        assert(views(out@) =~= views(before).push(l@));
        assert(views(out@) =~= Seq::new((n - 1) as nat, |j: int| strip_cr(pv[j])).push(pv.last()));
    }
    out
}

/// Position of the first whitespace character of `s` (its length if none).
pub open spec fn word_end(s: Seq<char>) -> nat
    decreases s.len(),
{
    if s.len() == 0 || is_ws(s[0]) {
        0
    } else {
        1 + word_end(s.drop_first())
    }
}

/// The whitespace-separated words of `s` (std `str::split_whitespace`).
pub open spec fn words_v(s: Seq<char>) -> Seq<Seq<char>>
    decreases s.len(),
{
    if s.len() == 0 {
        Seq::empty()
    } else if is_ws(s[0]) {
        words_v(s.drop_first())
    } else {
        proof {
            lemma_word_end_bounds(s);
        }
        seq![s.take(word_end(s) as int)] + words_v(s.skip(word_end(s) as int))
    }
}

/// `word_end` stays within `s`, and is positive when `s` starts with a non-space.
pub proof fn lemma_word_end_bounds(s: Seq<char>)
    ensures
        word_end(s) <= s.len(),
        s.len() > 0 && !is_ws(s[0]) ==> word_end(s) >= 1,
    decreases s.len(),
{
    if s.len() > 0 && !is_ws(s[0]) {
        lemma_word_end_bounds(s.drop_first());
    }
}

/// `word_end` is the first whitespace position at or after a run of non-space.
pub proof fn lemma_word_end(s: Seq<char>, j: int)
    requires
        0 <= j <= s.len(),
        forall|i: int| 0 <= i < j ==> !is_ws(#[trigger] s[i]),
        j == s.len() || is_ws(s[j]),
    ensures
        word_end(s) == j,
    decreases j,
{
    if j > 0 {
        assert forall|i: int| 0 <= i < j - 1 implies !is_ws(#[trigger] s.drop_first()[i]) by {
            assert(s.drop_first()[i] == s[i + 1]);
        }
        lemma_word_end(s.drop_first(), j - 1);
    }
}

/// The whitespace-separated words of `s`.
pub fn words(s: &[char]) -> (out: Vec<Vec<char>>)
    ensures
        views(out@) == words_v(s@),
{
    let mut out: Vec<Vec<char>> = Vec::new();
    let mut i: usize = 0;
    assert(s@.skip(0) == s@);
    while i < s.len()
        invariant
            i <= s@.len(),
            views(out@) + words_v(s@.skip(i as int)) == words_v(s@),
        decreases s@.len() - i,
    {
        let ghost t = s@.skip(i as int);
        if char_is_ws(s[i]) {
            assert(t.drop_first() == s@.skip(i + 1));
            i = i + 1;
        } else {
            let mut k: usize = i;
            while k < s.len() && !char_is_ws(s[k])
                invariant
                    i <= k <= s@.len(),
                    forall|j: int| i <= j < k ==> !is_ws(#[trigger] s@[j]),
                decreases s@.len() - k,
            {
                k = k + 1;
            }
            let w = sub_chars(s, i, k);
            proof {
                assert forall|j: int| 0 <= j < k - i implies !is_ws(#[trigger] t[j]) by {
                    assert(t[j] == s@[i + j]);
                }
                if k < s@.len() {
                    assert(t[k - i] == s@[k as int]);
                }
                lemma_word_end(t, k - i);
                assert(t.take(k - i) == w@);
                assert(t.skip(k - i) == s@.skip(k as int));
                assert(views(out@.push(w)) =~= views(out@) + seq![w@]);
                assert(views(out@) + seq![w@] + words_v(s@.skip(k as int)) =~= views(out@) + (seq![
                    w@,
                ] + words_v(s@.skip(k as int))));
            }
            out.push(w);
            i = k;
        }
    }
    assert(s@.skip(s@.len() as int) =~= Seq::<char>::empty());
    assert(views(out@) + Seq::<Seq<char>>::empty() =~= views(out@));
    out
}

/// `p` removed from the front of `s`, when `s` starts with it (std `str::strip_prefix`).
pub open spec fn strip_prefix_v(s: Seq<char>, p: Seq<char>) -> Option<Seq<char>> {
    if has_prefix(s, p) {
        Some(s.skip(p.len() as int))
    } else {
        None
    }
}

/// The decimal rendering of a number is a run of digits with its value, without a
/// leading zero, and at most three digits below 1000.
pub proof fn lemma_dec_digits(n: nat)
    ensures
        dec(n).len() >= 1,
        all_digits(dec(n)),
        digits_val(dec(n)) == n,
        n >= 10 ==> dec(n)[0] != '0',
        n < 10 ==> dec(n).len() == 1,
        n < 100 ==> dec(n).len() <= 2,
        n < 1000 ==> dec(n).len() <= 3,
    decreases n,
{
    if n >= 10 {
        lemma_dec_digits(n / 10);
        let d = dec(n / 10);
        assert(dec(n) == d.push(digit_char(n % 10)));
        assert(dec(n).drop_last() == d);
        assert(dec(n).last() == digit_char(n % 10));
        assert((digit_char(n % 10) as nat) == 48 + n % 10);
        assert(digits_val(dec(n)) == digits_val(d) * 10 + n % 10);
        assert((n / 10) * 10 + n % 10 == n);
        assert forall|i: int| 0 <= i < dec(n).len() implies '0' <= #[trigger] dec(n)[i] <= '9' by {
            if i < d.len() {
                assert(dec(n)[i] == d[i]);
            }
        }
        assert(dec(n)[0] == d[0]);
    } else {
        assert(dec(n).drop_last() =~= Seq::<char>::empty());
        assert(dec(n).last() == digit_char(n));
        assert((digit_char(n) as nat) == 48 + n);
        assert(digits_val(Seq::<char>::empty()) == 0);
        assert(digits_val(dec(n)) == digits_val(dec(n).drop_last()) * 10 + (((dec(n).last() as nat)
            - 48) as nat));
    }
}

/// Reading back the decimal rendering of a number gives the number (std
/// `str::parse` undoes `Display` for unsigned integers).
pub proof fn parse_undoes_dec(n: nat, max: nat)
    requires
        n <= max,
    ensures
        parse_uint(dec(n), max) == Some(n),
{
    lemma_dec_digits(n);
    assert(dec(n)[0] != '+');
}


/// Splitting a run without `c`, then `c`, then the rest, gives the run followed by
/// the pieces of the rest.
pub proof fn lemma_split_concat(x: Seq<char>, c: char, y: Seq<char>)
    requires
        forall|i: int| 0 <= i < x.len() ==> x[i] != c,
    ensures
        split_on(x + seq![c] + y, c) == seq![x] + split_on(y, c),
{
    let s = x + seq![c] + y;
    assert forall|i: int| 0 <= i < x.len() implies s[i] != c by {
        assert(s[i] == x[i]);
    }
    lemma_find_char(s, c, x.len() as int);
    assert(s.take(x.len() as int) =~= x);
    assert(s.skip(x.len() + 1int) =~= y);
}

/// A run without `c` splits into itself.
pub proof fn lemma_split_none(x: Seq<char>, c: char)
    requires
        forall|i: int| 0 <= i < x.len() ==> x[i] != c,
    ensures
        split_on(x, c) == seq![x],
{
    lemma_find_char(x, c, x.len() as int);
}


/// The text of lines `ls`, each followed by `\r\n`.
pub open spec fn crlf_join(ls: Seq<Seq<char>>) -> Seq<char>
    decreases ls.len(),
{
    if ls.len() == 0 {
        Seq::empty()
    } else {
        ls[0] + seq!['\r', '\n'] + crlf_join(ls.drop_first())
    }
}

/// Whether `s` holds no line feed.
pub open spec fn no_lf(s: Seq<char>) -> bool {
    forall|i: int| 0 <= i < s.len() ==> s[i] != '\n'
}

/// Appending a line appends it, followed by `\r\n`, to the text.
pub proof fn lemma_crlf_join_push(ls: Seq<Seq<char>>, l: Seq<char>)
    ensures
        crlf_join(ls.push(l)) == crlf_join(ls) + l + seq!['\r', '\n'],
    decreases ls.len(),
{
    if ls.len() == 0 {
        assert(ls.push(l).drop_first() =~= Seq::<Seq<char>>::empty());
        assert(crlf_join(ls.push(l).drop_first()) == Seq::<char>::empty());
        assert(ls.push(l)[0] == l);
        assert(crlf_join(ls) == Seq::<char>::empty());
        assert(crlf_join(ls.push(l)) =~= crlf_join(ls) + l + seq!['\r', '\n']);
    } else {
        assert(ls.push(l).drop_first() =~= ls.drop_first().push(l));
        lemma_crlf_join_push(ls.drop_first(), l);
        assert(crlf_join(ls.push(l)) =~= crlf_join(ls) + l + seq!['\r', '\n']);
    }
}

proof fn lemma_split_crlf(ls: Seq<Seq<char>>)
    requires
        forall|i: int| 0 <= i < ls.len() ==> no_lf(#[trigger] ls[i]),
    ensures
        split_on(crlf_join(ls), '\n') == Seq::new(ls.len(), |i: int| ls[i].push('\r')).push(
            Seq::<char>::empty(),
        ),
    decreases ls.len(),
{
    if ls.len() == 0 {
        lemma_split_none(Seq::<char>::empty(), '\n');
        assert(Seq::new(ls.len(), |i: int| ls[i].push('\r')).push(Seq::<char>::empty())
            =~= seq![Seq::<char>::empty()]);
    } else {
        let x = ls[0].push('\r');
        let rest = ls.drop_first();
        let y = crlf_join(rest);
        assert(crlf_join(ls) =~= x + seq!['\n'] + y);
        assert(no_lf(ls[0]));
        assert forall|i: int| 0 <= i < x.len() implies x[i] != '\n' by {
            if i < ls[0].len() {
                assert(x[i] == ls[0][i]);
            }
        }
        lemma_split_concat(x, '\n', y);
        assert forall|i: int| 0 <= i < rest.len() implies no_lf(#[trigger] rest[i]) by {
            assert(rest[i] == ls[i + 1]);
        }
        lemma_split_crlf(rest);
        assert(seq![x] + Seq::new(rest.len(), |i: int| rest[i].push('\r')).push(Seq::<char>::empty())
            =~= Seq::new(ls.len(), |i: int| ls[i].push('\r')).push(Seq::<char>::empty()));
    }
}

/// Text written as lines each ending in `\r\n` reads back as those lines, when no
/// line holds a line feed.
pub proof fn lemma_lines_crlf(ls: Seq<Seq<char>>)
    requires
        forall|i: int| 0 <= i < ls.len() ==> no_lf(#[trigger] ls[i]),
    ensures
        lines_v(crlf_join(ls)) == ls,
{
    lemma_split_crlf(ls);
    let p = split_on(crlf_join(ls), '\n');
    assert(p.len() == ls.len() + 1);
    assert(p.last() == Seq::<char>::empty());
    assert forall|i: int| 0 <= i < ls.len() implies strip_cr(#[trigger] p[i]) == ls[i] by {
        assert(p[i] == ls[i].push('\r'));
        assert(ls[i].push('\r').drop_last() =~= ls[i]);
    }
    assert(lines_v(crlf_join(ls)) =~= ls);
}


/// A text that neither starts nor ends with whitespace is its own trim.
pub proof fn lemma_trim_fixed(s: Seq<char>)
    requires
        s.len() == 0 || (!is_ws(s[0]) && !is_ws(s.last())),
    ensures
        trim(s) == s,
{
}

/// Two texts without a line feed make one without a line feed.
pub proof fn lemma_no_lf_add(a: Seq<char>, b: Seq<char>)
    requires
        no_lf(a),
        no_lf(b),
    ensures
        no_lf(a + b),
{
    assert forall|i: int| 0 <= i < (a + b).len() implies (a + b)[i] != '\n' by {
        if i < a.len() {
            assert((a + b)[i] == a[i]);
        } else {
            assert((a + b)[i] == b[i - a.len()]);
        }
    }
}


/// The number of occurrences of `c` in `s`.
pub open spec fn count_char(s: Seq<char>, c: char) -> nat
    decreases s.len(),
{
    if s.len() == 0 {
        0
    } else {
        count_char(s.drop_last(), c) + (if s.last() == c {
            1nat
        } else {
            0nat
        })
    }
}

/// A one-character text holds `c` once exactly when it is `c`.
pub proof fn lemma_count_single(x: char, c: char)
    ensures
        count_char(seq![x], c) == (if x == c {
            1nat
        } else {
            0nat
        }),
{
    let s = seq![x];
    assert(s.drop_last() =~= Seq::<char>::empty());
    assert(s.last() == x);
    assert(count_char(Seq::<char>::empty(), c) == 0);
    assert(count_char(s, c) == count_char(s.drop_last(), c) + (if s.last() == c {
        1nat
    } else {
        0nat
    }));
}

/// Occurrences add up over a concatenation.
pub proof fn lemma_count_add(a: Seq<char>, b: Seq<char>, c: char)
    ensures
        count_char(a + b, c) == count_char(a, c) + count_char(b, c),
    decreases b.len(),
{
    if b.len() == 0 {
        assert(a + b =~= a);
    } else {
        assert((a + b).drop_last() =~= a + b.drop_last());
        lemma_count_add(a, b.drop_last(), c);
    }
}

/// A text without `c` has no occurrence of it.
pub proof fn lemma_count_none(s: Seq<char>, c: char)
    requires
        forall|i: int| 0 <= i < s.len() ==> s[i] != c,
    ensures
        count_char(s, c) == 0,
    decreases s.len(),
{
    if s.len() > 0 {
        lemma_count_none(s.drop_last(), c);
    }
}

/// Splitting at `c` gives one piece more than there are occurrences of `c`.
pub proof fn lemma_split_count(s: Seq<char>, c: char)
    ensures
        split_on(s, c).len() == count_char(s, c) + 1,
    decreases s.len(),
{
    lemma_find_char_in(s, c);
    match find_char(s, c) {
        Some(k) => {
            let x = s.take(k as int);
            let y = s.skip(k + 1int);
            assert forall|i: int| 0 <= i < x.len() implies x[i] != c by {
                if x[i] == c {
                    lemma_find_first(s, c, i);
                }
            }
            assert(s =~= x + seq![c] + y);
            lemma_count_none(x, c);
            lemma_count_add(x + seq![c], y, c);
            lemma_count_add(x, seq![c], c);
            lemma_count_single(c, c);
            lemma_split_count(y, c);
        },
        None => {
            lemma_count_none(s, c);
        },
    }
}

proof fn lemma_find_first(s: Seq<char>, c: char, i: int)
    requires
        0 <= i < s.len(),
        s[i] == c,
    ensures
        find_char(s, c) matches Some(k) && k <= i,
    decreases s.len(),
{
    if s[0] != c {
        lemma_find_first(s.drop_first(), c, i - 1);
    }
}

/// The decimal rendering of a number holds no `c` other than a digit.
pub proof fn lemma_dec_count(n: nat, c: char)
    requires
        !('0' <= c <= '9'),
    ensures
        count_char(dec(n), c) == 0,
{
    lemma_dec_digits(n);
    assert forall|i: int| 0 <= i < dec(n).len() implies dec(n)[i] != c by {
        assert('0' <= dec(n)[i] <= '9');
    }
    lemma_count_none(dec(n), c);
}

} // verus!
