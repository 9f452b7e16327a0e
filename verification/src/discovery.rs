//! LAN discovery via the Yeelight SSDP-like protocol: the search message,
//! and parsing of search responses and advertisements into [`Device`]s.
//!
//! The multicast socket and the receive loop live outside the library.

use vstd::prelude::*;

use crate::device::{
    model_of, no_dup_names, support_set, Device, Ip, Ipv4, Location, Model, ModelV, State, name_v,
};
use crate::address::{parse_socket_v6, socket_v6_of};
use crate::text::{
    all_digits, chars_eq, chars_of, digits_val, find_char, has_prefix, lines, lines_v, lower_chars,
    lower_seq, parse_digits, is_ws, trim_start, parse_uint, split_chars, split_on, starts_with, string_of, strip_prefix_v,
    sub_chars, trim, trim_chars, views, words, words_v, lemma_find_char,
    parse_u8, parse_u16, parse_u32, dec, lemma_dec_digits, lemma_split_concat, lemma_split_none,
};

verus! {

/// Static UDP port used for discovery (not standard SSDP 1900).
pub const SSDP_PORT: u16 = 1982;

/// The search request multicast to the discovery group.
pub const SEARCH_MSG: &'static str =
    "M-SEARCH * HTTP/1.1\r\nHOST: 239.255.255.250:1982\r\nMAN: \"ssdp:discover\"\r\nST: wifi_bulb\r\n";

/// Multicast group used by Yeelight discovery (239.255.255.250).
pub open spec fn ssdp_group() -> Ipv4 {
    Ipv4 { a: 239, b: 255, c: 255, d: 250 }
}

/// Multicast group used by Yeelight discovery.
pub fn ssdp_addr() -> (g: Ipv4)
    ensures
        g == ssdp_group(),
{
    Ipv4 { a: 239, b: 255, c: 255, d: 250 }
}

// ----- headers -------------------------------------------------------------------

/// A header line's name (trimmed, ASCII-lowercased) and value (trimmed), split at the
/// first `:`; nothing for a line without one.
pub open spec fn header_pair(line: Seq<char>) -> Option<(Seq<char>, Seq<char>)> {
    match find_char(line, ':') {
        Some(k) => Some((lower_seq(trim(line.take(k as int))), trim(line.skip(k + 1int)))),
        None => None,
    }
}

/// The headers of `ls`, in order.
pub open spec fn header_pairs(ls: Seq<Seq<char>>) -> Seq<(Seq<char>, Seq<char>)>
    decreases ls.len(),
{
    if ls.len() == 0 {
        Seq::empty()
    } else {
        header_pairs(ls.drop_last()) + match header_pair(ls.last()) {
            Some(p) => seq![p],
            None => Seq::empty(),
        }
    }
}

/// The value of the last header named `key` (a later header replaces an earlier one).
pub open spec fn last_value(hs: Seq<(Seq<char>, Seq<char>)>, key: Seq<char>) -> Option<Seq<char>>
    decreases hs.len(),
{
    if hs.len() == 0 {
        None
    } else if hs.last().0 == key {
        Some(hs.last().1)
    } else {
        last_value(hs.drop_last(), key)
    }
}

/// Parsed message headers, in arrival order.
#[derive(Debug, Clone)]
pub struct Headers {
    /// `(name, value)` pairs; names are lowercase.
    pub entries: Vec<(String, String)>,
}

/// The mathematical form of header entries.
pub open spec fn entries_v(es: Seq<(String, String)>) -> Seq<(Seq<char>, Seq<char>)> {
    es.map_values(|e: (String, String)| (e.0@, e.1@))
}

impl Headers {
    /// The value of header `key` (the last one when repeated).
    pub fn get(&self, key: &str) -> (r: Option<&String>)
        ensures
            match r {
                Some(v) => last_value(entries_v(self.entries@), key@) == Some(v@),
                None => last_value(entries_v(self.entries@), key@) is None,
            },
    {
        let k = chars_of(key);
        let ghost es = entries_v(self.entries@);
        let mut i: usize = self.entries.len();
        assert(es.take(i as int) == es);
        while i > 0
            invariant
                i <= self.entries@.len(),
                es == entries_v(self.entries@),
                k@ == key@,
                last_value(es, key@) == last_value(es.take(i as int), key@),
            decreases i,
        {
            let name = chars_of(self.entries[i - 1].0.as_str());
            let ghost t = es.take(i as int);
            assert(t.last() == es[i - 1]);
            assert(t.drop_last() == es.take(i - 1));
            if chars_eq(&name, &k) {
                return Some(&self.entries[i - 1].1);
            }
            i = i - 1;
        }
        None
    }
}

/// Splits one header line (see [`header_pair`]).
fn split_header(line: &[char]) -> (r: Option<(String, String)>)
    ensures
        match r {
            Some(p) => header_pair(line@) == Some((p.0@, p.1@)),
            None => header_pair(line@) is None,
        },
{
    let mut i: usize = 0;
    while i < line.len()
        invariant
            i <= line@.len(),
            forall|j: int| 0 <= j < i ==> line@[j] != ':',
        decreases line@.len() - i,
    {
        if line[i] == ':' {
            proof {
                lemma_find_char(line@, ':', i as int);
            }
            let name = trim_chars(&sub_chars(line, 0, i));
            let name = lower_chars(&name);
            let value = trim_chars(&sub_chars(line, i + 1, line.len()));
            assert(line@.take(i as int) == line@.subrange(0, i as int));
            assert(line@.skip(i + 1) == line@.subrange(i + 1, line@.len() as int));
            return Some((string_of(&name), string_of(&value)));
        }
        i = i + 1;
    }
    proof {
        lemma_find_char(line@, ':', line@.len() as int);
    }
    None
}

/// The headers of lines `ls[from..]`.
pub fn headers_of(ls: &[Vec<char>], from: usize) -> (h: Headers)
    requires
        from <= ls@.len(),
    ensures
        entries_v(h.entries@) == header_pairs(views(ls@).skip(from as int)),
{
    let mut out: Vec<(String, String)> = Vec::new();
    let mut i: usize = from;
    let ghost vs = views(ls@);
    assert(vs.skip(from as int).take(0) =~= Seq::<Seq<char>>::empty());
    while i < ls.len()
        invariant
            from <= i <= ls@.len(),
            vs == views(ls@),
            entries_v(out@) == header_pairs(vs.skip(from as int).take(i - from)),
        decreases ls@.len() - i,
    {
        let ghost before = out@;
        let ghost t = vs.skip(from as int).take(i + 1 - from);
        assert(t.drop_last() == vs.skip(from as int).take(i - from));
        assert(t.last() == ls@[i as int]@);
        match split_header(&ls[i]) {
            Some(p) => {
                out.push(p);
                assert(entries_v(out@) =~= entries_v(before) + seq![(p.0@, p.1@)]);
            },
            None => {
                assert(entries_v(out@) =~= entries_v(before) + Seq::empty());
            },
        }
        i = i + 1;
    }
    assert(vs.skip(from as int).take(ls@.len() - from) == vs.skip(from as int));
    Headers { entries: out }
}

// ----- socket addresses -------------------------------------------------------------

/// An IPv4 octet as std parses it: one to three ASCII digits, at most 255, without a
/// leading zero (unless it is `0` itself).
pub open spec fn octet_v(s: Seq<char>) -> Option<u8> {
    if 1 <= s.len() <= 3 && all_digits(s) && digits_val(s) <= 255 && !(s.len() > 1 && s[0] == '0') {
        Some(digits_val(s) as u8)
    } else {
        None
    }
}

/// A port as std parses it: at least one ASCII digit, at most 65535 (leading zeros allowed).
pub open spec fn port_v(s: Seq<char>) -> Option<u16> {
    if s.len() >= 1 && all_digits(s) && digits_val(s) <= 65535 {
        Some(digits_val(s) as u16)
    } else {
        None
    }
}

/// The socket address that `s` spells, if any (std `SocketAddr`): an IPv4 address
/// `a.b.c.d:port`, or an IPv6 one `[v6%zone]:port` (see [`socket_v6_of`]).
pub open spec fn location_of(s: Seq<char>) -> Option<Location> {
    match location_v4_of(s) {
        Some(l) => Some(l),
        None => match socket_v6_of(s) {
            Some((addr, scope, port)) => Some(Location { ip: Ip::V6 { addr, scope }, port }),
            None => None,
        },
    }
}

/// The IPv4 socket address `a.b.c.d:port` that `s` spells, if any.
pub open spec fn location_v4_of(s: Seq<char>) -> Option<Location> {
    let parts = split_on(s, ':');
    if parts.len() != 2 {
        None
    } else {
        let ip = split_on(parts[0], '.');
        if ip.len() != 4 {
            None
        } else {
            match (octet_v(ip[0]), octet_v(ip[1]), octet_v(ip[2]), octet_v(ip[3]), port_v(parts[1])) {
                (Some(a), Some(b), Some(c), Some(d), Some(port)) => Some(
                    Location { ip: Ip::V4(Ipv4 { a, b, c, d }), port },
                ),
                _ => None,
            }
        }
    }
}

/// One IPv4 octet (see [`octet_v`]).
pub(crate) fn parse_octet(s: &[char]) -> (r: Option<u8>)
    ensures
        r == octet_v(s@),
{
    if s.len() < 1 || s.len() > 3 || (s.len() > 1 && s[0] == '0') {
        return None;
    }
    match parse_digits(s, 255) {
        Some(v) => Some(v as u8),
        None => None,
    }
}

/// A port (see [`port_v`]).
pub(crate) fn parse_port(s: &[char]) -> (r: Option<u16>)
    ensures
        r == port_v(s@),
{
    match parse_digits(s, 65535) {
        Some(v) => Some(v as u16),
        None => None,
    }
}

/// The socket address that `s` spells (see [`location_of`]).
pub fn parse_location(s: &[char]) -> (r: Option<Location>)
    ensures
        r == location_of(s@),
{
    match parse_location_v4(s) {
        Some(l) => Some(l),
        None => match parse_socket_v6(s) {
            Some((addr, scope, port)) => Some(Location { ip: Ip::V6 { addr, scope }, port }),
            None => None,
        },
    }
}

/// The IPv4 socket address `a.b.c.d:port` that `s` spells (see [`location_v4_of`]).
fn parse_location_v4(s: &[char]) -> (r: Option<Location>)
    ensures
        r == location_v4_of(s@),
{
    let parts = split_chars(s, ':');
    if parts.len() != 2 {
        return None;
    }
    assert(parts@[0]@ == split_on(s@, ':')[0]);
    assert(parts@[1]@ == split_on(s@, ':')[1]);
    let ip = split_chars(&parts[0], '.');
    if ip.len() != 4 {
        return None;
    }
    let ghost ipv = split_on(split_on(s@, ':')[0], '.');
    assert(ip@[0]@ == ipv[0] && ip@[1]@ == ipv[1] && ip@[2]@ == ipv[2] && ip@[3]@ == ipv[3]);
    let a = parse_octet(&ip[0]);
    let b = parse_octet(&ip[1]);
    let c = parse_octet(&ip[2]);
    let d = parse_octet(&ip[3]);
    let port = parse_port(&parts[1]);
    match (a, b, c, d, port) {
        (Some(a), Some(b), Some(c), Some(d), Some(port)) => Some(
            Location { ip: Ip::V4(Ipv4 { a, b, c, d }), port },
        ),
        _ => None,
    }
}

proof fn lemma_dec_plain(n: nat, c: char)
    requires
        c == '.' || c == ':',
    ensures
        forall|i: int| 0 <= i < dec(n).len() ==> dec(n)[i] != c,
{
    lemma_dec_digits(n);
    assert forall|i: int| 0 <= i < dec(n).len() implies dec(n)[i] != c by {
        assert('0' <= dec(n)[i] <= '9');
    }
}

/// The text of an IPv4 location reads back as that location.
#[verifier::rlimit(60)]
#[verifier::spinoff_prover]
pub proof fn location_text_round_trip(l: Location)
    requires
        l.ip is V4,
    ensures
        location_of(crate::device::location_text(l)) == Some(l),
{
    let v = l.ip->V4_0;
    let a = dec(v.a as nat);
    let b = dec(v.b as nat);
    let c = dec(v.c as nat);
    let d = dec(v.d as nat);
    let p = dec(l.port as nat);
    lemma_dec_plain(v.a as nat, '.');
    lemma_dec_plain(v.b as nat, '.');
    lemma_dec_plain(v.c as nat, '.');
    lemma_dec_plain(v.d as nat, '.');
    lemma_dec_plain(v.a as nat, ':');
    lemma_dec_plain(v.b as nat, ':');
    lemma_dec_plain(v.c as nat, ':');
    lemma_dec_plain(v.d as nat, ':');
    lemma_dec_plain(l.port as nat, ':');
    lemma_dec_digits(v.a as nat);
    lemma_dec_digits(v.b as nat);
    lemma_dec_digits(v.c as nat);
    lemma_dec_digits(v.d as nat);
    lemma_dec_digits(l.port as nat);
    let host = a + seq!['.'] + b + seq!['.'] + c + seq!['.'] + d;
    assert(crate::device::location_text(l) == host + seq![':'] + p);
    assert forall|i: int| 0 <= i < host.len() implies host[i] != ':' by {
        if i < a.len() {
            assert(host[i] == a[i]);
        } else if i == a.len() {
        } else if i < a.len() + 1 + b.len() {
            assert(host[i] == b[i - a.len() - 1]);
        } else if i == a.len() + 1 + b.len() {
        } else if i < a.len() + 2 + b.len() + c.len() {
            assert(host[i] == c[i - a.len() - 2 - b.len()]);
        } else if i == a.len() + 2 + b.len() + c.len() {
        } else {
            assert(host[i] == d[i - a.len() - 3 - b.len() - c.len()]);
        }
    }
    lemma_split_concat(host, ':', p);
    lemma_split_none(p, ':');
    assert(split_on(crate::device::location_text(l), ':') == seq![host, p]);
    let r1 = b + seq!['.'] + c + seq!['.'] + d;
    let r2 = c + seq!['.'] + d;
    assert(host == a + seq!['.'] + r1);
    assert(r1 == b + seq!['.'] + r2);
    lemma_split_concat(a, '.', r1);
    lemma_split_concat(b, '.', r2);
    lemma_split_concat(c, '.', d);
    lemma_split_none(d, '.');
    assert(split_on(host, '.') == seq![a, b, c, d]);
    assert(location_v4_of(crate::device::location_text(l)) == Some(l));
}

// ----- device parsing --------------------------------------------------------------

/// Whether the start line announces a search response or an advertisement.
pub open spec fn start_line_ok(l: Seq<char>) -> bool {
    has_prefix(trim(l), "HTTP/1.1"@) || has_prefix(trim(l), "NOTIFY"@)
}

/// The control address a device announces: its `Location` header, after
/// `yeelight://`, as an IPv4 socket address.
pub open spec fn announced_location(hs: Seq<(Seq<char>, Seq<char>)>) -> Option<Location> {
    match last_value(hs, "location"@) {
        Some(v) => match strip_prefix_v(v, "yeelight://"@) {
            Some(r) => location_of(r),
            None => None,
        },
        None => None,
    }
}

/// The headers of a message (every line after the start line).
pub open spec fn message_headers(text: Seq<char>) -> Seq<(Seq<char>, Seq<char>)> {
    header_pairs(lines_v(text).skip(1))
}

/// Whether `text` is a well-formed search response or advertisement: a recognized
/// start line, an `id`, and a `yeelight://` location.
pub open spec fn announces_device(text: Seq<char>) -> bool {
    &&& lines_v(text).len() > 0
    &&& start_line_ok(lines_v(text)[0])
    &&& last_value(message_headers(text), "id"@) is Some
    &&& announced_location(message_headers(text)) is Some
}

/// `v` read as a power flag: `Some(true)` exactly for `"on"`.
pub open spec fn flag_v(v: Option<Seq<char>>) -> Option<bool> {
    match v {
        Some(s) => Some(s == "on"@),
        None => None,
    }
}

/// `v` read as an unsigned number of at most `max`.
pub open spec fn num_v(v: Option<Seq<char>>, max: nat) -> Option<nat> {
    match v {
        Some(s) => parse_uint(s, max),
        None => None,
    }
}

/// A number that fits a `u8`.
pub open spec fn u8_v(o: Option<nat>) -> Option<u8> {
    match o {
        Some(n) => Some(n as u8),
        None => None,
    }
}

/// A number that fits a `u16`.
pub open spec fn u16_v(o: Option<nat>) -> Option<u16> {
    match o {
        Some(n) => Some(n as u16),
        None => None,
    }
}

/// A number that fits a `u32`.
pub open spec fn u32_v(o: Option<nat>) -> Option<u32> {
    match o {
        Some(n) => Some(n as u32),
        None => None,
    }
}

/// The state headers `hs` describe: each property from its header, numbers only when
/// they parse; multi-light devices report `main_power` in place of `power`.
pub open spec fn state_of(hs: Seq<(Seq<char>, Seq<char>)>, st: State) -> bool {
    &&& st.power == flag_v(
        match last_value(hs, "power"@) {
            Some(v) => Some(v),
            None => last_value(hs, "main_power"@),
        },
    )
    &&& st.bright == u8_v(num_v(last_value(hs, "bright"@), 0xff))
    &&& st.color_mode == u8_v(num_v(last_value(hs, "color_mode"@), 0xff))
    &&& st.ct == u16_v(num_v(last_value(hs, "ct"@), 0xffff))
    &&& st.rgb == u32_v(num_v(last_value(hs, "rgb"@), 0xffff_ffff))
    &&& st.hue == u16_v(num_v(last_value(hs, "hue"@), 0xffff))
    &&& st.sat == u8_v(num_v(last_value(hs, "sat"@), 0xff))
    &&& name_v(st.name) == last_value(hs, "name"@)
    &&& st.bg_power == flag_v(last_value(hs, "bg_power"@))
    &&& st.bg_bright == u8_v(num_v(last_value(hs, "bg_bright"@), 0xff))
    &&& st.bg_color_mode == u8_v(num_v(last_value(hs, "bg_lmode"@), 0xff))
    &&& st.bg_ct == u16_v(num_v(last_value(hs, "bg_ct"@), 0xffff))
    &&& st.bg_rgb == u32_v(num_v(last_value(hs, "bg_rgb"@), 0xffff_ffff))
    &&& st.bg_hue == u16_v(num_v(last_value(hs, "bg_hue"@), 0xffff))
    &&& st.bg_sat == u8_v(num_v(last_value(hs, "bg_sat"@), 0xff))
}

/// `v` read as a power flag.
fn flag(v: Option<&String>) -> (r: Option<bool>)
    ensures
        r == flag_v(
            match v {
                Some(s) => Some(s@),
                None => None,
            },
        ),
{
    match v {
        Some(s) => {
            let sv = chars_of(s.as_str());
            let on = chars_of("on");
            Some(chars_eq(&sv, &on))
        },
        None => None,
    }
}

/// The characters of an optional header value.
pub open spec fn opt_v(v: Option<&String>) -> Option<Seq<char>> {
    match v {
        Some(s) => Some(s@),
        None => None,
    }
}

fn num_u8(v: Option<&String>) -> (r: Option<u8>)
    ensures
        r == u8_v(num_v(opt_v(v), 0xff)),
{
    match v {
        Some(s) => parse_u8(&chars_of(s.as_str())),
        None => None,
    }
}

fn num_u16(v: Option<&String>) -> (r: Option<u16>)
    ensures
        r == u16_v(num_v(opt_v(v), 0xffff)),
{
    match v {
        Some(s) => parse_u16(&chars_of(s.as_str())),
        None => None,
    }
}

fn num_u32(v: Option<&String>) -> (r: Option<u32>)
    ensures
        r == u32_v(num_v(opt_v(v), 0xffff_ffff)),
{
    match v {
        Some(s) => parse_u32(&chars_of(s.as_str())),
        None => None,
    }
}

/// The device state that discovery headers describe (see [`state_of`]).
pub fn parse_state(h: &Headers) -> (st: State)
    ensures
        state_of(entries_v(h.entries@), st),
{
    let power = match h.get("power") {
        Some(v) => flag(Some(v)),
        None => flag(h.get("main_power")),
    };
    let name = match h.get("name") {
        Some(n) => Some(n.clone()),
        None => None,
    };
    State {
        power,
        bright: num_u8(h.get("bright")),
        color_mode: num_u8(h.get("color_mode")),
        ct: num_u16(h.get("ct")),
        rgb: num_u32(h.get("rgb")),
        hue: num_u16(h.get("hue")),
        sat: num_u8(h.get("sat")),
        name,
        bg_power: flag(h.get("bg_power")),
        bg_bright: num_u8(h.get("bg_bright")),
        bg_color_mode: num_u8(h.get("bg_lmode")),
        bg_ct: num_u16(h.get("bg_ct")),
        bg_rgb: num_u32(h.get("bg_rgb")),
        bg_hue: num_u16(h.get("bg_hue")),
        bg_sat: num_u8(h.get("bg_sat")),
    }
}

/// The distinct words of `s`, in first-seen order (a set of method names).
pub fn unique_words(s: &str) -> (r: Vec<String>)
    ensures
        support_set(r@) == Set::new(|w: Seq<char>| words_v(s@).contains(w)),
        no_dup_names(r@),
{
    let ws = words(&chars_of(s));
    let ghost wv = words_v(s@);
    let mut out: Vec<String> = Vec::new();
    let mut i: usize = 0;
    while i < ws.len()
        invariant
            i <= ws@.len(),
            views(ws@) == wv,
            no_dup_names(out@),
            support_set(out@) == Set::new(|w: Seq<char>| wv.take(i as int).contains(w)),
        decreases ws@.len() - i,
    {
        let w = string_of(&ws[i]);
        let ghost before = out@;
        assert(ws@[i as int]@ == wv[i as int]);
        let mut seen = false;
        let mut k: usize = 0;
        while k < out.len()
            invariant
                k <= out@.len(),
                out@ == before,
                seen == (exists|j: int| 0 <= j < k && (#[trigger] out@[j])@ == w@),
            decreases out@.len() - k,
        {
            let a = chars_of(out[k].as_str());
            let b = chars_of(w.as_str());
            if chars_eq(&a, &b) {
                seen = true;
            }
            k = k + 1;
        }
        if !seen {
            out.push(w);
            assert forall|x: int, y: int|
                0 <= x < y < out@.len() implies (#[trigger] out@[x])@ != (#[trigger] out@[y])@ by {
                if y < before.len() {
                    assert(out@[x] == before[x] && out@[y] == before[y]);
                }
            }
        }
        i = i + 1;
        assert(wv.take(i as int) == wv.take(i - 1).push(wv[i - 1]));
        assert(support_set(out@) =~= Set::new(|x: Seq<char>| wv.take(i as int).contains(x))) by {
            assert forall|x: Seq<char>| support_set(out@).contains(x) implies wv.take(
                i as int,
            ).contains(x) by {
                let j = choose|j: int| 0 <= j < out@.len() && (#[trigger] out@[j])@ == x;
                if j < before.len() {
                    assert(support_set(before).contains(x));
                    let m = choose|m: int| 0 <= m < i - 1 && #[trigger] wv.take(i - 1)[m] == x;
                    assert(wv.take(i as int)[m] == x);
                } else {
                    assert(wv.take(i as int)[i - 1] == x);
                }
            }
            assert forall|x: Seq<char>| wv.take(i as int).contains(x) implies support_set(
                out@,
            ).contains(x) by {
                let m = choose|m: int| 0 <= m < i && #[trigger] wv.take(i as int)[m] == x;
                if m < i - 1 {
                    assert(wv.take(i - 1)[m] == x);
                    assert(support_set(before).contains(x));
                    let j = choose|j: int| 0 <= j < before.len() && (#[trigger] before[j])@ == x;
                    assert(out@[j] == before[j]);
                } else if seen {
                    let j = choose|j: int| 0 <= j < before.len() && (#[trigger] before[j])@ == w@;
                    assert(out@[j] == before[j]);
                } else {
                    assert(out@[out@.len() - 1]@ == x);
                }
            }
        }
    }
    assert(wv.take(ws@.len() as int) == wv);
    out
}

/// The device a well-formed search response or advertisement `text` announces.
pub open spec fn describes(text: Seq<char>, d: Device) -> bool {
    let hs = message_headers(text);
    &&& last_value(hs, "id"@) == Some(d.id@)
    &&& announced_location(hs) == Some(d.location)
    &&& d.model@ == (match last_value(hs, "model"@) {
        Some(m) => model_of(m),
        None => ModelV::Unknown(Seq::empty()),
    })
    &&& d.fw_ver@ == (match last_value(hs, "fw_ver"@) {
        Some(v) => v,
        None => Seq::empty(),
    })
    &&& support_set(d.support@) == Set::new(
        |w: Seq<char>|
            words_v(
                match last_value(hs, "support"@) {
                    Some(v) => v,
                    None => Seq::empty(),
                },
            ).contains(w),
    )
    &&& no_dup_names(d.support@)
    &&& state_of(hs, d.state)
}

/// Parse a search response (`HTTP/1.1 200 OK`) or advertisement (`NOTIFY`) into a
/// [`Device`].
///
/// Returns `None` for malformed messages (silently dropped). Header names are
/// case-insensitive; only the first `:` splits a header line so `Location` URLs survive.
pub fn parse_headers(text: &str) -> (r: Option<Device>)
    ensures
        r is Some == announces_device(text@),
        r matches Some(d) ==> describes(text@, d),
{
    let chars = chars_of(text);
    let ls = lines(&chars);
    if ls.len() == 0 {
        return None;
    }
    assert(ls@[0]@ == lines_v(text@)[0]);
    let start = trim_chars(&ls[0]);
    let http = chars_of("HTTP/1.1");
    let notify = chars_of("NOTIFY");
    if !(starts_with(&start, &http) || starts_with(&start, &notify)) {
        return None;
    }
    let h = headers_of(&ls, 1);
    assert(entries_v(h.entries@) == message_headers(text@));
    let id = match h.get("id") {
        Some(v) => v.clone(),
        None => {
            return None;
        },
    };
    let loc = match h.get("location") {
        Some(v) => v,
        None => {
            return None;
        },
    };
    let lv = chars_of(loc.as_str());
    let scheme = chars_of("yeelight://");
    if !starts_with(&lv, &scheme) {
        return None;
    }
    let rest = sub_chars(&lv, scheme.len(), lv.len());
    assert(rest@ == lv@.skip(scheme@.len() as int));
    let location = match parse_location(&rest) {
        Some(l) => l,
        None => {
            return None;
        },
    };
    let model = match h.get("model") {
        Some(m) => Model::parse(m.as_str()),
        None => Model::Unknown(String::new()),
    };
    let fw_ver = match h.get("fw_ver") {
        Some(v) => v.clone(),
        None => String::new(),
    };
    let support = match h.get("support") {
        Some(s) => unique_words(s.as_str()),
        None => unique_words(""),
    };
    proof {
        reveal_strlit("");
    }
    let state = parse_state(&h);
    let ghost hs = message_headers(text@);
    assert(last_value(hs, "id"@) == Some(id@));
    assert(announced_location(hs) == Some(location));
    assert(model@ == (match last_value(hs, "model"@) {
        Some(m) => model_of(m),
        None => ModelV::Unknown(Seq::empty()),
    }));
    assert(fw_ver@ == (match last_value(hs, "fw_ver"@) {
        Some(v) => v,
        None => Seq::empty(),
    }));
    assert(support_set(support@) == Set::new(
        |w: Seq<char>|
            words_v(
                match last_value(hs, "support"@) {
                    Some(v) => v,
                    None => Seq::empty(),
                },
            ).contains(w),
    ));
    Some(Device { id, model, fw_ver, location, support, state })
}

/// The ids of a list of devices.
pub open spec fn ids_v(ds: Seq<Device>) -> Seq<Seq<char>> {
    ds.map_values(|d: Device| d.id@)
}

/// Record a device heard during a search, de-duplicated by id: a device already
/// heard is replaced by the newer announcement in its place; a new one is appended.
pub fn record_device(found: &mut Vec<Device>, d: Device)
    ensures
        ids_v(old(found)@).contains(d.id@) ==> exists|i: int|
            0 <= i < old(found)@.len() && ids_v(old(found)@)[i] == d.id@
                && final(found)@ == old(found)@.update(i, d),
        !ids_v(old(found)@).contains(d.id@) ==> final(found)@ == old(found)@.push(d),
{
    let id = chars_of(d.id.as_str());
    let mut i: usize = 0;
    while i < found.len()
        invariant
            i <= found@.len(),
            found@ == old(found)@,
            id@ == d.id@,
            forall|j: int| 0 <= j < i ==> ids_v(found@)[j] != d.id@,
        decreases found@.len() - i,
    {
        let other = chars_of(found[i].id.as_str());
        assert(ids_v(found@)[i as int] == other@);
        if chars_eq(&other, &id) {
            found.set(i, d);
            return;
        }
        i = i + 1;
    }
    proof {
        if ids_v(old(found)@).contains(d.id@) {
            let j = choose|j: int| 0 <= j < ids_v(old(found)@).len() && ids_v(old(found)@)[j] == d.id@;
            assert(false);
        }
    }
    found.push(d);
}


// ----- reading back header lines -------------------------------------------------------

/// A line `name: value`, with a name free of `:` and of surrounding whitespace, is
/// the header `(name in lowercase, value trimmed)`.
pub proof fn lemma_header_pair_line(name: Seq<char>, value: Seq<char>)
    requires
        forall|i: int| 0 <= i < name.len() ==> name[i] != ':',
        trim(name) == name,
    ensures
        header_pair(name + seq![':', ' '] + value) == Some((lower_seq(name), trim(value))),
{
    let line = name + seq![':', ' '] + value;
    assert forall|i: int| 0 <= i < name.len() implies line[i] != ':' by {
        assert(line[i] == name[i]);
    }
    lemma_find_char(line, ':', name.len() as int);
    assert(line.take(name.len() as int) =~= name);
    let tail = line.skip(name.len() + 1int);
    assert(tail =~= seq![' '] + value);
    assert(tail.drop_first() =~= value);
    assert(is_ws(' '));
    assert(trim_start(tail) == trim_start(value));
}

/// The headers of lines that all are header lines: one pair per line, in order.
pub proof fn lemma_header_pairs_all(ls: Seq<Seq<char>>)
    requires
        forall|i: int| 0 <= i < ls.len() ==> (#[trigger] header_pair(ls[i])) is Some,
    ensures
        header_pairs(ls) == Seq::new(ls.len(), |i: int| header_pair(ls[i])->0),
    decreases ls.len(),
{
    if ls.len() > 0 {
        let front = ls.drop_last();
        assert forall|i: int| 0 <= i < front.len() implies (#[trigger] header_pair(front[i])) is Some by {
            assert(front[i] == ls[i]);
            assert(header_pair(ls[i]) is Some);
        }
        lemma_header_pairs_all(front);
        assert(header_pair(ls[ls.len() - 1]) is Some);
        assert(header_pairs(ls) =~= Seq::new(ls.len(), |i: int| header_pair(ls[i])->0));
    }
}

/// The value of header `k` is the one at index `i` when no later header is named `k`.
pub proof fn lemma_last_value_at(hs: Seq<(Seq<char>, Seq<char>)>, k: Seq<char>, i: int)
    requires
        0 <= i < hs.len(),
        hs[i].0 == k,
        forall|j: int| i < j < hs.len() ==> (#[trigger] hs[j]).0 != k,
    ensures
        last_value(hs, k) == Some(hs[i].1),
    decreases hs.len(),
{
    if i < hs.len() - 1 {
        let front = hs.drop_last();
        assert(hs.last() == hs[hs.len() - 1]);
        assert forall|j: int| i < j < front.len() implies (#[trigger] front[j]).0 != k by {
            assert(front[j] == hs[j]);
        }
        lemma_last_value_at(front, k, i);
    }
}


/// No two devices share an id.
pub open spec fn distinct_ids(ds: Seq<Device>) -> bool {
    forall|i: int, j: int| 0 <= i < j < ds.len() ==> (#[trigger] ds[i]).id@ != (#[trigger] ds[j]).id@
}

/// `d` is, at index `i`, the last device of `ds` with its id.
pub open spec fn last_with_id_at(ds: Seq<Device>, d: Device, i: int) -> bool {
    &&& 0 <= i < ds.len()
    &&& ds[i] == d
    &&& forall|j: int| i < j < ds.len() ==> (#[trigger] ds[j]).id@ != d.id@
}

/// `d` is the last device of `ds` with its id.
pub open spec fn last_with_id(ds: Seq<Device>, d: Device) -> bool {
    exists|i: int| #[trigger] last_with_id_at(ds, d, i)
}

/// Some device of `found` carries the id `id`.
pub open spec fn has_id(found: Seq<Device>, id: Seq<char>) -> bool {
    exists|k: int| 0 <= k < found.len() && (#[trigger] found[k]).id@ == id
}

/// The result of a search from the devices heard, in the order heard: one device per
/// id, each the last one heard with that id, and every id heard is there.
pub fn merge_devices(heard: Vec<Device>) -> (found: Vec<Device>)
    ensures
        distinct_ids(found@),
        forall|k: int| 0 <= k < found@.len() ==> last_with_id(heard@, #[trigger] found@[k]),
        forall|i: int| 0 <= i < heard@.len() ==> has_id(found@, (#[trigger] heard@[i]).id@),
{
    let mut found: Vec<Device> = Vec::new();
    let mut rest = heard;
    let ghost h = rest@;
    while rest.len() > 0
        invariant
            rest@.len() <= h.len(),
            rest@ == h.skip(h.len() - rest@.len()),
            distinct_ids(found@),
            forall|k: int|
                0 <= k < found@.len() ==> last_with_id(h.take(h.len() - rest@.len()), #[trigger] found@[k]),
            forall|i: int|
                0 <= i < h.len() - rest@.len() ==> has_id(found@, (#[trigger] h[i]).id@),
        decreases rest@.len(),
    {
        let ghost n = h.len() - rest@.len();
        let ghost old_found = found@;
        let d = rest.remove(0);
        assert(d == h[n]);
        let ghost t = h.take(n + 1);
        assert(t.take(n) =~= h.take(n));
        assert(rest@ =~= h.skip(n + 1));
        record_device(&mut found, d);
        proof {
            if ids_v(old_found).contains(d.id@) {
                let i0 = choose|i: int|
                    0 <= i < old_found.len() && ids_v(old_found)[i] == d.id@ && found@ == old_found.update(i, d);
                assert(found@ == old_found.update(i0, d));
                assert(old_found[i0].id@ == d.id@);
                assert forall|a: int, b: int| 0 <= a < b < found@.len() implies (#[trigger] found@[a]).id@
                    != (#[trigger] found@[b]).id@ by {
                    assert(old_found[a].id@ != old_found[b].id@);
                }
                assert forall|k: int| 0 <= k < found@.len() implies last_with_id(t, #[trigger] found@[k]) by {
                    if k == i0 {
                        assert(last_with_id_at(t, d, n));
                    } else {
                        assert(found@[k] == old_found[k]);
                        assert(last_with_id(h.take(n), old_found[k]));
                        let i = choose|i: int| #[trigger] last_with_id_at(h.take(n), old_found[k], i);
                        assert(old_found[k].id@ != old_found[i0].id@);
                        assert(last_with_id_at(t, old_found[k], i));
                    }
                }
                assert forall|i: int| 0 <= i < n + 1 implies has_id(found@, (#[trigger] h[i]).id@) by {
                    if i == n {
                        assert(found@[i0].id@ == h[i].id@);
                    } else {
                        assert(has_id(old_found, h[i].id@));
                        let k = choose|k: int| 0 <= k < old_found.len() && (#[trigger] old_found[k]).id@ == h[i].id@;
                        if k == i0 {
                            assert(found@[k].id@ == h[i].id@);
                        } else {
                            assert(found@[k] == old_found[k]);
                        }
                    }
                }
            } else {
                assert(found@ == old_found.push(d));
                assert forall|k: int| 0 <= k < old_found.len() implies (#[trigger] old_found[k]).id@ != d.id@ by {
                    assert(ids_v(old_found)[k] == old_found[k].id@);
                }
                assert forall|a: int, b: int| 0 <= a < b < found@.len() implies (#[trigger] found@[a]).id@
                    != (#[trigger] found@[b]).id@ by {
                    if b < old_found.len() {
                        assert(old_found[a].id@ != old_found[b].id@);
                    } else {
                        assert(found@[a] == old_found[a]);
                    }
                }
                assert forall|k: int| 0 <= k < found@.len() implies last_with_id(t, #[trigger] found@[k]) by {
                    if k == old_found.len() {
                        assert(last_with_id_at(t, d, n));
                    } else {
                        assert(found@[k] == old_found[k]);
                        assert(last_with_id(h.take(n), old_found[k]));
                        let i = choose|i: int| #[trigger] last_with_id_at(h.take(n), old_found[k], i);
                        assert(last_with_id_at(t, old_found[k], i));
                    }
                }
                assert forall|i: int| 0 <= i < n + 1 implies has_id(found@, (#[trigger] h[i]).id@) by {
                    if i == n {
                        assert(found@[old_found.len() as int].id@ == h[i].id@);
                    } else {
                        assert(has_id(old_found, h[i].id@));
                        let k = choose|k: int| 0 <= k < old_found.len() && (#[trigger] old_found[k]).id@ == h[i].id@;
                        assert(found@[k] == old_found[k]);
                    }
                }
            }
        }
    }
    assert(h.take(h.len() as int) =~= h);
    found
}

} // verus!
