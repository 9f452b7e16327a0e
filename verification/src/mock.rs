//! A fake bulb for development without hardware: its property store, how commands
//! change it, and the discovery response it announces itself with.
//!
//! Sockets and the serving loops live outside the library.

use vstd::prelude::*;

use crate::device::{location_text, model_of, support_set, Device, Location};
use crate::discovery::{
    announces_device, describes, header_pair, last_value, lemma_header_pair_line, lemma_header_pairs_all,
    lemma_last_value_at, location_text_round_trip, message_headers,
};
use crate::json::{as_str_v, as_u64_v, get_v, json_v, lemma_items_v, parse_json, parsed_json, Json, JsonV};
use crate::text::{
    chars_eq, chars_of, crlf_join, dec, extend_chars, is_ws, lemma_crlf_join_push, lemma_dec_digits,
    lemma_lines_crlf, lemma_no_lf_add, lemma_trim_fixed, lines_v, lower, lower_seq, no_lf, push_dec, string_of,
    trim, words_v,
};

verus! {

/// A bulb's properties: names mapped to their string values, each name once.
#[derive(Debug)]
pub struct Props {
    entries: Vec<(String, String)>,
}

/// Whether no name occurs twice.
pub open spec fn distinct_names(es: Seq<(String, String)>) -> bool {
    forall|i: int, j: int| 0 <= i < j < es.len() ==> (#[trigger] es[i]).0@ != (#[trigger] es[j]).0@
}

/// The map of property names to values held by `es` (names distinct).
pub open spec fn props_map(es: Seq<(String, String)>) -> Map<Seq<char>, Seq<char>>
    decreases es.len(),
{
    if es.len() == 0 {
        Map::empty()
    } else {
        props_map(es.drop_last()).insert(es.last().0@, es.last().1@)
    }
}

proof fn lemma_props_map(es: Seq<(String, String)>, k: Seq<char>)
    requires
        distinct_names(es),
    ensures
        props_map(es).contains_key(k) <==> exists|i: int| 0 <= i < es.len() && (#[trigger] es[i]).0@ == k,
        forall|i: int| 0 <= i < es.len() && (#[trigger] es[i]).0@ == k ==> props_map(es)[k] == es[i].1@,
    decreases es.len(),
{
    if es.len() > 0 {
        let p = es.drop_last();
        assert(distinct_names(p)) by {
            assert forall|i: int, j: int| 0 <= i < j < p.len() implies (#[trigger] p[i]).0@ != (
            #[trigger] p[j]).0@ by {
                assert(p[i] == es[i] && p[j] == es[j]);
            }
        }
        lemma_props_map(p, k);
        if props_map(p).contains_key(k) {
            let i = choose|i: int| 0 <= i < p.len() && (#[trigger] p[i]).0@ == k;
            assert(es[i] == p[i]);
        }
        assert forall|i: int| 0 <= i < es.len() && (#[trigger] es[i]).0@ == k implies props_map(
            es,
        )[k] == es[i].1@ by {
            if i < es.len() - 1 {
                assert(es[i] == p[i]);
            }
        }
        if exists|i: int| 0 <= i < es.len() && (#[trigger] es[i]).0@ == k {
            let i = choose|i: int| 0 <= i < es.len() && (#[trigger] es[i]).0@ == k;
            if i < es.len() - 1 {
                assert(es[i] == p[i]);
            }
        }
    }
}

impl Props {
    /// Names are distinct.
    #[verifier::type_invariant]
    spec fn inv(self) -> bool {
        distinct_names(self.entries@)
    }

    /// The properties as a map of names to values.
    pub closed spec fn map(self) -> Map<Seq<char>, Seq<char>> {
        props_map(self.entries@)
    }

    /// No properties.
    pub fn new() -> (p: Props)
        ensures
            p.map() == Map::<Seq<char>, Seq<char>>::empty(),
    {
        Props { entries: Vec::new() }
    }

    /// The value of property `key`.
    pub fn get(&self, key: &str) -> (r: Option<&String>)
        ensures
            match r {
                Some(v) => self.map().contains_key(key@) && self.map()[key@] == v@,
                None => !self.map().contains_key(key@),
            },
    {
        proof {
            use_type_invariant(self);
            lemma_props_map(self.entries@, key@);
        }
        let k = chars_of(key);
        let mut i: usize = 0;
        while i < self.entries.len()
            invariant
                i <= self.entries@.len(),
                k@ == key@,
                forall|j: int| 0 <= j < i ==> (#[trigger] self.entries@[j]).0@ != key@,
            decreases self.entries@.len() - i,
        {
            let n = chars_of(self.entries[i].0.as_str());
            if chars_eq(&n, &k) {
                proof {
                    use_type_invariant(self);
                    lemma_props_map(self.entries@, key@);
                }
                return Some(&self.entries[i].1);
            }
            i = i + 1;
        }
        None
    }

    /// Set property `key` to `value`.
    pub fn insert(&mut self, key: &str, value: String)
        ensures
            final(self).map() == old(self).map().insert(key@, value@),
    {
        proof {
            use_type_invariant(&*self);
        }
        let k = chars_of(key);
        let mut i: usize = 0;
        while i < self.entries.len()
            invariant
                i <= self.entries@.len(),
                k@ == key@,
                distinct_names(self.entries@),
                self.entries@ == old(self).entries@,
                forall|j: int| 0 <= j < i ==> (#[trigger] self.entries@[j]).0@ != key@,
            decreases self.entries@.len() - i,
        {
            let n = chars_of(self.entries[i].0.as_str());
            if chars_eq(&n, &k) {
                let ghost before = self.entries@;
                let name = self.entries[i].0.clone();
                let mut es: Vec<(String, String)> = Vec::new();
                std::mem::swap(&mut es, &mut self.entries);
                es.set(i, (name, value));
                proof {
                    let after = es@;
                    assert(distinct_names(after)) by {
                        assert forall|x: int, y: int| 0 <= x < y < after.len() implies (
                        #[trigger] after[x]).0@ != (#[trigger] after[y]).0@ by {
                            assert(after[x].0@ == before[x].0@ && after[y].0@ == before[y].0@);
                        }
                    }
                    let want = props_map(before).insert(key@, value@);
                    assert forall|kk: Seq<char>|
                        #[trigger] props_map(after).contains_key(kk) == want.contains_key(kk)
                        && (props_map(after).contains_key(kk) ==> props_map(after)[kk] == want[kk]) by {
                        lemma_props_map(after, kk);
                        lemma_props_map(before, kk);
                        if kk != key@ {
                            if props_map(after).contains_key(kk) {
                                let j = choose|j: int| 0 <= j < after.len() && (#[trigger] after[j]).0@ == kk;
                                assert(before[j] == after[j]);
                            }
                            if props_map(before).contains_key(kk) {
                                let j = choose|j: int| 0 <= j < before.len() && (#[trigger] before[j]).0@ == kk;
                                assert(before[j] == after[j]);
                            }
                        } else {
                            assert(after[i as int].0@ == kk);
                        }
                    }
                    assert(props_map(after).dom() =~= want.dom());
                    assert(props_map(after) =~= want);
                }
                self.entries = es;
                return;
            }
            i = i + 1;
        }
        let ghost before = self.entries@;
        let name = crate::text::string_of(&k);
        let mut es: Vec<(String, String)> = Vec::new();
        std::mem::swap(&mut es, &mut self.entries);
        es.push((name, value));
        proof {
            let after = es@;
            assert(after.drop_last() == before);
            assert(distinct_names(after)) by {
                assert forall|x: int, y: int| 0 <= x < y < after.len() implies (
                #[trigger] after[x]).0@ != (#[trigger] after[y]).0@ by {
                    if y < before.len() {
                        assert(after[x] == before[x] && after[y] == before[y]);
                    } else {
                        assert(after[x] == before[x]);
                    }
                }
            }
        }
        self.entries = es;
    }
}

/// The wire text of a parameter, as the bulb stores it: a string as is, anything
/// else as its JSON text.
pub open spec fn param_text(v: JsonV) -> Seq<char> {
    match v {
        JsonV::Str(s) => s,
        JsonV::Null => "null"@,
        JsonV::Bool(b) => if b {
            "true"@
        } else {
            "false"@
        },
        JsonV::Number(_, _, t) => t,
        JsonV::Array(_, t) => t,
        JsonV::Object(_, t) => t,
    }
}

/// The wire text of a parameter (see [`param_text`]).
fn param_string(v: &Json) -> (s: String)
    ensures
        s@ == param_text(v@),
{
    match v {
        Json::Str(s) => s.clone(),
        Json::Null => "null".to_string(),
        Json::Bool(b) => if *b {
            "true".to_string()
        } else {
            "false".to_string()
        },
        Json::Number(n) => n.text.clone(),
        Json::Array(_, t) => t.clone(),
        Json::Object(_, t) => t.clone(),
    }
}

/// `m` with `key` set to the text of parameter `idx`, when there is one.
pub open spec fn set_v(m: Map<Seq<char>, Seq<char>>, key: Seq<char>, params: Seq<JsonV>, idx: int) -> Map<
    Seq<char>,
    Seq<char>,
> {
    if 0 <= idx < params.len() {
        m.insert(key, param_text(params[idx]))
    } else {
        m
    }
}

/// Store `params[idx]` (as its string form, per the wire protocol) under `key`.
pub fn set(state: &mut Props, key: &str, params: &[Json], idx: usize)
    ensures
        final(state).map() == set_v(old(state).map(), key@, crate::json::items_v(params@), idx as int),
{
    proof {
        lemma_items_v(params@);
    }
    if idx < params.len() {
        let s = param_string(&params[idx]);
        state.insert(key, s);
    }
}

/// What a command is answered with.
#[derive(Debug, Clone, PartialEq, Eq)]
pub enum MockReply {
    /// `["ok"]`.
    Ack,
    /// The requested property values, in order.
    Values(Vec<String>),
}

/// The values `get_prop` reports for `params`: each string parameter's property
/// value (empty when unknown); other parameters are skipped.
pub open spec fn get_prop_v(m: Map<Seq<char>, Seq<char>>, params: Seq<JsonV>) -> Seq<Seq<char>>
    decreases params.len(),
{
    if params.len() == 0 {
        Seq::empty()
    } else {
        let rest = get_prop_v(m, params.drop_last());
        match params.last() {
            JsonV::Str(k) => rest.push(if m.contains_key(k) { m[k] } else { Seq::empty() }),
            _ => rest,
        }
    }
}

/// `m` with `power` set to `v`.
pub open spec fn with_power(m: Map<Seq<char>, Seq<char>>, v: Seq<char>) -> Map<Seq<char>, Seq<char>> {
    m.insert("power"@, v)
}

/// What command `method` with `params` does to the property map `m`: the reply, the
/// new map, and the names of the properties it changed (for a `props` notification).
/// Unknown methods (and `bg_*` ones, which the fake bulb does not model) just
/// answer `ok`.
pub open spec fn apply_v(m: Map<Seq<char>, Seq<char>>, method: Seq<char>, params: Seq<JsonV>) -> (
    Option<Seq<Seq<char>>>,
    Map<Seq<char>, Seq<char>>,
    Seq<Seq<char>>,
) {
    if method == "get_prop"@ {
        (Some(get_prop_v(m, params)), m, Seq::empty())
    } else if method == "set_power"@ {
        (None, set_v(m, "power"@, params, 0), seq!["power"@])
    } else if method == "toggle"@ || method == "dev_toggle"@ {
        let on = m.contains_key("power"@) && m["power"@] == "on"@;
        (None, with_power(m, if on { "off"@ } else { "on"@ }), seq!["power"@])
    } else if method == "set_bright"@ {
        (None, set_v(m, "bright"@, params, 0), seq!["bright"@])
    } else if method == "set_rgb"@ {
        (None, set_v(m, "rgb"@, params, 0).insert("color_mode"@, "1"@), seq!["rgb"@, "color_mode"@])
    } else if method == "set_ct_abx"@ {
        (None, set_v(m, "ct"@, params, 0).insert("color_mode"@, "2"@), seq!["ct"@, "color_mode"@])
    } else if method == "set_hsv"@ {
        (
            None,
            set_v(set_v(m, "hue"@, params, 0), "sat"@, params, 1).insert("color_mode"@, "3"@),
            seq!["hue"@, "sat"@, "color_mode"@],
        )
    } else if method == "set_name"@ {
        (None, set_v(m, "name"@, params, 0), seq!["name"@])
    } else {
        (None, m, Seq::empty())
    }
}

/// The values `get_prop` reports (see [`get_prop_v`]).
fn get_props(state: &Props, params: &[Json]) -> (r: Vec<String>)
    ensures
        r@.map_values(|s: String| s@) == get_prop_v(state.map(), crate::json::items_v(params@)),
{
    proof {
        lemma_items_v(params@);
    }
    let ghost pv = crate::json::items_v(params@);
    let mut out: Vec<String> = Vec::new();
    let mut i: usize = 0;
    while i < params.len()
        invariant
            i <= params@.len(),
            pv == crate::json::items_v(params@),
            pv.len() == params@.len(),
            forall|j: int| 0 <= j < params@.len() ==> #[trigger] pv[j] == json_v(params@[j]),
            out@.map_values(|s: String| s@) == get_prop_v(state.map(), pv.take(i as int)),
        decreases params@.len() - i,
    {
        let ghost before = out@;
        assert(pv.take(i + 1).drop_last() == pv.take(i as int));
        assert(pv.take(i + 1).last() == json_v(params@[i as int]));
        match params[i].as_str() {
            Some(k) => {
                let v = match state.get(k) {
                    Some(v) => v.clone(),
                    None => String::new(),
                };
                out.push(v);
                assert(out@.map_values(|s: String| s@) =~= before.map_values(|s: String| s@).push(v@));
            },
            None => {},
        }
        i = i + 1;
    }
    assert(pv.take(params@.len() as int) == pv);
    out
}

/// Mutate the fake bulb's properties for `method` and return the reply and the
/// names of the changed properties (see [`apply_v`]).
pub fn apply(state: &mut Props, method: &str, params: &[Json]) -> (r: (MockReply, Vec<&'static str>))
    ensures
        ({
            let (reply, m, changed) = apply_v(old(state).map(), method@, crate::json::items_v(params@));
            &&& final(state).map() == m
            &&& r.1@.map_values(|s: &str| s@) == changed
            &&& match reply {
                Some(vals) => r.0 matches MockReply::Values(vs) && vs@.map_values(|s: String| s@) == vals,
                None => r.0 == MockReply::Ack,
            }
        }),
{
    let mv = chars_of(method);
    let is = |lit: &str| -> (b: bool)
        ensures
            b == (mv@ == lit@),
    {
        chars_eq(&mv, &chars_of(lit))
    };
    if is("get_prop") {
        let vals = get_props(state, params);
        let none: Vec<&'static str> = Vec::new();
        assert(none@.map_values(|s: &str| s@) =~= Seq::<Seq<char>>::empty());
        return (MockReply::Values(vals), none);
    }
    let changed: Vec<&'static str> = if is("set_power") {
        set(state, "power", params, 0);
        vec!["power"]
    } else if is("toggle") || is("dev_toggle") {
        let on = match state.get("power") {
            Some(p) => {
                let pc = chars_of(p.as_str());
                chars_eq(&pc, &chars_of("on"))
            },
            None => false,
        };
        state.insert("power", if on {
            "off".to_string()
        } else {
            "on".to_string()
        });
        vec!["power"]
    } else if is("set_bright") {
        set(state, "bright", params, 0);
        vec!["bright"]
    } else if is("set_rgb") {
        set(state, "rgb", params, 0);
        state.insert("color_mode", "1".to_string());
        vec!["rgb", "color_mode"]
    } else if is("set_ct_abx") {
        set(state, "ct", params, 0);
        state.insert("color_mode", "2".to_string());
        vec!["ct", "color_mode"]
    } else if is("set_hsv") {
        set(state, "hue", params, 0);
        set(state, "sat", params, 1);
        state.insert("color_mode", "3".to_string());
        vec!["hue", "sat", "color_mode"]
    } else if is("set_name") {
        set(state, "name", params, 0);
        vec!["name"]
    } else {
        Vec::new()
    };
    assert(changed@.map_values(|s: &str| s@) =~= apply_v(
        old(state).map(),
        method@,
        crate::json::items_v(params@),
    ).2);
    (MockReply::Ack, changed)
}

/// Toggling twice restores a known power state.
pub proof fn toggle_twice_restores(m: Map<Seq<char>, Seq<char>>)
    requires
        m.contains_key("power"@),
        m["power"@] == "on"@ || m["power"@] == "off"@,
    ensures
        apply_v(apply_v(m, "toggle"@, Seq::empty()).1, "toggle"@, Seq::empty()).1 == m,
{
    reveal_strlit("on");
    reveal_strlit("off");
    reveal_strlit("get_prop");
    reveal_strlit("set_power");
    reveal_strlit("toggle");
    assert("toggle"@ != "get_prop"@) by {
        assert("toggle"@[0] != "get_prop"@[0]);
    }
    assert("toggle"@ != "set_power"@) by {
        assert("toggle"@[0] != "set_power"@[0]);
    }
    assert("on"@ != "off"@) by {
        assert("on"@[1] != "off"@[1]);
    }
    let m1 = apply_v(m, "toggle"@, Seq::empty()).1;
    assert(m1.contains_key("power"@));
    assert(apply_v(m1, "toggle"@, Seq::empty()).1 =~= m);
}

/// The command names the fake bulb tells apart, and the property names it keeps,
/// are all distinct.
proof fn lemma_names_distinct()
    ensures
        "get_prop"@ != "set_power"@,
        "get_prop"@ != "toggle"@,
        "get_prop"@ != "dev_toggle"@,
        "get_prop"@ != "set_bright"@,
        "get_prop"@ != "set_rgb"@,
        "get_prop"@ != "set_ct_abx"@,
        "get_prop"@ != "set_hsv"@,
        "get_prop"@ != "set_name"@,
        "set_power"@ != "toggle"@,
        "set_power"@ != "dev_toggle"@,
        "set_power"@ != "set_bright"@,
        "set_power"@ != "set_rgb"@,
        "set_power"@ != "set_ct_abx"@,
        "set_power"@ != "set_hsv"@,
        "set_power"@ != "set_name"@,
        "toggle"@ != "dev_toggle"@,
        "toggle"@ != "set_bright"@,
        "toggle"@ != "set_rgb"@,
        "toggle"@ != "set_ct_abx"@,
        "toggle"@ != "set_hsv"@,
        "toggle"@ != "set_name"@,
        "dev_toggle"@ != "set_bright"@,
        "dev_toggle"@ != "set_rgb"@,
        "dev_toggle"@ != "set_ct_abx"@,
        "dev_toggle"@ != "set_hsv"@,
        "dev_toggle"@ != "set_name"@,
        "set_bright"@ != "set_rgb"@,
        "set_bright"@ != "set_ct_abx"@,
        "set_bright"@ != "set_hsv"@,
        "set_bright"@ != "set_name"@,
        "set_rgb"@ != "set_ct_abx"@,
        "set_rgb"@ != "set_hsv"@,
        "set_rgb"@ != "set_name"@,
        "set_ct_abx"@ != "set_hsv"@,
        "set_ct_abx"@ != "set_name"@,
        "set_hsv"@ != "set_name"@,
        "power"@ != "bright"@,
        "power"@ != "rgb"@,
        "power"@ != "ct"@,
        "power"@ != "hue"@,
        "power"@ != "sat"@,
        "power"@ != "color_mode"@,
        "power"@ != "name"@,
        "bright"@ != "rgb"@,
        "bright"@ != "ct"@,
        "bright"@ != "hue"@,
        "bright"@ != "sat"@,
        "bright"@ != "color_mode"@,
        "bright"@ != "name"@,
        "rgb"@ != "ct"@,
        "rgb"@ != "hue"@,
        "rgb"@ != "sat"@,
        "rgb"@ != "color_mode"@,
        "rgb"@ != "name"@,
        "ct"@ != "hue"@,
        "ct"@ != "sat"@,
        "ct"@ != "color_mode"@,
        "ct"@ != "name"@,
        "hue"@ != "sat"@,
        "hue"@ != "color_mode"@,
        "hue"@ != "name"@,
        "sat"@ != "color_mode"@,
        "sat"@ != "name"@,
        "color_mode"@ != "name"@,
{
    reveal_strlit("get_prop");
    reveal_strlit("set_power");
    reveal_strlit("toggle");
    reveal_strlit("dev_toggle");
    reveal_strlit("set_bright");
    reveal_strlit("set_rgb");
    reveal_strlit("set_ct_abx");
    reveal_strlit("set_hsv");
    reveal_strlit("set_name");
    reveal_strlit("power");
    reveal_strlit("bright");
    reveal_strlit("rgb");
    reveal_strlit("ct");
    reveal_strlit("hue");
    reveal_strlit("sat");
    reveal_strlit("color_mode");
    reveal_strlit("name");
    assert("get_prop"@[0] != "set_power"@[0]);
    assert("get_prop"@[0] != "toggle"@[0]);
    assert("get_prop"@[0] != "dev_toggle"@[0]);
    assert("get_prop"@[0] != "set_bright"@[0]);
    assert("get_prop"@[0] != "set_rgb"@[0]);
    assert("get_prop"@[0] != "set_ct_abx"@[0]);
    assert("get_prop"@[0] != "set_hsv"@[0]);
    assert("get_prop"@[0] != "set_name"@[0]);
    assert("set_power"@[0] != "toggle"@[0]);
    assert("set_power"@[0] != "dev_toggle"@[0]);
    assert("set_power"@[4] != "set_bright"@[4]);
    assert("set_power"@[4] != "set_rgb"@[4]);
    assert("set_power"@[4] != "set_ct_abx"@[4]);
    assert("set_power"@[4] != "set_hsv"@[4]);
    assert("set_power"@[4] != "set_name"@[4]);
    assert("toggle"@[0] != "dev_toggle"@[0]);
    assert("toggle"@[0] != "set_bright"@[0]);
    assert("toggle"@[0] != "set_rgb"@[0]);
    assert("toggle"@[0] != "set_ct_abx"@[0]);
    assert("toggle"@[0] != "set_hsv"@[0]);
    assert("toggle"@[0] != "set_name"@[0]);
    assert("dev_toggle"@[0] != "set_bright"@[0]);
    assert("dev_toggle"@[0] != "set_rgb"@[0]);
    assert("dev_toggle"@[0] != "set_ct_abx"@[0]);
    assert("dev_toggle"@[0] != "set_hsv"@[0]);
    assert("dev_toggle"@[0] != "set_name"@[0]);
    assert("set_bright"@[4] != "set_rgb"@[4]);
    assert("set_bright"@[4] != "set_ct_abx"@[4]);
    assert("set_bright"@[4] != "set_hsv"@[4]);
    assert("set_bright"@[4] != "set_name"@[4]);
    assert("set_rgb"@[4] != "set_ct_abx"@[4]);
    assert("set_rgb"@[4] != "set_hsv"@[4]);
    assert("set_rgb"@[4] != "set_name"@[4]);
    assert("set_ct_abx"@[4] != "set_hsv"@[4]);
    assert("set_ct_abx"@[4] != "set_name"@[4]);
    assert("set_hsv"@[4] != "set_name"@[4]);
    assert("power"@[0] != "bright"@[0]);
    assert("power"@[0] != "rgb"@[0]);
    assert("power"@[0] != "ct"@[0]);
    assert("power"@[0] != "hue"@[0]);
    assert("power"@[0] != "sat"@[0]);
    assert("power"@[0] != "color_mode"@[0]);
    assert("power"@[0] != "name"@[0]);
    assert("bright"@[0] != "rgb"@[0]);
    assert("bright"@[0] != "ct"@[0]);
    assert("bright"@[0] != "hue"@[0]);
    assert("bright"@[0] != "sat"@[0]);
    assert("bright"@[0] != "color_mode"@[0]);
    assert("bright"@[0] != "name"@[0]);
    assert("rgb"@[0] != "ct"@[0]);
    assert("rgb"@[0] != "hue"@[0]);
    assert("rgb"@[0] != "sat"@[0]);
    assert("rgb"@[0] != "color_mode"@[0]);
    assert("rgb"@[0] != "name"@[0]);
    assert("ct"@[0] != "hue"@[0]);
    assert("ct"@[0] != "sat"@[0]);
    assert("ct"@[1] != "color_mode"@[1]);
    assert("ct"@[0] != "name"@[0]);
    assert("hue"@[0] != "sat"@[0]);
    assert("hue"@[0] != "color_mode"@[0]);
    assert("hue"@[0] != "name"@[0]);
    assert("sat"@[0] != "color_mode"@[0]);
    assert("sat"@[0] != "name"@[0]);
    assert("color_mode"@[0] != "name"@[0]);
}

/// Each value command stores its parameter's text under its own property: `set_rgb`
/// the color, `set_ct_abx` the temperature, `set_hsv` the hue then the saturation,
/// `set_bright` the brightness, `set_power` the power, `set_name` the name; and
/// reports exactly the properties it changed.
pub proof fn value_commands_store_their_parameters(m: Map<Seq<char>, Seq<char>>, params: Seq<JsonV>)
    requires
        params.len() >= 2,
    ensures
        apply_v(m, "set_rgb"@, params).1["rgb"@] == param_text(params[0]),
        apply_v(m, "set_rgb"@, params).2 == seq!["rgb"@, "color_mode"@],
        apply_v(m, "set_ct_abx"@, params).1["ct"@] == param_text(params[0]),
        apply_v(m, "set_ct_abx"@, params).2 == seq!["ct"@, "color_mode"@],
        apply_v(m, "set_hsv"@, params).1["hue"@] == param_text(params[0]),
        apply_v(m, "set_hsv"@, params).1["sat"@] == param_text(params[1]),
        apply_v(m, "set_hsv"@, params).2 == seq!["hue"@, "sat"@, "color_mode"@],
        apply_v(m, "set_bright"@, params).1["bright"@] == param_text(params[0]),
        apply_v(m, "set_bright"@, params).2 == seq!["bright"@],
        apply_v(m, "set_power"@, params).1["power"@] == param_text(params[0]),
        apply_v(m, "set_power"@, params).2 == seq!["power"@],
        apply_v(m, "set_name"@, params).1["name"@] == param_text(params[0]),
        apply_v(m, "set_name"@, params).2 == seq!["name"@],
{
    lemma_names_distinct();
}

/// Each color command switches the bulb to its own color mode, with the protocol's
/// codes: `"1"` (RGB) after `set_rgb`, `"2"` (color temperature) after `set_ct_abx`
/// and `"3"` (HSV) after `set_hsv`, whatever the bulb held before; a brightness
/// change keeps the color mode.
pub proof fn color_command_sets_its_mode(m: Map<Seq<char>, Seq<char>>, params: Seq<JsonV>)
    ensures
        apply_v(m, "set_rgb"@, params).1.contains_key("color_mode"@),
        apply_v(m, "set_rgb"@, params).1["color_mode"@] == "1"@,
        apply_v(m, "set_ct_abx"@, params).1.contains_key("color_mode"@),
        apply_v(m, "set_ct_abx"@, params).1["color_mode"@] == "2"@,
        apply_v(m, "set_hsv"@, params).1.contains_key("color_mode"@),
        apply_v(m, "set_hsv"@, params).1["color_mode"@] == "3"@,
        apply_v(m, "set_bright"@, params).1.contains_key("color_mode"@) == m.contains_key("color_mode"@),
        apply_v(m, "set_bright"@, params).1["color_mode"@] == m["color_mode"@],
{
    reveal_strlit("get_prop");
    reveal_strlit("color_mode");
    reveal_strlit("set_power");
    reveal_strlit("toggle");
    reveal_strlit("dev_toggle");
    reveal_strlit("set_bright");
    reveal_strlit("set_rgb");
    reveal_strlit("set_ct_abx");
    reveal_strlit("set_hsv");
    assert("set_rgb"@ != "get_prop"@) by {
        assert("set_rgb"@[0] != "get_prop"@[0]);
    }
    assert("set_rgb"@ != "set_power"@) by {
        assert("set_rgb"@[4] != "set_power"@[4]);
    }
    assert("set_rgb"@ != "toggle"@) by {
        assert("set_rgb"@[0] != "toggle"@[0]);
    }
    assert("set_rgb"@ != "dev_toggle"@) by {
        assert("set_rgb"@[0] != "dev_toggle"@[0]);
    }
    assert("set_rgb"@ != "set_bright"@) by {
        assert("set_rgb"@[4] != "set_bright"@[4]);
    }
    assert("set_ct_abx"@ != "get_prop"@) by {
        assert("set_ct_abx"@[0] != "get_prop"@[0]);
    }
    assert("set_ct_abx"@ != "set_power"@) by {
        assert("set_ct_abx"@[4] != "set_power"@[4]);
    }
    assert("set_ct_abx"@ != "toggle"@) by {
        assert("set_ct_abx"@[0] != "toggle"@[0]);
    }
    assert("set_ct_abx"@ != "dev_toggle"@) by {
        assert("set_ct_abx"@[0] != "dev_toggle"@[0]);
    }
    assert("set_ct_abx"@ != "set_bright"@) by {
        assert("set_ct_abx"@[4] != "set_bright"@[4]);
    }
    assert("set_ct_abx"@ != "set_rgb"@) by {
        assert("set_ct_abx"@[4] != "set_rgb"@[4]);
    }
    assert("set_hsv"@ != "get_prop"@) by {
        assert("set_hsv"@[0] != "get_prop"@[0]);
    }
    assert("set_hsv"@ != "set_power"@) by {
        assert("set_hsv"@[4] != "set_power"@[4]);
    }
    assert("set_hsv"@ != "toggle"@) by {
        assert("set_hsv"@[0] != "toggle"@[0]);
    }
    assert("set_hsv"@ != "dev_toggle"@) by {
        assert("set_hsv"@[0] != "dev_toggle"@[0]);
    }
    assert("set_hsv"@ != "set_bright"@) by {
        assert("set_hsv"@[4] != "set_bright"@[4]);
    }
    assert("set_hsv"@ != "set_rgb"@) by {
        assert("set_hsv"@[4] != "set_rgb"@[4]);
    }
    assert("set_hsv"@ != "set_ct_abx"@) by {
        assert("set_hsv"@[4] != "set_ct_abx"@[4]);
    }
    assert("set_bright"@ != "get_prop"@) by {
        assert("set_bright"@[0] != "get_prop"@[0]);
    }
    assert("set_bright"@ != "set_power"@) by {
        assert("set_bright"@[4] != "set_power"@[4]);
    }
    assert("set_bright"@ != "toggle"@) by {
        assert("set_bright"@[0] != "toggle"@[0]);
    }
    assert("set_bright"@ != "dev_toggle"@) by {
        assert("set_bright"@[0] != "dev_toggle"@[0]);
    }
    reveal_strlit("bright");
    assert("bright"@ != "color_mode"@) by {
        assert("bright"@[0] != "color_mode"@[0]);
    }
}

/// A property set by a command is what `get_prop` reports next: `set_name`, then
/// `get_prop("name")`, answers the name's text.
pub proof fn get_prop_reads_set(m: Map<Seq<char>, Seq<char>>, v: JsonV)
    ensures
        apply_v(apply_v(m, "set_name"@, seq![v]).1, "get_prop"@, seq![JsonV::Str("name"@)]).0
            == Some(seq![param_text(v)]),
{
    reveal_strlit("get_prop");
    reveal_strlit("set_power");
    reveal_strlit("toggle");
    reveal_strlit("dev_toggle");
    reveal_strlit("set_bright");
    reveal_strlit("set_rgb");
    reveal_strlit("set_ct_abx");
    reveal_strlit("set_hsv");
    reveal_strlit("set_name");
    assert("set_name"@ != "get_prop"@) by {
        assert("set_name"@[0] != "get_prop"@[0]);
    }
    assert("set_name"@ != "set_power"@) by {
        assert("set_name"@[4] != "set_power"@[4]);
    }
    assert("set_name"@ != "toggle"@) by {
        assert("set_name"@[0] != "toggle"@[0]);
    }
    assert("set_name"@ != "dev_toggle"@) by {
        assert("set_name"@[0] != "dev_toggle"@[0]);
    }
    assert("set_name"@ != "set_bright"@) by {
        assert("set_name"@[4] != "set_bright"@[4]);
    }
    assert("set_name"@ != "set_rgb"@) by {
        assert("set_name"@[4] != "set_rgb"@[4]);
    }
    assert("set_name"@ != "set_ct_abx"@) by {
        assert("set_name"@[4] != "set_ct_abx"@[4]);
    }
    assert("set_name"@ != "set_hsv"@) by {
        assert("set_name"@[4] != "set_hsv"@[4]);
    }
    let m1 = apply_v(m, "set_name"@, seq![v]).1;
    assert(m1 == m.insert("name"@, param_text(v)));
    let ps = seq![JsonV::Str("name"@)];
    assert(ps.drop_last() =~= Seq::<JsonV>::empty());
    assert(ps.last() == JsonV::Str("name"@));
    assert(get_prop_v(m1, ps.drop_last()) =~= Seq::<Seq<char>>::empty());
    assert(m1.contains_key("name"@) && m1["name"@] == param_text(v));
    assert(get_prop_v(m1, ps) == get_prop_v(m1, ps.drop_last()).push(m1["name"@]));
    assert(get_prop_v(m1, ps) =~= seq![param_text(v)]);
}

/// The methods a fake bulb advertises.
pub open spec fn support_v() -> Seq<Seq<char>> {
    seq![
        "get_prop"@,
        "set_power"@,
        "toggle"@,
        "set_bright"@,
        "start_cf"@,
        "stop_cf"@,
        "set_scene"@,
        "set_ct_abx"@,
        "set_rgb"@,
        "set_hsv"@,
        "set_default"@,
        "set_name"@,
        "set_adjust"@,
        "adjust_bright"@,
        "adjust_ct"@,
        "adjust_color"@,
        "set_music"@,
        "cron_add"@,
        "cron_get"@,
        "cron_del"@,
        "bg_set_power"@,
        "bg_toggle"@,
        "bg_set_bright"@,
        "bg_set_rgb"@,
        "bg_set_ct_abx"@,
        "bg_set_hsv"@,
        "bg_set_scene"@,
        "bg_set_default"@,
        "dev_toggle"@,
    ]
}

/// Methods every fake bulb advertises: all of them, so every control is live.
pub fn support_methods() -> (v: Vec<&'static str>)
    ensures
        v@.map_values(|m: &str| m@) == support_v(),
{
    let v = vec!["get_prop", "set_power", "toggle", "set_bright", "start_cf", "stop_cf", "set_scene", "set_ct_abx", "set_rgb", "set_hsv", "set_default", "set_name", "set_adjust", "adjust_bright", "adjust_ct", "adjust_color", "set_music", "cron_add", "cron_get", "cron_del", "bg_set_power", "bg_toggle", "bg_set_bright", "bg_set_rgb", "bg_set_ct_abx", "bg_set_hsv", "bg_set_scene", "bg_set_default", "dev_toggle"];
    assert(v@.map_values(|m: &str| m@) =~= support_v());
    v
}

/// The methods joined by single spaces.
pub open spec fn joined(ms: Seq<Seq<char>>) -> Seq<char>
    decreases ms.len(),
{
    if ms.len() == 0 {
        Seq::empty()
    } else if ms.len() == 1 {
        ms[0]
    } else {
        joined(ms.drop_last()) + seq![' '] + ms.last()
    }
}

/// The `support` header value of a fake bulb: its methods joined by spaces.
pub fn support_line() -> (s: String)
    ensures
        s@ == joined(support_v()),
{
    let ms = support_methods();
    let ghost mv = ms@.map_values(|m: &str| m@);
    let mut out: Vec<char> = Vec::new();
    let mut i: usize = 0;
    while i < ms.len()
        invariant
            i <= ms@.len(),
            mv == ms@.map_values(|m: &str| m@),
            mv == support_v(),
            out@ == joined(mv.take(i as int)),
        decreases ms@.len() - i,
    {
        let ghost before = out@;
        if i > 0 {
            out.push(' ');
        }
        extend_chars(&mut out, &chars_of(ms[i]));
        i = i + 1;
        assert(mv.take(i as int).drop_last() == mv.take((i - 1) as int));
        assert(mv.take(i as int).last() == ms@[i - 1]@);
        if i == 1 {
            assert(before == Seq::<char>::empty());
            assert(out@ =~= joined(mv.take(i as int)));
        } else {
            assert(out@ =~= joined(mv.take(i as int)));
        }
    }
    assert(mv.take(ms@.len() as int) == mv);
    string_of(&out)
}

/// Lowercase hexadecimal digit for `d` (`0..=15`).
pub open spec fn lhex_digit(d: nat) -> char {
    if d < 10 {
        (48 + d) as char
    } else {
        (87 + d) as char
    }
}

/// The four lowercase hexadecimal digits of a 16-bit `n`.
pub open spec fn hex4(n: u16) -> Seq<char> {
    seq![
        lhex_digit((n as nat / 4096) % 16),
        lhex_digit((n as nat / 256) % 16),
        lhex_digit((n as nat / 16) % 16),
        lhex_digit(n as nat % 16),
    ]
}

/// One lowercase hexadecimal digit.
fn lhex(d: u16) -> (c: char)
    requires
        d < 16,
    ensures
        c == lhex_digit(d as nat),
{
    if d < 10 {
        ((48 + d) as u8) as char
    } else {
        ((87 + d) as u8) as char
    }
}

/// A fake bulb's id: `0x` and its control port as 16 lowercase hexadecimal digits
/// (unique and stable per port, so repeated scans find the same device).
pub fn mock_id(port: u16) -> (s: String)
    ensures
        s@ == "0x000000000000"@ + hex4(port),
{
    let mut out = chars_of("0x000000000000");
    out.push(lhex((port / 4096) % 16));
    out.push(lhex((port / 256) % 16));
    out.push(lhex((port / 16) % 16));
    out.push(lhex(port % 16));
    assert(out@ =~= "0x000000000000"@ + hex4(port));
    string_of(&out)
}

/// The properties a fake bulb starts with: off, full brightness, 4000 K white,
/// named `mock-<index>`.
pub open spec fn initial_map(index: u32) -> Map<Seq<char>, Seq<char>> {
    Map::empty().insert("power"@, "off"@).insert("bright"@, "100"@).insert("color_mode"@, "2"@).insert(
        "ct"@,
        "4000"@,
    ).insert("rgb"@, "16777215"@).insert("hue"@, "0"@).insert("sat"@, "0"@).insert(
        "name"@,
        "mock-"@ + dec(index as nat),
    )
}

/// The properties fake bulb number `index` starts with (see [`initial_map`]).
pub fn initial_props(index: u32) -> (p: Props)
    ensures
        p.map() == initial_map(index),
{
    let mut p = Props::new();
    p.insert("power", "off".to_string());
    p.insert("bright", "100".to_string());
    p.insert("color_mode", "2".to_string());
    p.insert("ct", "4000".to_string());
    p.insert("rgb", "16777215".to_string());
    p.insert("hue", "0".to_string());
    p.insert("sat", "0".to_string());
    let mut name = chars_of("mock-");
    push_dec(&mut name, index as u64);
    p.insert("name", string_of(&name));
    p
}

/// Immutable discovery facts for one fake bulb.
#[derive(Debug, Clone)]
pub struct Meta {
    /// Device id.
    pub id: String,
    /// Control address.
    pub location: Location,
    /// Model name.
    pub model: String,
    /// Firmware version.
    pub fw_ver: String,
    /// Space-separated supported methods.
    pub support: String,
}

/// A property's value, empty when unknown.
pub open spec fn prop_or_empty(m: Map<Seq<char>, Seq<char>>, k: Seq<char>) -> Seq<char> {
    if m.contains_key(k) {
        m[k]
    } else {
        Seq::empty()
    }
}

/// One header line `name: value\r\n`.
pub open spec fn header_line(name: Seq<char>, value: Seq<char>) -> Seq<char> {
    name + ": "@ + value + "\r\n"@
}

/// The discovery response a real bulb would unicast back.
pub open spec fn response_v(
    id: Seq<char>,
    location: Location,
    model: Seq<char>,
    fw_ver: Seq<char>,
    support: Seq<char>,
    m: Map<Seq<char>, Seq<char>>,
) -> Seq<char> {
    "HTTP/1.1 200 OK\r\n"@ + header_line("Cache-Control"@, "max-age=3600"@) + header_line(
        "Location"@,
        "yeelight://"@ + location_text(location),
    ) + header_line("id"@, id) + header_line("model"@, model) + header_line("fw_ver"@, fw_ver)
        + header_line("support"@, support) + header_line("power"@, prop_or_empty(m, "power"@))
        + header_line("bright"@, prop_or_empty(m, "bright"@)) + header_line(
        "color_mode"@,
        prop_or_empty(m, "color_mode"@),
    ) + header_line("ct"@, prop_or_empty(m, "ct"@)) + header_line("rgb"@, prop_or_empty(m, "rgb"@))
        + header_line("hue"@, prop_or_empty(m, "hue"@)) + header_line("sat"@, prop_or_empty(m, "sat"@))
        + header_line("name"@, prop_or_empty(m, "name"@))
}

/// Appends one header line `name: value\r\n`.
fn push_header(out: &mut Vec<char>, name: &str, value: &[char])
    ensures
        final(out)@ == old(out)@ + header_line(name@, value@),
{
    extend_chars(out, &chars_of(name));
    out.push(':');
    out.push(' ');
    extend_chars(out, value);
    out.push('\r');
    out.push('\n');
    proof {
        reveal_strlit(": ");
        reveal_strlit("\r\n");
    }
    assert(final(out)@ =~= old(out)@ + header_line(name@, value@));
}

/// Appends the header line for property `key`.
fn push_prop(out: &mut Vec<char>, state: &Props, key: &str)
    ensures
        final(out)@ == old(out)@ + header_line(key@, prop_or_empty(state.map(), key@)),
{
    let v = match state.get(key) {
        Some(v) => chars_of(v.as_str()),
        None => Vec::new(),
    };
    assert(v@ =~= prop_or_empty(state.map(), key@));
    push_header(out, key, &v);
}

/// Build the discovery response a real bulb would unicast back.
pub fn search_response(m: &Meta, state: &Props) -> (s: String)
    ensures
        s@ == response_v(m.id@, m.location, m.model@, m.fw_ver@, m.support@, state.map()),
{
    let mut out = chars_of("HTTP/1.1 200 OK\r\n");
    push_header(&mut out, "Cache-Control", &chars_of("max-age=3600"));
    let mut loc = chars_of("yeelight://");
    extend_chars(&mut loc, &chars_of(m.location.to_text().as_str()));
    push_header(&mut out, "Location", &loc);
    push_header(&mut out, "id", &chars_of(m.id.as_str()));
    push_header(&mut out, "model", &chars_of(m.model.as_str()));
    push_header(&mut out, "fw_ver", &chars_of(m.fw_ver.as_str()));
    push_header(&mut out, "support", &chars_of(m.support.as_str()));
    push_prop(&mut out, state, "power");
    push_prop(&mut out, state, "bright");
    push_prop(&mut out, state, "color_mode");
    push_prop(&mut out, state, "ct");
    push_prop(&mut out, state, "rgb");
    push_prop(&mut out, state, "hue");
    push_prop(&mut out, state, "sat");
    push_prop(&mut out, state, "name");
    string_of(&out)
}

/// A fake bulb's answer to one command line.
#[derive(Debug)]
pub struct MockAnswer {
    /// The command's id (0 when it had none).
    pub id: u64,
    /// The result.
    pub reply: MockReply,
    /// Changed properties with their new values, for a `props` notification.
    pub changed: Vec<(String, String)>,
}

/// Answer one command line: unparseable lines get no answer; the command's `id`
/// (0 when missing), `method` (empty when missing) and `params` (none when not an
/// array) drive [`apply`], and each changed property is reported with its value.
pub fn respond(state: &mut Props, line: &str) -> (r: Option<MockAnswer>)
    ensures
        parsed_json(line@) is None ==> r is None && final(state).map() == old(state).map(),
        parsed_json(line@) matches Some(v) ==> ({
            let params = match crate::json::get_v(v, "params"@) {
                Some(JsonV::Array(items, _)) => items,
                _ => Seq::empty(),
            };
            let method = match as_str_v(get_v(v, "method"@)) {
                Some(m) => m,
                None => Seq::empty(),
            };
            let (reply, m, changed) = apply_v(old(state).map(), method, params);
            &&& r matches Some(a)
            &&& a.id == (match as_u64_v(get_v(v, "id"@)) {
                Some(i) => i,
                None => 0,
            })
            &&& final(state).map() == m
            &&& match reply {
                Some(vals) => a.reply matches MockReply::Values(vs) && vs@.map_values(|s: String| s@)
                    == vals,
                None => a.reply == MockReply::Ack,
            }
            &&& a.changed@.map_values(|p: (String, String)| (p.0@, p.1@)) == changed.map_values(
                |k: Seq<char>| (k, prop_or_empty(m, k)),
            )
        }),
{
    let v = match parse_json(line) {
        Ok(v) => v,
        Err(_) => {
            return None;
        },
    };
    let id = match v.get("id") {
        Some(j) => match j.as_u64() {
            Some(i) => i,
            None => 0,
        },
        None => 0,
    };
    let method = match v.get("method") {
        Some(j) => match j.as_str() {
            Some(m) => m.to_string(),
            None => String::new(),
        },
        None => String::new(),
    };
    let empty: Vec<Json> = Vec::new();
    let params: &Vec<Json> = match v.get("params") {
        Some(j) => match j.as_array() {
            Some(a) => a,
            None => &empty,
        },
        None => &empty,
    };
    proof {
        lemma_items_v(empty@);
        assert(crate::json::items_v(empty@) =~= Seq::<JsonV>::empty());
    }
    let (reply, names) = apply(state, method.as_str(), params.as_slice());
    let ghost m = state.map();
    let mut changed: Vec<(String, String)> = Vec::new();
    let mut i: usize = 0;
    while i < names.len()
        invariant
            i <= names@.len(),
            state.map() == m,
            changed@.map_values(|p: (String, String)| (p.0@, p.1@)) == names@.take(i as int).map_values(
                |s: &str| s@,
            ).map_values(|k: Seq<char>| (k, prop_or_empty(m, k))),
        decreases names@.len() - i,
    {
        let k = names[i];
        let value = match state.get(k) {
            Some(x) => x.clone(),
            None => String::new(),
        };
        assert(value@ == prop_or_empty(m, k@));
        let ghost before = changed@;
        let ghost prev = names@.take(i as int).map_values(|s: &str| s@);
        let name = k.to_string();
        changed.push((name, value));
        i = i + 1;
        proof {
            let now = names@.take(i as int).map_values(|s: &str| s@);
            assert(now =~= prev.push(k@));
            let f = |kk: Seq<char>| (kk, prop_or_empty(m, kk));
            assert(now.map_values(f) =~= prev.map_values(f).push(f(k@)));
            assert(changed@.map_values(|p: (String, String)| (p.0@, p.1@)) =~= before.map_values(
                |p: (String, String)| (p.0@, p.1@),
            ).push((k@, value@)));
        }
    }
    assert(names@.take(names@.len() as int) == names@);
    Some(MockAnswer { id, reply, changed })
}


// ----- what discovery reads from a search response ------------------------------------

/// Whether `s` can be sent as a header value and read back unchanged: a single line
/// without surrounding whitespace.
pub open spec fn header_safe(s: Seq<char>) -> bool {
    no_lf(s) && trim(s) == s
}

/// Whether every property a search response carries is a header-safe value.
pub open spec fn props_header_safe(m: Map<Seq<char>, Seq<char>>) -> bool {
    &&& header_safe(prop_or_empty(m, "power"@))
    &&& header_safe(prop_or_empty(m, "bright"@))
    &&& header_safe(prop_or_empty(m, "color_mode"@))
    &&& header_safe(prop_or_empty(m, "ct"@))
    &&& header_safe(prop_or_empty(m, "rgb"@))
    &&& header_safe(prop_or_empty(m, "hue"@))
    &&& header_safe(prop_or_empty(m, "sat"@))
    &&& header_safe(prop_or_empty(m, "name"@))
}

/// The headers of a search response as discovery reads them, in order.
pub open spec fn response_headers(
    id: Seq<char>,
    location: Location,
    model: Seq<char>,
    fw_ver: Seq<char>,
    support: Seq<char>,
    m: Map<Seq<char>, Seq<char>>,
) -> Seq<(Seq<char>, Seq<char>)> {
    seq![
        ("cache-control"@, "max-age=3600"@),
        ("location"@, "yeelight://"@ + location_text(location)),
        ("id"@, id),
        ("model"@, model),
        ("fw_ver"@, fw_ver),
        ("support"@, support),
        ("power"@, prop_or_empty(m, "power"@)),
        ("bright"@, prop_or_empty(m, "bright"@)),
        ("color_mode"@, prop_or_empty(m, "color_mode"@)),
        ("ct"@, prop_or_empty(m, "ct"@)),
        ("rgb"@, prop_or_empty(m, "rgb"@)),
        ("hue"@, prop_or_empty(m, "hue"@)),
        ("sat"@, prop_or_empty(m, "sat"@)),
        ("name"@, prop_or_empty(m, "name"@)),
    ]
}

/// The text of a header line, without its line end.
pub open spec fn header_text(name: Seq<char>, value: Seq<char>) -> Seq<char> {
    name + ": "@ + value
}

proof fn lemma_header_text(name: Seq<char>, lname: Seq<char>, value: Seq<char>)
    requires
        name.len() > 0,
        forall|i: int| 0 <= i < name.len() ==> name[i] != ':' && name[i] != '\n' && !is_ws(name[i]),
        lower_seq(name) =~= lname,
        header_safe(value),
    ensures
        header_pair(header_text(name, value)) == Some((lname, value)),
        no_lf(header_text(name, value)),
        header_line(name, value) == header_text(name, value) + seq!['\r', '\n'],
{
    reveal_strlit(": ");
    reveal_strlit("\r\n");
    assert(": "@ =~= seq![':', ' ']);
    lemma_trim_fixed(name);
    lemma_header_pair_line(name, value);
    assert(no_lf(": "@));
    lemma_no_lf_add(name, ": "@);
    lemma_no_lf_add(name + ": "@, value);
    assert(header_line(name, value) =~= header_text(name, value) + seq!['\r', '\n']);
}

proof fn lemma_dec_plain(n: nat)
    ensures
        no_lf(dec(n)),
        dec(n).len() > 0,
        !is_ws(dec(n).last()),
{
    lemma_dec_digits(n);
    assert forall|i: int| 0 <= i < dec(n).len() implies dec(n)[i] != '\n' by {
        assert('0' <= dec(n)[i] <= '9');
    }
    assert('0' <= dec(n)[dec(n).len() - 1] <= '9');
}

proof fn lemma_location_value(l: Location)
    requires
        l.ip is V4,
    ensures
        header_safe("yeelight://"@ + location_text(l)),
{
    reveal_strlit("yeelight://");
    let v = l.ip->V4_0;
    lemma_dec_plain(v.a as nat);
    lemma_dec_plain(v.b as nat);
    lemma_dec_plain(v.c as nat);
    lemma_dec_plain(v.d as nat);
    lemma_dec_plain(l.port as nat);
    let dot = seq!['.'];
    let colon = seq![':'];
    assert(no_lf(dot) && no_lf(colon) && no_lf("yeelight://"@));
    let t1 = "yeelight://"@ + dec(v.a as nat);
    lemma_no_lf_add("yeelight://"@, dec(v.a as nat));
    lemma_no_lf_add(t1, dot);
    lemma_no_lf_add(t1 + dot, dec(v.b as nat));
    let t2 = t1 + dot + dec(v.b as nat);
    lemma_no_lf_add(t2, dot);
    lemma_no_lf_add(t2 + dot, dec(v.c as nat));
    let t3 = t2 + dot + dec(v.c as nat);
    lemma_no_lf_add(t3, dot);
    lemma_no_lf_add(t3 + dot, dec(v.d as nat));
    let t4 = t3 + dot + dec(v.d as nat);
    lemma_no_lf_add(t4, colon);
    lemma_no_lf_add(t4 + colon, dec(l.port as nat));
    let v = "yeelight://"@ + location_text(l);
    assert(v =~= t4 + colon + dec(l.port as nat));
    assert(v.last() == dec(l.port as nat).last());
    assert(v[0] == 'y');
    lemma_trim_fixed(v);
}


/// The text of a start line and the header lines `names[i]: values[i]` for `i < k`,
/// each ended by `\r\n`.
pub open spec fn lines_text(start: Seq<char>, names: Seq<Seq<char>>, values: Seq<Seq<char>>, k: nat) -> Seq<
    char,
>
    decreases k,
{
    if k == 0 {
        start + "\r\n"@
    } else {
        lines_text(start, names, values, (k - 1) as nat) + header_line(names[k - 1], values[k - 1])
    }
}

/// The header lines `names[i]: values[i]` for `i < k`, without line ends.
pub open spec fn header_texts(names: Seq<Seq<char>>, values: Seq<Seq<char>>, k: nat) -> Seq<Seq<char>> {
    Seq::new(k, |i: int| header_text(names[i], values[i]))
}

proof fn lemma_lines_text(start: Seq<char>, names: Seq<Seq<char>>, values: Seq<Seq<char>>, k: nat)
    requires
        k <= names.len(),
        k <= values.len(),
        forall|i: int|
            #![trigger header_text(names[i], values[i])]
            0 <= i < k ==> header_line(names[i], values[i]) == header_text(names[i], values[i]) + seq![
                '\r',
                '\n',
            ],
    ensures
        lines_text(start, names, values, k) == crlf_join(seq![start] + header_texts(names, values, k)),
    decreases k,
{
    reveal_strlit("\r\n");
    if k == 0 {
        lemma_crlf_join_push(Seq::empty(), start);
        assert(crlf_join(Seq::<Seq<char>>::empty()) == Seq::<char>::empty());
        assert(seq![start] + header_texts(names, values, 0) =~= Seq::<Seq<char>>::empty().push(start));
        assert(lines_text(start, names, values, 0) =~= crlf_join(seq![start] + header_texts(names, values, 0)));
    } else {
        let k1 = (k - 1) as nat;
        lemma_lines_text(start, names, values, k1);
        let prev = seq![start] + header_texts(names, values, k1);
        let l = header_text(names[k1 as int], values[k1 as int]);
        assert(seq![start] + header_texts(names, values, k) =~= prev.push(l));
        lemma_crlf_join_push(prev, l);
        assert(header_line(names[k1 as int], values[k1 as int]) == l + seq!['\r', '\n']);
        assert(lines_text(start, names, values, k) =~= crlf_join(seq![start] + header_texts(names, values, k)));
    }
}

/// The header names of a search response, as sent.
pub open spec fn response_names() -> Seq<Seq<char>> {
    seq![
        "Cache-Control"@, "Location"@, "id"@, "model"@, "fw_ver"@, "support"@, "power"@, "bright"@,
        "color_mode"@, "ct"@, "rgb"@, "hue"@, "sat"@, "name"@,
    ]
}

/// The header values of a search response, in the order of [`response_names`].
pub open spec fn response_values(
    id: Seq<char>,
    location: Location,
    model: Seq<char>,
    fw_ver: Seq<char>,
    support: Seq<char>,
    m: Map<Seq<char>, Seq<char>>,
) -> Seq<Seq<char>> {
    seq![
        "max-age=3600"@, "yeelight://"@ + location_text(location), id, model, fw_ver, support,
        prop_or_empty(m, "power"@), prop_or_empty(m, "bright"@), prop_or_empty(m, "color_mode"@),
        prop_or_empty(m, "ct"@), prop_or_empty(m, "rgb"@), prop_or_empty(m, "hue"@), prop_or_empty(
            m,
            "sat"@,
        ), prop_or_empty(m, "name"@),
    ]
}

proof fn lemma_response_header_lines(
    id: Seq<char>,
    location: Location,
    model: Seq<char>,
    fw_ver: Seq<char>,
    support: Seq<char>,
    m: Map<Seq<char>, Seq<char>>,
)
    requires
        location.ip is V4,
        header_safe(id),
        header_safe(model),
        header_safe(fw_ver),
        header_safe(support),
        props_header_safe(m),
    ensures
        ({
            let names = response_names();
            let values = response_values(id, location, model, fw_ver, support, m);
            let hs = response_headers(id, location, model, fw_ver, support, m);
            forall|i: int|
                #![trigger header_text(names[i], values[i])]
                0 <= i < 14 ==> {
                    &&& header_pair(header_text(names[i], values[i])) == Some(hs[i])
                    &&& no_lf(header_text(names[i], values[i]))
                    &&& header_line(names[i], values[i]) == header_text(names[i], values[i])
                        + seq!['\r', '\n']
                }
        }),
{
    reveal_strlit("Cache-Control");
    reveal_strlit("cache-control");
    reveal_strlit("max-age=3600");
    reveal_strlit("Location");
    reveal_strlit("location");
    reveal_strlit("id");
    reveal_strlit("model");
    reveal_strlit("fw_ver");
    reveal_strlit("support");
    reveal_strlit("power");
    reveal_strlit("bright");
    reveal_strlit("color_mode");
    reveal_strlit("ct");
    reveal_strlit("rgb");
    reveal_strlit("hue");
    reveal_strlit("sat");
    reveal_strlit("name");
    let names = response_names();
    let values = response_values(id, location, model, fw_ver, support, m);
    let hs = response_headers(id, location, model, fw_ver, support, m);
    lemma_location_value(location);
    assert(header_safe("max-age=3600"@)) by {
        lemma_trim_fixed("max-age=3600"@);
    }
    assert(lower('C') == 'c' && lower('L') == 'l');
    assert forall|i: int| 0 <= i < 14 implies {
        &&& header_pair(#[trigger] header_text(names[i], values[i])) == Some(hs[i])
        &&& no_lf(header_text(names[i], values[i]))
        &&& header_line(names[i], values[i]) == header_text(names[i], values[i]) + seq!['\r', '\n']
    } by {
        if i == 0 {
            lemma_header_text(names[i], hs[i].0, values[i]);
        } else if i == 1 {
            lemma_header_text(names[i], hs[i].0, values[i]);
        } else if i == 2 {
            lemma_header_text(names[i], hs[i].0, values[i]);
        } else if i == 3 {
            lemma_header_text(names[i], hs[i].0, values[i]);
        } else if i == 4 {
            lemma_header_text(names[i], hs[i].0, values[i]);
        } else if i == 5 {
            lemma_header_text(names[i], hs[i].0, values[i]);
        } else if i == 6 {
            lemma_header_text(names[i], hs[i].0, values[i]);
        } else if i == 7 {
            lemma_header_text(names[i], hs[i].0, values[i]);
        } else if i == 8 {
            lemma_header_text(names[i], hs[i].0, values[i]);
        } else if i == 9 {
            lemma_header_text(names[i], hs[i].0, values[i]);
        } else if i == 10 {
            lemma_header_text(names[i], hs[i].0, values[i]);
        } else if i == 11 {
            lemma_header_text(names[i], hs[i].0, values[i]);
        } else if i == 12 {
            lemma_header_text(names[i], hs[i].0, values[i]);
        } else {
            lemma_header_text(names[i], hs[i].0, values[i]);
        }
    }
}

#[verifier::rlimit(80)]
#[verifier::spinoff_prover]
proof fn lemma_response_text(
    id: Seq<char>,
    location: Location,
    model: Seq<char>,
    fw_ver: Seq<char>,
    support: Seq<char>,
    m: Map<Seq<char>, Seq<char>>,
)
    requires
        location.ip is V4,
        header_safe(id),
        header_safe(model),
        header_safe(fw_ver),
        header_safe(support),
        props_header_safe(m),
    ensures
        response_v(id, location, model, fw_ver, support, m) == crlf_join(
            seq!["HTTP/1.1 200 OK"@] + header_texts(
                response_names(),
                response_values(id, location, model, fw_ver, support, m),
                14,
            ),
        ),
{
    reveal_strlit("HTTP/1.1 200 OK\r\n");
    reveal_strlit("HTTP/1.1 200 OK");
    reveal_strlit("\r\n");
    let names = response_names();
    let values = response_values(id, location, model, fw_ver, support, m);
    lemma_response_header_lines(id, location, model, fw_ver, support, m);
    reveal_with_fuel(lines_text, 15);
    assert(response_v(id, location, model, fw_ver, support, m) =~= lines_text(
        "HTTP/1.1 200 OK"@,
        names,
        values,
        14,
    ));
    lemma_lines_text("HTTP/1.1 200 OK"@, names, values, 14);
}

#[verifier::spinoff_prover]
proof fn lemma_response_headers(
    id: Seq<char>,
    location: Location,
    model: Seq<char>,
    fw_ver: Seq<char>,
    support: Seq<char>,
    m: Map<Seq<char>, Seq<char>>,
)
    requires
        location.ip is V4,
        header_safe(id),
        header_safe(model),
        header_safe(fw_ver),
        header_safe(support),
        props_header_safe(m),
    ensures
        lines_v(response_v(id, location, model, fw_ver, support, m)).len() == 15,
        lines_v(response_v(id, location, model, fw_ver, support, m))[0] == "HTTP/1.1 200 OK"@,
        message_headers(response_v(id, location, model, fw_ver, support, m)) == response_headers(
            id,
            location,
            model,
            fw_ver,
            support,
            m,
        ),
{
    reveal_strlit("HTTP/1.1 200 OK");
    let names = response_names();
    let values = response_values(id, location, model, fw_ver, support, m);
    let hs = response_headers(id, location, model, fw_ver, support, m);
    let start = "HTTP/1.1 200 OK"@;
    lemma_response_header_lines(id, location, model, fw_ver, support, m);
    lemma_response_text(id, location, model, fw_ver, support, m);
    let text = response_v(id, location, model, fw_ver, support, m);
    let hls = header_texts(names, values, 14);
    let ls = seq![start] + hls;
    assert forall|i: int| 0 <= i < ls.len() implies no_lf(#[trigger] ls[i]) by {
        if i > 0 {
            assert(ls[i] == hls[i - 1]);
            assert(hls[i - 1] == header_text(names[i - 1], values[i - 1]));
        }
    }
    lemma_lines_crlf(ls);
    // Each line after the first is a header.
    assert(ls.skip(1) =~= hls);
    assert forall|i: int| 0 <= i < hls.len() implies (#[trigger] header_pair(hls[i])) is Some by {
        assert(hls[i] == header_text(names[i], values[i]));
    }
    lemma_header_pairs_all(hls);
    assert forall|i: int| 0 <= i < 14 implies message_headers(text)[i] == hs[i] by {
        assert(hls[i] == header_text(names[i], values[i]));
    }
    assert(message_headers(text) =~= hs);
}

/// A fake bulb's search response is read by discovery as that bulb.
///
/// When its control address is an IPv4 one (IPv6 announcements are not covered by
/// this proof) and its id, model, firmware, methods and properties are single-line
/// values without surrounding whitespace, the response's headers read back in order with
/// those values; the response announces a device; and the device read from it has
/// the bulb's id, control address, model, firmware and methods.
pub proof fn search_response_reads_back(
    id: Seq<char>,
    location: Location,
    model: Seq<char>,
    fw_ver: Seq<char>,
    support: Seq<char>,
    m: Map<Seq<char>, Seq<char>>,
)
    requires
        location.ip is V4,
        header_safe(id),
        header_safe(model),
        header_safe(fw_ver),
        header_safe(support),
        props_header_safe(m),
    ensures
        message_headers(response_v(id, location, model, fw_ver, support, m)) == response_headers(
            id,
            location,
            model,
            fw_ver,
            support,
            m,
        ),
        announces_device(response_v(id, location, model, fw_ver, support, m)),
        forall|d: Device|
            #[trigger] describes(response_v(id, location, model, fw_ver, support, m), d) ==> {
                &&& d.id@ == id
                &&& d.location == location
                &&& d.model@ == model_of(model)
                &&& d.fw_ver@ == fw_ver
                &&& support_set(d.support@) == Set::new(|w: Seq<char>| words_v(support).contains(w))
            },
{
    lemma_response_headers(id, location, model, fw_ver, support, m);
    reveal_strlit("HTTP/1.1 200 OK");
    reveal_strlit("HTTP/1.1");
    reveal_strlit("cache-control");
    reveal_strlit("location");
    reveal_strlit("yeelight://");
    reveal_strlit("id");
    reveal_strlit("model");
    reveal_strlit("fw_ver");
    reveal_strlit("support");
    reveal_strlit("power");
    reveal_strlit("bright");
    reveal_strlit("color_mode");
    reveal_strlit("ct");
    reveal_strlit("rgb");
    reveal_strlit("hue");
    reveal_strlit("sat");
    reveal_strlit("name");
    let hs = response_headers(id, location, model, fw_ver, support, m);
    let start = "HTTP/1.1 200 OK"@;
    lemma_trim_fixed(start);
    assert(start.take(8) =~= "HTTP/1.1"@);
    assert("ct"@ != "id"@) by {
        assert("ct"@[0] != "id"@[0]);
    }
    assert("power"@ != "model"@) by {
        assert("power"@[0] != "model"@[0]);
    }
    assert("bright"@ != "fw_ver"@) by {
        assert("bright"@[0] != "fw_ver"@[0]);
    }
    lemma_last_value_at(hs, "location"@, 1);
    lemma_last_value_at(hs, "id"@, 2);
    lemma_last_value_at(hs, "model"@, 3);
    lemma_last_value_at(hs, "fw_ver"@, 4);
    lemma_last_value_at(hs, "support"@, 5);
    let lt = location_text(location);
    let loc = "yeelight://"@ + lt;
    assert(loc.take(11) =~= "yeelight://"@);
    assert(loc.skip(11) =~= lt);
    location_text_round_trip(location);
}


} // verus!
