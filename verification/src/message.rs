//! Wire-level message types for the control protocol.

use vstd::prelude::*;

use crate::error::{invalid_param, Error, Result};
use crate::json::{
    as_i64_v, as_str_v, as_u64_v, get_v, json_v, keys_unique, lemma_entries_v, lemma_lookup_member, lookup,
    parse_json, parsed_json, Json, JsonV,
};
use crate::text::{chars_eq, chars_of, extend_chars, string_of};

verus! {

/// A COMMAND message sent to the device.
#[derive(Debug)]
pub struct Command {
    /// Sender-chosen id, echoed back in the matching result.
    pub id: u64,
    /// Method name; must be in the device `support` list.
    pub method: String,
    /// Method-specific parameter array.
    pub params: Vec<Json>,
}

/// A NOTIFICATION message pushed by the device on state change.
#[derive(Debug, Clone)]
pub struct Notification {
    /// Notification method; currently always `"props"`.
    pub method: String,
    /// Property name -> value, each name once, in the order of the parsed JSON object
    /// (`serde_json` without `preserve_order` lists an object's members sorted by name).
    pub params: Vec<(String, String)>,
}

/// The mathematical form of notification parameters.
pub open spec fn pairs_v(ps: Seq<(String, String)>) -> Seq<(Seq<char>, Seq<char>)> {
    ps.map_values(|p: (String, String)| (p.0@, p.1@))
}

/// The value of the first pair under `key`.
pub open spec fn pair_lookup(ps: Seq<(Seq<char>, Seq<char>)>, key: Seq<char>) -> Option<Seq<char>>
    decreases ps.len(),
{
    if ps.len() == 0 {
        None
    } else if ps[0].0 == key {
        Some(ps[0].1)
    } else {
        pair_lookup(ps.drop_first(), key)
    }
}

impl Notification {
    /// The value reported for property `key`, if any.
    pub fn get(&self, key: &str) -> (r: Option<&String>)
        ensures
            match r {
                Some(v) => pair_lookup(pairs_v(self.params@), key@) == Some(v@),
                None => pair_lookup(pairs_v(self.params@), key@) is None,
            },
    {
        let k = chars_of(key);
        let ghost ps = pairs_v(self.params@);
        let mut i: usize = 0;
        assert(ps.skip(0) == ps);
        while i < self.params.len()
            invariant
                i <= self.params@.len(),
                ps == pairs_v(self.params@),
                k@ == key@,
                pair_lookup(ps, k@) == pair_lookup(ps.skip(i as int), k@),
            decreases self.params@.len() - i,
        {
            let name = chars_of(self.params[i].0.as_str());
            assert(ps.skip(i as int).drop_first() == ps.skip(i + 1));
            assert(ps.skip(i as int)[0] == ps[i as int]);
            if chars_eq(&name, &k) {
                return Some(&self.params[i].1);
            }
            i = i + 1;
        }
        None
    }
}

/// No property is named twice in `ps`.
pub open spec fn distinct_names(ps: Seq<(Seq<char>, Seq<char>)>) -> bool {
    forall|i: int, j: int| 0 <= i < j < ps.len() ==> #[trigger] ps[i].0 != #[trigger] ps[j].0
}

/// When no property is named twice, looking a property up finds its one value.
pub proof fn unique_name_lookup(ps: Seq<(Seq<char>, Seq<char>)>, i: int)
    requires
        distinct_names(ps),
        0 <= i < ps.len(),
    ensures
        pair_lookup(ps, ps[i].0) == Some(ps[i].1),
    decreases i,
{
    if i > 0 {
        let rest = ps.drop_first();
        assert(ps[0].0 != ps[i].0);
        assert(rest[i - 1] == ps[i]);
        assert forall|a: int, b: int| 0 <= a < b < rest.len() implies #[trigger] rest[a].0 != #[trigger] rest[b].0 by {
            assert(rest[a] == ps[a + 1] && rest[b] == ps[b + 1]);
        }
        unique_name_lookup(rest, i - 1);
    }
}

/// A parsed line received from the device.
#[derive(Debug)]
pub enum Incoming {
    /// Successful command result (the `result` value).
    Result {
        /// The id of the command answered.
        id: u64,
        /// The result value.
        result: Json,
    },
    /// Command failure (the `error` object).
    Error {
        /// The id of the command answered.
        id: u64,
        /// The device's error code.
        code: i64,
        /// The device's error message.
        message: String,
    },
    /// Asynchronous state-change notification.
    Notification(Notification),
}

/// The string form of a notification value: strings as they are, `null` as the
/// empty string, anything else as its JSON text.
pub open spec fn scalar_text(v: JsonV) -> Seq<char> {
    match v {
        JsonV::Str(s) => s,
        JsonV::Null => Seq::empty(),
        JsonV::Bool(b) => if b {
            "true"@
        } else {
            "false"@
        },
        JsonV::Number(_, _, t) => t,
        JsonV::Array(_, t) => t,
        JsonV::Object(_, t) => t,
    }
}

/// The `id` of a message, when it is an unsigned integer.
pub open spec fn message_id(v: JsonV) -> Option<u64> {
    as_u64_v(get_v(v, "id"@))
}

/// The device error code of an `error` object (`-1` when absent).
pub open spec fn error_code(err: JsonV) -> i64 {
    match as_i64_v(get_v(err, "code"@)) {
        Some(c) => c,
        None => -1i64,
    }
}

/// The device error message of an `error` object (empty when absent).
pub open spec fn error_message(err: JsonV) -> Seq<char> {
    match as_str_v(get_v(err, "message"@)) {
        Some(m) => m,
        None => Seq::empty(),
    }
}

/// The `result` value of a message (`null` when absent).
pub open spec fn result_value(v: JsonV) -> JsonV {
    match get_v(v, "result"@) {
        Some(r) => r,
        None => JsonV::Null,
    }
}

/// Whether a message is a `props` notification.
pub open spec fn is_props(v: JsonV) -> bool {
    as_str_v(get_v(v, "method"@)) == Some("props"@)
}

/// The property pairs of a notification: each member of its `params` object,
/// its value in string form; nothing when `params` is not an object.
pub open spec fn props_pairs(v: JsonV) -> Seq<(Seq<char>, Seq<char>)> {
    match get_v(v, "params"@) {
        Some(JsonV::Object(es, _)) => es.map_values(
            |e: (Seq<char>, JsonV)| (e.0, scalar_text(e.1)),
        ),
        _ => Seq::empty(),
    }
}

/// What a parsed message `v` (received as `line`) is, by the protocol's rules:
/// a message with an unsigned `id` answers a command (an error when it holds
/// `error`, else a result); one without is a notification when its `method` is
/// `"props"`, and is refused otherwise.
pub open spec fn classified(v: JsonV, line: Seq<char>, r: Result<Incoming>) -> bool {
    match message_id(v) {
        Some(id) => match get_v(v, "error"@) {
            Some(err) => r matches Ok(Incoming::Error { id: i, code, message }) && i == id && code
                == error_code(err) && message@ == error_message(err),
            None => r matches Ok(Incoming::Result { id: i, result }) && i == id && result@
                == result_value(v),
        },
        None => if is_props(v) {
            r matches Ok(Incoming::Notification(n)) && n.method@ == "props"@ && pairs_v(n.params@)
                == props_pairs(v)
        } else {
            r matches Err(e) && invalid_param(e, "unrecognized message: "@ + line)
        },
    }
}

/// The string form of one notification value.
fn scalar_string(v: &Json) -> (s: String)
    ensures
        s@ == scalar_text(v@),
{
    match v {
        Json::Str(s) => s.clone(),
        Json::Null => String::new(),
        Json::Bool(b) => if *b {
            "true".to_string()
        } else {
            "false".to_string()
        },
        Json::Number(n) => n.text.clone(),
        Json::Array(_, t) => t.clone(),
        Json::Object(_, t) => t.clone(),
    }
}

/// Moves the member `key` out of the object `v` (`Value::get(..).cloned()`).
fn take_member(v: Json, key: &str) -> (r: Option<Json>)
    ensures
        match r {
            Some(j) => get_v(v@, key@) == Some(j@),
            None => get_v(v@, key@) is None,
        },
{
    let ghost vv = v@;
    match v {
        Json::Object(entries, _) => {
            let mut entries = entries;
            let ghost ev = crate::json::entries_v(entries@);
            assert(get_v(vv, key@) == lookup(ev, key@));
            proof {
                lemma_entries_v(entries@);
            }
            let k = chars_of(key);
            let mut i: usize = 0;
            assert(ev.skip(0) == ev);
            while i < entries.len()
                invariant
                    i <= entries@.len(),
                    ev.len() == entries@.len(),
                    forall|j: int|
                        0 <= j < ev.len() ==> #[trigger] ev[j] == (entries@[j].0@, json_v(
                            entries@[j].1,
                        )),
                    k@ == key@,
                    vv == v@,
                    get_v(vv, key@) == lookup(ev, key@),
                    lookup(ev, k@) == lookup(ev.skip(i as int), k@),
                decreases entries@.len() - i,
            {
                let name = chars_of(entries[i].0.as_str());
                assert(ev.skip(i as int).drop_first() == ev.skip(i + 1));
                assert(ev.skip(i as int)[0] == ev[i as int]);
                if chars_eq(&name, &k) {
                    let ghost want = entries@[i as int].1;
                    assert(lookup(ev.skip(i as int), k@) == Some(json_v(want)));
                    let (_, j) = entries.remove(i);
                    assert(j == want);

                    return Some(j);
                }
                i = i + 1;
            }
            None
        },
        _ => None,
    }
}

/// The property pairs of a notification's `params` value.
fn props_of(params: Option<&Json>) -> (r: Vec<(String, String)>)
    ensures
        pairs_v(r@) == (match params {
            Some(p) => match p@ {
                JsonV::Object(es, _) => es.map_values(
                    |e: (Seq<char>, JsonV)| (e.0, scalar_text(e.1)),
                ),
                _ => Seq::empty(),
            },
            None => Seq::empty(),
        }),
{
    let mut out: Vec<(String, String)> = Vec::new();
    match params {
        Some(Json::Object(entries, _)) => {
            let ghost ev = crate::json::entries_v(entries@);
            proof {
                lemma_entries_v(entries@);
            }
            let ghost want = ev.map_values(|e: (Seq<char>, JsonV)| (e.0, scalar_text(e.1)));
            let mut i: usize = 0;
            while i < entries.len()
                invariant
                    i <= entries@.len(),
                    ev.len() == entries@.len(),
                    want == ev.map_values(|e: (Seq<char>, JsonV)| (e.0, scalar_text(e.1))),
                    forall|j: int|
                        0 <= j < ev.len() ==> #[trigger] ev[j] == (entries@[j].0@, json_v(
                            entries@[j].1,
                        )),
                    out@.len() == i,
                    pairs_v(out@) == want.take(i as int),
                decreases entries@.len() - i,
            {
                let name = entries[i].0.clone();
                let value = scalar_string(&entries[i].1);
                let ghost before = out@;
                out.push((name, value));
                i = i + 1;
                assert(pairs_v(out@) =~= want.take(i as int)) by {
                    assert(pairs_v(before) == want.take((i - 1) as int));
                    assert forall|j: int| 0 <= j < i implies pairs_v(out@)[j] == want.take(
                        i as int,
                    )[j] by {
                        if j < i - 1 {
                            assert(pairs_v(out@)[j] == pairs_v(before)[j]);
                        }
                    }
                }
            }
            assert(want.take(entries@.len() as int) == want);
        },
        _ => {
            assert(pairs_v(out@) =~= Seq::<(Seq<char>, Seq<char>)>::empty());
        },
    }
    out
}

/// Classifies one parsed message `v`, received as `line`.
pub fn classify(v: Json, line: &str) -> (r: Result<Incoming>)
    ensures
        classified(v@, line@, r),
{
    let id = match v.get("id") {
        Some(j) => j.as_u64(),
        None => None,
    };
    if let Some(id) = id {
        if let Some(err) = v.get("error") {
            let code = match err.get("code") {
                Some(c) => match c.as_i64() {
                    Some(x) => x,
                    None => -1,
                },
                None => -1,
            };
            let message = match err.get("message") {
                Some(m) => match m.as_str() {
                    Some(s) => s.to_string(),
                    None => String::new(),
                },
                None => String::new(),
            };
            return Ok(Incoming::Error { id, code, message });
        }
        let result = match take_member(v, "result") {
            Some(r) => r,
            None => Json::Null,
        };
        return Ok(Incoming::Result { id, result });
    }
    let is_props = match v.get("method") {
        Some(m) => match m.as_str() {
            Some(s) => {
                let sv = chars_of(s);
                let pv = chars_of("props");
                chars_eq(&sv, &pv)
            },
            None => false,
        },
        None => false,
    };
    if is_props {
        let params = props_of(v.get("params"));
        return Ok(Incoming::Notification(Notification { method: "props".to_string(), params }));
    }
    let mut m = chars_of("unrecognized message: ");
    let lv = chars_of(line);
    extend_chars(&mut m, &lv);
    Err(Error::InvalidParam(string_of(&m)))
}

/// What parsing a received line yields: the JSON parser's rejection, or the
/// classification of the parsed message.
pub open spec fn parsed_line(line: Seq<char>, r: Result<Incoming>) -> bool {
    match parsed_json(line) {
        None => r matches Err(Error::Json(_)),
        Some(v) => classified(v, line, r),
    }
}

/// Parse one `\r\n`-delimited line from the device.
///
/// Results/errors carry an `id`; notifications carry `"method": "props"` and no `id`.
pub fn parse_line(line: &str) -> (r: Result<Incoming>)
    ensures
        parsed_line(line@, r),
        r matches Ok(Incoming::Notification(n)) ==> distinct_names(pairs_v(n.params@)),
{
    match parse_json(line) {
        Ok(v) => {
            proof {
                lemma_props_unique(v@);
            }
            classify(v, line)
        },
        Err(e) => Err(Error::Json(e)),
    }
}

/// The members of a parsed object's `params` object are named once each, so the
/// notification's property names are too.
proof fn lemma_props_unique(v: JsonV)
    requires
        keys_unique(v),
    ensures
        distinct_names(props_pairs(v)),
{
    if let JsonV::Object(es, _) = v {
        lemma_lookup_member(es, "params"@);
        if let Some(JsonV::Object(ps, t)) = get_v(v, "params"@) {
            let k = choose|k: int| 0 <= k < es.len() && #[trigger] es[k].1 == JsonV::Object(ps, t) && es[k].0 == "params"@;
            assert(keys_unique(es[k].1));
            let out = props_pairs(v);
            assert forall|i: int, j: int| 0 <= i < j < out.len() implies #[trigger] out[i].0 != #[trigger] out[j].0 by {
                assert(out[i].0 == ps[i].0 && out[j].0 == ps[j].0);
            }
        }
    }
}

} // verus!
