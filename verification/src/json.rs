//! A plain JSON tree for the control protocol's wire messages.
//!
//! Incoming lines are parsed by `serde_json`; the parsed value is handed to the
//! library as a [`Json`] tree that verified code inspects. Outgoing parameters are
//! built as [`Json`] values too.

use vstd::prelude::*;

use crate::text::{dec, dec_int, push_dec, push_dec_int};

verus! {

/// A JSON number: its integer readings (as `serde_json::Number::as_u64` /
/// `as_i64` give them) and its decimal text (its `Display` form).
#[derive(Debug)]
pub struct Number {
    /// The value as an unsigned integer, when it is one.
    pub as_u64: Option<u64>,
    /// The value as a signed integer, when it is one.
    pub as_i64: Option<i64>,
    /// The number's text.
    pub text: String,
}

/// A JSON value.
#[derive(Debug)]
pub enum Json {
    /// `null`.
    Null,
    /// `true` / `false`.
    Bool(bool),
    /// A number.
    Number(Number),
    /// A string.
    Str(String),
    /// An array, with its compact JSON text.
    Array(Vec<Json>, String),
    /// An object's entries in order, with its compact JSON text.
    Object(Vec<(String, Json)>, String),
}

/// The mathematical form of a [`Json`] value.
pub enum JsonV {
    /// `null`.
    Null,
    /// A boolean.
    Bool(bool),
    /// A number: unsigned reading, signed reading, text.
    Number(Option<u64>, Option<i64>, Seq<char>),
    /// A string.
    Str(Seq<char>),
    /// An array and its text.
    Array(Seq<JsonV>, Seq<char>),
    /// An object's entries and its text.
    Object(Seq<(Seq<char>, JsonV)>, Seq<char>),
}

impl View for Json {
    type V = JsonV;

    /// The mathematical form of this value.
    open spec fn view(&self) -> JsonV {
        json_v(*self)
    }
}

/// The mathematical form of a [`Json`] value.
pub open spec fn json_v(j: Json) -> JsonV
    decreases j,
{
    match j {
        Json::Null => JsonV::Null,
        Json::Bool(b) => JsonV::Bool(b),
        Json::Number(n) => JsonV::Number(n.as_u64, n.as_i64, n.text@),
        Json::Str(s) => JsonV::Str(s@),
        Json::Array(items, t) => JsonV::Array(items_v(items@), t@),
        Json::Object(entries, t) => JsonV::Object(entries_v(entries@), t@),
    }
}

/// The mathematical forms of a sequence of values.
pub open spec fn items_v(s: Seq<Json>) -> Seq<JsonV>
    decreases s,
{
    if s.len() == 0 {
        Seq::empty()
    } else {
        seq![json_v(s[0])] + items_v(s.subrange(1, s.len() as int))
    }
}

/// The mathematical forms of a sequence of object entries.
pub open spec fn entries_v(s: Seq<(String, Json)>) -> Seq<(Seq<char>, JsonV)>
    decreases s,
{
    if s.len() == 0 {
        Seq::empty()
    } else {
        seq![(s[0].0@, json_v(s[0].1))] + entries_v(s.subrange(1, s.len() as int))
    }
}

/// `items_v` keeps length and maps each element.
pub proof fn lemma_items_v(s: Seq<Json>)
    ensures
        items_v(s).len() == s.len(),
        forall|j: int| 0 <= j < s.len() ==> #[trigger] items_v(s)[j] == json_v(s[j]),
    decreases s.len(),
{
    if s.len() > 0 {
        let r = s.subrange(1, s.len() as int);
        lemma_items_v(r);
        assert forall|j: int| 0 <= j < s.len() implies #[trigger] items_v(s)[j] == json_v(s[j]) by {
            if j > 0 {
                assert(r[j - 1] == s[j]);
            }
        }
    }
}

/// `entries_v` keeps length and maps each entry.
pub proof fn lemma_entries_v(s: Seq<(String, Json)>)
    ensures
        entries_v(s).len() == s.len(),
        forall|j: int|
            0 <= j < s.len() ==> #[trigger] entries_v(s)[j] == (s[j].0@, json_v(s[j].1)),
    decreases s.len(),
{
    if s.len() > 0 {
        let r = s.subrange(1, s.len() as int);
        lemma_entries_v(r);
        assert forall|j: int| 0 <= j < s.len() implies #[trigger] entries_v(s)[j] == (
            s[j].0@,
            json_v(s[j].1),
        ) by {
            if j > 0 {
                assert(r[j - 1] == s[j]);
            }
        }
    }
}

/// The JSON number with integer value `n` (`serde_json`'s reading of an
/// unsigned integer: `as_i64` is present only up to `i64::MAX`).
pub open spec fn uint_v(n: nat) -> JsonV {
    JsonV::Number(
        if n <= u64::MAX { Some(n as u64) } else { None },
        if n <= i64::MAX { Some(n as i64) } else { None },
        dec(n),
    )
}

/// The JSON number with signed integer value `i`.
pub open spec fn int_v(i: int) -> JsonV {
    JsonV::Number(
        if 0 <= i <= u64::MAX { Some(i as u64) } else { None },
        if i64::MIN <= i <= i64::MAX { Some(i as i64) } else { None },
        dec_int(i),
    )
}

/// The JSON string holding `s`.
pub open spec fn str_v(s: Seq<char>) -> JsonV {
    JsonV::Str(s)
}

impl Json {
    /// The JSON number `n`.
    pub fn from_u64(n: u64) -> (j: Json)
        ensures
            j@ == uint_v(n as nat),
    {
        let mut t: Vec<char> = Vec::new();
        push_dec(&mut t, n);
        assert(t@ =~= dec(n as nat));
        let text = crate::text::string_of(&t);
        let as_i64 = if n <= 0x7fff_ffff_ffff_ffff {
            Some(n as i64)
        } else {
            None
        };
        Json::Number(Number { as_u64: Some(n), as_i64, text })
    }

    /// The JSON number `n`.
    pub fn from_i64(n: i64) -> (j: Json)
        ensures
            j@ == int_v(n as int),
    {
        let mut t: Vec<char> = Vec::new();
        push_dec_int(&mut t, n);
        assert(t@ =~= dec_int(n as int));
        let text = crate::text::string_of(&t);
        let as_u64 = if n >= 0 {
            Some(n as u64)
        } else {
            None
        };
        Json::Number(Number { as_u64, as_i64: Some(n), text })
    }

    /// The JSON string `s`.
    pub fn from_str(s: &str) -> (j: Json)
        ensures
            j@ == str_v(s@),
    {
        Json::Str(s.to_string())
    }
}

/// The first entry of `entries` under `key`.
pub open spec fn lookup(entries: Seq<(Seq<char>, JsonV)>, key: Seq<char>) -> Option<JsonV>
    decreases entries.len(),
{
    if entries.len() == 0 {
        None
    } else if entries[0].0 == key {
        Some(entries[0].1)
    } else {
        lookup(entries.drop_first(), key)
    }
}

/// Every object in `v`, at any depth, names each of its members once.
pub open spec fn keys_unique(v: JsonV) -> bool
    decreases v,
{
    match v {
        JsonV::Array(items, _) => forall|i: int| 0 <= i < items.len() ==> keys_unique(#[trigger] items[i]),
        JsonV::Object(es, _) => {
            &&& forall|i: int, j: int| 0 <= i < j < es.len() ==> #[trigger] es[i].0 != #[trigger] es[j].0
            &&& forall|i: int| 0 <= i < es.len() ==> keys_unique(#[trigger] es[i].1)
        },
        _ => true,
    }
}

/// What `lookup` finds is the value of one of the entries.
pub proof fn lemma_lookup_member(entries: Seq<(Seq<char>, JsonV)>, key: Seq<char>)
    ensures
        lookup(entries, key) matches Some(x) ==> exists|i: int|
            0 <= i < entries.len() && #[trigger] entries[i].1 == x && entries[i].0 == key,
    decreases entries.len(),
{
    if entries.len() > 0 && entries[0].0 != key {
        lemma_lookup_member(entries.drop_first(), key);
        if lookup(entries, key) is Some {
            let x = lookup(entries, key)->0;
            let i = choose|i: int|
                0 <= i < entries.drop_first().len() && #[trigger] entries.drop_first()[i].1 == x
                    && entries.drop_first()[i].0 == key;
            assert(entries[i + 1].1 == x);
        }
    } else if entries.len() > 0 {
        assert(entries[0].1 == entries[0].1);
    }
}

/// `serde_json::Value::get` with a string key: the member of an object, else
/// nothing.
pub open spec fn get_v(v: JsonV, key: Seq<char>) -> Option<JsonV> {
    match v {
        JsonV::Object(entries, _) => lookup(entries, key),
        _ => None,
    }
}

/// `Value::as_u64`.
pub open spec fn as_u64_v(v: Option<JsonV>) -> Option<u64> {
    match v {
        Some(JsonV::Number(u, _, _)) => u,
        _ => None,
    }
}

/// `Value::as_i64`.
pub open spec fn as_i64_v(v: Option<JsonV>) -> Option<i64> {
    match v {
        Some(JsonV::Number(_, i, _)) => i,
        _ => None,
    }
}

/// `Value::as_str`.
pub open spec fn as_str_v(v: Option<JsonV>) -> Option<Seq<char>> {
    match v {
        Some(JsonV::Str(s)) => Some(s),
        _ => None,
    }
}

impl Json {
    /// The member `key` of this object (`serde_json::Value::get`).
    pub fn get(&self, key: &str) -> (r: Option<&Json>)
        ensures
            match r {
                Some(j) => get_v(self@, key@) == Some(j@),
                None => get_v(self@, key@) is None,
            },
    {
        match self {
            Json::Object(entries, t) => {
                let k = crate::text::chars_of(key);
                let mut i: usize = 0;
                let ghost ev = match self@ {
                    JsonV::Object(e, _) => e,
                    _ => Seq::empty(),
                };
                assert(ev.skip(0) == ev);
                proof {
                    lemma_entries_v(entries@);
                }
                assert(get_v(self@, key@) == lookup(ev, k@));
                while i < entries.len()
                    invariant
                        i <= entries@.len(),
                        ev.len() == entries@.len(),
                        forall|j: int| 0 <= j < ev.len() ==> #[trigger] ev[j] == (entries@[j].0@, entries@[j].1@),
                        lookup(ev, k@) == lookup(ev.skip(i as int), k@),
                        get_v(self@, key@) == lookup(ev, k@),
                    decreases entries@.len() - i,
                {
                    let name = crate::text::chars_of(entries[i].0.as_str());
                    assert(ev.skip(i as int).drop_first() == ev.skip(i + 1));
                    if crate::text::chars_eq(&name, &k) {
                        assert(ev.skip(i as int)[0] == ev[i as int]);
                        assert(ev[i as int] == (entries@[i as int].0@, entries@[i as int].1@));
                        assert(ev.skip(i as int).len() > 0);
                        assert(lookup(ev.skip(i as int), k@) == Some(entries@[i as int].1@));
                        return Some(&entries[i].1);
                    }
                    i = i + 1;
                }
                None
            },
            _ => None,
        }
    }

    /// `Value::as_u64`.
    pub fn as_u64(&self) -> (r: Option<u64>)
        ensures
            r == as_u64_v(Some(self@)),
    {
        match self {
            Json::Number(n) => n.as_u64,
            _ => None,
        }
    }

    /// `Value::as_i64`.
    pub fn as_i64(&self) -> (r: Option<i64>)
        ensures
            r == as_i64_v(Some(self@)),
    {
        match self {
            Json::Number(n) => n.as_i64,
            _ => None,
        }
    }

    /// `Value::as_array`: the items of an array.
    pub fn as_array(&self) -> (r: Option<&Vec<Json>>)
        ensures
            match r {
                Some(items) => self@ matches JsonV::Array(vs, _) && vs == items_v(items@),
                None => !(self@ is Array),
            },
    {
        match self {
            Json::Array(items, _) => Some(items),
            _ => None,
        }
    }

    /// `Value::as_str`.
    pub fn as_str(&self) -> (r: Option<&str>)
        ensures
            match r {
                Some(s) => as_str_v(Some(self@)) == Some(s@),
                None => as_str_v(Some(self@)) is None,
            },
    {
        match self {
            Json::Str(s) => Some(s.as_str()),
            _ => None,
        }
    }
}

/// What `serde_json::from_str::<serde_json::Value>` yields for `text`: the
/// parsed value, or nothing when `text` is not a JSON document.
pub uninterp spec fn parsed_json(text: Seq<char>) -> Option<JsonV>;

/// Parses one JSON document (`serde_json::from_str::<Value>`).
///
/// Trusted: the contract names the result; `serde_json` parses the same text to
/// the same value every time; a rejected text yields the parser's error
/// description. Object entries come in the map's iteration order, one per key
/// (a `serde_json::Map` holds each key once), numbers carry
/// `Number::as_u64`/`as_i64` and their `Display` text, and arrays and objects
/// carry their compact `Display` text.
#[verifier::external_body]
pub fn parse_json(text: &str) -> (r: Result<Json, String>)
    ensures
        match r {
            Ok(j) => parsed_json(text@) == Some(j@) && keys_unique(j@),
            Err(_) => parsed_json(text@) is None,
        },
{
    match serde_json::from_str::<serde_json::Value>(text) {
        Ok(v) => Ok(tree_of(v)),
        Err(e) => Err(e.to_string()),
    }
}

/// Converts a parsed `serde_json::Value`, variant for variant, into a [`Json`].
#[verifier::external_body]
fn tree_of(v: serde_json::Value) -> Json {
    let text = v.to_string();
    match v {
        serde_json::Value::Null => Json::Null,
        serde_json::Value::Bool(b) => Json::Bool(b),
        serde_json::Value::Number(n) => Json::Number(Number { as_u64: n.as_u64(), as_i64: n.as_i64(), text }),
        serde_json::Value::String(s) => Json::Str(s),
        serde_json::Value::Array(a) => Json::Array(a.into_iter().map(tree_of).collect(), text),
        serde_json::Value::Object(o) => Json::Object(o.into_iter().map(|(k, x)| (k, tree_of(x))).collect(), text),
    }
}

/// A parsed `serde_json` value, carried only into [`tree_of`].
#[verifier::external_type_specification]
#[verifier::external_body]
pub struct ExJsonValue(serde_json::Value);

} // verus!
