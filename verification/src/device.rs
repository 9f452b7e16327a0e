//! Discovered device model and parsed state.

use vstd::prelude::*;

use crate::address::{ipv6_text, push_ipv6};
use crate::text::{chars_eq, chars_of, dec, push_dec, string_of};

verus! {

/// Yeelight product model (the `model` discovery header).
#[derive(Debug, Clone, PartialEq, Eq)]
pub enum Model {
    /// Brightness only.
    Mono,
    /// Color + color temperature.
    Color,
    /// LED stripe.
    Stripe,
    /// Ceiling light.
    Ceiling,
    /// Bedside lamp.
    BsLamp,
    /// Any model not known to this crate.
    Unknown(String),
}

/// The mathematical form of a [`Model`].
pub enum ModelV {
    /// Brightness only.
    Mono,
    /// Color + color temperature.
    Color,
    /// LED stripe.
    Stripe,
    /// Ceiling light.
    Ceiling,
    /// Bedside lamp.
    BsLamp,
    /// Any other model, by its raw name.
    Unknown(Seq<char>),
}

impl View for Model {
    type V = ModelV;

    open spec fn view(&self) -> ModelV {
        match self {
            Model::Mono => ModelV::Mono,
            Model::Color => ModelV::Color,
            Model::Stripe => ModelV::Stripe,
            Model::Ceiling => ModelV::Ceiling,
            Model::BsLamp => ModelV::BsLamp,
            Model::Unknown(s) => ModelV::Unknown(s@),
        }
    }
}

/// The model a raw `model` header names.
pub open spec fn model_of(s: Seq<char>) -> ModelV {
    if s == "mono"@ {
        ModelV::Mono
    } else if s == "color"@ {
        ModelV::Color
    } else if s == "stripe"@ {
        ModelV::Stripe
    } else if s == "ceiling"@ {
        ModelV::Ceiling
    } else if s == "bslamp"@ {
        ModelV::BsLamp
    } else {
        ModelV::Unknown(s)
    }
}

/// The raw `model` name of a model.
pub open spec fn model_name(m: ModelV) -> Seq<char> {
    match m {
        ModelV::Mono => "mono"@,
        ModelV::Color => "color"@,
        ModelV::Stripe => "stripe"@,
        ModelV::Ceiling => "ceiling"@,
        ModelV::BsLamp => "bslamp"@,
        ModelV::Unknown(s) => s,
    }
}

/// Whether `s` is one of the model names this crate knows.
pub open spec fn known_model_name(s: Seq<char>) -> bool {
    s == "mono"@ || s == "color"@ || s == "stripe"@ || s == "ceiling"@ || s == "bslamp"@
}

/// Whether `a` and `b` hold the same characters.
fn same(a: &[char], b: &str) -> (r: bool)
    ensures
        r == (a@ == b@),
{
    let bv = chars_of(b);
    chars_eq(a, &bv)
}

impl Model {
    /// The model a raw `model` header names (`"color"` → [`Model::Color`], anything
    /// unknown kept as [`Model::Unknown`]).
    pub fn parse(s: &str) -> (m: Model)
        ensures
            m@ == model_of(s@),
    {
        let v = chars_of(s);
        proof {
            reveal_strlit("mono");
            reveal_strlit("color");
            reveal_strlit("stripe");
            reveal_strlit("ceiling");
            reveal_strlit("bslamp");
        }
        if same(&v, "mono") {
            Model::Mono
        } else if same(&v, "color") {
            Model::Color
        } else if same(&v, "stripe") {
            Model::Stripe
        } else if same(&v, "ceiling") {
            Model::Ceiling
        } else if same(&v, "bslamp") {
            Model::BsLamp
        } else {
            Model::Unknown(s.to_string())
        }
    }

    /// The raw `model` name (`Model::Color` → `"color"`, unknown models as received).
    pub fn name(&self) -> (s: String)
        ensures
            s@ == model_name(self@),
    {
        match self {
            Model::Mono => "mono".to_string(),
            Model::Color => "color".to_string(),
            Model::Stripe => "stripe".to_string(),
            Model::Ceiling => "ceiling".to_string(),
            Model::BsLamp => "bslamp".to_string(),
            Model::Unknown(s) => s.clone(),
        }
    }
}

/// A model name survives the trip through [`Model`]: naming the parsed model gives
/// back the raw header.
pub proof fn model_name_round_trip(s: Seq<char>)
    ensures
        model_name(model_of(s)) == s,
{
}

/// A model survives the trip through its name, unless it is an unknown model
/// carrying a known name (which parses as that known model).
pub proof fn model_round_trip(m: ModelV)
    requires
        !(m matches ModelV::Unknown(s) && known_model_name(s)),
    ensures
        model_of(model_name(m)) == m,
{
    reveal_strlit("mono");
    reveal_strlit("color");
    reveal_strlit("stripe");
    reveal_strlit("ceiling");
    reveal_strlit("bslamp");
    assert("color"@ != "mono"@ && "stripe"@ != "mono"@ && "ceiling"@ != "mono"@ && "bslamp"@
        != "mono"@) by {
        assert("color"@[0] != "mono"@[0]);
        assert("stripe"@[0] != "mono"@[0]);
        assert("ceiling"@[0] != "mono"@[0]);
        assert("bslamp"@[0] != "mono"@[0]);
    }
    assert("stripe"@ != "color"@ && "ceiling"@ != "color"@ && "bslamp"@ != "color"@) by {
        assert("stripe"@[0] != "color"@[0]);
        assert("ceiling"@[1] != "color"@[1]);
        assert("bslamp"@[0] != "color"@[0]);
    }
    assert("ceiling"@ != "stripe"@ && "bslamp"@ != "stripe"@) by {
        assert("ceiling"@[0] != "stripe"@[0]);
        assert("bslamp"@[0] != "stripe"@[0]);
    }
    assert("bslamp"@ != "ceiling"@) by {
        assert("bslamp"@[0] != "ceiling"@[0]);
    }
}

/// Snapshot of device state parsed from discovery headers or notifications.
///
/// Fields are `Option` because validity is mode-dependent (e.g. `rgb` only in color mode).
#[derive(Debug, Clone)]
pub struct State {
    /// Power: `Some(true)` = on, `Some(false)` = off.
    pub power: Option<bool>,
    /// Brightness percentage, `1..=100`.
    pub bright: Option<u8>,
    /// Color mode: `1` rgb, `2` color-temperature, `3` hsv.
    pub color_mode: Option<u8>,
    /// Color temperature in Kelvin (valid when `color_mode == 2`).
    pub ct: Option<u16>,
    /// RGB value (valid when `color_mode == 1`).
    pub rgb: Option<u32>,
    /// Hue `0..=359` (valid when `color_mode == 3`).
    pub hue: Option<u16>,
    /// Saturation `0..=100` (valid when `color_mode == 3`).
    pub sat: Option<u8>,
    /// Device name set via `set_name`.
    pub name: Option<String>,
    /// Background-light power (`bg_power`), for devices with a second light.
    pub bg_power: Option<bool>,
    /// Background-light brightness (`bg_bright`).
    pub bg_bright: Option<u8>,
    /// Background-light color mode (`bg_lmode`): `1` rgb, `2` ct, `3` hsv.
    pub bg_color_mode: Option<u8>,
    /// Background-light color temperature (`bg_ct`).
    pub bg_ct: Option<u16>,
    /// Background-light RGB (`bg_rgb`).
    pub bg_rgb: Option<u32>,
    /// Background-light hue (`bg_hue`).
    pub bg_hue: Option<u16>,
    /// Background-light saturation (`bg_sat`).
    pub bg_sat: Option<u8>,
}

/// The name of a state, as characters.
pub open spec fn name_v(n: Option<String>) -> Option<Seq<char>> {
    match n {
        Some(s) => Some(s@),
        None => None,
    }
}

/// A state with every field unknown.
pub open spec fn empty_state(s: State) -> bool {
    &&& s.power is None
    &&& s.bright is None
    &&& s.color_mode is None
    &&& s.ct is None
    &&& s.rgb is None
    &&& s.hue is None
    &&& s.sat is None
    &&& s.name is None
    &&& s.bg_power is None
    &&& s.bg_bright is None
    &&& s.bg_color_mode is None
    &&& s.bg_ct is None
    &&& s.bg_rgb is None
    &&& s.bg_hue is None
    &&& s.bg_sat is None
}

impl Default for State {
    fn default() -> (s: Self)
        ensures
            empty_state(s),
    {
        State {
            power: None,
            bright: None,
            color_mode: None,
            ct: None,
            rgb: None,
            hue: None,
            sat: None,
            name: None,
            bg_power: None,
            bg_bright: None,
            bg_color_mode: None,
            bg_ct: None,
            bg_rgb: None,
            bg_hue: None,
            bg_sat: None,
        }
    }
}

/// An IPv4 address: its four octets, most significant first.
#[derive(Debug, Clone, Copy, PartialEq, Eq, Structural)]
pub struct Ipv4 {
    /// First octet.
    pub a: u8,
    /// Second octet.
    pub b: u8,
    /// Third octet.
    pub c: u8,
    /// Fourth octet.
    pub d: u8,
}

/// An IPv6 address: its eight 16-bit segments, most significant first.
#[derive(Debug, Clone, Copy, PartialEq, Eq, Structural)]
pub struct Ipv6 {
    /// Segment 0.
    pub s0: u16,
    /// Segment 1.
    pub s1: u16,
    /// Segment 2.
    pub s2: u16,
    /// Segment 3.
    pub s3: u16,
    /// Segment 4.
    pub s4: u16,
    /// Segment 5.
    pub s5: u16,
    /// Segment 6.
    pub s6: u16,
    /// Segment 7.
    pub s7: u16,
}

impl Ipv6 {
    /// The segments in order.
    pub open spec fn segs(self) -> Seq<u16> {
        seq![self.s0, self.s1, self.s2, self.s3, self.s4, self.s5, self.s6, self.s7]
    }
}

/// The IPv6 address with segments `g` (of which there are eight).
pub open spec fn ipv6_of(g: Seq<u16>) -> Ipv6 {
    Ipv6 { s0: g[0], s1: g[1], s2: g[2], s3: g[3], s4: g[4], s5: g[5], s6: g[6], s7: g[7] }
}

/// A host address.
#[derive(Debug, Clone, Copy, PartialEq, Eq, Structural)]
pub enum Ip {
    /// An IPv4 host.
    V4(Ipv4),
    /// An IPv6 host with its zone index (0 when none).
    V6 {
        /// The address.
        addr: Ipv6,
        /// The zone (scope) index.
        scope: u32,
    },
}

/// A control-service address: host and TCP port.
#[derive(Debug, Clone, Copy, PartialEq, Eq, Structural)]
pub struct Location {
    /// The host address.
    pub ip: Ip,
    /// The TCP port.
    pub port: u16,
}

/// The dotted text `a.b.c.d` of an IPv4 address.
pub open spec fn ipv4_text(a: Ipv4) -> Seq<char> {
    dec(a.a as nat) + seq!['.'] + dec(a.b as nat) + seq!['.'] + dec(a.c as nat) + seq!['.'] + dec(
        a.d as nat,
    )
}

/// The text of a host (std `Display` for an IP address; no zone).
pub open spec fn host_text_v(ip: Ip) -> Seq<char> {
    match ip {
        Ip::V4(a) => ipv4_text(a),
        Ip::V6 { addr, .. } => ipv6_text(addr),
    }
}

/// The text of a location (std `Display` for a socket address): `a.b.c.d:port`, or
/// `[v6]:port` with `%zone` inside the brackets when the zone is not 0.
pub open spec fn location_text(l: Location) -> Seq<char> {
    match l.ip {
        Ip::V4(a) => ipv4_text(a) + seq![':'] + dec(l.port as nat),
        Ip::V6 { addr, scope } => seq!['['] + ipv6_text(addr) + (if scope == 0 {
            Seq::empty()
        } else {
            seq!['%'] + dec(scope as nat)
        }) + seq![']', ':'] + dec(l.port as nat),
    }
}

/// Appends the dotted text of an IPv4 address.
fn push_ipv4(out: &mut Vec<char>, a: Ipv4)
    ensures
        final(out)@ == old(out)@ + ipv4_text(a),
{
    push_dec(out, a.a as u64);
    out.push('.');
    push_dec(out, a.b as u64);
    out.push('.');
    push_dec(out, a.c as u64);
    out.push('.');
    push_dec(out, a.d as u64);
    assert(final(out)@ =~= old(out)@ + ipv4_text(a));
}

/// Appends the text of a host.
fn push_host(out: &mut Vec<char>, ip: Ip)
    ensures
        final(out)@ == old(out)@ + host_text_v(ip),
{
    match ip {
        Ip::V4(a) => push_ipv4(out, a),
        Ip::V6 { addr, .. } => push_ipv6(out, addr),
    }
}

impl Location {
    /// The text of the location (see [`location_text`]).
    pub fn to_text(&self) -> (s: String)
        ensures
            s@ == location_text(*self),
    {
        let mut out: Vec<char> = Vec::new();
        match self.ip {
            Ip::V4(a) => {
                push_ipv4(&mut out, a);
            },
            Ip::V6 { addr, scope } => {
                out.push('[');
                push_ipv6(&mut out, addr);
                if scope != 0 {
                    out.push('%');
                    push_dec(&mut out, scope as u64);
                }
                out.push(']');
            },
        }
        out.push(':');
        push_dec(&mut out, self.port as u64);
        assert(out@ =~= location_text(*self));
        string_of(&out)
    }

    /// The host part (see [`host_text_v`]).
    pub fn host_text(&self) -> (s: String)
        ensures
            s@ == host_text_v(self.ip),
    {
        let mut out: Vec<char> = Vec::new();
        push_host(&mut out, self.ip);
        assert(out@ =~= host_text_v(self.ip));
        string_of(&out)
    }
}

/// The set of method names in `support`.
pub open spec fn support_set(support: Seq<String>) -> Set<Seq<char>> {
    Set::new(|m: Seq<char>| exists|i: int| 0 <= i < support.len() && (#[trigger] support[i])@ == m)
}

/// No method name occurs twice in `support`.
pub open spec fn no_dup_names(support: Seq<String>) -> bool {
    forall|i: int, j: int|
        0 <= i < j < support.len() ==> (#[trigger] support[i])@ != (#[trigger] support[j])@
}

/// A discovered Yeelight device.
#[derive(Debug, Clone)]
pub struct Device {
    /// Unique device id (the `id` header), used to identify a device.
    pub id: String,
    /// Product model.
    pub model: Model,
    /// Firmware version.
    pub fw_ver: String,
    /// Control-service address parsed from the `Location` header (`yeelight://host:port`).
    pub location: Location,
    /// Methods the device accepts (the whitespace-separated `support` header), each once.
    pub support: Vec<String>,
    /// Last known state from discovery.
    pub state: State,
}

impl Device {
    /// Whether the device advertises support for `method`.
    pub fn supports(&self, method: &str) -> (b: bool)
        ensures
            b == support_set(self.support@).contains(method@),
    {
        let m = chars_of(method);
        let mut i: usize = 0;
        while i < self.support.len()
            invariant
                i <= self.support@.len(),
                m@ == method@,
                forall|j: int| 0 <= j < i ==> (#[trigger] self.support@[j])@ != method@,
            decreases self.support@.len() - i,
        {
            let s = chars_of(self.support[i].as_str());
            if chars_eq(&s, &m) {
                assert(support_set(self.support@).contains(method@));
                return true;
            }
            i = i + 1;
        }
        false
    }
}

} // verus!
