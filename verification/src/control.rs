//! The control panel's logic: resolving a user intent against a device's
//! capabilities, the optimistic local state update, the commands sent, status-bar
//! labels, notification merging, the custom flow editor, sleep timers and tab gating.
//!
//! Widgets, windows and the event loop live outside the library.

use vstd::prelude::*;

use crate::commands::{
    bright_err, ct_err, effect_params_v, req_is, set_bright_m, set_ct_m, Effect, FlowExpr, FlowTuple,
    Request,
};
use crate::device::{name_v, support_set, Device, State};
use crate::error::invalid_param;
use crate::discovery::{last_value, u16_v, u32_v, u8_v};
use crate::json::{items_v, str_v, uint_v, JsonV};
use crate::text::{
    chars_eq, chars_of, dec, extend_chars, parse_i8, parse_sint, parse_u32, parse_u8, parse_uint,
    push_dec, string_of,
};

verus! {

/// Transition used for every command issued from the control panel.
pub open spec fn panel_effect() -> Effect {
    Effect::Smooth(500)
}

/// Transition used for every command issued from the control panel (500 ms smooth).
pub fn effect() -> (e: Effect)
    ensures
        e == panel_effect(),
{
    Effect::Smooth(500)
}

/// A fully resolved device operation (capabilities already taken into account).
///
/// The leading `bool` is the background-light flag (`true` = `bg_*`).
#[derive(Debug, Clone, Copy, PartialEq, Eq, Structural)]
pub enum Op {
    /// `toggle` / `bg_toggle`.
    Toggle(bool),
    /// `set_power` / `bg_set_power` with an explicit on/off target.
    SetPower(bool, bool),
    /// `set_rgb` / `bg_set_rgb`.
    SetRgb(bool, u32),
    /// `set_bright` / `bg_set_bright`.
    SetBright(bool, u8),
    /// `set_ct_abx` / `bg_set_ct_abx`.
    SetCt(bool, u16),
}

/// A user intent issued from a control widget, before device capabilities resolve it.
#[derive(Debug, Clone, Copy, PartialEq, Eq, Structural)]
pub enum CmdKind {
    /// Flip power.
    Toggle,
    /// Set an RGB color (`0xRRGGBB`).
    SetColor(u32),
    /// Set brightness `1..=100`.
    SetBright(u8),
    /// Set color temperature in Kelvin (`1700..=6500`).
    SetTemp(u16),
}

/// Which control a command came from — used to disable only the clicked button.
#[derive(Debug, Clone, Copy, PartialEq, Eq, Hash, Structural)]
pub enum Btn {
    /// The toggle button.
    Toggle,
    /// The change-color button.
    Color,
    /// The brightness slider.
    Bright,
    /// The color-temperature slider.
    Temp,
    /// One-shot whole-device actions (rename, save-default, …).
    Misc,
}

/// The control a command kind comes from.
pub fn btn_of(kind: CmdKind) -> (b: Btn)
    ensures
        b == (match kind {
            CmdKind::Toggle => Btn::Toggle,
            CmdKind::SetColor(_) => Btn::Color,
            CmdKind::SetBright(_) => Btn::Bright,
            CmdKind::SetTemp(_) => Btn::Temp,
        }),
{
    match kind {
        CmdKind::Toggle => Btn::Toggle,
        CmdKind::SetColor(_) => Btn::Color,
        CmdKind::SetBright(_) => Btn::Bright,
        CmdKind::SetTemp(_) => Btn::Temp,
    }
}

/// Whether the device advertises `method`.
pub open spec fn has_method(d: Device, method: Seq<char>) -> bool {
    support_set(d.support@).contains(method)
}

/// The operation an intent resolves to on device `d`: a toggle uses the device's
/// toggle when advertised, else an explicit power command to the opposite of the
/// known power (off when unknown).
pub open spec fn resolve_v(d: Device, bg: bool, kind: CmdKind) -> Op {
    match kind {
        CmdKind::Toggle => if has_method(d, if bg { "bg_toggle"@ } else { "toggle"@ }) {
            Op::Toggle(bg)
        } else {
            Op::SetPower(
                bg,
                !(match d.state.power {
                    Some(p) => p,
                    None => false,
                }),
            )
        },
        CmdKind::SetColor(c) => Op::SetRgb(bg, c),
        CmdKind::SetBright(b) => Op::SetBright(bg, b),
        CmdKind::SetTemp(ct) => Op::SetCt(bg, ct),
    }
}

/// Resolve a user intent against the device's capabilities (see [`resolve_v`]).
pub fn resolve_op(d: &Device, bg: bool, kind: CmdKind) -> (op: Op)
    ensures
        op == resolve_v(*d, bg, kind),
{
    match kind {
        CmdKind::Toggle => {
            let has_toggle = if bg {
                d.supports("bg_toggle")
            } else {
                d.supports("toggle")
            };
            if has_toggle {
                Op::Toggle(bg)
            } else {
                let on = match d.state.power {
                    Some(p) => p,
                    None => false,
                };
                Op::SetPower(bg, !on)
            }
        },
        CmdKind::SetColor(c) => Op::SetRgb(bg, c),
        CmdKind::SetBright(b) => Op::SetBright(bg, b),
        CmdKind::SetTemp(ct) => Op::SetCt(bg, ct),
    }
}

/// The light an operation acts on: `true` for the background light.
pub open spec fn op_bg(op: Op) -> bool {
    match op {
        Op::Toggle(bg) => bg,
        Op::SetPower(bg, _) => bg,
        Op::SetRgb(bg, _) => bg,
        Op::SetBright(bg, _) => bg,
        Op::SetCt(bg, _) => bg,
    }
}

/// Whatever the device supports, an intent resolves to an operation on the light it
/// was issued for, and a color, brightness or temperature intent carries its value
/// unchanged into an operation of its own kind.
pub proof fn resolve_targets_asked_light(d: Device, bg: bool, kind: CmdKind)
    ensures
        op_bg(resolve_v(d, bg, kind)) == bg,
        kind matches CmdKind::SetColor(c) ==> resolve_v(d, bg, kind) matches Op::SetRgb(_, x) && x == c,
        kind matches CmdKind::SetBright(b) ==> resolve_v(d, bg, kind) matches Op::SetBright(_, x) && x == b,
        kind matches CmdKind::SetTemp(t) ==> resolve_v(d, bg, kind) matches Op::SetCt(_, x) && x == t,
        kind is Toggle ==> (resolve_v(d, bg, kind) is Toggle || resolve_v(d, bg, kind) is SetPower),
{
}

/// The main-light state after an optimistic local update for `op`: the background
/// light has no local mirror, so `bg` operations change nothing.
pub open spec fn applied_v(s: State, op: Op) -> State {
    match op {
        Op::Toggle(false) => State {
            power: Some(
                !(match s.power {
                    Some(p) => p,
                    None => false,
                }),
            ),
            ..s
        },
        Op::SetPower(false, on) => State { power: Some(on), ..s },
        Op::SetRgb(false, rgb) => State { rgb: Some(rgb), color_mode: Some(1), ..s },
        Op::SetBright(false, b) => State { bright: Some(b), ..s },
        Op::SetCt(false, ct) => State { ct: Some(ct), color_mode: Some(2), ..s },
        _ => s,
    }
}

/// Apply the optimistic local state update for `op` (see [`applied_v`]).
pub fn apply_op(state: &mut State, op: Op)
    ensures
        *final(state) == applied_v(*old(state), op),
{
    match op {
        Op::Toggle(false) => {
            let on = match state.power {
                Some(p) => p,
                None => false,
            };
            state.power = Some(!on);
        },
        Op::SetPower(false, on) => state.power = Some(on),
        Op::SetRgb(false, rgb) => {
            state.rgb = Some(rgb);
            state.color_mode = Some(1);
        },
        Op::SetBright(false, b) => state.bright = Some(b),
        Op::SetCt(false, ct) => {
            state.ct = Some(ct);
            state.color_mode = Some(2);
        },
        _ => {},
    }
}

/// The command an operation sends over the request/response client.
pub open spec fn op_request_v(op: Op, r: Request) -> bool {
    let e = effect_params_v(panel_effect());
    match op {
        Op::Toggle(bg) => req_is(r, if bg { "bg_toggle"@ } else { "toggle"@ }, Seq::empty()),
        Op::SetPower(bg, on) => req_is(
            r,
            if bg { "bg_set_power"@ } else { "set_power"@ },
            seq![str_v(if on { "on"@ } else { "off"@ })] + e,
        ),
        Op::SetRgb(bg, rgb) => req_is(
            r,
            if bg { "bg_set_rgb"@ } else { "set_rgb"@ },
            seq![uint_v(rgb as nat)] + e,
        ),
        Op::SetBright(bg, b) => req_is(
            r,
            if bg { "bg_set_bright"@ } else { "set_bright"@ },
            seq![uint_v(b as nat)] + e,
        ),
        Op::SetCt(bg, ct) => req_is(
            r,
            if bg { "bg_set_ct_abx"@ } else { "set_ct_abx"@ },
            seq![uint_v(ct as nat)] + e,
        ),
    }
}

/// An operation's request goes to the light it acts on (a `bg_` method exactly for
/// the background light), names the action of its own kind, and carries the value
/// it sets first, then the panel's 500 ms smooth transition.
pub proof fn op_request_targets_op_light(op: Op, r: Request)
    requires
        op_request_v(op, r),
    ensures
        bg_method(r.method@) <==> op_bg(op),
        !(op is Toggle) ==> items_v(r.params@).len() >= 3 && items_v(r.params@)[items_v(r.params@).len() - 2]
            == str_v("smooth"@) && items_v(r.params@)[items_v(r.params@).len() - 1] == uint_v(500),
        (op is SetRgb || op is SetBright || op is SetCt) ==> items_v(r.params@)[0] == uint_v(op_value(op)),
        op matches Op::SetPower(_, on) ==> items_v(r.params@)[0] == str_v(if on { "on"@ } else { "off"@ }),
        op is Toggle ==> items_v(r.params@).len() == 0,
        op matches Op::SetRgb(bg, _) ==> r.method@ == (if bg { "bg_set_rgb"@ } else { "set_rgb"@ }),
        op matches Op::SetBright(bg, _) ==> r.method@ == (if bg { "bg_set_bright"@ } else { "set_bright"@ }),
        op matches Op::SetCt(bg, _) ==> r.method@ == (if bg { "bg_set_ct_abx"@ } else { "set_ct_abx"@ }),
{
    reveal_strlit("bg_");
    reveal_strlit("smooth");
    reveal_strlit("bg_toggle");
    reveal_strlit("toggle");
    reveal_strlit("bg_set_power");
    reveal_strlit("set_power");
    reveal_strlit("bg_set_rgb");
    reveal_strlit("set_rgb");
    reveal_strlit("bg_set_bright");
    reveal_strlit("set_bright");
    reveal_strlit("bg_set_ct_abx");
    reveal_strlit("set_ct_abx");
    assert("bg_toggle"@.subrange(0, 3) =~= "bg_"@);
    assert("bg_set_power"@.subrange(0, 3) =~= "bg_"@);
    assert("bg_set_rgb"@.subrange(0, 3) =~= "bg_"@);
    assert("bg_set_bright"@.subrange(0, 3) =~= "bg_"@);
    assert("bg_set_ct_abx"@.subrange(0, 3) =~= "bg_"@);
    assert("toggle"@.subrange(0, 3)[0] != "bg_"@[0]);
    assert("set_power"@.subrange(0, 3)[0] != "bg_"@[0]);
    assert("set_rgb"@.subrange(0, 3)[0] != "bg_"@[0]);
    assert("set_bright"@.subrange(0, 3)[0] != "bg_"@[0]);
    assert("set_ct_abx"@.subrange(0, 3)[0] != "bg_"@[0]);
}

/// The local mirror follows only the main light: an operation on the background
/// light leaves it as it was, and one on the main light changes its own field to
/// the value it sets (a color or temperature also switches the color mode to RGB,
/// `1`, or temperature, `2`), keeping every other field.
pub proof fn applied_tracks_main_light(s: State, op: Op)
    ensures
        op_bg(op) ==> applied_v(s, op) == s,
        op matches Op::SetRgb(false, c) ==> applied_v(s, op) == (State { rgb: Some(c), color_mode: Some(1), ..s }),
        op matches Op::SetCt(false, c) ==> applied_v(s, op) == (State { ct: Some(c), color_mode: Some(2), ..s }),
        op matches Op::SetBright(false, b) ==> applied_v(s, op) == (State { bright: Some(b), ..s }),
        op matches Op::SetPower(false, on) ==> applied_v(s, op) == (State { power: Some(on), ..s }),
        op matches Op::Toggle(false) ==> applied_v(s, op).power == Some(s.power != Some(true))
            && applied_v(s, op) == (State { power: applied_v(s, op).power, ..s }),
{
}

/// The rejection of an operation's argument outside its documented range.
pub open spec fn op_err(op: Op) -> Option<Seq<char>> {
    match op {
        Op::SetBright(_, b) => bright_err(b),
        Op::SetCt(_, ct) => ct_err(ct),
        _ => None,
    }
}

/// The command `op` sends over the request/response client, with the panel's
/// 500 ms smooth transition; a brightness or temperature outside its documented
/// range is refused before anything is sent.
pub fn op_request(op: Op) -> (r: crate::error::Result<Request>)
    ensures
        match op_err(op) {
            Some(m) => r matches Err(e) && invalid_param(e, m),
            None => r matches Ok(q) && op_request_v(op, q),
        },
{
    match op {
        Op::Toggle(true) => Ok(Request::bg_toggle()),
        Op::Toggle(false) => Ok(Request::toggle()),
        Op::SetPower(true, on) => Request::bg_set_power(on, effect(), None),
        Op::SetPower(false, on) => Request::set_power(on, effect(), None),
        Op::SetRgb(true, rgb) => Request::bg_set_rgb(rgb, effect()),
        Op::SetRgb(false, rgb) => Request::set_rgb(rgb, effect()),
        Op::SetBright(true, b) => Request::bg_set_bright(b, effect()),
        Op::SetBright(false, b) => Request::set_bright(b, effect()),
        Op::SetCt(true, ct) => Request::bg_set_ct_abx(ct, effect()),
        Op::SetCt(false, ct) => Request::set_ct_abx(ct, effect()),
    }
}

/// Parameters `value, "sudden", 0` of an instant change.
pub open spec fn instant_v(value: nat) -> Seq<JsonV> {
    seq![uint_v(value), str_v("sudden"@), uint_v(0)]
}

/// What an operation streams over a music channel: continuous controls (color,
/// brightness, temperature) as instant changes; power and toggle never stream.
pub open spec fn music_v(op: Op) -> Option<(Seq<char>, Seq<JsonV>)> {
    match op {
        Op::SetRgb(bg, rgb) => Some((if bg { "bg_set_rgb"@ } else { "set_rgb"@ }, instant_v(rgb as nat))),
        Op::SetBright(bg, b) => Some(
            (if bg { "bg_set_bright"@ } else { "set_bright"@ }, instant_v(b as nat)),
        ),
        Op::SetCt(bg, ct) => Some(
            (if bg { "bg_set_ct_abx"@ } else { "set_ct_abx"@ }, instant_v(ct as nat)),
        ),
        Op::Toggle(_) | Op::SetPower(..) => None,
    }
}

/// Map a streamed [`Op`] to the command sent over a music channel (see [`music_v`]).
pub fn music_params(op: Op) -> (r: Option<Request>)
    ensures
        match music_v(op) {
            Some((m, p)) => r matches Some(q) && req_is(q, m, p),
            None => r is None,
        },
{
    let r = match op {
        Op::SetRgb(true, rgb) => Request::bg_set_rgb(rgb, Effect::Sudden).ok(),
        Op::SetRgb(false, rgb) => Request::set_rgb(rgb, Effect::Sudden).ok(),
        Op::SetBright(true, b) => set_bright_m("bg_set_bright", b, Effect::Sudden).ok(),
        Op::SetBright(false, b) => set_bright_m("set_bright", b, Effect::Sudden).ok(),
        Op::SetCt(true, ct) => set_ct_m("bg_set_ct_abx", ct, Effect::Sudden).ok(),
        Op::SetCt(false, ct) => set_ct_m("set_ct_abx", ct, Effect::Sudden).ok(),
        Op::Toggle(_) | Op::SetPower(..) => None,
    };
    proof {
        assert(forall|v: nat| seq![uint_v(v)] + effect_params_v(Effect::Sudden) =~= instant_v(v));
    }
    r
}

/// Whether a method name is a background-light command (`bg_` prefix).
pub open spec fn bg_method(m: Seq<char>) -> bool {
    m.len() >= 3 && m.subrange(0, 3) == "bg_"@
}

/// The value a color, brightness or temperature operation sets (`0` for power).
pub open spec fn op_value(op: Op) -> nat {
    match op {
        Op::SetRgb(_, rgb) => rgb as nat,
        Op::SetBright(_, b) => b as nat,
        Op::SetCt(_, ct) => ct as nat,
        _ => 0,
    }
}

/// A streamed operation goes to the light it acts on: its music command is a
/// background command (`bg_` prefix) exactly when the operation is on the
/// background light, and it is the same method that the operation sends over the
/// request/response client; its parameters are the value, `"sudden"` and `0`.
pub proof fn music_targets_op_light(op: Op, r: Request)
    ensures
        music_v(op) matches Some((m, p)) ==> (bg_method(m) <==> op_bg(op)),
        music_v(op) matches Some((m, p)) ==> (op_request_v(op, r) ==> r.method@ == m),
        music_v(op) matches Some((m, p)) ==> p.len() == 3 && p[0] == uint_v(op_value(op)) && p[1] == str_v(
            "sudden"@,
        ) && p[2] == uint_v(0),
        music_v(op) is None <==> (op is Toggle || op is SetPower),
{
    reveal_strlit("bg_");
    reveal_strlit("bg_set_rgb");
    reveal_strlit("set_rgb");
    reveal_strlit("bg_set_bright");
    reveal_strlit("set_bright");
    reveal_strlit("bg_set_ct_abx");
    reveal_strlit("set_ct_abx");
    assert("bg_set_rgb"@.subrange(0, 3) =~= "bg_"@);
    assert("bg_set_bright"@.subrange(0, 3) =~= "bg_"@);
    assert("bg_set_ct_abx"@.subrange(0, 3) =~= "bg_"@);
    assert("set_rgb"@.subrange(0, 3)[0] != "bg_"@[0]);
    assert("set_bright"@.subrange(0, 3)[0] != "bg_"@[0]);
    assert("set_ct_abx"@.subrange(0, 3)[0] != "bg_"@[0]);
}

// ----- status labels ---------------------------------------------------------------

/// The uppercase hexadecimal digit for `d` (`0..=15`).
pub open spec fn hex_digit(d: nat) -> char {
    if d < 10 {
        (48 + d) as char
    } else {
        (55 + d) as char
    }
}

/// Uppercase hexadecimal rendering of `n`, without leading zeros.
pub open spec fn hex(n: nat) -> Seq<char>
    decreases n,
{
    if n < 16 {
        seq![hex_digit(n)]
    } else {
        hex(n / 16).push(hex_digit(n % 16))
    }
}

/// `s` left-padded with `0` to at least `width` characters.
pub open spec fn zero_pad(s: Seq<char>, width: nat) -> Seq<char> {
    if s.len() >= width {
        s
    } else {
        Seq::new((width - s.len()) as nat, |i: int| '0') + s
    }
}

/// Appends the uppercase hexadecimal digits of `n`.
fn push_hex(out: &mut Vec<char>, n: u32)
    ensures
        final(out)@ == old(out)@ + hex(n as nat),
    decreases n,
{
    if n >= 16 {
        push_hex(out, n / 16);
    }
    let d = n % 16;
    let c = if d < 10 {
        ((48 + d) as u8) as char
    } else {
        ((55 + d) as u8) as char
    };
    out.push(c);
    assert(old(out)@ + hex(n as nat) =~= old(out)@ + hex((n / 16) as nat) + seq![c] || n < 16);
}

/// The light a label speaks of.
pub open spec fn which_v(bg: bool) -> Seq<char> {
    if bg {
        "background"@
    } else {
        "main"@
    }
}

/// Short human label for the status bar when `op` succeeded.
pub open spec fn label_v(op: Op) -> Seq<char> {
    match op {
        Op::Toggle(bg) | Op::SetPower(bg, _) => which_v(bg) + " light power set"@,
        Op::SetRgb(bg, rgb) => which_v(bg) + " light color set to #"@ + zero_pad(hex(rgb as nat), 6),
        Op::SetBright(bg, b) => which_v(bg) + " light brightness set to "@ + dec(b as nat) + "%"@,
        Op::SetCt(bg, ct) => which_v(bg) + " light temperature set to "@ + dec(ct as nat) + "K"@,
    }
}

impl Op {
    /// Short human label for the status bar on success.
    pub fn label(self) -> (s: String)
        ensures
            s@ == label_v(self),
    {
        let mut out: Vec<char> = Vec::new();
        let bg = match self {
            Op::Toggle(bg) | Op::SetPower(bg, _) => bg,
            Op::SetRgb(bg, _) => bg,
            Op::SetBright(bg, _) => bg,
            Op::SetCt(bg, _) => bg,
        };
        let which = if bg {
            "background"
        } else {
            "main"
        };
        extend_chars(&mut out, &chars_of(which));
        let ghost w = out@;
        assert(w == which_v(bg));
        match self {
            Op::Toggle(_) | Op::SetPower(_, _) => {
                extend_chars(&mut out, &chars_of(" light power set"));
            },
            Op::SetRgb(_, rgb) => {
                extend_chars(&mut out, &chars_of(" light color set to #"));
                let mut h: Vec<char> = Vec::new();
                push_hex(&mut h, rgb);
                assert(h@ =~= hex(rgb as nat));
                let mut k: usize = h.len();
                let ghost before = out@;
                while k < 6
                    invariant
                        h@.len() <= k <= 6 || (k == h@.len() && k > 6),
                        out@ == before + Seq::new((k - h@.len()) as nat, |i: int| '0'),
                    decreases 6 - k,
                {
                    out.push('0');
                    k = k + 1;
                    assert(out@ =~= before + Seq::new((k - h@.len()) as nat, |i: int| '0'));
                }
                let ghost padded = out@;
                extend_chars(&mut out, &h);
                assert(out@ =~= before + zero_pad(hex(rgb as nat), 6));
            },
            Op::SetBright(_, b) => {
                extend_chars(&mut out, &chars_of(" light brightness set to "));
                push_dec(&mut out, b as u64);
                out.push('%');
                proof {
                    reveal_strlit("%");
                }
            },
            Op::SetCt(_, ct) => {
                extend_chars(&mut out, &chars_of(" light temperature set to "));
                push_dec(&mut out, ct as u64);
                out.push('K');
                proof {
                    reveal_strlit("K");
                }
            },
        }
        assert(out@ =~= label_v(self));
        string_of(&out)
    }
}

// ----- time ---------------------------------------------------------------------------

/// Two-digit zero-padded decimal of `n < 100`.
pub open spec fn two(n: nat) -> Seq<char> {
    zero_pad(dec(n), 2)
}

/// Three-digit zero-padded decimal of `n < 1000`.
pub open spec fn three(n: nat) -> Seq<char> {
    zero_pad(dec(n), 3)
}

/// `HH:MM:SS.mmm` (UTC) of the instant `ms` milliseconds after the Unix epoch.
pub open spec fn fmt_time_v(ms: u64) -> Seq<char> {
    let secs = ms as nat / 1000;
    two((secs / 3600) % 24) + seq![':'] + two((secs / 60) % 60) + seq![':'] + two(secs % 60) + seq!['.']
        + three(ms as nat % 1000)
}

/// Appends `n` in decimal, left-padded with zeros to `width` digits.
fn push_padded(out: &mut Vec<char>, n: u64, width: usize)
    requires
        width <= 3,
    ensures
        final(out)@ == old(out)@ + zero_pad(dec(n as nat), width as nat),
{
    let d = crate::text::dec_chars(n);
    let ghost before = out@;
    let mut k: usize = d.len();
    while k < width
        invariant
            d@ == dec(n as nat),
            d@.len() <= k <= width || k == d@.len(),
            width <= 3,
            out@ == before + Seq::new((k - d@.len()) as nat, |i: int| '0'),
        decreases width - k,
    {
        out.push('0');
        k = k + 1;
        assert(out@ =~= before + Seq::new((k - d@.len()) as nat, |i: int| '0'));
    }
    extend_chars(out, &d);
    assert(out@ =~= before + zero_pad(dec(n as nat), width as nat));
}

/// Format a wall-clock time, given in milliseconds since the Unix epoch (earlier
/// times count as the epoch), as `HH:MM:SS.mmm` (UTC).
pub fn fmt_time(ms: u64) -> (s: String)
    ensures
        s@ == fmt_time_v(ms),
{
    let secs = ms / 1000;
    let mut out: Vec<char> = Vec::new();
    push_padded(&mut out, (secs / 3600) % 24, 2);
    out.push(':');
    push_padded(&mut out, (secs / 60) % 60, 2);
    out.push(':');
    push_padded(&mut out, secs % 60, 2);
    out.push('.');
    push_padded(&mut out, ms % 1000, 3);
    assert(out@ =~= fmt_time_v(ms));
    string_of(&out)
}

// ----- notifications -----------------------------------------------------------------

/// `old` replaced by the parse of `v` when it parses.
pub open spec fn or_keep<T>(parsed: Option<T>, old: Option<T>) -> Option<T> {
    match parsed {
        Some(x) => Some(x),
        None => old,
    }
}

/// The state after one notified property `(k, v)`: power flags become `v == "on"`,
/// numbers replace the old value only when they parse, the name is taken as is, and
/// unknown properties are ignored. Multi-light devices report `main_power`.
pub open spec fn prop_v(s: State, k: Seq<char>, v: Seq<char>) -> State {
    if k == "name"@ {
        s
    } else if k == "power"@ || k == "main_power"@ {
        State { power: Some(v == "on"@), ..s }
    } else if k == "bright"@ {
        State { bright: or_keep(u8_v(parse_uint(v, 0xff)), s.bright), ..s }
    } else if k == "rgb"@ {
        State { rgb: or_keep(u32_v(parse_uint(v, 0xffff_ffff)), s.rgb), ..s }
    } else if k == "ct"@ {
        State { ct: or_keep(u16_v(parse_uint(v, 0xffff)), s.ct), ..s }
    } else if k == "hue"@ {
        State { hue: or_keep(u16_v(parse_uint(v, 0xffff)), s.hue), ..s }
    } else if k == "sat"@ {
        State { sat: or_keep(u8_v(parse_uint(v, 0xff)), s.sat), ..s }
    } else if k == "color_mode"@ {
        State { color_mode: or_keep(u8_v(parse_uint(v, 0xff)), s.color_mode), ..s }
    } else if k == "bg_power"@ {
        State { bg_power: Some(v == "on"@), ..s }
    } else if k == "bg_bright"@ {
        State { bg_bright: or_keep(u8_v(parse_uint(v, 0xff)), s.bg_bright), ..s }
    } else if k == "bg_rgb"@ {
        State { bg_rgb: or_keep(u32_v(parse_uint(v, 0xffff_ffff)), s.bg_rgb), ..s }
    } else if k == "bg_ct"@ {
        State { bg_ct: or_keep(u16_v(parse_uint(v, 0xffff)), s.bg_ct), ..s }
    } else if k == "bg_hue"@ {
        State { bg_hue: or_keep(u16_v(parse_uint(v, 0xffff)), s.bg_hue), ..s }
    } else if k == "bg_sat"@ {
        State { bg_sat: or_keep(u8_v(parse_uint(v, 0xff)), s.bg_sat), ..s }
    } else if k == "bg_lmode"@ {
        State { bg_color_mode: or_keep(u8_v(parse_uint(v, 0xff)), s.bg_color_mode), ..s }
    } else {
        s
    }
}

/// The properties `ps`, in order, merged into `s` (names compared as characters;
/// a notified `name` sets the name).
pub open spec fn props_v(s: State, ps: Seq<(Seq<char>, Seq<char>)>) -> (State, Option<Seq<char>>)
    decreases ps.len(),
{
    if ps.len() == 0 {
        (s, name_v(s.name))
    } else {
        let (t, n) = props_v(s, ps.drop_last());
        let (k, v) = ps.last();
        (prop_v(t, k, v), if k == "name"@ {
            Some(v)
        } else {
            n
        })
    }
}

/// `a` and `b` agree on every field but the name.
pub open spec fn same_but_name(a: State, b: State) -> bool {
    State { name: None, ..a } == State { name: None, ..b }
}

/// Whether `a` holds the characters of the literal `b`.
fn is(a: &[char], b: &str) -> (r: bool)
    ensures
        r == (a@ == b@),
{
    chars_eq(a, &chars_of(b))
}

/// `s` read as an unsigned number of at most `max`.
fn num(s: &[char], max: u64) -> (r: Option<u64>)
    ensures
        r == (match parse_uint(s@, max as nat) {
            Some(v) => Some(v as u64),
            None => None::<u64>,
        }),
{
    crate::text::parse_uint_chars(s, max)
}

/// Merge one notified property into `state` (see [`prop_v`]).
fn apply_prop(state: &mut State, k: &[char], v: &String)
    ensures
        same_but_name(*final(state), prop_v(*old(state), k@, v@)),
        name_v(final(state).name) == (if k@ == "name"@ {
            Some(v@)
        } else {
            name_v(old(state).name)
        }),
{
    let vc = chars_of(v.as_str());
    let on = is(&vc, "on");
    if is(k, "name") {
        state.name = Some(v.clone());
    } else if is(k, "power") || is(k, "main_power") {
        state.power = Some(on);
    } else if is(k, "bright") {
        if let Some(x) = num(&vc, 0xff) {
            state.bright = Some(x as u8);
        }
    } else if is(k, "rgb") {
        if let Some(x) = num(&vc, 0xffff_ffff) {
            state.rgb = Some(x as u32);
        }
    } else if is(k, "ct") {
        if let Some(x) = num(&vc, 0xffff) {
            state.ct = Some(x as u16);
        }
    } else if is(k, "hue") {
        if let Some(x) = num(&vc, 0xffff) {
            state.hue = Some(x as u16);
        }
    } else if is(k, "sat") {
        if let Some(x) = num(&vc, 0xff) {
            state.sat = Some(x as u8);
        }
    } else if is(k, "color_mode") {
        if let Some(x) = num(&vc, 0xff) {
            state.color_mode = Some(x as u8);
        }
    } else if is(k, "bg_power") {
        state.bg_power = Some(on);
    } else if is(k, "bg_bright") {
        if let Some(x) = num(&vc, 0xff) {
            state.bg_bright = Some(x as u8);
        }
    } else if is(k, "bg_rgb") {
        if let Some(x) = num(&vc, 0xffff_ffff) {
            state.bg_rgb = Some(x as u32);
        }
    } else if is(k, "bg_ct") {
        if let Some(x) = num(&vc, 0xffff) {
            state.bg_ct = Some(x as u16);
        }
    } else if is(k, "bg_hue") {
        if let Some(x) = num(&vc, 0xffff) {
            state.bg_hue = Some(x as u16);
        }
    } else if is(k, "bg_sat") {
        if let Some(x) = num(&vc, 0xff) {
            state.bg_sat = Some(x as u8);
        }
    } else if is(k, "bg_lmode") {
        if let Some(x) = num(&vc, 0xff) {
            state.bg_color_mode = Some(x as u8);
        }
    }
}

/// The characters of notified properties.
pub open spec fn params_v(ps: Seq<(String, String)>) -> Seq<(Seq<char>, Seq<char>)> {
    ps.map_values(|p: (String, String)| (p.0@, p.1@))
}

/// Merge a `props` notification into the local [`State`], property by property in
/// the order given (see [`props_v`]).
pub fn apply_props(state: &mut State, params: &[(String, String)])
    ensures
        same_but_name(*final(state), props_v(*old(state), params_v(params@)).0),
        name_v(final(state).name) == props_v(*old(state), params_v(params@)).1,
{
    let ghost start = *state;
    let ghost ps = params_v(params@);
    let mut i: usize = 0;
    while i < params.len()
        invariant
            i <= params@.len(),
            ps == params_v(params@),
            same_but_name(*state, props_v(start, ps.take(i as int)).0),
            name_v(state.name) == props_v(start, ps.take(i as int)).1,
        decreases params@.len() - i,
    {
        let k = chars_of(params[i].0.as_str());
        apply_prop(state, &k, &params[i].1);
        i = i + 1;
        assert(ps.take(i as int).drop_last() == ps.take(i - 1));
        assert(ps.take(i as int).last() == (params@[i - 1].0@, params@[i - 1].1@));
    }
    assert(ps.take(params@.len() as int) == ps);
}

// ----- custom flow editor -------------------------------------------------------------

/// Which editable field of a custom flow-editor row changed.
#[derive(Debug, Clone, Copy, PartialEq, Eq, Structural)]
pub enum FlowField {
    /// Duration in ms.
    Duration,
    /// Mode: color / temperature / sleep.
    Mode,
    /// RGB or CT value.
    Value,
    /// Brightness.
    Bright,
}

/// One editable row of the custom flow editor (raw strings until Start).
#[derive(Debug, Clone)]
pub struct FlowRow {
    /// Duration in milliseconds (raw string input).
    pub duration: String,
    /// Flow mode: 1 = color, 2 = CT, 7 = sleep.
    pub mode: u8,
    /// RGB or CT value (raw string input).
    pub value: String,
    /// Brightness percentage (raw string input).
    pub bright: String,
}

impl Default for FlowRow {
    fn default() -> (r: Self)
        ensures
            r.duration@ == "1000"@,
            r.mode == 1,
            r.value@ == "16711680"@,
            r.bright@ == "100"@,
    {
        FlowRow {
            duration: "1000".to_string(),
            mode: 1,
            value: "16711680".to_string(),
            bright: "100".to_string(),
        }
    }
}

impl FlowRow {
    /// Update one field from a raw input string; a mode that is not a number keeps
    /// the old mode.
    pub fn set(&mut self, field: FlowField, v: String)
        ensures
            match field {
                FlowField::Duration => final(self).duration@ == v@ && final(self).mode == old(
                    self,
                ).mode && final(self).value@ == old(self).value@ && final(self).bright@ == old(
                    self,
                ).bright@,
                FlowField::Mode => final(self).mode == (match parse_uint(v@, 0xff) {
                    Some(m) => m as u8,
                    None => old(self).mode,
                }) && final(self).duration@ == old(self).duration@ && final(self).value@ == old(
                    self,
                ).value@ && final(self).bright@ == old(self).bright@,
                FlowField::Value => final(self).value@ == v@ && final(self).mode == old(self).mode
                    && final(self).duration@ == old(self).duration@ && final(self).bright@ == old(
                    self,
                ).bright@,
                FlowField::Bright => final(self).bright@ == v@ && final(self).mode == old(
                    self,
                ).mode && final(self).duration@ == old(self).duration@ && final(self).value@
                    == old(self).value@,
            },
    {
        match field {
            FlowField::Duration => self.duration = v,
            FlowField::Mode => {
                if let Some(m) = parse_u8(&chars_of(v.as_str())) {
                    self.mode = m;
                }
            },
            FlowField::Value => self.value = v,
            FlowField::Bright => self.bright = v,
        }
    }
}

/// The flow step an editor row describes: unparseable fields fall back to `0`, or
/// to `-1` ("keep brightness") for the brightness.
pub open spec fn row_tuple(r: FlowRow) -> FlowTuple {
    FlowTuple {
        duration: match parse_uint(r.duration@, 0xffff_ffff) {
            Some(d) => d as u32,
            None => 0,
        },
        mode: r.mode,
        value: match parse_uint(r.value@, 0xffff_ffff) {
            Some(v) => v as u32,
            None => 0,
        },
        brightness: match parse_sint(r.bright@, 127) {
            Some(b) => b as i8,
            None => -1i8,
        },
    }
}

/// Convert custom-flow editor rows to a [`FlowExpr`] (see [`row_tuple`]); no rows
/// is an error. The device-side rules (each step >= 50 ms) are enforced later by
/// [`FlowExpr::render`].
pub fn rows_to_expr(rows: &[FlowRow]) -> (r: Result<FlowExpr, String>)
    ensures
        match r {
            Ok(e) => rows@.len() > 0 && e.0@ == rows@.map_values(|x: FlowRow| row_tuple(x)),
            Err(m) => rows@.len() == 0 && m@ == "flow has no steps"@,
        },
{
    if rows.len() == 0 {
        return Err("flow has no steps".to_string());
    }
    let mut out: Vec<FlowTuple> = Vec::new();
    let mut i: usize = 0;
    while i < rows.len()
        invariant
            i <= rows@.len(),
            out@ == rows@.take(i as int).map_values(|x: FlowRow| row_tuple(x)),
        decreases rows@.len() - i,
    {
        let r = &rows[i];
        let duration = match parse_u32(&chars_of(r.duration.as_str())) {
            Some(d) => d,
            None => 0,
        };
        let value = match parse_u32(&chars_of(r.value.as_str())) {
            Some(v) => v,
            None => 0,
        };
        let brightness = match parse_i8(&chars_of(r.bright.as_str())) {
            Some(b) => b,
            None => -1,
        };
        out.push(FlowTuple { duration, mode: r.mode, value, brightness });
        i = i + 1;
        assert(rows@.take(i as int).drop_last() == rows@.take((i - 1) as int));
        assert(out@ =~= rows@.take(i as int).map_values(|x: FlowRow| row_tuple(x)));
    }
    assert(rows@.take(rows@.len() as int) == rows@);
    Ok(FlowExpr(out))
}

/// The repeat count typed into the flow editor: a number, else 0 (infinite).
pub fn flow_count(input: &str) -> (n: u32)
    ensures
        n == (match parse_uint(input@, 0xffff_ffff) {
            Some(v) => v as u32,
            None => 0,
        }),
{
    match parse_u32(&chars_of(input)) {
        Some(v) => v,
        None => 0,
    }
}

// ----- sleep timers ---------------------------------------------------------------------

/// Per-device timer state: remaining whole seconds while a sleep timer runs.
#[derive(Debug, Clone, Copy, PartialEq, Eq, Structural)]
pub struct TimerState {
    /// Remaining seconds, or `None` if no timer is active.
    pub remaining: Option<u32>,
}

/// The minutes typed into the timer field, when a positive number: the sleep timer
/// then counts down from that many minutes (in seconds, saturating).
pub fn timer_minutes(input: &str) -> (r: Option<(u32, u32)>)
    ensures
        match parse_uint(input@, 0xffff_ffff) {
            Some(m) if m > 0 => r == Some(
                (m as u32, if m * 60 > u32::MAX { u32::MAX } else { (m * 60) as u32 }),
            ),
            _ => r is None,
        },
{
    match parse_u32(&chars_of(input)) {
        Some(m) if m > 0 => {
            let secs = if m > u32::MAX / 60 {
                u32::MAX
            } else {
                m * 60
            };
            Some((m, secs))
        },
        _ => None,
    }
}

/// A countdown one second later: `None` once it reaches zero.
pub open spec fn tick_v(t: TimerState) -> TimerState {
    match t.remaining {
        Some(r) => TimerState { remaining: if r <= 1 { None } else { Some((r - 1) as u32) } },
        None => t,
    }
}

/// The timers one second later: every countdown advanced, finished ones dropped.
pub open spec fn ticked_v(ts: Seq<(String, TimerState)>) -> Seq<(Seq<char>, TimerState)>
    decreases ts.len(),
{
    if ts.len() == 0 {
        Seq::empty()
    } else {
        let rest = ticked_v(ts.drop_last());
        let (id, t) = ts.last();
        let t2 = tick_v(t);
        if t2.remaining is Some {
            rest.push((id@, t2))
        } else {
            rest
        }
    }
}

/// The characters of timer entries.
pub open spec fn timers_v(ts: Seq<(String, TimerState)>) -> Seq<(Seq<char>, TimerState)> {
    ts.map_values(|e: (String, TimerState)| (e.0@, e.1))
}

/// Advance all active countdowns by one second, dropping any that hit zero.
pub fn tick_timers(timers: &mut Vec<(String, TimerState)>)
    ensures
        timers_v(final(timers)@) == ticked_v(old(timers)@),
{
    let ghost start = timers@;
    let mut old_list: Vec<(String, TimerState)> = Vec::new();
    std::mem::swap(&mut old_list, timers);
    let mut i: usize = 0;
    while i < old_list.len()
        invariant
            i <= old_list@.len(),
            old_list@ == start,
            timers_v(timers@) == ticked_v(start.take(i as int)),
        decreases old_list@.len() - i,
    {
        let t = old_list[i].1;
        let t2 = match t.remaining {
            Some(r) => TimerState {
                remaining: if r <= 1 {
                    None
                } else {
                    Some(r - 1)
                },
            },
            None => t,
        };
        let ghost before = timers@;
        if t2.remaining.is_some() {
            timers.push((old_list[i].0.clone(), t2));
            assert(timers_v(timers@) =~= timers_v(before).push((old_list@[i as int].0@, t2)));
        }
        i = i + 1;
        assert(start.take(i as int).drop_last() == start.take((i - 1) as int));
    }
    assert(start.take(old_list@.len() as int) == start);
}

// ----- which controls show ---------------------------------------------------------------

/// Whether a control gated by `method` shows: the device advertises it, or the user
/// forced every control on.
pub open spec fn enabled_v(force_all: bool, d: Device, method: Seq<char>) -> bool {
    force_all || has_method(d, method)
}

/// Whether a control gated by `method` shows (see [`enabled_v`]).
pub fn enabled(force_all: bool, d: &Device, method: &str) -> (b: bool)
    ensures
        b == enabled_v(force_all, *d, method@),
{
    force_all || d.supports(method)
}

/// The `(rgb, ct)` color modes a light supports.
pub fn color_modes(force_all: bool, d: &Device, bg: bool) -> (m: (bool, bool))
    ensures
        m == (
            enabled_v(force_all, *d, if bg { "bg_set_rgb"@ } else { "set_rgb"@ }),
            enabled_v(force_all, *d, if bg { "bg_set_ct_abx"@ } else { "set_ct_abx"@ }),
        ),
{
    (
        enabled(force_all, d, if bg { "bg_set_rgb" } else { "set_rgb" }),
        enabled(force_all, d, if bg { "bg_set_ct_abx" } else { "set_ct_abx" }),
    )
}

/// Whether a light supporting `(rgb, ct)` can run a preset that needs `(rgb, ct)`.
pub fn fits(has: (bool, bool), needs: (bool, bool)) -> (b: bool)
    ensures
        b == ((has.0 || !needs.0) && (has.1 || !needs.1)),
{
    (has.0 || !needs.0) && (has.1 || !needs.1)
}

/// Which control tab of the detail pane is shown for a device.
#[derive(Debug, Clone, Copy, PartialEq, Eq, Structural)]
pub enum DetailTab {
    /// Color/temperature controls.
    Light,
    /// Preset scenes.
    Scenes,
    /// Color-flow presets + custom editor.
    Flow,
    /// Sleep timer.
    Timer,
    /// Music "instant control" mode.
    Music,
}

/// Whether a tab is usable for a light: each feature maps to the method the bulb must
/// advertise (its `bg_*` twin for the background light); Timer and Music are main-light
/// only.
pub open spec fn tab_supported_v(force_all: bool, d: Device, tab: DetailTab, bg: bool) -> bool {
    let has = |main: Seq<char>, bgm: Seq<char>| enabled_v(force_all, d, if bg { bgm } else { main });
    match tab {
        DetailTab::Light => has("set_rgb"@, "bg_set_rgb"@) || has("set_ct_abx"@, "bg_set_ct_abx"@),
        DetailTab::Scenes => has("set_scene"@, "bg_set_scene"@),
        DetailTab::Flow => has("start_cf"@, "bg_start_cf"@),
        DetailTab::Timer => !bg && enabled_v(force_all, d, "cron_add"@),
        DetailTab::Music => !bg && enabled_v(force_all, d, "set_music"@),
    }
}

/// Whether a tab is usable for a light (see [`tab_supported_v`]).
pub fn tab_supported(force_all: bool, d: &Device, tab: DetailTab, bg: bool) -> (b: bool)
    ensures
        b == tab_supported_v(force_all, *d, tab, bg),
{
    match tab {
        DetailTab::Light => enabled(force_all, d, if bg { "bg_set_rgb" } else { "set_rgb" })
            || enabled(force_all, d, if bg { "bg_set_ct_abx" } else { "set_ct_abx" }),
        DetailTab::Scenes => enabled(force_all, d, if bg { "bg_set_scene" } else { "set_scene" }),
        DetailTab::Flow => enabled(force_all, d, if bg { "bg_start_cf" } else { "start_cf" }),
        DetailTab::Timer => !bg && enabled(force_all, d, "cron_add"),
        DetailTab::Music => !bg && enabled(force_all, d, "set_music"),
    }
}

/// Whether the device has a background light worth showing: it advertises any
/// background-light method, or force-all is on.
pub open spec fn bg_supported_v(force_all: bool, d: Device) -> bool {
    force_all || has_method(d, "bg_set_power"@) || has_method(d, "bg_toggle"@) || has_method(
        d,
        "bg_set_rgb"@,
    ) || has_method(d, "bg_set_bright"@) || has_method(d, "bg_set_ct_abx"@) || has_method(
        d,
        "bg_set_scene"@,
    ) || has_method(d, "bg_start_cf"@)
}

/// Whether the device has a background light worth showing (see [`bg_supported_v`]).
pub fn bg_supported(force_all: bool, d: &Device) -> (b: bool)
    ensures
        b == bg_supported_v(force_all, *d),
{
    force_all || d.supports("bg_set_power") || d.supports("bg_toggle") || d.supports("bg_set_rgb")
        || d.supports("bg_set_bright") || d.supports("bg_set_ct_abx") || d.supports("bg_set_scene")
        || d.supports("bg_start_cf")
}

/// Whether the device section offers ambient light: either light has a color control.
pub fn ambient_supported(force_all: bool, d: &Device) -> (b: bool)
    ensures
        b == (enabled_v(force_all, *d, "set_rgb"@) || enabled_v(force_all, *d, "bg_set_rgb"@)
            || enabled_v(force_all, *d, "set_ct_abx"@) || enabled_v(force_all, *d, "bg_set_ct_abx"@)),
{
    enabled(force_all, d, "set_rgb") || enabled(force_all, d, "bg_set_rgb") || enabled(
        force_all,
        d,
        "set_ct_abx",
    ) || enabled(force_all, d, "bg_set_ct_abx")
}

/// Whether the Light tab shows the temperature segment: when only temperature is
/// supported; never when only color is; otherwise the chosen segment `seg`, or by
/// default the main light's reported mode (color mode 2 is temperature).
pub open spec fn is_temp_v(force_all: bool, d: Device, bg: bool, seg: Option<bool>) -> bool {
    let has_color = enabled_v(force_all, d, if bg { "bg_set_rgb"@ } else { "set_rgb"@ });
    let has_temp = enabled_v(force_all, d, if bg { "bg_set_ct_abx"@ } else { "set_ct_abx"@ });
    if !has_color {
        true
    } else if !has_temp {
        false
    } else {
        match seg {
            Some(t) => t,
            None => !bg && d.state.color_mode == Some(2u8),
        }
    }
}

/// Whether the Light tab shows the temperature segment (see [`is_temp_v`]).
pub fn is_temp(force_all: bool, d: &Device, bg: bool, seg: Option<bool>) -> (b: bool)
    ensures
        b == is_temp_v(force_all, *d, bg, seg),
{
    let has_color = enabled(force_all, d, if bg { "bg_set_rgb" } else { "set_rgb" });
    let has_temp = enabled(force_all, d, if bg { "bg_set_ct_abx" } else { "set_ct_abx" });
    if !has_color {
        true
    } else if !has_temp {
        false
    } else {
        match seg {
            Some(t) => t,
            None => !bg && d.state.color_mode == Some(2u8),
        }
    }
}

/// The text after the last `:` of `s` (all of `s` when there is none).
pub open spec fn after_last_colon(s: Seq<char>) -> Seq<char>
    decreases s.len(),
{
    if s.len() == 0 {
        s
    } else if s.last() == ':' {
        Seq::empty()
    } else {
        after_last_colon(s.drop_last()).push(s.last())
    }
}

/// The last (at most) six characters of `s`.
pub open spec fn last6(s: Seq<char>) -> Seq<char> {
    if s.len() > 6 {
        s.skip(s.len() - 6)
    } else {
        s
    }
}

/// A short label for a device: its name when set and non-empty, else its model and
/// the last six characters of its id (after any `:`).
pub open spec fn label_for_v(d: Device) -> Seq<char> {
    match d.state.name {
        Some(n) if n@.len() > 0 => n@,
        _ => crate::device::model_name(d.model@) + seq![' '] + last6(after_last_colon(d.id@)),
    }
}

/// A short label for a device (see [`label_for_v`]).
pub fn label_for(d: &Device) -> (s: String)
    ensures
        s@ == label_for_v(*d),
{
    if let Some(name) = &d.state.name {
        if chars_of(name.as_str()).len() > 0 {
            return name.clone();
        }
    }
    let id = chars_of(d.id.as_str());
    let mut start: usize = id.len();
    assert(id@.take(start as int) == id@);
    assert(id@.skip(start as int) =~= Seq::<char>::empty());
    while start > 0 && id[start - 1] != ':'
        invariant
            start <= id@.len(),
            after_last_colon(id@) == after_last_colon(id@.take(start as int)) + id@.skip(
                start as int,
            ),
        decreases start,
    {
        let ghost t = id@.take(start as int);
        assert(t.drop_last() == id@.take(start - 1));
        assert(id@.skip(start - 1) == seq![t.last()] + id@.skip(start as int));
        start = start - 1;
    }
    proof {
        let t = id@.take(start as int);
        if start > 0 {
            assert(t.last() == ':');
        }
        assert(after_last_colon(t) == Seq::<char>::empty());
    }
    let from = if id.len() - start > 6 {
        id.len() - 6
    } else {
        start
    };
    let mut out = chars_of(d.model.name().as_str());
    out.push(' ');
    extend_chars(&mut out, &crate::text::sub_chars(&id, from, id.len()));
    assert(id@.skip(start as int).skip(id@.len() - start - 6 as int) =~= id@.subrange(from as int, id@.len() as int) || id.len() - start <= 6);
    assert(out@ =~= label_for_v(*d));
    string_of(&out)
}

/// The scan timeout in seconds: the configured timeout, at least one second.
pub fn scan_secs(timeout_secs: u32) -> (s: u64)
    ensures
        s == (if timeout_secs < 1 { 1 } else { timeout_secs }),
{
    if timeout_secs < 1 {
        1
    } else {
        timeout_secs as u64
    }
}


/// The value of a notified number property `k`: parsed when present and readable,
/// else `old`.
pub open spec fn num_prop<T>(ps: Seq<(Seq<char>, Seq<char>)>, k: Seq<char>, parse: spec_fn(Seq<char>) -> Option<T>, old: Option<T>) -> Option<T> {
    match last_value(ps, k) {
        Some(v) => or_keep(parse(v), old),
        None => old,
    }
}

/// The value of a notified power flag: `Some(v == "on")` for the first of `k1`, `k2`
/// present, else `old`.
pub open spec fn flag_prop(ps: Seq<(Seq<char>, Seq<char>)>, k1: Seq<char>, k2: Seq<char>, old: Option<bool>) -> Option<bool> {
    match last_value(ps, k1) {
        Some(v) => Some(v == "on"@),
        None => match last_value(ps, k2) {
            Some(v) => Some(v == "on"@),
            None => old,
        },
    }
}

/// Whether the notification's property names are distinct and it does not carry
/// both `power` and `main_power`.
pub open spec fn props_map_like(ps: Seq<(Seq<char>, Seq<char>)>) -> bool {
    &&& forall|i: int, j: int| 0 <= i < j < ps.len() ==> (#[trigger] ps[i]).0 != (#[trigger] ps[j]).0
    &&& !(last_value(ps, "power"@) is Some && last_value(ps, "main_power"@) is Some)
}

/// The per-property effect of a notification: each known property sets its field
/// (numbers only when they read as the field's type, else the old value stays),
/// `power`/`main_power` and `bg_power` set their flags, `name` sets the name, and
/// every field whose property is absent keeps its old value.
pub open spec fn props_per_key(s: State, ps: Seq<(Seq<char>, Seq<char>)>, t: State, name: Option<Seq<char>>) -> bool {
    &&& t.power == flag_prop(ps, "power"@, "main_power"@, s.power)
    &&& t.bright == num_prop(ps, "bright"@, |v: Seq<char>| u8_v(parse_uint(v, 0xff)), s.bright)
    &&& t.rgb == num_prop(ps, "rgb"@, |v: Seq<char>| u32_v(parse_uint(v, 0xffff_ffff)), s.rgb)
    &&& t.ct == num_prop(ps, "ct"@, |v: Seq<char>| u16_v(parse_uint(v, 0xffff)), s.ct)
    &&& t.hue == num_prop(ps, "hue"@, |v: Seq<char>| u16_v(parse_uint(v, 0xffff)), s.hue)
    &&& t.sat == num_prop(ps, "sat"@, |v: Seq<char>| u8_v(parse_uint(v, 0xff)), s.sat)
    &&& t.color_mode == num_prop(ps, "color_mode"@, |v: Seq<char>| u8_v(parse_uint(v, 0xff)), s.color_mode)
    &&& t.bg_power == flag_prop(ps, "bg_power"@, "bg_power"@, s.bg_power)
    &&& t.bg_bright == num_prop(ps, "bg_bright"@, |v: Seq<char>| u8_v(parse_uint(v, 0xff)), s.bg_bright)
    &&& t.bg_rgb == num_prop(ps, "bg_rgb"@, |v: Seq<char>| u32_v(parse_uint(v, 0xffff_ffff)), s.bg_rgb)
    &&& t.bg_ct == num_prop(ps, "bg_ct"@, |v: Seq<char>| u16_v(parse_uint(v, 0xffff)), s.bg_ct)
    &&& t.bg_hue == num_prop(ps, "bg_hue"@, |v: Seq<char>| u16_v(parse_uint(v, 0xffff)), s.bg_hue)
    &&& t.bg_sat == num_prop(ps, "bg_sat"@, |v: Seq<char>| u8_v(parse_uint(v, 0xff)), s.bg_sat)
    &&& t.bg_color_mode == num_prop(ps, "bg_lmode"@, |v: Seq<char>| u8_v(parse_uint(v, 0xff)), s.bg_color_mode)
    &&& name == (match last_value(ps, "name"@) {
        Some(v) => Some(v),
        None => name_v(s.name),
    })
}

proof fn lemma_prop_keys()
    ensures
        "power"@.len() == 5 && "main_power"@.len() == 10 && "bright"@.len() == 6 && "rgb"@.len() == 3,
        "ct"@.len() == 2 && "hue"@.len() == 3 && "sat"@.len() == 3 && "color_mode"@.len() == 10,
        "name"@.len() == 4 && "bg_power"@.len() == 8 && "bg_bright"@.len() == 9 && "bg_rgb"@.len() == 6,
        "bg_ct"@.len() == 5 && "bg_hue"@.len() == 6 && "bg_sat"@.len() == 6 && "bg_lmode"@.len() == 8,
        "rgb"@[0] == 'r' && "hue"@[0] == 'h' && "sat"@[0] == 's' && "power"@[0] == 'p',
        "bg_ct"@[0] == 'b' && "bright"@[1] == 'r' && "bg_rgb"@[1] == 'g' && "bg_hue"@[1] == 'g',
        "bg_sat"@[1] == 'g' && "bg_rgb"@[3] == 'r' && "bg_hue"@[3] == 'h' && "bg_sat"@[3] == 's',
        "bg_power"@[3] == 'p' && "bg_lmode"@[3] == 'l' && "color_mode"@[0] == 'c' && "main_power"@[0]
            == 'm',
{
    reveal_strlit("power");
    reveal_strlit("main_power");
    reveal_strlit("bright");
    reveal_strlit("rgb");
    reveal_strlit("ct");
    reveal_strlit("hue");
    reveal_strlit("sat");
    reveal_strlit("color_mode");
    reveal_strlit("name");
    reveal_strlit("bg_power");
    reveal_strlit("bg_bright");
    reveal_strlit("bg_rgb");
    reveal_strlit("bg_ct");
    reveal_strlit("bg_hue");
    reveal_strlit("bg_sat");
    reveal_strlit("bg_lmode");
}

/// What one notified property does to each field.
proof fn lemma_prop_fields(t: State, k: Seq<char>, v: Seq<char>)
    ensures
        prop_v(t, k, v).power == (if k == "power"@ || k == "main_power"@ {
            Some(v == "on"@)
        } else {
            t.power
        }),
        prop_v(t, k, v).bright == (if k == "bright"@ {
            or_keep(u8_v(parse_uint(v, 0xff)), t.bright)
        } else {
            t.bright
        }),
        prop_v(t, k, v).rgb == (if k == "rgb"@ {
            or_keep(u32_v(parse_uint(v, 0xffff_ffff)), t.rgb)
        } else {
            t.rgb
        }),
        prop_v(t, k, v).ct == (if k == "ct"@ {
            or_keep(u16_v(parse_uint(v, 0xffff)), t.ct)
        } else {
            t.ct
        }),
        prop_v(t, k, v).hue == (if k == "hue"@ {
            or_keep(u16_v(parse_uint(v, 0xffff)), t.hue)
        } else {
            t.hue
        }),
        prop_v(t, k, v).sat == (if k == "sat"@ {
            or_keep(u8_v(parse_uint(v, 0xff)), t.sat)
        } else {
            t.sat
        }),
        prop_v(t, k, v).color_mode == (if k == "color_mode"@ {
            or_keep(u8_v(parse_uint(v, 0xff)), t.color_mode)
        } else {
            t.color_mode
        }),
        prop_v(t, k, v).bg_power == (if k == "bg_power"@ {
            Some(v == "on"@)
        } else {
            t.bg_power
        }),
        prop_v(t, k, v).bg_bright == (if k == "bg_bright"@ {
            or_keep(u8_v(parse_uint(v, 0xff)), t.bg_bright)
        } else {
            t.bg_bright
        }),
        prop_v(t, k, v).bg_rgb == (if k == "bg_rgb"@ {
            or_keep(u32_v(parse_uint(v, 0xffff_ffff)), t.bg_rgb)
        } else {
            t.bg_rgb
        }),
        prop_v(t, k, v).bg_ct == (if k == "bg_ct"@ {
            or_keep(u16_v(parse_uint(v, 0xffff)), t.bg_ct)
        } else {
            t.bg_ct
        }),
        prop_v(t, k, v).bg_hue == (if k == "bg_hue"@ {
            or_keep(u16_v(parse_uint(v, 0xffff)), t.bg_hue)
        } else {
            t.bg_hue
        }),
        prop_v(t, k, v).bg_sat == (if k == "bg_sat"@ {
            or_keep(u8_v(parse_uint(v, 0xff)), t.bg_sat)
        } else {
            t.bg_sat
        }),
        prop_v(t, k, v).bg_color_mode == (if k == "bg_lmode"@ {
            or_keep(u8_v(parse_uint(v, 0xff)), t.bg_color_mode)
        } else {
            t.bg_color_mode
        }),
{
    lemma_prop_keys();
}

/// A `props` notification, taken as a map (distinct names, not both `power` and
/// `main_power`), acts property by property (see [`props_per_key`]).
pub proof fn apply_props_per_key(s: State, ps: Seq<(Seq<char>, Seq<char>)>)
    requires
        props_map_like(ps),
    ensures
        props_per_key(s, ps, props_v(s, ps).0, props_v(s, ps).1),
    decreases ps.len(),
{
    if ps.len() > 0 {
        lemma_prop_keys();
        let front = ps.drop_last();
        let (k, v) = ps.last();
        assert forall|i: int, j: int| 0 <= i < j < front.len() implies (#[trigger] front[i]).0 != (#[trigger] front[j]).0 by {
            assert(front[i] == ps[i] && front[j] == ps[j]);
        }
        assert forall|i: int| 0 <= i < front.len() implies (#[trigger] front[i]).0 != k by {
            assert(front[i] == ps[i]);
            assert(ps[ps.len() - 1] == ps.last());
        }
        lemma_absent_last(front, k);
        lemma_lv_step(ps, "power"@);
        lemma_lv_step(ps, "main_power"@);
        lemma_lv_step(ps, "bright"@);
        lemma_lv_step(ps, "rgb"@);
        lemma_lv_step(ps, "ct"@);
        lemma_lv_step(ps, "hue"@);
        lemma_lv_step(ps, "sat"@);
        lemma_lv_step(ps, "color_mode"@);
        lemma_lv_step(ps, "name"@);
        lemma_lv_step(ps, "bg_power"@);
        lemma_lv_step(ps, "bg_bright"@);
        lemma_lv_step(ps, "bg_rgb"@);
        lemma_lv_step(ps, "bg_ct"@);
        lemma_lv_step(ps, "bg_hue"@);
        lemma_lv_step(ps, "bg_sat"@);
        lemma_lv_step(ps, "bg_lmode"@);
        assert(props_map_like(front));
        apply_props_per_key(s, front);
        let t0 = props_v(s, front).0;
        assert(props_v(s, ps).0 == prop_v(t0, k, v));
        lemma_prop_fields(t0, k, v);
    }
}

/// A name absent from `ps` has no value there.
proof fn lemma_absent_last(ps: Seq<(Seq<char>, Seq<char>)>, k: Seq<char>)
    requires
        forall|i: int| 0 <= i < ps.len() ==> (#[trigger] ps[i]).0 != k,
    ensures
        last_value(ps, k) is None,
    decreases ps.len(),
{
    if ps.len() > 0 {
        assert(ps[ps.len() - 1] == ps.last());
        assert forall|i: int| 0 <= i < ps.drop_last().len() implies (#[trigger] ps.drop_last()[i]).0 != k by {
            assert(ps.drop_last()[i] == ps[i]);
        }
        lemma_absent_last(ps.drop_last(), k);
    }
}

/// The value of `key` in `ps` is the last entry's value when it has that name, else
/// its value among the entries before.
proof fn lemma_lv_step(ps: Seq<(Seq<char>, Seq<char>)>, key: Seq<char>)
    requires
        ps.len() > 0,
    ensures
        last_value(ps, key) == if ps.last().0 == key {
            Some(ps.last().1)
        } else {
            last_value(ps.drop_last(), key)
        },
{
}

} // verus!
