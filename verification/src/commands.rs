//! Typed control commands: the parameter shapes and the local
//! validation every command applies before it is sent.
//!
//! Each [`Request`] constructor stands for one control method; `bg_*` variants
//! mirror their main-light counterparts for the background light.

use vstd::prelude::*;

use crate::error::{invalid_param, Error, Result};
use crate::json::{as_str_v, as_u64_v, int_v, items_v, json_v, lemma_items_v, str_v, uint_v, Json, JsonV};
use crate::text::{
    chars_of, count_char, dec, dec_int, extend_chars, lemma_count_add, lemma_count_single, lemma_dec_count, lemma_split_count,
    push_dec, push_dec_int, split_on, string_of,
};

verus! {

/// `a` followed by the decimal digits of `n` and then `b`.
pub fn message_with_number(a: &str, n: u64, b: &str) -> (s: String)
    ensures
        s@ == a@ + dec(n as nat) + b@,
{
    let mut v = chars_of(a);
    push_dec(&mut v, n);
    let bv = chars_of(b);
    extend_chars(&mut v, &bv);
    string_of(&v)
}

/// Transition effect for a state change.
#[derive(Debug, Clone, Copy, PartialEq, Eq, Structural)]
pub enum Effect {
    /// Jump directly to the target; duration is ignored.
    Sudden,
    /// Gradual change over the given duration in ms (minimum 30).
    Smooth(u32),
}

impl Effect {
    /// The effect's wire name.
    pub open spec fn name_v(self) -> Seq<char> {
        match self {
            Effect::Sudden => "sudden"@,
            Effect::Smooth(_) => "smooth"@,
        }
    }

    /// The effect's wire duration.
    pub open spec fn duration_v(self) -> u32 {
        match self {
            Effect::Sudden => 0,
            Effect::Smooth(d) => d,
        }
    }

    /// Whether the effect passes local validation (smooth needs at least 30 ms).
    pub open spec fn is_valid(self) -> bool {
        match self {
            Effect::Sudden => true,
            Effect::Smooth(d) => d >= 30,
        }
    }

    /// The message a rejected effect carries.
    pub open spec fn error_v(self) -> Seq<char> {
        "smooth duration "@ + dec(self.duration_v() as nat) + "ms < 30ms"@
    }

    /// Render to `(effect, duration)`, validating the smooth minimum.
    pub fn params(self) -> (r: Result<(&'static str, u32)>)
        ensures
            match r {
                Ok((n, d)) => self.is_valid() && n@ == self.name_v() && d == self.duration_v(),
                Err(e) => !self.is_valid() && invalid_param(e, self.error_v()),
            },
    {
        match self {
            Effect::Sudden => Ok(("sudden", 0)),
            Effect::Smooth(d) => {
                if d >= 30 {
                    Ok(("smooth", d))
                } else {
                    Err(Error::InvalidParam(message_with_number("smooth duration ", d as u64, "ms < 30ms")))
                }
            },
        }
    }
}

/// Optional power-on mode (`set_power` param 4).
#[derive(Debug, Clone, Copy, PartialEq, Eq, Structural)]
pub enum PowerMode {
    /// Normal turn on (default).
    Normal,
    /// Turn on and switch to color-temperature mode.
    Ct,
    /// Turn on and switch to RGB mode.
    Rgb,
    /// Turn on and switch to HSV mode.
    Hsv,
    /// Turn on and switch to color-flow mode.
    ColorFlow,
    /// Turn on and switch to night-light mode (ceiling light only).
    NightLight,
}

impl PowerMode {
    /// The mode's wire code.
    pub open spec fn code_v(self) -> u8 {
        match self {
            PowerMode::Normal => 0,
            PowerMode::Ct => 1,
            PowerMode::Rgb => 2,
            PowerMode::Hsv => 3,
            PowerMode::ColorFlow => 4,
            PowerMode::NightLight => 5,
        }
    }

    /// The mode's wire code (`0` normal .. `5` night light).
    pub fn code(self) -> (c: u8)
        ensures
            c == self.code_v(),
    {
        match self {
            PowerMode::Normal => 0,
            PowerMode::Ct => 1,
            PowerMode::Rgb => 2,
            PowerMode::Hsv => 3,
            PowerMode::ColorFlow => 4,
            PowerMode::NightLight => 5,
        }
    }
}

/// Action taken when a color flow stops (`start_cf` param 2).
#[derive(Debug, Clone, Copy, PartialEq, Eq, Structural)]
pub enum FlowAction {
    /// Recover to the state before the flow started.
    Recover,
    /// Stay at the state when the flow stopped.
    Stay,
    /// Turn the light off after the flow stopped.
    Off,
}

impl FlowAction {
    /// The action's wire code.
    pub open spec fn code_v(self) -> u8 {
        match self {
            FlowAction::Recover => 0,
            FlowAction::Stay => 1,
            FlowAction::Off => 2,
        }
    }

    /// The action's wire code (`0` recover, `1` stay, `2` off).
    pub fn code(self) -> (c: u8)
        ensures
            c == self.code_v(),
    {
        match self {
            FlowAction::Recover => 0,
            FlowAction::Stay => 1,
            FlowAction::Off => 2,
        }
    }
}

/// Direction for `set_adjust`.
#[derive(Debug, Clone, Copy, PartialEq, Eq, Structural)]
pub enum AdjustAction {
    /// Increase the property.
    Increase,
    /// Decrease the property.
    Decrease,
    /// Increase, wrapping to minimum after maximum.
    Circle,
}

impl AdjustAction {
    /// The action's wire name.
    pub open spec fn name_v(self) -> Seq<char> {
        match self {
            AdjustAction::Increase => "increase"@,
            AdjustAction::Decrease => "decrease"@,
            AdjustAction::Circle => "circle"@,
        }
    }

    /// The action's wire name.
    pub fn as_str(self) -> (s: &'static str)
        ensures
            s@ == self.name_v(),
    {
        match self {
            AdjustAction::Increase => "increase",
            AdjustAction::Decrease => "decrease",
            AdjustAction::Circle => "circle",
        }
    }
}

/// Property targeted by `set_adjust`.
#[derive(Debug, Clone, Copy, PartialEq, Eq, Structural)]
pub enum AdjustProp {
    /// Brightness.
    Bright,
    /// Color temperature.
    Ct,
    /// Color (only valid with [`AdjustAction::Circle`]).
    Color,
}

impl AdjustProp {
    /// The property's wire name.
    pub open spec fn name_v(self) -> Seq<char> {
        match self {
            AdjustProp::Bright => "bright"@,
            AdjustProp::Ct => "ct"@,
            AdjustProp::Color => "color"@,
        }
    }

    /// The property's wire name.
    pub fn as_str(self) -> (s: &'static str)
        ensures
            s@ == self.name_v(),
    {
        match self {
            AdjustProp::Bright => "bright",
            AdjustProp::Ct => "ct",
            AdjustProp::Color => "color",
        }
    }
}

/// Cron job type (`cron_*`); currently only power-off.
#[derive(Debug, Clone, Copy, PartialEq, Eq, Structural)]
pub enum CronType {
    /// Power off after the timer.
    PowerOff,
}

impl CronType {
    /// The job type's wire code.
    pub open spec fn code_v(self) -> i64 {
        0
    }

    /// The job type's wire code (`0` power off).
    pub fn code(self) -> (c: i64)
        ensures
            c == self.code_v(),
    {
        0
    }
}

/// One step of a color flow (a `start_cf` flow tuple).
#[derive(Debug, Clone, Copy, PartialEq, Eq, Structural)]
pub struct FlowTuple {
    /// Gradual change / sleep time in ms (minimum 50).
    pub duration: u32,
    /// `1` color, `2` color temperature, `7` sleep.
    pub mode: u8,
    /// RGB value (mode 1) or CT value (mode 2); ignored for sleep.
    pub value: u32,
    /// `-1` keeps current brightness, or `1..=100`; ignored for sleep.
    pub brightness: i8,
}

/// A color-flow expression: an ordered series of [`FlowTuple`]s.
#[derive(Debug, Clone)]
pub struct FlowExpr(pub Vec<FlowTuple>);

/// One comma.
pub open spec fn comma() -> Seq<char> {
    seq![',']
}

/// The wire text of one flow tuple: `duration,mode,value,brightness`.
pub open spec fn tuple_text(t: FlowTuple) -> Seq<char> {
    dec(t.duration as nat) + comma() + dec(t.mode as nat) + comma() + dec(t.value as nat) + comma()
        + dec_int(t.brightness as int)
}

/// The wire text of a flow: its tuples' texts joined by commas.
pub open spec fn flow_text(ts: Seq<FlowTuple>) -> Seq<char>
    decreases ts.len(),
{
    if ts.len() == 0 {
        Seq::empty()
    } else if ts.len() == 1 {
        tuple_text(ts[0])
    } else {
        flow_text(ts.drop_last()) + comma() + tuple_text(ts.last())
    }
}

/// Whether a tuple's brightness is in its documented range: `-1` (keep) or
/// `1..=100`; sleep tuples (mode 7) ignore it.
pub open spec fn bright_ok(t: FlowTuple) -> bool {
    t.mode == 7 || t.brightness == -1 || (1 <= t.brightness <= 100)
}

/// The rejection of one tuple: a duration under the 50 ms minimum, else a
/// brightness out of its range.
pub open spec fn tuple_fault(t: FlowTuple) -> Option<Seq<char>> {
    if t.duration < 50 {
        Some("flow duration "@ + dec(t.duration as nat) + "ms < 50ms"@)
    } else if !bright_ok(t) {
        Some("flow brightness "@ + dec_int(t.brightness as int) + " out of range -1 or 1..=100"@)
    } else {
        None
    }
}

/// The rejection of the first faulty tuple, if any.
pub open spec fn first_fault(ts: Seq<FlowTuple>) -> Option<Seq<char>>
    decreases ts.len(),
{
    if ts.len() == 0 {
        None
    } else {
        match tuple_fault(ts[0]) {
            Some(m) => Some(m),
            None => first_fault(ts.drop_first()),
        }
    }
}

/// What rendering a flow gives: its text, or the validation message.
pub open spec fn render_v(ts: Seq<FlowTuple>) -> std::result::Result<Seq<char>, Seq<char>> {
    if ts.len() == 0 {
        Err("empty flow expression"@)
    } else {
        match first_fault(ts) {
            Some(m) => Err(m),
            None => Ok(flow_text(ts)),
        }
    }
}

proof fn lemma_first_fault_skip(ts: Seq<FlowTuple>, i: int)
    requires
        0 <= i <= ts.len(),
        forall|j: int| 0 <= j < i ==> tuple_fault(#[trigger] ts[j]) is None,
    ensures
        first_fault(ts) == first_fault(ts.skip(i)),
    decreases i,
{
    if i > 0 {
        assert(tuple_fault(ts[0]) is None);
        lemma_first_fault_skip(ts.drop_first(), i - 1);
        assert(ts.drop_first().skip(i - 1) == ts.skip(i));
    } else {
        assert(ts.skip(0) == ts);
    }
}

/// The rejection of one tuple (see [`tuple_fault`]).
fn check_tuple(t: FlowTuple) -> (r: Result<()>)
    ensures
        check_ok(r, tuple_fault(t)),
{
    if t.duration < 50 {
        return Err(Error::InvalidParam(message_with_number("flow duration ", t.duration as u64, "ms < 50ms")));
    }
    if !(t.mode == 7 || t.brightness == -1 || (1 <= t.brightness && t.brightness <= 100)) {
        let mut m = chars_of("flow brightness ");
        push_dec_int(&mut m, t.brightness as i64);
        extend_chars(&mut m, &chars_of(" out of range -1 or 1..=100"));
        return Err(Error::InvalidParam(string_of(&m)));
    }
    Ok(())
}

impl Default for FlowExpr {
    fn default() -> (r: Self)
        ensures
            r.0@ == Seq::<FlowTuple>::empty(),
    {
        FlowExpr(Vec::new())
    }
}

impl FlowExpr {
    /// Render to the comma-separated string the device expects.
    pub fn render(&self) -> (r: Result<String>)
        ensures
            match r {
                Ok(s) => render_v(self.0@) == Ok::<Seq<char>, Seq<char>>(s@),
                Err(e) => render_v(self.0@) matches Err(m) && invalid_param(e, m),
            },
    {
        let ts = &self.0;
        if ts.len() == 0 {
            return Err(Error::InvalidParam("empty flow expression".to_string()));
        }
        let mut i: usize = 0;
        while i < ts.len()
            invariant
                i <= ts@.len(),
                ts@ == self.0@,
                forall|j: int| 0 <= j < i ==> tuple_fault(#[trigger] ts@[j]) is None,
            decreases ts@.len() - i,
        {
            if let Err(e) = check_tuple(ts[i]) {
                proof {
                    lemma_first_fault_skip(ts@, i as int);
                    assert(ts@.skip(i as int)[0] == ts@[i as int]);
                    assert(ts@.skip(i as int).len() > 0);
                }
                return Err(e);
            }
            i = i + 1;
        }
        proof {
            lemma_first_fault_skip(ts@, ts@.len() as int);
        }
        let mut out: Vec<char> = Vec::new();
        let mut k: usize = 0;
        while k < ts.len()
            invariant
                k <= ts@.len(),
                ts@ == self.0@,
                out@ == flow_text(ts@.take(k as int)),
            decreases ts@.len() - k,
        {
            let t = ts[k];
            let ghost before = out@;
            if k > 0 {
                out.push(',');
            }
            push_dec(&mut out, t.duration as u64);
            out.push(',');
            push_dec(&mut out, t.mode as u64);
            out.push(',');
            push_dec(&mut out, t.value as u64);
            out.push(',');
            push_dec_int(&mut out, t.brightness as i64);
            k = k + 1;
            proof {
                let tk = ts@.take(k as int);
                assert(tk.drop_last() == ts@.take((k - 1) as int));
                assert(tk.last() == t);
                if k == 1 {
                    assert(before == Seq::<char>::empty());
                    assert(out@ =~= tuple_text(t));
                } else {
                    assert(out@ =~= before + comma() + tuple_text(t));
                }
            }
        }
        assert(ts@.take(ts@.len() as int) == ts@);
        Ok(string_of(&out))
    }

    /// Number of tuples in the expression.
    pub fn len(&self) -> (n: usize)
        ensures
            n == self.0@.len(),
    {
        self.0.len()
    }

    /// Whether the expression has no tuples.
    pub fn is_empty(&self) -> (b: bool)
        ensures
            b == (self.0@.len() == 0),
    {
        self.0.len() == 0
    }
}

/// A scene for `set_scene`. Accepted whether the light is on or off.
#[derive(Debug, Clone)]
pub enum Scene {
    /// Set color + brightness.
    Color {
        /// RGB value.
        rgb: u32,
        /// Brightness `1..=100`.
        bright: u8,
    },
    /// Set hue/sat + brightness.
    Hsv {
        /// Hue `0..=359`.
        hue: u16,
        /// Saturation `0..=100`.
        sat: u8,
        /// Brightness `1..=100`.
        bright: u8,
    },
    /// Set color temperature + brightness.
    Ct {
        /// Color temperature `1700..=6500` K.
        ct: u16,
        /// Brightness `1..=100`.
        bright: u8,
    },
    /// Start a color flow.
    ColorFlow {
        /// Number of visible changes before stopping; `0` = infinite.
        count: u32,
        /// Action after the flow stops.
        action: FlowAction,
        /// The flow expression.
        expr: FlowExpr,
    },
    /// Turn on to a brightness, then auto-off after `minutes`.
    AutoDelayOff {
        /// Brightness `1..=100`.
        bright: u8,
        /// Sleep timer in minutes.
        minutes: u32,
    },
}

/// The `set_scene` parameters of a scene, or the rejection of an argument outside
/// its documented range (see [`bright_err`], [`ct_err`], [`hsv_err`]) or of the flow.
pub open spec fn scene_params_v(scene: Scene) -> std::result::Result<Seq<JsonV>, Seq<char>> {
    match scene {
        Scene::Color { rgb, bright } => match bright_err(bright) {
            Some(m) => Err(m),
            None => Ok(seq![str_v("color"@), uint_v(rgb as nat), uint_v(bright as nat)]),
        },
        Scene::Hsv { hue, sat, bright } => match first_err(hsv_err(hue, sat), bright_err(bright)) {
            Some(m) => Err(m),
            None => Ok(
                seq![str_v("hsv"@), uint_v(hue as nat), uint_v(sat as nat), uint_v(bright as nat)],
            ),
        },
        Scene::Ct { ct, bright } => match first_err(ct_err(ct), bright_err(bright)) {
            Some(m) => Err(m),
            None => Ok(seq![str_v("ct"@), uint_v(ct as nat), uint_v(bright as nat)]),
        },
        Scene::ColorFlow { count, action, expr } => match render_v(expr.0@) {
            Ok(t) => Ok(
                seq![
                    str_v("cf"@),
                    uint_v(count as nat),
                    uint_v(action.code_v() as nat),
                    str_v(t),
                ],
            ),
            Err(m) => Err(m),
        },
        Scene::AutoDelayOff { bright, minutes } => match bright_err(bright) {
            Some(m) => Err(m),
            None => Ok(seq![str_v("auto_delay_off"@), uint_v(bright as nat), uint_v(minutes as nat)]),
        },
    }
}

/// An HSV scene sends the mode `"hsv"`, then the hue, the saturation and the
/// brightness, in that order: each parameter reads back as the number given for it.
pub proof fn hsv_scene_param_order(hue: u16, sat: u8, bright: u8)
    requires
        hue <= 359,
        sat <= 100,
        1 <= bright <= 100,
    ensures
        scene_params_v(Scene::Hsv { hue, sat, bright }) matches Ok(p) && p.len() == 4 && p[0] == str_v(
            "hsv"@,
        ) && as_u64_v(Some(p[1])) == Some(hue as u64) && as_u64_v(Some(p[2])) == Some(sat as u64)
            && as_u64_v(Some(p[3])) == Some(bright as u64),
{
}

/// A color scene sends `"color"`, then the RGB value and the brightness; a
/// temperature scene sends `"ct"`, then the temperature and the brightness: each
/// parameter reads back as the number given for it.
pub proof fn color_and_ct_scene_param_order(rgb: u32, ct: u16, bright: u8)
    requires
        1700 <= ct <= 6500,
        1 <= bright <= 100,
    ensures
        scene_params_v(Scene::Color { rgb, bright }) matches Ok(p) && p.len() == 3 && p[0] == str_v(
            "color"@,
        ) && as_u64_v(Some(p[1])) == Some(rgb as u64) && as_u64_v(Some(p[2])) == Some(bright as u64),
        scene_params_v(Scene::Ct { ct, bright }) matches Ok(p) && p.len() == 3 && p[0] == str_v("ct"@)
            && as_u64_v(Some(p[1])) == Some(ct as u64) && as_u64_v(Some(p[2])) == Some(bright as u64),
{
}

/// A color-flow scene sends `"cf"`, then the count, the action's code and the
/// rendered flow; a delayed-off scene sends `"auto_delay_off"`, then the brightness
/// and the minutes: each number reads back as the one given for it.
pub proof fn flow_and_delay_scene_param_order(
    count: u32,
    action: FlowAction,
    expr: FlowExpr,
    bright: u8,
    minutes: u32,
)
    requires
        1 <= bright <= 100,
    ensures
        scene_params_v(Scene::ColorFlow { count, action, expr }) matches Ok(p) ==> p.len() == 4 && p[0]
            == str_v("cf"@) && as_u64_v(Some(p[1])) == Some(count as u64) && as_u64_v(Some(p[2]))
            == Some(action.code_v() as u64) && render_v(expr.0@) == Ok::<Seq<char>, Seq<char>>(
            p[3]->Str_0,
        ) && p[3] is Str,
        scene_params_v(Scene::AutoDelayOff { bright, minutes }) matches Ok(p) && p.len() == 3 && p[0]
            == str_v("auto_delay_off"@) && as_u64_v(Some(p[1])) == Some(bright as u64) && as_u64_v(
            Some(p[2]),
        ) == Some(minutes as u64),
{
}

/// Every flow that `start_cf`-style commands carry reads back as built: the count
/// first, then the action's code, then the rendered flow.
pub proof fn flow_params_read_back(
    r: Result<Request>,
    method: Seq<char>,
    count: u32,
    action: FlowAction,
    expr: FlowExpr,
)
    requires
        with_flow(r, method, count, action, expr),
        r is Ok,
    ensures
        r->Ok_0.method@ == method,
        items_v(r->Ok_0.params@).len() == 3,
        as_u64_v(Some(items_v(r->Ok_0.params@)[0])) == Some(count as u64),
        as_u64_v(Some(items_v(r->Ok_0.params@)[1])) == Some(action.code_v() as u64),
        render_v(expr.0@) == Ok::<Seq<char>, Seq<char>>(as_str_v(Some(items_v(r->Ok_0.params@)[2]))->Some_0),
{
}

/// Builds a parameter list from values whose forms are known.
pub fn params_of(v: Vec<Json>) -> (r: Vec<Json>)
    ensures
        r@ == v@,
        items_v(r@).len() == v@.len(),
        forall|i: int| 0 <= i < v@.len() ==> #[trigger] items_v(r@)[i] == json_v(v@[i]),
{
    proof {
        lemma_items_v(v@);
    }
    v
}

impl Scene {
    /// The `set_scene` parameter list.
    pub fn params(self) -> (r: Result<Vec<Json>>)
        ensures
            match r {
                Ok(p) => scene_params_v(self) == Ok::<Seq<JsonV>, Seq<char>>(items_v(p@)),
                Err(e) => scene_params_v(self) matches Err(m) && invalid_param(e, m),
            },
    {
        let p = match self {
            Scene::Color { rgb, bright } => {
                if let Err(e) = check_bright(bright) {
                    return Err(e);
                }
                params_of(
                    vec![Json::from_str("color"), Json::from_u64(rgb as u64), Json::from_u64(bright as u64)],
                )
            },
            Scene::Hsv { hue, sat, bright } => {
                if let Err(e) = check_hsv(hue, sat) {
                    return Err(e);
                }
                if let Err(e) = check_bright(bright) {
                    return Err(e);
                }
                params_of(
                    vec![
                        Json::from_str("hsv"),
                        Json::from_u64(hue as u64),
                        Json::from_u64(sat as u64),
                        Json::from_u64(bright as u64),
                    ],
                )
            },
            Scene::Ct { ct, bright } => {
                if let Err(e) = check_ct(ct) {
                    return Err(e);
                }
                if let Err(e) = check_bright(bright) {
                    return Err(e);
                }
                params_of(
                    vec![Json::from_str("ct"), Json::from_u64(ct as u64), Json::from_u64(bright as u64)],
                )
            },
            Scene::ColorFlow { count, action, expr } => {
                let text = match expr.render() {
                    Ok(t) => t,
                    Err(e) => {
                        return Err(e);
                    },
                };
                params_of(
                    vec![
                        Json::from_str("cf"),
                        Json::from_u64(count as u64),
                        Json::from_u64(action.code() as u64),
                        Json::from_str(text.as_str()),
                    ],
                )
            },
            Scene::AutoDelayOff { bright, minutes } => {
                if let Err(e) = check_bright(bright) {
                    return Err(e);
                }
                params_of(
                    vec![
                        Json::from_str("auto_delay_off"),
                        Json::from_u64(bright as u64),
                        Json::from_u64(minutes as u64),
                    ],
                )
            },
        };
        proof {
            assert(items_v(p@) =~= scene_params_v(self)->Ok_0);
        }
        Ok(p)
    }
}

/// One control command ready to send: a method name and its parameters.
#[derive(Debug)]
pub struct Request {
    /// The method name.
    pub method: String,
    /// The method's parameters.
    pub params: Vec<Json>,
}

/// `r` carries `method` with the parameters `params`.
pub open spec fn req_is(r: Request, method: Seq<char>, params: Seq<JsonV>) -> bool {
    r.method@ == method && items_v(r.params@) == params
}

/// The two effect parameters `effect, duration`.
pub open spec fn effect_params_v(e: Effect) -> Seq<JsonV> {
    seq![str_v(e.name_v()), uint_v(e.duration_v() as nat)]
}

/// What a command with a transition effect yields: `params` followed by the
/// effect parameters, or the effect's validation message.
pub open spec fn with_effect(
    r: Result<Request>,
    method: Seq<char>,
    params: Seq<JsonV>,
    e: Effect,
) -> bool {
    match r {
        Ok(q) => e.is_valid() && req_is(q, method, params + effect_params_v(e)),
        Err(err) => !e.is_valid() && invalid_param(err, e.error_v()),
    }
}

/// What a command carrying a flow yields: `count, action, text`, or the flow's
/// validation message.
pub open spec fn with_flow(
    r: Result<Request>,
    method: Seq<char>,
    count: u32,
    action: FlowAction,
    expr: FlowExpr,
) -> bool {
    match r {
        Ok(q) => render_v(expr.0@) matches Ok(t) && req_is(
            q,
            method,
            seq![uint_v(count as nat), uint_v(action.code_v() as nat), str_v(t)],
        ),
        Err(err) => render_v(expr.0@) matches Err(m) && invalid_param(err, m),
    }
}

/// What a `set_adjust`-style command yields: `action, prop`, or the rejection of
/// a color adjustment that is not a circle.
pub open spec fn adjust_ok(action: AdjustAction, prop: AdjustProp) -> bool {
    !(prop == AdjustProp::Color && action != AdjustAction::Circle)
}

/// The rejection of a brightness outside `1..=100`.
pub open spec fn bright_err(b: u8) -> Option<Seq<char>> {
    if 1 <= b <= 100 {
        None
    } else {
        Some("brightness "@ + dec(b as nat) + " out of range 1..=100"@)
    }
}

/// The rejection of a color temperature outside `1700..=6500` K.
pub open spec fn ct_err(ct: u16) -> Option<Seq<char>> {
    if 1700 <= ct <= 6500 {
        None
    } else {
        Some("color temperature "@ + dec(ct as nat) + "K out of range 1700..=6500"@)
    }
}

/// The rejection of a hue outside `0..=359` or a saturation outside `0..=100`
/// (the hue is checked first).
pub open spec fn hsv_err(hue: u16, sat: u8) -> Option<Seq<char>> {
    if hue > 359 {
        Some("hue "@ + dec(hue as nat) + " out of range 0..=359"@)
    } else if sat > 100 {
        Some("saturation "@ + dec(sat as nat) + " out of range 0..=100"@)
    } else {
        None
    }
}

/// The first of two rejections, if any.
pub open spec fn first_err(a: Option<Seq<char>>, b: Option<Seq<char>>) -> Option<Seq<char>> {
    match a {
        Some(m) => Some(m),
        None => b,
    }
}

/// What a command whose arguments have documented ranges yields: the range
/// rejection `err` when there is one, else as [`with_effect`].
pub open spec fn checked_effect(
    r: Result<Request>,
    err: Option<Seq<char>>,
    method: Seq<char>,
    params: Seq<JsonV>,
    e: Effect,
) -> bool {
    match err {
        Some(m) => r matches Err(x) && invalid_param(x, m),
        None => with_effect(r, method, params, e),
    }
}

/// The result of a range check with rejection `err`.
pub open spec fn check_ok(r: Result<()>, err: Option<Seq<char>>) -> bool {
    match err {
        Some(m) => r matches Err(x) && invalid_param(x, m),
        None => r is Ok,
    }
}

/// Checks a brightness (see [`bright_err`]).
pub fn check_bright(b: u8) -> (r: Result<()>)
    ensures
        check_ok(r, bright_err(b)),
{
    if b < 1 || b > 100 {
        Err(Error::InvalidParam(message_with_number("brightness ", b as u64, " out of range 1..=100")))
    } else {
        Ok(())
    }
}

/// Checks a color temperature (see [`ct_err`]).
pub fn check_ct(ct: u16) -> (r: Result<()>)
    ensures
        check_ok(r, ct_err(ct)),
{
    if ct < 1700 || ct > 6500 {
        Err(
            Error::InvalidParam(
                message_with_number("color temperature ", ct as u64, "K out of range 1700..=6500"),
            ),
        )
    } else {
        Ok(())
    }
}

/// Checks a hue and saturation (see [`hsv_err`]).
pub fn check_hsv(hue: u16, sat: u8) -> (r: Result<()>)
    ensures
        check_ok(r, hsv_err(hue, sat)),
{
    if hue > 359 {
        Err(Error::InvalidParam(message_with_number("hue ", hue as u64, " out of range 0..=359")))
    } else if sat > 100 {
        Err(Error::InvalidParam(message_with_number("saturation ", sat as u64, " out of range 0..=100")))
    } else {
        Ok(())
    }
}

fn request(method: &str, params: Vec<Json>) -> (r: Request)
    ensures
        r.method@ == method@,
        r.params@ == params@,
{
    Request { method: method.to_string(), params }
}

/// Appends the effect parameters to `params`.
fn push_effect(params: &mut Vec<Json>, effect: Effect) -> (r: Result<()>)
    ensures
        match r {
            Ok(()) => effect.is_valid() && items_v(final(params)@) == items_v(old(params)@)
                + effect_params_v(effect),
            Err(err) => !effect.is_valid() && invalid_param(err, effect.error_v()),
        },
{
    let (e, d) = match effect.params() {
        Ok(p) => p,
        Err(err) => {
            return Err(err);
        },
    };
    let ghost before = params@;
    params.push(Json::from_str(e));
    params.push(Json::from_u64(d as u64));
    proof {
        lemma_items_v(before);
        lemma_items_v(params@);
        assert(items_v(params@) =~= items_v(before) + effect_params_v(effect));
    }
    Ok(())
}

fn effect_request(method: &str, mut params: Vec<Json>, effect: Effect) -> (r: Result<Request>)
    ensures
        with_effect(r, method@, items_v(params@), effect),
{
    match push_effect(&mut params, effect) {
        Ok(()) => Ok(request(method, params)),
        Err(e) => Err(e),
    }
}

pub(crate) fn set_ct_m(method: &str, ct: u16, effect: Effect) -> (r: Result<Request>)
    ensures
        with_effect(r, method@, seq![uint_v(ct as nat)], effect),
{
    let p = params_of(vec![Json::from_u64(ct as u64)]);
    assert(items_v(p@) =~= seq![uint_v(ct as nat)]);
    effect_request(method, p, effect)
}

fn set_rgb_m(method: &str, rgb: u32, effect: Effect) -> (r: Result<Request>)
    ensures
        with_effect(r, method@, seq![uint_v(rgb as nat)], effect),
{
    let p = params_of(vec![Json::from_u64(rgb as u64)]);
    assert(items_v(p@) =~= seq![uint_v(rgb as nat)]);
    effect_request(method, p, effect)
}

pub(crate) fn set_hsv_m(method: &str, hue: u16, sat: u8, effect: Effect) -> (r: Result<Request>)
    ensures
        with_effect(r, method@, seq![uint_v(hue as nat), uint_v(sat as nat)], effect),
{
    let p = params_of(vec![Json::from_u64(hue as u64), Json::from_u64(sat as u64)]);
    assert(items_v(p@) =~= seq![uint_v(hue as nat), uint_v(sat as nat)]);
    effect_request(method, p, effect)
}

pub(crate) fn set_bright_m(method: &str, bright: u8, effect: Effect) -> (r: Result<Request>)
    ensures
        with_effect(r, method@, seq![uint_v(bright as nat)], effect),
{
    let p = params_of(vec![Json::from_u64(bright as u64)]);
    assert(items_v(p@) =~= seq![uint_v(bright as nat)]);
    effect_request(method, p, effect)
}

/// The `on`/`off` word of a power command.
pub open spec fn power_word(on: bool) -> Seq<char> {
    if on {
        "on"@
    } else {
        "off"@
    }
}

/// The optional trailing mode parameter of a power command.
pub open spec fn mode_params_v(mode: Option<PowerMode>) -> Seq<JsonV> {
    match mode {
        Some(m) => seq![uint_v(m.code_v() as nat)],
        None => Seq::empty(),
    }
}

fn set_power_m(method: &str, on: bool, effect: Effect, mode: Option<PowerMode>) -> (r: Result<
    Request,
>)
    ensures
        match r {
            Ok(q) => effect.is_valid() && req_is(
                q,
                method@,
                seq![str_v(power_word(on))] + effect_params_v(effect) + mode_params_v(mode),
            ),
            Err(err) => !effect.is_valid() && invalid_param(err, effect.error_v()),
        },
{
    let mut p = params_of(vec![Json::from_str(if on { "on" } else { "off" })]);
    assert(items_v(p@) =~= seq![str_v(power_word(on))]);
    match push_effect(&mut p, effect) {
        Ok(()) => {},
        Err(e) => {
            return Err(e);
        },
    }
    let ghost before = p@;
    if let Some(m) = mode {
        p.push(Json::from_u64(m.code() as u64));
    }
    proof {
        lemma_items_v(before);
        lemma_items_v(p@);
        assert(items_v(p@) =~= items_v(before) + mode_params_v(mode));
    }
    Ok(request(method, p))
}

fn start_cf_m(method: &str, count: u32, action: FlowAction, expr: FlowExpr) -> (r: Result<
    Request,
>)
    ensures
        with_flow(r, method@, count, action, expr),
{
    let text = match expr.render() {
        Ok(t) => t,
        Err(e) => {
            return Err(e);
        },
    };
    let p = params_of(
        vec![
            Json::from_u64(count as u64),
            Json::from_u64(action.code() as u64),
            Json::from_str(text.as_str()),
        ],
    );
    proof {
        assert(items_v(p@) =~= seq![
            uint_v(count as nat),
            uint_v(action.code_v() as nat),
            str_v(text@),
        ]);
    }
    Ok(request(method, p))
}

fn set_scene_m(method: &str, scene: Scene) -> (r: Result<Request>)
    ensures
        match r {
            Ok(q) => scene_params_v(scene) matches Ok(p) && req_is(q, method@, p),
            Err(err) => scene_params_v(scene) matches Err(m) && invalid_param(err, m),
        },
{
    match scene.params() {
        Ok(p) => Ok(request(method, p)),
        Err(e) => Err(e),
    }
}

fn set_adjust_m(method: &str, action: AdjustAction, prop: AdjustProp) -> (r: Result<Request>)
    ensures
        match r {
            Ok(q) => adjust_ok(action, prop) && req_is(
                q,
                method@,
                seq![str_v(action.name_v()), str_v(prop.name_v())],
            ),
            Err(err) => !adjust_ok(action, prop) && invalid_param(
                err,
                "adjust color supports only the 'circle' action"@,
            ),
        },
{
    if prop == AdjustProp::Color && action != AdjustAction::Circle {
        return Err(
            Error::InvalidParam("adjust color supports only the 'circle' action".to_string()),
        );
    }
    let p = params_of(vec![Json::from_str(action.as_str()), Json::from_str(prop.as_str())]);
    assert(items_v(p@) =~= seq![str_v(action.name_v()), str_v(prop.name_v())]);
    Ok(request(method, p))
}

fn adjust_m(method: &str, percentage: i8, duration: u32) -> (r: Request)
    ensures
        req_is(r, method@, seq![int_v(percentage as int), uint_v(duration as nat)]),
{
    let p = params_of(vec![Json::from_i64(percentage as i64), Json::from_u64(duration as u64)]);
    assert(items_v(p@) =~= seq![int_v(percentage as int), uint_v(duration as nat)]);
    request(method, p)
}

fn bare(method: &str) -> (r: Request)
    ensures
        req_is(r, method@, Seq::empty()),
{
    let p: Vec<Json> = Vec::new();
    assert(items_v(p@) =~= Seq::<JsonV>::empty());
    request(method, p)
}

impl Request {
    /// `get_prop` — read the given property names; unknown names return `""`.
    pub fn get_prop(props: &[&str]) -> (r: Request)
        ensures
            req_is(r, "get_prop"@, props@.map_values(|p: &str| str_v(p@))),
    {
        let mut p: Vec<Json> = Vec::new();
        let mut i: usize = 0;
        while i < props.len()
            invariant
                i <= props@.len(),
                items_v(p@) == props@.take(i as int).map_values(|q: &str| str_v(q@)),
            decreases props@.len() - i,
        {
            let ghost before = p@;
            let j = Json::from_str(props[i]);
            p.push(j);
            i = i + 1;
            proof {
                lemma_items_v(before);
                lemma_items_v(p@);
                let want = props@.take(i as int).map_values(|q: &str| str_v(q@));
                let had = props@.take((i - 1) as int).map_values(|q: &str| str_v(q@));
                assert forall|k: int| 0 <= k < want.len() implies items_v(p@)[k] == want[k] by {
                    if k < i - 1 {
                        assert(items_v(p@)[k] == json_v(before[k]));
                        assert(items_v(before)[k] == had[k]);
                    } else {
                        assert(items_v(p@)[k] == json_v(j));
                    }
                }
                assert(items_v(p@) =~= want);
            }
        }
        assert(props@.take(props@.len() as int) == props@);
        request("get_prop", p)
    }

    /// `set_ct_abx` — color temperature `1700..=6500` K; only when the light is on.
    pub fn set_ct_abx(ct: u16, effect: Effect) -> (r: Result<Request>)
        ensures
            checked_effect(r, ct_err(ct), "set_ct_abx"@, seq![uint_v(ct as nat)], effect),
    {
        match check_ct(ct) {
            Ok(()) => set_ct_m("set_ct_abx", ct, effect),
            Err(e) => Err(e),
        }
    }

    /// `set_rgb` — color `0..=0xFFFFFF`; only when the light is on.
    pub fn set_rgb(rgb: u32, effect: Effect) -> (r: Result<Request>)
        ensures
            with_effect(r, "set_rgb"@, seq![uint_v(rgb as nat)], effect),
    {
        set_rgb_m("set_rgb", rgb, effect)
    }

    /// `set_hsv` — hue `0..=359` and saturation `0..=100`; only when on.
    pub fn set_hsv(hue: u16, sat: u8, effect: Effect) -> (r: Result<Request>)
        ensures
            checked_effect(r, hsv_err(hue, sat), "set_hsv"@, seq![uint_v(hue as nat), uint_v(sat as nat)], effect),
    {
        match check_hsv(hue, sat) {
            Ok(()) => set_hsv_m("set_hsv", hue, sat, effect),
            Err(e) => Err(e),
        }
    }

    /// `set_bright` — brightness `1..=100`; only when the light is on.
    pub fn set_bright(bright: u8, effect: Effect) -> (r: Result<Request>)
        ensures
            checked_effect(r, bright_err(bright), "set_bright"@, seq![uint_v(bright as nat)], effect),
    {
        match check_bright(bright) {
            Ok(()) => set_bright_m("set_bright", bright, effect),
            Err(e) => Err(e),
        }
    }

    /// `set_power` — turn on/off, optionally switching to a [`PowerMode`].
    pub fn set_power(on: bool, effect: Effect, mode: Option<PowerMode>) -> (r: Result<Request>)
        ensures
            match r {
                Ok(q) => effect.is_valid() && req_is(
                    q,
                    "set_power"@,
                    seq![str_v(power_word(on))] + effect_params_v(effect) + mode_params_v(mode),
                ),
                Err(err) => !effect.is_valid() && invalid_param(err, effect.error_v()),
            },
    {
        set_power_m("set_power", on, effect, mode)
    }

    /// `toggle` — flip the light on/off.
    pub fn toggle() -> (r: Request)
        ensures
            req_is(r, "toggle"@, Seq::empty()),
    {
        bare("toggle")
    }

    /// `set_default` — save the current state as power-on default; only when on.
    pub fn set_default() -> (r: Request)
        ensures
            req_is(r, "set_default"@, Seq::empty()),
    {
        bare("set_default")
    }

    /// `stop_cf` — stop a running color flow.
    pub fn stop_cf() -> (r: Request)
        ensures
            req_is(r, "stop_cf"@, Seq::empty()),
    {
        bare("stop_cf")
    }

    /// `start_cf` — start a color flow; `count` is visible changes before stop (`0` = infinite).
    pub fn start_cf(count: u32, action: FlowAction, expr: FlowExpr) -> (r: Result<Request>)
        ensures
            with_flow(r, "start_cf"@, count, action, expr),
    {
        start_cf_m("start_cf", count, action, expr)
    }

    /// `set_scene` — set the light directly to a [`Scene`].
    pub fn set_scene(scene: Scene) -> (r: Result<Request>)
        ensures
            match r {
                Ok(q) => scene_params_v(scene) matches Ok(p) && req_is(q, "set_scene"@, p),
                Err(err) => scene_params_v(scene) matches Err(m) && invalid_param(err, m),
            },
    {
        set_scene_m("set_scene", scene)
    }

    /// `set_adjust` — relative change without knowing the current value;
    /// [`AdjustProp::Color`] requires [`AdjustAction::Circle`].
    pub fn set_adjust(action: AdjustAction, prop: AdjustProp) -> (r: Result<Request>)
        ensures
            match r {
                Ok(q) => adjust_ok(action, prop) && req_is(
                    q,
                    "set_adjust"@,
                    seq![str_v(action.name_v()), str_v(prop.name_v())],
                ),
                Err(err) => !adjust_ok(action, prop) && invalid_param(
                    err,
                    "adjust color supports only the 'circle' action"@,
                ),
            },
    {
        set_adjust_m("set_adjust", action, prop)
    }

    /// `adjust_bright` — change by `percentage` (`-100..=100`) over `duration` ms.
    pub fn adjust_bright(percentage: i8, duration: u32) -> (r: Request)
        ensures
            req_is(r, "adjust_bright"@, seq![int_v(percentage as int), uint_v(duration as nat)]),
    {
        adjust_m("adjust_bright", percentage, duration)
    }

    /// `adjust_ct` — change by `percentage` (`-100..=100`) over `duration` ms.
    pub fn adjust_ct(percentage: i8, duration: u32) -> (r: Request)
        ensures
            req_is(r, "adjust_ct"@, seq![int_v(percentage as int), uint_v(duration as nat)]),
    {
        adjust_m("adjust_ct", percentage, duration)
    }

    /// `adjust_color` — change by `percentage` (`-100..=100`) over `duration` ms.
    pub fn adjust_color(percentage: i8, duration: u32) -> (r: Request)
        ensures
            req_is(r, "adjust_color"@, seq![int_v(percentage as int), uint_v(duration as nat)]),
    {
        adjust_m("adjust_color", percentage, duration)
    }

    /// `bg_set_ct_abx` — background-light twin of `set_ct_abx`.
    pub fn bg_set_ct_abx(ct: u16, effect: Effect) -> (r: Result<Request>)
        ensures
            checked_effect(r, ct_err(ct), "bg_set_ct_abx"@, seq![uint_v(ct as nat)], effect),
    {
        match check_ct(ct) {
            Ok(()) => set_ct_m("bg_set_ct_abx", ct, effect),
            Err(e) => Err(e),
        }
    }

    /// `bg_set_rgb` — background-light twin of `set_rgb`.
    pub fn bg_set_rgb(rgb: u32, effect: Effect) -> (r: Result<Request>)
        ensures
            with_effect(r, "bg_set_rgb"@, seq![uint_v(rgb as nat)], effect),
    {
        set_rgb_m("bg_set_rgb", rgb, effect)
    }

    /// `bg_set_hsv` — background-light twin of `set_hsv`.
    pub fn bg_set_hsv(hue: u16, sat: u8, effect: Effect) -> (r: Result<Request>)
        ensures
            checked_effect(r, hsv_err(hue, sat), "bg_set_hsv"@, seq![uint_v(hue as nat), uint_v(sat as nat)], effect),
    {
        match check_hsv(hue, sat) {
            Ok(()) => set_hsv_m("bg_set_hsv", hue, sat, effect),
            Err(e) => Err(e),
        }
    }

    /// `bg_set_bright` — background-light twin of `set_bright`.
    pub fn bg_set_bright(bright: u8, effect: Effect) -> (r: Result<Request>)
        ensures
            checked_effect(r, bright_err(bright), "bg_set_bright"@, seq![uint_v(bright as nat)], effect),
    {
        match check_bright(bright) {
            Ok(()) => set_bright_m("bg_set_bright", bright, effect),
            Err(e) => Err(e),
        }
    }

    /// `bg_set_power` — background-light power.
    pub fn bg_set_power(on: bool, effect: Effect, mode: Option<PowerMode>) -> (r: Result<Request>)
        ensures
            match r {
                Ok(q) => effect.is_valid() && req_is(
                    q,
                    "bg_set_power"@,
                    seq![str_v(power_word(on))] + effect_params_v(effect) + mode_params_v(mode),
                ),
                Err(err) => !effect.is_valid() && invalid_param(err, effect.error_v()),
            },
    {
        set_power_m("bg_set_power", on, effect, mode)
    }

    /// `bg_toggle` — flip the light on/off.
    pub fn bg_toggle() -> (r: Request)
        ensures
            req_is(r, "bg_toggle"@, Seq::empty()),
    {
        bare("bg_toggle")
    }

    /// `bg_set_default` — save the current state as power-on default; only when on.
    pub fn bg_set_default() -> (r: Request)
        ensures
            req_is(r, "bg_set_default"@, Seq::empty()),
    {
        bare("bg_set_default")
    }

    /// `bg_stop_cf` — stop a running color flow.
    pub fn bg_stop_cf() -> (r: Request)
        ensures
            req_is(r, "bg_stop_cf"@, Seq::empty()),
    {
        bare("bg_stop_cf")
    }

    /// `bg_start_cf` — start a color flow; `count` is visible changes before stop (`0` = infinite).
    pub fn bg_start_cf(count: u32, action: FlowAction, expr: FlowExpr) -> (r: Result<Request>)
        ensures
            with_flow(r, "bg_start_cf"@, count, action, expr),
    {
        start_cf_m("bg_start_cf", count, action, expr)
    }

    /// `bg_set_scene` — set the light directly to a [`Scene`].
    pub fn bg_set_scene(scene: Scene) -> (r: Result<Request>)
        ensures
            match r {
                Ok(q) => scene_params_v(scene) matches Ok(p) && req_is(q, "bg_set_scene"@, p),
                Err(err) => scene_params_v(scene) matches Err(m) && invalid_param(err, m),
            },
    {
        set_scene_m("bg_set_scene", scene)
    }

    /// `bg_set_adjust` — relative change without knowing the current value;
    /// [`AdjustProp::Color`] requires [`AdjustAction::Circle`].
    pub fn bg_set_adjust(action: AdjustAction, prop: AdjustProp) -> (r: Result<Request>)
        ensures
            match r {
                Ok(q) => adjust_ok(action, prop) && req_is(
                    q,
                    "bg_set_adjust"@,
                    seq![str_v(action.name_v()), str_v(prop.name_v())],
                ),
                Err(err) => !adjust_ok(action, prop) && invalid_param(
                    err,
                    "adjust color supports only the 'circle' action"@,
                ),
            },
    {
        set_adjust_m("bg_set_adjust", action, prop)
    }

    /// `bg_adjust_bright` — change by `percentage` (`-100..=100`) over `duration` ms.
    pub fn bg_adjust_bright(percentage: i8, duration: u32) -> (r: Request)
        ensures
            req_is(r, "bg_adjust_bright"@, seq![int_v(percentage as int), uint_v(duration as nat)]),
    {
        adjust_m("bg_adjust_bright", percentage, duration)
    }

    /// `bg_adjust_ct` — change by `percentage` (`-100..=100`) over `duration` ms.
    pub fn bg_adjust_ct(percentage: i8, duration: u32) -> (r: Request)
        ensures
            req_is(r, "bg_adjust_ct"@, seq![int_v(percentage as int), uint_v(duration as nat)]),
    {
        adjust_m("bg_adjust_ct", percentage, duration)
    }

    /// `bg_adjust_color` — change by `percentage` (`-100..=100`) over `duration` ms.
    pub fn bg_adjust_color(percentage: i8, duration: u32) -> (r: Request)
        ensures
            req_is(r, "bg_adjust_color"@, seq![int_v(percentage as int), uint_v(duration as nat)]),
    {
        adjust_m("bg_adjust_color", percentage, duration)
    }

    /// `cron_add` — start a timer job of `minutes`; only when the light is on.
    pub fn cron_add(ty: CronType, minutes: u32) -> (r: Request)
        ensures
            req_is(r, "cron_add"@, seq![int_v(ty.code_v() as int), uint_v(minutes as nat)]),
    {
        let p = params_of(vec![Json::from_i64(ty.code()), Json::from_u64(minutes as u64)]);
        assert(items_v(p@) =~= seq![int_v(ty.code_v() as int), uint_v(minutes as nat)]);
        request("cron_add", p)
    }

    /// `cron_get` — retrieve the current cron job.
    pub fn cron_get(ty: CronType) -> (r: Request)
        ensures
            req_is(r, "cron_get"@, seq![int_v(ty.code_v() as int)]),
    {
        let p = params_of(vec![Json::from_i64(ty.code())]);
        assert(items_v(p@) =~= seq![int_v(ty.code_v() as int)]);
        request("cron_get", p)
    }

    /// `cron_del` — stop the specified cron job.
    pub fn cron_del(ty: CronType) -> (r: Request)
        ensures
            req_is(r, "cron_del"@, seq![int_v(ty.code_v() as int)]),
    {
        let p = params_of(vec![Json::from_i64(ty.code())]);
        assert(items_v(p@) =~= seq![int_v(ty.code_v() as int)]);
        request("cron_del", p)
    }

    /// `set_name` — name the device (stored on the device, max 64 bytes).
    pub fn set_name(name: &str) -> (r: Request)
        ensures
            req_is(r, "set_name"@, seq![str_v(name@)]),
    {
        let p = params_of(vec![Json::from_str(name)]);
        assert(items_v(p@) =~= seq![str_v(name@)]);
        request("set_name", p)
    }

    /// `dev_toggle` — toggle the main light and the background light together.
    pub fn dev_toggle() -> (r: Request)
        ensures
            req_is(r, "dev_toggle"@, Seq::empty()),
    {
        bare("dev_toggle")
    }

    /// `set_music` enable — tell the device to connect back to `host:port`
    /// (`host` is the controller's IP address in text form).
    pub fn set_music_on(host: &str, port: u16) -> (r: Request)
        ensures
            req_is(r, "set_music"@, seq![uint_v(1), str_v(host@), uint_v(port as nat)]),
    {
        let p = params_of(vec![Json::from_u64(1), Json::from_str(host), Json::from_u64(port as u64)]);
        assert(items_v(p@) =~= seq![uint_v(1), str_v(host@), uint_v(port as nat)]);
        request("set_music", p)
    }

    /// `set_music` disable.
    pub fn set_music_off() -> (r: Request)
        ensures
            req_is(r, "set_music"@, seq![uint_v(0)]),
    {
        let p = params_of(vec![Json::from_u64(0)]);
        assert(items_v(p@) =~= seq![uint_v(0)]);
        request("set_music", p)
    }
}


/// The text of a tuple holds three commas.
proof fn lemma_tuple_commas(t: FlowTuple)
    ensures
        count_char(tuple_text(t), ',') == 3,
{
    let a = dec(t.duration as nat);
    let b = dec(t.mode as nat);
    let c = dec(t.value as nat);
    let d = dec_int(t.brightness as int);
    lemma_dec_count(t.duration as nat, ',');
    lemma_dec_count(t.mode as nat, ',');
    lemma_dec_count(t.value as nat, ',');
    if (t.brightness as int) < 0 {
        lemma_dec_count((-(t.brightness as int)) as nat, ',');
        lemma_count_add(seq!['-'], dec((-(t.brightness as int)) as nat), ',');
        lemma_count_single('-', ',');
    } else {
        lemma_dec_count(t.brightness as nat, ',');
    }
    lemma_count_single(',', ',');
    lemma_count_add(a, comma(), ',');
    lemma_count_add(a + comma(), b, ',');
    lemma_count_add(a + comma() + b, comma(), ',');
    lemma_count_add(a + comma() + b + comma(), c, ',');
    lemma_count_add(a + comma() + b + comma() + c, comma(), ',');
    lemma_count_add(a + comma() + b + comma() + c + comma(), d, ',');
}

proof fn lemma_flow_commas(ts: Seq<FlowTuple>)
    requires
        ts.len() >= 1,
    ensures
        count_char(flow_text(ts), ',') + 1 == 4 * ts.len(),
    decreases ts.len(),
{
    if ts.len() == 1 {
        lemma_tuple_commas(ts[0]);
    } else {
        lemma_flow_commas(ts.drop_last());
        lemma_tuple_commas(ts.last());
        lemma_count_single(',', ',');
        lemma_count_add(flow_text(ts.drop_last()), comma(), ',');
        lemma_count_add(flow_text(ts.drop_last()) + comma(), tuple_text(ts.last()), ',');
    }
}

/// A rendered flow has four comma-separated fields per step.
pub proof fn rendered_flow_fields(ts: Seq<FlowTuple>)
    requires
        render_v(ts) is Ok,
    ensures
        split_on(render_v(ts)->Ok_0, ',').len() == 4 * ts.len(),
{
    lemma_flow_commas(ts);
    lemma_split_count(flow_text(ts), ',');
}

} // verus!
