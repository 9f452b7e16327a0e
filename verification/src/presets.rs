//! Static preset tables surfaced by the control tabs: white temperatures, scenes,
//! and color-flow presets.

use vstd::prelude::*;

use crate::commands::{render_v, FlowAction, FlowExpr, FlowTuple, Scene};

verus! {

/// Named color-temperature presets (Kelvin), all within the device's 1700–6500 range.
pub fn temps() -> (t: Vec<(&'static str, u16)>)
    ensures
        t@.len() == 5,
        t@[0].0@ == "Candle"@ && t@[0].1 == 1700,
        t@[1].0@ == "Warm"@ && t@[1].1 == 2700,
        t@[2].0@ == "Neutral"@ && t@[2].1 == 4000,
        t@[3].0@ == "Daylight"@ && t@[3].1 == 5000,
        t@[4].0@ == "Cool"@ && t@[4].1 == 6500,
        forall|i: int| 0 <= i < t@.len() ==> 1700 <= (#[trigger] t@[i]).1 <= 6500,
{
    vec![("Candle", 1700), ("Warm", 2700), ("Neutral", 4000), ("Daylight", 5000), ("Cool", 6500)]
}

/// A named scene preset.
#[derive(Debug)]
pub struct ScenePreset {
    /// Display name.
    pub name: &'static str,
    /// The scene to apply.
    pub scene: Scene,
}

/// A named color-flow preset for the Flow tab.
#[derive(Debug)]
pub struct FlowPreset {
    /// Display name.
    pub name: &'static str,
    /// Visible changes before stopping (`0` = infinite).
    pub count: u32,
    /// Action after the flow stops.
    pub action: FlowAction,
    /// The flow expression.
    pub expr: FlowExpr,
}

/// A flow tuple.
pub open spec fn ft(duration: u32, mode: u8, value: u32, brightness: i8) -> FlowTuple {
    FlowTuple { duration, mode, value, brightness }
}

/// The "Party" flow: red, green, blue, half a second each, full brightness.
pub open spec fn party_v() -> Seq<FlowTuple> {
    seq![ft(500, 1, 0xFF0000, 100), ft(500, 1, 0x00FF00, 100), ft(500, 1, 0x0000FF, 100)]
}

/// The "Party" flow: red, green, blue, half a second each, full brightness.
pub fn party_flow() -> (e: FlowExpr)
    ensures
        e.0@ == party_v(),
        render_v(e.0@) is Ok,
{
    let e = FlowExpr(
        vec![
            FlowTuple { duration: 500, mode: 1, value: 0xFF0000, brightness: 100 },
            FlowTuple { duration: 500, mode: 1, value: 0x00FF00, brightness: 100 },
            FlowTuple { duration: 500, mode: 1, value: 0x0000FF, brightness: 100 },
        ],
    );
    assert(e.0@ =~= party_v());
    proof {
        reveal_with_fuel(crate::commands::first_fault, 4);
    }
    e
}

/// Curated scenes shown in the Scenes tab: Reading, Relax, Sunset, Movie and Party.
pub fn scenes() -> (s: Vec<ScenePreset>)
    ensures
        s@.len() == 5,
        s@[0].name@ == "Reading"@ && s@[0].scene == (Scene::Ct { ct: 4000, bright: 100 }),
        s@[1].name@ == "Relax"@ && s@[1].scene == (Scene::Ct { ct: 2700, bright: 40 }),
        s@[2].name@ == "Sunset"@ && s@[2].scene == (Scene::Color { rgb: 0xFF5E3A, bright: 60 }),
        s@[3].name@ == "Movie"@ && s@[3].scene == (Scene::Color { rgb: 0x1A237E, bright: 20 }),
        s@[4].name@ == "Party"@,
        s@[4].scene matches Scene::ColorFlow { count, action, expr } && count == 0 && action
            == FlowAction::Recover && expr.0@ == party_v(),
        forall|i: int|
            0 <= i < s@.len() ==> ((#[trigger] s@[i]).scene matches Scene::ColorFlow { expr, .. }
                ==> render_v(expr.0@) is Ok),
{
    vec![
        ScenePreset { name: "Reading", scene: Scene::Ct { ct: 4000, bright: 100 } },
        ScenePreset { name: "Relax", scene: Scene::Ct { ct: 2700, bright: 40 } },
        ScenePreset { name: "Sunset", scene: Scene::Color { rgb: 0xFF5E3A, bright: 60 } },
        ScenePreset { name: "Movie", scene: Scene::Color { rgb: 0x1A237E, bright: 20 } },
        ScenePreset {
            name: "Party",
            scene: Scene::ColorFlow { count: 0, action: FlowAction::Recover, expr: party_flow() },
        },
    ]
}

/// The "Pulse" flow: red at full brightness, then dimmed, a second each.
pub open spec fn pulse_v() -> Seq<FlowTuple> {
    seq![ft(1000, 1, 0xFF0000, 100), ft(1000, 1, 0xFF0000, 1)]
}

/// The "Police" flow: blue and red, 300 ms each.
pub open spec fn police_v() -> Seq<FlowTuple> {
    seq![ft(300, 1, 0x0000FF, 100), ft(300, 1, 0xFF0000, 100)]
}

/// The "Candle" flow: warm whites flickering in brightness.
pub open spec fn candle_v() -> Seq<FlowTuple> {
    seq![ft(800, 2, 2000, 60), ft(800, 2, 2700, 90), ft(1200, 2, 2200, 40)]
}

/// The "Sunrise" flow: a dim ember, then a slow warm-up to full daylight brightness.
pub open spec fn sunrise_v() -> Seq<FlowTuple> {
    seq![ft(50, 1, 0x331400, 1), ft(360_000, 2, 1700, 10), ft(540_000, 2, 2700, 100)]
}

/// Curated flows shown in the Flow tab: Pulse, Police, Candle and Sunrise. Every
/// step lasts at least 50 ms, so each renders.
pub fn flows() -> (f: Vec<FlowPreset>)
    ensures
        f@.len() == 4,
        f@[0].name@ == "Pulse"@ && f@[0].count == 0 && f@[0].action == FlowAction::Recover
            && f@[0].expr.0@ == pulse_v(),
        f@[1].name@ == "Police"@ && f@[1].count == 0 && f@[1].action == FlowAction::Recover
            && f@[1].expr.0@ == police_v(),
        f@[2].name@ == "Candle"@ && f@[2].count == 0 && f@[2].action == FlowAction::Recover
            && f@[2].expr.0@ == candle_v(),
        f@[3].name@ == "Sunrise"@ && f@[3].count == 1 && f@[3].action == FlowAction::Stay
            && f@[3].expr.0@ == sunrise_v(),
        forall|i: int| 0 <= i < f@.len() ==> render_v((#[trigger] f@[i]).expr.0@) is Ok,
{
    let pulse = FlowExpr(
        vec![
            FlowTuple { duration: 1000, mode: 1, value: 0xFF0000, brightness: 100 },
            FlowTuple { duration: 1000, mode: 1, value: 0xFF0000, brightness: 1 },
        ],
    );
    let police = FlowExpr(
        vec![
            FlowTuple { duration: 300, mode: 1, value: 0x0000FF, brightness: 100 },
            FlowTuple { duration: 300, mode: 1, value: 0xFF0000, brightness: 100 },
        ],
    );
    let candle = FlowExpr(
        vec![
            FlowTuple { duration: 800, mode: 2, value: 2000, brightness: 60 },
            FlowTuple { duration: 800, mode: 2, value: 2700, brightness: 90 },
            FlowTuple { duration: 1200, mode: 2, value: 2200, brightness: 40 },
        ],
    );
    let sunrise = FlowExpr(
        vec![
            FlowTuple { duration: 50, mode: 1, value: 0x331400, brightness: 1 },
            FlowTuple { duration: 360_000, mode: 2, value: 1700, brightness: 10 },
            FlowTuple { duration: 540_000, mode: 2, value: 2700, brightness: 100 },
        ],
    );
    assert(pulse.0@ =~= pulse_v());
    assert(police.0@ =~= police_v());
    assert(candle.0@ =~= candle_v());
    assert(sunrise.0@ =~= sunrise_v());
    proof {
        reveal_with_fuel(crate::commands::first_fault, 4);
    }
    vec![
        FlowPreset { name: "Pulse", count: 0, action: FlowAction::Recover, expr: pulse },
        FlowPreset { name: "Police", count: 0, action: FlowAction::Recover, expr: police },
        FlowPreset { name: "Candle", count: 0, action: FlowAction::Recover, expr: candle },
        FlowPreset { name: "Sunrise", count: 1, action: FlowAction::Stay, expr: sunrise },
    ]
}

} // verus!
