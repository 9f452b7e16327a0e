//! The per-tick decisions of the reactive color drivers (screen ambient and music
//! capture): pacing, powering targets on, deduplicating colors, and reacting to
//! send results.
//!
//! The loop that sleeps, captures and sends runs outside the library; each tick
//! it asks [`Driver`] what to do and reports back what happened.

use vstd::prelude::*;

use crate::ambient::{abs_diff, color_cmd, color_plan, flow_cmd, flow_plan, max_nat, Caps, Rgb};

verus! {

/// Music-mode send rate (no device quota).
pub const MUSIC_FPS: u64 = 15;

/// Fallback direct send rate, kept well under the ~144 commands/min LAN ceiling.
pub const FALLBACK_FPS: u64 = 2;

/// Visualizer frame rate of the music-capture driver.
pub const VIZ_FPS: u64 = 30;

/// The ambient driver skips a push when no channel moved by more than this.
pub const AMBIENT_DEDUP_DELTA: u8 = 4;

/// The music-capture driver skips a push when no channel moved by more than this.
pub const AUDIO_DEDUP_DELTA: u8 = 2;

/// How long the smooth path gathers colors before one flow, over music (ns).
pub const FLOW_GAP_MUSIC_NS: u64 = 500_000_000;

/// How long the smooth path gathers colors before one flow, direct (ns).
pub const FLOW_GAP_DIRECT_NS: u64 = 1_000_000_000;

/// The send rate of a sink: music mode has no quota.
pub open spec fn fps_v(music: bool) -> u64 {
    if music {
        MUSIC_FPS
    } else {
        FALLBACK_FPS
    }
}

/// The send rate of a sink that streams over music (`music`) or the direct client.
pub fn sink_fps(music: bool) -> (f: u64)
    ensures
        f == fps_v(music),
{
    if music {
        MUSIC_FPS
    } else {
        FALLBACK_FPS
    }
}

/// The flow-gathering window of a sink, in nanoseconds.
pub fn flow_gap_ns(music: bool) -> (g: u64)
    ensures
        g == (if music {
            FLOW_GAP_MUSIC_NS
        } else {
            FLOW_GAP_DIRECT_NS
        }),
{
    if music {
        FLOW_GAP_MUSIC_NS
    } else {
        FLOW_GAP_DIRECT_NS
    }
}

/// Number of enabled targets.
pub open spec fn targets_v(main: bool, bg: bool) -> nat {
    (if main {
        1nat
    } else {
        0nat
    }) + (if bg {
        1nat
    } else {
        0nat
    })
}

/// The ambient tick period (ms): one send period, stretched on the direct path by
/// the number of enabled targets (at least one) so the total stays under the
/// device's LAN command ceiling.
pub open spec fn ambient_period_v(music: bool, main: bool, bg: bool) -> nat {
    let base = 1000nat / (fps_v(music) as nat);
    if music {
        base
    } else {
        base * (if targets_v(main, bg) < 1 {
            1
        } else {
            targets_v(main, bg)
        })
    }
}

/// The ambient tick period in milliseconds (see [`ambient_period_v`]).
pub fn ambient_period_ms(music: bool, main: bool, bg: bool) -> (p: u64)
    ensures
        p == ambient_period_v(music, main, bg),
{
    let base = 1000 / sink_fps(music);
    if music {
        base
    } else {
        let n: u64 = (if main {
            1
        } else {
            0
        }) + (if bg {
            1
        } else {
            0
        });
        base * (if n < 1 {
            1
        } else {
            n
        })
    }
}

/// Which targets must be powered on this tick, and whether the color must be
/// pushed regardless of deduplication.
#[derive(Debug, Clone, Copy, PartialEq, Eq, Structural)]
pub struct PowerUp {
    /// Power the main light on now.
    pub main: bool,
    /// Power the background light on now.
    pub bg: bool,
    /// Push this tick's color even if unchanged (a target was newly enabled).
    pub force: bool,
}

/// The state a reactive driver carries from tick to tick.
#[derive(Debug, Clone, Copy, PartialEq, Eq, Structural)]
pub struct Driver {
    /// The last color pushed (or buffered); `None` pushes the next color unconditionally.
    pub last_sent: Option<Rgb>,
    /// The main light is an active, powered-on target.
    pub powered_main: bool,
    /// The background light is an active, powered-on target.
    pub powered_bg: bool,
    /// A failure was already reported in the current failure streak.
    pub errored: bool,
    /// Sends go over a music channel.
    pub music: bool,
    /// Frames seen on the instant path (music-capture pacing).
    pub tick: u64,
}

/// Whether `c` moved from `prev` by more than `delta` in some channel.
pub open spec fn moved(c: Rgb, prev: Rgb, delta: u8) -> bool {
    max_nat(max_nat(abs_diff(c.r, prev.r), abs_diff(c.g, prev.g)), abs_diff(c.b, prev.b)) > delta
}

/// Whether a color must be sent: forced, nothing sent yet, or moved past `delta`.
pub open spec fn fresh_v(last: Option<Rgb>, c: Rgb, force: bool, delta: u8) -> bool {
    force || match last {
        Some(prev) => moved(c, prev, delta),
        None => true,
    }
}

/// How many visualizer frames pass between instant sends of the music-capture
/// driver: every frame over music, else the fallback rate stretched by the number
/// of targets.
pub open spec fn send_every_v(music: bool, main: bool, bg: bool) -> nat {
    if music {
        1
    } else {
        (VIZ_FPS / FALLBACK_FPS) as nat * (if targets_v(main, bg) < 1 {
            1
        } else {
            targets_v(main, bg)
        })
    }
}

/// What a tick with targets `main`/`bg` enabled does to `d`: each newly enabled
/// target is powered on and forces a push; disabled targets lose their power state
/// so re-enabling re-powers them.
pub open spec fn power_v(d: Driver, main: bool, bg: bool) -> (PowerUp, Driver) {
    let up_main = main && !d.powered_main;
    let up_bg = bg && !d.powered_bg;
    (
        PowerUp { main: up_main, bg: up_bg, force: up_main || up_bg },
        Driver { powered_main: main, powered_bg: bg, ..d },
    )
}

/// A failed send: over music the driver falls back to the direct client and
/// forgets the last color (so the next one is resent); on the direct path the first
/// failure of a streak is reported.
pub open spec fn fail_v(d: Driver, e: String) -> (Option<String>, Driver) {
    if d.music {
        (None, Driver { music: false, last_sent: None, ..d })
    } else if !d.errored {
        (Some(e), Driver { errored: true, ..d })
    } else {
        (None, d)
    }
}

/// What the ambient driver records for color `rgb`: buffered (`None`) and sent
/// colors become the dedup reference; a success ends a failure streak.
pub open spec fn ambient_outcome_v(d: Driver, rgb: Rgb, outcome: Option<Result<(), String>>) -> (
    Option<String>,
    Driver,
) {
    match outcome {
        None => (None, Driver { last_sent: Some(rgb), ..d }),
        Some(Ok(())) => (None, Driver { last_sent: Some(rgb), errored: false, ..d }),
        Some(Err(e)) => fail_v(d, e),
    }
}

/// What the music-capture driver records for color `color`: nothing when nothing
/// was sent; a sent color becomes the dedup reference and ends a failure streak.
pub open spec fn audio_outcome_v(d: Driver, color: Rgb, outcome: Option<Result<(), String>>) -> (
    Option<String>,
    Driver,
) {
    match outcome {
        None => (None, d),
        Some(Ok(())) => (None, Driver { last_sent: Some(color), errored: false, ..d }),
        Some(Err(e)) => fail_v(d, e),
    }
}

impl Driver {
    /// A fresh driver for a sink that streams over music (`music`) or the direct client.
    pub fn new(music: bool) -> (d: Driver)
        ensures
            d == (Driver {
                last_sent: None,
                powered_main: false,
                powered_bg: false,
                errored: false,
                music,
                tick: 0,
            }),
    {
        Driver { last_sent: None, powered_main: false, powered_bg: false, errored: false, music, tick: 0 }
    }

    /// Start a tick with targets `main`/`bg` enabled (see [`power_v`]).
    pub fn power_step(&mut self, main: bool, bg: bool) -> (p: PowerUp)
        ensures
            (p, *final(self)) == power_v(*old(self), main, bg),
    {
        let up_main = main && !self.powered_main;
        let up_bg = bg && !self.powered_bg;
        self.powered_main = main;
        self.powered_bg = bg;
        PowerUp { main: up_main, bg: up_bg, force: up_main || up_bg }
    }

    /// Whether the ambient driver pushes `rgb` this tick: forced, first color, or
    /// moved by more than [`AMBIENT_DEDUP_DELTA`].
    pub fn ambient_due(&self, rgb: Rgb, force: bool) -> (b: bool)
        ensures
            b == fresh_v(self.last_sent, rgb, force, AMBIENT_DEDUP_DELTA),
    {
        force || match self.last_sent {
            Some(prev) => rgb.max_delta(prev) > AMBIENT_DEDUP_DELTA,
            None => true,
        }
    }

    /// Record a failed send (see [`fail_v`]).
    fn fail(&mut self, e: String) -> (report: Option<String>)
        ensures
            (report, *final(self)) == fail_v(*old(self), e),
    {
        if self.music {
            self.music = false;
            self.last_sent = None;
            None
        } else if !self.errored {
            self.errored = true;
            Some(e)
        } else {
            None
        }
    }

    /// Record what became of the ambient color `rgb`: `None` when it was only
    /// buffered for a flow, else the send's result. Returns the error to report, if
    /// any (see [`ambient_outcome_v`]).
    pub fn ambient_outcome(&mut self, rgb: Rgb, outcome: Option<Result<(), String>>) -> (report: Option<String>)
        ensures
            (report, *final(self)) == ambient_outcome_v(*old(self), rgb, outcome),
    {
        match outcome {
            None => {
                self.last_sent = Some(rgb);
                None
            },
            Some(Ok(())) => {
                self.last_sent = Some(rgb);
                self.errored = false;
                None
            },
            Some(Err(e)) => self.fail(e),
        }
    }

    /// On the instant (non-smooth) path of the music-capture driver: count this frame
    /// and decide whether `color` is sent now. A send is due on forced frames and every
    /// [`send_every_v`] frames; a due color is sent when forced, first, or moved by more
    /// than [`AUDIO_DEDUP_DELTA`].
    pub fn audio_due(&mut self, color: Rgb, force: bool, main: bool, bg: bool) -> (b: bool)
        ensures
            *final(self) == (Driver {
                tick: if old(self).tick == u64::MAX {
                    0
                } else {
                    (old(self).tick + 1) as u64
                },
                ..*old(self)
            }),
            b == ((force || final(self).tick as nat % send_every_v(old(self).music, main, bg) == 0)
                && fresh_v(old(self).last_sent, color, force, AUDIO_DEDUP_DELTA)),
    {
        self.tick = if self.tick == u64::MAX {
            0
        } else {
            self.tick + 1
        };
        let targets: u64 = (if main {
            1
        } else {
            0
        }) + (if bg {
            1
        } else {
            0
        });
        assert(VIZ_FPS / FALLBACK_FPS == 15);
        let send_every: u64 = if self.music {
            1
        } else {
            (VIZ_FPS / FALLBACK_FPS) * (if targets < 1 {
                1
            } else {
                targets
            })
        };
        let due = force || self.tick % send_every == 0;
        due && (force || match self.last_sent {
            Some(prev) => color.max_delta(prev) > AUDIO_DEDUP_DELTA,
            None => true,
        })
    }

    /// Record what became of the music-capture color `color`: `None` when nothing was
    /// sent this frame, else the send's result. Returns the error to report, if any
    /// (see [`audio_outcome_v`]).
    pub fn audio_outcome(&mut self, color: Rgb, outcome: Option<Result<(), String>>) -> (report: Option<String>)
        ensures
            (report, *final(self)) == audio_outcome_v(*old(self), color, outcome),
    {
        match outcome {
            None => None,
            Some(Ok(())) => {
                self.last_sent = Some(color);
                self.errored = false;
                None
            },
            Some(Err(e)) => self.fail(e),
        }
    }
}

/// Powering is idempotent: a second tick with the same targets powers nothing on and
/// forces nothing.
pub proof fn power_step_settles(d: Driver, main: bool, bg: bool)
    ensures
        power_v(power_v(d, main, bg).1, main, bg).0 == (PowerUp { main: false, bg: false, force: false }),
        power_v(power_v(d, main, bg).1, main, bg).1 == power_v(d, main, bg).1,
{
}

/// On the direct path a failure streak is reported once: a second failure in a row
/// reports nothing.
pub proof fn one_report_per_streak(d: Driver, c1: Rgb, c2: Rgb, e1: String, e2: String)
    requires
        !d.music,
    ensures
        ambient_outcome_v(d, c1, Some(Err(e1))).0 == (if d.errored {
            None
        } else {
            Some(e1)
        }),
        ambient_outcome_v(ambient_outcome_v(d, c1, Some(Err(e1))).1, c2, Some(Err(e2))).0 is None,
        audio_outcome_v(audio_outcome_v(d, c1, Some(Err(e1))).1, c2, Some(Err(e2))).0 is None,
{
}

/// A success ends a failure streak: the next direct failure is reported again.
pub proof fn success_rearms_report(d: Driver, c1: Rgb, c2: Rgb, e: String)
    requires
        !d.music,
    ensures
        ambient_outcome_v(ambient_outcome_v(d, c1, Some(Ok(()))).1, c2, Some(Err(e))).0 == Some(e),
        audio_outcome_v(audio_outcome_v(d, c1, Some(Ok(()))).1, c2, Some(Err(e))).0 == Some(e),
{
}

/// A failing music channel is dropped for the direct client, and the next color is
/// pushed whatever it is.
pub proof fn music_failure_falls_back(d: Driver, c: Rgb, e: String, next: Rgb)
    requires
        d.music,
    ensures
        !ambient_outcome_v(d, c, Some(Err(e))).1.music,
        ambient_outcome_v(d, c, Some(Err(e))).0 is None,
        fresh_v(ambient_outcome_v(d, c, Some(Err(e))).1.last_sent, next, false, AMBIENT_DEDUP_DELTA),
        !audio_outcome_v(d, c, Some(Err(e))).1.music,
        fresh_v(audio_outcome_v(d, c, Some(Err(e))).1.last_sent, next, false, AUDIO_DEDUP_DELTA),
{
}

/// On the direct path the ambient driver stays within 120 color commands a minute: a
/// tick sends at most one command per enabled target (an instant color or one flow),
/// and ticks come one period apart, 500 ms per enabled target (at least one).
pub proof fn direct_pacing_bound(c: Rgb, colors: Seq<Rgb>, step_ms: u32, caps: Caps, main: bool, bg: bool)
    ensures
        color_plan(c, caps, main, bg).len() <= targets_v(main, bg),
        flow_plan(colors, step_ms, caps, main, bg) matches Ok(cmds) ==> cmds.len() <= targets_v(main, bg),
        ambient_period_v(false, main, bg) >= 500,
        targets_v(main, bg) * 60_000 <= 120 * ambient_period_v(false, main, bg),
{
    assert(fps_v(false) == 2);
    assert(1000nat / 2nat == 500nat);
    assert(color_cmd(c, false, caps.main_rgb, caps.main_ct).len() <= 1);
    assert(color_cmd(c, true, caps.bg_rgb, caps.bg_ct).len() <= 1);
    let m = flow_cmd(colors, step_ms, false, caps.main_rgb, caps.main_ct);
    let b = flow_cmd(colors, step_ms, true, caps.bg_rgb, caps.bg_ct);
    assert(m matches Ok(x) ==> x.len() <= 1);
    assert(b matches Ok(y) ==> y.len() <= 1);
}

} // verus!
