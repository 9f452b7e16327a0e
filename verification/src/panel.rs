//! Decisions of the desktop control panel's event handling: what a finished scan
//! leads to, the bounded command log, starting ambient light, reconciling controls
//! from notifications, and the small edits of the control state.

use std::collections::VecDeque;

use vstd::prelude::*;

use crate::ambient::{default_targets, AmbientConfig, Caps, ExtractMode, Region};
use crate::client::Direction;
use crate::control::{fmt_time, fmt_time_v, FlowRow};
use crate::device::{model_name, Device, State};
use crate::text::{chars_of, dec, extend_chars, parse_uint, push_dec, string_of};

verus! {

/// Entries kept in the in-memory command log (the oldest drop off).
pub const LOG_CAP: usize = 500;

/// After a local interaction, notifications are not reconciled into the controls for
/// this long (ms), so a drag or the device echoing our own command can't yank them.
pub const SYNC_DEBOUNCE_MS: u64 = 1000;

// ----- scanning ------------------------------------------------------------------------

/// What follows a successful scan that found `n` devices.
#[derive(Debug, Clone, PartialEq, Eq)]
pub struct ScanStep {
    /// The status line.
    pub status: String,
    /// Select the first device (there is one).
    pub select_first: bool,
    /// Save the devices to the cache (never clobber a good cache with an empty result).
    pub save_cache: bool,
    /// Offer to open the discovery port (first empty scan of the session only).
    pub offer_port: bool,
    /// Whether the offer has been made this session, after this scan.
    pub asked_open: bool,
}

/// The status line after a scan that found `n` devices.
pub open spec fn found_text(n: nat) -> Seq<char> {
    dec(n) + " device(s) found"@
}

/// After a scan that found `n` devices: show the count, select the first device, cache
/// a non-empty result, and offer to open the firewall once per session when nothing
/// was found (the firewall likely dropped the replies).
pub fn scan_step(n: usize, asked_open: bool) -> (s: ScanStep)
    ensures
        s.status@ == found_text(n as nat),
        s.select_first == (n > 0),
        s.save_cache == (n > 0),
        s.offer_port == (n == 0 && !asked_open),
        s.asked_open == (asked_open || n == 0),
{
    let mut t: Vec<char> = Vec::new();
    push_dec(&mut t, n as u64);
    extend_chars(&mut t, &chars_of(" device(s) found"));
    ScanStep {
        status: string_of(&t),
        select_first: n > 0,
        save_cache: n > 0,
        offer_port: n == 0 && !asked_open,
        asked_open: asked_open || n == 0,
    }
}

/// The port offer is made at most once per session: after any scan that made it, no
/// later scan makes it again.
pub proof fn port_offer_once(asked: bool, n1: usize, n2: usize)
    ensures
        ({
            let a1 = asked || n1 == 0;
            let offer1 = n1 == 0 && !asked;
            offer1 ==> !(n2 == 0 && !a1)
        }),
{
}

/// Indices of the devices without a live connection (to connect to hear their
/// notifications), in order.
pub open spec fn unconnected_v(ids: Seq<Seq<char>>, connected: Set<Seq<char>>, k: nat) -> Seq<usize>
    decreases k,
{
    if k == 0 {
        Seq::empty()
    } else {
        let rest = unconnected_v(ids, connected, (k - 1) as nat);
        if connected.contains(ids[k - 1]) {
            rest
        } else {
            rest.push((k - 1) as usize)
        }
    }
}

/// Indices of the devices whose id is not among `connected`.
pub fn unconnected(devices: &[Device], connected: &[String]) -> (r: Vec<usize>)
    ensures
        r@ == unconnected_v(
            devices@.map_values(|d: Device| d.id@),
            connected@.map_values(|s: String| s@).to_set(),
            devices@.len(),
        ),
{
    let ghost ids = devices@.map_values(|d: Device| d.id@);
    let ghost cs = connected@.map_values(|s: String| s@);
    let mut out: Vec<usize> = Vec::new();
    let mut i: usize = 0;
    while i < devices.len()
        invariant
            i <= devices@.len(),
            ids == devices@.map_values(|d: Device| d.id@),
            cs == connected@.map_values(|s: String| s@),
            out@ == unconnected_v(ids, cs.to_set(), i as nat),
        decreases devices@.len() - i,
    {
        let id = chars_of(devices[i].id.as_str());
        let mut found = false;
        let mut k: usize = 0;
        while k < connected.len()
            invariant
                k <= connected@.len(),
                cs == connected@.map_values(|s: String| s@),
                id@ == devices@[i as int].id@,
                found == (exists|j: int| 0 <= j < k && cs[j] == id@),
            decreases connected@.len() - k,
        {
            let c = chars_of(connected[k].as_str());
            assert(cs[k as int] == c@);
            if crate::text::chars_eq(&c, &id) {
                found = true;
            }
            k = k + 1;
        }
        assert(ids[i as int] == id@);
        assert(found == cs.to_set().contains(id@)) by {
            if cs.to_set().contains(id@) {
                assert(cs.contains(id@));
            }
        }
        if !found {
            out.push(i);
        }
        i = i + 1;
    }
    out
}

// ----- the command log ------------------------------------------------------------------

/// One captured wire line for the command-log screen.
#[derive(Debug, Clone)]
pub struct LogEntry {
    /// When it was captured, in milliseconds since the Unix epoch.
    pub time_ms: u64,
    /// Device id the line belongs to.
    pub device: String,
    /// Sent or received.
    pub direction: Direction,
    /// The raw JSON line.
    pub line: String,
}

/// The arrow of a logged line: `->` for sent, `<-` for received.
pub open spec fn arrow_v(d: Direction) -> Seq<char> {
    match d {
        Direction::Sent => "->"@,
        Direction::Received => "<-"@,
    }
}

/// The log-file line of an entry: `HH:MM:SS.mmm UTC <arrow> <device> <line>`.
pub open spec fn file_line_v(e: LogEntry) -> Seq<char> {
    fmt_time_v(e.time_ms) + " UTC "@ + arrow_v(e.direction) + " "@ + e.device@ + " "@ + e.line@
}

/// The log-file line of an entry (see [`file_line_v`]).
pub fn file_line(e: &LogEntry) -> (s: String)
    ensures
        s@ == file_line_v(*e),
{
    let mut out = chars_of(fmt_time(e.time_ms).as_str());
    extend_chars(&mut out, &chars_of(" UTC "));
    let arrow = match e.direction {
        Direction::Sent => "->",
        Direction::Received => "<-",
    };
    extend_chars(&mut out, &chars_of(arrow));
    extend_chars(&mut out, &chars_of(" "));
    extend_chars(&mut out, &chars_of(e.device.as_str()));
    extend_chars(&mut out, &chars_of(" "));
    extend_chars(&mut out, &chars_of(e.line.as_str()));
    assert(out@ =~= file_line_v(*e));
    string_of(&out)
}

/// The in-memory command log: the newest [`LOG_CAP`] entries, oldest first.
#[derive(Debug)]
pub struct CommandLog {
    entries: VecDeque<LogEntry>,
    paused: bool,
}

/// The last [`LOG_CAP`] entries of `s`.
pub open spec fn keep_last(s: Seq<LogEntry>) -> Seq<LogEntry> {
    if s.len() > LOG_CAP {
        s.skip(s.len() - LOG_CAP)
    } else {
        s
    }
}

impl CommandLog {
    /// At most [`LOG_CAP`] entries are kept.
    #[verifier::type_invariant]
    spec fn inv(self) -> bool {
        self.entries@.len() <= LOG_CAP
    }

    /// The kept entries, oldest first.
    pub closed spec fn items(self) -> Seq<LogEntry> {
        self.entries@
    }

    /// Whether capture is paused.
    pub closed spec fn is_paused(self) -> bool {
        self.paused
    }

    /// Whether capture is paused.
    pub fn paused(&self) -> (b: bool)
        ensures
            b == self.is_paused(),
    {
        self.paused
    }

    /// An empty, running log.
    pub fn new() -> (l: CommandLog)
        ensures
            l.items() == Seq::<LogEntry>::empty(),
            !l.is_paused(),
    {
        CommandLog { entries: VecDeque::new(), paused: false }
    }

    /// The kept entries, oldest first.
    pub fn entries(&self) -> (e: &VecDeque<LogEntry>)
        ensures
            e@ == self.items(),
            e@.len() <= LOG_CAP,
    {
        proof {
            use_type_invariant(self);
        }
        &self.entries
    }

    /// Capture an entry unless paused, dropping the oldest past [`LOG_CAP`]. Returns
    /// whether it was captured (and so also goes to the log file).
    pub fn push(&mut self, e: LogEntry) -> (captured: bool)
        ensures
            captured == !old(self).is_paused(),
            final(self).is_paused() == old(self).is_paused(),
            final(self).items() == (if old(self).is_paused() {
                old(self).items()
            } else {
                keep_last(old(self).items().push(e))
            }),
            final(self).items().len() <= LOG_CAP,
    {
        proof {
            use_type_invariant(&*self);
        }
        if self.paused {
            return false;
        }
        let mut es: VecDeque<LogEntry> = VecDeque::new();
        std::mem::swap(&mut es, &mut self.entries);
        let ghost all = es@.push(e);
        es.push_back(e);
        if es.len() > LOG_CAP {
            let _ = es.pop_front();
            assert(es@ =~= all.skip(1));
        }
        self.entries = es;
        true
    }

    /// Forget every entry.
    pub fn clear(&mut self)
        ensures
            final(self).items() == Seq::<LogEntry>::empty(),
            final(self).is_paused() == old(self).is_paused(),
    {
        self.entries = VecDeque::new();
    }

    /// Pause or resume capture.
    pub fn toggle_pause(&mut self)
        ensures
            final(self).is_paused() == !old(self).is_paused(),
            final(self).items() == old(self).items(),
    {
        proof {
            use_type_invariant(&*self);
        }
        self.paused = !self.paused;
    }
}

/// The log only ever holds the newest entries: pushing onto a full log drops exactly
/// the oldest entry.
pub proof fn full_log_drops_oldest(items: Seq<LogEntry>, e: LogEntry)
    requires
        items.len() == LOG_CAP,
    ensures
        keep_last(items.push(e)) == items.skip(1).push(e),
        keep_last(items.push(e)).len() == LOG_CAP,
{
    assert(keep_last(items.push(e)) =~= items.skip(1).push(e));
}

// ----- ambient start ------------------------------------------------------------------

/// How ambient light starts for a device.
#[derive(Debug, Clone, Copy, PartialEq, Eq, Structural)]
pub enum AmbientPlan {
    /// Stream over the music session that is already open.
    UseMusic,
    /// Open a music session first; if that fails, fall back to the direct client
    /// (`fallback`) or give up.
    StartMusic {
        /// Whether a failed music start falls back to the direct client.
        fallback: bool,
    },
    /// Drive the bulb through the rate-limited direct client.
    Direct,
    /// The device has no color control to drive.
    Unavailable,
}

/// Whether any target has a color control.
pub open spec fn has_color(caps: Caps) -> bool {
    caps.main_rgb || caps.main_ct || caps.bg_rgb || caps.bg_ct
}

/// How ambient starts: reuse an open music session; else open one when the device
/// supports music mode (falling back to direct when any target has color control);
/// else go direct when possible.
pub open spec fn ambient_plan_v(music_open: bool, has_music: bool, caps: Caps) -> AmbientPlan {
    if music_open {
        AmbientPlan::UseMusic
    } else if has_music {
        AmbientPlan::StartMusic { fallback: has_color(caps) }
    } else if has_color(caps) {
        AmbientPlan::Direct
    } else {
        AmbientPlan::Unavailable
    }
}

/// How ambient starts (see [`ambient_plan_v`]).
pub fn ambient_plan(music_open: bool, has_music: bool, caps: Caps) -> (p: AmbientPlan)
    ensures
        p == ambient_plan_v(music_open, has_music, caps),
{
    let color = caps.main_rgb || caps.main_ct || caps.bg_rgb || caps.bg_ct;
    if music_open {
        AmbientPlan::UseMusic
    } else if has_music {
        AmbientPlan::StartMusic { fallback: color }
    } else if color {
        AmbientPlan::Direct
    } else {
        AmbientPlan::Unavailable
    }
}

/// The ambient settings a device starts with: defaults, with targets chosen for what
/// it can color (see [`default_targets`]).
pub fn seed_config(caps: Caps) -> (c: AmbientConfig)
    ensures
        c.region == Region::Whole,
        c.mode == ExtractMode::Average,
        c.monitor_id is None,
        c.smooth,
        (c.main, c.bg) == (caps.main_rgb || caps.main_ct, (caps.bg_rgb || caps.bg_ct) && !(caps.main_rgb
            || caps.main_ct)),
{
    let (main, bg) = default_targets(caps);
    AmbientConfig { region: Region::Whole, mode: ExtractMode::Average, monitor_id: None, main, bg, smooth: true }
}

// ----- reconciling controls -------------------------------------------------------------

/// Whether a notification may move the controls: not while ambient streams to the
/// device, and not within [`SYNC_DEBOUNCE_MS`] of the last local interaction
/// (`since_input_ms`, `None` when there was none).
pub fn reconcile_ok(ambient_running: bool, since_input_ms: Option<u64>) -> (b: bool)
    ensures
        b == (!ambient_running && match since_input_ms {
            Some(t) => t >= SYNC_DEBOUNCE_MS,
            None => true,
        }),
{
    !ambient_running && match since_input_ms {
        Some(t) => t >= SYNC_DEBOUNCE_MS,
        None => true,
    }
}

/// Per-device control drafts: the sliders, the color pickers (as `0xRRGGBB`) and the
/// color/temperature segment of each light.
#[derive(Debug, Clone, Copy, PartialEq, Eq, Structural)]
pub struct Drafts {
    /// Main-light color draft.
    pub main_rgb: u32,
    /// Background-light color draft.
    pub bg_rgb: u32,
    /// Main-light brightness draft.
    pub main_bright: u8,
    /// Background-light brightness draft.
    pub bg_bright: u8,
    /// Main-light temperature draft.
    pub main_ct: u16,
    /// Background-light temperature draft.
    pub bg_ct: u16,
    /// Main-light segment: `Some(true)` temperature, `Some(false)` color, `None` follow the device.
    pub main_seg: Option<bool>,
    /// Background-light segment.
    pub bg_seg: Option<bool>,
}

impl Default for Drafts {
    fn default() -> (d: Self)
        ensures
            d == (Drafts {
                main_rgb: 0xFFFFFF,
                bg_rgb: 0xFFFFFF,
                main_bright: 100,
                bg_bright: 100,
                main_ct: 4000,
                bg_ct: 4000,
                main_seg: None,
                bg_seg: None,
            }),
    {
        Drafts {
            main_rgb: 0xFFFFFF,
            bg_rgb: 0xFFFFFF,
            main_bright: 100,
            bg_bright: 100,
            main_ct: 4000,
            bg_ct: 4000,
            main_seg: None,
            bg_seg: None,
        }
    }
}

/// `old` replaced by a known value.
pub open spec fn known<T>(v: Option<T>, old: T) -> T {
    match v {
        Some(x) => x,
        None => old,
    }
}

/// The drafts after reconciling them from the device state: each known property
/// replaces its draft; a known color mode selects the segment (mode 2 = temperature).
pub open spec fn synced_v(p: Drafts, s: State) -> Drafts {
    Drafts {
        main_bright: known(s.bright, p.main_bright),
        main_ct: known(s.ct, p.main_ct),
        main_rgb: known(s.rgb, p.main_rgb),
        main_seg: match s.color_mode {
            Some(m) => Some(m == 2),
            None => p.main_seg,
        },
        bg_bright: known(s.bg_bright, p.bg_bright),
        bg_ct: known(s.bg_ct, p.bg_ct),
        bg_rgb: known(s.bg_rgb, p.bg_rgb),
        bg_seg: match s.bg_color_mode {
            Some(m) => Some(m == 2),
            None => p.bg_seg,
        },
    }
}

/// Reconcile the drafts from device state (see [`synced_v`]).
pub fn sync_drafts(p: &mut Drafts, s: &State)
    ensures
        *final(p) == synced_v(*old(p), *s),
{
    if let Some(b) = s.bright {
        p.main_bright = b;
    }
    if let Some(ct) = s.ct {
        p.main_ct = ct;
    }
    if let Some(rgb) = s.rgb {
        p.main_rgb = rgb;
    }
    if let Some(m) = s.color_mode {
        p.main_seg = Some(m == 2);
    }
    if let Some(b) = s.bg_bright {
        p.bg_bright = b;
    }
    if let Some(ct) = s.bg_ct {
        p.bg_ct = ct;
    }
    if let Some(rgb) = s.bg_rgb {
        p.bg_rgb = rgb;
    }
    if let Some(m) = s.bg_color_mode {
        p.bg_seg = Some(m == 2);
    }
}

// ----- small edits ----------------------------------------------------------------------

/// The ASCII digits of `s`, in order.
pub open spec fn digits_of(s: Seq<char>) -> Seq<char>
    decreases s.len(),
{
    if s.len() == 0 {
        Seq::empty()
    } else if '0' <= s.last() <= '9' {
        digits_of(s.drop_last()).push(s.last())
    } else {
        digits_of(s.drop_last())
    }
}

/// The scan timeout typed into the settings: its digits read as a number (0 when
/// there are none or they overflow).
pub fn timeout_from_input(s: &str) -> (t: u32)
    ensures
        t == (match parse_uint(digits_of(s@), 0xffff_ffff) {
            Some(v) => v as u32,
            None => 0,
        }),
{
    let cs = chars_of(s);
    let mut d: Vec<char> = Vec::new();
    let mut i: usize = 0;
    while i < cs.len()
        invariant
            i <= cs@.len(),
            cs@ == s@,
            d@ == digits_of(cs@.take(i as int)),
        decreases cs@.len() - i,
    {
        let c = cs[i];
        assert(cs@.take(i + 1).drop_last() == cs@.take(i as int));
        assert(cs@.take(i + 1).last() == c);
        if '0' <= c && c <= '9' {
            d.push(c);
        }
        i = i + 1;
    }
    assert(cs@.take(cs@.len() as int) == cs@);
    match crate::text::parse_u32(&d) {
        Some(v) => v,
        None => 0,
    }
}

/// The name a rename starts from: the device's name when set and non-empty, else its
/// model name.
pub fn rename_start(d: &Device) -> (s: String)
    ensures
        s@ == (match d.state.name {
            Some(n) if n@.len() > 0 => n@,
            _ => model_name(d.model@),
        }),
{
    if let Some(n) = &d.state.name {
        if chars_of(n.as_str()).len() > 0 {
            return n.clone();
        }
    }
    d.model.name()
}

/// A new row for the custom flow editor: the default color step, or a 4000 K
/// temperature step on a light that can only do temperature.
pub fn new_flow_row(temp_only: bool) -> (r: FlowRow)
    ensures
        r.duration@ == "1000"@,
        r.bright@ == "100"@,
        temp_only ==> r.mode == 2 && r.value@ == "4000"@,
        !temp_only ==> r.mode == 1 && r.value@ == "16711680"@,
{
    let mut r = FlowRow::default();
    if temp_only {
        r.mode = 2;
        r.value = "4000".to_string();
    }
    r
}

} // verus!
