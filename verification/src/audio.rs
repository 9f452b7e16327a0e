//! Music-capture helpers: the color modes, the bar-count bounds, and the ranking of
//! capture devices by name.
//!
//! Audio capture and spectrum analysis (floating point) live outside the library.

use vstd::prelude::*;

use crate::text::{has_infix, str_contains};

verus! {

/// How the audio drives the bulb's single color.
#[derive(Debug, Clone, Copy, PartialEq, Eq, Structural)]
pub enum MusicMode {
    /// Bass → red, mids → green, treble → blue. Loudness sets each channel.
    Spectrum,
    /// Overall energy pulses a warm white to the beat (single hue).
    Pulse,
    /// Spectral centroid (pitch) → hue; energy → brightness. Follows the melody.
    Rainbow,
    /// Energy → brightness; hue steps on every detected beat (party cycle).
    Vu,
}

impl Default for MusicMode {
    fn default() -> (m: Self)
        ensures
            m == MusicMode::Spectrum,
    {
        MusicMode::Spectrum
    }
}

/// The label of a music mode (also its chip label).
pub open spec fn music_mode_name(m: MusicMode) -> Seq<char> {
    match m {
        MusicMode::Spectrum => "Spectrum"@,
        MusicMode::Pulse => "Pulse"@,
        MusicMode::Rainbow => "Rainbow"@,
        MusicMode::Vu => "VU"@,
    }
}

impl MusicMode {
    /// All variants, in display order.
    pub fn all() -> (v: Vec<MusicMode>)
        ensures
            v@ == seq![MusicMode::Spectrum, MusicMode::Pulse, MusicMode::Rainbow, MusicMode::Vu],
    {
        vec![MusicMode::Spectrum, MusicMode::Pulse, MusicMode::Rainbow, MusicMode::Vu]
    }

    /// The label shown in the mode picker.
    pub fn name(self) -> (s: &'static str)
        ensures
            s@ == music_mode_name(self),
    {
        mode_label(self)
    }
}

/// Short label for a music mode's segment chip.
pub fn mode_label(m: MusicMode) -> (s: &'static str)
    ensures
        s@ == music_mode_name(m),
{
    match m {
        MusicMode::Spectrum => "Spectrum",
        MusicMode::Pulse => "Pulse",
        MusicMode::Rainbow => "Rainbow",
        MusicMode::Vu => "VU",
    }
}

/// Default number of spectrum bars.
pub const NUM_BARS: usize = 24;

/// Fewest spectrum bars the analyzer accepts.
pub const MIN_BARS: usize = 8;

/// Most spectrum bars the analyzer accepts.
pub const MAX_BARS: usize = 48;

/// Clamp a requested bar count into `MIN_BARS..=MAX_BARS` (guards degenerate bands
/// and a corrupt persisted config).
pub fn clamp_bars(n: usize) -> (b: usize)
    ensures
        b == (if n < MIN_BARS {
            MIN_BARS
        } else if n > MAX_BARS {
            MAX_BARS
        } else {
            n
        }),
        MIN_BARS <= b <= MAX_BARS,
        MIN_BARS <= n <= MAX_BARS ==> b == n,
{
    if n < MIN_BARS {
        MIN_BARS
    } else if n > MAX_BARS {
        MAX_BARS
    } else {
        n
    }
}

/// Clamping a bar count twice changes nothing more.
pub proof fn clamp_bars_idempotent(n: usize)
    ensures
        ({
            let c = if n < MIN_BARS {
                MIN_BARS
            } else if n > MAX_BARS {
                MAX_BARS
            } else {
                n
            };
            (if c < MIN_BARS {
                MIN_BARS
            } else if c > MAX_BARS {
                MAX_BARS
            } else {
                c
            }) == c
        }),
{
}

/// A useless null capture device (opens fine but only yields zero samples), by its
/// lowercase name.
pub open spec fn null_device_v(name: Seq<char>) -> bool {
    has_infix(name, "discard all samples"@) || has_infix(name, "generate zero"@)
}

/// Whether the lowercase device name `name` is a useless null capture device.
pub fn is_null_device(name: &str) -> (b: bool)
    ensures
        b == null_device_v(name@),
{
    str_contains(name, "discard all samples") || str_contains(name, "generate zero")
}

/// The name fragments that mark a plugin or pseudo capture device.
pub open spec fn pseudo_markers() -> Seq<Seq<char>> {
    seq![
        "rate converter"@,
        "resampler"@,
        "plugin using"@,
        "plugin for"@,
        "upmix"@,
        "downmix"@,
        "speex"@,
        "jack audio"@,
        "open sound system"@,
        "default alsa"@,
        "surround"@,
    ]
}

/// A plugin / pseudo-device (resampler, effects, mixdown, JACK/OSS bridge, the
/// "default" alias) or a null device, by its lowercase name.
pub open spec fn pseudo_device_v(name: Seq<char>) -> bool {
    null_device_v(name) || exists|i: int|
        0 <= i < pseudo_markers().len() && has_infix(name, #[trigger] pseudo_markers()[i])
}

/// Whether the lowercase device name `name` is a plugin or pseudo device. These often
/// open but deliver flaky, resampled, or silent audio, so they're a last resort.
pub fn is_pseudo_device(name: &str) -> (b: bool)
    ensures
        b == pseudo_device_v(name@),
{
    if is_null_device(name) {
        return true;
    }
    let markers: Vec<&str> = vec![
        "rate converter",
        "resampler",
        "plugin using",
        "plugin for",
        "upmix",
        "downmix",
        "speex",
        "jack audio",
        "open sound system",
        "default alsa",
        "surround",
    ];
    assert(markers@.map_values(|m: &str| m@) =~= pseudo_markers());
    let mut i: usize = 0;
    while i < markers.len()
        invariant
            i <= markers@.len(),
            markers@.map_values(|m: &str| m@) == pseudo_markers(),
            forall|j: int| 0 <= j < i ==> !has_infix(name@, #[trigger] pseudo_markers()[j]),
        decreases markers@.len() - i,
    {
        assert(markers@[i as int]@ == pseudo_markers()[i as int]);
        if str_contains(name, markers[i]) {
            return true;
        }
        i = i + 1;
    }
    false
}

/// Lowercase of `s` as std's `str::to_lowercase` gives it (Unicode case mapping).
pub uninterp spec fn lowercase_v(s: Seq<char>) -> Seq<char>;

/// Lowercase of `s` (std `str::to_lowercase`).
///
/// Trusted: the result is named; Unicode lowercasing depends on its argument only.
#[verifier::external_body]
fn lowercase(s: &str) -> (r: String)
    ensures
        r@ == lowercase_v(s@),
{
    s.to_lowercase()
}

/// A capture device to try.
#[derive(Debug, Clone, Copy, PartialEq, Eq, Structural)]
pub enum Candidate {
    /// The listed input device at this index.
    Listed(usize),
    /// The host's declared default input device.
    Default,
}

/// A sound server (PipeWire or PulseAudio), by its lowercase name.
pub open spec fn server_v(name: Seq<char>) -> bool {
    has_infix(name, "pipewire"@) || has_infix(name, "pulse"@)
}

/// Which preference class (0 server, 2 real hardware, 3 usable plugin; none for a null
/// device) a lowercase device name falls in.
pub open spec fn class_v(name: Seq<char>) -> Option<nat> {
    if server_v(name) {
        Some(0)
    } else if !pseudo_device_v(name) {
        Some(2)
    } else if !null_device_v(name) {
        Some(3)
    } else {
        None
    }
}

/// The listed devices among the first `k` whose lowercase name is in class `c`, in order.
pub open spec fn listed_in(names: Seq<Seq<char>>, k: nat, c: nat) -> Seq<Candidate>
    decreases k,
{
    if k == 0 {
        Seq::empty()
    } else {
        let rest = listed_in(names, (k - 1) as nat, c);
        if class_v(lowercase_v(names[k - 1])) == Some(c) {
            rest.push(Candidate::Listed((k - 1) as usize))
        } else {
            rest
        }
    }
}

/// The listed devices among the first `k` named exactly `want`, in order.
pub open spec fn listed_named(names: Seq<Seq<char>>, k: nat, want: Seq<char>) -> Seq<Candidate>
    decreases k,
{
    if k == 0 {
        Seq::empty()
    } else {
        let rest = listed_named(names, (k - 1) as nat, want);
        if names[k - 1] == want {
            rest.push(Candidate::Listed((k - 1) as usize))
        } else {
            rest
        }
    }
}

/// Capture devices to try, in preference order: an explicit pick alone (every listed
/// device of that exact name); otherwise sound servers first, then the host's
/// default input, then real hardware, then plugin devices, never null devices.
pub open spec fn candidates_v(names: Seq<Seq<char>>, has_default: bool, input: Option<Seq<char>>) -> Seq<Candidate> {
    match input {
        Some(want) => listed_named(names, names.len(), want),
        None => listed_in(names, names.len(), 0) + (if has_default {
            seq![Candidate::Default]
        } else {
            Seq::empty()
        }) + listed_in(names, names.len(), 2) + listed_in(names, names.len(), 3),
    }
}

/// The class of a device name (see [`class_v`]).
fn class_of(name: &str) -> (c: Option<u8>)
    ensures
        match class_v(lowercase_v(name@)) {
            Some(k) => c == Some(k as u8),
            None => c is None,
        },
{
    let low = lowercase(name);
    let n = low.as_str();
    if str_contains(n, "pipewire") || str_contains(n, "pulse") {
        Some(0)
    } else if !is_pseudo_device(n) {
        Some(2)
    } else if !is_null_device(n) {
        Some(3)
    } else {
        None
    }
}

/// The listed devices of class `c` (see [`listed_in`]).
fn collect_class(names: &[String], c: u8, out: &mut Vec<Candidate>)
    requires
        c == 0 || c == 2 || c == 3,
    ensures
        final(out)@ == old(out)@ + listed_in(names@.map_values(|s: String| s@), names@.len(), c as nat),
{
    let ghost ns = names@.map_values(|s: String| s@);
    let ghost start = out@;
    let mut i: usize = 0;
    while i < names.len()
        invariant
            i <= names@.len(),
            ns == names@.map_values(|s: String| s@),
            c == 0 || c == 2 || c == 3,
            out@ == start + listed_in(ns, i as nat, c as nat),
        decreases names@.len() - i,
    {
        let k = class_of(names[i].as_str());
        assert(ns[i as int] == names@[i as int]@);
        if k == Some(c) {
            out.push(Candidate::Listed(i));
        }
        i = i + 1;
        assert(out@ =~= start + listed_in(ns, i as nat, c as nat));
    }
}

/// Capture devices to try, in preference order (see [`candidates_v`]): `names` are
/// the listed input devices' names, `has_default` whether the host declares a
/// default input, `input` the user's explicit pick.
pub fn candidate_order(names: &[String], has_default: bool, input: Option<&str>) -> (r: Vec<Candidate>)
    ensures
        r@ == candidates_v(
            names@.map_values(|s: String| s@),
            has_default,
            match input {
                Some(s) => Some(s@),
                None => None,
            },
        ),
{
    let ghost ns = names@.map_values(|s: String| s@);
    let mut out: Vec<Candidate> = Vec::new();
    match input {
        Some(want) => {
            let w = crate::text::chars_of(want);
            let mut i: usize = 0;
            while i < names.len()
                invariant
                    i <= names@.len(),
                    ns == names@.map_values(|s: String| s@),
                    w@ == want@,
                    out@ == listed_named(ns, i as nat, want@),
                decreases names@.len() - i,
            {
                let n = crate::text::chars_of(names[i].as_str());
                assert(ns[i as int] == names@[i as int]@);
                if crate::text::chars_eq(&n, &w) {
                    out.push(Candidate::Listed(i));
                }
                i = i + 1;
            }
        },
        None => {
            collect_class(names, 0, &mut out);
            if has_default {
                out.push(Candidate::Default);
            }
            collect_class(names, 2, &mut out);
            collect_class(names, 3, &mut out);
            assert(out@ =~= candidates_v(ns, has_default, None));
        },
    }
    out
}

} // verus!
