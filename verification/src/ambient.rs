//! Ambient screen light: reduce a captured frame region to one color, and the
//! pure helpers that turn colors into device commands.
//!
//! Capture itself (platform screen grabbing) and the timing loop live outside the
//! library; everything here is a function of plain values.

use vstd::prelude::*;
use vstd::arithmetic::power2::is_pow2;

use crate::commands::{render_v, Effect, FlowAction, FlowExpr, FlowTuple, Request};
use crate::error::Result;
use crate::json::{items_v, str_v, uint_v, JsonV};

verus! {

/// An 8-bit RGB color.
#[derive(Debug, Clone, Copy, PartialEq, Eq, Structural)]
pub struct Rgb {
    /// Red.
    pub r: u8,
    /// Green.
    pub g: u8,
    /// Blue.
    pub b: u8,
}

/// The packed `0xRRGGBB` value of a color.
pub open spec fn rgb_u32(c: Rgb) -> nat {
    c.r as nat * 0x10000 + c.g as nat * 0x100 + c.b as nat
}

/// The larger of two naturals.
pub open spec fn max_nat(a: nat, b: nat) -> nat {
    if a >= b {
        a
    } else {
        b
    }
}

/// `|a - b|` for two bytes.
pub open spec fn abs_diff(a: u8, b: u8) -> nat {
    if a >= b {
        (a - b) as nat
    } else {
        (b - a) as nat
    }
}

impl Default for Rgb {
    fn default() -> (c: Self)
        ensures
            c == Rgb::black_v(),
    {
        Rgb::black()
    }
}

impl Rgb {
    /// Black.
    pub open spec fn black_v() -> Rgb {
        Rgb { r: 0, g: 0, b: 0 }
    }

    /// Black.
    pub fn black() -> (c: Rgb)
        ensures
            c == Rgb::black_v(),
    {
        Rgb { r: 0, g: 0, b: 0 }
    }

    /// Pack into `0xRRGGBB` for the device protocol.
    pub fn to_u32(self) -> (v: u32)
        ensures
            v == rgb_u32(self),
            v <= 0xff_ffff,
    {
        (self.r as u32) * 0x10000 + (self.g as u32) * 0x100 + (self.b as u32)
    }

    /// Max per-channel absolute difference to `other` (for send-dedup).
    pub fn max_delta(self, other: Rgb) -> (d: u8)
        ensures
            d == max_nat(
                max_nat(abs_diff(self.r, other.r), abs_diff(self.g, other.g)),
                abs_diff(self.b, other.b),
            ),
    {
        let dr = if self.r >= other.r {
            self.r - other.r
        } else {
            other.r - self.r
        };
        let dg = if self.g >= other.g {
            self.g - other.g
        } else {
            other.g - self.g
        };
        let db = if self.b >= other.b {
            self.b - other.b
        } else {
            other.b - self.b
        };
        let m = if dr >= dg {
            dr
        } else {
            dg
        };
        if m >= db {
            m
        } else {
            db
        }
    }
}

/// Which slice of the screen feeds the bulb.
#[derive(Debug, Clone, Copy, PartialEq, Eq, Structural)]
pub enum Region {
    /// The whole captured frame.
    Whole,
    /// Top band, full width.
    Top,
    /// Bottom band, full width.
    Bottom,
    /// Left band, full height.
    Left,
    /// Right band, full height.
    Right,
}

impl Default for Region {
    fn default() -> (r: Self)
        ensures
            r == Region::Whole,
    {
        Region::Whole
    }
}

impl Region {
    /// The label shown in the region picker.
    pub fn name(self) -> (s: &'static str)
        ensures
            s@ == region_name(self),
    {
        match self {
            Region::Whole => "Whole screen",
            Region::Top => "Top",
            Region::Bottom => "Bottom",
            Region::Left => "Left",
            Region::Right => "Right",
        }
    }
}

/// The picker label of a region.
pub open spec fn region_name(r: Region) -> Seq<char> {
    match r {
        Region::Whole => "Whole screen"@,
        Region::Top => "Top"@,
        Region::Bottom => "Bottom"@,
        Region::Left => "Left"@,
        Region::Right => "Right"@,
    }
}

/// How the region's pixels collapse to one color.
#[derive(Debug, Clone, Copy, PartialEq, Eq, Structural)]
pub enum ExtractMode {
    /// Mean of all pixels.
    Average,
    /// Most common quantized color.
    Dominant,
    /// Mean, then saturation boosted.
    AverageSaturated,
}

impl Default for ExtractMode {
    fn default() -> (m: Self)
        ensures
            m == ExtractMode::Average,
    {
        ExtractMode::Average
    }
}

/// The picker label of an extraction mode.
pub open spec fn mode_name(m: ExtractMode) -> Seq<char> {
    match m {
        ExtractMode::Average => "Average"@,
        ExtractMode::Dominant => "Dominant"@,
        ExtractMode::AverageSaturated => "Average + saturation"@,
    }
}

/// The short chip label of an extraction mode.
pub open spec fn ext_label_v(m: ExtractMode) -> Seq<char> {
    match m {
        ExtractMode::Average => "Average"@,
        ExtractMode::Dominant => "Dominant"@,
        ExtractMode::AverageSaturated => "Saturated"@,
    }
}

impl ExtractMode {
    /// All variants, in display order.
    pub fn all() -> (v: Vec<ExtractMode>)
        ensures
            v@ == seq![ExtractMode::Average, ExtractMode::Dominant, ExtractMode::AverageSaturated],
    {
        vec![ExtractMode::Average, ExtractMode::Dominant, ExtractMode::AverageSaturated]
    }

    /// The label shown in the mode picker.
    pub fn name(self) -> (s: &'static str)
        ensures
            s@ == mode_name(self),
    {
        match self {
            ExtractMode::Average => "Average",
            ExtractMode::Dominant => "Dominant",
            ExtractMode::AverageSaturated => "Average + saturation",
        }
    }
}

/// Short label for an extraction mode's segment chip ("Average + saturation"
/// shortens to "Saturated" so the chip row stays compact).
pub fn ext_label(m: ExtractMode) -> (s: &'static str)
    ensures
        s@ == ext_label_v(m),
{
    match m {
        ExtractMode::Average => "Average",
        ExtractMode::Dominant => "Dominant",
        ExtractMode::AverageSaturated => "Saturated",
    }
}

// ----- frame geometry ---------------------------------------------------------

/// The spacing of single-precision floats around `d`: 1 below 2^24, doubling with
/// each further bit of `d`.
pub open spec fn single_ulp(d: nat) -> nat
    decreases d,
{
    if d < 0x100_0000 {
        1
    } else {
        2 * single_ulp(d / 2)
    }
}

/// `n / d` rounded to the nearest integer, ties to even.
pub open spec fn div_round_even(n: nat, d: nat) -> nat {
    let q = n / d;
    let r = n % d;
    if 2 * r > d || (2 * r == d && q % 2 == 1) {
        q + 1
    } else {
        q
    }
}

/// The single-precision float nearest to `d` (ties to even), as an integer.
pub open spec fn to_single(d: nat) -> nat {
    div_round_even(d, single_ulp(d)) * single_ulp(d)
}

/// Depth of an edge band across a dimension of `dim` pixels: a quarter of the
/// dimension (computed in single precision and truncated), at least 1 pixel and at
/// most the whole dimension.
pub open spec fn band_v(dim: u32) -> u32 {
    let q = to_single(dim as nat) / 4;
    let m = if q < 1 {
        1
    } else {
        q
    };
    if m > dim {
        dim
    } else {
        m as u32
    }
}

/// The sub-rectangle `(x, y, w, h)` of a `w`×`h` frame that `region` selects.
pub open spec fn crop_v(region: Region, w: u32, h: u32) -> (u32, u32, u32, u32) {
    match region {
        Region::Whole => (0, 0, w, h),
        Region::Top => (0, 0, w, band_v(h)),
        Region::Bottom => (0, (h - band_v(h)) as u32, w, band_v(h)),
        Region::Left => (0, 0, band_v(w), h),
        Region::Right => ((w - band_v(w)) as u32, 0, band_v(w), h),
    }
}

/// `d` rounded to the nearest single-precision float (ties to even).
fn to_single_u64(d: u64) -> (r: u64)
    requires
        d <= 0xffff_ffff_ffff,
    ensures
        r == to_single(d as nat),
        r <= 2 * d + 1,
{
    let mut u: u64 = 1;
    let mut t: u64 = d;
    while t >= 0x100_0000
        invariant
            1 <= u <= 0x200_0000,
            u * t <= d,
            d <= 0xffff_ffff_ffff,
            single_ulp(d as nat) == u * single_ulp(t as nat),
            u > 1 ==> u <= d,
        decreases t,
    {
        let ghost t0 = t;
        let ghost u0 = u;
        assert(single_ulp(t0 as nat) == 2 * single_ulp((t0 / 2) as nat));
        assert(u0 <= 0x100_0000) by (nonlinear_arith)
            requires
                t0 >= 0x100_0000,
                u0 * t0 <= d,
                d <= 0xffff_ffff_ffff,
                u0 >= 1,
        ;
        t = t / 2;
        u = u * 2;
        assert(u * t <= u0 * t0) by (nonlinear_arith)
            requires
                u == 2 * u0,
                t == t0 / 2,
        ;
        assert(u <= d) by (nonlinear_arith)
            requires
                u == 2 * u0,
                t0 >= 0x100_0000,
                u0 * t0 <= d,
        ;
        assert(u0 * (2 * single_ulp(t as nat)) == u * single_ulp(t as nat)) by (nonlinear_arith)
            requires
                u == 2 * u0,
        ;
    }
    assert(single_ulp(t as nat) == 1);
    assert(single_ulp(d as nat) == u) by (nonlinear_arith)
        requires
            single_ulp(d as nat) == u * single_ulp(t as nat),
            single_ulp(t as nat) == 1,
    ;
    let q = d / u;
    let r = d % u;
    let q2 = if 2 * r > u || (2 * r == u && q % 2 == 1) {
        q + 1
    } else {
        q
    };
    assert(q * u <= d) by (nonlinear_arith)
        requires
            q == d / u,
            u >= 1,
    ;
    assert(q2 * u <= d + u) by (nonlinear_arith)
        requires
            q2 <= q + 1,
            q * u <= d,
    ;
    q2 * u
}

/// Edge-band depth across `dim` pixels (see [`band_v`]).
fn band(dim: u32) -> (b: u32)
    ensures
        b == band_v(dim),
{
    let q = to_single_u64(dim as u64) / 4;
    let m = if q < 1 {
        1
    } else {
        q
    };
    if m > dim as u64 {
        dim
    } else {
        m as u32
    }
}

/// The `(x, y, w, h)` sub-rectangle of a `w`×`h` frame selected by `region`.
/// Edge bands are a quarter of the perpendicular dimension (min 1px).
pub fn crop_bounds(region: Region, w: u32, h: u32) -> (r: (u32, u32, u32, u32))
    ensures
        r == crop_v(region, w, h),
        r.0 + r.2 <= w,
        r.1 + r.3 <= h,
{
    match region {
        Region::Whole => (0, 0, w, h),
        Region::Top => (0, 0, w, band(h)),
        Region::Bottom => {
            let b = band(h);
            (0, h - b, w, b)
        },
        Region::Left => (0, 0, band(w), h),
        Region::Right => {
            let b = band(w);
            (w - b, 0, b, h)
        },
    }
}

// ----- pixel scans ----------------------------------------------------------------

/// Byte offset of pixel `(row, col)` in a frame with row pitch `stride` and 4 bytes
/// per pixel.
pub open spec fn px_at(stride: nat, row: nat, col: nat) -> nat {
    row * stride + col * 4
}

/// Whether a pixel at byte offset `i` has its red, green and blue bytes inside a
/// buffer of `len` bytes.
pub open spec fn px_in(len: nat, i: nat) -> bool {
    i + 2 < len
}

/// Sum of channel byte `ch` (0 red, 1 green, 2 blue) over the first `k` pixels of
/// `row` from column `x`; pixels outside the buffer count for nothing.
pub open spec fn row_sum(buf: Seq<u8>, stride: nat, row: nat, x: nat, k: nat, ch: nat) -> nat
    decreases k,
{
    if k == 0 {
        0
    } else {
        let i = px_at(stride, row, (x + k - 1) as nat);
        row_sum(buf, stride, row, x, (k - 1) as nat, ch) + if px_in(buf.len(), i) {
            buf[(i + ch) as int] as nat
        } else {
            0
        }
    }
}

/// Number of the first `k` pixels of `row` from column `x` that lie inside a
/// buffer of `len` bytes.
pub open spec fn row_count(len: nat, stride: nat, row: nat, x: nat, k: nat) -> nat
    decreases k,
{
    if k == 0 {
        0
    } else {
        row_count(len, stride, row, x, (k - 1) as nat) + if px_in(
            len,
            px_at(stride, row, (x + k - 1) as nat),
        ) {
            1nat
        } else {
            0nat
        }
    }
}

/// Sum of channel `ch` over the first `j` rows (from `y`) of the `w`-wide strip at `x`.
pub open spec fn area_sum(
    buf: Seq<u8>,
    stride: nat,
    y: nat,
    j: nat,
    x: nat,
    w: nat,
    ch: nat,
) -> nat
    decreases j,
{
    if j == 0 {
        0
    } else {
        area_sum(buf, stride, y, (j - 1) as nat, x, w, ch) + row_sum(
            buf,
            stride,
            (y + j - 1) as nat,
            x,
            w,
            ch,
        )
    }
}

/// Number of pixels inside the buffer among the first `j` rows (from `y`) of the
/// `w`-wide strip at `x`.
pub open spec fn area_count(len: nat, stride: nat, y: nat, j: nat, x: nat, w: nat) -> nat
    decreases j,
{
    if j == 0 {
        0
    } else {
        area_count(len, stride, y, (j - 1) as nat, x, w) + row_count(
            len,
            stride,
            (y + j - 1) as nat,
            x,
            w,
        )
    }
}

/// The mean color of the pixels of rectangle `b = (x, y, w, h)` that lie inside
/// `buf` (truncated per channel), black when there are none.
pub open spec fn average_v(buf: Seq<u8>, stride: nat, b: (u32, u32, u32, u32)) -> Rgb {
    let n = area_count(buf.len(), stride, b.1 as nat, b.3 as nat, b.0 as nat, b.2 as nat);
    if n == 0 {
        Rgb::black_v()
    } else {
        Rgb {
            r: (area_sum(buf, stride, b.1 as nat, b.3 as nat, b.0 as nat, b.2 as nat, 0) / n) as u8,
            g: (area_sum(buf, stride, b.1 as nat, b.3 as nat, b.0 as nat, b.2 as nat, 1) / n) as u8,
            b: (area_sum(buf, stride, b.1 as nat, b.3 as nat, b.0 as nat, b.2 as nat, 2) / n) as u8,
        }
    }
}

/// The scan of rectangle `b` over a frame with pitch `stride` stays within the
/// machine's integers: row and column ends fit in `u32`, and every byte offset the
/// scan computes fits in `usize`.
pub open spec fn scan_fits(stride: nat, b: (u32, u32, u32, u32)) -> bool {
    &&& b.1 + b.3 <= u32::MAX
    &&& b.3 > 0 ==> b.0 + b.2 <= u32::MAX
    &&& b.3 > 0 ==> (b.1 + b.3 - 1) * stride + (if b.2 > 0 {
        (b.0 + b.2 - 1) * 4 + 2
    } else {
        0
    }) <= usize::MAX
}

/// The quantization bin (2 bits per channel, red high) of the pixel at offset `i`.
pub open spec fn bin_of(buf: Seq<u8>, i: nat) -> nat {
    (buf[i as int] / 64) as nat * 16 + (buf[i + 1int] / 64) as nat * 4 + (buf[i + 2int] / 64) as nat
}

/// Number of the first `k` pixels of `row` from `x` inside the buffer whose bin is `bn`.
pub open spec fn row_bin(buf: Seq<u8>, stride: nat, row: nat, x: nat, k: nat, bn: nat) -> nat
    decreases k,
{
    if k == 0 {
        0
    } else {
        let i = px_at(stride, row, (x + k - 1) as nat);
        row_bin(buf, stride, row, x, (k - 1) as nat, bn) + if px_in(buf.len(), i) && bin_of(buf, i)
            == bn {
            1nat
        } else {
            0nat
        }
    }
}

/// Number of pixels in bin `bn` among the first `j` rows (from `y`) of the strip.
pub open spec fn area_bin(
    buf: Seq<u8>,
    stride: nat,
    y: nat,
    j: nat,
    x: nat,
    w: nat,
    bn: nat,
) -> nat
    decreases j,
{
    if j == 0 {
        0
    } else {
        area_bin(buf, stride, y, (j - 1) as nat, x, w, bn) + row_bin(
            buf,
            stride,
            (y + j - 1) as nat,
            x,
            w,
            bn,
        )
    }
}

/// Pixel counts of the 64 bins over rectangle `b`.
pub open spec fn bin_counts(buf: Seq<u8>, stride: nat, b: (u32, u32, u32, u32)) -> Seq<nat> {
    Seq::new(
        64,
        |bn: int| area_bin(buf, stride, b.1 as nat, b.3 as nat, b.0 as nat, b.2 as nat, bn as nat),
    )
}

/// Index of the last maximum among the first `n` counts (the first index when
/// `n <= 1`).
pub open spec fn last_max(s: Seq<nat>, n: nat) -> nat
    decreases n,
{
    if n <= 1 {
        0
    } else {
        let m = last_max(s, (n - 1) as nat);
        if s[n - 1] >= s[m as int] {
            (n - 1) as nat
        } else {
            m
        }
    }
}

/// The center value of 2-bit quantization level `level`.
pub open spec fn bin_center(level: nat) -> u8 {
    (level * 64 + 32) as u8
}

/// The center color of the most populated bin over rectangle `b` (the last such
/// bin on ties).
pub open spec fn dominant_v(buf: Seq<u8>, stride: nat, b: (u32, u32, u32, u32)) -> Rgb {
    let best = last_max(bin_counts(buf, stride, b), 64);
    Rgb { r: bin_center(best / 16), g: bin_center((best / 4) % 4), b: bin_center(best % 4) }
}

/// Offset of pixel `(row, col)` of a scan that [`scan_fits`] stays in range.
proof fn lemma_offset_fits(stride: nat, b: (u32, u32, u32, u32), row: nat, col: nat)
    requires
        scan_fits(stride, b),
        b.1 <= row < b.1 + b.3,
        b.0 <= col < b.0 + b.2,
    ensures
        row * stride <= (b.1 + b.3 - 1) * stride,
        px_at(stride, row, col) + 2 <= usize::MAX,
{
    assert(row * stride <= (b.1 + b.3 - 1) * stride) by (nonlinear_arith)
        requires
            row <= b.1 + b.3 - 1,
    ;
}

/// Row offset `row * stride` of a scan that [`scan_fits`] stays in range.
proof fn lemma_row_fits(stride: nat, b: (u32, u32, u32, u32), row: nat)
    requires
        scan_fits(stride, b),
        b.1 <= row < b.1 + b.3,
    ensures
        row * stride <= usize::MAX,
{
    assert(row * stride <= (b.1 + b.3 - 1) * stride) by (nonlinear_arith)
        requires
            row <= b.1 + b.3 - 1,
    ;
}

/// `a * w + c + 1 <= h * w` for a position `(a, c)` inside an `h`-by-`w` grid.
proof fn lemma_grid_index(a: nat, c: nat, w: nat, h: nat)
    requires
        a < h,
        c < w,
    ensures
        a * w + c + 1 <= h * w,
        a * w + c + 1 <= w * h,
{
    assert(a * w + c + 1 <= h * w) by (nonlinear_arith)
        requires
            a < h,
            c < w,
    ;
    assert(h * w == w * h) by (nonlinear_arith);
}

/// Mean RGB over the cropped region of a packed-RGBA buffer (row pitch `stride`
/// bytes, 4 bytes per pixel, alpha ignored). Pixels past the buffer end are skipped.
#[verifier::rlimit(40)]
#[verifier::spinoff_prover]
pub fn average_rgba(buf: &[u8], stride: usize, bounds: (u32, u32, u32, u32)) -> (c: Rgb)
    requires
        scan_fits(stride as nat, bounds),
        bounds.2 as nat * bounds.3 as nat <= 0xff_ffff_ffff_ffff,
    ensures
        c == average_v(buf@, stride as nat, bounds),
{
    let (x, y, w, h) = bounds;
    let ghost st = stride as nat;
    let mut sr: u64 = 0;
    let mut sg: u64 = 0;
    let mut sb: u64 = 0;
    let mut n: u64 = 0;
    let end_row: u32 = y + h;
    let mut row: u32 = y;
    while row < end_row
        invariant
            bounds == (x, y, w, h),
            st == stride as nat,
            scan_fits(st, bounds),
            w as nat * h as nat <= 0xff_ffff_ffff_ffff,
            end_row == y + h,
            y <= row <= end_row,
            sr == area_sum(buf@, st, y as nat, (row - y) as nat, x as nat, w as nat, 0),
            sg == area_sum(buf@, st, y as nat, (row - y) as nat, x as nat, w as nat, 1),
            sb == area_sum(buf@, st, y as nat, (row - y) as nat, x as nat, w as nat, 2),
            n == area_count(buf@.len(), st, y as nat, (row - y) as nat, x as nat, w as nat),
            sr <= 255 * n,
            sg <= 255 * n,
            sb <= 255 * n,
            n <= (row - y) * w,
        decreases end_row - row,
    {
        proof {
            lemma_row_fits(st, bounds, row as nat);
        }
        let base: usize = row as usize * stride;
        let end_col: u32 = x + w;
        let mut col: u32 = x;
        let ghost j = (row - y) as nat;
        while col < end_col
            invariant
                bounds == (x, y, w, h),
                st == stride as nat,
                scan_fits(st, bounds),
                w as nat * h as nat <= 0xff_ffff_ffff_ffff,
                y <= row < y + h,
                j == row - y,
                end_col == x + w,
                x <= col <= end_col,
                base as int == row as int * stride as int,
                sr == area_sum(buf@, st, y as nat, j, x as nat, w as nat, 0) + row_sum(
                    buf@,
                    st,
                    row as nat,
                    x as nat,
                    (col - x) as nat,
                    0,
                ),
                sg == area_sum(buf@, st, y as nat, j, x as nat, w as nat, 1) + row_sum(
                    buf@,
                    st,
                    row as nat,
                    x as nat,
                    (col - x) as nat,
                    1,
                ),
                sb == area_sum(buf@, st, y as nat, j, x as nat, w as nat, 2) + row_sum(
                    buf@,
                    st,
                    row as nat,
                    x as nat,
                    (col - x) as nat,
                    2,
                ),
                n == area_count(buf@.len(), st, y as nat, j, x as nat, w as nat) + row_count(
                    buf@.len(),
                    st,
                    row as nat,
                    x as nat,
                    (col - x) as nat,
                ),
                sr <= 255 * n,
                sg <= 255 * n,
                sb <= 255 * n,
                n <= j * w + (col - x),
            decreases end_col - col,
        {
            proof {
                lemma_offset_fits(st, bounds, row as nat, col as nat);
                lemma_grid_index(j, (col - x) as nat, w as nat, h as nat);
            }
            let i: usize = base + col as usize * 4;
            assert(i == px_at(st, row as nat, col as nat));
            assert(n + 1 <= w as nat * h as nat);
            assert(255 * (n + 1) <= 0xffff_ffff_ffff_ffff) by (nonlinear_arith)
                requires
                    n + 1 <= w as nat * h as nat,
                    w as nat * h as nat <= 0xff_ffff_ffff_ffff,
            ;
            if i + 2 < buf.len() {
                sr = sr + buf[i] as u64;
                sg = sg + buf[i + 1] as u64;
                sb = sb + buf[i + 2] as u64;
                n = n + 1;
            }
            col = col + 1;
        }
        assert(j * w + w == (j + 1) * w) by (nonlinear_arith);
        row = row + 1;
    }
    if n == 0 {
        return Rgb::black();
    }
    assert(sr / n <= 255 && sg / n <= 255 && sb / n <= 255) by (nonlinear_arith)
        requires
            sr <= 255 * n,
            sg <= 255 * n,
            sb <= 255 * n,
            n > 0,
    ;
    Rgb { r: (sr / n) as u8, g: (sg / n) as u8, b: (sb / n) as u8 }
}

/// Most common color over the region, quantized to 2 bits per channel (64 bins),
/// as the populated bin's center color. On a tie the later bin wins.
#[verifier::rlimit(40)]
#[verifier::spinoff_prover]
pub fn dominant_rgba(buf: &[u8], stride: usize, bounds: (u32, u32, u32, u32)) -> (c: Rgb)
    requires
        scan_fits(stride as nat, bounds),
        bounds.2 as nat * bounds.3 as nat <= u32::MAX,
    ensures
        c == dominant_v(buf@, stride as nat, bounds),
{
    let (x, y, w, h) = bounds;
    let ghost st = stride as nat;
    let mut bins: Vec<u32> = Vec::new();
    let mut k: usize = 0;
    while k < 64
        invariant
            k <= 64,
            bins@.len() == k,
            forall|bn: int| 0 <= bn < k ==> bins@[bn] == 0,
        decreases 64 - k,
    {
        bins.push(0);
        k = k + 1;
    }
    let end_row: u32 = y + h;
    let mut row: u32 = y;
    while row < end_row
        invariant
            bounds == (x, y, w, h),
            st == stride as nat,
            scan_fits(st, bounds),
            w as nat * h as nat <= u32::MAX,
            end_row == y + h,
            y <= row <= end_row,
            bins@.len() == 64,
            forall|bn: int|
                0 <= bn < 64 ==> #[trigger] bins@[bn] == area_bin(
                    buf@,
                    st,
                    y as nat,
                    (row - y) as nat,
                    x as nat,
                    w as nat,
                    bn as nat,
                ),
            forall|bn: int| 0 <= bn < 64 ==> #[trigger] bins@[bn] <= (row - y) * w,
        decreases end_row - row,
    {
        proof {
            lemma_row_fits(st, bounds, row as nat);
        }
        let base: usize = row as usize * stride;
        let end_col: u32 = x + w;
        let mut col: u32 = x;
        let ghost j = (row - y) as nat;
        while col < end_col
            invariant
                bounds == (x, y, w, h),
                st == stride as nat,
                scan_fits(st, bounds),
                w as nat * h as nat <= u32::MAX,
                y <= row < y + h,
                j == row - y,
                end_col == x + w,
                x <= col <= end_col,
                base as int == row as int * stride as int,
                bins@.len() == 64,
                forall|bn: int|
                    0 <= bn < 64 ==> #[trigger] bins@[bn] == area_bin(
                        buf@,
                        st,
                        y as nat,
                        j,
                        x as nat,
                        w as nat,
                        bn as nat,
                    ) + row_bin(buf@, st, row as nat, x as nat, (col - x) as nat, bn as nat),
                forall|bn: int| 0 <= bn < 64 ==> #[trigger] bins@[bn] <= j * w + (col - x),
            decreases end_col - col,
        {
            proof {
                lemma_offset_fits(st, bounds, row as nat, col as nat);
                lemma_grid_index(j, (col - x) as nat, w as nat, h as nat);
            }
            let i: usize = base + col as usize * 4;
            assert(i == px_at(st, row as nat, col as nat));
            let ghost before = bins@;
            if i + 2 < buf.len() {
                let bin: usize = (buf[i] / 64) as usize * 16 + (buf[i + 1] / 64) as usize * 4 + (
                buf[i + 2] / 64) as usize;
                assert(bin == bin_of(buf@, i as nat));
                let v = bins[bin];
                assert(v <= j * w + (col - x));
                bins.set(bin, v + 1);
            }
            col = col + 1;
            assert forall|bn: int| 0 <= bn < 64 implies #[trigger] bins@[bn] == area_bin(
                buf@,
                st,
                y as nat,
                j,
                x as nat,
                w as nat,
                bn as nat,
            ) + row_bin(buf@, st, row as nat, x as nat, (col - x) as nat, bn as nat) by {
                assert(before[bn] == area_bin(buf@, st, y as nat, j, x as nat, w as nat, bn as nat)
                    + row_bin(buf@, st, row as nat, x as nat, (col - 1 - x) as nat, bn as nat));
            }
            assert forall|bn: int| 0 <= bn < 64 implies #[trigger] bins@[bn] <= j * w + (col
                - x) by {
                assert(before[bn] <= j * w + (col - 1 - x));
            }
        }
        assert forall|bn: int| 0 <= bn < 64 implies #[trigger] bins@[bn] <= (row + 1 - y) * w by {
            assert(j * w + w == (j + 1) * w) by (nonlinear_arith);
        }
        row = row + 1;
    }
    let ghost counts = bin_counts(buf@, st, bounds);
    assert(bins@.len() == counts.len());
    assert forall|bn: int| 0 <= bn < 64 implies bins@[bn] == counts[bn] by {
        assert(bins@[bn] == area_bin(buf@, st, y as nat, h as nat, x as nat, w as nat, bn as nat));
    }
    let mut best: usize = 0;
    let mut i: usize = 1;
    while i < 64
        invariant
            1 <= i <= 64,
            best < i,
            bins@.len() == 64,
            counts.len() == 64,
            forall|bn: int| 0 <= bn < 64 ==> bins@[bn] == counts[bn],
            best == last_max(counts, i as nat),
        decreases 64 - i,
    {
        if bins[i] >= bins[best] {
            best = i;
        }
        i = i + 1;
    }
    let level_r = (best / 16) as u8;
    let level_g = ((best / 4) % 4) as u8;
    let level_b = (best % 4) as u8;
    Rgb { r: level_r * 64 + 32, g: level_g * 64 + 32, b: level_b * 64 + 32 }
}

// ----- saturation boost -------------------------------------------------------------

/// The power of two, doubling from `p`, at which `a * p` first reaches `2^23 * b`:
/// the scale that gives the quotient `a / b` 24 significant bits.
pub open spec fn frac_scale(a: nat, b: nat, p: nat) -> nat
    decreases (if a * p < 0x80_0000 * b {
        0x80_0000 * b - a * p
    } else {
        0
    }) as nat,
    when a >= 1 && p >= 1
{
    if a * p >= 0x80_0000 * b {
        p
    } else {
        proof {
            assert(a * (2 * p) == 2 * (a * p)) by (nonlinear_arith);
            assert(a * p >= 1) by (nonlinear_arith)
                requires
                    a >= 1,
                    p >= 1,
            ;
        }
        frac_scale(a, b, 2 * p)
    }
}

/// One channel after the saturation boost, for a color whose largest channel is
/// `mx` and smallest `mn` (with `mn < mx <= 255`).
///
/// The boost multiplies the HSV saturation by 1.4 in single precision, keeping hue
/// and value. When the boosted saturation reaches 1 (`7 (mx - mn) >= 5 mx`), the
/// channel is `(ch - mn) / (mx - mn)` rounded to single precision (a mantissa `m`
/// over a power of two `p`), times `mx` rounded to single precision again, then
/// rounded half up. Otherwise it is `(7 ch - 2 mx) / 5` rounded, which is never a tie.
pub open spec fn boost_channel(ch: u8, mx: u8, mn: u8) -> u8 {
    let spread = (mx - mn) as nat;
    if 7 * spread >= 5 * mx {
        let a = (ch - mn) as nat;
        if a == 0 {
            0
        } else {
            let p = frac_scale(a, spread, 1);
            let m = div_round_even(a * p, spread);
            let v = (2 * to_single(m * (mx as nat)) + p) / (2 * p);
            if v > 255 {
                255
            } else {
                v as u8
            }
        }
    } else {
        ((2 * (7 * ch - 2 * mx) + 5) / 10) as u8
    }
}

/// The largest channel of `c`.
pub open spec fn max3(c: Rgb) -> u8 {
    if c.r >= c.g && c.r >= c.b {
        c.r
    } else if c.g >= c.b {
        c.g
    } else {
        c.b
    }
}

/// The smallest channel of `c`.
pub open spec fn min3(c: Rgb) -> u8 {
    if c.r <= c.g && c.r <= c.b {
        c.r
    } else if c.g <= c.b {
        c.g
    } else {
        c.b
    }
}

/// `c` with its saturation boosted by 1.4 (see [`boost_channel`]); a grey color,
/// having no hue, is unchanged.
pub open spec fn saturate_v(c: Rgb) -> Rgb {
    let mx = max3(c);
    let mn = min3(c);
    if mx == mn {
        c
    } else {
        Rgb { r: boost_channel(c.r, mx, mn), g: boost_channel(c.g, mx, mn), b: boost_channel(c.b, mx, mn) }
    }
}

/// The spread between a color's largest and smallest channels.
pub open spec fn spread_v(c: Rgb) -> int {
    max3(c) - min3(c)
}

/// Below `2^24 m`, for `m` a power of two up to 128, the float spacing is a power of
/// two of at most `m`.
proof fn lemma_ulp_small(d: nat, m: nat)
    requires
        m == 1 || m == 2 || m == 4 || m == 8 || m == 16 || m == 32 || m == 64 || m == 128,
        d < 0x100_0000 * m,
    ensures
        single_ulp(d) <= m,
        single_ulp(d) == 1 || single_ulp(d) == 2 || single_ulp(d) == 4 || single_ulp(d) == 8
            || single_ulp(d) == 16 || single_ulp(d) == 32 || single_ulp(d) == 64 || single_ulp(d)
            == 128,
    decreases m,
{
    if d >= 0x100_0000 {
        lemma_ulp_small(d / 2, m / 2);
    }
}

proof fn lemma_boost_top(mx: u8, mn: u8)
    requires
        mn < mx,
    ensures
        boost_channel(mx, mx, mn) == mx,
{
    let spread = (mx - mn) as nat;
    if 7 * spread >= 5 * mx {
        let a = spread;
        assert(frac_scale(a, a, 1) == 0x80_0000) by {
            reveal_with_fuel(frac_scale, 25);
        }
        let p: nat = 0x80_0000;
        assert(a * p / a == p && (a * p) % a == 0) by (nonlinear_arith)
            requires
                a >= 1,
        ;
        assert(div_round_even(a * p, a) == p);
        let d = p * (mx as nat);
        assert(d < 0x8000_0000) by (nonlinear_arith)
            requires
                d == p * (mx as nat),
                mx <= 255,
                p == 0x80_0000,
        ;
        lemma_ulp_small(d, 128);
        assert(d % single_ulp(d) == 0) by {
            let u = single_ulp(d);
            let q = 0x1_0000 * (mx as nat);
            assert(d == q * 128);
            if u == 1 {
                assert(d == (q * 128) * 1);
            } else if u == 2 {
                assert(d == (q * 64) * 2);
            } else if u == 4 {
                assert(d == (q * 32) * 4);
            } else if u == 8 {
                assert(d == (q * 16) * 8);
            } else if u == 16 {
                assert(d == (q * 8) * 16);
            } else if u == 32 {
                assert(d == (q * 4) * 32);
            } else if u == 64 {
                assert(d == (q * 2) * 64);
            }
            vstd::arithmetic::div_mod::lemma_mod_multiples_basic((d / u) as int, u as int);
        }
        assert(to_single(d) == d) by (nonlinear_arith)
            requires
                d % single_ulp(d) == 0,
                single_ulp(d) >= 1,
                to_single(d) == div_round_even(d, single_ulp(d)) * single_ulp(d),
                div_round_even(d, single_ulp(d)) == d / single_ulp(d),
        ;
        assert((2 * d + p) / (2 * p) == mx) by (nonlinear_arith)
            requires
                d == p * (mx as nat),
                p == 0x80_0000,
        ;
    } else {
        assert((2 * (7 * mx - 2 * mx) + 5) / 10 == mx);
    }
}

proof fn lemma_boost_bottom(mx: u8, mn: u8)
    requires
        mn < mx,
    ensures
        boost_channel(mn, mx, mn) <= mn,
{
    let spread = (mx - mn) as nat;
    if 7 * spread < 5 * mx {
        let t = 2 * (7 * mn - 2 * mx) + 5;
        assert(0 <= t < 10 * (mn as int) + 10);
        assert(t / 10 <= mn);
    }
}

/// The saturation boost keeps a color's value (its brightest channel, which stays
/// where it is) and never narrows the spread between its brightest and darkest
/// channels.
pub proof fn saturate_keeps_top_widens_spread(c: Rgb)
    ensures
        c.r == max3(c) ==> saturate_v(c).r == c.r,
        c.g == max3(c) ==> saturate_v(c).g == c.g,
        c.b == max3(c) ==> saturate_v(c).b == c.b,
        max3(saturate_v(c)) == max3(c),
        spread_v(saturate_v(c)) >= spread_v(c),
{
    let mx = max3(c);
    let mn = min3(c);
    if mx != mn {
        lemma_boost_top(mx, mn);
        lemma_boost_bottom(mx, mn);
        let s = saturate_v(c);
        assert(max3(s) >= s.r && max3(s) >= s.g && max3(s) >= s.b);
        assert(min3(s) <= s.r && min3(s) <= s.g && min3(s) <= s.b);
        assert(max3(s) >= mx);
        assert(min3(s) <= boost_channel(mn, mx, mn));
        lemma_boost_le_top(c.r, mx, mn);
        lemma_boost_le_top(c.g, mx, mn);
        lemma_boost_le_top(c.b, mx, mn);
    }
}

proof fn lemma_frac_scale_pow2(a: nat, b: nat, p: nat)
    requires
        1 <= a <= b,
        p >= 1,
        is_pow2(p as int),
        a * p <= 0x100_0000 * b,
    ensures
        is_pow2(frac_scale(a, b, p) as int),
        frac_scale(a, b, p) >= p,
        a * frac_scale(a, b, p) >= 0x80_0000 * b,
        a * frac_scale(a, b, p) <= 0x100_0000 * b,
    decreases 0x100_0000 * b - a * p,
{
    if a * p < 0x80_0000 * b {
        assert(a * (2 * p) == 2 * (a * p)) by (nonlinear_arith);
        assert(a * p >= 1) by (nonlinear_arith)
            requires
                a >= 1,
                p >= 1,
        ;
        assert(is_pow2(2 * p as int)) by {
            reveal(is_pow2);
            assert((2 * p) / 2 == p);
        }
        lemma_frac_scale_pow2(a, b, 2 * p);
    }
}

proof fn lemma_ulp_pow2(d: nat)
    ensures
        is_pow2(single_ulp(d) as int),
        single_ulp(d) >= 1,
    decreases d,
{
    reveal(is_pow2);
    if d >= 0x100_0000 {
        lemma_ulp_pow2(d / 2);
        assert((2 * single_ulp(d / 2)) / 2 == single_ulp(d / 2));
    }
}

/// Below `2^24 q`, for `q` a power of two, the float spacing is at most `q`.
proof fn lemma_ulp_below(d: nat, q: nat)
    requires
        is_pow2(q as int),
        d < 0x100_0000 * q,
    ensures
        single_ulp(d) <= q,
    decreases d,
{
    reveal(is_pow2);
    if d >= 0x100_0000 {
        assert(q > 1);
        assert(q % 2 == 0 && is_pow2((q / 2) as int));
        lemma_ulp_below(d / 2, q / 2);
    }
}

/// A power of two divides every larger power of two.
proof fn lemma_pow2_multiple(p: nat, u: nat) -> (k: nat)
    requires
        is_pow2(p as int),
        is_pow2(u as int),
        u <= p,
    ensures
        p == k * u,
    decreases u,
{
    reveal(is_pow2);
    if u == 1 {
        p
    } else {
        assert(p != 1);
        let k = lemma_pow2_multiple(p / 2, u / 2);
        assert(p == k * u) by (nonlinear_arith)
            requires
                p / 2 == k * (u / 2),
                p % 2 == 0,
                u % 2 == 0,
        ;
        k
    }
}

/// Rounding to single precision never exceeds a bound that is a multiple of the
/// float spacing.
proof fn lemma_to_single_below(d: nat, bound: nat)
    requires
        d <= bound,
        single_ulp(d) >= 1,
        bound % single_ulp(d) == 0,
    ensures
        to_single(d) <= bound,
{
    let u = single_ulp(d);
    let q = d / u;
    let r = d % u;
    let kb = bound / u;
    assert(bound == kb * u) by (nonlinear_arith)
        requires
            bound % u == 0,
            kb == bound / u,
            u >= 1,
    ;
    assert(d == q * u + r && 0 <= r < u) by (nonlinear_arith)
        requires
            q == d / u,
            r == d % u,
            u >= 1,
    ;
    assert(q <= kb) by (nonlinear_arith)
        requires
            d == q * u + r,
            r >= 0,
            d <= kb * u,
            u >= 1,
    ;
    if q == kb {
        assert(r == 0) by (nonlinear_arith)
            requires
                d == q * u + r,
                d <= kb * u,
                q == kb,
                r >= 0,
        ;
    }
    let m = div_round_even(d, u);
    assert(m <= kb);
    assert(m * u <= kb * u) by (nonlinear_arith)
        requires
            m <= kb,
            u >= 1,
    ;
}

/// No channel rises above the brightest one under the boost.
proof fn lemma_boost_le_top(ch: u8, mx: u8, mn: u8)
    requires
        mn <= ch <= mx,
        mn < mx,
    ensures
        boost_channel(ch, mx, mn) <= mx,
{
    let spread = (mx - mn) as nat;
    if 7 * spread >= 5 * mx {
        let a = (ch - mn) as nat;
        if a > 0 {
            assert(is_pow2(1)) by {
                reveal(is_pow2);
            }
            assert(a * 1 <= 0x100_0000 * spread);
            lemma_frac_scale_pow2(a, spread, 1);
            let p = frac_scale(a, spread, 1);
            assert(a * p <= spread * p) by (nonlinear_arith)
                requires
                    a <= spread,
            ;
            assert(p >= 0x80_0000) by (nonlinear_arith)
                requires
                    spread * p >= 0x80_0000 * spread,
                    spread >= 1,
            ;
            let n = a * p;
            let m = div_round_even(n, spread);
            let q = n / spread;
            let r = n % spread;
            assert(n == spread * q + r && 0 <= r < spread) by (nonlinear_arith)
                requires
                    q == n / spread,
                    r == n % spread,
                    spread >= 1,
            ;
            assert(q <= p) by (nonlinear_arith)
                requires
                    n == spread * q + r,
                    r >= 0,
                    n <= spread * p,
                    spread >= 1,
            ;
            if q == p {
                assert(r == 0) by (nonlinear_arith)
                    requires
                        n == spread * q + r,
                        n <= spread * p,
                        q == p,
                        r >= 0,
                ;
            }
            assert(m <= p);
            let d = m * (mx as nat);
            let bound = p * (mx as nat);
            assert(d <= bound) by (nonlinear_arith)
                requires
                    m <= p,
                    d == m * (mx as nat),
                    bound == p * (mx as nat),
            ;
            assert(d < 0x100_0000 * p) by (nonlinear_arith)
                requires
                    d <= p * (mx as nat),
                    mx <= 255,
                    p >= 1,
            ;
            lemma_ulp_pow2(d);
            lemma_ulp_below(d, p);
            let u = single_ulp(d);
            let k = lemma_pow2_multiple(p, u);
            assert(bound % u == 0) by {
                assert(bound == (k * (mx as nat)) * u) by (nonlinear_arith)
                    requires
                        bound == p * (mx as nat),
                        p == k * u,
                ;
                vstd::arithmetic::div_mod::lemma_mod_multiples_basic((k * (mx as nat)) as int, u as int);
            }
            lemma_to_single_below(d, bound);
            vstd::arithmetic::div_mod::lemma_div_is_ordered(
                (2 * to_single(d) + p) as int,
                (2 * bound + p) as int,
                (2 * p) as int,
            );
            assert((2 * bound + p) / (2 * p) == mx) by (nonlinear_arith)
                requires
                    bound == p * (mx as nat),
                    p >= 1,
            ;
        }
    } else {
        assert(7 * ch >= 2 * mx);
        assert((2 * (7 * ch - 2 * mx) + 5) / 10 <= mx);
    }
}

/// The scale that `frac_scale` settles on only shrinks as the numerator grows.
proof fn lemma_frac_scale_anti(a1: nat, a2: nat, b: nat, p: nat)
    requires
        1 <= a1 <= a2 <= b,
        p >= 1,
        is_pow2(p as int),
        a2 * p <= 0x100_0000 * b,
    ensures
        frac_scale(a2, b, p) <= frac_scale(a1, b, p),
    decreases 0x100_0000 * b - a1 * p,
{
    assert(a1 * p <= a2 * p) by (nonlinear_arith)
        requires
            a1 <= a2,
    ;
    assert(a1 * (2 * p) == 2 * (a1 * p)) by (nonlinear_arith);
    assert(a2 * (2 * p) == 2 * (a2 * p)) by (nonlinear_arith);
    assert(a1 * p >= 1) by (nonlinear_arith)
        requires
            a1 >= 1,
            p >= 1,
    ;
    assert(is_pow2(2 * p as int)) by {
        reveal(is_pow2);
        assert((2 * p) / 2 == p);
    }
    if a2 * p >= 0x80_0000 * b {
        if a1 * p < 0x80_0000 * b {
            lemma_frac_scale_pow2(a1, b, 2 * p);
        }
    } else {
        lemma_frac_scale_anti(a1, a2, b, 2 * p);
    }
}

/// The float spacing `u` of `d` brackets it: `d < 2^24 u`, and `2^23 u <= d` once
/// `u > 1`.
proof fn lemma_ulp_range(d: nat)
    ensures
        d < 0x100_0000 * single_ulp(d),
        single_ulp(d) > 1 ==> 0x80_0000 * single_ulp(d) <= d,
    decreases d,
{
    if d >= 0x100_0000 {
        lemma_ulp_range(d / 2);
        lemma_ulp_pow2(d / 2);
    }
}

/// The float spacing never shrinks as the value grows.
proof fn lemma_ulp_mono(d1: nat, d2: nat)
    requires
        d1 <= d2,
    ensures
        single_ulp(d1) <= single_ulp(d2),
    decreases d2,
{
    if d2 >= 0x100_0000 {
        if d1 >= 0x100_0000 {
            lemma_ulp_mono(d1 / 2, d2 / 2);
        } else {
            lemma_ulp_pow2(d2);
        }
    }
}

/// Rounding to single precision never falls below a bound that is a multiple of
/// the float spacing.
proof fn lemma_to_single_above(d: nat, bound: nat)
    requires
        bound <= d,
        single_ulp(d) >= 1,
        bound % single_ulp(d) == 0,
    ensures
        bound <= to_single(d),
{
    let u = single_ulp(d);
    let q = d / u;
    let kb = bound / u;
    assert(bound == kb * u) by (nonlinear_arith)
        requires
            bound % u == 0,
            kb == bound / u,
            u >= 1,
    ;
    vstd::arithmetic::div_mod::lemma_div_is_ordered(bound as int, d as int, u as int);
    let m = div_round_even(d, u);
    assert(kb <= m);
    assert(kb * u <= m * u) by (nonlinear_arith)
        requires
            kb <= m,
    ;
}

/// Rounding to the nearest multiple (ties to even) is monotone.
proof fn lemma_round_even_mono(n1: nat, n2: nat, d: nat)
    requires
        n1 <= n2,
        d >= 1,
    ensures
        div_round_even(n1, d) <= div_round_even(n2, d),
{
    vstd::arithmetic::div_mod::lemma_div_is_ordered(n1 as int, n2 as int, d as int);
    vstd::arithmetic::div_mod::lemma_fundamental_div_mod(n1 as int, d as int);
    vstd::arithmetic::div_mod::lemma_fundamental_div_mod(n2 as int, d as int);
}

/// Rounding to single precision is monotone.
proof fn lemma_to_single_mono(d1: nat, d2: nat)
    requires
        d1 <= d2,
    ensures
        to_single(d1) <= to_single(d2),
{
    let u1 = single_ulp(d1);
    let u2 = single_ulp(d2);
    lemma_ulp_mono(d1, d2);
    lemma_ulp_pow2(d1);
    lemma_ulp_pow2(d2);
    if u1 == u2 {
        lemma_round_even_mono(d1, d2, u1);
        let m1 = div_round_even(d1, u1);
        let m2 = div_round_even(d2, u1);
        assert(m1 * u1 <= m2 * u1) by (nonlinear_arith)
            requires
                m1 <= m2,
        ;
    } else {
        let k = lemma_pow2_multiple(u2, u1);
        assert(2 * u1 <= u2) by (nonlinear_arith)
            requires
                u2 == k * u1,
                u2 > u1,
                u1 >= 1,
        ;
        lemma_ulp_range(d1);
        lemma_ulp_range(d2);
        vstd::arithmetic::div_mod::lemma_mod_multiples_basic(0x100_0000, u1 as int);
        vstd::arithmetic::div_mod::lemma_mod_multiples_basic(0x80_0000, u2 as int);
        lemma_to_single_below(d1, 0x100_0000 * u1);
        lemma_to_single_above(d2, 0x80_0000 * u2);
    }
}

/// Doubling commutes with rounding to single precision.
proof fn lemma_to_single_double(d: nat)
    ensures
        to_single(2 * d) == 2 * to_single(d),
{
    if 2 * d < 0x100_0000 {
        assert(single_ulp(d) == 1);
        assert(single_ulp(2 * d) == 1);
        assert(d / 1 == d && d % 1 == 0);
        assert((2 * d) / 1 == 2 * d && (2 * d) % 1 == 0);
    } else {
        let u = single_ulp(d);
        assert((2 * d) / 2 == d);
        assert(single_ulp(2 * d) == 2 * u);
        lemma_ulp_pow2(d);
        let q = d / u;
        let r = d % u;
        vstd::arithmetic::div_mod::lemma_fundamental_div_mod(d as int, u as int);
        vstd::arithmetic::div_mod::lemma_mod_pos_bound(d as int, u as int);
        assert(q * (2 * u) == 2 * (u * q)) by (nonlinear_arith);
        vstd::arithmetic::div_mod::lemma_fundamental_div_mod_converse(
            (2 * d) as int,
            (2 * u) as int,
            q as int,
            (2 * r) as int,
        );
        let m = div_round_even(d, u);
        assert(div_round_even(2 * d, 2 * u) == m);
        assert(m * (2 * u) == 2 * (m * u)) by (nonlinear_arith);
    }
}

/// `(k x) / (k y) == x / y` for `k, y >= 1`.
proof fn lemma_div_scaled(x: nat, y: nat, k: nat)
    requires
        y >= 1,
        k >= 1,
    ensures
        (k * x) / (k * y) == x / y,
{
    let w = x / y;
    let rr = x % y;
    vstd::arithmetic::div_mod::lemma_fundamental_div_mod(x as int, y as int);
    vstd::arithmetic::div_mod::lemma_mod_pos_bound(x as int, y as int);
    assert(k * x == w * (k * y) + k * rr && 0 <= k * rr < k * y) by (nonlinear_arith)
        requires
            x == y * w + rr,
            0 <= rr < y,
            k >= 1,
    ;
    vstd::arithmetic::div_mod::lemma_fundamental_div_mod_converse(
        (k * x) as int,
        (k * y) as int,
        w as int,
        (k * rr) as int,
    );
}

/// `div_round_even(c s, s) == c`.
proof fn lemma_round_even_exact(c: nat, s: nat)
    requires
        s >= 1,
    ensures
        div_round_even(c * s, s) == c,
{
    vstd::arithmetic::div_mod::lemma_fundamental_div_mod_converse((c * s) as int, s as int, c as int, 0);
}

/// Within one color, the boost keeps the order of any two channels.
proof fn lemma_boost_mono(ch1: u8, ch2: u8, mx: u8, mn: u8)
    requires
        mn <= ch1 <= ch2 <= mx,
        mn < mx,
    ensures
        boost_channel(ch1, mx, mn) <= boost_channel(ch2, mx, mn),
{
    let spread = (mx - mn) as nat;
    if 7 * spread >= 5 * mx {
        let a1 = (ch1 - mn) as nat;
        let a2 = (ch2 - mn) as nat;
        if a1 > 0 {
            assert(is_pow2(1)) by {
                reveal(is_pow2);
            }
            lemma_frac_scale_pow2(a1, spread, 1);
            lemma_frac_scale_pow2(a2, spread, 1);
            lemma_frac_scale_anti(a1, a2, spread, 1);
            let p1 = frac_scale(a1, spread, 1);
            let p2 = frac_scale(a2, spread, 1);
            let m1 = div_round_even(a1 * p1, spread);
            let m2 = div_round_even(a2 * p2, spread);
            let t1 = to_single(m1 * (mx as nat));
            let t2 = to_single(m2 * (mx as nat));
            if p1 == p2 {
                assert(a1 * p1 <= a2 * p1) by (nonlinear_arith)
                    requires
                        a1 <= a2,
                ;
                lemma_round_even_mono(a1 * p1, a2 * p2, spread);
                assert(m1 * (mx as nat) <= m2 * (mx as nat)) by (nonlinear_arith)
                    requires
                        m1 <= m2,
                ;
                lemma_to_single_mono(m1 * (mx as nat), m2 * (mx as nat));
                vstd::arithmetic::div_mod::lemma_div_is_ordered(
                    (2 * t1 + p1) as int,
                    (2 * t2 + p2) as int,
                    (2 * p1) as int,
                );
            } else {
                let k = lemma_pow2_multiple(p1, p2);
                assert(k >= 2) by (nonlinear_arith)
                    requires
                        p1 == k * p2,
                        p1 > p2,
                        p2 >= 1,
                ;
                lemma_round_even_mono(a1 * p1, 0x100_0000 * spread, spread);
                lemma_round_even_exact(0x100_0000, spread);
                lemma_round_even_mono(0x80_0000 * spread, a2 * p2, spread);
                lemma_round_even_exact(0x80_0000, spread);
                assert(m1 * (mx as nat) <= 2 * (m2 * (mx as nat))) by (nonlinear_arith)
                    requires
                        m1 <= 0x100_0000,
                        m2 >= 0x80_0000,
                ;
                lemma_to_single_mono(m1 * (mx as nat), 2 * (m2 * (mx as nat)));
                lemma_to_single_double(m2 * (mx as nat));
                assert(2 * t1 + p1 <= k * (2 * t2 + p2)) by (nonlinear_arith)
                    requires
                        t1 <= 2 * t2,
                        k >= 2,
                        p1 == k * p2,
                ;
                assert(2 * p1 == k * (2 * p2)) by (nonlinear_arith)
                    requires
                        p1 == k * p2,
                ;
                vstd::arithmetic::div_mod::lemma_div_is_ordered(
                    (2 * t1 + p1) as int,
                    (k * (2 * t2 + p2)) as int,
                    (2 * p1) as int,
                );
                lemma_div_scaled(2 * t2 + p2, 2 * p2, k);
            }
        }
    } else {
        assert(7 * ch1 >= 2 * mx);
        assert((2 * (7 * ch2 - 2 * mx) + 5) / 10 <= mx);
        assert((2 * (7 * ch1 - 2 * mx) + 5) / 10 <= (2 * (7 * ch2 - 2 * mx) + 5) / 10);
    }
}

/// The saturation boost never reorders a color's channels: a channel at least as
/// bright as another before the boost is at least as bright after it.
pub proof fn saturate_keeps_channel_order(c: Rgb)
    ensures
        c.r <= c.g ==> saturate_v(c).r <= saturate_v(c).g,
        c.g <= c.r ==> saturate_v(c).g <= saturate_v(c).r,
        c.r <= c.b ==> saturate_v(c).r <= saturate_v(c).b,
        c.b <= c.r ==> saturate_v(c).b <= saturate_v(c).r,
        c.g <= c.b ==> saturate_v(c).g <= saturate_v(c).b,
        c.b <= c.g ==> saturate_v(c).b <= saturate_v(c).g,
{
    let mx = max3(c);
    let mn = min3(c);
    if mx != mn {
        assert(mn <= c.r <= mx && mn <= c.g <= mx && mn <= c.b <= mx);
        if c.r <= c.g {
            lemma_boost_mono(c.r, c.g, mx, mn);
        }
        if c.g <= c.r {
            lemma_boost_mono(c.g, c.r, mx, mn);
        }
        if c.r <= c.b {
            lemma_boost_mono(c.r, c.b, mx, mn);
        }
        if c.b <= c.r {
            lemma_boost_mono(c.b, c.r, mx, mn);
        }
        if c.g <= c.b {
            lemma_boost_mono(c.g, c.b, mx, mn);
        }
        if c.b <= c.g {
            lemma_boost_mono(c.b, c.g, mx, mn);
        }
    }
}

/// One channel of the saturation boost (see [`boost_channel`]).
fn boost(ch: u8, mx: u8, mn: u8) -> (v: u8)
    requires
        mn <= ch <= mx,
        mn < mx,
    ensures
        v == boost_channel(ch, mx, mn),
{
    let spread: u64 = (mx - mn) as u64;
    let mx64: u64 = mx as u64;
    if 7 * spread >= 5 * mx64 {
        let a: u64 = (ch - mn) as u64;
        if a == 0 {
            return 0;
        }
        let mut p: u64 = 1;
        while a * p < 0x80_0000 * spread
            invariant
                1 <= a <= spread,
                spread <= 255,
                1 <= p <= 0x1_0000_0000,
                a * p <= 0x100_0000 * spread,
                frac_scale(a as nat, spread as nat, 1) == frac_scale(a as nat, spread as nat, p as nat),
            decreases 0x1_0000_0000 - p,
        {
            assert(p < 0x8000_0000) by (nonlinear_arith)
                requires
                    a * p < 0x80_0000 * spread,
                    spread <= 255,
                    a >= 1,
            ;
            assert(a * (2 * p) == 2 * (a * p)) by (nonlinear_arith);
            assert(a * p >= 1) by (nonlinear_arith)
                requires
                    a >= 1,
                    p >= 1,
            ;
            p = 2 * p;
        }
        assert(a * p <= spread * p) by (nonlinear_arith)
            requires
                a <= spread,
        ;
        let n: u64 = a * p;
        let q = n / spread;
        let r = n % spread;
        assert(q <= p) by (nonlinear_arith)
            requires
                q == n / spread,
                n <= spread * p,
                spread >= 1,
        ;
        let m: u64 = if 2 * r > spread || (2 * r == spread && q % 2 == 1) {
            q + 1
        } else {
            q
        };
        assert(m * mx64 <= 0x1_0000_0001 * 255) by (nonlinear_arith)
            requires
                m <= 0x1_0000_0001,
                mx64 <= 255,
        ;
        let prod: u64 = m * mx64;
        let single = to_single_u64(prod);
        let v = (2 * single + p) / (2 * p);
        if v > 255 {
            255
        } else {
            v as u8
        }
    } else {
        assert(7 * ch as u64 >= 2 * mx64);
        ((2 * (7 * ch as u64 - 2 * mx64) + 5) / 10) as u8
    }
}

/// Scale a color's saturation by 1.4 (clamped to valid RGB), keeping hue and value.
/// A neutral (grey) color is unchanged.
pub fn saturate(c: Rgb) -> (s: Rgb)
    ensures
        s == saturate_v(c),
{
    let mx = if c.r >= c.g && c.r >= c.b {
        c.r
    } else if c.g >= c.b {
        c.g
    } else {
        c.b
    };
    let mn = if c.r <= c.g && c.r <= c.b {
        c.r
    } else if c.g <= c.b {
        c.g
    } else {
        c.b
    };
    if mx == mn {
        return c;
    }
    Rgb { r: boost(c.r, mx, mn), g: boost(c.g, mx, mn), b: boost(c.b, mx, mn) }
}

/// The color of rectangle `b` under extraction mode `mode`.
pub open spec fn extract_v(buf: Seq<u8>, stride: nat, b: (u32, u32, u32, u32), mode: ExtractMode) -> Rgb {
    match mode {
        ExtractMode::Average => average_v(buf, stride, b),
        ExtractMode::Dominant => dominant_v(buf, stride, b),
        ExtractMode::AverageSaturated => saturate_v(average_v(buf, stride, b)),
    }
}

/// Reduce the cropped region of a packed-RGBA `buf` (row pitch `stride` bytes, 4 bytes
/// per pixel in `R, G, B, A` order) to one color.
pub fn extract_rgba(buf: &[u8], stride: usize, bounds: (u32, u32, u32, u32), mode: ExtractMode) -> (c: Rgb)
    requires
        scan_fits(stride as nat, bounds),
        mode == ExtractMode::Dominant ==> bounds.2 as nat * bounds.3 as nat <= u32::MAX,
        mode != ExtractMode::Dominant ==> bounds.2 as nat * bounds.3 as nat <= 0xff_ffff_ffff_ffff,
    ensures
        c == extract_v(buf@, stride as nat, bounds, mode),
{
    match mode {
        ExtractMode::Average => average_rgba(buf, stride, bounds),
        ExtractMode::Dominant => dominant_rgba(buf, stride, bounds),
        ExtractMode::AverageSaturated => saturate(average_rgba(buf, stride, bounds)),
    }
}

// ----- color temperature and wire values -----------------------------------------

/// The color temperature a white-only bulb shows for `c`: from 1700 K (pure red)
/// to 6500 K (pure blue), linear in `b - r`.
pub open spec fn rgb_to_ct_v(c: Rgb) -> nat {
    1700 + (160 * (c.b as int - c.r as int + 255) / 17) as nat
}

/// Map an RGB color to an approximate correlated color temperature (`1700..=6500` K) for
/// white-only (CT) bulbs: warm/red colors → low K, cool/blue → high K.
pub fn rgb_to_ct(c: Rgb) -> (k: u16)
    ensures
        k == rgb_to_ct_v(c),
        1700 <= k <= 6500,
{
    let d: u32 = (c.b as u32) + 255 - (c.r as u32);
    (1700 + 160 * d / 17) as u16
}

/// The `rgb` value sent for `c`: its packed value, but never 0.
pub open spec fn rgb_value_v(c: Rgb) -> nat {
    if rgb_u32(c) == 0 {
        1
    } else {
        rgb_u32(c)
    }
}

/// The `rgb` value to send, floored to 1. Yeelight's `set_rgb`/`bg_set_rgb` reject 0
/// (pure black) with `-5001 invalid params`; `0x000001` is effectively off and accepted.
pub fn rgb_value(rgb: Rgb) -> (v: u32)
    ensures
        v == rgb_value_v(rgb),
        v >= 1,
{
    let v = rgb.to_u32();
    if v < 1 {
        1
    } else {
        v
    }
}

// ----- targets and configuration -------------------------------------------------

/// Which set-color methods each target light supports. Ambient drives a target by its
/// RGB method when available, else falls back to color temperature (a temp-only bulb).
#[derive(Debug, Clone, Copy, PartialEq, Eq, Structural)]
pub struct Caps {
    /// Main light supports `set_rgb`.
    pub main_rgb: bool,
    /// Main light supports `set_ct_abx`.
    pub main_ct: bool,
    /// Background light supports `bg_set_rgb`.
    pub bg_rgb: bool,
    /// Background light supports `bg_set_ct_abx`.
    pub bg_ct: bool,
}

/// Default ambient targets for a device with the given caps: drive the main light if it
/// has any color control, otherwise the background light.
pub fn default_targets(caps: Caps) -> (t: (bool, bool))
    ensures
        t.0 == (caps.main_rgb || caps.main_ct),
        t.1 == ((caps.bg_rgb || caps.bg_ct) && !(caps.main_rgb || caps.main_ct)),
        !(t.0 && t.1),
{
    let main = caps.main_rgb || caps.main_ct;
    let bg = caps.bg_rgb || caps.bg_ct;
    (main, bg && !main)
}

/// Live, user-editable ambient settings (region/mode/targets). Monitor is fixed at start.
#[derive(Debug, Clone, Copy, PartialEq, Eq, Structural)]
pub struct AmbientConfig {
    /// Which screen slice feeds the bulb.
    pub region: Region,
    /// How pixels collapse to one color.
    pub mode: ExtractMode,
    /// Display id captured (None = primary). Changing it requires stop→start.
    pub monitor_id: Option<u32>,
    /// Drive the main light.
    pub main: bool,
    /// Drive the background light.
    pub bg: bool,
    /// Fade between colors instead of jumping.
    pub smooth: bool,
}

impl Default for AmbientConfig {
    fn default() -> (c: Self)
        ensures
            c == (AmbientConfig {
                region: Region::Whole,
                mode: ExtractMode::Average,
                monitor_id: None,
                main: true,
                bg: false,
                smooth: true,
            }),
    {
        AmbientConfig {
            region: Region::Whole,
            mode: ExtractMode::Average,
            monitor_id: None,
            main: true,
            bg: false,
            smooth: true,
        }
    }
}

// ----- batching colors into flows ------------------------------------------------------

/// Most colors packed into one smooth-transition color flow (older colors drop off).
pub const MAX_FLOW_STEPS: usize = 9;

/// Nanoseconds per millisecond.
pub const NANOS_PER_MILLI: u64 = 1_000_000;

/// The last [`MAX_FLOW_STEPS`] colors of `s`.
pub open spec fn window(s: Seq<Rgb>) -> Seq<Rgb> {
    if s.len() > MAX_FLOW_STEPS {
        s.subrange(s.len() - MAX_FLOW_STEPS, s.len() as int)
    } else {
        s
    }
}

/// Time from `since` to `now` (zero when `now` is earlier).
pub open spec fn elapsed_v(since: u64, now: u64) -> u64 {
    if now >= since {
        (now - since) as u64
    } else {
        0
    }
}

/// Per-step duration (ms) of a flow of `n` colors gathered over `elapsed_ns`: the
/// elapsed milliseconds (as a 32-bit count) spread over the colors, at least 50 ms
/// (the flow minimum) and at most the window `gap_ns` in milliseconds (itself at
/// least 50).
pub open spec fn step_v(elapsed_ns: u64, gap_ns: u64, n: nat) -> u32 {
    let ms = ((elapsed_ns / NANOS_PER_MILLI) % 0x1_0000_0000) as nat;
    let gap_ms = ((gap_ns / NANOS_PER_MILLI) % 0x1_0000_0000) as nat;
    let cap = if gap_ms < 50 {
        50
    } else {
        gap_ms
    };
    let per = ms / n;
    if per < 50 {
        50
    } else if per > cap {
        cap as u32
    } else {
        per as u32
    }
}

/// Batches colors into one `start_cf` color flow. Rather than one throttled
/// `set_rgb` per allowed command (which jumps), it collects recent colors and, once a
/// window is due, hands them back as a flow so the whole span animates.
///
/// Time is given as a reading of a monotonic clock in nanoseconds.
pub struct FlowBuf {
    buf: Vec<Rgb>,
    last_ns: u64,
}

impl FlowBuf {
    /// The buffer holds at most [`MAX_FLOW_STEPS`] colors.
    #[verifier::type_invariant]
    spec fn inv(self) -> bool {
        self.buf@.len() <= MAX_FLOW_STEPS
    }

    /// The buffered colors, oldest first.
    pub closed spec fn colors(self) -> Seq<Rgb> {
        self.buf@
    }

    /// When the buffer last flushed (or was created).
    pub closed spec fn last_flush(self) -> u64 {
        self.last_ns
    }

    /// A fresh, empty buffer, created at `now_ns`.
    pub fn new(now_ns: u64) -> (f: Self)
        ensures
            f.colors() == Seq::<Rgb>::empty(),
            f.last_flush() == now_ns,
    {
        FlowBuf { buf: Vec::new(), last_ns: now_ns }
    }

    /// Buffer `color` at `now_ns` (dropping the oldest past [`MAX_FLOW_STEPS`]).
    /// Returns `(colors, step_ms)` to flow when `gap_ns` has elapsed since the last
    /// flush (or `force`), else `None` while the window is still filling. `step_ms`
    /// divides the real elapsed time across the buffered colors (see [`step_v`]).
    pub fn push(&mut self, color: Rgb, gap_ns: u64, force: bool, now_ns: u64) -> (r: Option<(Vec<Rgb>, u32)>)
        ensures
            final(self).colors().len() <= MAX_FLOW_STEPS,
            ({
                let w = window(old(self).colors().push(color));
                let el = elapsed_v(old(self).last_flush(), now_ns);
                if !force && el < gap_ns {
                    &&& r is None
                    &&& final(self).colors() == w
                    &&& final(self).last_flush() == old(self).last_flush()
                } else {
                    &&& r matches Some((cs, step)) && cs@ == w && step == step_v(el, gap_ns, w.len())
                    &&& final(self).colors() == Seq::<Rgb>::empty()
                    &&& final(self).last_flush() == now_ns
                }
            }),
    {
        proof {
            use_type_invariant(&*self);
        }
        let ghost before = self.buf@.push(color);
        let mut buf: Vec<Rgb> = Vec::new();
        std::mem::swap(&mut buf, &mut self.buf);
        buf.push(color);
        if buf.len() > MAX_FLOW_STEPS {
            let cut = buf.len() - MAX_FLOW_STEPS;
            let mut kept: Vec<Rgb> = Vec::new();
            let mut i: usize = cut;
            while i < buf.len()
                invariant
                    cut <= i <= buf@.len(),
                    buf@ == before,
                    cut == buf@.len() - MAX_FLOW_STEPS,
                    kept@ == before.subrange(cut as int, i as int),
                decreases buf@.len() - i,
            {
                kept.push(buf[i]);
                i = i + 1;
            }
            buf = kept;
        }
        assert(buf@ == window(before));
        let elapsed = if now_ns >= self.last_ns {
            now_ns - self.last_ns
        } else {
            0
        };
        if !force && elapsed < gap_ns {
            self.buf = buf;
            return None;
        }
        assert(buf@.len() > 0);
        let ms: u32 = ((elapsed / NANOS_PER_MILLI) % 0x1_0000_0000) as u32;
        let gap_ms: u32 = ((gap_ns / NANOS_PER_MILLI) % 0x1_0000_0000) as u32;
        let cap: u32 = if gap_ms < 50 {
            50
        } else {
            gap_ms
        };
        let per: u32 = ms / (buf.len() as u32);
        let step: u32 = if per < 50 {
            50
        } else if per > cap {
            cap
        } else {
            per
        };
        self.last_ns = now_ns;
        Some((buf, step))
    }
}

/// The flow tuple that holds color `c` for `step_ms` on an RGB target.
pub open spec fn rgb_tuple(c: Rgb, step_ms: u32) -> FlowTuple {
    FlowTuple { duration: step_ms, mode: 1, value: rgb_value_v(c) as u32, brightness: -1i8 }
}

/// The flow tuple that holds color `c` for `step_ms` on a white-only target.
pub open spec fn ct_tuple(c: Rgb, step_ms: u32) -> FlowTuple {
    FlowTuple { duration: step_ms, mode: 2, value: rgb_to_ct_v(c) as u32, brightness: -1i8 }
}

/// Build a color-flow expression driving an RGB target: one mode-1 (color) tuple per
/// color, each held `step_ms`, brightness `-1` (keep the bulb's current level).
pub fn rgb_flow(colors: &[Rgb], step_ms: u32) -> (e: FlowExpr)
    ensures
        e.0@ == colors@.map_values(|c: Rgb| rgb_tuple(c, step_ms)),
{
    let mut out: Vec<FlowTuple> = Vec::new();
    let mut i: usize = 0;
    while i < colors.len()
        invariant
            i <= colors@.len(),
            out@ == colors@.take(i as int).map_values(|c: Rgb| rgb_tuple(c, step_ms)),
        decreases colors@.len() - i,
    {
        let c = colors[i];
        out.push(FlowTuple { duration: step_ms, mode: 1, value: rgb_value(c), brightness: -1 });
        i = i + 1;
        assert(colors@.take(i as int).drop_last() == colors@.take((i - 1) as int));
        assert(out@ =~= colors@.take(i as int).map_values(|c: Rgb| rgb_tuple(c, step_ms)));
    }
    assert(colors@.take(colors@.len() as int) == colors@);
    FlowExpr(out)
}

/// Build a color-flow expression for a white-only (CT) target: each color maps to a
/// mode-2 (color-temperature) tuple via [`rgb_to_ct`].
pub fn ct_flow(colors: &[Rgb], step_ms: u32) -> (e: FlowExpr)
    ensures
        e.0@ == colors@.map_values(|c: Rgb| ct_tuple(c, step_ms)),
{
    let mut out: Vec<FlowTuple> = Vec::new();
    let mut i: usize = 0;
    while i < colors.len()
        invariant
            i <= colors@.len(),
            out@ == colors@.take(i as int).map_values(|c: Rgb| ct_tuple(c, step_ms)),
        decreases colors@.len() - i,
    {
        let c = colors[i];
        out.push(FlowTuple { duration: step_ms, mode: 2, value: rgb_to_ct(c) as u32, brightness: -1 });
        i = i + 1;
        assert(colors@.take(i as int).drop_last() == colors@.take((i - 1) as int));
        assert(out@ =~= colors@.take(i as int).map_values(|c: Rgb| ct_tuple(c, step_ms)));
    }
    assert(colors@.take(colors@.len() as int) == colors@);
    FlowExpr(out)
}

// ----- what a color push sends ------------------------------------------------------

/// A planned command, as method name and parameters.
pub open spec fn req_v(r: Request) -> (Seq<char>, Seq<JsonV>) {
    (r.method@, items_v(r.params@))
}

/// The planned commands of a list of requests.
pub open spec fn reqs_v(rs: Seq<Request>) -> Seq<(Seq<char>, Seq<JsonV>)> {
    rs.map_values(|r: Request| req_v(r))
}

/// Parameters `value, "sudden", 0` of an instant color change.
pub open spec fn sudden_v(value: nat) -> Seq<JsonV> {
    seq![uint_v(value), str_v("sudden"@), uint_v(0)]
}

/// The instant color command for one light (`bg` selects the background twin):
/// RGB when the light supports it, else color temperature, else nothing.
pub open spec fn color_cmd(c: Rgb, bg: bool, rgb: bool, ct: bool) -> Seq<(Seq<char>, Seq<JsonV>)> {
    if rgb {
        seq![(if bg { "bg_set_rgb"@ } else { "set_rgb"@ }, sudden_v(rgb_value_v(c)))]
    } else if ct {
        seq![(if bg { "bg_set_ct_abx"@ } else { "set_ct_abx"@ }, sudden_v(rgb_to_ct_v(c)))]
    } else {
        Seq::empty()
    }
}

/// The commands that push `c` instantly to the enabled targets, main light first.
pub open spec fn color_plan(c: Rgb, caps: Caps, main: bool, bg: bool) -> Seq<(Seq<char>, Seq<JsonV>)> {
    (if main {
        color_cmd(c, false, caps.main_rgb, caps.main_ct)
    } else {
        Seq::empty()
    }) + (if bg {
        color_cmd(c, true, caps.bg_rgb, caps.bg_ct)
    } else {
        Seq::empty()
    })
}

/// Appends the instant color command for one light to `out`.
fn push_color_cmd(out: &mut Vec<Request>, c: Rgb, bg: bool, rgb: bool, ct: bool)
    ensures
        reqs_v(final(out)@) == reqs_v(old(out)@) + color_cmd(c, bg, rgb, ct),
{
    let ghost before = out@;
    if rgb {
        let v = rgb_value(c);
        let q = if bg {
            Request::bg_set_rgb(v, Effect::Sudden)
        } else {
            Request::set_rgb(v, Effect::Sudden)
        };
        assert(seq![uint_v(v as nat)] + crate::commands::effect_params_v(Effect::Sudden) =~= sudden_v(
            rgb_value_v(c),
        ));
        if let Ok(q) = q {
            out.push(q);
            assert(req_v(q) == color_cmd(c, bg, rgb, ct)[0]);
            assert(reqs_v(out@) =~= reqs_v(before) + color_cmd(c, bg, rgb, ct));
        }
    } else if ct {
        let k = rgb_to_ct(c);
        let q = if bg {
            Request::bg_set_ct_abx(k, Effect::Sudden)
        } else {
            Request::set_ct_abx(k, Effect::Sudden)
        };
        assert(seq![uint_v(k as nat)] + crate::commands::effect_params_v(Effect::Sudden) =~= sudden_v(
            rgb_to_ct_v(c),
        ));
        if let Ok(q) = q {
            out.push(q);
            assert(req_v(q) == color_cmd(c, bg, rgb, ct)[0]);
            assert(reqs_v(out@) =~= reqs_v(before) + color_cmd(c, bg, rgb, ct));
        }
    } else {
        assert(reqs_v(out@) =~= reqs_v(before) + color_cmd(c, bg, rgb, ct));
    }
}

/// The commands that push `rgb` **instantly** (`sudden`) to the enabled targets. Each
/// target uses its RGB method if supported, else color temperature. They go out over
/// a music channel or the direct client alike.
pub fn color_requests(rgb: Rgb, caps: Caps, main: bool, bg: bool) -> (r: Vec<Request>)
    ensures
        reqs_v(r@) == color_plan(rgb, caps, main, bg),
{
    let mut out: Vec<Request> = Vec::new();
    assert(reqs_v(out@) =~= Seq::empty());
    if main {
        push_color_cmd(&mut out, rgb, false, caps.main_rgb, caps.main_ct);
    }
    let ghost mid = reqs_v(out@);
    if bg {
        push_color_cmd(&mut out, rgb, true, caps.bg_rgb, caps.bg_ct);
    }
    assert(reqs_v(out@) =~= color_plan(rgb, caps, main, bg));
    out
}

/// Parameters `count, 1 (stay), text` of a color flow that holds its last color.
pub open spec fn stay_flow_params(count: u32, text: Seq<char>) -> Seq<JsonV> {
    seq![uint_v(count as nat), uint_v(1), str_v(text)]
}

/// The flow command for one light: an RGB flow when the light supports RGB, else a
/// temperature flow, else nothing; or the flow's validation message.
pub open spec fn flow_cmd(
    colors: Seq<Rgb>,
    step_ms: u32,
    bg: bool,
    rgb: bool,
    ct: bool,
) -> std::result::Result<Seq<(Seq<char>, Seq<JsonV>)>, Seq<char>> {
    let method = if bg {
        "bg_start_cf"@
    } else {
        "start_cf"@
    };
    let count = colors.len() as u32;
    if rgb {
        match render_v(colors.map_values(|c: Rgb| rgb_tuple(c, step_ms))) {
            Ok(t) => Ok(seq![(method, stay_flow_params(count, t))]),
            Err(m) => Err(m),
        }
    } else if ct {
        match render_v(colors.map_values(|c: Rgb| ct_tuple(c, step_ms))) {
            Ok(t) => Ok(seq![(method, stay_flow_params(count, t))]),
            Err(m) => Err(m),
        }
    } else {
        Ok(Seq::empty())
    }
}

/// What one instant color command for light `bg` may be: RGB with the color's
/// value, or color temperature with the color's approximate temperature, sent at
/// once (`"sudden"`, `0`), to the light's own method.
pub open spec fn instant_color_for(cmd: (Seq<char>, Seq<JsonV>), c: Rgb, bg: bool) -> bool {
    &&& cmd.1.len() == 3
    &&& cmd.1[1] == str_v("sudden"@)
    &&& cmd.1[2] == uint_v(0)
    &&& ((cmd.0 == (if bg { "bg_set_rgb"@ } else { "set_rgb"@ }) && cmd.1[0] == uint_v(rgb_value_v(c))) || (
    cmd.0 == (if bg { "bg_set_ct_abx"@ } else { "set_ct_abx"@ }) && cmd.1[0] == uint_v(rgb_to_ct_v(c))))
}

/// The instant path sends each enabled light at most one command, for that light
/// (main first), carrying `c` as an RGB value or as a temperature; the RGB form is
/// used whenever the light supports it.
pub proof fn instant_colors_go_to_their_lights(c: Rgb, caps: Caps, main: bool, bg: bool)
    ensures
        color_plan(c, caps, main, bg).len() == (if main && (caps.main_rgb || caps.main_ct) { 1nat } else { 0 })
            + (if bg && (caps.bg_rgb || caps.bg_ct) { 1nat } else { 0 }),
        main && (caps.main_rgb || caps.main_ct) ==> instant_color_for(color_plan(c, caps, main, bg)[0], c, false)
            && (caps.main_rgb ==> color_plan(c, caps, main, bg)[0].0 == "set_rgb"@),
        bg && (caps.bg_rgb || caps.bg_ct) ==> instant_color_for(
            color_plan(c, caps, main, bg)[color_plan(c, caps, main, bg).len() - 1],
            c,
            true,
        ) && (caps.bg_rgb ==> color_plan(c, caps, main, bg)[color_plan(c, caps, main, bg).len() - 1].0
            == "bg_set_rgb"@),
{
}

/// Every flow that `flow_cmd` builds holds its last color when it ends: its action
/// parameter is [`FlowAction::Stay`]'s code; it goes to `bg_start_cf` exactly for the
/// background light.
proof fn lemma_flow_cmd_stays(colors: Seq<Rgb>, step_ms: u32, bg: bool, rgb: bool, ct: bool)
    ensures
        flow_cmd(colors, step_ms, bg, rgb, ct) matches Ok(cmds) ==> forall|i: int|
            0 <= i < cmds.len() ==> (#[trigger] cmds[i]).1.len() == 3 && cmds[i].1[1] == uint_v(
                FlowAction::Stay.code_v() as nat,
            ) && cmds[i].0 == (if bg {
                "bg_start_cf"@
            } else {
                "start_cf"@
            }) && (colors.len() <= u32::MAX ==> cmds[i].1[0] == uint_v(colors.len())),
{
}

/// The ambient flow path never lets a light fall back to its pre-flow color: every
/// flow it sends has the action [`FlowAction::Stay`] (hold the last color until the
/// next flow), and goes as `start_cf` to the main light or `bg_start_cf` to the
/// background light, each only when that light is enabled.
pub proof fn ambient_flows_hold_last_color(colors: Seq<Rgb>, step_ms: u32, caps: Caps, main: bool, bg: bool)
    ensures
        flow_plan(colors, step_ms, caps, main, bg) matches Ok(cmds) ==> forall|i: int|
            0 <= i < cmds.len() ==> (#[trigger] cmds[i]).1.len() == 3 && cmds[i].1[1] == uint_v(
                FlowAction::Stay.code_v() as nat,
            ) && ((cmds[i].0 == "start_cf"@ && main) || (cmds[i].0 == "bg_start_cf"@ && bg)) && (
            colors.len() <= u32::MAX ==> cmds[i].1[0] == uint_v(colors.len())),
{
    lemma_flow_cmd_stays(colors, step_ms, false, caps.main_rgb, caps.main_ct);
    lemma_flow_cmd_stays(colors, step_ms, true, caps.bg_rgb, caps.bg_ct);
    if colors.len() > 0 {
        let m = if main {
            flow_cmd(colors, step_ms, false, caps.main_rgb, caps.main_ct)
        } else {
            Ok(Seq::empty())
        };
        let b = if bg {
            flow_cmd(colors, step_ms, true, caps.bg_rgb, caps.bg_ct)
        } else {
            Ok(Seq::empty())
        };
        if let (Ok(x), Ok(y)) = (m, b) {
            let cmds = x + y;
            assert forall|i: int| 0 <= i < cmds.len() implies (#[trigger] cmds[i]).1.len() == 3 && cmds[i].1[1]
                == uint_v(FlowAction::Stay.code_v() as nat) && ((cmds[i].0 == "start_cf"@ && main) || (
            cmds[i].0 == "bg_start_cf"@ && bg)) && (colors.len() <= u32::MAX ==> cmds[i].1[0] == uint_v(
                colors.len(),
            )) by {
                if i < x.len() {
                    assert(cmds[i] == x[i]);
                } else {
                    assert(cmds[i] == y[i - x.len()]);
                }
            }
        }
    }
}

/// The commands that play `colors` as one flow on the enabled targets (main first),
/// or the first validation message; nothing for no colors.
pub open spec fn flow_plan(
    colors: Seq<Rgb>,
    step_ms: u32,
    caps: Caps,
    main: bool,
    bg: bool,
) -> std::result::Result<Seq<(Seq<char>, Seq<JsonV>)>, Seq<char>> {
    if colors.len() == 0 {
        Ok(Seq::empty())
    } else {
        let m = if main {
            flow_cmd(colors, step_ms, false, caps.main_rgb, caps.main_ct)
        } else {
            Ok(Seq::empty())
        };
        let b = if bg {
            flow_cmd(colors, step_ms, true, caps.bg_rgb, caps.bg_ct)
        } else {
            Ok(Seq::empty())
        };
        match m {
            Err(e) => Err(e),
            Ok(x) => match b {
                Err(e) => Err(e),
                Ok(y) => Ok(x + y),
            },
        }
    }
}

/// Appends the flow command for one light to `out`.
fn push_flow_cmd(
    out: &mut Vec<Request>,
    colors: &[Rgb],
    step_ms: u32,
    bg: bool,
    rgb: bool,
    ct: bool,
) -> (r: Result<()>)
    ensures
        match flow_cmd(colors@, step_ms, bg, rgb, ct) {
            Ok(cmds) => r is Ok && reqs_v(final(out)@) == reqs_v(old(out)@) + cmds,
            Err(m) => r matches Err(e) && crate::error::invalid_param(e, m),
        },
{
    let ghost before = out@;
    if !rgb && !ct {
        assert(reqs_v(out@) =~= reqs_v(before) + Seq::empty());
        return Ok(());
    }
    let count = colors.len() as u32;
    let expr = if rgb {
        rgb_flow(colors, step_ms)
    } else {
        ct_flow(colors, step_ms)
    };
    let q = if bg {
        Request::bg_start_cf(count, FlowAction::Stay, expr)
    } else {
        Request::start_cf(count, FlowAction::Stay, expr)
    };
    match q {
        Ok(q) => {
            out.push(q);
            assert(reqs_v(out@) =~= reqs_v(before) + seq![req_v(q)]);
            Ok(())
        },
        Err(e) => Err(e),
    }
}

/// The smooth path: the commands that play `colors` as a single `start_cf` color flow,
/// each held `step_ms`, on the enabled targets. An RGB target uses a color flow; a
/// white-only target uses a color-temperature flow; the flow holds its last color
/// (`stay`) until the next one arrives.
pub fn flow_requests(colors: &[Rgb], step_ms: u32, caps: Caps, main: bool, bg: bool) -> (r: Result<Vec<Request>>)
    ensures
        match flow_plan(colors@, step_ms, caps, main, bg) {
            Ok(cmds) => r matches Ok(rs) && reqs_v(rs@) == cmds,
            Err(m) => r matches Err(e) && crate::error::invalid_param(e, m),
        },
{
    let mut out: Vec<Request> = Vec::new();
    assert(reqs_v(out@) =~= Seq::empty());
    if colors.len() == 0 {
        return Ok(out);
    }
    if main {
        match push_flow_cmd(&mut out, colors, step_ms, false, caps.main_rgb, caps.main_ct) {
            Ok(()) => {},
            Err(e) => {
                return Err(e);
            },
        }
    }
    let ghost mid = reqs_v(out@);
    if bg {
        match push_flow_cmd(&mut out, colors, step_ms, true, caps.bg_rgb, caps.bg_ct) {
            Ok(()) => {},
            Err(e) => {
                return Err(e);
            },
        }
    }
    assert(reqs_v(out@) =~= mid + (if bg {
        match flow_cmd(colors@, step_ms, true, caps.bg_rgb, caps.bg_ct) {
            Ok(y) => y,
            Err(_) => Seq::empty(),
        }
    } else {
        Seq::empty()
    }));
    Ok(out)
}

} // verus!
