use yeelight_core::ambient::{
    ext_label,
    average_rgba, color_requests, crop_bounds, ct_flow, default_targets, dominant_rgba, extract_rgba,
    flow_requests, rgb_flow, rgb_to_ct, rgb_value, saturate, Caps, ExtractMode, FlowBuf, Region, Rgb,
    MAX_FLOW_STEPS,
};

/// Build a `w`×`h` RGBA buffer (tight stride) where every pixel is `(r,g,b)`.
fn solid(w: u32, h: u32, r: u8, g: u8, b: u8) -> Vec<u8> {
    let mut v = Vec::with_capacity((w * h * 4) as usize);
    for _ in 0..w * h {
        v.extend_from_slice(&[r, g, b, 255]);
    }
    v
}

const MINUTE_NS: u64 = 60_000_000_000;

#[test]
fn crop_bounds_regions() {
    assert_eq!(crop_bounds(Region::Whole, 100, 80), (0, 0, 100, 80));
    assert_eq!(crop_bounds(Region::Top, 100, 80), (0, 0, 100, 20));
    assert_eq!(crop_bounds(Region::Bottom, 100, 80), (0, 60, 100, 20));
    assert_eq!(crop_bounds(Region::Left, 100, 80), (0, 0, 25, 80));
    assert_eq!(crop_bounds(Region::Right, 100, 80), (75, 0, 25, 80));
}

#[test]
fn average_solid_buffer() {
    let buf = solid(10, 10, 200, 100, 50);
    let got = average_rgba(&buf, 10 * 4, (0, 0, 10, 10));
    assert_eq!(got, Rgb { r: 200, g: 100, b: 50 });
}

#[test]
fn average_left_band_of_split_buffer() {
    let (w, h) = (10u32, 4u32);
    let mut buf = vec![0u8; (w * h * 4) as usize];
    for row in 0..h {
        for col in 0..w {
            let i = (row * w + col) as usize * 4;
            let (r, g, b) = if col < 5 { (255, 0, 0) } else { (0, 0, 255) };
            buf[i] = r;
            buf[i + 1] = g;
            buf[i + 2] = b;
            buf[i + 3] = 255;
        }
    }
    let got = extract_rgba(&buf, (w * 4) as usize, crop_bounds(Region::Left, w, h), ExtractMode::Average);
    assert_eq!(got, Rgb { r: 255, g: 0, b: 0 });
}

#[test]
fn average_respects_padded_stride() {
    let mut buf = Vec::new();
    for _ in 0..2 {
        buf.extend_from_slice(&[255, 0, 0, 255, 255, 0, 0, 255]);
        buf.extend_from_slice(&[9, 9, 9, 9, 9, 9, 9, 9]);
    }
    let got = average_rgba(&buf, 16, (0, 0, 2, 2));
    assert_eq!(got, Rgb { r: 255, g: 0, b: 0 });
}

#[test]
fn to_u32_packs_rrggbb() {
    assert_eq!(Rgb { r: 0x12, g: 0x34, b: 0x56 }.to_u32(), 0x123456);
}

#[test]
fn saturated_is_more_saturated_than_plain_average() {
    let buf = solid(8, 8, 150, 120, 100);
    let avg = extract_rgba(&buf, 8 * 4, (0, 0, 8, 8), ExtractMode::Average);
    let sat = extract_rgba(&buf, 8 * 4, (0, 0, 8, 8), ExtractMode::AverageSaturated);
    let spread = |c: Rgb| c.r.max(c.g).max(c.b) - c.r.min(c.g).min(c.b);
    assert!(spread(sat) > spread(avg), "avg {avg:?} sat {sat:?}");
}

#[test]
fn saturated_keeps_grey_grey() {
    let buf = solid(4, 4, 128, 128, 128);
    let sat = extract_rgba(&buf, 4 * 4, (0, 0, 4, 4), ExtractMode::AverageSaturated);
    assert_eq!(sat, Rgb { r: 128, g: 128, b: 128 });
}

#[test]
fn dominant_picks_majority_color() {
    let mut buf = solid(3, 3, 0, 200, 0);
    buf[0] = 255;
    buf[1] = 0;
    buf[2] = 0;
    let got = extract_rgba(&buf, 3 * 4, (0, 0, 3, 3), ExtractMode::Dominant);
    assert!(got.g > 150 && got.r < 80 && got.b < 80, "got {got:?}");
}

#[test]
fn default_targets_prefers_main_else_bg() {
    let caps = |mr, mc, br, bc| Caps { main_rgb: mr, main_ct: mc, bg_rgb: br, bg_ct: bc };
    assert_eq!(default_targets(caps(true, false, true, false)), (true, false));
    assert_eq!(default_targets(caps(false, true, false, false)), (true, false));
    assert_eq!(default_targets(caps(false, false, true, false)), (false, true));
    assert_eq!(default_targets(caps(false, false, false, false)), (false, false));
}

#[test]
fn flow_buf_batches_a_window_then_flushes() {
    let mut fb = FlowBuf::new(0);
    let c = |n: u8| Rgb { r: n, g: n, b: n };
    assert!(fb.push(c(1), MINUTE_NS, false, 0).is_none());
    let (colors, step) = fb.push(c(2), MINUTE_NS, true, 0).expect("forced flush");
    assert_eq!(colors, vec![c(1), c(2)]);
    assert!(step >= 50, "step floored at the 50ms flow minimum: {step}");
}

#[test]
fn rgb_flow_renders_expected_wire_string() {
    let colors = [Rgb { r: 255, g: 0, b: 0 }, Rgb { r: 0, g: 255, b: 0 }, Rgb { r: 0, g: 0, b: 255 }];
    let s = rgb_flow(&colors, 100).render().expect("valid flow");
    assert_eq!(s, "100,1,16711680,-1,100,1,65280,-1,100,1,255,-1");
}

#[test]
fn ct_flow_maps_each_color_to_temperature() {
    let s = ct_flow(&[Rgb { r: 255, g: 0, b: 0 }], 200).render().expect("valid flow");
    assert!(s.starts_with("200,2,"), "ct tuple: {s}");
    assert!(s.ends_with(",-1"), "brightness kept: {s}");
}

#[test]
fn flow_buf_caps_at_max_steps() {
    let mut fb = FlowBuf::new(0);
    for n in 0..(MAX_FLOW_STEPS as u8 + 5) {
        let _ = fb.push(Rgb { r: n, g: 0, b: 0 }, MINUTE_NS, false, 0);
    }
    let (colors, _) = fb.push(Rgb::black(), 0, true, 0).expect("flush");
    assert_eq!(colors.len(), MAX_FLOW_STEPS, "window keeps only the most recent colors");
}

#[test]
fn rgb_value_floors_black_to_one() {
    assert_eq!(rgb_value(Rgb::black()), 1);
    assert_eq!(rgb_value(Rgb { r: 0x12, g: 0x34, b: 0x56 }), 0x123456);
    assert_eq!(rgb_value(Rgb { r: 0, g: 0, b: 1 }), 1);
}

#[test]
fn rgb_to_ct_maps_warm_low_cool_high() {
    assert!(rgb_to_ct(Rgb { r: 255, g: 0, b: 0 }) < 2000, "red is warm");
    assert!(rgb_to_ct(Rgb { r: 0, g: 0, b: 255 }) > 6000, "blue is cool");
    let grey = rgb_to_ct(Rgb { r: 128, g: 128, b: 128 });
    assert!((3500..=4700).contains(&grey), "grey is mid: {grey}");
}

#[test]
fn rgb_to_ct_exact_values() {
    assert_eq!(rgb_to_ct(Rgb { r: 255, g: 0, b: 0 }), 1700);
    assert_eq!(rgb_to_ct(Rgb { r: 0, g: 0, b: 255 }), 6500);
    assert_eq!(rgb_to_ct(Rgb { r: 128, g: 128, b: 128 }), 4100);
}

#[test]
fn crop_bounds_edges() {
    assert_eq!(crop_bounds(Region::Top, 10, 0), (0, 0, 10, 0));
    assert_eq!(crop_bounds(Region::Bottom, 10, 3), (0, 2, 10, 1));
    assert_eq!(crop_bounds(Region::Right, 1, 7), (0, 0, 1, 7));
    // Past 2^24 the quarter is taken of the single-precision value.
    assert_eq!(crop_bounds(Region::Left, 16_777_217, 1), (0, 0, 4_194_304, 1));
}

#[test]
fn average_skips_pixels_past_the_buffer() {
    let buf = solid(2, 1, 10, 20, 30);
    let got = average_rgba(&buf, 8, (0, 0, 4, 1));
    assert_eq!(got, Rgb { r: 10, g: 20, b: 30 });
    assert_eq!(average_rgba(&buf, 8, (0, 5, 1, 1)), Rgb::black());
}

#[test]
fn dominant_of_nothing_is_the_last_bin() {
    let got = dominant_rgba(&[], 4, (0, 0, 2, 2));
    assert_eq!(got, Rgb { r: 224, g: 224, b: 224 });
    let buf = solid(2, 2, 10, 70, 200);
    assert_eq!(dominant_rgba(&buf, 8, (0, 0, 2, 2)), Rgb { r: 32, g: 96, b: 224 });
}

#[test]
fn saturate_exact_values() {
    assert_eq!(saturate(Rgb { r: 150, g: 120, b: 100 }), Rgb { r: 150, g: 108, b: 80 });
    assert_eq!(saturate(Rgb { r: 200, g: 0, b: 100 }), Rgb { r: 200, g: 0, b: 100 });
    assert_eq!(saturate(Rgb { r: 54, g: 6, b: 34 }), Rgb { r: 54, g: 0, b: 31 });
}

#[test]
fn flow_buf_waits_for_the_gap() {
    let mut fb = FlowBuf::new(1_000_000_000);
    let c = Rgb { r: 1, g: 2, b: 3 };
    assert!(fb.push(c, 500_000_000, false, 1_200_000_000).is_none());
    let (colors, step) = fb.push(c, 500_000_000, false, 1_600_000_000).expect("due");
    assert_eq!(colors.len(), 2);
    assert_eq!(step, 300);
    assert!(fb.push(c, 500_000_000, false, 1_700_000_000).is_none());
}

#[test]
fn color_requests_pick_rgb_then_ct() {
    let caps = Caps { main_rgb: true, main_ct: true, bg_rgb: false, bg_ct: true };
    let rs = color_requests(Rgb { r: 255, g: 0, b: 0 }, caps, true, true);
    let methods: Vec<&str> = rs.iter().map(|r| r.method.as_str()).collect();
    assert_eq!(methods, vec!["set_rgb", "bg_set_ct_abx"]);
    let none = Caps { main_rgb: false, main_ct: false, bg_rgb: false, bg_ct: false };
    assert!(color_requests(Rgb::black(), none, true, true).is_empty());
}

#[test]
fn flow_requests_one_per_target() {
    let caps = Caps { main_rgb: false, main_ct: true, bg_rgb: true, bg_ct: false };
    let rs = flow_requests(&[Rgb { r: 0, g: 0, b: 255 }], 100, caps, true, true).unwrap();
    let methods: Vec<&str> = rs.iter().map(|r| r.method.as_str()).collect();
    assert_eq!(methods, vec!["start_cf", "bg_start_cf"]);
    assert!(flow_requests(&[Rgb::black()], 10, caps, true, false).is_err());
    assert!(flow_requests(&[], 10, caps, true, true).unwrap().is_empty());
}

#[test]
fn saturate_keeps_value_and_never_narrows_spread() {
    let spread = |c: Rgb| c.r.max(c.g).max(c.b) - c.r.min(c.g).min(c.b);
    let top = |c: Rgb| c.r.max(c.g).max(c.b);
    for r in (0..=255u16).step_by(17) {
        for g in (0..=255u16).step_by(15) {
            for b in (0..=255u16).step_by(51) {
                let c = Rgb { r: r as u8, g: g as u8, b: b as u8 };
                let s = saturate(c);
                assert_eq!(top(s), top(c), "value kept for {c:?} -> {s:?}");
                assert!(spread(s) >= spread(c), "spread kept for {c:?} -> {s:?}");
            }
        }
    }
}

#[test]
fn saturate_never_reorders_channels() {
    for r in (0..=255u16).step_by(5) {
        for g in (0..=255u16).step_by(7) {
            for b in (0..=255u16).step_by(51) {
                let c = Rgb { r: r as u8, g: g as u8, b: b as u8 };
                let s = saturate(c);
                assert!(c.r > c.g || s.r <= s.g, "r <= g kept for {c:?} -> {s:?}");
                assert!(c.g > c.r || s.g <= s.r, "g <= r kept for {c:?} -> {s:?}");
                assert!(c.r > c.b || s.r <= s.b, "r <= b kept for {c:?} -> {s:?}");
                assert!(c.b > c.r || s.b <= s.r, "b <= r kept for {c:?} -> {s:?}");
                assert!(c.g > c.b || s.g <= s.b, "g <= b kept for {c:?} -> {s:?}");
                assert!(c.b > c.g || s.b <= s.g, "b <= g kept for {c:?} -> {s:?}");
            }
        }
    }
}

#[test]
fn extraction_chip_labels() {
    assert_eq!(ext_label(ExtractMode::Average), "Average");
    assert_eq!(ext_label(ExtractMode::Dominant), "Dominant");
    assert_eq!(ext_label(ExtractMode::AverageSaturated), "Saturated");
}
