use yeelight_core::control::{
    ambient_supported, apply_op, apply_props, bg_supported, color_modes, btn_of, fits, flow_count, fmt_time, is_temp, label_for,
    music_params, op_request, resolve_op, rows_to_expr, scan_secs, tab_supported, tick_timers,
    timer_minutes, Btn, CmdKind, DetailTab, FlowField, FlowRow, Op, TimerState,
};
use yeelight_core::{Device, Ip, Ipv4, Location, Model, State};

fn device(support: &[&str]) -> Device {
    Device {
        id: "0x000000000015243f".to_string(),
        model: Model::Color,
        fw_ver: "18".to_string(),
        location: Location { ip: Ip::V4(Ipv4 { a: 192, b: 168, c: 1, d: 239 }), port: 55443 },
        support: support.iter().map(|s| s.to_string()).collect(),
        state: State::default(),
    }
}

#[test]
fn fmt_time_formats_epoch() {
    assert_eq!(fmt_time(0), "00:00:00.000");
    assert_eq!(fmt_time(3_661_500), "01:01:01.500");
}

#[test]
fn flow_rows_build_valid_expr() {
    let rows = vec![
        FlowRow { duration: "1000".into(), mode: 1, value: "16711680".into(), bright: "100".into() },
        FlowRow { duration: "500".into(), mode: 2, value: "2700".into(), bright: "50".into() },
    ];
    let expr = rows_to_expr(&rows).unwrap();
    assert_eq!(expr.render().unwrap(), "1000,1,16711680,100,500,2,2700,50");
}

#[test]
fn flow_rows_reject_short_duration() {
    let rows = vec![FlowRow { duration: "10".into(), mode: 1, value: "1".into(), bright: "1".into() }];
    assert!(rows_to_expr(&rows).unwrap().render().is_err());
}

#[test]
fn flow_rows_fall_back_on_bad_fields() {
    let rows = vec![FlowRow { duration: "x".into(), mode: 7, value: "".into(), bright: "loud".into() }];
    let e = rows_to_expr(&rows).unwrap();
    assert_eq!((e.0[0].duration, e.0[0].value, e.0[0].brightness), (0, 0, -1));
    assert_eq!(rows_to_expr(&[]).err().unwrap(), "flow has no steps");
}

#[test]
fn flow_row_set_fields() {
    let mut r = FlowRow::default();
    assert_eq!((r.duration.as_str(), r.mode, r.value.as_str(), r.bright.as_str()), ("1000", 1, "16711680", "100"));
    r.set(FlowField::Mode, "2".to_string());
    assert_eq!(r.mode, 2);
    r.set(FlowField::Mode, "seven".to_string());
    assert_eq!(r.mode, 2);
    r.set(FlowField::Duration, "50".to_string());
    assert_eq!(r.duration, "50");
}

#[test]
fn fmt_time_wraps_days() {
    assert_eq!(fmt_time(86_400_000 + 59_999), "00:00:59.999");
}

#[test]
fn op_labels() {
    assert_eq!(Op::Toggle(false).label(), "main light power set");
    assert_eq!(Op::SetPower(true, false).label(), "background light power set");
    assert_eq!(Op::SetRgb(false, 0xFF).label(), "main light color set to #0000FF");
    assert_eq!(Op::SetRgb(true, 0x12ABCDEF).label(), "background light color set to #12ABCDEF");
    assert_eq!(Op::SetBright(false, 40).label(), "main light brightness set to 40%");
    assert_eq!(Op::SetCt(true, 2700).label(), "background light temperature set to 2700K");
}

#[test]
fn toggle_resolves_by_support() {
    let mut d = device(&["set_power"]);
    d.state.power = Some(true);
    assert_eq!(resolve_op(&d, false, CmdKind::Toggle), Op::SetPower(false, false));
    let d2 = device(&["toggle"]);
    assert_eq!(resolve_op(&d2, false, CmdKind::Toggle), Op::Toggle(false));
    assert_eq!(resolve_op(&d2, true, CmdKind::Toggle), Op::SetPower(true, true));
    assert_eq!(resolve_op(&d2, true, CmdKind::SetTemp(3000)), Op::SetCt(true, 3000));
    assert_eq!(btn_of(CmdKind::SetBright(3)), Btn::Bright);
}

#[test]
fn optimistic_update_touches_main_only() {
    let mut s = State::default();
    apply_op(&mut s, Op::SetRgb(false, 0x123456));
    assert_eq!((s.rgb, s.color_mode), (Some(0x123456), Some(1)));
    apply_op(&mut s, Op::Toggle(false));
    assert_eq!(s.power, Some(true));
    apply_op(&mut s, Op::SetCt(true, 3000));
    assert_eq!((s.ct, s.color_mode), (None, Some(1)));
}

#[test]
fn music_and_client_commands() {
    let m = music_params(Op::SetBright(true, 30)).unwrap();
    assert_eq!(m.method, "bg_set_bright");
    assert_eq!(m.params.len(), 3);
    assert!(music_params(Op::Toggle(false)).is_none());
    let r = op_request(Op::SetPower(false, true)).unwrap();
    assert_eq!(r.method, "set_power");
    assert_eq!(op_request(Op::Toggle(true)).unwrap().method, "bg_toggle");
}

#[test]
fn notifications_merge_into_state() {
    let mut s = State::default();
    s.bright = Some(5);
    let params = vec![
        ("main_power".to_string(), "on".to_string()),
        ("bright".to_string(), "oops".to_string()),
        ("ct".to_string(), "2700".to_string()),
        ("name".to_string(), "desk".to_string()),
        ("bg_lmode".to_string(), "2".to_string()),
        ("other".to_string(), "1".to_string()),
    ];
    apply_props(&mut s, &params);
    assert_eq!(s.power, Some(true));
    assert_eq!(s.bright, Some(5));
    assert_eq!(s.ct, Some(2700));
    assert_eq!(s.name.as_deref(), Some("desk"));
    assert_eq!(s.bg_color_mode, Some(2));
}

#[test]
fn timers_tick_and_drop() {
    let mut ts = vec![
        ("a".to_string(), TimerState { remaining: Some(2) }),
        ("b".to_string(), TimerState { remaining: Some(1) }),
        ("c".to_string(), TimerState { remaining: None }),
    ];
    tick_timers(&mut ts);
    assert_eq!(ts.len(), 1);
    assert_eq!(ts[0].0, "a");
    assert_eq!(ts[0].1.remaining, Some(1));
    tick_timers(&mut ts);
    assert!(ts.is_empty());
    assert_eq!(timer_minutes("15"), Some((15, 900)));
    assert_eq!(timer_minutes("0"), None);
    assert_eq!(timer_minutes("soon"), None);
    assert_eq!(flow_count("3"), 3);
    assert_eq!(flow_count(""), 0);
}

#[test]
fn tabs_follow_support() {
    let d = device(&["set_rgb", "cron_add", "bg_set_scene"]);
    assert!(tab_supported(false, &d, DetailTab::Light, false));
    assert!(tab_supported(false, &d, DetailTab::Timer, false));
    assert!(!tab_supported(false, &d, DetailTab::Timer, true));
    assert!(tab_supported(false, &d, DetailTab::Scenes, true));
    assert!(!tab_supported(false, &d, DetailTab::Music, false));
    assert!(tab_supported(true, &d, DetailTab::Music, false));
    assert!(bg_supported(false, &d));
    assert!(!bg_supported(false, &device(&["set_rgb"])));
    assert!(fits((true, false), (true, false)));
    assert!(!fits((true, false), (false, true)));
}

#[test]
fn temperature_segment() {
    let mut d = device(&["set_rgb", "set_ct_abx"]);
    assert!(!is_temp(false, &d, false, None));
    d.state.color_mode = Some(2);
    assert!(is_temp(false, &d, false, None));
    assert!(!is_temp(false, &d, false, Some(false)));
    assert!(is_temp(false, &device(&["set_ct_abx"]), false, Some(false)));
}

#[test]
fn device_labels() {
    let mut d = device(&[]);
    assert_eq!(label_for(&d), "color 15243f");
    d.id = "a:bc".to_string();
    assert_eq!(label_for(&d), "color bc");
    d.state.name = Some("desk".to_string());
    assert_eq!(label_for(&d), "desk");
    assert_eq!(scan_secs(0), 1);
    assert_eq!(scan_secs(3), 3);
}

#[test]
fn color_modes_follow_support_or_force() {
    let d = device(&["set_ct_abx", "bg_set_rgb"]);
    assert_eq!(color_modes(false, &d, false), (false, true));
    assert_eq!(color_modes(false, &d, true), (true, false));
    assert_eq!(color_modes(true, &d, false), (true, true));
}

#[test]
fn ambient_needs_some_color_control() {
    assert!(ambient_supported(false, &device(&["bg_set_ct_abx"])));
    assert!(!ambient_supported(false, &device(&["set_power", "toggle"])));
    assert!(ambient_supported(true, &device(&[])));
}

#[test]
fn panel_refuses_out_of_range_brightness() {
    assert!(op_request(Op::SetBright(false, 0)).is_err());
    assert!(op_request(Op::SetCt(true, 9000)).is_err());
    assert_eq!(op_request(Op::SetBright(true, 40)).unwrap().method, "bg_set_bright");
}
