use yeelight_core::ambient::Caps;
use yeelight_core::panel::{
    ambient_plan, file_line, new_flow_row, reconcile_ok, rename_start, scan_step, seed_config, sync_drafts,
    timeout_from_input, unconnected, AmbientPlan, CommandLog, Drafts, LogEntry, LOG_CAP,
};
use yeelight_core::{Device, Direction, Ip, Ipv4, Location, Model, State};

fn device(id: &str) -> Device {
    Device {
        id: id.to_string(),
        model: Model::Stripe,
        fw_ver: String::new(),
        location: Location { ip: Ip::V4(Ipv4 { a: 10, b: 0, c: 0, d: 1 }), port: 55443 },
        support: Vec::new(),
        state: State::default(),
    }
}

fn entry(n: u64) -> LogEntry {
    LogEntry { time_ms: n, device: "d".to_string(), direction: Direction::Sent, line: n.to_string() }
}

#[test]
fn scans_offer_the_port_once() {
    let s = scan_step(0, false);
    assert_eq!(s.status, "0 device(s) found");
    assert!(s.offer_port && s.asked_open && !s.save_cache && !s.select_first);
    let s2 = scan_step(0, s.asked_open);
    assert!(!s2.offer_port);
    let s3 = scan_step(2, true);
    assert_eq!(s3.status, "2 device(s) found");
    assert!(s3.save_cache && s3.select_first);
}

#[test]
fn only_unconnected_devices_connect() {
    let ds = vec![device("a"), device("b"), device("c")];
    assert_eq!(unconnected(&ds, &["b".to_string()]), vec![0, 2]);
    assert!(unconnected(&ds, &["a".to_string(), "b".to_string(), "c".to_string()]).is_empty());
}

#[test]
fn command_log_keeps_the_newest() {
    let mut log = CommandLog::new();
    for n in 0..(LOG_CAP as u64 + 3) {
        assert!(log.push(entry(n)));
    }
    assert_eq!(log.entries().len(), LOG_CAP);
    assert_eq!(log.entries()[0].time_ms, 3);
    log.toggle_pause();
    assert!(!log.push(entry(9999)));
    assert_eq!(log.entries().len(), LOG_CAP);
    log.clear();
    assert!(log.entries().is_empty());
    assert!(log.paused());
}

#[test]
fn log_file_lines() {
    let e = LogEntry {
        time_ms: 3_661_500,
        device: "0x1".to_string(),
        direction: Direction::Received,
        line: "{}".to_string(),
    };
    assert_eq!(file_line(&e), "01:01:01.500 UTC <- 0x1 {}");
}

#[test]
fn ambient_start_plans() {
    let none = Caps { main_rgb: false, main_ct: false, bg_rgb: false, bg_ct: false };
    let ct = Caps { main_ct: true, ..none };
    assert_eq!(ambient_plan(true, true, none), AmbientPlan::UseMusic);
    assert_eq!(ambient_plan(false, true, ct), AmbientPlan::StartMusic { fallback: true });
    assert_eq!(ambient_plan(false, true, none), AmbientPlan::StartMusic { fallback: false });
    assert_eq!(ambient_plan(false, false, ct), AmbientPlan::Direct);
    assert_eq!(ambient_plan(false, false, none), AmbientPlan::Unavailable);
    let c = seed_config(Caps { bg_rgb: true, ..none });
    assert!(!c.main && c.bg && c.smooth);
}

#[test]
fn reconciling_controls() {
    assert!(reconcile_ok(false, None));
    assert!(!reconcile_ok(false, Some(999)));
    assert!(reconcile_ok(false, Some(1000)));
    assert!(!reconcile_ok(true, None));
    let mut d = Drafts::default();
    let mut s = State::default();
    s.ct = Some(2700);
    s.color_mode = Some(2);
    s.bg_rgb = Some(0xFF);
    sync_drafts(&mut d, &s);
    assert_eq!((d.main_ct, d.main_seg, d.bg_rgb, d.main_bright), (2700, Some(true), 0xFF, 100));
}

#[test]
fn small_edits() {
    assert_eq!(timeout_from_input("1a2"), 12);
    assert_eq!(timeout_from_input("none"), 0);
    assert_eq!(rename_start(&device("x")), "stripe");
    let r = new_flow_row(true);
    assert_eq!((r.mode, r.value.as_str()), (2, "4000"));
    assert_eq!(new_flow_row(false).mode, 1);
}
