use yeelight_core::ambient::{color_requests, flow_requests, Caps, Rgb};
use yeelight_core::driver::{ambient_period_ms, flow_gap_ns, sink_fps, Driver, PowerUp};

#[test]
fn pacing() {
    assert_eq!(sink_fps(true), 15);
    assert_eq!(sink_fps(false), 2);
    assert_eq!(ambient_period_ms(true, true, true), 66);
    assert_eq!(ambient_period_ms(false, true, true), 1000);
    assert_eq!(ambient_period_ms(false, false, false), 500);
    assert_eq!(flow_gap_ns(true), 500_000_000);
    assert_eq!(flow_gap_ns(false), 1_000_000_000);
}

#[test]
fn newly_enabled_targets_power_on_once() {
    let mut d = Driver::new(false);
    assert_eq!(d.power_step(true, false), PowerUp { main: true, bg: false, force: true });
    assert_eq!(d.power_step(true, false), PowerUp { main: false, bg: false, force: false });
    assert_eq!(d.power_step(false, true), PowerUp { main: false, bg: true, force: true });
    assert_eq!(d.power_step(true, true), PowerUp { main: true, bg: false, force: true });
}

#[test]
fn dedup_and_error_streaks() {
    let mut d = Driver::new(false);
    let c = Rgb { r: 100, g: 100, b: 100 };
    assert!(d.ambient_due(c, false));
    assert_eq!(d.ambient_outcome(c, Some(Ok(()))), None);
    assert!(!d.ambient_due(Rgb { r: 104, g: 96, b: 100 }, false));
    assert!(d.ambient_due(Rgb { r: 105, g: 100, b: 100 }, false));
    assert!(d.ambient_due(c, true));
    assert_eq!(d.ambient_outcome(c, Some(Err("down".to_string()))), Some("down".to_string()));
    assert_eq!(d.ambient_outcome(c, Some(Err("still".to_string()))), None);
    assert_eq!(d.ambient_outcome(c, Some(Ok(()))), None);
    assert_eq!(d.ambient_outcome(c, Some(Err("again".to_string()))), Some("again".to_string()));
}

#[test]
fn music_failure_falls_back_to_direct() {
    let mut d = Driver::new(true);
    let c = Rgb { r: 1, g: 2, b: 3 };
    d.ambient_outcome(c, None);
    assert_eq!(d.last_sent, Some(c));
    assert_eq!(d.ambient_outcome(c, Some(Err("gone".to_string()))), None);
    assert!(!d.music);
    assert_eq!(d.last_sent, None);
}

#[test]
fn audio_sends_every_fifteenth_frame_per_target() {
    let mut d = Driver::new(false);
    let c = Rgb { r: 9, g: 9, b: 9 };
    let mut sent = 0;
    for _ in 0..30 {
        if d.audio_due(c, false, true, false) {
            sent += 1;
        }
    }
    assert_eq!(sent, 2);
    d.audio_outcome(c, Some(Ok(())));
    let mut sent = 0;
    for _ in 0..30 {
        if d.audio_due(c, false, true, false) {
            sent += 1;
        }
    }
    assert_eq!(sent, 0);
    assert!(d.audio_due(c, true, true, true));
}

#[test]
fn direct_path_stays_under_lan_command_ceiling() {
    let caps = Caps { main_rgb: true, main_ct: true, bg_rgb: true, bg_ct: true };
    let c = Rgb { r: 200, g: 40, b: 10 };
    for (main, bg) in [(false, false), (true, false), (false, true), (true, true)] {
        let period = ambient_period_ms(false, main, bg);
        let sent = color_requests(c, caps, main, bg).len() as u64;
        let flows = flow_requests(&[c, c], 500, caps, main, bg).unwrap().len() as u64;
        assert!(period >= 500);
        assert!(sent <= 2 && flows == sent);
        assert!(sent * 60_000 / period <= 120, "{main} {bg}: {sent} per {period} ms");
    }
}
