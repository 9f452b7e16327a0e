use yeelight_core::client::{check_supported, deliver, reply_outcome, route_line, Calls, Reply, Route};
use yeelight_core::json::Json;
use yeelight_core::{Device, Error, Ip, Ipv4, Location, Model, State};

fn device(support: &[&str]) -> Device {
    Device {
        id: "x".to_string(),
        model: Model::Mono,
        fw_ver: String::new(),
        location: Location { ip: Ip::V4(Ipv4 { a: 10, b: 0, c: 0, d: 1 }), port: 55443 },
        support: support.iter().map(|s| s.to_string()).collect(),
        state: State::default(),
    }
}

#[test]
fn support_check_and_force() {
    let d = device(&["set_power"]);
    assert_eq!(check_supported(&d, false, "set_power"), Ok(()));
    assert_eq!(check_supported(&d, false, "set_rgb"), Err(Error::Unsupported("set_rgb".to_string())));
    assert_eq!(check_supported(&d, true, "set_rgb"), Ok(()));
}

#[test]
fn replies_map_to_results() {
    assert!(matches!(reply_outcome(Reply::Answer(Json::Null)), Ok(Json::Null)));
    assert_eq!(
        reply_outcome(Reply::Refused { code: -1, message: "no".to_string() }).err(),
        Some(Error::Protocol { code: -1, message: "no".to_string() })
    );
    assert_eq!(reply_outcome(Reply::Closed).err(), Some(Error::NotConnected));
    assert_eq!(reply_outcome(Reply::TimedOut).err(), Some(Error::Timeout));
}

#[test]
fn lines_are_routed() {
    assert!(matches!(route_line("  \t"), Route::Skip));
    assert!(matches!(route_line(r#"{"id":4,"result":["ok"]}"#), Route::Reply { id: 4, reply: Reply::Answer(_) }));
    assert!(matches!(
        route_line(r#"{"id":5,"error":{"code":-3,"message":"x"}}"#),
        Route::Reply { id: 5, reply: Reply::Refused { code: -3, .. } }
    ));
    match route_line(r#"{"method":"props","params":{"power":"off"}}"#) {
        Route::Notify(n) => assert_eq!(n.get("power").map(String::as_str), Some("off")),
        other => panic!("expected notification, got {other:?}"),
    }
    assert!(matches!(route_line("nope"), Route::Drop(Error::Json(_))));
}

#[test]
fn call_ids_count_up_and_finished_calls_leave() {
    let mut c = Calls::new();
    assert_eq!(c.begin(), Some(1));
    assert_eq!(c.begin(), Some(2));
    assert_eq!(c.next_id(), 3);
    assert!(!c.finish(7));
    assert!(c.finish(1));
    assert!(!c.finish(1));
    assert_eq!(c.close(), vec![2]);
    assert_eq!(c.close(), Vec::<u64>::new());
}

#[test]
fn replies_reach_only_their_own_waiting_call() {
    let mut c = Calls::new();
    assert_eq!(c.begin(), Some(1));
    assert_eq!(c.begin(), Some(2));
    // A reply for a command never issued reaches nobody.
    assert!(deliver(&mut c, 9, Reply::Answer(Json::Null)).is_none());
    // Command 2's reply goes to command 2 only; command 1 keeps waiting.
    match deliver(&mut c, 2, Reply::Answer(Json::from_str("ok"))) {
        Some(Reply::Answer(v)) => assert_eq!(v.as_str(), Some("ok")),
        other => panic!("unexpected {other:?}"),
    }
    // A second reply for 2 comes too late.
    assert!(deliver(&mut c, 2, Reply::Answer(Json::Null)).is_none());
    // Command 1 timed out: its late reply is dropped.
    assert!(c.finish(1));
    assert!(deliver(&mut c, 1, Reply::Refused { code: -1, message: "busy".to_string() }).is_none());
    assert_eq!(c.close(), Vec::<u64>::new());
    assert_eq!(c.next_id(), 3);
}
