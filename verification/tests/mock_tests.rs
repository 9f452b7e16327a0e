use yeelight_core::json::Json;
use yeelight_core::mock::{apply, initial_props, mock_id, respond, search_response, support_line, Meta, MockReply, Props};
use yeelight_core::discovery::parse_headers;
use yeelight_core::{Ip, Ipv4, Location, Model};

#[test]
fn apply_mutates_and_reports_changes() {
    let mut s = Props::new();

    let (r, changed) = apply(&mut s, "set_power", &[Json::from_str("on")]);
    assert_eq!(r, MockReply::Ack);
    assert_eq!(changed, vec!["power"]);
    assert_eq!(s.get("power").unwrap(), "on");

    let (props, _) = apply(&mut s, "get_prop", &[Json::from_str("power"), Json::from_str("missing")]);
    assert_eq!(props, MockReply::Values(vec!["on".to_string(), String::new()]));

    let (_, c) = apply(&mut s, "set_rgb", &[Json::from_u64(16711680)]);
    assert_eq!(c, vec!["rgb", "color_mode"]);
    assert_eq!(s.get("rgb").unwrap(), "16711680");
    assert_eq!(s.get("color_mode").unwrap(), "1");

    let (_, c) = apply(&mut s, "toggle", &[]);
    assert_eq!(c, vec!["power"]);
    assert_eq!(s.get("power").unwrap(), "off");

    let (r, c) = apply(&mut s, "bg_set_power", &[Json::from_str("on")]);
    assert_eq!(r, MockReply::Ack);
    assert!(c.is_empty());
}

#[test]
fn respond_answers_and_reports() {
    let mut s = initial_props(3);
    assert_eq!(s.get("name").unwrap(), "mock-3");
    let a = respond(&mut s, r#"{"id":9,"method":"set_hsv","params":[120,55]}"#).unwrap();
    assert_eq!(a.id, 9);
    assert_eq!(a.reply, MockReply::Ack);
    assert_eq!(
        a.changed,
        vec![
            ("hue".to_string(), "120".to_string()),
            ("sat".to_string(), "55".to_string()),
            ("color_mode".to_string(), "3".to_string()),
        ]
    );
    assert!(respond(&mut s, "garbage").is_none());
    let a = respond(&mut s, r#"{"method":"get_prop","params":["sat",7]}"#).unwrap();
    assert_eq!(a.id, 0);
    assert_eq!(a.reply, MockReply::Values(vec!["55".to_string()]));
}

#[test]
fn mock_discovery_response_parses_back() {
    let meta = Meta {
        id: mock_id(55443),
        location: Location { ip: Ip::V4(Ipv4 { a: 127, b: 0, c: 0, d: 1 }), port: 55443 },
        model: "color".to_string(),
        fw_ver: "1".to_string(),
        support: support_line(),
    };
    assert_eq!(meta.id, "0x000000000000d893");
    let s = initial_props(0);
    let text = search_response(&meta, &s);
    let d = parse_headers(&text).expect("mock response parses");
    assert_eq!(d.id, meta.id);
    assert_eq!(d.location, meta.location);
    assert_eq!(d.model, Model::Color);
    assert_eq!(d.state.power, Some(false));
    assert_eq!(d.state.ct, Some(4000));
    assert_eq!(d.state.name.as_deref(), Some("mock-0"));
    assert!(d.supports("bg_set_ct_abx"));
    assert_eq!(d.support.len(), 29);
}
