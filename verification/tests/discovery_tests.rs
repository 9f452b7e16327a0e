use yeelight_core::discovery::{parse_headers, ssdp_addr, SEARCH_MSG, SSDP_PORT};
use yeelight_core::{Ip, Ipv4, Ipv6, Location, Model};

const SEARCH_RESPONSE: &str = "HTTP/1.1 200 OK\r\nCache-Control: max-age=3600\r\nDate:\r\nExt:\r\nLocation: yeelight://192.168.1.239:55443\r\nServer: POSIX UPnP/1.0 YGLC/1\r\nid: 0x000000000015243f\r\nmodel: color\r\nfw_ver: 18\r\nsupport: get_prop set_default set_power toggle set_bright start_cf stop_cf set_scene cron_add cron_get cron_del set_ct_abx set_rgb\r\npower: on\r\nbright: 100\r\ncolor_mode: 2\r\nct: 4000\r\nrgb: 16711680\r\nhue: 100\r\nsat: 35\r\nname: my_bulb\r\n";

const ADVERTISEMENT: &str = "NOTIFY * HTTP/1.1\r\nHost: 239.255.255.250:1982\r\nCache-Control: max-age=3600\r\nLocation: yeelight://192.168.1.239:55443\r\nNTS: ssdp:alive\r\nServer: POSIX, UPnP/1.0 YGLC/1\r\nid: 0x000000000015243f\r\nmodel: color\r\nfw_ver: 18\r\nsupport: get_prop set_power\r\npower: off\r\nbright: 50\r\n";

fn loc() -> Location {
    Location { ip: Ip::V4(Ipv4 { a: 192, b: 168, c: 1, d: 239 }), port: 55443 }
}

#[test]
fn parses_search_response() {
    let d = parse_headers(SEARCH_RESPONSE).expect("valid response");
    assert_eq!(d.id, "0x000000000015243f");
    assert_eq!(d.model, Model::Color);
    assert_eq!(d.location, loc());
    assert!(d.supports("set_rgb"));
    assert_eq!(d.state.power, Some(true));
    assert_eq!(d.state.bright, Some(100));
}

#[test]
fn parses_advertisement() {
    let d = parse_headers(ADVERTISEMENT).expect("valid advertisement");
    assert_eq!(d.id, "0x000000000015243f");
    assert_eq!(d.state.power, Some(false));
    assert_eq!(d.state.bright, Some(50));
}

#[test]
fn rejects_non_yeelight_start_line() {
    assert!(parse_headers("GARBAGE\r\nid: 0x1\r\n").is_none());
}

#[test]
fn search_response_state_fields() {
    let d = parse_headers(SEARCH_RESPONSE).unwrap();
    assert_eq!(d.fw_ver, "18");
    assert_eq!(d.state.color_mode, Some(2));
    assert_eq!(d.state.ct, Some(4000));
    assert_eq!(d.state.rgb, Some(16711680));
    assert_eq!(d.state.hue, Some(100));
    assert_eq!(d.state.sat, Some(35));
    assert_eq!(d.state.name.as_deref(), Some("my_bulb"));
    assert_eq!(d.support.len(), 13);
    assert!(!d.supports("bg_set_rgb"));
}

#[test]
fn missing_id_or_location_is_dropped() {
    assert!(parse_headers("HTTP/1.1 200 OK\r\nLocation: yeelight://1.2.3.4:55443\r\n").is_none());
    assert!(parse_headers("HTTP/1.1 200 OK\r\nid: 0x1\r\n").is_none());
    assert!(parse_headers("HTTP/1.1 200 OK\r\nid: 0x1\r\nLocation: http://1.2.3.4:55443\r\n").is_none());
    assert!(parse_headers("HTTP/1.1 200 OK\r\nid: 0x1\r\nLocation: yeelight://1.2.3.256:55443\r\n").is_none());
    assert!(parse_headers("HTTP/1.1 200 OK\r\nid: 0x1\r\nLocation: yeelight://01.2.3.4:55443\r\n").is_none());
    assert!(parse_headers("").is_none());
}

#[test]
fn header_names_are_case_insensitive_and_last_wins() {
    let text = "NOTIFY * HTTP/1.1\r\nID: 0xa\r\nLOCATION: yeelight://10.0.0.2:1\r\nid: 0xb\r\nMain_Power: on\r\nsupport: a b a\r\n";
    let d = parse_headers(text).unwrap();
    assert_eq!(d.id, "0xb");
    assert_eq!(d.location, Location { ip: Ip::V4(Ipv4 { a: 10, b: 0, c: 0, d: 2 }), port: 1 });
    assert_eq!(d.state.power, Some(true));
    assert_eq!(d.model, Model::Unknown(String::new()));
    assert_eq!(d.support.len(), 2);
}

#[test]
fn discovery_constants() {
    assert_eq!(SSDP_PORT, 1982);
    assert_eq!(ssdp_addr(), Ipv4 { a: 239, b: 255, c: 255, d: 250 });
    assert!(SEARCH_MSG.starts_with("M-SEARCH * HTTP/1.1\r\n"));
    assert!(SEARCH_MSG.contains("ST: wifi_bulb"));
}

#[test]
fn location_text_reads_back() {
    let l = loc();
    assert_eq!(l.to_text(), "192.168.1.239:55443");
    let text = format!("HTTP/1.1 200 OK\r\nid: x\r\nLocation: yeelight://{}\r\n", l.to_text());
    assert_eq!(parse_headers(&text).unwrap().location, l);
}

#[test]
fn model_names_round_trip() {
    for name in ["mono", "color", "stripe", "ceiling", "bslamp", "other"] {
        assert_eq!(Model::parse(name).name(), name);
    }
    assert_eq!(Model::parse("bslamp"), Model::BsLamp);
    assert_eq!(Model::parse("lamp1"), Model::Unknown("lamp1".to_string()));
}

#[test]
fn location_host_and_text() {
    let l = Location { ip: Ip::V4(Ipv4 { a: 192, b: 168, c: 1, d: 239 }), port: 55443 };
    assert_eq!(l.host_text(), "192.168.1.239");
    assert_eq!(l.to_text(), "192.168.1.239:55443");
}

fn parse_loc(s: &str) -> Option<Location> {
    let chars: Vec<char> = s.chars().collect();
    yeelight_core::discovery::parse_location(&chars)
}

fn v6(s: [u16; 8], scope: u32, port: u16) -> Location {
    let addr = Ipv6 { s0: s[0], s1: s[1], s2: s[2], s3: s[3], s4: s[4], s5: s[5], s6: s[6], s7: s[7] };
    Location { ip: Ip::V6 { addr, scope }, port }
}

#[test]
fn ipv6_locations_parse_like_socket_addr() {
    assert_eq!(parse_loc("[fe80::1]:55443"), Some(v6([0xfe80, 0, 0, 0, 0, 0, 0, 1], 0, 55443)));
    assert_eq!(parse_loc("[FE80::1%3]:80"), Some(v6([0xfe80, 0, 0, 0, 0, 0, 0, 1], 3, 80)));
    assert_eq!(parse_loc("[::ffff:192.168.1.2]:1"), Some(v6([0, 0, 0, 0, 0, 0xffff, 0xc0a8, 0x0102], 0, 1)));
    assert_eq!(parse_loc("[1:2:3:4:5:6:7:8]:9"), Some(v6([1, 2, 3, 4, 5, 6, 7, 8], 0, 9)));
    assert_eq!(parse_loc("[::]:0"), Some(v6([0; 8], 0, 0)));
    for bad in ["[fe80::1::2]:1", "[12345::]:1", "[::1]", "[1:2:3:4:5:6:7:8:9]:1", "fe80::1:80", "[1.2.3.4]:1", "[::1]:65536"] {
        assert_eq!(parse_loc(bad), None, "{bad}");
    }
}

#[test]
fn ipv6_locations_display_like_socket_addr() {
    let cases: [(&str, Location); 5] = [
        ("[fe80::1]:55443", v6([0xfe80, 0, 0, 0, 0, 0, 0, 1], 0, 55443)),
        ("[fe80::1%3]:80", v6([0xfe80, 0, 0, 0, 0, 0, 0, 1], 3, 80)),
        ("[::ffff:192.168.1.2]:1", v6([0, 0, 0, 0, 0, 0xffff, 0xc0a8, 0x0102], 0, 1)),
        ("[1::2:0:0:3:4]:5", v6([1, 0, 0, 2, 0, 0, 3, 4], 0, 5)),
        ("[1:0:2:3:4:5:6:7]:8", v6([1, 0, 2, 3, 4, 5, 6, 7], 0, 8)),
    ];
    for (text, l) in cases {
        assert_eq!(l.to_text(), text);
        assert_eq!(parse_loc(text), Some(l));
    }
}

#[test]
fn parses_ipv6_advertisement() {
    let text = "NOTIFY * HTTP/1.1\r\nLocation: yeelight://[fe80::1]:55443\r\nid: 0x1\r\n";
    let d = parse_headers(text).expect("valid advertisement");
    assert_eq!(d.location, v6([0xfe80, 0, 0, 0, 0, 0, 0, 1], 0, 55443));
}

#[test]
fn search_keeps_last_device_per_id() {
    let text = |id: &str, fw: &str| {
        format!("HTTP/1.1 200 OK\r\nLocation: yeelight://10.0.0.2:55443\r\nid: {id}\r\nfw_ver: {fw}\r\n")
    };
    let heard: Vec<_> = [text("0x1", "1"), text("0x2", "1"), text("0x1", "2")]
        .iter()
        .map(|t| parse_headers(t).unwrap())
        .collect();
    let found = yeelight_core::discovery::merge_devices(heard);
    assert_eq!(found.len(), 2);
    assert_eq!(found[0].id, "0x1");
    assert_eq!(found[0].fw_ver, "2");
    assert_eq!(found[1].id, "0x2");
}
