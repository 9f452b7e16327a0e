use yeelight_core::json::Json;
use yeelight_core::message::{parse_line, Incoming};
use yeelight_core::Error;

#[test]
fn parses_error_result() {
    let m = parse_line(r#"{"id":2,"error":{"code":-1,"message":"unsupported method"}}"#).unwrap();
    match m {
        Incoming::Error { id, code, message } => {
            assert_eq!(id, 2);
            assert_eq!(code, -1);
            assert_eq!(message, "unsupported method");
        }
        other => panic!("expected error, got {other:?}"),
    }
}

#[test]
fn parses_ok_result() {
    let m = parse_line(r#"{"id":3,"result":["on","100"]}"#).unwrap();
    match m {
        Incoming::Result { id, result } => {
            assert_eq!(id, 3);
            match result {
                Json::Array(items, _) => assert_eq!(items[0].as_str(), Some("on")),
                other => panic!("expected array, got {other:?}"),
            }
        }
        other => panic!("expected result, got {other:?}"),
    }
}

#[test]
fn parses_notification() {
    let m = parse_line(r#"{"method":"props","params":{"power":"on","bright":"10"}}"#).unwrap();
    match m {
        Incoming::Notification(n) => {
            assert_eq!(n.get("power").map(String::as_str), Some("on"));
            assert_eq!(n.get("bright").map(String::as_str), Some("10"));
        }
        other => panic!("expected notification, got {other:?}"),
    }
}

#[test]
fn parses_numeric_notification_values() {
    let m = parse_line(r#"{"method":"props","params":{"bright":83,"rgb":16711680}}"#).unwrap();
    match m {
        Incoming::Notification(n) => {
            assert_eq!(n.get("bright").map(String::as_str), Some("83"));
            assert_eq!(n.get("rgb").map(String::as_str), Some("16711680"));
        }
        other => panic!("expected notification, got {other:?}"),
    }
}

#[test]
fn unparseable_line_is_a_json_error() {
    assert!(matches!(parse_line("not json"), Err(Error::Json(_))));
}

#[test]
fn unrecognized_message_is_refused_with_the_line() {
    let line = r#"{"method":"other"}"#;
    match parse_line(line) {
        Err(Error::InvalidParam(m)) => assert_eq!(m, format!("unrecognized message: {line}")),
        other => panic!("expected invalid param, got {other:?}"),
    }
}

#[test]
fn error_without_fields_defaults() {
    match parse_line(r#"{"id":7,"error":{}}"#).unwrap() {
        Incoming::Error { id, code, message } => {
            assert_eq!(id, 7);
            assert_eq!(code, -1);
            assert_eq!(message, "");
        }
        other => panic!("expected error, got {other:?}"),
    }
    match parse_line(r#"{"id":8}"#).unwrap() {
        Incoming::Result { id, result } => {
            assert_eq!(id, 8);
            assert!(matches!(result, Json::Null));
        }
        other => panic!("expected result, got {other:?}"),
    }
}

#[test]
fn repeated_property_names_collapse_to_one() {
    let m = parse_line(r#"{"method":"props","params":{"power":"on","ct":"2700","power":"off"}}"#).unwrap();
    match m {
        Incoming::Notification(n) => {
            assert_eq!(n.params.len(), 2);
            assert_eq!(n.params.iter().filter(|(k, _)| k == "power").count(), 1);
            assert_eq!(n.params[0].0, "ct");
            assert!(n.get("power").is_some());
        }
        other => panic!("expected notification, got {other:?}"),
    }
}
