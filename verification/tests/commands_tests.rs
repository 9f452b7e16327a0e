use yeelight_core::commands::Request;
use yeelight_core::json::Json;
use yeelight_core::{AdjustAction, AdjustProp, Effect, Error, FlowAction, FlowExpr, FlowTuple, Scene};

fn texts(params: &[Json]) -> Vec<String> {
    params
        .iter()
        .map(|p| match p {
            Json::Str(s) => format!("\"{s}\""),
            Json::Number(n) => n.text.clone(),
            other => format!("{other:?}"),
        })
        .collect()
}

#[test]
fn flow_expr_renders_spec_example() {
    let expr = FlowExpr(vec![
        FlowTuple { duration: 1000, mode: 2, value: 2700, brightness: 100 },
        FlowTuple { duration: 500, mode: 1, value: 255, brightness: 10 },
        FlowTuple { duration: 5000, mode: 7, value: 0, brightness: 0 },
        FlowTuple { duration: 500, mode: 2, value: 5000, brightness: 1 },
    ]);
    assert_eq!(expr.render().unwrap(), "1000,2,2700,100,500,1,255,10,5000,7,0,0,500,2,5000,1");
}

#[test]
fn empty_flow_expr_is_rejected() {
    assert!(matches!(FlowExpr::default().render(), Err(Error::InvalidParam(_))));
}

#[test]
fn smooth_rejects_short_duration() {
    assert!(matches!(Effect::Smooth(10).params(), Err(Error::InvalidParam(_))));
}

#[test]
fn smooth_accepts_minimum_duration() {
    assert_eq!(Effect::Smooth(30).params().unwrap(), ("smooth", 30));
}

#[test]
fn sudden_has_zero_duration() {
    assert_eq!(Effect::Sudden.params().unwrap(), ("sudden", 0));
}

#[test]
fn ct_scene_params() {
    let p = Scene::Ct { ct: 5400, bright: 100 }.params().unwrap();
    assert_eq!(texts(&p), vec!["\"ct\"", "5400", "100"]);
}

#[test]
fn short_smooth_error_names_the_duration() {
    match Effect::Smooth(29).params() {
        Err(Error::InvalidParam(m)) => assert_eq!(m, "smooth duration 29ms < 30ms"),
        other => panic!("expected invalid param, got {other:?}"),
    }
}

#[test]
fn short_flow_step_error_names_the_duration() {
    let expr = FlowExpr(vec![
        FlowTuple { duration: 100, mode: 1, value: 1, brightness: 1 },
        FlowTuple { duration: 49, mode: 1, value: 1, brightness: 1 },
    ]);
    match expr.render() {
        Err(Error::InvalidParam(m)) => assert_eq!(m, "flow duration 49ms < 50ms"),
        other => panic!("expected invalid param, got {other:?}"),
    }
    assert_eq!(FlowExpr::default().len(), 0);
    assert!(FlowExpr::default().is_empty());
}

#[test]
fn set_power_request_shape() {
    let r = Request::set_power(true, Effect::Smooth(500), None).unwrap();
    assert_eq!(r.method, "set_power");
    assert_eq!(texts(&r.params), vec!["\"on\"", "\"smooth\"", "500"]);
    assert!(matches!(Request::set_power(false, Effect::Smooth(5), None), Err(Error::InvalidParam(_))));
}

#[test]
fn color_adjust_must_circle() {
    assert!(matches!(
        Request::set_adjust(AdjustAction::Increase, AdjustProp::Color),
        Err(Error::InvalidParam(_))
    ));
    let r = Request::set_adjust(AdjustAction::Circle, AdjustProp::Color).unwrap();
    assert_eq!(texts(&r.params), vec!["\"circle\"", "\"color\""]);
}

#[test]
fn start_cf_request_carries_count_action_and_text() {
    let expr = FlowExpr(vec![FlowTuple { duration: 50, mode: 1, value: 255, brightness: -1 }]);
    let r = Request::bg_start_cf(3, FlowAction::Off, expr).unwrap();
    assert_eq!(r.method, "bg_start_cf");
    assert_eq!(texts(&r.params), vec!["3", "2", "\"50,1,255,-1\""]);
}

#[test]
fn documented_ranges_are_checked_before_sending() {
    let msg = |r: yeelight_core::Result<Request>| match r {
        Err(Error::InvalidParam(m)) => m,
        other => panic!("expected InvalidParam, got {other:?}"),
    };
    assert_eq!(msg(Request::set_bright(0, Effect::Sudden)), "brightness 0 out of range 1..=100");
    assert_eq!(msg(Request::bg_set_bright(101, Effect::Sudden)), "brightness 101 out of range 1..=100");
    assert_eq!(msg(Request::set_ct_abx(1600, Effect::Sudden)), "color temperature 1600K out of range 1700..=6500");
    assert_eq!(msg(Request::bg_set_ct_abx(6501, Effect::Sudden)), "color temperature 6501K out of range 1700..=6500");
    assert_eq!(msg(Request::set_hsv(360, 50, Effect::Sudden)), "hue 360 out of range 0..=359");
    assert_eq!(msg(Request::bg_set_hsv(359, 101, Effect::Sudden)), "saturation 101 out of range 0..=100");
    assert_eq!(msg(Request::set_scene(Scene::Ct { ct: 5400, bright: 0 })), "brightness 0 out of range 1..=100");
    assert!(Request::set_bright(1, Effect::Sudden).is_ok());
    assert!(Request::set_bright(100, Effect::Smooth(30)).is_ok());
    assert!(Request::set_ct_abx(1700, Effect::Sudden).is_ok());
    assert!(Request::set_hsv(359, 100, Effect::Sudden).is_ok());
}

#[test]
fn rendered_flow_has_four_fields_per_step() {
    let expr = FlowExpr(vec![
        FlowTuple { duration: 50, mode: 1, value: 16711680, brightness: -1 },
        FlowTuple { duration: 60, mode: 2, value: 2700, brightness: 100 },
    ]);
    assert_eq!(expr.render().unwrap().split(',').count(), 4 * expr.len());
}

#[test]
fn flow_brightness_is_checked_except_for_sleep() {
    let bad = FlowExpr(vec![FlowTuple { duration: 500, mode: 1, value: 255, brightness: 0 }]);
    match bad.render() {
        Err(Error::InvalidParam(m)) => assert_eq!(m, "flow brightness 0 out of range -1 or 1..=100"),
        other => panic!("expected InvalidParam, got {other:?}"),
    }
    let sleep = FlowExpr(vec![FlowTuple { duration: 500, mode: 7, value: 0, brightness: 0 }]);
    assert_eq!(sleep.render().unwrap(), "500,7,0,0");
    let keep = FlowExpr(vec![FlowTuple { duration: 500, mode: 2, value: 2700, brightness: -1 }]);
    assert_eq!(keep.render().unwrap(), "500,2,2700,-1");
}
