use yeelight_core::presets::{flows, party_flow, scenes, temps};
use yeelight_core::Scene;

#[test]
fn temps_are_in_device_range() {
    let t = temps();
    assert!(!t.is_empty());
    for (name, k) in &t {
        assert!((1700..=6500).contains(k), "{name} = {k}K out of range");
    }
}

#[test]
fn flow_presets_render_valid_expressions() {
    for p in flows() {
        assert!(p.expr.render().is_ok(), "flow preset {} renders invalid", p.name);
    }
}

#[test]
fn cf_scene_flow_renders() {
    let Scene::ColorFlow { expr, .. } = scenes().into_iter().find(|s| s.name == "Party").unwrap().scene
    else {
        panic!("Party scene should be a color flow")
    };
    assert!(expr.render().is_ok());
}

#[test]
fn party_flow_text() {
    assert_eq!(party_flow().render().unwrap(), "500,1,16711680,100,500,1,65280,100,500,1,255,100");
    assert_eq!(flows()[3].name, "Sunrise");
    assert_eq!(flows()[3].count, 1);
}
