use opencrosshair::toplevel::{
    contains_activated, decode_states, LayerAction, ToplevelEvent, ToplevelTracker, ACTIVATED,
};

fn ids(v: &[&str]) -> Vec<String> {
    v.iter().map(|s| s.to_string()).collect()
}

#[test]
fn app_id_is_recorded_and_replaced() {
    let mut t = ToplevelTracker::new(Vec::new());
    assert_eq!(t.app_id(7), None);
    assert_eq!(t.handle_event(7, ToplevelEvent::AppId("firefox".to_string())), LayerAction::Keep);
    assert_eq!(t.app_id(7).map(|s| s.as_str()), Some("firefox"));
    t.handle_event(7, ToplevelEvent::AppId("steam".to_string()));
    assert_eq!(t.app_id(7).map(|s| s.as_str()), Some("steam"));
    assert_eq!(t.app_id(8), None);
}

#[test]
fn empty_list_shows_every_focused_app() {
    let mut t = ToplevelTracker::new(Vec::new());
    t.handle_event(1, ToplevelEvent::AppId("anything".to_string()));
    assert_eq!(t.handle_event(1, ToplevelEvent::State(vec![ACTIVATED])), LayerAction::Show);
}

#[test]
fn listed_apps_show_and_others_hide() {
    let mut t = ToplevelTracker::new(ids(&["cs2", "steam_app_730"]));
    t.handle_event(1, ToplevelEvent::AppId("cs2".to_string()));
    t.handle_event(2, ToplevelEvent::AppId("kitty".to_string()));
    assert_eq!(t.handle_event(1, ToplevelEvent::State(vec![0, ACTIVATED])), LayerAction::Show);
    assert_eq!(t.handle_event(2, ToplevelEvent::State(vec![ACTIVATED, 3])), LayerAction::Hide);
    assert!(t.shows(&"steam_app_730".to_string()));
    assert!(!t.shows(&"cs".to_string()));
}

#[test]
fn states_without_activation_keep_the_overlay() {
    let mut t = ToplevelTracker::new(ids(&["cs2"]));
    t.handle_event(2, ToplevelEvent::AppId("kitty".to_string()));
    assert_eq!(t.handle_event(2, ToplevelEvent::State(vec![])), LayerAction::Keep);
    assert_eq!(t.handle_event(2, ToplevelEvent::State(vec![0, 1, 3])), LayerAction::Keep);
    assert_eq!(t.handle_event(2, ToplevelEvent::Other), LayerAction::Keep);
}

#[test]
fn unknown_and_closed_toplevels_keep_the_overlay() {
    let mut t = ToplevelTracker::new(Vec::new());
    assert_eq!(t.handle_event(5, ToplevelEvent::State(vec![ACTIVATED])), LayerAction::Keep);
    t.handle_event(5, ToplevelEvent::AppId("game".to_string()));
    t.handle_event(6, ToplevelEvent::AppId("other".to_string()));
    assert_eq!(t.handle_event(5, ToplevelEvent::Closed), LayerAction::Keep);
    assert_eq!(t.app_id(5), None);
    assert_eq!(t.app_id(6).map(|s| s.as_str()), Some("other"));
    assert_eq!(t.handle_event(5, ToplevelEvent::State(vec![ACTIVATED])), LayerAction::Keep);
}

#[test]
fn activation_is_found_anywhere() {
    assert!(contains_activated(&vec![0, 1, 2]));
    assert!(!contains_activated(&vec![0, 1, 3]));
    assert!(!contains_activated(&vec![]));
}

#[test]
fn states_decode_in_native_byte_order() {
    let mut bytes = Vec::new();
    for v in [0u32, ACTIVATED, 3, 0x0102_0304] {
        bytes.extend_from_slice(&v.to_ne_bytes());
    }
    bytes.push(9);
    let little = 1u32.to_ne_bytes()[0] == 1;
    assert_eq!(decode_states(&bytes, little), vec![0, ACTIVATED, 3, 0x0102_0304]);
    assert_eq!(decode_states(&[1, 2, 3], little), Vec::<u32>::new());
}

#[test]
fn states_decode_in_either_byte_order() {
    let bytes = [2, 0, 0, 0, 1, 2, 3, 4, 0, 0, 0, 2];
    assert_eq!(decode_states(&bytes, true), vec![2, 0x0403_0201, 0x0200_0000]);
    assert_eq!(decode_states(&bytes, false), vec![0x0200_0000, 0x0102_0304, 2]);
    assert!(contains_activated(&decode_states(&[0, 0, 0, 2], false)));
    assert!(!contains_activated(&decode_states(&[0, 0, 0, 2], true)));
}
