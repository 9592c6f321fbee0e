use opencrosshair::lifecycle::{ConfigureAction, OverlayLifecycle};
use opencrosshair::outputs::select_output;

#[test]
fn first_configure_renders_once() {
    let mut l = OverlayLifecycle::new();
    assert!(l.gpu_held && !l.renderer_ready && !l.exit_requested);
    assert_eq!(l.on_configure(), ConfigureAction::Render { initialize_renderer: true });
    assert!(!l.gpu_held);
    assert_eq!(l.on_configure(), ConfigureAction::Ignore);
    assert_eq!(l.on_configure(), ConfigureAction::Ignore);
}

#[test]
fn ready_renderer_is_not_set_up_again() {
    let mut l = OverlayLifecycle { gpu_held: true, renderer_ready: true, exit_requested: false };
    assert_eq!(l.on_configure(), ConfigureAction::Render { initialize_renderer: false });
    assert!(!l.renderer_ready);
}

#[test]
fn closing_requests_exit() {
    let mut l = OverlayLifecycle::new();
    l.on_closed();
    assert!(l.exit_requested);
    assert_eq!(l.on_configure(), ConfigureAction::Render { initialize_renderer: true });
    assert!(l.exit_requested);
}

fn names(v: &[Option<&str>]) -> Vec<Option<String>> {
    v.iter().map(|n| n.map(|s| s.to_string())).collect()
}

#[test]
fn output_is_chosen_by_name() {
    let outs = names(&[None, Some("DP-1"), Some("HDMI-A-1"), Some("DP-1")]);
    assert_eq!(select_output(&outs, &Some("DP-1".to_string())), Some(1));
    assert_eq!(select_output(&outs, &Some("HDMI-A-1".to_string())), Some(2));
    assert_eq!(select_output(&outs, &Some("eDP-1".to_string())), None);
    assert_eq!(select_output(&outs, &None), None);
    assert_eq!(select_output(&Vec::new(), &Some("DP-1".to_string())), None);
}
