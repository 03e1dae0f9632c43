use piggytrans::overlay::{
    keeps_running_on_exit_request, overlay_payload, window_event_response, WindowEventKind,
    WindowResponse,
};
use piggytrans::selection::SelectionOutcome;

#[test]
fn overlay_modes() {
    let p = overlay_payload(SelectionOutcome::PermissionDenied);
    assert_eq!(p.mode, "permission");
    assert!(p.text.is_none() && p.anchor_near_cursor);
    let p = overlay_payload(SelectionOutcome::Empty);
    assert_eq!(p.mode, "manual");
    assert!(p.text.is_none() && p.anchor_near_cursor);
    let p = overlay_payload(SelectionOutcome::Text("hi".to_string()));
    assert_eq!(p.mode, "translate");
    assert_eq!(p.text.as_deref(), Some("hi"));
    assert!(p.anchor_near_cursor);
}

#[test]
fn windows_hide_instead_of_closing() {
    let kept = WindowResponse { prevent_close: true, hide: true };
    assert_eq!(window_event_response("settings", WindowEventKind::CloseRequested), kept);
    assert_eq!(window_event_response("overlay", WindowEventKind::CloseRequested), kept);
    let nothing = WindowResponse { prevent_close: false, hide: false };
    assert_eq!(window_event_response("main", WindowEventKind::CloseRequested), nothing);
    assert_eq!(window_event_response("settings", WindowEventKind::FocusLost), nothing);
    assert_eq!(
        window_event_response("overlay", WindowEventKind::FocusLost),
        WindowResponse { prevent_close: false, hide: true }
    );
    assert_eq!(window_event_response("overlay", WindowEventKind::Other), nothing);
}

#[test]
fn exit_requests() {
    assert!(keeps_running_on_exit_request(None));
    assert!(!keeps_running_on_exit_request(Some(0)));
}
