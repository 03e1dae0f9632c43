use vstd::prelude::*;

use crate::selection::SelectionOutcome;
use crate::text::{chars_equal, to_chars};

verus! {

/// What the overlay window is told when it opens.
#[derive(Debug, Clone)]
pub struct OverlayOpenPayload {
    /// `"permission"`, `"manual"` or `"translate"`.
    pub mode: String,
    /// The text to translate, in `"translate"` mode.
    pub text: Option<String>,
    /// Whether the overlay opens next to the mouse pointer.
    pub anchor_near_cursor: bool,
}

/// The overlay opens asking for the accessibility permission when it is missing, for
/// manual input when nothing is selected, and translating the selected text otherwise;
/// always next to the mouse pointer.
pub open spec fn payload_for(outcome: SelectionOutcome, p: OverlayOpenPayload) -> bool {
    &&& p.anchor_near_cursor
    &&& match outcome {
        SelectionOutcome::PermissionDenied => p.mode@ == "permission"@ && p.text is None,
        SelectionOutcome::Empty => p.mode@ == "manual"@ && p.text is None,
        SelectionOutcome::Text(t) => p.mode@ == "translate"@ && (p.text matches Some(x) && x@
            == t@),
    }
}

pub fn overlay_payload(outcome: SelectionOutcome) -> (p: OverlayOpenPayload)
    ensures
        payload_for(outcome, p),
{
    match outcome {
        SelectionOutcome::PermissionDenied => OverlayOpenPayload {
            mode: "permission".to_owned(),
            text: None,
            anchor_near_cursor: true,
        },
        SelectionOutcome::Empty => OverlayOpenPayload {
            mode: "manual".to_owned(),
            text: None,
            anchor_near_cursor: true,
        },
        SelectionOutcome::Text(t) => OverlayOpenPayload {
            mode: "translate".to_owned(),
            text: Some(t),
            anchor_near_cursor: true,
        },
    }
}


/// The window events that the application answers.
#[derive(Debug, Clone, Copy, PartialEq, Eq, Structural)]
pub enum WindowEventKind {
    CloseRequested,
    FocusLost,
    Other,
}

/// How the application answers a window event.
#[derive(Debug, Clone, Copy, PartialEq, Eq, Structural)]
pub struct WindowResponse {
    /// Keep the window from closing.
    pub prevent_close: bool,
    /// Hide the window.
    pub hide: bool,
}

/// The settings and overlay windows are hidden rather than closed; the overlay also
/// hides when it loses focus (a click outside it closes it).
pub open spec fn window_response(label: Seq<char>, event: WindowEventKind) -> WindowResponse {
    let kept = label == "settings"@ || label == "overlay"@;
    match event {
        WindowEventKind::CloseRequested => WindowResponse { prevent_close: kept, hide: kept },
        WindowEventKind::FocusLost => WindowResponse {
            prevent_close: false,
            hide: label == "overlay"@,
        },
        WindowEventKind::Other => WindowResponse { prevent_close: false, hide: false },
    }
}

pub fn window_event_response(label: &str, event: WindowEventKind) -> (r: WindowResponse)
    ensures
        r == window_response(label@, event),
{
    let l = to_chars(label);
    let settings = to_chars("settings");
    let overlay = to_chars("overlay");
    let is_overlay = chars_equal(&l, &overlay);
    let kept = chars_equal(&l, &settings) || is_overlay;
    match event {
        WindowEventKind::CloseRequested => WindowResponse { prevent_close: kept, hide: kept },
        WindowEventKind::FocusLost => WindowResponse { prevent_close: false, hide: is_overlay },
        WindowEventKind::Other => WindowResponse { prevent_close: false, hide: false },
    }
}

/// The application keeps running (in the tray) when its last window goes, and exits
/// only when asked to with an exit code.
pub fn keeps_running_on_exit_request(exit_code: Option<i32>) -> (r: bool)
    ensures
        r == (exit_code is None),
{
    exit_code.is_none()
}


/// The overlay carries a text exactly when a text was selected, and then the selected
/// text itself; its mode names what it opens for; it always opens next to the pointer.
pub proof fn law_overlay_payload(outcome: SelectionOutcome, p: OverlayOpenPayload)
    requires
        payload_for(outcome, p),
    ensures
        p.anchor_near_cursor,
        (p.text is Some) <==> (outcome is Text),
        match outcome {
            SelectionOutcome::Text(t) => p.text == Some(t) || (p.text matches Some(x) && x@
                == t@),
            _ => true,
        },
        outcome is PermissionDenied ==> p.mode@ == "permission"@,
        outcome is Empty ==> p.mode@ == "manual"@,
        outcome is Text ==> p.mode@ == "translate"@,
{
}

/// Closing the settings or the overlay window hides it and keeps it; closing any other
/// window does neither; only the overlay hides when it loses focus; other events do
/// nothing.
pub proof fn law_window_response(label: Seq<char>, event: WindowEventKind)
    ensures
        event == WindowEventKind::CloseRequested ==> (window_response(label, event).prevent_close
            <==> (label == "settings"@ || label == "overlay"@)) && (window_response(
            label,
            event,
        ).hide <==> (label == "settings"@ || label == "overlay"@)),
        event == WindowEventKind::FocusLost ==> !window_response(label, event).prevent_close && (
        window_response(label, event).hide <==> label == "overlay"@),
        event == WindowEventKind::Other ==> !window_response(label, event).prevent_close
            && !window_response(label, event).hide,
{
}

} // verus!

