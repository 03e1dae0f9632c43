use piggytrans::selection::{
    clipboard_text_if_changed, copy_plan, element_selected_text, fetch_selection,
    fetch_selection_from_copy, fetch_selection_step, is_process_trusted, normalize_line_endings,
    normalize_text, pasteboard_text_if_changed, pick_best_selection, pick_longer_multiline,
    request_trust_prompt, selected_range_text, substring_utf16, CopyStrategy, FetchEvent,
    FetchStep, SelectionOutcome, AX_PARENT_STEPS, MAX_CHARS,
};

fn s(x: &str) -> Option<String> {
    Some(x.to_string())
}

#[test]
fn crlf_becomes_lf_and_lone_cr_is_dropped() {
    assert_eq!(normalize_line_endings("a\r\nb\rc"), "a\nbc");
    assert_eq!(normalize_line_endings("\r\r\n"), "\n");
    assert_eq!(normalize_line_endings(""), "");
}

#[test]
fn line_ending_normalization_is_idempotent() {
    let once = normalize_line_endings("x\r\n\ry\r");
    assert_eq!(normalize_line_endings(&once), once);
    assert!(!once.contains('\r'));
}

#[test]
fn normalize_text_trims_and_keeps_lines() {
    assert_eq!(normalize_text("  hello \r\n world  "), "hello \n world");
    assert_eq!(normalize_text("\u{3000}\t\n"), "");
}

#[test]
fn normalize_text_cuts_to_max_chars() {
    let long = "字".repeat(MAX_CHARS + 5);
    let n = normalize_text(&long);
    assert_eq!(n.chars().count(), MAX_CHARS);
}

#[test]
fn normalize_text_is_idempotent_on_short_text() {
    let once = normalize_text(" \r\n a b \r\n ");
    assert_eq!(once, "a b");
    assert_eq!(normalize_text(&once), once);
}

#[test]
fn normalize_text_not_idempotent_when_cut_ends_in_space() {
    let text = format!("{} b", "a".repeat(MAX_CHARS - 1));
    let once = normalize_text(&text);
    assert_eq!(once, format!("{} ", "a".repeat(MAX_CHARS - 1)));
    assert_eq!(normalize_text(&once), "a".repeat(MAX_CHARS - 1));
}

#[test]
fn longer_multiline_choices() {
    assert_eq!(pick_longer_multiline("ab", "abc"), "abc");
    assert_eq!(pick_longer_multiline("a\nb", "abcdef"), "a\nb");
    assert_eq!(pick_longer_multiline("abc", "abd"), "abc");
    assert_eq!(pick_longer_multiline("abcd", "ab"), "abcd");
    assert_eq!(pick_longer_multiline("ab", "a\nbc"), "a\nbc");
}

#[test]
fn best_selection_prefers_multiline_copy() {
    assert_eq!(
        pick_best_selection(s("first line"), s("first line\r\nsecond")),
        SelectionOutcome::Text("first line\nsecond".to_string())
    );
}

#[test]
fn best_selection_prefers_longer_copy_over_single_line_ax() {
    assert_eq!(
        pick_best_selection(s("hello"), s("hello world")),
        SelectionOutcome::Text("hello world".to_string())
    );
}

#[test]
fn best_selection_keeps_longer_ax() {
    assert_eq!(
        pick_best_selection(s("ax text longer"), s("copy")),
        SelectionOutcome::Text("ax text longer".to_string())
    );
    assert_eq!(
        pick_best_selection(s("a\nb c d e"), s("short")),
        SelectionOutcome::Text("a\nb c d e".to_string())
    );
}

#[test]
fn best_selection_empty_cases() {
    assert_eq!(pick_best_selection(s("  "), None), SelectionOutcome::Empty);
    assert_eq!(pick_best_selection(None, None), SelectionOutcome::Empty);
    assert_eq!(pick_best_selection(None, s(" x ")), SelectionOutcome::Text("x".to_string()));
    assert_eq!(pick_best_selection(s(" y"), s("\r\n")), SelectionOutcome::Text("y".to_string()));
}

#[test]
fn unsupported_platform_reads_nothing() {
    assert_eq!(fetch_selection(), SelectionOutcome::Empty);
    assert!(is_process_trusted());
    request_trust_prompt();
}

#[test]
fn selection_from_copy_alone() {
    assert_eq!(fetch_selection_from_copy(s("  copied ")), SelectionOutcome::Text("copied".to_string()));
    assert_eq!(fetch_selection_from_copy(None), SelectionOutcome::Empty);
}

fn done(step: FetchStep) -> SelectionOutcome {
    match step {
        FetchStep::Done(o) => o,
        _ => panic!("not finished"),
    }
}

#[test]
fn step_untrusted_process_is_denied() {
    let next = fetch_selection_step(FetchStep::CheckTrust, FetchEvent::Trusted(false));
    assert_eq!(done(next), SelectionOutcome::PermissionDenied);
}

#[test]
fn step_with_accessibility_text_copies_fully() {
    let step = fetch_selection_step(FetchStep::CheckTrust, FetchEvent::Trusted(true));
    assert!(matches!(step, FetchStep::ReadAccessibility));
    let step = fetch_selection_step(step, FetchEvent::AccessibilityText(s("line one")));
    match &step {
        FetchStep::Copy { strategy, ax_text } => {
            assert_eq!(*strategy, CopyStrategy::Full);
            assert_eq!(ax_text.as_deref(), Some("line one"));
        }
        _ => panic!("expected a copy"),
    }
    let step = fetch_selection_step(step, FetchEvent::Copied(s("line one\nline two")));
    assert_eq!(done(step), SelectionOutcome::Text("line one\nline two".to_string()));
}

#[test]
fn step_without_selection_copies_quickly() {
    let step = fetch_selection_step(FetchStep::ReadAccessibility, FetchEvent::AccessibilityText(s("  ")));
    assert!(matches!(step, FetchStep::ProbeSelectionRange { .. }));
    let step = fetch_selection_step(step, FetchEvent::SelectionRange(false));
    match &step {
        FetchStep::Copy { strategy, ax_text } => {
            assert_eq!(*strategy, CopyStrategy::Quick);
            assert!(ax_text.is_none());
        }
        _ => panic!("expected a copy"),
    }
    assert_eq!(done(fetch_selection_step(step, FetchEvent::Copied(None))), SelectionOutcome::Empty);
}

#[test]
fn step_with_selection_range_copies_fully() {
    let step = fetch_selection_step(
        FetchStep::ProbeSelectionRange { ax_text: None },
        FetchEvent::SelectionRange(true),
    );
    assert!(matches!(step, FetchStep::Copy { strategy: CopyStrategy::Full, .. }));
}

#[test]
fn copy_plans() {
    let q = copy_plan(CopyStrategy::Quick);
    assert!(!q.ax_copy_first && !q.system_retry);
    assert_eq!(q.poll_delays_ms, vec![50, 100]);
    let f = copy_plan(CopyStrategy::Full);
    assert!(f.ax_copy_first && f.system_retry);
    assert_eq!(f.poll_delays_ms, vec![60, 100, 160, 240, 360, 480]);
    assert_eq!(AX_PARENT_STEPS, 12);
}

#[test]
fn pasteboard_change_detection() {
    assert_eq!(pasteboard_text_if_changed(1, 2, s("x"), s(" y ")), s("y"));
    assert_eq!(pasteboard_text_if_changed(1, 1, s("y"), s(" y\r\n")), None);
    assert_eq!(pasteboard_text_if_changed(1, 1, s("x"), s("y")), s("y"));
    assert_eq!(pasteboard_text_if_changed(1, 1, None, s("y")), s("y"));
    assert_eq!(pasteboard_text_if_changed(1, 2, s("x"), None), None);
    assert_eq!(pasteboard_text_if_changed(1, 2, s("x"), s("  ")), None);
    assert_eq!(pasteboard_text_if_changed(3, 4, s("same"), s("same")), s("same"));
}

#[test]
fn clipboard_change_detection() {
    assert_eq!(clipboard_text_if_changed(&s(" a "), "a"), None);
    assert_eq!(clipboard_text_if_changed(&s("a"), " b\n"), s("b"));
    assert_eq!(clipboard_text_if_changed(&None, "  "), None);
    assert_eq!(clipboard_text_if_changed(&None, "c"), s("c"));
}

#[test]
fn utf16_substrings() {
    assert_eq!(substring_utf16("hello", 1, 3), s("ell"));
    assert_eq!(substring_utf16("a😀b", 1, 2), s("😀"));
    assert_eq!(substring_utf16("a😀b", 3, 1), s("b"));
    assert_eq!(substring_utf16("a😀b", 2, 1), None);
    assert_eq!(substring_utf16("a😀b", 1, 1), None);
    assert_eq!(substring_utf16("abc", 0, 0), None);
    assert_eq!(substring_utf16("abc", 2, 5), None);
    assert_eq!(substring_utf16("abc", 0, 3), s("abc"));
    assert_eq!(substring_utf16("abc", usize::MAX, 2), None);
    assert_eq!(substring_utf16("你好世界", 2, 2), s("世界"));
}

#[test]
fn range_text_from_accessibility_range() {
    assert_eq!(selected_range_text("hello", -1, 2), None);
    assert_eq!(selected_range_text("hello", 1, 0), None);
    assert_eq!(selected_range_text("hello", 1, -3), None);
    assert_eq!(selected_range_text("hello", 0, 2), s("he"));
}

#[test]
fn element_selection_combination() {
    assert_eq!(element_selected_text(s("ab"), s("")), s("ab"));
    assert_eq!(element_selected_text(None, s("x")), s("x"));
    assert_eq!(element_selected_text(s("a"), s("abc")), s("abc"));
    assert_eq!(element_selected_text(s("a\nb"), s("abcd")), s("a\nb"));
    assert_eq!(element_selected_text(None, s("")), None);
    assert_eq!(element_selected_text(None, None), None);
}

#[test]
fn utf16_range_text_has_range_length() {
    for (text, loc, len) in [("a😀b", 1usize, 2usize), ("a😀b", 0, 4), ("你好", 1, 1), ("xyz", 1, 2)] {
        let t = substring_utf16(text, loc, len).unwrap();
        assert_eq!(t.encode_utf16().count(), len);
    }
}

#[test]
fn reading_a_selection_ends_within_four_steps() {
    let mut step = FetchStep::CheckTrust;
    let mut work = 0;
    loop {
        let event = match &step {
            FetchStep::CheckTrust => FetchEvent::Trusted(true),
            FetchStep::ReadAccessibility => FetchEvent::AccessibilityText(None),
            FetchStep::ProbeSelectionRange { .. } => FetchEvent::SelectionRange(true),
            FetchStep::Copy { .. } => FetchEvent::Copied(s("copied")),
            FetchStep::Done(_) => break,
        };
        step = fetch_selection_step(step, event);
        work += 1;
    }
    assert_eq!(work, 4);
    assert_eq!(done(step), SelectionOutcome::Text("copied".to_string()));
}
