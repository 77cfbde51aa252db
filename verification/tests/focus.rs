use voxel_sandbox::focus_handler::{handle_focus, CursorState, FocusStatus};

#[test]
fn default_is_unfocused() {
    let f = FocusStatus::default();
    assert!(!f.0);
}

#[test]
fn click_takes_focus_and_captures_cursor() {
    let mut f = FocusStatus(false);
    let cursor = handle_focus(&mut f, true, false);
    assert!(f.0);
    assert_eq!(cursor, CursorState { visible: false, locked: true });
}

#[test]
fn escape_releases_focus_and_frees_cursor() {
    let mut f = FocusStatus(true);
    let cursor = handle_focus(&mut f, false, true);
    assert!(!f.0);
    assert_eq!(cursor, CursorState { visible: true, locked: false });
}

#[test]
fn escape_wins_over_click_in_same_frame() {
    let mut f = FocusStatus(true);
    let cursor = handle_focus(&mut f, true, true);
    assert!(!f.0);
    assert_eq!(cursor, CursorState { visible: true, locked: false });
}

#[test]
fn no_input_keeps_focus_state() {
    let mut f = FocusStatus(true);
    let cursor = handle_focus(&mut f, false, false);
    assert!(f.0);
    assert_eq!(cursor, CursorState { visible: false, locked: true });

    let mut g = FocusStatus(false);
    let cursor = handle_focus(&mut g, false, false);
    assert!(!g.0);
    assert_eq!(cursor, CursorState { visible: true, locked: false });
}
