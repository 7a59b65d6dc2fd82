use proctor_core::session::AppState;
use proctor_core::session::PtyInstance;

#[test]
fn write_routes_to_registered_terminal() {
    let mut state = AppState::new();
    state.insert_pty(String::from("terminal"), PtyInstance { writer: 7 });
    let r = state.write_to_pty("terminal", vec![b'l', b's', b'\n']);
    assert_eq!(r, Some((7, vec![b'l', b's', b'\n'])));
}

#[test]
fn write_to_unknown_terminal_is_dropped() {
    let state = AppState::new();
    assert_eq!(state.write_to_pty("terminal", vec![1, 2, 3]), None);
}

#[test]
fn reregistering_replaces_the_entry() {
    let mut state = AppState::new();
    state.insert_pty(String::from("terminal"), PtyInstance { writer: 1 });
    state.insert_pty(String::from("terminal"), PtyInstance { writer: 2 });
    assert_eq!(state.write_to_pty("terminal", vec![0]), Some((2, vec![0])));
}

#[test]
fn correct_admin_key_unlocks() {
    let mut state = AppState::new();
    assert!(state.is_session_active);
    assert!(state.verify_admin_key("1915"));
    assert!(!state.is_session_active);
}

#[test]
fn wrong_admin_key_changes_nothing() {
    let mut state = AppState::new();
    assert!(!state.verify_admin_key("0000"));
    assert!(state.is_session_active);
}
