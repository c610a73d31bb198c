use git_interactive_signing_key::key::KeyRecord;
use git_interactive_signing_key::render::render_rows;
use git_interactive_signing_key::selection::SelectionState;
use git_interactive_signing_key::selector::{
    apply_command, command_for, handle_event, Command, InputEvent, KeyCode, KeyInput, KeyKind,
    Outcome,
};

fn rec(id: &str, label: &str) -> KeyRecord {
    KeyRecord::new(id.to_string(), label.to_string())
}

fn three() -> Vec<KeyRecord> {
    vec![rec("AAAA", "Alice"), rec("BBBB", "Bob"), rec("CCCC", "Carol")]
}

fn press(code: KeyCode) -> InputEvent {
    InputEvent::Key(KeyInput { code, kind: KeyKind::Press, control: false })
}

#[test]
fn scenario_c_q_cancels_on_first_render() {
    let mut s = SelectionState::initialize(three(), Some("BBBB".to_string())).unwrap();
    assert_eq!(handle_event(&mut s, &press(KeyCode::Char('q'))), Some(Outcome::Cancelled));
}

#[test]
fn scenario_d_enter_selects_first_entry() {
    let mut s = SelectionState::initialize(three(), None).unwrap();
    assert_eq!(
        handle_event(&mut s, &press(KeyCode::Enter)),
        Some(Outcome::Selected("AAAA".to_string()))
    );
}

#[test]
fn control_c_cancels_but_plain_c_is_ignored() {
    let mut s = SelectionState::initialize(three(), None).unwrap();
    assert_eq!(handle_event(&mut s, &press(KeyCode::Char('c'))), None);
    assert_eq!(s.highlight_index(), 0);
    let ctrl_c = InputEvent::Key(KeyInput { code: KeyCode::Char('c'), kind: KeyKind::Press, control: true });
    assert_eq!(handle_event(&mut s, &ctrl_c), Some(Outcome::Cancelled));
}

#[test]
fn key_mapping() {
    assert_eq!(command_for(&press(KeyCode::Up)), Some(Command::MoveUp));
    assert_eq!(command_for(&press(KeyCode::Char('k'))), Some(Command::MoveUp));
    assert_eq!(command_for(&press(KeyCode::Down)), Some(Command::MoveDown));
    assert_eq!(command_for(&press(KeyCode::Char('j'))), Some(Command::MoveDown));
    assert_eq!(command_for(&press(KeyCode::Enter)), Some(Command::Confirm));
    assert_eq!(command_for(&press(KeyCode::Char('q'))), Some(Command::Cancel));
    assert_eq!(command_for(&press(KeyCode::Char('x'))), None);
    assert_eq!(command_for(&press(KeyCode::Other)), None);
    assert_eq!(command_for(&InputEvent::Other), None);
}

#[test]
fn releases_and_repeats_are_ignored() {
    let mut s = SelectionState::initialize(three(), None).unwrap();
    for kind in [KeyKind::Release, KeyKind::Repeat] {
        for code in [KeyCode::Down, KeyCode::Enter, KeyCode::Char('q')] {
            let e = InputEvent::Key(KeyInput { code, kind, control: false });
            assert_eq!(command_for(&e), None);
            assert_eq!(handle_event(&mut s, &e), None);
            assert_eq!(s.highlight_index(), 0);
        }
    }
}

#[test]
fn navigate_then_confirm() {
    let mut s = SelectionState::initialize(three(), Some("BBBB".to_string())).unwrap();
    assert_eq!(handle_event(&mut s, &press(KeyCode::Char('j'))), None);
    assert_eq!(s.highlight_index(), 2);
    assert_eq!(handle_event(&mut s, &press(KeyCode::Down)), None);
    assert_eq!(s.highlight_index(), 0);
    assert_eq!(handle_event(&mut s, &press(KeyCode::Char('k'))), None);
    assert_eq!(s.highlight_index(), 2);
    assert_eq!(
        apply_command(&mut s, Command::Confirm),
        Some(Outcome::Selected("CCCC".to_string()))
    );
    assert_eq!(s.highlight_index(), 2);
    assert_eq!(s.current_index(), Some(1));
}

#[test]
fn rows_show_marker_and_one_highlight() {
    let mut s = SelectionState::initialize(three(), Some("BBBB".to_string())).unwrap();
    let rows = render_rows(&s);
    assert_eq!(rows.len(), 3);
    assert_eq!(rows[0].text, "  AAAA Alice");
    assert_eq!(rows[1].text, "> BBBB Bob ← current");
    assert_eq!(rows[2].text, "  CCCC Carol");
    assert_eq!(rows.iter().filter(|r| r.highlighted).count(), 1);
    assert!(rows[1].highlighted);
    s.move_down();
    let rows = render_rows(&s);
    assert_eq!(rows[1].text, "  BBBB Bob ← current");
    assert_eq!(rows[2].text, "> CCCC Carol");
    assert_eq!(rows.iter().filter(|r| r.highlighted).count(), 1);
    assert!(rows[2].highlighted);
}

#[test]
fn rows_with_empty_label() {
    let s = SelectionState::initialize(vec![rec("AAAA", "")], None).unwrap();
    let rows = render_rows(&s);
    assert_eq!(rows.len(), 1);
    assert_eq!(rows[0].text, "> AAAA ");
    assert!(rows[0].highlighted);
}
