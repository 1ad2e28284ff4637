use esp32_uc::cursor::{CursorAction, CursorSession};

#[derive(Clone, Copy, Debug, PartialEq)]
struct CursorPosition {
    x: f64,
    y: f64,
}

fn position(x: f64, y: f64) -> CursorPosition {
    CursorPosition { x, y }
}

#[test]
fn entering_forwarding_saves_position_and_hides_cursor() {
    let mut session = CursorSession::default();

    let action = session.transition(true, Some(position(100.0, 200.0)));

    assert_eq!(action, CursorAction::Hide);
    assert_eq!(session.restore_point, Some(position(100.0, 200.0)));
}

#[test]
fn switching_between_remote_targets_keeps_original_restore_point() {
    let mut session = CursorSession::default();
    session.transition(true, Some(position(10.0, 20.0)));

    let action = session.transition(true, Some(position(30.0, 40.0)));

    assert_eq!(action, CursorAction::Unchanged);
    assert_eq!(session.restore_point, Some(position(10.0, 20.0)));
}

#[test]
fn returning_to_local_restores_once_and_clears_saved_position() {
    let mut session = CursorSession::default();
    session.transition(true, Some(position(1.0, 2.0)));

    let action = session.transition(false, None);

    assert_eq!(action, CursorAction::RestoreAndShow(position(1.0, 2.0)));
    assert_eq!(session.restore_point, None);
    assert_eq!(session.transition(false, None), CursorAction::Unchanged);
}

#[test]
fn non_transition_while_forwarding_does_not_restore_cursor() {
    let mut session = CursorSession::default();
    session.transition(true, Some(position(5.0, 6.0)));

    let action = session.transition(true, Some(position(7.0, 8.0)));

    assert_eq!(action, CursorAction::Unchanged);
    assert_eq!(session.restore_point, Some(position(5.0, 6.0)));
}

#[test]
fn startup_forwarding_seeds_restore_point() {
    let mut session = CursorSession::default();

    session.transition(true, Some(position(42.0, 24.0)));

    assert_eq!(session.restore_point, Some(position(42.0, 24.0)));
}

#[test]
fn leaving_without_saved_point_just_shows_cursor() {
    let mut session: CursorSession<CursorPosition> = CursorSession::new();
    assert_eq!(session.transition(true, None), CursorAction::Hide);
    assert_eq!(session.transition(false, None), CursorAction::Show);
}
