use smartcard_core::monitor::PresenceAction;
use smartcard_core::monitor::PresenceMonitor;
use smartcard_core::monitor::SessionState;

#[test]
fn test_session_transitions() {
    let mut m = PresenceMonitor::new();
    assert_eq!(m.session(), SessionState::NoSession);
    m.on_session_established();
    assert_eq!(m.session(), SessionState::Healthy);
    m.on_health_check(true);
    assert_eq!(m.session(), SessionState::Healthy);
    m.on_health_check(false);
    assert_eq!(m.session(), SessionState::NoSession);
}

#[test]
fn test_insert_read_remove_cycle() {
    let mut m = PresenceMonitor::new();
    m.on_session_established();

    // A card appears in an untracked reader: start a read sequence.
    assert_eq!(m.on_reader_status("reader-1", true), PresenceAction::StartRead);
    // Until the read succeeds the reader stays untracked, so the next
    // poll cycle may retry.
    assert_eq!(m.on_reader_status("reader-1", true), PresenceAction::StartRead);

    m.on_read_result("reader-1", true);
    // Now present: nothing more to do while the card stays.
    assert_eq!(m.on_reader_status("reader-1", true), PresenceAction::Ignore);

    // The card disappears: emit the removal and clear tracking.
    assert_eq!(m.on_reader_status("reader-1", false), PresenceAction::EmitRemoved);
    // A fresh insertion is processed anew.
    assert_eq!(m.on_reader_status("reader-1", true), PresenceAction::StartRead);
}

#[test]
fn test_failed_read_leaves_reader_eligible() {
    let mut m = PresenceMonitor::new();
    m.on_session_established();
    assert_eq!(m.on_reader_status("reader-1", true), PresenceAction::StartRead);
    m.on_read_result("reader-1", false);
    // Still untracked: the next poll cycle retries without a removal.
    assert_eq!(m.on_reader_status("reader-1", true), PresenceAction::StartRead);
}

#[test]
fn test_readers_are_independent() {
    let mut m = PresenceMonitor::new();
    m.on_session_established();
    m.on_read_result("reader-1", true);
    assert_eq!(m.on_reader_status("reader-2", false), PresenceAction::Ignore);
    assert_eq!(m.on_reader_status("reader-1", true), PresenceAction::Ignore);
    assert_eq!(m.on_reader_status("reader-2", true), PresenceAction::StartRead);
}

#[test]
fn test_errors_clear_presence() {
    let mut m = PresenceMonitor::new();
    m.on_session_established();
    m.on_read_result("reader-1", true);

    // A timeout is routine: nothing changes.
    m.on_status_error(true);
    assert_eq!(m.on_reader_status("reader-1", true), PresenceAction::Ignore);

    // A real status-change error resets the session and the tracking.
    m.on_status_error(false);
    assert_eq!(m.session(), SessionState::NoSession);
    assert_eq!(m.on_reader_status("reader-1", true), PresenceAction::StartRead);
}
