use windows_key_listener::engine::{KeyEvent, KeyEventKind, ListenerRecord, ListenerRegistry};
use windows_key_listener::key_chord_parser::KeyChordParser;
use windows_key_listener::session::{session_step, SessionAction, SessionEvent, SessionState};

fn down(key: i32, time_ms: u64) -> KeyEvent {
    KeyEvent { kind: KeyEventKind::KeyDown, key, time_ms }
}

fn up(key: i32, time_ms: u64) -> KeyEvent {
    KeyEvent { kind: KeyEventKind::KeyUp, key, time_ms }
}

fn registry_with(chord: &str, should_block: bool, interval_ms: u64) -> ListenerRegistry {
    let codes = KeyChordParser::new().parse(chord).unwrap();
    let mut reg = ListenerRegistry::new();
    reg.add(ListenerRecord::new(codes, should_block, interval_ms, 7));
    reg
}

#[test]
fn volume_up_scenario() {
    let mut reg = registry_with("VolumeUp", true, 200);
    let first = reg.handle_key_event(down(0xAF, 0));
    assert_eq!(first.fired, vec![0]);
    assert!(first.suppress);
    let repeat = reg.handle_key_event(down(0xAF, 50));
    assert!(repeat.fired.is_empty());
    assert!(repeat.suppress);
    let release = reg.handle_key_event(up(0xAF, 100));
    assert!(release.fired.is_empty());
    let again = reg.handle_key_event(down(0xAF, 250));
    assert_eq!(again.fired, vec![0]);
    assert_eq!(reg.records[0].last_trigger, Some(250));
}

#[test]
fn debounce_held_chord_fires_once_per_interval() {
    let mut reg = registry_with("ctrl+z", false, 100);
    assert!(reg.handle_key_event(down(0x11, 1000)).fired.is_empty());
    assert_eq!(reg.handle_key_event(down(0x5A, 1000)).fired, vec![0]);
    for t in [1010u64, 1050, 1099] {
        assert!(reg.handle_key_event(down(0x5A, t)).fired.is_empty());
    }
    assert_eq!(reg.handle_key_event(down(0x5A, 1100)).fired, vec![0]);
    assert_eq!(reg.records[0].last_trigger, Some(1100));
}

#[test]
fn partial_press_never_fires() {
    let mut reg = registry_with("ctrl+shift+z", false, 0);
    for t in [0u64, 10, 500, 10_000] {
        assert!(reg.handle_key_event(down(0x11, t)).fired.is_empty());
        assert!(reg.handle_key_event(down(0x10, t)).fired.is_empty());
        assert!(reg.handle_key_event(up(0x10, t)).fired.is_empty());
    }
    assert_eq!(reg.records[0].last_trigger, None);
}

#[test]
fn release_then_repress_rearms() {
    let mut reg = registry_with("ctrl+z", false, 200);
    reg.handle_key_event(down(0x11, 0));
    assert_eq!(reg.handle_key_event(down(0x5A, 10)).fired, vec![0]);
    reg.handle_key_event(up(0x5A, 20));
    assert!(reg.handle_key_event(down(0x5A, 100)).fired.is_empty());
    reg.handle_key_event(up(0x5A, 150));
    assert_eq!(reg.handle_key_event(down(0x5A, 210)).fired, vec![0]);
}

#[test]
fn key_states_follow_events() {
    let mut reg = registry_with("ctrl+z", false, 200);
    reg.handle_key_event(down(0x11, 0));
    assert_eq!(reg.records[0].key_states, vec![true, false]);
    reg.handle_key_event(up(0x11, 5));
    assert_eq!(reg.records[0].key_states, vec![false, false]);
}

#[test]
fn other_events_pass_through() {
    let mut reg = registry_with("VolumeUp", true, 0);
    let out = reg.handle_key_event(KeyEvent { kind: KeyEventKind::Other, key: 0xAF, time_ms: 0 });
    assert!(out.fired.is_empty());
    assert!(!out.suppress);
    assert_eq!(reg.records[0].key_states, vec![false]);
}

#[test]
fn unrelated_key_is_not_suppressed() {
    let mut reg = registry_with("VolumeUp", true, 0);
    let out = reg.handle_key_event(down(0x41, 0));
    assert!(out.fired.is_empty());
    assert!(!out.suppress);
}

#[test]
fn any_matching_listener_suppresses() {
    let mut reg = ListenerRegistry::new();
    reg.add(ListenerRecord::new(vec![0xAF], true, 0, 1));
    reg.add(ListenerRecord::new(vec![0xAF], false, 0, 2));
    let out = reg.handle_key_event(down(0xAF, 0));
    assert_eq!(out.fired, vec![0, 1]);
    assert!(out.suppress);
}

#[test]
fn new_record_starts_released() {
    let rec = ListenerRecord::new(vec![0x11, 0x5A], true, 200, 42);
    assert_eq!(rec.key_states, vec![false, false]);
    assert_eq!(rec.last_trigger, None);
    assert_eq!(rec.hook_handle, Some(42));
    assert!(rec.contains_key(0x5A));
    assert!(!rec.contains_key(0x41));
}

#[test]
fn unlisten_twice_is_harmless() {
    let mut reg = ListenerRegistry::new();
    reg.add(ListenerRecord::new(vec![0xAF], true, 0, 11));
    reg.add(ListenerRecord::new(vec![0xAE], false, 0, 12));
    assert_eq!(reg.unlisten(), vec![11, 12]);
    assert_eq!(reg.len(), 0);
    assert_eq!(reg.unlisten(), Vec::<isize>::new());
    assert_eq!(reg.len(), 0);
}

#[test]
fn release_handle_marks_record() {
    let mut reg = ListenerRegistry::new();
    reg.add(ListenerRecord::new(vec![0xAF], true, 0, 11));
    reg.add(ListenerRecord::new(vec![0xAE], false, 0, 12));
    assert!(reg.release_handle(12));
    assert!(!reg.release_handle(12));
    assert_eq!(reg.records[1].hook_handle, None);
    assert_eq!(reg.unlisten(), vec![11]);
}

#[test]
fn session_lifecycle() {
    assert_eq!(
        session_step(SessionState::Installing, SessionEvent::InstallAnswered(Some(5))),
        (SessionState::Active(5), SessionAction::Publish(5))
    );
    assert_eq!(
        session_step(SessionState::Installing, SessionEvent::InstallAnswered(Some(0))),
        (SessionState::Failed, SessionAction::ReportFailure)
    );
    assert_eq!(
        session_step(SessionState::Installing, SessionEvent::InstallAnswered(None)),
        (SessionState::Failed, SessionAction::ReportFailure)
    );
    assert_eq!(
        session_step(SessionState::Active(5), SessionEvent::MessageLoopEnded { still_installed: true }),
        (SessionState::Uninstalled, SessionAction::Unhook(5))
    );
    assert_eq!(
        session_step(SessionState::Active(5), SessionEvent::MessageLoopEnded { still_installed: false }),
        (SessionState::Uninstalled, SessionAction::Nothing)
    );
    assert_eq!(
        session_step(SessionState::Uninstalled, SessionEvent::MessageLoopEnded { still_installed: true }),
        (SessionState::Uninstalled, SessionAction::Nothing)
    );
}
