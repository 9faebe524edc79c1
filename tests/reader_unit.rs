use ttrpc_connection::{ReadEvent, ReaderAction, ReaderUnit};

type Event = ReadEvent<String, u32, String>;
type Action = ReaderAction<String, u32, String>;

#[test]
fn valid_frame_then_fatal_error() {
    let mut unit = ReaderUnit::new();
    let mut handled: Vec<String> = Vec::new();
    let mut disconnects: Vec<String> = Vec::new();
    let events: Vec<Event> = vec![ReadEvent::Frame("A".to_string()), ReadEvent::Fatal("eof".to_string())];
    for ev in events {
        assert!(unit.is_running());
        match unit.on_event(ev) {
            ReaderAction::HandleMsg(m) => handled.push(m),
            ReaderAction::Disconnect(e) => disconnects.push(e),
            _ => panic!("unexpected action"),
        }
    }
    assert!(!unit.is_running());
    assert_eq!(handled, vec!["A".to_string()]);
    assert_eq!(disconnects, vec!["eof".to_string()]);
    assert!(unit.finish());
    assert!(!unit.finish());
}

#[test]
fn shutdown_before_any_frame() {
    let mut unit = ReaderUnit::new();
    let action: Action = unit.on_event(ReadEvent::Shutdown);
    assert!(matches!(action, ReaderAction::Stop));
    assert!(!unit.is_running());
    assert!(unit.finish());
    assert!(!unit.finish());
}

#[test]
fn header_error_then_valid_frame() {
    let mut unit = ReaderUnit::new();
    let first: Action = unit.on_event(ReadEvent::HeaderError(42, "bad body".to_string()));
    assert!(matches!(first, ReaderAction::HandleErr(42, ref e) if e == "bad body"));
    assert!(unit.is_running());
    let second: Action = unit.on_event(ReadEvent::Frame("B".to_string()));
    assert!(matches!(second, ReaderAction::HandleMsg(ref m) if m == "B"));
    assert!(unit.is_running());
    assert!(!unit.finish());
    let last: Action = unit.on_event(ReadEvent::Shutdown);
    assert!(matches!(last, ReaderAction::Stop));
    assert!(unit.finish());
}

#[test]
fn exit_not_due_while_running() {
    let mut unit = ReaderUnit::new();
    assert!(unit.is_running());
    assert!(!unit.finish());
    assert!(unit.is_running());
}
