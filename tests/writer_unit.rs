use tokio::sync::oneshot;
use ttrpc_connection::{SendingMessage, WriterAction, WriterPhase, WriterUnit};

type Outcome = Result<(), String>;

fn message(name: &str) -> (SendingMessage<String, String>, oneshot::Receiver<Outcome>) {
    let (tx, rx) = oneshot::channel();
    (SendingMessage::new(name.to_string(), tx), rx)
}

#[test]
fn three_messages_second_write_fails() {
    let mut unit = WriterUnit::new();
    let writes: Vec<Outcome> = vec![Ok(()), Err("broken pipe".to_string()), Ok(())];
    let mut receivers = Vec::new();
    let mut disconnects: Vec<(String, String)> = Vec::new();
    for (i, res) in writes.into_iter().enumerate() {
        let (mut m, rx) = message(&format!("frame-{}", i + 1));
        receivers.push(rx);
        assert_eq!(unit.on_recv(true), WriterAction::Write);
        assert_eq!(unit.phase_now(), WriterPhase::Writing);
        if let Some(e) = unit.on_written(&mut m, res) {
            disconnects.push((m.msg.clone(), e));
        }
        assert!(m.slot.is_fulfilled());
        assert_eq!(unit.phase_now(), WriterPhase::Receiving);
    }
    let outcomes: Vec<Outcome> = receivers.into_iter().map(|mut rx| rx.try_recv().unwrap()).collect();
    assert_eq!(outcomes, vec![Ok(()), Err("broken pipe".to_string()), Ok(())]);
    assert_eq!(disconnects, vec![("frame-2".to_string(), "broken pipe".to_string())]);
    assert_eq!(unit.on_recv(false), WriterAction::Exit);
    assert_eq!(unit.phase_now(), WriterPhase::Exited);
}

#[test]
fn closed_source_exits_at_once() {
    let mut unit = WriterUnit::new();
    assert_eq!(unit.phase_now(), WriterPhase::Receiving);
    assert_eq!(unit.on_recv(false), WriterAction::Exit);
    assert_eq!(unit.phase_now(), WriterPhase::Exited);
}

#[test]
fn failed_write_does_not_stop_the_unit() {
    let mut unit = WriterUnit::new();
    let (mut first, mut rx1) = message("a");
    assert_eq!(unit.on_recv(true), WriterAction::Write);
    assert_eq!(unit.on_written(&mut first, Err("reset".to_string())), Some("reset".to_string()));
    assert_eq!(rx1.try_recv().unwrap(), Err("reset".to_string()));
    let (mut second, mut rx2) = message("b");
    assert_eq!(unit.on_recv(true), WriterAction::Write);
    assert_eq!(unit.on_written(&mut second, Ok(())), None);
    assert_eq!(rx2.try_recv().unwrap(), Ok(()));
    assert_eq!(unit.on_recv(false), WriterAction::Exit);
}

#[test]
fn slot_already_fulfilled_keeps_first_outcome() {
    let mut unit = WriterUnit::new();
    let (mut m, mut rx) = message("a");
    assert!(m.send_result(Err("cancelled".to_string())));
    assert_eq!(unit.on_recv(true), WriterAction::Write);
    assert_eq!(unit.on_written(&mut m, Ok(())), None);
    assert_eq!(rx.try_recv().unwrap(), Err("cancelled".to_string()));
}
