use tokio::sync::oneshot;
use ttrpc_connection::{CompletionSlot, SendingMessage};

#[test]
fn first_fulfillment_wins() {
    let (tx, mut rx) = oneshot::channel::<u32>();
    let mut slot = CompletionSlot::new(tx);
    assert!(!slot.is_fulfilled());
    assert!(slot.fulfill(7));
    assert!(slot.is_fulfilled());
    assert!(!slot.fulfill(8));
    assert_eq!(rx.try_recv().unwrap(), 7);
}

#[test]
fn dropped_receiver_still_fulfills_once() {
    let (tx, rx) = oneshot::channel::<u32>();
    drop(rx);
    let mut slot = CompletionSlot::new(tx);
    assert!(slot.fulfill(1));
    assert!(slot.is_fulfilled());
    assert!(!slot.fulfill(2));
}

#[test]
fn send_result_reports_failure_then_ignores_success() {
    let (tx, mut rx) = oneshot::channel::<Result<(), String>>();
    let mut m = SendingMessage::new(vec![1u8, 2, 3], tx);
    assert!(m.send_result(Err("write failed".to_string())));
    assert!(!m.send_result(Ok(())));
    assert_eq!(m.msg, vec![1u8, 2, 3]);
    assert_eq!(rx.try_recv().unwrap(), Err("write failed".to_string()));
}
