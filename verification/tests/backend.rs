use grlog::backend::{next_writer_step, WriterAction, WriterEvent, WriterPhase};

#[test]
fn writer_loop_writes_every_received_line() {
    let (phase, action) = next_writer_step(WriterPhase::Receiving, WriterEvent::Received("a".to_string()));
    assert_eq!(phase, WriterPhase::Receiving);
    assert!(matches!(action, WriterAction::Write(ref s) if s == "a"));

    let (phase, action) = next_writer_step(WriterPhase::Draining, WriterEvent::Received("b".to_string()));
    assert_eq!(phase, WriterPhase::Draining);
    assert!(matches!(action, WriterAction::Write(ref s) if s == "b"));
}

#[test]
fn writer_loop_drains_then_flushes() {
    let (phase, action) = next_writer_step(WriterPhase::Receiving, WriterEvent::Stopped);
    assert_eq!(phase, WriterPhase::Draining);
    assert!(matches!(action, WriterAction::Idle));

    let (phase, action) = next_writer_step(WriterPhase::Receiving, WriterEvent::Disconnected);
    assert_eq!(phase, WriterPhase::Draining);
    assert!(matches!(action, WriterAction::Idle));

    let (phase, action) = next_writer_step(WriterPhase::Receiving, WriterEvent::Empty);
    assert_eq!(phase, WriterPhase::Receiving);
    assert!(matches!(action, WriterAction::Pause));

    let (phase, action) = next_writer_step(WriterPhase::Draining, WriterEvent::Empty);
    assert_eq!(phase, WriterPhase::Finished);
    assert!(matches!(action, WriterAction::Flush));

    let (phase, action) = next_writer_step(WriterPhase::Draining, WriterEvent::Disconnected);
    assert_eq!(phase, WriterPhase::Finished);
    assert!(matches!(action, WriterAction::Flush));

    let (phase, action) = next_writer_step(WriterPhase::Finished, WriterEvent::Received("late".to_string()));
    assert_eq!(phase, WriterPhase::Finished);
    assert!(matches!(action, WriterAction::Idle));
}

#[test]
fn writer_loop_run_writes_in_order_and_flushes_once() {
    let events = vec![
        WriterEvent::Received("one".to_string()),
        WriterEvent::Empty,
        WriterEvent::Received("two".to_string()),
        WriterEvent::Stopped,
        WriterEvent::Received("three".to_string()),
        WriterEvent::Empty,
        WriterEvent::Received("late".to_string()),
    ];
    let mut phase = WriterPhase::Receiving;
    let mut written = Vec::new();
    let mut flushes = 0;
    for event in events {
        let (next, action) = next_writer_step(phase, event);
        match action {
            WriterAction::Write(line) => {
                assert_eq!(flushes, 0);
                written.push(line);
            }
            WriterAction::Flush => flushes += 1,
            _ => {}
        }
        phase = next;
    }
    assert_eq!(written, vec!["one", "two", "three"]);
    assert_eq!(flushes, 1);
    assert_eq!(phase, WriterPhase::Finished);
}
