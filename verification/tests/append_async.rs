use logforth::append_async::channel;
use logforth::append_async::collect_flush_errors;
use logforth::append_async::flush_reply_result;
use logforth::append_async::send_outcome_result;
use logforth::append_async::send_task;
use logforth::append_async::Overflow;
use logforth::append_async::SendOutcome;
use logforth::append_async::TaskKind;
use logforth::append_async::TrySendError;
use logforth::error::Error;

#[test]
fn flush_propagates_errors() {
    let results = vec![Ok(()), Err(Error::new("flush failed".to_string()))];
    let worker_error = collect_flush_errors(&results);
    let err = flush_reply_result(Ok(worker_error)).unwrap_err();
    let err = err.to_string();
    assert!(err.contains("failed to flush"));
    assert!(err.contains("flush failed"));
}

#[test]
fn flush_errors_are_gathered_in_order() {
    let results = vec![
        Err(Error::new("one".to_string())),
        Ok(()),
        Err(Error::new("two".to_string())),
    ];
    let err = collect_flush_errors(&results).unwrap();
    assert_eq!(err.to_string(), "failed to flush appender, sources: [one, two]");
    assert!(collect_flush_errors(&vec![Ok(()), Ok(())]).is_none());
}

#[test]
fn flush_replies() {
    assert!(flush_reply_result(Ok(None)).is_ok());
    let err = flush_reply_result(Err("channel closed".to_string())).unwrap_err();
    assert_eq!(err.to_string(), "worker exited before completing flush, sources: [channel closed]");
}

#[test]
fn send_outcomes() {
    assert!(send_outcome_result(TaskKind::Log, SendOutcome::Sent).is_ok());
    assert!(send_outcome_result(TaskKind::Log, SendOutcome::Full).is_ok());
    assert_eq!(
        send_outcome_result(TaskKind::Log, SendOutcome::Disconnected).unwrap_err().to_string(),
        "failed to send log task to async appender"
    );
    assert_eq!(
        send_outcome_result(TaskKind::Flush, SendOutcome::Disconnected).unwrap_err().to_string(),
        "failed to send flush task to async appender"
    );
}

#[test]
fn bounded_channel_drops_when_full() {
    let (mut tx, rx) = channel::<u32>(Some(1));
    assert!(send_task(Overflow::DropIncoming, &mut tx, 1, TaskKind::Log).is_ok());
    assert!(send_task(Overflow::DropIncoming, &mut tx, 2, TaskKind::Log).is_ok());
    assert_eq!(rx.try_recv().unwrap(), 1);
    assert!(rx.try_recv().is_err());
    match tx.try_send(3) {
        Ok(()) => {}
        Err(_) => panic!("room for one value"),
    }
    match tx.try_send(4) {
        Err(TrySendError::Full(v)) => assert_eq!(v, 4),
        _ => panic!("the channel is full"),
    }
    drop(rx);
    let err = send_task(Overflow::Block, &mut tx, 5, TaskKind::Flush).unwrap_err();
    assert_eq!(err.to_string(), "failed to send flush task to async appender");
}

#[test]
fn unbounded_channel_is_never_full() {
    let (mut tx, rx) = channel::<u32>(None);
    for i in 0..100 {
        assert!(send_task(Overflow::DropIncoming, &mut tx, i, TaskKind::Log).is_ok());
    }
    assert_eq!(rx.try_iter().count(), 100);
    drop(rx);
    match tx.try_send(1) {
        Err(TrySendError::Disconnected(v)) => assert_eq!(v, 1),
        _ => panic!("the receiver is gone"),
    }
    assert!(tx.send(2).is_err());
}
