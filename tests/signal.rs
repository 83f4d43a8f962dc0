use tail::signal::{CancellationSignals, InterruptListener};

#[test]
fn double_interrupt_delivers_once() {
    let mut signals = CancellationSignals::new();
    assert_eq!(signals.listener.pending(), 3);
    assert!(!signals.listener.has_fired());
    let first = signals.listener.notify();
    let second = signals.listener.notify();
    assert_eq!(first.attempted(), 3);
    assert_eq!(first.delivered(), 3);
    assert_eq!(second.attempted(), 0);
    assert_eq!(second.delivered(), 0);
    assert!(signals.listener.has_fired());
    assert_eq!(signals.listener.pending(), 0);
    assert!(signals.ingestion.try_recv().is_ok());
    assert!(signals.tunnel.try_recv().is_ok());
    assert!(signals.registration.try_recv().is_ok());
}

#[test]
fn gone_consumer_is_ignored() {
    let mut signals = CancellationSignals::new();
    drop(signals.tunnel);
    let fan_out = signals.listener.notify();
    assert_eq!(fan_out.attempted(), 3);
    assert_eq!(fan_out.delivered(), 2);
    assert!(signals.ingestion.try_recv().is_ok());
    assert!(signals.registration.try_recv().is_ok());
}

#[test]
fn no_interrupt_no_notification() {
    let mut signals = CancellationSignals::new();
    assert!(signals.ingestion.try_recv().is_err());
    assert!(signals.tunnel.try_recv().is_err());
    assert!(signals.registration.try_recv().is_err());
    assert!(!signals.listener.has_fired());
}

#[test]
fn dropped_producer_is_no_notification() {
    let (tx, mut rx) = tokio::sync::oneshot::channel::<()>();
    drop(tx);
    assert!(rx.try_recv().is_err());
}

#[test]
fn listener_without_producers() {
    let mut listener = InterruptListener::new(Vec::new());
    let fan_out = listener.notify();
    assert_eq!(fan_out.attempted(), 0);
    assert_eq!(fan_out.delivered(), 0);
    assert!(listener.has_fired());
}

#[test]
fn listener_over_given_channels() {
    let (tx1, mut rx1) = tokio::sync::oneshot::channel();
    let (tx2, rx2) = tokio::sync::oneshot::channel::<()>();
    drop(rx2);
    let mut listener = InterruptListener::new(vec![tx1, tx2]);
    assert_eq!(listener.pending(), 2);
    let fan_out = listener.notify();
    assert_eq!(fan_out.attempted(), 2);
    assert_eq!(fan_out.delivered(), 1);
    assert_eq!(rx1.try_recv(), Ok(()));
}

#[test]
fn three_channels_with_the_middle_consumer_gone() {
    let (tx1, mut rx1) = tokio::sync::oneshot::channel();
    let (tx2, rx2) = tokio::sync::oneshot::channel::<()>();
    let (tx3, mut rx3) = tokio::sync::oneshot::channel();
    drop(rx2);
    let mut listener = InterruptListener::new(vec![tx1, tx2, tx3]);
    let fan_out = listener.notify();
    assert_eq!(fan_out.attempted(), 3);
    assert_eq!(fan_out.delivered(), 2);
    assert_eq!(rx1.try_recv(), Ok(()));
    assert_eq!(rx3.try_recv(), Ok(()));
}
