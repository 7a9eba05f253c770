//! Tests of the message publisher.

use baobei_needs::publisher::Publisher;
use crossbeam_channel::TryRecvError;

#[derive(Clone, Debug, PartialEq)]
struct Message(i32);

#[test]
fn test_multiple_subscribers() {
    let mut publisher = Publisher::new();

    let receiver1 = publisher.subscribe();
    let receiver2 = publisher.subscribe();

    publisher.publish(Message(12));
    publisher.publish(Message(34));

    assert_eq!(receiver1.recv(), Ok(Message(12)));
    assert_eq!(receiver1.recv(), Ok(Message(34)));
    assert_eq!(receiver1.try_recv(), Err(TryRecvError::Empty));

    assert_eq!(receiver2.recv(), Ok(Message(12)));
    assert_eq!(receiver2.recv(), Ok(Message(34)));
    assert_eq!(receiver2.try_recv(), Err(TryRecvError::Empty));

    publisher.publish(Message(45));

    assert_eq!(receiver1.recv(), Ok(Message(45)));
    assert_eq!(receiver1.try_recv(), Err(TryRecvError::Empty));

    assert_eq!(receiver2.recv(), Ok(Message(45)));
    assert_eq!(receiver2.try_recv(), Err(TryRecvError::Empty));
}

#[test]
fn test_disconnected_channels() {
    let mut publisher = Publisher::new();

    let receiver = publisher.subscribe();
    let disconnected_receiver = publisher.subscribe();

    drop(disconnected_receiver);

    publisher.publish(62);

    assert_eq!(receiver.recv(), Ok(62));
    assert_eq!(receiver.try_recv(), Err(TryRecvError::Empty));
}

#[test]
fn publishing_drops_disconnected_channels() {
    let mut publisher = Publisher::new();

    let receiver = publisher.subscribe();
    let disconnected_receiver = publisher.subscribe();
    assert_eq!(publisher.subscribers(), 2);

    drop(disconnected_receiver);

    // Publishing notices the closed channel and forgets it.
    publisher.publish(7);
    assert_eq!(publisher.subscribers(), 1);

    // The live channel still receives everything.
    publisher.publish(8);
    assert_eq!(receiver.recv(), Ok(7));
    assert_eq!(receiver.recv(), Ok(8));
    assert_eq!(publisher.subscribers(), 1);
}
