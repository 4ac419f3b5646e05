use opalite::{Message, MessageQueue};

#[derive(Debug, Clone, PartialEq, Eq)]
struct Note(u32);

impl Message for Note {}

#[test]
fn three_sends_drain_in_send_order() {
    let (mut sender, mut receiver) = MessageQueue::<Note>::new();
    sender.send(Note(1));
    sender.send(Note(2));
    sender.send(Note(3));
    assert_eq!(receiver.messages(), vec![Note(1), Note(2), Note(3)]);
}

#[test]
fn drain_empties_the_queue_and_returns_at_once() {
    let (mut sender, mut receiver) = MessageQueue::<Note>::new();
    sender.send(Note(7));
    assert_eq!(receiver.messages(), vec![Note(7)]);
    assert_eq!(receiver.messages(), Vec::<Note>::new());
}

#[test]
fn next_message_pops_the_oldest_first() {
    let (mut sender, mut receiver) = MessageQueue::<Note>::new();
    assert_eq!(receiver.next_message(), None);
    sender.send(Note(1));
    sender.send(Note(2));
    assert_eq!(receiver.next_message(), Some(Note(1)));
    assert_eq!(receiver.next_message(), Some(Note(2)));
    assert_eq!(receiver.next_message(), None);
}

#[test]
fn cloned_senders_feed_the_same_receiver() {
    let (mut sender, mut receiver) = MessageQueue::<Note>::new();
    let mut second = sender.clone();
    sender.send(Note(1));
    second.send(Note(2));
    assert_eq!(receiver.messages(), vec![Note(1), Note(2)]);
}

#[test]
fn standalone_queue_keeps_fifo_order() {
    let mut queue = MessageQueue::<Note>::empty();
    assert_eq!(queue.len(), 0);
    queue.send(Note(1));
    queue.send(Note(2));
    assert_eq!(queue.len(), 2);
    assert_eq!(queue.next_message(), Some(Note(1)));
    assert_eq!(queue.drain(), vec![Note(2)]);
    assert_eq!(queue.len(), 0);
}
