//! The channels between the tasks of a socket.
use matchbox_socket::channel::{promise, unbounded};
use matchbox_socket::data_channel::{BoxDataChannel, MatchboxDataChannel};
use matchbox_socket::error::PacketSendError;
use matchbox_socket::protocol::Packet;

fn packet(bytes: &[u8]) -> Packet {
    bytes.to_vec().into_boxed_slice()
}

#[test]
fn messages_arrive_in_order() {
    let (mut outbox, inbox) = unbounded::<u8>();
    assert_eq!(outbox.unbounded_send(1), Ok(()));
    assert_eq!(outbox.unbounded_send(2), Ok(()));
    let mut receiver = inbox.into_receiver();
    assert_eq!(receiver.try_recv().ok(), Some(1));
    assert_eq!(receiver.try_recv().ok(), Some(2));
    assert!(receiver.try_recv().is_err());
}

#[test]
fn refused_message_comes_back() {
    let (mut outbox, inbox) = unbounded::<String>();
    drop(inbox);
    assert_eq!(outbox.unbounded_send("hello".to_string()), Err("hello".to_string()));
}

#[test]
fn ends_of_one_channel_share_it() {
    let (mut first, inbox) = unbounded::<u8>();
    let mut receiver = inbox.into_receiver();
    let mut second = first.another();
    assert_eq!(second.unbounded_send(7), Ok(()));
    assert_eq!(first.unbounded_send(8), Ok(()));
    assert_eq!(receiver.try_recv().ok(), Some(7));
    assert_eq!(receiver.try_recv().ok(), Some(8));
    drop(first);
    assert_eq!(second.unbounded_send(9), Ok(()));
    assert_eq!(receiver.try_recv().ok(), Some(9));
}

#[test]
fn channel_with_a_receiving_end_takes_the_message() {
    let (mut outbox, inbox) = unbounded::<u8>();
    outbox.send_to(3, &inbox);
    outbox.send_to(4, &inbox);
    let mut receiver = inbox.into_receiver();
    assert_eq!(receiver.try_recv().ok(), Some(3));
    assert_eq!(receiver.try_recv().ok(), Some(4));
}

#[test]
fn channels_are_separate() {
    let (mut one, one_inbox) = unbounded::<u8>();
    let (_other, other_inbox) = unbounded::<u8>();
    assert_eq!(one.unbounded_send(1), Ok(()));
    assert!(other_inbox.into_receiver().try_recv().is_err());
    assert_eq!(one_inbox.into_receiver().try_recv().ok(), Some(1));
}

#[test]
fn promise_is_kept_once() {
    let (mut promised, awaited) = promise::<u8>();
    assert!(promised.is_pending());
    assert_eq!(promised.send(5), Ok(()));
    assert!(!promised.is_pending());
    assert_eq!(awaited.into_receiver().try_recv(), Ok(Some(5)));
}

#[test]
fn promise_to_nobody_comes_back() {
    let (mut promised, awaited) = promise::<u8>();
    drop(awaited);
    assert_eq!(promised.send(5), Err(5));
    assert!(!promised.is_pending());
}

#[test]
fn queue_is_a_data_channel() {
    let (mut outbox, inbox) = unbounded::<Packet>();
    assert_eq!(outbox.send(packet(&[1, 2])), Ok(()));
    let mut boxed = BoxDataChannel(Box::new(outbox));
    assert_eq!(boxed.send(packet(&[3])), Ok(()));
    let mut receiver = inbox.into_receiver();
    assert_eq!(receiver.try_recv().ok(), Some(packet(&[1, 2])));
    assert_eq!(receiver.try_recv().ok(), Some(packet(&[3])));
    drop(receiver);
    assert_eq!(boxed.send(packet(&[4])), Err(PacketSendError));
}

#[test]
fn packet_send_error_in_words() {
    assert_eq!(
        PacketSendError.message(),
        "The socket was dropped and package could not be sent"
    );
}
