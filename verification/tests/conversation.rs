//! What a peer says over its data channels.
use futures_channel::mpsc::UnboundedReceiver;
use matchbox_socket::channel::{unbounded, Inbox};
use matchbox_socket::error::ChannelEventError;
use matchbox_socket::handlers::{AsyncDataChannelReceiver, ChannelBuilder};
use matchbox_socket::peer::{ChannelEvent, PeerMessage, UnboundedPeerReceiver};
use matchbox_socket::protocol::{ChannelConfig, ChannelNumber, Packet, PeerId};

const PEER: PeerId = PeerId(42);

fn packet(bytes: &[u8]) -> Packet {
    bytes.to_vec().into_boxed_slice()
}

fn said(inbox: Inbox<(PeerId, PeerMessage)>) -> Vec<(PeerId, PeerMessage)> {
    let mut receiver = inbox.into_receiver();
    said_by_now(&mut receiver)
}

fn said_by_now(
    receiver: &mut UnboundedReceiver<(PeerId, PeerMessage)>,
) -> Vec<(PeerId, PeerMessage)> {
    let mut messages = Vec::new();
    while let Ok(message) = receiver.try_recv() {
        messages.push(message);
    }
    messages
}

fn reliable() -> ChannelConfig {
    ChannelConfig { ordered: true, max_retransmits: None }
}

fn unreliable() -> ChannelConfig {
    ChannelConfig { ordered: false, max_retransmits: Some(0) }
}

fn handlers(
    config: &[ChannelConfig],
) -> (Vec<ChannelBuilder<AsyncDataChannelReceiver>>, Inbox<(PeerId, PeerMessage)>) {
    let (outbox, inbox) = unbounded();
    (AsyncDataChannelReceiver::channels_for_peer(PEER, config, outbox), inbox)
}

#[test]
fn peer_joins_with_its_last_channel() {
    let (outbox, inbox) = unbounded();
    let mut receiver = inbox.into_receiver();
    let mut peer = UnboundedPeerReceiver::new(PEER, 3, outbox);
    assert_eq!(peer.channel_open(), Ok(()));
    assert_eq!(peer.channel_open(), Ok(()));
    assert!(!peer.is_connected());
    assert_eq!(said_by_now(&mut receiver), vec![]);
    assert_eq!(peer.channel_open(), Ok(()));
    assert!(peer.is_connected());
    assert_eq!(said_by_now(&mut receiver), vec![(PEER, PeerMessage::Join)]);
}

#[test]
fn early_packets_wait_for_the_join() {
    let (outbox, inbox) = unbounded();
    let mut peer = UnboundedPeerReceiver::new(PEER, 2, outbox);
    assert_eq!(peer.channel_open(), Ok(()));
    assert_eq!(peer.channel_packet(ChannelNumber(0), packet(&[1])), Ok(()));
    assert_eq!(peer.channel_packet(ChannelNumber(1), packet(&[2])), Ok(()));
    assert_eq!(peer.channel_open(), Ok(()));
    assert_eq!(peer.channel_packet(ChannelNumber(0), packet(&[3])), Ok(()));
    assert_eq!(
        said(inbox),
        vec![
            (PEER, PeerMessage::Join),
            (PEER, PeerMessage::Packet(ChannelNumber(0), packet(&[1]))),
            (PEER, PeerMessage::Packet(ChannelNumber(1), packet(&[2]))),
            (PEER, PeerMessage::Packet(ChannelNumber(0), packet(&[3]))),
        ]
    );
}

#[test]
fn first_close_is_the_last_word() {
    let (outbox, inbox) = unbounded();
    let mut peer = UnboundedPeerReceiver::new(PEER, 1, outbox);
    assert_eq!(peer.channel_open(), Ok(()));
    assert_eq!(peer.channel_close(Some("broken".to_string())), Ok(()));
    assert_eq!(peer.channel_close(None), Ok(()));
    assert_eq!(peer.channel_packet(ChannelNumber(0), packet(&[1])), Ok(()));
    assert_eq!(peer.channel_open(), Ok(()));
    assert!(!peer.is_connected());
    assert_eq!(
        said(inbox),
        vec![
            (PEER, PeerMessage::Join),
            (PEER, PeerMessage::Close(Some("broken".to_string()))),
        ]
    );
}

#[test]
fn peer_that_never_joined_says_nothing() {
    let (outbox, inbox) = unbounded();
    let mut peer = UnboundedPeerReceiver::new(PEER, 2, outbox);
    assert_eq!(peer.channel_open(), Ok(()));
    assert_eq!(peer.channel_packet(ChannelNumber(0), packet(&[1])), Ok(()));
    assert_eq!(peer.channel_close(None), Ok(()));
    assert_eq!(peer.channel_open(), Ok(()));
    assert_eq!(said(inbox), vec![]);
}

#[test]
fn nobody_to_report_to_ends_the_conversation() {
    let (outbox, inbox) = unbounded();
    let mut peer = UnboundedPeerReceiver::new(PEER, 1, outbox);
    drop(inbox);
    assert_eq!(peer.channel_open(), Err(ChannelEventError::Undelivered));
    assert_eq!(peer.channel_packet(ChannelNumber(0), packet(&[1])), Ok(()));
    assert_eq!(peer.channel_close(None), Ok(()));
}

#[test]
fn packet_for_nobody_ends_the_conversation() {
    let (outbox, inbox) = unbounded();
    let mut peer = UnboundedPeerReceiver::new(PEER, 1, outbox);
    assert_eq!(peer.channel_open(), Ok(()));
    drop(inbox);
    assert_eq!(
        peer.channel_packet(ChannelNumber(0), packet(&[1])),
        Err(ChannelEventError::Undelivered)
    );
    assert_eq!(peer.channel_close(None), Ok(()));
}

#[test]
fn more_channels_than_there_are() {
    let (outbox, inbox) = unbounded();
    let mut peer = UnboundedPeerReceiver::new(PEER, 1, outbox);
    assert_eq!(peer.channel_event(ChannelEvent::Open), Ok(()));
    assert_eq!(
        peer.channel_event(ChannelEvent::Open),
        Err(ChannelEventError::UnexpectedOpen)
    );
    assert_eq!(peer.channel_event(ChannelEvent::Close(None)), Ok(()));
    assert_eq!(peer.channel_event(ChannelEvent::Open), Ok(()));
    assert_eq!(
        said(inbox),
        vec![(PEER, PeerMessage::Join), (PEER, PeerMessage::Close(None))]
    );
}

#[test]
fn forwarded_message_names_the_peer() {
    let (outbox, inbox) = unbounded();
    let mut peer = UnboundedPeerReceiver::new(PEER, 1, outbox);
    assert_eq!(peer.forward(PeerMessage::Close(None)), Ok(()));
    assert_eq!(said(inbox), vec![(PEER, PeerMessage::Close(None))]);
}

#[test]
fn one_handler_for_each_channel() {
    let (builders, _inbox) = handlers(&[reliable(), unreliable()]);
    assert_eq!(builders.len(), 2);
    assert_eq!(builders[0].channel_config, reliable());
    assert_eq!(builders[1].channel_config, unreliable());
}

#[test]
fn handlers_of_a_peer_share_it() {
    let (mut builders, inbox) = handlers(&[reliable(), unreliable()]);
    assert_eq!(builders[1].event_handlers.on_open(), Ok(()));
    assert_eq!(builders[1].event_handlers.on_message(packet(&[1])), Ok(()));
    assert_eq!(builders[0].event_handlers.on_open(), Ok(()));
    assert_eq!(builders[0].event_handlers.on_message(packet(&[2])), Ok(()));
    assert_eq!(
        builders[0].event_handlers.on_open(),
        Err(ChannelEventError::UnexpectedOpen)
    );
    assert_eq!(builders[1].event_handlers.on_error("lost".to_string()), Ok(()));
    assert_eq!(builders[0].event_handlers.on_close(), Ok(()));
    assert_eq!(builders[0].event_handlers.on_message(packet(&[3])), Ok(()));
    assert_eq!(
        said(inbox),
        vec![
            (PEER, PeerMessage::Join),
            (PEER, PeerMessage::Packet(ChannelNumber(1), packet(&[1]))),
            (PEER, PeerMessage::Packet(ChannelNumber(0), packet(&[2]))),
            (PEER, PeerMessage::Close(Some("lost".to_string()))),
        ]
    );
}

#[test]
fn orderly_close_has_no_error() {
    let (mut builders, inbox) = handlers(&[reliable()]);
    assert_eq!(builders[0].event_handlers.on_open(), Ok(()));
    assert_eq!(builders[0].event_handlers.on_close(), Ok(()));
    assert_eq!(
        said(inbox),
        vec![(PEER, PeerMessage::Join), (PEER, PeerMessage::Close(None))]
    );
}

#[test]
fn handlers_notice_that_nobody_listens() {
    let (mut builders, inbox) = handlers(&[reliable()]);
    drop(inbox);
    assert_eq!(
        builders[0].event_handlers.on_open(),
        Err(ChannelEventError::Undelivered)
    );
    assert_eq!(builders[0].event_handlers.on_close(), Ok(()));
}

#[test]
fn as_many_channels_as_can_be_numbered() {
    let config = vec![reliable(); 0x1_0000];
    let (mut builders, inbox) = handlers(&config);
    assert_eq!(builders.len(), 0x1_0000);
    for builder in builders.iter_mut() {
        assert_eq!(builder.event_handlers.on_open(), Ok(()));
    }
    assert_eq!(builders[0xffff].event_handlers.on_message(packet(&[9])), Ok(()));
    assert_eq!(
        said(inbox),
        vec![
            (PEER, PeerMessage::Join),
            (PEER, PeerMessage::Packet(ChannelNumber(0xffff), packet(&[9]))),
        ]
    );
}

#[test]
fn handlers_join_with_the_last_to_open() {
    for order in [[0, 1, 2], [0, 2, 1], [1, 0, 2], [1, 2, 0], [2, 0, 1], [2, 1, 0]] {
        let (mut builders, inbox) = handlers(&[reliable(), unreliable(), reliable()]);
        let mut receiver = inbox.into_receiver();
        assert_eq!(builders[order[0]].event_handlers.on_open(), Ok(()));
        assert_eq!(builders[order[1]].event_handlers.on_open(), Ok(()));
        assert_eq!(said_by_now(&mut receiver), vec![]);
        assert_eq!(builders[order[2]].event_handlers.on_open(), Ok(()));
        assert_eq!(said_by_now(&mut receiver), vec![(PEER, PeerMessage::Join)]);
    }
}

#[test]
fn error_before_an_orderly_close() {
    let (mut builders, inbox) = handlers(&[reliable(), reliable()]);
    assert_eq!(builders[0].event_handlers.on_open(), Ok(()));
    assert_eq!(builders[1].event_handlers.on_open(), Ok(()));
    assert_eq!(builders[0].event_handlers.on_error("boom".to_string()), Ok(()));
    assert_eq!(builders[1].event_handlers.on_close(), Ok(()));
    assert_eq!(
        said(inbox),
        vec![
            (PEER, PeerMessage::Join),
            (PEER, PeerMessage::Close(Some("boom".to_string()))),
        ]
    );
}

#[test]
fn orderly_close_before_an_error() {
    let (mut builders, inbox) = handlers(&[reliable(), reliable()]);
    assert_eq!(builders[0].event_handlers.on_open(), Ok(()));
    assert_eq!(builders[1].event_handlers.on_open(), Ok(()));
    assert_eq!(builders[1].event_handlers.on_close(), Ok(()));
    assert_eq!(builders[0].event_handlers.on_error("boom".to_string()), Ok(()));
    assert_eq!(
        said(inbox),
        vec![(PEER, PeerMessage::Join), (PEER, PeerMessage::Close(None))]
    );
}

#[test]
fn packets_of_all_channels_in_order() {
    let (mut builders, inbox) = handlers(&[reliable(), reliable()]);
    assert_eq!(builders[1].event_handlers.on_message(packet(&[1])), Ok(()));
    assert_eq!(builders[0].event_handlers.on_open(), Ok(()));
    assert_eq!(builders[0].event_handlers.on_message(packet(&[2])), Ok(()));
    assert_eq!(builders[1].event_handlers.on_open(), Ok(()));
    assert_eq!(builders[0].event_handlers.on_message(packet(&[3])), Ok(()));
    assert_eq!(
        said(inbox),
        vec![
            (PEER, PeerMessage::Join),
            (PEER, PeerMessage::Packet(ChannelNumber(1), packet(&[1]))),
            (PEER, PeerMessage::Packet(ChannelNumber(0), packet(&[2]))),
            (PEER, PeerMessage::Packet(ChannelNumber(0), packet(&[3]))),
        ]
    );
}

#[test]
fn peer_that_failed_early_stays_silent() {
    let (mut builders, inbox) = handlers(&[reliable(), reliable()]);
    assert_eq!(builders[0].event_handlers.on_message(packet(&[1])), Ok(()));
    assert_eq!(builders[0].event_handlers.on_open(), Ok(()));
    assert_eq!(builders[0].event_handlers.on_error("boom".to_string()), Ok(()));
    assert_eq!(builders[1].event_handlers.on_open(), Ok(()));
    assert_eq!(builders[1].event_handlers.on_message(packet(&[2])), Ok(()));
    assert_eq!(said(inbox), vec![]);
}

#[test]
fn peers_share_nothing() {
    let (mut one, one_inbox) = handlers(&[reliable()]);
    let (mut other, other_inbox) = handlers(&[reliable()]);
    assert_eq!(one[0].event_handlers.on_close(), Ok(()));
    assert_eq!(other[0].event_handlers.on_open(), Ok(()));
    assert_eq!(said(one_inbox), vec![]);
    assert_eq!(said(other_inbox), vec![(PEER, PeerMessage::Join)]);
}
