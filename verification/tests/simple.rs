//! A socket that is taken apart.
use futures_channel::mpsc::UnboundedReceiver;
use matchbox_socket::channel::{unbounded, Outbox};
use matchbox_socket::data_channel::BoxDataChannel;
use matchbox_socket::protocol::{ChannelIndex, Packet, PeerId};
use matchbox_socket::shared_table::SharedTable;
use matchbox_socket::simple::{SimpleWebRtc, SimpleWebRtcClosedReason, SimpleWebRtcEvent};
use matchbox_socket::tx_table::{TakeError, TxTable};

const PEER: PeerId = PeerId(7);
const FIRST: ChannelIndex = ChannelIndex(0);
const SECOND: ChannelIndex = ChannelIndex(1);

fn packet(bytes: &[u8]) -> Packet {
    bytes.to_vec().into_boxed_slice()
}

fn data_channel() -> (BoxDataChannel, UnboundedReceiver<Packet>) {
    let (outbox, inbox) = unbounded::<Packet>();
    (BoxDataChannel(Box::new(outbox)), inbox.into_receiver())
}

/// A table with `PEER`, which has two channels.
fn table() -> (TxTable, UnboundedReceiver<Packet>, UnboundedReceiver<Packet>) {
    let (first, first_written) = data_channel();
    let (second, second_written) = data_channel();
    let mut table = TxTable::new();
    table.add_peer(PEER, vec![first, second]);
    table.connect_peer(PEER);
    (table, first_written, second_written)
}

/// A socket with that table.
fn socket() -> (
    SimpleWebRtc,
    UnboundedReceiver<Packet>,
    UnboundedReceiver<Packet>,
    Outbox<SimpleWebRtcEvent>,
) {
    let (table, first, second) = table();
    let (events, inbox) = unbounded::<SimpleWebRtcEvent>();
    (SimpleWebRtc::new(SharedTable::new(table), inbox), first, second, events)
}

fn error<T>(outcome: Result<T, TakeError>) -> Option<TakeError> {
    outcome.err()
}

#[test]
fn packets_are_written_in_order_to_their_channel() {
    let (mut table, mut first, mut second) = table();
    assert_eq!(table.send(PEER, FIRST, packet(&[1])), Ok(()));
    assert_eq!(table.send(PEER, SECOND, packet(&[2])), Ok(()));
    assert_eq!(table.send(PEER, FIRST, packet(&[3])), Ok(()));
    assert_eq!(first.try_recv().ok(), Some(packet(&[1])));
    assert_eq!(first.try_recv().ok(), Some(packet(&[3])));
    assert!(first.try_recv().is_err());
    assert_eq!(second.try_recv().ok(), Some(packet(&[2])));
    assert!(second.try_recv().is_err());
}

#[test]
fn unknown_peers_and_channels() {
    let (mut table, _first, _second) = table();
    assert_eq!(table.send(PeerId(8), FIRST, packet(&[1])), Err(TakeError::InvalidPeer));
    assert_eq!(
        table.send(PEER, ChannelIndex(2), packet(&[1])),
        Err(TakeError::InvalidChannel)
    );
    assert_eq!(error(table.take_sink(PeerId(8), FIRST)), Some(TakeError::InvalidPeer));
    assert_eq!(
        error(table.take_sink(PEER, ChannelIndex(usize::MAX))),
        Some(TakeError::InvalidChannel)
    );
    assert_eq!(error(TxTable::new().take_sink(PEER, FIRST)), Some(TakeError::InvalidPeer));
}

#[test]
fn taken_channel_is_out_of_reach() {
    let (mut table, mut first, mut second) = table();
    assert_eq!(table.send(PEER, FIRST, packet(&[1])), Ok(()));
    let mut sink = table.take_sink(PEER, FIRST).ok().unwrap();
    assert_eq!(table.send(PEER, FIRST, packet(&[2])), Err(TakeError::AlreadyTaken));
    assert_eq!(error(table.take_sink(PEER, FIRST)), Some(TakeError::AlreadyTaken));
    assert_eq!(table.send(PEER, SECOND, packet(&[3])), Ok(()));
    assert_eq!(sink.channel.send(packet(&[4])), Ok(()));
    assert_eq!(first.try_recv().ok(), Some(packet(&[1])));
    assert_eq!(first.try_recv().ok(), Some(packet(&[4])));
    assert!(first.try_recv().is_err());
    assert_eq!(second.try_recv().ok(), Some(packet(&[3])));
}

#[test]
fn taker_is_told_of_room() {
    let (mut table, _first, _second) = table();
    table.buffer_low(PEER, FIRST);
    let sink = table.take_sink(PEER, FIRST).ok().unwrap();
    let mut buffer_low = sink.buffer_low.into_receiver();
    assert!(buffer_low.try_recv().is_err());
    table.buffer_low(PEER, FIRST);
    table.buffer_low(PEER, SECOND);
    table.buffer_low(PeerId(8), FIRST);
    assert_eq!(buffer_low.try_recv().ok(), Some(()));
    assert!(buffer_low.try_recv().is_err());
}

#[test]
fn removed_peer_is_invalid() {
    let (mut table, _first, _second) = table();
    table.remove_peer(PeerId(8));
    assert_eq!(table.send(PEER, FIRST, packet(&[1])), Ok(()));
    table.remove_peer(PEER);
    assert_eq!(table.send(PEER, FIRST, packet(&[1])), Err(TakeError::InvalidPeer));
    assert_eq!(error(table.take_sink(PEER, SECOND)), Some(TakeError::InvalidPeer));
    let (channel, mut written) = data_channel();
    table.add_peer(PEER, vec![channel]);
    assert_eq!(table.send(PEER, FIRST, packet(&[2])), Err(TakeError::InvalidPeer));
    table.connect_peer(PEER);
    assert_eq!(table.send(PEER, FIRST, packet(&[2])), Ok(()));
    assert_eq!(written.try_recv().ok(), Some(packet(&[2])));
    assert_eq!(error(table.take_sink(PEER, SECOND)), Some(TakeError::InvalidChannel));
}

#[test]
fn packets_to_a_closed_channel_are_not_reported() {
    let (mut table, first, _second) = table();
    drop(first);
    assert_eq!(table.send(PEER, FIRST, packet(&[1])), Ok(()));
}

#[test]
fn transmitter_writes_to_the_channels() {
    let (mut socket, mut first, _second, _events) = socket();
    assert_eq!(socket.tx.send(PEER, FIRST, packet(&[1])), Ok(()));
    assert_eq!(socket.tx.send(PEER, FIRST, packet(&[2])), Ok(()));
    assert_eq!(first.try_recv().ok(), Some(packet(&[1])));
    assert_eq!(first.try_recv().ok(), Some(packet(&[2])));
    assert_eq!(
        socket.tx.send(PeerId(8), FIRST, packet(&[3])),
        Err(TakeError::InvalidPeer)
    );
    assert_eq!(
        socket.tx.send(PEER, ChannelIndex(2), packet(&[3])),
        Err(TakeError::InvalidChannel)
    );
}

#[test]
fn sink_is_taken_from_the_transmitter() {
    let (mut socket, mut first, _second, _events) = socket();
    let mut sink = socket.tx.take_sink(PEER, FIRST).ok().unwrap();
    assert_eq!(socket.tx.send(PEER, FIRST, packet(&[1])), Err(TakeError::AlreadyTaken));
    assert_eq!(error(socket.tx.take_sink(PEER, FIRST)), Some(TakeError::AlreadyTaken));
    assert_eq!(error(socket.tx.take_sink(PeerId(8), FIRST)), Some(TakeError::InvalidPeer));
    assert_eq!(sink.channel.send(packet(&[2])), Ok(()));
    assert_eq!(first.try_recv().ok(), Some(packet(&[2])));
    let low = socket.rx.route(SimpleWebRtcEvent::TransmitBufferLow(PEER, FIRST));
    assert!(matches!(low, Some(SimpleWebRtcEvent::TransmitBufferLow(PEER, FIRST))));
    assert_eq!(sink.buffer_low.into_receiver().try_recv().ok(), Some(()));
}

#[test]
fn disconnected_peer_is_no_longer_known() {
    let (mut socket, _first, _second, _events) = socket();
    let gone = socket.rx.route(SimpleWebRtcEvent::PeerDisconnected(PEER));
    assert!(matches!(gone, Some(SimpleWebRtcEvent::PeerDisconnected(PEER))));
    assert_eq!(socket.tx.send(PEER, FIRST, packet(&[1])), Err(TakeError::InvalidPeer));
    assert_eq!(error(socket.tx.take_sink(PEER, FIRST)), Some(TakeError::InvalidPeer));
}

#[test]
fn stream_is_taken_once() {
    let (mut socket, _first, _second, _events) = socket();
    assert!(socket.rx.take_stream(PEER, FIRST).is_ok());
    assert_eq!(error(socket.rx.take_stream(PEER, FIRST)), Some(TakeError::AlreadyTaken));
    assert!(socket.rx.take_stream(PEER, SECOND).is_ok());
    assert!(socket.rx.take_stream(PeerId(8), FIRST).is_ok());
    assert_eq!(error(socket.rx.take_stream(PEER, SECOND)), Some(TakeError::AlreadyTaken));
}

#[test]
fn packets_of_a_taken_stream_do_not_come_out() {
    let (mut socket, _first, _second, _events) = socket();
    let event = |peer: PeerId, channel: ChannelIndex, byte: u8| {
        SimpleWebRtcEvent::Packet(peer, channel, packet(&[byte]))
    };
    assert!(socket.rx.route(event(PEER, FIRST, 1)).is_some());
    let stream = socket.rx.take_stream(PEER, FIRST).ok().unwrap();
    let mut packets = stream.rx.into_receiver();
    assert!(socket.rx.route(event(PEER, FIRST, 2)).is_none());
    match socket.rx.route(event(PEER, SECOND, 3)) {
        Some(SimpleWebRtcEvent::Packet(peer, channel, out)) => {
            assert_eq!((peer, channel, out), (PEER, SECOND, packet(&[3])));
        }
        _ => panic!("the packet is to come out"),
    }
    assert!(socket.rx.route(event(PeerId(8), FIRST, 4)).is_some());
    assert!(socket.rx.route(event(PEER, FIRST, 5)).is_none());
    assert_eq!(packets.try_recv().ok(), Some(packet(&[2])));
    assert_eq!(packets.try_recv().ok(), Some(packet(&[5])));
    assert!(packets.try_recv().is_err());
    drop(packets);
    assert!(socket.rx.route(event(PEER, FIRST, 6)).is_none());
}

#[test]
fn other_events_come_out() {
    let (mut socket, _first, _second, mut events) = socket();
    assert!(events.unbounded_send(SimpleWebRtcEvent::IdAssigned(PeerId(1))).is_ok());
    assert!(events.unbounded_send(SimpleWebRtcEvent::PeerConnected(PEER)).is_ok());
    let first = socket.rx.events_mut().try_recv().ok().unwrap();
    let out = socket.rx.route(first);
    assert!(matches!(out, Some(SimpleWebRtcEvent::IdAssigned(PeerId(1)))));
    let second = socket.rx.events_mut().try_recv().ok().unwrap();
    let out = socket.rx.route(second);
    assert!(matches!(out, Some(SimpleWebRtcEvent::PeerConnected(PEER))));
    assert!(socket.rx.events_mut().try_recv().is_err());
    let low = socket.rx.route(SimpleWebRtcEvent::TransmitBufferLow(PEER, SECOND));
    assert!(matches!(low, Some(SimpleWebRtcEvent::TransmitBufferLow(PEER, SECOND))));
}

#[test]
fn reasons_to_be_closed() {
    let lost = SimpleWebRtcClosedReason::Error("lost".to_string());
    assert_eq!(lost, lost.clone());
    assert_ne!(lost, SimpleWebRtcClosedReason::Closed);
}

#[test]
fn connected_peer_can_be_written_to() {
    let mut state = SharedTable::new(TxTable::new());
    let mut finder = state.another();
    let (mut events, inbox) = unbounded::<SimpleWebRtcEvent>();
    let mut socket = SimpleWebRtc::new(state, inbox);
    assert_eq!(socket.tx.send(PEER, FIRST, packet(&[1])), Err(TakeError::InvalidPeer));
    let (channel, mut written) = data_channel();
    finder.add_peer(PEER, vec![channel]);
    assert!(events.unbounded_send(SimpleWebRtcEvent::PeerConnected(PEER)).is_ok());
    assert_eq!(socket.tx.send(PEER, FIRST, packet(&[1])), Err(TakeError::InvalidPeer));
    let event = socket.rx.events_mut().try_recv().ok().unwrap();
    assert!(matches!(
        socket.rx.route(event),
        Some(SimpleWebRtcEvent::PeerConnected(PEER))
    ));
    assert_eq!(socket.tx.send(PEER, FIRST, packet(&[2])), Ok(()));
    assert_eq!(written.try_recv().ok(), Some(packet(&[2])));
    assert_eq!(
        socket.tx.send(PEER, SECOND, packet(&[3])),
        Err(TakeError::InvalidChannel)
    );
    assert!(socket.tx.take_sink(PEER, FIRST).is_ok());
    finder.buffer_low(PEER, FIRST);
    finder.remove_peer(PEER);
    assert_eq!(error(finder.take_sink(PEER, FIRST)), Some(TakeError::InvalidPeer));
    assert_eq!(finder.send(PEER, FIRST, packet(&[4])), Err(TakeError::InvalidPeer));
}

#[test]
fn connected_peer_without_channels() {
    let mut table = TxTable::new();
    table.connect_peer(PEER);
    assert_eq!(table.send(PEER, FIRST, packet(&[1])), Err(TakeError::InvalidChannel));
    assert_eq!(error(table.take_sink(PEER, FIRST)), Some(TakeError::InvalidChannel));
}

#[test]
fn connecting_again_keeps_the_channels() {
    let (mut table, mut first, _second) = table();
    table.connect_peer(PEER);
    assert_eq!(table.send(PEER, FIRST, packet(&[1])), Ok(()));
    assert_eq!(first.try_recv().ok(), Some(packet(&[1])));
}

#[test]
fn channels_wait_their_turn() {
    let (early, mut early_written) = data_channel();
    let (late, mut late_written) = data_channel();
    let mut table = TxTable::new();
    table.add_peer(PEER, vec![early]);
    table.add_peer(PEER, vec![late]);
    table.connect_peer(PEER);
    assert_eq!(table.send(PEER, FIRST, packet(&[1])), Ok(()));
    table.remove_peer(PEER);
    assert_eq!(table.send(PEER, FIRST, packet(&[2])), Err(TakeError::InvalidPeer));
    table.connect_peer(PEER);
    assert_eq!(table.send(PEER, FIRST, packet(&[3])), Ok(()));
    assert_eq!(early_written.try_recv().ok(), Some(packet(&[1])));
    assert!(early_written.try_recv().is_err());
    assert_eq!(late_written.try_recv().ok(), Some(packet(&[3])));
    table.remove_peer(PEER);
    table.connect_peer(PEER);
    assert_eq!(table.send(PEER, FIRST, packet(&[4])), Err(TakeError::InvalidChannel));
}

#[test]
fn peers_follow_the_observed_events() {
    let (mut socket, _first, _second, _events) = socket();
    assert!(socket.rx.route(SimpleWebRtcEvent::PeerConnected(PeerId(8))).is_some());
    assert_eq!(
        socket.tx.send(PeerId(8), FIRST, packet(&[1])),
        Err(TakeError::InvalidChannel)
    );
    assert!(socket.rx.route(SimpleWebRtcEvent::PeerDisconnected(PeerId(8))).is_some());
    assert_eq!(
        socket.tx.send(PeerId(8), FIRST, packet(&[1])),
        Err(TakeError::InvalidPeer)
    );
    assert_eq!(
        error(socket.tx.take_sink(PeerId(8), FIRST)),
        Some(TakeError::InvalidPeer)
    );
}
