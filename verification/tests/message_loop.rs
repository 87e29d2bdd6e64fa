//! What a socket does about its signaling server and its peers.
use futures_channel::mpsc::UnboundedReceiver;
use matchbox_socket::channel::{promise, unbounded, Awaited};
use matchbox_socket::message_loop::{Handshake, LoopAction, LoopEvent, MessageLoop};
use matchbox_socket::peer::PeerMessage;
use matchbox_socket::protocol::{
    ChannelConfig, ChannelNumber, Packet, PeerEvent, PeerId, PeerRequest, PeerSignal, PeerState,
    RtcIceServerConfig, SocketConfig,
};
use std::time::Duration;

struct Socket {
    requests: UnboundedReceiver<PeerRequest>,
    packets: Vec<UnboundedReceiver<(PeerId, Packet)>>,
    peer_states: UnboundedReceiver<(PeerId, PeerState)>,
    peer_messages: UnboundedReceiver<(PeerId, PeerMessage)>,
    id: Awaited<PeerId>,
}

fn socket(channels: usize, interval: Option<Duration>) -> (MessageLoop, Socket) {
    let config = SocketConfig {
        ice_server: RtcIceServerConfig {
            urls: vec!["stun:example.org".to_string()],
            username: None,
            credential: None,
        },
        channels: vec![ChannelConfig { ordered: true, max_retransmits: None }; channels],
        keep_alive_interval: interval,
    };
    let (requests_tx, requests) = unbounded();
    let mut packets_tx = Vec::new();
    let mut packets = Vec::new();
    for _ in 0..channels {
        let (tx, rx) = unbounded();
        packets_tx.push(tx);
        packets.push(rx.into_receiver());
    }
    let (peer_state_tx, peer_states) = unbounded();
    let (peer_messages_tx, peer_messages) = unbounded();
    let (id_tx, id) = promise();
    let state =
        MessageLoop::new(config, requests_tx, packets_tx, peer_state_tx, peer_messages_tx, id_tx);
    let socket = Socket {
        requests: requests.into_receiver(),
        packets,
        peer_states: peer_states.into_receiver(),
        peer_messages: peer_messages.into_receiver(),
        id,
    };
    (state, socket)
}

fn packet(bytes: &[u8]) -> Packet {
    bytes.to_vec().into_boxed_slice()
}

fn offer(sdp: &str) -> PeerSignal {
    PeerSignal::Offer(sdp.to_string())
}

fn signal(sender: PeerId, data: PeerSignal) -> LoopEvent {
    LoopEvent::Signaling(Some(PeerEvent::Signal { sender, data }))
}

fn new_peer(peer: PeerId) -> LoopEvent {
    LoopEvent::Signaling(Some(PeerEvent::NewPeer(peer)))
}

fn peer_left(peer: PeerId) -> LoopEvent {
    LoopEvent::Signaling(Some(PeerEvent::PeerLeft(peer)))
}

fn from_peer(peer: PeerId, message: PeerMessage) -> LoopEvent {
    LoopEvent::FromPeer(Some((peer, message)))
}

fn is_continue(action: LoopAction) -> bool {
    matches!(action, LoopAction::Continue)
}

fn offered(action: LoopAction) -> Handshake {
    match action {
        LoopAction::Offer(handshake) => handshake,
        _ => panic!("an offer is to be made"),
    }
}

fn accepted(action: LoopAction) -> Handshake {
    match action {
        LoopAction::Accept(handshake) => handshake,
        _ => panic!("an offer is to be answered"),
    }
}

#[test]
fn timer_keeps_the_connection_alive() {
    let interval = Duration::from_secs(10);
    let (mut state, mut socket) = socket(1, Some(interval));
    assert_eq!(state.keep_alive_interval(), Some(interval));
    assert!(state.can_handle(&LoopEvent::Timeout));
    for _ in 0..2 {
        match state.step(LoopEvent::Timeout) {
            LoopAction::RestartTimer(again) => assert_eq!(again, interval),
            _ => panic!("the timer is to be restarted"),
        }
        let request = socket.requests.try_recv().ok();
        assert_eq!(request, Some(PeerRequest::KeepAlive));
    }
    drop(socket);
    assert!(matches!(state.step(LoopEvent::Timeout), LoopAction::Exit));
}

#[test]
fn timer_without_an_interval() {
    let (mut state, mut socket) = socket(1, None);
    assert_eq!(state.keep_alive_interval(), None);
    assert!(matches!(state.step(LoopEvent::Timeout), LoopAction::NoInterval));
    assert_eq!(
        socket.requests.try_recv().ok(),
        Some(PeerRequest::KeepAlive)
    );
}

#[test]
fn identity_is_assigned_once() {
    let (mut state, socket) = socket(1, None);
    let assigned = || LoopEvent::Signaling(Some(PeerEvent::IdAssigned(PeerId(11))));
    assert!(state.can_handle(&assigned()));
    assert!(is_continue(state.step(assigned())));
    assert!(!state.can_handle(&assigned()));
    assert_eq!(socket.id.into_receiver().try_recv(), Ok(Some(PeerId(11))));
}

#[test]
fn identity_for_nobody_ends_the_loop() {
    let (mut state, socket) = socket(1, None);
    drop(socket);
    let event = LoopEvent::Signaling(Some(PeerEvent::IdAssigned(PeerId(11))));
    assert!(matches!(state.step(event), LoopAction::Exit));
}

#[test]
fn new_peer_is_made_an_offer() {
    let (mut state, mut socket) = socket(2, None);
    assert_eq!(state.ice_server().urls, vec!["stun:example.org".to_string()]);
    assert!(state.can_handle(&new_peer(PeerId(5))));
    let mut handshake = offered(state.step(new_peer(PeerId(5))));
    assert_eq!(handshake.signal_peer.id, PeerId(5));
    assert_eq!(handshake.builders.len(), 2);
    let request = PeerRequest::Signal { receiver: PeerId(5), data: offer("sdp") };
    assert_eq!(handshake.signal_peer.sender.unbounded_send(request.clone()), Ok(()));
    assert_eq!(socket.requests.try_recv().ok(), Some(request));
    for builder in handshake.builders.iter_mut() {
        assert_eq!(builder.event_handlers.on_open(), Ok(()));
    }
    assert_eq!(
        socket.peer_messages.try_recv().ok(),
        Some((PeerId(5), PeerMessage::Join))
    );
}

#[test]
fn signals_reach_the_handshake_in_order() {
    let (mut state, _socket) = socket(1, None);
    let handshake = offered(state.step(new_peer(PeerId(5))));
    assert!(is_continue(state.step(signal(PeerId(5), offer("first")))));
    assert!(is_continue(state.step(signal(PeerId(5), offer("second")))));
    let mut signals = handshake.signal_rx.into_receiver();
    assert_eq!(signals.try_recv().ok(), Some(offer("first")));
    assert_eq!(signals.try_recv().ok(), Some(offer("second")));
    assert!(signals.try_recv().is_err());
}

#[test]
fn first_signal_of_a_peer_is_answered() {
    let (mut state, _socket) = socket(1, None);
    assert!(state.can_handle(&signal(PeerId(6), offer("first"))));
    let handshake = accepted(state.step(signal(PeerId(6), offer("first"))));
    assert_eq!(handshake.signal_peer.id, PeerId(6));
    assert!(is_continue(state.step(signal(PeerId(6), offer("second")))));
    let mut signals = handshake.signal_rx.into_receiver();
    assert_eq!(signals.try_recv().ok(), Some(offer("first")));
    assert_eq!(signals.try_recv().ok(), Some(offer("second")));
}

#[test]
fn signal_after_the_handshake_is_ignored() {
    let (mut state, _socket) = socket(1, None);
    drop(offered(state.step(new_peer(PeerId(5)))));
    match state.step(signal(PeerId(5), offer("late"))) {
        LoopAction::SignalIgnored(peer) => assert_eq!(peer, PeerId(5)),
        _ => panic!("the signal is to be ignored"),
    }
}

#[test]
fn peer_that_left_starts_anew() {
    let (mut state, _socket) = socket(1, None);
    let first = offered(state.step(new_peer(PeerId(5))));
    assert!(is_continue(state.step(peer_left(PeerId(5)))));
    let second = accepted(state.step(signal(PeerId(5), offer("again"))));
    assert!(first.signal_rx.into_receiver().try_recv().is_err());
    assert_eq!(second.signal_rx.into_receiver().try_recv().ok(), Some(offer("again")));
}

#[test]
fn peers_do_not_interfere() {
    let (mut state, _socket) = socket(1, None);
    let five = offered(state.step(new_peer(PeerId(5))));
    let six = offered(state.step(new_peer(PeerId(6))));
    assert!(is_continue(state.step(peer_left(PeerId(6)))));
    assert!(is_continue(state.step(signal(PeerId(5), offer("five")))));
    assert_eq!(five.signal_rx.into_receiver().try_recv().ok(), Some(offer("five")));
    assert!(six.signal_rx.into_receiver().try_recv().is_err());
    assert!(state.can_handle(&from_peer(PeerId(6), PeerMessage::Join)));
}

#[test]
fn join_readies_the_handshake_and_is_reported() {
    let (mut state, mut socket) = socket(1, None);
    let join = || from_peer(PeerId(5), PeerMessage::Join);
    assert!(!state.can_handle(&join()));
    let handshake = offered(state.step(new_peer(PeerId(5))));
    assert!(state.can_handle(&join()));
    match state.step(join()) {
        LoopAction::Ready(told) => assert!(!told.is_pending()),
        _ => panic!("the handshake is to be told"),
    }
    assert!(!state.can_handle(&join()));
    let mut ready = handshake.data_channels_ready.into_receiver();
    assert_eq!(ready.try_recv(), Ok(Some(())));
    assert_eq!(
        socket.peer_states.try_recv().ok(),
        Some((PeerId(5), PeerState::Connected))
    );
}

#[test]
fn close_is_reported() {
    let (mut state, socket) = socket(1, None);
    let close = PeerMessage::Close(Some("lost".to_string()));
    assert!(is_continue(state.step(from_peer(PeerId(5), close))));
    assert!(is_continue(state.step(from_peer(PeerId(6), PeerMessage::Close(None)))));
    let mut states = socket.peer_states;
    assert_eq!(states.try_recv().ok(), Some((PeerId(5), PeerState::Disconnected)));
    assert_eq!(states.try_recv().ok(), Some((PeerId(6), PeerState::Disconnected)));
    assert!(states.try_recv().is_err());
}

#[test]
fn packets_are_sorted_by_channel() {
    let (mut state, mut socket) = socket(2, None);
    let on = |channel: u16, byte: u8| {
        from_peer(PeerId(5), PeerMessage::Packet(ChannelNumber(channel), packet(&[byte])))
    };
    assert!(is_continue(state.step(on(1, 10))));
    assert!(is_continue(state.step(on(0, 20))));
    assert!(is_continue(state.step(on(1, 30))));
    assert!(!state.can_handle(&on(2, 40)));
    let second = &mut socket.packets[1];
    assert_eq!(second.try_recv().ok(), Some((PeerId(5), packet(&[10]))));
    assert_eq!(second.try_recv().ok(), Some((PeerId(5), packet(&[30]))));
    assert!(second.try_recv().is_err());
    let first = &mut socket.packets[0];
    assert_eq!(first.try_recv().ok(), Some((PeerId(5), packet(&[20]))));
    assert!(first.try_recv().is_err());
}

#[test]
fn loop_outlives_those_it_reports_to() {
    let (mut state, socket) = socket(1, None);
    let Socket { requests, packets, peer_states, .. } = socket;
    drop((packets, peer_states));
    let message = PeerMessage::Packet(ChannelNumber(0), packet(&[1]));
    assert!(is_continue(state.step(from_peer(PeerId(5), message))));
    assert!(is_continue(state.step(from_peer(PeerId(5), PeerMessage::Close(None)))));
    drop(requests);
}

#[test]
fn nothing_left_to_do() {
    let (mut state, _socket) = socket(1, None);
    assert!(is_continue(state.step(LoopEvent::Signaling(None))));
    assert!(matches!(state.step(LoopEvent::FromPeer(None)), LoopAction::Exit));
    assert!(matches!(state.step(LoopEvent::Complete), LoopAction::Exit));
}

#[test]
fn closed_socket_ends_the_loop() {
    let (mut state, socket) = socket(1, None);
    drop(socket);
    assert!(state.can_handle(&LoopEvent::SocketClosed));
    assert!(matches!(state.step(LoopEvent::SocketClosed), LoopAction::Exit));
}

#[test]
fn handshakes_need_channels() {
    let (state, _socket) = socket(0, None);
    assert!(!state.can_handle(&new_peer(PeerId(5))));
    assert!(!state.can_handle(&signal(PeerId(5), offer("first"))));
    assert!(state.can_handle(&peer_left(PeerId(5))));
    let (state, _socket) = crate::socket(0x1_0000, None);
    assert!(state.can_handle(&new_peer(PeerId(5))));
    let (state, _socket) = crate::socket(0x1_0001, None);
    assert!(!state.can_handle(&new_peer(PeerId(5))));
}

#[test]
fn what_follows_from_each_outcome() {
    let interval = Duration::from_secs(1);
    match MessageLoop::after_keep_alive(Some(interval), true) {
        LoopAction::RestartTimer(again) => assert_eq!(again, interval),
        _ => panic!("the timer is to be restarted"),
    }
    let dropped = MessageLoop::after_keep_alive(Some(interval), false);
    assert!(matches!(dropped, LoopAction::Exit));
    assert!(matches!(MessageLoop::after_keep_alive(None, true), LoopAction::NoInterval));
    assert!(is_continue(MessageLoop::after_id(true)));
    assert!(matches!(MessageLoop::after_id(false), LoopAction::Exit));
    assert!(is_continue(MessageLoop::after_signal(PeerId(1), true)));
    assert!(matches!(
        MessageLoop::after_signal(PeerId(1), false),
        LoopAction::SignalIgnored(PeerId(1))
    ));
}

#[test]
fn join_is_expected_until_it_comes() {
    let (mut state, _socket) = socket(1, None);
    drop(offered(state.step(new_peer(PeerId(5)))));
    assert!(is_continue(state.step(peer_left(PeerId(5)))));
    assert!(state.can_handle(&from_peer(PeerId(5), PeerMessage::Join)));
    assert!(matches!(
        state.step(from_peer(PeerId(5), PeerMessage::Join)),
        LoopAction::Ready(_)
    ));
    assert!(!state.can_handle(&from_peer(PeerId(5), PeerMessage::Join)));
}

#[test]
fn packets_of_a_handshake_are_expected() {
    let (mut state, mut socket) = socket(3, None);
    let mut handshake = accepted(state.step(signal(PeerId(6), offer("sdp"))));
    for builder in handshake.builders.iter_mut() {
        assert_eq!(builder.event_handlers.on_open(), Ok(()));
    }
    for builder in handshake.builders.iter_mut() {
        assert_eq!(builder.event_handlers.on_message(packet(&[1])), Ok(()));
    }
    let mut events = 0;
    while let Ok(message) = socket.peer_messages.try_recv() {
        let event = LoopEvent::FromPeer(Some(message));
        assert!(state.can_handle(&event));
        state.step(event);
        events += 1;
    }
    assert_eq!(events, 4);
    for packets in socket.packets.iter_mut() {
        assert_eq!(
            packets.try_recv().ok(),
            Some((PeerId(6), packet(&[1])))
        );
    }
}

#[test]
fn peer_connects_once_and_disconnects_once() {
    let (mut state, mut socket) = socket(2, None);
    let mut handshake = offered(state.step(new_peer(PeerId(5))));
    for builder in handshake.builders.iter_mut() {
        assert_eq!(builder.event_handlers.on_open(), Ok(()));
    }
    for builder in handshake.builders.iter_mut() {
        assert_eq!(builder.event_handlers.on_close(), Ok(()));
    }
    while let Ok(message) = socket.peer_messages.try_recv() {
        let event = LoopEvent::FromPeer(Some(message));
        assert!(state.can_handle(&event));
        state.step(event);
    }
    let mut ready = handshake.data_channels_ready.into_receiver();
    assert_eq!(ready.try_recv(), Ok(Some(())));
    let states = &mut socket.peer_states;
    assert_eq!(states.try_recv().ok(), Some((PeerId(5), PeerState::Connected)));
    assert_eq!(states.try_recv().ok(), Some((PeerId(5), PeerState::Disconnected)));
    assert!(states.try_recv().is_err());
}

#[test]
fn packets_of_all_channels_reach_their_queues() {
    let (mut state, mut socket) = socket(2, None);
    let mut handshake = offered(state.step(new_peer(PeerId(5))));
    let script: [(usize, u8); 4] = [(1, 1), (0, 2), (1, 3), (1, 4)];
    for builder in handshake.builders.iter_mut() {
        assert_eq!(builder.event_handlers.on_open(), Ok(()));
    }
    for (channel, byte) in script {
        let handler = &mut handshake.builders[channel].event_handlers;
        assert_eq!(handler.on_message(packet(&[byte])), Ok(()));
    }
    while let Ok(message) = socket.peer_messages.try_recv() {
        let event = LoopEvent::FromPeer(Some(message));
        assert!(state.can_handle(&event));
        state.step(event);
    }
    for channel in 0..2 {
        for (over, byte) in script {
            if over == channel {
                let got = socket.packets[channel].try_recv().ok();
                assert_eq!(got, Some((PeerId(5), packet(&[byte]))));
            }
        }
        assert!(socket.packets[channel].try_recv().is_err());
    }
}

#[test]
fn peer_that_failed_early_is_never_heard_of() {
    let (mut state, mut socket) = socket(2, None);
    let mut handshake = offered(state.step(new_peer(PeerId(5))));
    assert_eq!(handshake.builders[0].event_handlers.on_open(), Ok(()));
    assert_eq!(handshake.builders[1].event_handlers.on_error("lost".to_string()), Ok(()));
    assert_eq!(handshake.builders[1].event_handlers.on_open(), Ok(()));
    assert!(socket.peer_messages.try_recv().is_err());
    assert!(socket.peer_states.try_recv().is_err());
    let mut ready = handshake.data_channels_ready.into_receiver();
    assert_eq!(ready.try_recv(), Ok(None));
}
