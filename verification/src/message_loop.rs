//! What a socket does about its signaling server and its peers.
//!
//! Timers, handshakes and the queues to wait on are somebody else's: [`MessageLoop::step`] is told
//! what happened, passes on what is to be passed on, and says what to do next.
use crate::channel::{promise, unbounded, Awaited, Inbox, Outbox, Promise};
use crate::handlers::{builders_for_peer, AsyncDataChannelReceiver, ChannelBuilder};
use crate::peer::PeerMessage;
use crate::protocol::{
    ChannelNumber, Packet, PeerEvent, PeerId, PeerRequest, PeerSignal, PeerState,
    RtcIceServerConfig, SignalPeer, SocketConfig,
};
use std::collections::hash_map::Entry;
use std::collections::HashMap;
use std::time::Duration;
use vstd::prelude::*;

verus! {

/// What happened.
pub enum LoopEvent {
    /// It is time to keep the connection to the signaling server alive.
    Timeout,
    /// The signaling server reports an event, or will report none any more.
    Signaling(Option<PeerEvent>),
    /// A peer has a message, or none will have one any more.
    FromPeer(Option<(PeerId, PeerMessage)>),
    /// The socket was closed: nothing will be sent through it any more.
    SocketClosed,
    /// Nothing can happen any more.
    Complete,
}

/// What a handshake with a peer needs.
pub struct Handshake {
    /// The way to signal the peer.
    pub signal_peer: SignalPeer,
    /// The signals of the peer.
    pub signal_rx: Inbox<PeerSignal>,
    /// The data channels to open.
    pub builders: Vec<ChannelBuilder<AsyncDataChannelReceiver>>,
    /// Resolves when all of the data channels are open.
    pub data_channels_ready: Awaited<()>,
}

impl Handshake {
    /// Where what happens on the data channels is reported.
    pub open spec fn messages(&self) -> Outbox<(PeerId, PeerMessage)> {
        self.builders@[0].event_handlers.shared().made_with().outbox()
    }
}

/// What to do next.
pub enum LoopAction {
    /// Wait for what happens next.
    Continue,
    /// Start the timer again.
    RestartTimer(Duration),
    /// Wait for what happens next; the timer ran out although there is none.
    NoInterval,
    /// Make an offer to a peer.
    Offer(Handshake),
    /// Answer the offer of a peer.
    Accept(Handshake),
    /// Wait for what happens next; a signal of this peer came after the handshake with it finished.
    SignalIgnored(PeerId),
    /// Wait for what happens next; the handshake with a peer was told, in this way, that the data
    /// channels are open.
    Ready(Promise<()>),
    /// Stop: nobody needs the socket any more.
    Exit,
}

/// Passes on what signaling server and peers have to say.
pub struct MessageLoop {
    config: SocketConfig,
    requests_sender: Outbox<PeerRequest>,
    messages_from_peers_tx: Vec<Outbox<(PeerId, Packet)>>,
    peer_state_tx: Outbox<(PeerId, PeerState)>,
    /// Where the messages of all peers meet before they are passed on.
    peer_messages_tx: Outbox<(PeerId, PeerMessage)>,
    /// Where the signals of a peer go, by the peer's number.
    handshake_signals: HashMap<u128, Outbox<PeerSignal>>,
    /// The handshakes that wait for their data channels, by the peer's number.
    ready_signals: HashMap<u128, Promise<()>>,
    id_tx: Promise<PeerId>,
}

/// What a [`MessageLoop`] knows.
pub ghost struct LoopView {
    /// How the socket is set up.
    pub config: SocketConfig,
    /// Where requests to the signaling server go.
    pub requests: Outbox<PeerRequest>,
    /// Where the packets of each data channel go, by its number.
    pub packets: Seq<Outbox<(PeerId, Packet)>>,
    /// Where the coming and going of peers is reported.
    pub peer_states: Outbox<(PeerId, PeerState)>,
    /// Where the messages of all peers meet.
    pub peer_messages: Outbox<(PeerId, PeerMessage)>,
    /// Where the signals of a peer go.
    pub handshakes: Map<u128, Outbox<PeerSignal>>,
    /// The handshakes that wait for their data channels.
    pub waiting: Map<u128, Promise<()>>,
    /// Where the identity of this node is awaited.
    pub id: Promise<PeerId>,
}

impl View for MessageLoop {
    type V = LoopView;

    closed spec fn view(&self) -> LoopView {
        LoopView {
            config: self.config,
            requests: self.requests_sender,
            packets: self.messages_from_peers_tx@,
            peer_states: self.peer_state_tx,
            peer_messages: self.peer_messages_tx,
            handshakes: self.handshake_signals@,
            waiting: self.ready_signals@,
            id: self.id_tx,
        }
    }
}

impl LoopView {
    /// Every handshake that waits is still to be told.
    pub open spec fn wf(self) -> bool {
        forall|peer: u128|
            #[trigger] self.waiting.contains_key(peer) ==> self.waiting[peer].pending()
    }

    /// `event` can come now: the identity is assigned once, a handshake has data channels to open,
    /// only a peer that a handshake waits for joins, and a packet comes over a channel that exists.
    pub open spec fn expects(self, event: LoopEvent) -> bool {
        match event {
            LoopEvent::Signaling(Some(PeerEvent::IdAssigned(_))) => self.id.pending(),
            LoopEvent::Signaling(Some(PeerEvent::NewPeer(_))) => self.config.connects_peers(),
            LoopEvent::Signaling(Some(PeerEvent::Signal { sender, .. })) => {
                self.handshakes.contains_key(sender.0) || self.config.connects_peers()
            },
            LoopEvent::FromPeer(Some((peer, PeerMessage::Join))) => self.waiting.contains_key(
                peer.0,
            ),
            LoopEvent::FromPeer(Some((_, PeerMessage::Packet(channel, _)))) => {
                channel.0 < self.packets.len()
            },
            _ => true,
        }
    }

    /// `data` is passed to the handshake with `peer` in the step to `after`; the handshake `took`
    /// it, or was finished.
    pub open spec fn passes(
        self,
        peer: PeerId,
        data: PeerSignal,
        took: bool,
        after: LoopView,
    ) -> bool {
        &&& after.handshakes.contains_key(peer.0)
        &&& self.handshakes[peer.0].after_offer(data, took, after.handshakes[peer.0])
        &&& after == (LoopView {
            handshakes: self.handshakes.insert(peer.0, after.handshakes[peer.0]),
            ..self
        })
    }

    /// In the step to `after` the socket hears that `peer` is in `state`.
    pub open spec fn reports(self, peer: PeerId, state: PeerState, after: LoopView) -> bool {
        ||| self.peer_states.after_offer((peer, state), true, after.peer_states)
        ||| self.peer_states.after_offer((peer, state), false, after.peer_states)
    }

    /// In the step to `after` the socket gets `packet` on `channel`.
    pub open spec fn delivers(
        self,
        channel: ChannelNumber,
        packet: (PeerId, Packet),
        after: LoopView,
    ) -> bool {
        let at = channel.0 as int;
        &&& after.packets.len() == self.packets.len()
        &&& forall|i: int|
            #![trigger after.packets[i]]
            0 <= i < self.packets.len() && i != at ==> after.packets[i] == self.packets[i]
        &&& {
            ||| self.packets[at].after_offer(packet, true, after.packets[at])
            ||| self.packets[at].after_offer(packet, false, after.packets[at])
        }
    }

    /// `handshake` with `peer` is set up in the step to `after`: it is the one to get the signals
    /// of the peer from now on, and to be told when the peer joins.
    pub open spec fn opens(self, peer: PeerId, handshake: Handshake, after: LoopView) -> bool {
        &&& handshake.signal_peer.id == peer
        &&& handshake.signal_peer.sender.is_fresh_end_of(self.requests.channel())
        &&& builders_for_peer(
            handshake.builders@,
            peer,
            self.config.channels@,
            handshake.messages(),
        )
        &&& handshake.messages().is_fresh_end_of(self.peer_messages.channel())
        &&& self.requests.after_handing_out(after.requests)
        &&& self.peer_messages.after_handing_out(after.peer_messages)
        &&& after.handshakes.contains_key(peer.0)
        &&& after.handshakes[peer.0].channel() == handshake.signal_rx.channel()
        &&& after.waiting.contains_key(peer.0)
        &&& after.waiting[peer.0].is_pending_end_of(handshake.data_channels_ready.channel())
        &&& after == (LoopView {
            requests: after.requests,
            peer_messages: after.peer_messages,
            handshakes: self.handshakes.insert(peer.0, after.handshakes[peer.0]),
            waiting: self.waiting.insert(peer.0, after.waiting[peer.0]),
            ..self
        })
    }
}

/// What follows from a request to be kept alive that was `sent`, or could not be.
pub open spec fn kept_alive(interval: Option<Duration>, sent: bool) -> LoopAction {
    if !sent {
        LoopAction::Exit
    } else {
        match interval {
            Some(interval) => LoopAction::RestartTimer(interval),
            None => LoopAction::NoInterval,
        }
    }
}

/// What follows from the assignment of an identity that somebody `took`, or did not wait for.
pub open spec fn id_assigned(took: bool) -> LoopAction {
    if took {
        LoopAction::Continue
    } else {
        LoopAction::Exit
    }
}

/// What follows from a signal of `peer` that the handshake `took`, or was too late for.
pub open spec fn signal_passed(peer: PeerId, took: bool) -> LoopAction {
    if took {
        LoopAction::Continue
    } else {
        LoopAction::SignalIgnored(peer)
    }
}

/// `before` becomes `after` and `action` follows when the signaling server reports `event`.
pub open spec fn signaling_event_step(
    before: LoopView,
    event: PeerEvent,
    after: LoopView,
    action: LoopAction,
) -> bool {
    match event {
        PeerEvent::IdAssigned(id) => {
            &&& before.id.after_send(id, after.id.accepted(), after.id)
            &&& after == (LoopView { id: after.id, ..before })
            &&& action == id_assigned(after.id.accepted())
        },
        PeerEvent::NewPeer(peer) => {
            &&& action matches LoopAction::Offer(handshake)
            &&& before.opens(peer, handshake, after)
            &&& after.handshakes[peer.0].is_fresh_end_of(handshake.signal_rx.channel())
        },
        PeerEvent::PeerLeft(peer) => {
            &&& after == (LoopView { handshakes: before.handshakes.remove(peer.0), ..before })
            &&& action == LoopAction::Continue
        },
        PeerEvent::Signal { sender, data } => if before.handshakes.contains_key(sender.0) {
            ||| before.passes(sender, data, true, after) && action == signal_passed(sender, true)
            ||| before.passes(sender, data, false, after) && action == signal_passed(sender, false)
        } else {
            &&& action matches LoopAction::Accept(handshake)
            &&& before.opens(sender, handshake, after)
            &&& after.handshakes[sender.0].offered() == seq![data]
            &&& after.handshakes[sender.0].accepted() == seq![data]
            &&& after.handshakes[sender.0].handed_out() == 0
        },
    }
}

/// `before` becomes `after` and `action` follows when `peer` has `message`.
///
/// Whether anybody takes what is reported makes no difference.
pub open spec fn peer_message_step(
    before: LoopView,
    peer: PeerId,
    message: PeerMessage,
    after: LoopView,
    action: LoopAction,
) -> bool {
    match message {
        PeerMessage::Join => {
            &&& action matches LoopAction::Ready(told)
            &&& before.waiting[peer.0].after_send((), told.accepted(), told)
            &&& before.reports(peer, PeerState::Connected, after)
            &&& after == (LoopView {
                waiting: before.waiting.remove(peer.0),
                peer_states: after.peer_states,
                ..before
            })
        },
        PeerMessage::Packet(channel, packet) => {
            &&& before.delivers(channel, (peer, packet), after)
            &&& after == (LoopView { packets: after.packets, ..before })
            &&& action == LoopAction::Continue
        },
        PeerMessage::Close(_) => {
            &&& before.reports(peer, PeerState::Disconnected, after)
            &&& after == (LoopView { peer_states: after.peer_states, ..before })
            &&& action == LoopAction::Continue
        },
    }
}

/// `before` becomes `after` and `action` follows when `event` happens.
pub open spec fn loop_step(
    before: LoopView,
    event: LoopEvent,
    after: LoopView,
    action: LoopAction,
) -> bool {
    match event {
        LoopEvent::Timeout => {
            ||| {
                &&& before.requests.after_offer(PeerRequest::KeepAlive, true, after.requests)
                &&& after == (LoopView { requests: after.requests, ..before })
                &&& action == kept_alive(before.config.keep_alive_interval, true)
            }
            ||| {
                &&& before.requests.after_offer(PeerRequest::KeepAlive, false, after.requests)
                &&& after == (LoopView { requests: after.requests, ..before })
                &&& action == kept_alive(before.config.keep_alive_interval, false)
            }
        },
        LoopEvent::Signaling(Some(event)) => signaling_event_step(before, event, after, action),
        LoopEvent::Signaling(None) => after == before && action == LoopAction::Continue,
        LoopEvent::FromPeer(Some((peer, message))) => {
            peer_message_step(before, peer, message, after, action)
        },
        LoopEvent::FromPeer(None) => after == before && action == LoopAction::Exit,
        LoopEvent::SocketClosed => after == before && action == LoopAction::Exit,
        LoopEvent::Complete => after == before && action == LoopAction::Exit,
    }
}

/// Whatever happens, a handshake that waits for its data channels is still to be told of them.
pub proof fn steps_keep_waiting_handshakes_pending(
    before: LoopView,
    event: LoopEvent,
    after: LoopView,
    action: LoopAction,
)
    requires
        before.wf(),
        loop_step(before, event, after, action),
    ensures
        after.wf(),
{
}

impl MessageLoop {
    /// A loop for a socket set up as `config` says, none of whose peers is known yet.
    pub fn new(
        config: SocketConfig,
        requests_sender: Outbox<PeerRequest>,
        messages_from_peers_tx: Vec<Outbox<(PeerId, Packet)>>,
        peer_state_tx: Outbox<(PeerId, PeerState)>,
        peer_messages_tx: Outbox<(PeerId, PeerMessage)>,
        id_tx: Promise<PeerId>,
    ) -> (state: MessageLoop)
        ensures
            state@.wf(),
            state@ == (LoopView {
                config,
                requests: requests_sender,
                packets: messages_from_peers_tx@,
                peer_states: peer_state_tx,
                peer_messages: peer_messages_tx,
                handshakes: Map::empty(),
                waiting: Map::empty(),
                id: id_tx,
            }),
    {
        let state = MessageLoop {
            config,
            requests_sender,
            messages_from_peers_tx,
            peer_state_tx,
            peer_messages_tx,
            handshake_signals: HashMap::new(),
            ready_signals: HashMap::new(),
            id_tx,
        };
        assert(state.handshake_signals@ =~= Map::empty());
        assert(state.ready_signals@ =~= Map::empty());
        state
    }

    /// The server that handshakes ask for addresses.
    pub fn ice_server(&self) -> (ice_server: &RtcIceServerConfig)
        ensures
            *ice_server == self@.config.ice_server,
    {
        &self.config.ice_server
    }

    /// How often the connection to the signaling server is kept alive.
    pub fn keep_alive_interval(&self) -> (interval: Option<Duration>)
        ensures
            interval == self@.config.keep_alive_interval,
    {
        self.config.keep_alive_interval
    }

    /// Sets up a handshake with `peer`.
    fn setup_peer(&mut self, peer: PeerId) -> (handshake: Handshake)
        requires
            old(self)@.config.connects_peers(),
        ensures
            old(self)@.opens(peer, handshake, final(self)@),
            final(self)@.handshakes[peer.0].is_fresh_end_of(handshake.signal_rx.channel()),
    {
        let ghost before = self@;
        let (signal_tx, signal_rx) = unbounded();
        let (ready_sender, ready_receiver) = promise();
        self.handshake_signals.insert(peer.0, signal_tx);
        self.ready_signals.insert(peer.0, ready_sender);
        let signal_peer = SignalPeer::new(peer, self.requests_sender.another());
        let builders = AsyncDataChannelReceiver::channels_for_peer(
            peer,
            self.config.channels.as_slice(),
            self.peer_messages_tx.another(),
        );
        assert(self@.handshakes =~= before.handshakes.insert(peer.0, signal_tx));
        assert(self@.waiting =~= before.waiting.insert(peer.0, ready_sender));
        Handshake { signal_peer, signal_rx, builders, data_channels_ready: ready_receiver }
    }

    /// Whether `event` can come now.
    pub fn can_handle(&self, event: &LoopEvent) -> (yes: bool)
        ensures
            yes == self@.expects(*event),
    {
        match event {
            LoopEvent::Signaling(Some(PeerEvent::IdAssigned(_))) => self.id_tx.is_pending(),
            LoopEvent::Signaling(Some(PeerEvent::NewPeer(_))) => self.config.can_connect_peers(),
            LoopEvent::Signaling(Some(PeerEvent::Signal { sender, .. })) => {
                self.handshake_signals.contains_key(&sender.0) || self.config.can_connect_peers()
            },
            LoopEvent::FromPeer(Some((peer, PeerMessage::Join))) => {
                self.ready_signals.contains_key(&peer.0)
            },
            LoopEvent::FromPeer(Some((_, PeerMessage::Packet(channel, _)))) => {
                (channel.0 as usize) < self.messages_from_peers_tx.len()
            },
            _ => true,
        }
    }

    /// What to do about what happened.
    pub fn step(&mut self, event: LoopEvent) -> (action: LoopAction)
        requires
            old(self)@.wf(),
            old(self)@.expects(event),
        ensures
            final(self)@.wf(),
            loop_step(old(self)@, event, final(self)@, action),
    {
        let ghost before = self@;
        let ghost happened = event;
        let action = match event {
            LoopEvent::Timeout => {
                let sent = self.requests_sender.unbounded_send(PeerRequest::KeepAlive);
                Self::after_keep_alive(self.config.keep_alive_interval, sent.is_ok())
            },
            LoopEvent::Signaling(Some(event)) => self.signaling_event(event),
            LoopEvent::Signaling(None) => LoopAction::Continue,
            LoopEvent::FromPeer(Some((peer, message))) => self.peer_message(peer, message),
            LoopEvent::FromPeer(None) => LoopAction::Exit,
            LoopEvent::SocketClosed => LoopAction::Exit,
            LoopEvent::Complete => LoopAction::Exit,
        };
        proof {
            steps_keep_waiting_handshakes_pending(before, happened, self@, action);
        }
        action
    }

    /// What to do after a request to be kept alive was sent, or could not be.
    pub fn after_keep_alive(interval: Option<Duration>, sent: bool) -> (action: LoopAction)
        ensures
            action == kept_alive(interval, sent),
    {
        if !sent {
            return LoopAction::Exit;
        }
        match interval {
            Some(interval) => LoopAction::RestartTimer(interval),
            None => LoopAction::NoInterval,
        }
    }

    /// What to do after the identity of this node was handed on, or nobody waited for it.
    pub fn after_id(took: bool) -> (action: LoopAction)
        ensures
            action == id_assigned(took),
    {
        if took {
            LoopAction::Continue
        } else {
            LoopAction::Exit
        }
    }

    /// What to do after a signal was passed to a handshake, or came too late for it.
    pub fn after_signal(peer: PeerId, took: bool) -> (action: LoopAction)
        ensures
            action == signal_passed(peer, took),
    {
        if took {
            LoopAction::Continue
        } else {
            LoopAction::SignalIgnored(peer)
        }
    }

    /// The signaling server reports `event`.
    ///
    /// A signal of a peer that no handshake is under way with starts one, in which this node is the
    /// one to answer: only the peer that is to make the offer is told of the other.
    fn signaling_event(&mut self, event: PeerEvent) -> (action: LoopAction)
        requires
            old(self)@.expects(LoopEvent::Signaling(Some(event))),
        ensures
            signaling_event_step(old(self)@, event, final(self)@, action),
    {
        match event {
            PeerEvent::IdAssigned(id) => {
                let sent = self.id_tx.send(id);
                Self::after_id(sent.is_ok())
            },
            PeerEvent::NewPeer(peer) => LoopAction::Offer(self.setup_peer(peer)),
            PeerEvent::PeerLeft(peer) => {
                self.handshake_signals.remove(&peer.0);
                LoopAction::Continue
            },
            PeerEvent::Signal { sender, data } => {
                if self.handshake_signals.contains_key(&sender.0) {
                    let took = self.pass_signal(sender, data);
                    Self::after_signal(sender, took)
                } else {
                    let ghost before = self@;
                    let handshake = self.setup_peer(sender);
                    match self.handshake_signals.entry(sender.0) {
                        Entry::Occupied(entry) => {
                            entry.into_mut().send_to(data, &handshake.signal_rx);
                        },
                        Entry::Vacant(_) => {},
                    }
                    assert(self@.handshakes =~= before.handshakes.insert(
                        sender.0,
                        self@.handshakes[sender.0],
                    ));
                    LoopAction::Accept(handshake)
                }
            },
        }
    }

    /// Passes `data` to the handshake with `peer`, and says whether it was taken.
    fn pass_signal(&mut self, peer: PeerId, data: PeerSignal) -> (took: bool)
        requires
            old(self)@.handshakes.contains_key(peer.0),
        ensures
            old(self)@.passes(peer, data, took, final(self)@),
    {
        let ghost before = self@;
        let took = match self.handshake_signals.entry(peer.0) {
            Entry::Occupied(entry) => {
                let signal_tx = entry.into_mut();
                signal_tx.unbounded_send(data).is_ok()
            },
            Entry::Vacant(_) => false,
        };
        assert(self@.handshakes =~= before.handshakes.insert(peer.0, self@.handshakes[peer.0]));
        took
    }

    /// `peer` has `message`.
    fn peer_message(&mut self, peer: PeerId, message: PeerMessage) -> (action: LoopAction)
        requires
            old(self)@.wf(),
            old(self)@.expects(LoopEvent::FromPeer(Some((peer, message)))),
        ensures
            peer_message_step(old(self)@, peer, message, final(self)@, action),
    {
        match message {
            PeerMessage::Join => {
                let mut ready = self.ready_signals.remove(&peer.0).unwrap();
                let _ = ready.send(());
                let _ = self.peer_state_tx.unbounded_send((peer, PeerState::Connected));
                LoopAction::Ready(ready)
            },
            PeerMessage::Packet(channel, packet) => {
                let packets = &mut self.messages_from_peers_tx[channel.0 as usize];
                let _ = packets.unbounded_send((peer, packet));
                LoopAction::Continue
            },
            PeerMessage::Close(_) => {
                let _ = self.peer_state_tx.unbounded_send((peer, PeerState::Disconnected));
                LoopAction::Continue
            },
        }
    }
}

} // verus!
