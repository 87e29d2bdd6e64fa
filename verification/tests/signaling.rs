//! What is done between a node and its signaling server.
use matchbox_socket::channel::unbounded;
use matchbox_socket::error::SignalingError;
use matchbox_socket::protocol::{PeerEvent, PeerId, PeerRequest, PeerSignal};
use matchbox_socket::signaling::{SignalingAction, SignalingInput, SignalingLoop};

fn is_continue(action: SignalingAction) -> bool {
    matches!(action, SignalingAction::Continue)
}

fn outcome(action: SignalingAction) -> Result<(), SignalingError> {
    match action {
        SignalingAction::Finish(outcome) => outcome,
        _ => panic!("the loop goes on"),
    }
}

#[test]
fn events_are_handed_on_in_order() {
    let (events, inbox) = unbounded::<PeerEvent>();
    let mut state = SignalingLoop::new(events);
    assert!(is_continue(state.step(SignalingInput::Opened(Ok(())))));
    for event in [
        PeerEvent::IdAssigned(PeerId(1)),
        PeerEvent::NewPeer(PeerId(2)),
        PeerEvent::PeerLeft(PeerId(2)),
    ] {
        assert!(is_continue(state.step(SignalingInput::Message(Ok(event)))));
    }
    let mut receiver = inbox.into_receiver();
    assert_eq!(receiver.try_recv().ok(), Some(PeerEvent::IdAssigned(PeerId(1))));
    assert_eq!(receiver.try_recv().ok(), Some(PeerEvent::NewPeer(PeerId(2))));
    assert_eq!(receiver.try_recv().ok(), Some(PeerEvent::PeerLeft(PeerId(2))));
    assert!(receiver.try_recv().is_err());
}

#[test]
fn requests_are_passed_on() {
    let (events, inbox) = unbounded::<PeerEvent>();
    let mut state = SignalingLoop::new(events);
    let request = PeerRequest::Signal {
        receiver: PeerId(3),
        data: PeerSignal::Offer("sdp".to_string()),
    };
    match state.step(SignalingInput::Request(Some(request.clone()))) {
        SignalingAction::Send(passed) => assert_eq!(passed, request),
        _ => panic!("the request is to be passed on"),
    }
    assert!(is_continue(state.step(SignalingInput::Sent(Ok(())))));
    assert!(inbox.into_receiver().try_recv().is_err());
}

#[test]
fn no_more_requests_end_the_loop() {
    let (events, _inbox) = unbounded::<PeerEvent>();
    let mut state = SignalingLoop::new(events);
    let action = state.step(SignalingInput::Request(None));
    assert_eq!(outcome(action), Err(SignalingError::StreamExhausted));
}

#[test]
fn unknown_format_is_ignored() {
    let (events, inbox) = unbounded::<PeerEvent>();
    let mut state = SignalingLoop::new(events);
    let action = state.step(SignalingInput::Message(Err(SignalingError::UnknownFormat)));
    assert!(is_continue(action));
    assert!(inbox.into_receiver().try_recv().is_err());
}

#[test]
fn errors_of_the_signaller_end_the_loop() {
    let (events, _inbox) = unbounded::<PeerEvent>();
    let mut state = SignalingLoop::new(events);
    let lost = || SignalingError::Implementation("connection lost".to_string());
    assert_eq!(outcome(state.step(SignalingInput::Opened(Err(lost())))), Err(lost()));
    assert_eq!(outcome(state.step(SignalingInput::Sent(Err(lost())))), Err(lost()));
    assert_eq!(outcome(state.step(SignalingInput::Message(Err(lost())))), Err(lost()));
    let format = SignalingInput::Sent(Err(SignalingError::UnknownFormat));
    assert_eq!(outcome(state.step(format)), Err(SignalingError::UnknownFormat));
}

#[test]
fn event_for_nobody_ends_the_loop() {
    let (events, inbox) = unbounded::<PeerEvent>();
    let mut state = SignalingLoop::new(events);
    drop(inbox);
    let action = state.step(SignalingInput::Message(Ok(PeerEvent::NewPeer(PeerId(4)))));
    assert_eq!(
        outcome(action),
        Err(SignalingError::Undeliverable(PeerEvent::NewPeer(PeerId(4))))
    );
}
