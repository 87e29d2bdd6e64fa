//! What each call on the loop between a node and its signaling server does, told by what goes in and
//! what comes out.
use crate::channel::Outbox;
use crate::error::SignalingError;
use crate::protocol::{PeerEvent, PeerRequest};
use crate::signaling::{SignalingAction, SignalingInput, SignalingLoop};
use vstd::prelude::*;

verus! {

/// A new loop hands events to where it was told.
pub proof fn new_loop_hands_on_as_told(events: Outbox<PeerEvent>, state: SignalingLoop)
    requires
        call_ensures(SignalingLoop::new, (events,), state),
    ensures
        state.events() == events,
{
}

/// Every event of the signaling server is handed on, once and unchanged; that nobody takes it ends
/// the loop with an error that has it.
pub proof fn event_is_handed_on(
    state: &mut SignalingLoop,
    event: PeerEvent,
    action: SignalingAction,
)
    requires
        call_ensures(
            SignalingLoop::step,
            (state, SignalingInput::Message(Ok(event))),
            action,
        ),
    ensures
        final(state).events().channel() == old(state).events().channel(),
        final(state).events().handed_out() == old(state).events().handed_out(),
        final(state).events().offered() == old(state).events().offered().push(event),
        ({
            ||| {
                &&& final(state).events().accepted() == old(state).events().accepted().push(event)
                &&& action is Continue
            }
            ||| {
                &&& final(state).events().accepted() == old(state).events().accepted()
                &&& action == SignalingAction::Finish(Err(SignalingError::Undeliverable(event)))
            }
        }),
{
}

/// Whatever is not an event of the signaling server, the node does not hear of.
pub proof fn only_events_are_handed_on(
    state: &mut SignalingLoop,
    input: SignalingInput,
    action: SignalingAction,
)
    requires
        !(input matches SignalingInput::Message(Ok(_))),
        call_ensures(SignalingLoop::step, (state, input), action),
    ensures
        final(state).events() == old(state).events(),
{
}

/// Every request of the node is passed to the signaling server, unchanged, and nothing else is.
pub proof fn only_requests_are_sent(
    state: &mut SignalingLoop,
    input: SignalingInput,
    request: PeerRequest,
    action: SignalingAction,
)
    requires
        call_ensures(SignalingLoop::step, (state, input), action),
    ensures
        action == SignalingAction::Send(request) <==> input == SignalingInput::Request(
            Some(request),
        ),
{
}

/// The loop goes on after a message that it does not understand, and after whatever went well, and
/// ends with the error after whatever else went wrong.
pub proof fn errors_end_the_loop(
    state: &mut SignalingLoop,
    input: SignalingInput,
    action: SignalingAction,
)
    requires
        call_ensures(SignalingLoop::step, (state, input), action),
    ensures
        match input {
            SignalingInput::Opened(Ok(_)) => action is Continue,
            SignalingInput::Opened(Err(error)) => action == SignalingAction::Finish(Err(error)),
            SignalingInput::Sent(Ok(_)) => action is Continue,
            SignalingInput::Sent(Err(error)) => action == SignalingAction::Finish(Err(error)),
            SignalingInput::Request(None) => action == SignalingAction::Finish(
                Err(SignalingError::StreamExhausted),
            ),
            SignalingInput::Request(Some(_)) => action is Send,
            SignalingInput::Message(Err(error)) => if error is UnknownFormat {
                action is Continue
            } else {
                action == SignalingAction::Finish(Err(error))
            },
            SignalingInput::Message(Ok(_)) => !(action is Send),
        },
        action matches SignalingAction::Finish(outcome) ==> outcome is Err,
{
}

/// What follows from an attempt to reach the signaling server.
pub proof fn what_follows_an_attempt(
    outcome: Result<(), SignalingError>,
    action: SignalingAction,
)
    requires
        call_ensures(SignalingLoop::after_attempt, (outcome,), action),
    ensures
        outcome is Ok ==> action is Continue,
        outcome matches Err(error) ==> action == SignalingAction::Finish(Err(error)),
{
}

/// What follows from an event that was handed on, or came back.
pub proof fn what_follows_an_event(sent: Result<(), PeerEvent>, action: SignalingAction)
    requires
        call_ensures(SignalingLoop::after_event, (sent,), action),
    ensures
        sent is Ok ==> action is Continue,
        sent matches Err(event) ==> action == SignalingAction::Finish(
            Err(SignalingError::Undeliverable(event)),
        ),
{
}

} // verus!
