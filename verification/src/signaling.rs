//! What to do between the requests of a node and the events of its signaling server.
//!
//! The connection to the server is somebody else's: [`SignalingLoop::step`] is told what happened
//! on it, hands the events on, and says what to do next.
use crate::channel::Outbox;
use crate::error::SignalingError;
use crate::protocol::{PeerEvent, PeerRequest};
use vstd::prelude::*;

verus! {

/// What happened on the way between the node and the signaling server.
pub enum SignalingInput {
    /// The signaller was made, or could not be.
    Opened(Result<(), SignalingError>),
    /// The node has a request, or will have none any more.
    Request(Option<PeerRequest>),
    /// A request was passed to the signaling server, or could not be.
    Sent(Result<(), SignalingError>),
    /// The signaling server reports an event, or there is none to be had.
    Message(Result<PeerEvent, SignalingError>),
}

/// What to do next.
pub enum SignalingAction {
    /// Wait for what happens next.
    Continue,
    /// Pass this request to the signaling server.
    Send(PeerRequest),
    /// Stop, with this outcome.
    Finish(Result<(), SignalingError>),
}

/// Passes requests to the signaling server, and its events to the node.
pub struct SignalingLoop {
    events_sender: Outbox<PeerEvent>,
}

/// What follows from what became of an attempt: go on, or stop with the error.
pub open spec fn go_on_or_stop(outcome: Result<(), SignalingError>) -> SignalingAction {
    match outcome {
        Ok(()) => SignalingAction::Continue,
        Err(error) => SignalingAction::Finish(Err(error)),
    }
}

/// What follows from handing on an event: the channel took it, or gave it back.
pub open spec fn handed_on(sent: Result<(), PeerEvent>) -> SignalingAction {
    match sent {
        Ok(()) => SignalingAction::Continue,
        Err(event) => SignalingAction::Finish(Err(SignalingError::Undeliverable(event))),
    }
}

/// `before` becomes `after` and `action` follows when `input` happens.
///
/// Of all inputs only an event touches the channel to the node. Whether the channel takes the event
/// is not for the loop to decide, but what follows from it is.
pub open spec fn signaling_step(
    before: SignalingLoop,
    input: SignalingInput,
    after: SignalingLoop,
    action: SignalingAction,
) -> bool {
    match input {
        SignalingInput::Message(Ok(event)) => {
            ||| {
                &&& before.events().after_offer(event, true, after.events())
                &&& action == handed_on(Ok(()))
            }
            ||| {
                &&& before.events().after_offer(event, false, after.events())
                &&& action == handed_on(Err(event))
            }
        },
        SignalingInput::Message(Err(SignalingError::UnknownFormat)) => {
            &&& after.events() == before.events()
            &&& action == SignalingAction::Continue
        },
        SignalingInput::Message(Err(error)) => {
            &&& after.events() == before.events()
            &&& action == SignalingAction::Finish(Err(error))
        },
        SignalingInput::Opened(outcome) => {
            &&& after.events() == before.events()
            &&& action == go_on_or_stop(outcome)
        },
        SignalingInput::Sent(outcome) => {
            &&& after.events() == before.events()
            &&& action == go_on_or_stop(outcome)
        },
        SignalingInput::Request(Some(request)) => {
            &&& after.events() == before.events()
            &&& action == SignalingAction::Send(request)
        },
        SignalingInput::Request(None) => {
            &&& after.events() == before.events()
            &&& action == SignalingAction::Finish(Err(SignalingError::StreamExhausted))
        },
    }
}

impl SignalingLoop {
    /// Where events go.
    pub closed spec fn events(&self) -> Outbox<PeerEvent> {
        self.events_sender
    }

    /// A loop that hands events to `events_sender`.
    pub fn new(events_sender: Outbox<PeerEvent>) -> (state: SignalingLoop)
        ensures
            state.events() == events_sender,
    {
        SignalingLoop { events_sender }
    }

    /// What to do about what happened.
    pub fn step(&mut self, input: SignalingInput) -> (action: SignalingAction)
        ensures
            signaling_step(*old(self), input, *final(self), action),
    {
        match input {
            SignalingInput::Opened(outcome) => Self::after_attempt(outcome),
            SignalingInput::Request(Some(request)) => SignalingAction::Send(request),
            SignalingInput::Request(None) => SignalingAction::Finish(
                Err(SignalingError::StreamExhausted),
            ),
            SignalingInput::Sent(outcome) => Self::after_attempt(outcome),
            SignalingInput::Message(Ok(event)) => {
                let sent = self.events_sender.unbounded_send(event);
                Self::after_event(sent)
            },
            SignalingInput::Message(Err(SignalingError::UnknownFormat)) => SignalingAction::Continue,
            SignalingInput::Message(Err(error)) => SignalingAction::Finish(Err(error)),
        }
    }

    /// What to do after an attempt to reach the signaling server.
    pub fn after_attempt(outcome: Result<(), SignalingError>) -> (action: SignalingAction)
        ensures
            action == go_on_or_stop(outcome),
    {
        match outcome {
            Ok(()) => SignalingAction::Continue,
            Err(error) => SignalingAction::Finish(Err(error)),
        }
    }

    /// What to do after an event was handed on, or came back.
    pub fn after_event(sent: Result<(), PeerEvent>) -> (action: SignalingAction)
        ensures
            action == handed_on(sent),
    {
        match sent {
            Ok(()) => SignalingAction::Continue,
            Err(event) => SignalingAction::Finish(Err(SignalingError::Undeliverable(event))),
        }
    }
}

/// The loop went through `states`, doing `actions` about `inputs`.
pub open spec fn signaling_run(
    states: Seq<SignalingLoop>,
    inputs: Seq<SignalingInput>,
    actions: Seq<SignalingAction>,
) -> bool {
    &&& states.len() == inputs.len() + 1
    &&& actions.len() == inputs.len()
    &&& forall|i: int|
        #![trigger inputs[i]]
        0 <= i < inputs.len() ==> signaling_step(states[i], inputs[i], states[i + 1], actions[i])
}

/// The events among `inputs`, in order.
pub open spec fn events_among(inputs: Seq<SignalingInput>) -> Seq<PeerEvent>
    decreases inputs.len(),
{
    if inputs.len() == 0 {
        Seq::empty()
    } else {
        match inputs.last() {
            SignalingInput::Message(Ok(event)) => events_among(inputs.drop_last()).push(event),
            _ => events_among(inputs.drop_last()),
        }
    }
}

/// The requests among `inputs`, in order.
pub open spec fn requests_among(inputs: Seq<SignalingInput>) -> Seq<PeerRequest>
    decreases inputs.len(),
{
    if inputs.len() == 0 {
        Seq::empty()
    } else {
        match inputs.last() {
            SignalingInput::Request(Some(request)) => requests_among(inputs.drop_last()).push(
                request,
            ),
            _ => requests_among(inputs.drop_last()),
        }
    }
}

/// The requests that `actions` pass to the signaling server, in order.
pub open spec fn requests_passed(actions: Seq<SignalingAction>) -> Seq<PeerRequest>
    decreases actions.len(),
{
    if actions.len() == 0 {
        Seq::empty()
    } else {
        match actions.last() {
            SignalingAction::Send(request) => requests_passed(actions.drop_last()).push(request),
            _ => requests_passed(actions.drop_last()),
        }
    }
}

/// Signals go back and forth unaltered: every event of the signaling server is handed to the node
/// and every request of the node is passed to the signaling server, each once and in order, and
/// nothing else is. As long as the loop does not stop, the node's channel took all of the events.
pub proof fn signals_pass_in_order(
    states: Seq<SignalingLoop>,
    inputs: Seq<SignalingInput>,
    actions: Seq<SignalingAction>,
)
    requires
        signaling_run(states, inputs, actions),
    ensures
        states.last().events().channel() == states[0].events().channel(),
        states.last().events().handed_out() == states[0].events().handed_out(),
        states.last().events().offered() == states[0].events().offered() + events_among(inputs),
        requests_passed(actions) == requests_among(inputs),
        (forall|i: int| 0 <= i < actions.len() ==> !(actions[i] is Finish))
            ==> states.last().events().accepted() == states[0].events().accepted() + events_among(
            inputs,
        ),
    decreases inputs.len(),
{
    if inputs.len() > 0 {
        let n = inputs.len() - 1;
        let earlier = states.drop_last();
        assert forall|i: int|
            #![trigger inputs.drop_last()[i]]
            0 <= i < n implies signaling_step(
            earlier[i],
            inputs.drop_last()[i],
            earlier[i + 1],
            actions.drop_last()[i],
        ) by {
            assert(inputs.drop_last()[i] == inputs[i]);
        }
        signals_pass_in_order(earlier, inputs.drop_last(), actions.drop_last());
        assert(signaling_step(states[n], inputs[n], states[n + 1], actions[n]));
    }
}

/// Signaling never stops of its own accord: it ends with an error, whatever happened.
pub proof fn signaling_ends_with_an_error(
    states: Seq<SignalingLoop>,
    inputs: Seq<SignalingInput>,
    actions: Seq<SignalingAction>,
    last: int,
)
    requires
        signaling_run(states, inputs, actions),
        0 <= last < inputs.len(),
        actions[last] is Finish,
    ensures
        actions[last]->Finish_0 is Err,
        !(inputs[last] matches SignalingInput::Message(Err(SignalingError::UnknownFormat))),
{
    assert(signaling_step(states[last], inputs[last], states[last + 1], actions[last]));
}

} // verus!
