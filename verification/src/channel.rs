//! The in-memory channels that connect the tasks of a socket.
//!
//! [`Outbox`] and [`Inbox`] are the two ends of an unbounded queue, [`Promise`] and [`Awaited`]
//! those of a channel for a single value. Every end knows, in ghost state, which channel it belongs
//! to, and no two channels are the same. Every sending end keeps the history of what went through
//! it: what was *offered*, in order, what of that the channel *accepted*, and how many more sending
//! ends were *handed out*. A channel accepts a message as long as its receiving end is there to take
//! it.
use futures_channel::mpsc;
use futures_channel::oneshot;
use vstd::prelude::*;

verus! {

/// `futures_channel::mpsc::UnboundedSender`, the sending end of an unbounded queue.
#[verifier::external_type_specification]
#[verifier::external_body]
#[verifier::reject_recursive_types(T)]
pub struct ExUnboundedSender<T>(futures_channel::mpsc::UnboundedSender<T>);

/// `futures_channel::mpsc::UnboundedReceiver`, the receiving end of an unbounded queue.
#[verifier::external_type_specification]
#[verifier::external_body]
#[verifier::reject_recursive_types(T)]
pub struct ExUnboundedReceiver<T>(futures_channel::mpsc::UnboundedReceiver<T>);

/// `futures_channel::oneshot::Sender`, the sending end of a channel for a single value.
#[verifier::external_type_specification]
#[verifier::external_body]
#[verifier::reject_recursive_types(T)]
pub struct ExOneshotSender<T>(futures_channel::oneshot::Sender<T>);

/// `futures_channel::oneshot::Receiver`, the receiving end of a channel for a single value.
#[verifier::external_type_specification]
#[verifier::external_body]
#[verifier::reject_recursive_types(T)]
pub struct ExOneshotReceiver<T>(futures_channel::oneshot::Receiver<T>);

/// `futures_channel::oneshot::Canceled`, what the receiving end resolves to when the value is no
/// longer owed.
#[verifier::external_type_specification]
#[verifier::external_body]
pub struct ExCanceled(futures_channel::oneshot::Canceled);

/// A sending end of an unbounded queue.
#[verifier::reject_recursive_types(T)]
pub struct Outbox<T> {
    tx: mpsc::UnboundedSender<T>,
    offered: Ghost<Seq<T>>,
    accepted: Ghost<Seq<T>>,
    handed_out: Ghost<nat>,
    channel: Ghost<int>,
}

/// The receiving end of an unbounded queue.
#[verifier::reject_recursive_types(T)]
pub struct Inbox<T> {
    rx: mpsc::UnboundedReceiver<T>,
    channel: Ghost<int>,
}

/// The sending end of a channel for a single value.
#[verifier::reject_recursive_types(T)]
pub struct Promise<T> {
    /// The end of the channel, until it is used up.
    end: Option<PromiseEnd<T>>,
    /// What became of it then.
    delivery: Delivery<T>,
}

/// The end of a channel for a single value that can be used once.
#[verifier::reject_recursive_types(T)]
struct PromiseEnd<T> {
    tx: oneshot::Sender<T>,
    channel: Ghost<int>,
}

/// What was handed to a channel for a single value: the channel, the value, and whether the channel
/// took it.
#[verifier::reject_recursive_types(T)]
struct Delivery<T> {
    handed: Ghost<Option<(int, T, bool)>>,
}

/// The receiving end of a channel for a single value.
#[verifier::reject_recursive_types(T)]
pub struct Awaited<T> {
    rx: oneshot::Receiver<T>,
    channel: Ghost<int>,
}

impl<T> Outbox<T> {
    /// The channel that this end belongs to.
    pub closed spec fn channel(&self) -> int {
        self.channel@
    }

    /// The messages handed to the channel through this end, in order.
    pub closed spec fn offered(&self) -> Seq<T> {
        self.offered@
    }

    /// The messages that the channel took from this end, in order.
    pub closed spec fn accepted(&self) -> Seq<T> {
        self.accepted@
    }

    /// How many other sending ends of the channel were made from this one.
    pub closed spec fn handed_out(&self) -> nat {
        self.handed_out@
    }

    /// This end after `message` was handed to the channel, which took it or, where `taken` does
    /// not hold, gave it back.
    pub open spec fn after_offer(&self, message: T, taken: bool, after: Outbox<T>) -> bool {
        &&& after.channel() == self.channel()
        &&& after.handed_out() == self.handed_out()
        &&& after.offered() == self.offered().push(message)
        &&& after.accepted() == if taken {
            self.accepted().push(message)
        } else {
            self.accepted()
        }
    }

    /// This end after one other sending end was made from it.
    pub open spec fn after_handing_out(&self, after: Outbox<T>) -> bool {
        &&& after.channel() == self.channel()
        &&& after.handed_out() == self.handed_out() + 1
        &&& after.offered() == self.offered()
        &&& after.accepted() == self.accepted()
    }

    /// A sending end of the same channel through which nothing went yet.
    pub open spec fn is_fresh_end_of(&self, channel: int) -> bool {
        &&& self.channel() == channel
        &&& self.offered() == Seq::<T>::empty()
        &&& self.accepted() == Seq::<T>::empty()
        &&& self.handed_out() == 0
    }

    /// Hands `message` to the channel, which gives it back when its receiving end is gone.
    pub fn unbounded_send(&mut self, message: T) -> (sent: Result<(), T>)
        ensures
            old(self).after_offer(message, sent is Ok, *final(self)),
            sent matches Err(back) ==> back == message,
    {
        mpsc_unbounded_send(self, message, None)
    }

    /// Hands `message` to the channel that `inbox` is the receiving end of, and which therefore
    /// takes it.
    pub fn send_to(&mut self, message: T, inbox: &Inbox<T>)
        requires
            inbox.channel() == old(self).channel(),
        ensures
            old(self).after_offer(message, true, *final(self)),
    {
        let _ = mpsc_unbounded_send(self, message, Some(inbox));
    }

    /// Another sending end of the same channel, with a history of its own.
    pub fn another(&mut self) -> (end: Outbox<T>)
        ensures
            end.is_fresh_end_of(old(self).channel()),
            old(self).after_handing_out(*final(self)),
    {
        mpsc_clone(self)
    }
}

impl<T> Inbox<T> {
    /// The channel that this end belongs to.
    pub closed spec fn channel(&self) -> int {
        self.channel@
    }

    /// The receiver inside.
    pub closed spec fn receiver(&self) -> mpsc::UnboundedReceiver<T> {
        self.rx
    }

    /// Hands out the receiver.
    pub fn into_receiver(self) -> (rx: mpsc::UnboundedReceiver<T>)
        ensures
            rx == self.receiver(),
    {
        self.rx
    }
}

impl<T> Promise<T> {
    /// The channel that this end belongs to.
    pub closed spec fn channel(&self) -> int {
        match (self.end, self.delivery.handed@) {
            (Some(end), _) => end.channel@,
            (None, Some((channel, _, _))) => channel,
            (None, None) => arbitrary(),
        }
    }

    /// Whether no value was handed to the channel yet.
    pub closed spec fn pending(&self) -> bool {
        self.end is Some
    }

    /// The value handed to the channel.
    pub closed spec fn offered(&self) -> Option<T> {
        match self.delivery.handed@ {
            Some((_, value, _)) => Some(value),
            None => None,
        }
    }

    /// Whether the channel took the value handed to it.
    pub closed spec fn accepted(&self) -> bool {
        self.delivery.handed@ matches Some((_, _, true))
    }

    /// The end of `channel` that still owes its value.
    pub open spec fn is_pending_end_of(&self, channel: int) -> bool {
        &&& self.channel() == channel
        &&& self.pending()
        &&& self.offered() is None
        &&& !self.accepted()
    }

    /// This end after `value` was handed to the channel, which took it or, where `taken` does not
    /// hold, gave it back.
    pub open spec fn after_send(&self, value: T, taken: bool, after: Promise<T>) -> bool {
        &&& after.channel() == self.channel()
        &&& !after.pending()
        &&& after.offered() == Some(value)
        &&& after.accepted() == taken
    }

    /// Whether no value was handed to the channel yet.
    pub fn is_pending(&self) -> (pending: bool)
        ensures
            pending == self.pending(),
    {
        self.end.is_some()
    }

    /// Hands `value` to the channel, which gives it back when its receiving end is gone.
    pub fn send(&mut self, value: T) -> (sent: Result<(), T>)
        requires
            old(self).pending(),
        ensures
            old(self).after_send(value, sent is Ok, *final(self)),
            sent matches Err(back) ==> back == value,
    {
        match self.end.take() {
            Some(end) => oneshot_send(end, value, &mut self.delivery),
            None => Err(value),
        }
    }
}

impl<T> Awaited<T> {
    /// The channel that this end belongs to.
    pub closed spec fn channel(&self) -> int {
        self.channel@
    }

    /// The receiver inside.
    pub closed spec fn receiver(&self) -> oneshot::Receiver<T> {
        self.rx
    }

    /// Hands out the receiver.
    pub fn into_receiver(self) -> (rx: oneshot::Receiver<T>)
        ensures
            rx == self.receiver(),
    {
        self.rx
    }
}

/// All of `messages` went through `before`, which became `after`.
pub open spec fn all_taken<T>(before: Outbox<T>, messages: Seq<T>, after: Outbox<T>) -> bool {
    &&& after.channel() == before.channel()
    &&& after.handed_out() == before.handed_out()
    &&& after.offered() == before.offered() + messages
    &&& after.accepted() == before.accepted() + messages
}

/// The first `count` of `messages` went through `before`, which became `after`; the next one came
/// back, and the rest was not tried.
pub open spec fn refused_after<T>(
    before: Outbox<T>,
    messages: Seq<T>,
    count: int,
    after: Outbox<T>,
) -> bool {
    &&& 0 <= count < messages.len()
    &&& after.channel() == before.channel()
    &&& after.handed_out() == before.handed_out()
    &&& after.offered() == before.offered() + messages.take(count + 1)
    &&& after.accepted() == before.accepted() + messages.take(count)
}

/// Some of `messages` went through `before`, which became `after`, until one came back.
pub open spec fn refused<T>(before: Outbox<T>, messages: Seq<T>, after: Outbox<T>) -> bool {
    exists|count: int| refused_after(before, messages, count, after)
}

/// After the first `count` of `messages` went through `before`, the next one is tried.
pub proof fn next_offer<T>(
    before: Outbox<T>,
    messages: Seq<T>,
    count: int,
    during: Outbox<T>,
    taken: bool,
    after: Outbox<T>,
)
    requires
        0 <= count < messages.len(),
        all_taken(before, messages.take(count), during),
        during.after_offer(messages[count], taken, after),
    ensures
        taken ==> all_taken(before, messages.take(count + 1), after),
        !taken ==> refused(before, messages, after),
{
    assert(messages.take(count + 1) =~= messages.take(count).push(messages[count]));
    assert(after.offered() =~= before.offered() + messages.take(count + 1));
    if taken {
        assert(after.accepted() =~= before.accepted() + messages.take(count + 1));
    } else {
        assert(refused_after(before, messages, count, after));
    }
}

/// A single message is tried.
pub proof fn single_offer<T>(before: Outbox<T>, message: T, taken: bool, after: Outbox<T>)
    requires
        before.after_offer(message, taken, after),
    ensures
        taken ==> all_taken(before, seq![message], after),
        !taken ==> refused(before, seq![message], after),
{
    nothing_offered(before);
    assert(seq![message].take(0) =~= Seq::empty());
    assert(seq![message].take(1) =~= seq![message]);
    next_offer(before, seq![message], 0, before, taken, after);
}

/// No message is tried.
pub proof fn nothing_offered<T>(outbox: Outbox<T>)
    ensures
        all_taken(outbox, Seq::empty(), outbox),
{
    assert(outbox.offered() + Seq::<T>::empty() =~= outbox.offered());
    assert(outbox.accepted() + Seq::<T>::empty() =~= outbox.accepted());
}

/// Opens an unbounded queue.
pub fn unbounded<T>() -> (ends: (Outbox<T>, Inbox<T>))
    ensures
        ends.0.is_fresh_end_of(ends.1.channel()),
{
    mpsc_unbounded()
}

/// Opens a channel for a single value.
pub fn promise<T>() -> (ends: (Promise<T>, Awaited<T>))
    ensures
        ends.0.is_pending_end_of(ends.1.channel()),
{
    let (end, awaited) = oneshot_channel();
    (Promise { end: Some(end), delivery: Delivery { handed: Ghost(None) } }, awaited)
}

/// `futures_channel::mpsc::unbounded`: opens a queue. Both ends belong to one channel, and nothing
/// went through the sending end yet.
#[verifier::external_body]
fn mpsc_unbounded<T>() -> (ends: (Outbox<T>, Inbox<T>))
    ensures
        ends.0.channel() == ends.1.channel(),
        ends.0.offered() == Seq::<T>::empty(),
        ends.0.accepted() == Seq::<T>::empty(),
        ends.0.handed_out() == 0,
{
    let (tx, rx) = mpsc::unbounded();
    let outbox = Outbox {
        tx,
        offered: Ghost(Seq::empty()),
        accepted: Ghost(Seq::empty()),
        handed_out: Ghost(0),
        channel: Ghost(0),
    };
    (outbox, Inbox { rx, channel: Ghost(0) })
}

/// `futures_channel::mpsc::UnboundedSender::unbounded_send`: puts the message at the end of the
/// queue, or hands it back (`TrySendError::into_inner`) when the channel was closed. A channel is
/// closed when its receiving end is dropped or told to close, neither of which can have happened to
/// an [`Inbox`] that is at hand as `receiving`, or when a sending end closes it, which an [`Outbox`]
/// never does. Without a receiving end at hand, nothing is said of which of the two happens. The
/// count of queued messages, which must stay below half of `usize::MAX`, cannot reach that bound,
/// as so many queue nodes do not fit in memory.
#[verifier::external_body]
fn mpsc_unbounded_send<T>(
    outbox: &mut Outbox<T>,
    message: T,
    receiving: Option<&Inbox<T>>,
) -> (sent: Result<(), T>)
    ensures
        receiving matches Some(inbox) ==> inbox.channel() == old(outbox).channel() ==> sent is Ok,
        final(outbox).channel() == old(outbox).channel(),
        final(outbox).handed_out() == old(outbox).handed_out(),
        final(outbox).offered() == old(outbox).offered().push(message),
        sent is Ok ==> final(outbox).accepted() == old(outbox).accepted().push(message),
        sent is Err ==> final(outbox).accepted() == old(outbox).accepted(),
        sent matches Err(back) ==> back == message,
{
    match outbox.tx.unbounded_send(message) {
        Ok(()) => Ok(()),
        Err(undelivered) => Err(undelivered.into_inner()),
    }
}

/// `futures_channel::mpsc::UnboundedSender::clone`: another sending end of the same channel. Its
/// history starts empty, and that of the first one counts it. The count of sending ends, which must
/// stay below a quarter of `usize::MAX`, cannot reach that bound, as so many ends do not fit in
/// memory.
#[verifier::external_body]
fn mpsc_clone<T>(outbox: &mut Outbox<T>) -> (end: Outbox<T>)
    ensures
        end.channel() == old(outbox).channel(),
        end.offered() == Seq::<T>::empty(),
        end.accepted() == Seq::<T>::empty(),
        end.handed_out() == 0,
        final(outbox).channel() == old(outbox).channel(),
        final(outbox).offered() == old(outbox).offered(),
        final(outbox).accepted() == old(outbox).accepted(),
        final(outbox).handed_out() == old(outbox).handed_out() + 1,
{
    Outbox {
        tx: outbox.tx.clone(),
        offered: Ghost(Seq::empty()),
        accepted: Ghost(Seq::empty()),
        handed_out: Ghost(0),
        channel: Ghost(outbox.channel@),
    }
}

/// `futures_channel::oneshot::channel`: opens a channel for a single value. Both ends belong to one
/// channel.
#[verifier::external_body]
fn oneshot_channel<T>() -> (ends: (PromiseEnd<T>, Awaited<T>))
    ensures
        ends.0.channel@ == ends.1.channel(),
{
    let (tx, rx) = oneshot::channel();
    (PromiseEnd { tx, channel: Ghost(0) }, Awaited { rx, channel: Ghost(0) })
}

/// `futures_channel::oneshot::Sender::send`: hands the value to the channel and uses up the sending
/// end. The value comes back when the receiving end was dropped; nothing is said of whether that
/// happens.
#[verifier::external_body]
fn oneshot_send<T>(end: PromiseEnd<T>, value: T, delivery: &mut Delivery<T>) -> (sent: Result<
    (),
    T,
>)
    ensures
        final(delivery).handed@ == Some((end.channel@, value, sent is Ok)),
        sent matches Err(back) ==> back == value,
{
    end.tx.send(value)
}

} // verus!
