//! The lock under which the data channels to one peer share what they know of it.
//!
//! The lock is held in a [`PeerSession`], which only a [`PeerHandle`] on it can open, one at a time,
//! and which keeps a log of what was found and what was left under the lock. A handle counts the
//! sessions that it opened and the other handles that were made from it, and keeps the logs of the
//! sessions that were closed.
use crate::conversation::{reached, start_is_reached};
use crate::peer::UnboundedPeerReceiver;
use std::sync::Arc;
use vstd::prelude::*;
use vstd::rwlock::{RwLock, RwLockPredicate, WriteHandle};

verus! {

/// What stays true of a peer under the lock: it is what became of the one that the lock was made
/// with, by what happened on the channels.
pub struct SharedPeer {
    made_with: Ghost<UnboundedPeerReceiver>,
}

impl RwLockPredicate<UnboundedPeerReceiver> for SharedPeer {
    closed spec fn inv(self, peer: UnboundedPeerReceiver) -> bool {
        &&& peer.wf()
        &&& reached(self.made_with@, peer)
    }
}

/// A peer under a lock.
pub struct PeerLock {
    lock: RwLock<UnboundedPeerReceiver, SharedPeer>,
}

/// The right to use the peer, until it is put back.
pub struct PeerGuard<'a> {
    handle: WriteHandle<'a, UnboundedPeerReceiver, SharedPeer>,
}

/// What was done with the lock.
pub ghost enum PeerUse {
    /// It was held, and this peer was found.
    Found(UnboundedPeerReceiver),
    /// It was let go of, and this peer was left.
    Left(UnboundedPeerReceiver),
}

/// A time of using the lock.
pub struct PeerSession {
    lock: Ghost<PeerLock>,
    handle: Ghost<Seq<nat>>,
    uses: Ghost<Seq<PeerUse>>,
}

/// A way to the lock.
pub struct PeerHandle {
    lock: Arc<PeerLock>,
    name: Ghost<Seq<nat>>,
    handed_out: Ghost<nat>,
    opened: Ghost<nat>,
    sessions: Ghost<Seq<Seq<PeerUse>>>,
}

impl PeerLock {
    /// The peer that the lock was made with.
    pub closed spec fn made_with(&self) -> UnboundedPeerReceiver {
        self.lock.pred().made_with@
    }

    /// `peer` is what was put under the lock when it was made.
    pub closed spec fn started_with(&self, peer: UnboundedPeerReceiver) -> bool {
        call_ensures(
            RwLock::<UnboundedPeerReceiver, SharedPeer>::new,
            (peer, Ghost(self.lock.pred())),
            self.lock,
        )
    }

    /// `peer` can be found under the lock.
    pub open spec fn admits(&self, peer: UnboundedPeerReceiver) -> bool {
        &&& peer.wf()
        &&& reached(self.made_with(), peer)
    }

    /// `peer` is what was under the lock when `guard` came to hold it.
    pub closed spec fn gave(&self, peer: UnboundedPeerReceiver, guard: PeerGuard) -> bool {
        call_ensures(
            RwLock::<UnboundedPeerReceiver, SharedPeer>::acquire_write,
            (&self.lock,),
            (peer, guard.handle),
        )
    }

    /// Waits until nobody else holds the lock, and holds it.
    pub fn acquire(&self, session: &mut PeerSession) -> (found: (
        UnboundedPeerReceiver,
        PeerGuard<'_>,
    ))
        requires
            old(session).lock() == *self,
            !old(session).holds(),
        ensures
            self.admits(found.0),
            found.1.lock() == *self,
            self.gave(found.0, found.1),
            final(session).lock() == old(session).lock(),
            final(session).handle() == old(session).handle(),
            final(session).uses() == old(session).uses().push(PeerUse::Found(found.0)),
    {
        let acquire_write = RwLock::<UnboundedPeerReceiver, SharedPeer>::acquire_write;
        let (peer, handle) = acquire_write(&self.lock);
        session.uses = Ghost(session.uses@.push(PeerUse::Found(peer)));
        (peer, PeerGuard { handle })
    }
}

impl<'a> PeerGuard<'a> {
    /// The lock that the guard holds.
    pub closed spec fn lock(&self) -> PeerLock {
        PeerLock { lock: self.handle.rwlock() }
    }

    /// `peer` is what was put under the lock when the guard let go of it.
    pub closed spec fn gave_back(&self, peer: UnboundedPeerReceiver) -> bool {
        call_ensures(
            WriteHandle::<'a, UnboundedPeerReceiver, SharedPeer>::release_write,
            (self.handle, peer),
            (),
        )
    }

    /// Puts `peer` back, and lets go of the lock.
    pub fn release(self, peer: UnboundedPeerReceiver, session: &mut PeerSession)
        requires
            old(session).lock() == self.lock(),
            self.lock().admits(peer),
        ensures
            final(session).lock() == old(session).lock(),
            final(session).handle() == old(session).handle(),
            final(session).uses() == old(session).uses().push(PeerUse::Left(peer)),
            self.gave_back(peer),
    {
        session.uses = Ghost(session.uses@.push(PeerUse::Left(peer)));
        let release_write = WriteHandle::<'a, UnboundedPeerReceiver, SharedPeer>::release_write;
        release_write(self.handle, peer);
    }
}

impl PeerSession {
    /// The lock that is used.
    pub closed spec fn lock(&self) -> PeerLock {
        self.lock@
    }

    /// The name of the handle that opened the session.
    pub closed spec fn handle(&self) -> Seq<nat> {
        self.handle@
    }

    /// What was done with the lock, in order.
    pub closed spec fn uses(&self) -> Seq<PeerUse> {
        self.uses@
    }

    /// The lock was not let go of yet.
    pub open spec fn holds(&self) -> bool {
        self.uses().len() > 0 && self.uses().last() is Found
    }
}

impl PeerHandle {
    /// The lock that this is a way to.
    pub closed spec fn lock(&self) -> PeerLock {
        *self.lock
    }

    /// What tells this handle from the others on the lock: which one it is of those that were made
    /// from the one that it was made from, and so on back to the first.
    pub closed spec fn name(&self) -> Seq<nat> {
        self.name@
    }

    /// How many other handles on the lock were made from this one.
    pub closed spec fn handed_out(&self) -> nat {
        self.handed_out@
    }

    /// How many sessions were opened.
    pub closed spec fn opened(&self) -> nat {
        self.opened@
    }

    /// What was done with the lock in each session that was closed, in order.
    pub closed spec fn sessions(&self) -> Seq<Seq<PeerUse>> {
        self.sessions@
    }

    /// Every session that was opened was closed.
    pub open spec fn idle(&self) -> bool {
        self.opened() == self.sessions().len()
    }

    /// Nothing was done with this handle yet.
    pub open spec fn unused(&self) -> bool {
        &&& self.opened() == 0
        &&& self.sessions() == Seq::<Seq<PeerUse>>::empty()
    }

    /// The first handle on a new lock, around `peer`.
    pub fn new(peer: UnboundedPeerReceiver) -> (handle: PeerHandle)
        requires
            peer.wf(),
        ensures
            handle.lock().made_with() == peer,
            handle.lock().started_with(peer),
            handle.name() == Seq::<nat>::empty(),
            handle.handed_out() == 0,
            handle.unused(),
    {
        proof {
            start_is_reached(peer);
        }
        let ghost shared = SharedPeer { made_with: Ghost(peer) };
        let new_lock = RwLock::<UnboundedPeerReceiver, SharedPeer>::new;
        let lock = new_lock(peer, Ghost(shared));
        PeerHandle {
            lock: Arc::new(PeerLock { lock }),
            name: Ghost(Seq::empty()),
            handed_out: Ghost(0),
            opened: Ghost(0),
            sessions: Ghost(Seq::empty()),
        }
    }

    /// Another handle on the same lock.
    pub fn another(&mut self) -> (handle: PeerHandle)
        ensures
            handle.lock() == old(self).lock(),
            handle.name() == old(self).name().push(old(self).handed_out()),
            handle.handed_out() == 0,
            handle.unused(),
            final(self).lock() == old(self).lock(),
            final(self).name() == old(self).name(),
            final(self).handed_out() == old(self).handed_out() + 1,
            final(self).opened() == old(self).opened(),
            final(self).sessions() == old(self).sessions(),
    {
        let ghost name = self.name@.push(self.handed_out@);
        self.handed_out = Ghost(self.handed_out@ + 1);
        PeerHandle {
            lock: self.lock.clone(),
            name: Ghost(name),
            handed_out: Ghost(0),
            opened: Ghost(0),
            sessions: Ghost(Seq::empty()),
        }
    }

    /// The lock.
    pub fn peer(&self) -> (lock: &PeerLock)
        ensures
            *lock == self.lock(),
    {
        &self.lock
    }

    /// Opens a session, which is then the only one that is open.
    pub fn open(&mut self) -> (session: PeerSession)
        requires
            old(self).idle(),
        ensures
            session.lock() == old(self).lock(),
            session.handle() == old(self).name(),
            session.uses() == Seq::<PeerUse>::empty(),
            final(self).lock() == old(self).lock(),
            final(self).name() == old(self).name(),
            final(self).handed_out() == old(self).handed_out(),
            final(self).opened() == old(self).opened() + 1,
            final(self).sessions() == old(self).sessions(),
    {
        self.opened = Ghost(self.opened@ + 1);
        PeerSession {
            lock: Ghost(self.lock()),
            handle: Ghost(self.name@),
            uses: Ghost(Seq::empty()),
        }
    }

    /// Closes a session of this handle.
    pub fn close(&mut self, session: PeerSession)
        requires
            session.lock() == old(self).lock(),
            session.handle() == old(self).name(),
            !session.holds(),
        ensures
            final(self).lock() == old(self).lock(),
            final(self).name() == old(self).name(),
            final(self).handed_out() == old(self).handed_out(),
            final(self).opened() == old(self).opened(),
            final(self).sessions() == old(self).sessions().push(session.uses()),
    {
        self.sessions = Ghost(self.sessions@.push(session.uses@));
    }
}

/// The peer that is given is what is put under the lock, and nothing else.
proof fn given_peer_is_put_under_the_lock(peer: UnboundedPeerReceiver, handle: PeerHandle)
    requires
        call_ensures(PeerHandle::new, (peer,), handle),
    ensures
        call_ensures(
            RwLock::<UnboundedPeerReceiver, SharedPeer>::new,
            (peer, Ghost(handle.lock().lock.pred())),
            handle.lock().lock,
        ),
        handle.lock().made_with() == peer,
        handle.handed_out() == 0,
        handle.opened() == 0,
        handle.sessions().len() == 0,
{
}

/// What is found is what the lock gave, and nothing else.
proof fn found_is_what_the_lock_gave(
    lock: &PeerLock,
    session: &mut PeerSession,
    found: (UnboundedPeerReceiver, PeerGuard<'_>),
)
    requires
        call_ensures(PeerLock::acquire, (lock, session), found),
    ensures
        call_ensures(
            RwLock::<UnboundedPeerReceiver, SharedPeer>::acquire_write,
            (&lock.lock,),
            (found.0, found.1.handle),
        ),
        final(session).uses() == old(session).uses().push(PeerUse::Found(found.0)),
{
}

/// What is left is what was put under the lock, and nothing else.
proof fn left_is_what_was_put_back(
    guard: PeerGuard<'_>,
    peer: UnboundedPeerReceiver,
    session: &mut PeerSession,
)
    requires
        call_ensures(PeerGuard::release, (guard, peer, session), ()),
    ensures
        call_ensures(
            WriteHandle::<'_, UnboundedPeerReceiver, SharedPeer>::release_write,
            (guard.handle, peer),
            (),
        ),
        final(session).uses() == old(session).uses().push(PeerUse::Left(peer)),
{
}

} // verus!
