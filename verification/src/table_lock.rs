//! The lock around the table of data channels.
//!
//! The lock is held in a [`TableSession`], which only a [`TableHandle`] on it can open, one at a
//! time, and which keeps a log of what was found and what was left under the lock. A handle counts
//! the sessions that it opened and the other handles that were made from it, and keeps the logs of
//! the sessions that were closed.
use crate::tx_table::TxTable;
use parking_lot::Mutex;
use parking_lot::MutexGuard;
use std::sync::Arc;
use vstd::prelude::*;

verus! {

/// `parking_lot::Mutex`, by the path under which it is defined. A value stands for the lock itself,
/// not for what it protects.
#[verifier::external_type_specification]
#[verifier::external_body]
#[verifier::reject_recursive_types(R)]
#[verifier::reject_recursive_types(T)]
pub struct ExMutex<R, T: ?Sized>(parking_lot::lock_api::Mutex<R, T>);

/// `parking_lot::RawMutex`, the kind of lock that a `parking_lot::Mutex` is.
#[verifier::external_type_specification]
#[verifier::external_body]
pub struct ExRawMutex(parking_lot::RawMutex);

/// `parking_lot::MutexGuard`: the right to use the table, for as long as the guard lives. It is
/// wrapped because the guard's own type is bound by a trait of its crate, which cannot be declared.
#[verifier::external_body]
pub struct TableGuard<'a>(MutexGuard<'a, TxTable>);

/// The table that the lock was made with.
pub uninterp spec fn made_with(mutex: Mutex<TxTable>) -> TxTable;

/// The lock that the guard holds.
pub uninterp spec fn lock_of(guard: TableGuard) -> Mutex<TxTable>;

/// The table as the guard sees it.
pub uninterp spec fn held(guard: TableGuard) -> TxTable;

/// What was done with the lock.
pub ghost enum LockUse {
    /// It was held, and this table was found.
    Locked(TxTable),
    /// It was let go of, and this table was left.
    Unlocked(TxTable),
}

/// A time of using the lock.
pub struct TableSession {
    lock: Ghost<Mutex<TxTable>>,
    handle: Ghost<Seq<nat>>,
    uses: Ghost<Seq<LockUse>>,
}

/// A way to the lock.
pub struct TableHandle {
    mutex: Arc<Mutex<TxTable>>,
    name: Ghost<Seq<nat>>,
    handed_out: Ghost<nat>,
    opened: Ghost<nat>,
    sessions: Ghost<Seq<Seq<LockUse>>>,
}

impl TableSession {
    /// The lock that is used.
    pub closed spec fn lock(&self) -> Mutex<TxTable> {
        self.lock@
    }

    /// The name of the handle that opened the session.
    pub closed spec fn handle(&self) -> Seq<nat> {
        self.handle@
    }

    /// What was done with the lock, in order.
    pub closed spec fn uses(&self) -> Seq<LockUse> {
        self.uses@
    }

    /// The lock was not let go of yet.
    pub open spec fn holds(&self) -> bool {
        self.uses().len() > 0 && self.uses().last() is Locked
    }
}

impl TableHandle {
    /// The lock that this is a way to.
    pub closed spec fn lock(&self) -> Mutex<TxTable> {
        *self.mutex
    }

    /// What tells this handle from the others on the lock: which one it is of those that were made
    /// from the one that it was made from, and so on back to the first.
    pub closed spec fn name(&self) -> Seq<nat> {
        self.name@
    }

    /// How many other handles on the lock were made from this one.
    pub closed spec fn handed_out(&self) -> nat {
        self.handed_out@
    }

    /// How many sessions were opened.
    pub closed spec fn opened(&self) -> nat {
        self.opened@
    }

    /// What was done with the lock in each session that was closed, in order.
    pub closed spec fn sessions(&self) -> Seq<Seq<LockUse>> {
        self.sessions@
    }

    /// Every session that was opened was closed.
    pub open spec fn idle(&self) -> bool {
        self.opened() == self.sessions().len()
    }

    /// Nothing was done with this handle yet, and no other was made from it.
    pub open spec fn fresh(&self) -> bool {
        &&& self.handed_out() == 0
        &&& self.opened() == 0
        &&& self.sessions() == Seq::<Seq<LockUse>>::empty()
    }

    /// This handle after one other was made from it.
    pub open spec fn after_handing_out(&self, after: TableHandle) -> bool {
        &&& after.lock() == self.lock()
        &&& after.name() == self.name()
        &&& after.handed_out() == self.handed_out() + 1
        &&& after.opened() == self.opened()
        &&& after.sessions() == self.sessions()
    }

    /// The first handle on a new lock, around `table`.
    pub fn new(table: TxTable) -> (handle: TableHandle)
        ensures
            made_with(handle.lock()) == table,
            handle.name() == Seq::<nat>::empty(),
            handle.fresh(),
    {
        TableHandle {
            mutex: Arc::new(mutex_new(table)),
            name: Ghost(Seq::empty()),
            handed_out: Ghost(0),
            opened: Ghost(0),
            sessions: Ghost(Seq::empty()),
        }
    }

    /// Another handle on the same lock.
    pub fn another(&mut self) -> (handle: TableHandle)
        ensures
            handle.lock() == old(self).lock(),
            handle.name() == old(self).name().push(old(self).handed_out()),
            handle.fresh(),
            old(self).after_handing_out(*final(self)),
    {
        let ghost name = self.name@.push(self.handed_out@);
        self.handed_out = Ghost(self.handed_out@ + 1);
        TableHandle {
            mutex: self.mutex.clone(),
            name: Ghost(name),
            handed_out: Ghost(0),
            opened: Ghost(0),
            sessions: Ghost(Seq::empty()),
        }
    }

    /// The lock.
    pub fn mutex(&self) -> (mutex: &Mutex<TxTable>)
        ensures
            *mutex == self.lock(),
    {
        &self.mutex
    }

    /// Opens a session, which is then the only one that is open.
    pub fn open(&mut self) -> (session: TableSession)
        requires
            old(self).idle(),
        ensures
            session.lock() == old(self).lock(),
            session.handle() == old(self).name(),
            session.uses() == Seq::<LockUse>::empty(),
            final(self).lock() == old(self).lock(),
            final(self).name() == old(self).name(),
            final(self).handed_out() == old(self).handed_out(),
            final(self).opened() == old(self).opened() + 1,
            final(self).sessions() == old(self).sessions(),
    {
        self.opened = Ghost(self.opened@ + 1);
        TableSession {
            lock: Ghost(self.lock()),
            handle: Ghost(self.name@),
            uses: Ghost(Seq::empty()),
        }
    }

    /// Closes a session of this handle.
    pub fn close(&mut self, session: TableSession)
        requires
            session.lock() == old(self).lock(),
            session.handle() == old(self).name(),
            !session.holds(),
        ensures
            final(self).lock() == old(self).lock(),
            final(self).name() == old(self).name(),
            final(self).handed_out() == old(self).handed_out(),
            final(self).opened() == old(self).opened(),
            final(self).sessions() == old(self).sessions().push(session.uses()),
    {
        self.sessions = Ghost(self.sessions@.push(session.uses@));
    }
}

/// `parking_lot::Mutex::new`: a lock around `table`.
#[verifier::external_body]
fn mutex_new(table: TxTable) -> (mutex: Mutex<TxTable>)
    ensures
        made_with(mutex) == table,
{
    Mutex::new(table)
}

/// `parking_lot::Mutex::lock`: waits until nobody else holds the lock, and holds it. Nothing is
/// said of the table that is found there, as others may have changed it. Who already holds the lock
/// would wait forever. A session that holds it is kept out here, and a handle has no second session
/// to try it with, as [`TableHandle::open`] opens one only when the last one was closed. Whoever
/// holds the lock through another handle is waited for.
#[verifier::external_body]
pub(crate) fn mutex_lock<'a>(
    mutex: &'a Mutex<TxTable>,
    session: &mut TableSession,
) -> (guard: TableGuard<'a>)
    requires
        old(session).lock() == *mutex,
        !old(session).holds(),
    ensures
        lock_of(guard) == *mutex,
        final(session).lock() == old(session).lock(),
        final(session).handle() == old(session).handle(),
        final(session).uses() == old(session).uses().push(LockUse::Locked(held(guard))),
{
    TableGuard(mutex.lock())
}

/// `parking_lot::MutexGuard::deref_mut`: lends the table. What the borrower leaves there is what
/// the guard sees afterwards.
#[verifier::external_body]
pub(crate) fn guard_deref_mut<'b, 'a>(guard: &'b mut TableGuard<'a>) -> (table: &'b mut TxTable)
    ensures
        *table == held(*old(guard)),
        held(*final(guard)) == *final(table),
        lock_of(*final(guard)) == lock_of(*old(guard)),
{
    &mut guard.0
}

/// `parking_lot::MutexGuard::drop`: lets go of the lock, and leaves the table as the guard sees it.
#[verifier::external_body]
pub(crate) fn guard_drop(guard: TableGuard, session: &mut TableSession)
    requires
        old(session).lock() == lock_of(guard),
    ensures
        final(session).lock() == old(session).lock(),
        final(session).handle() == old(session).handle(),
        final(session).uses() == old(session).uses().push(LockUse::Unlocked(held(guard))),
{
    drop(guard.0)
}

} // verus!
