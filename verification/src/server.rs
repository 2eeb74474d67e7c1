//! The connection acceptor: what it decides for every connection, and
//! the queue by which it hands ready sessions to the simulation.
//!
//! The sockets, the handshakes and the waiting are the caller's. It tells
//! the acceptor what happened, one event at a time, and does what the
//! acceptor answers.

use std::collections::VecDeque;
use vstd::prelude::*;

verus! {

/// The name that the caller gives to one inbound connection.
#[derive(Clone, Copy, Debug, PartialEq, Eq, Hash, Structural)]
pub struct ConnectionId(pub u64);

/// What the caller reports to the acceptor.
#[derive(Clone, Copy, Debug, PartialEq, Eq, Structural)]
pub enum AcceptorEvent {
    /// A raw connection arrived at the listening endpoint.
    Incoming(ConnectionId),
    /// The handshake with a connection succeeded.
    HandshakeSucceeded(ConnectionId),
    /// The handshake with a connection failed.
    HandshakeFailed(ConnectionId),
    /// The shutdown signal was raised.
    Cancel,
    /// The simulation asks for a ready session.
    Poll,
}

/// What the acceptor tells the caller to do.
#[derive(Clone, Copy, Debug, PartialEq, Eq, Structural)]
pub enum AcceptorAction {
    /// Run the handshake with this connection in a task of its own.
    StartHandshake(ConnectionId),
    /// Drop this connection: it is not admitted.
    Refuse(ConnectionId),
    /// The session of this connection is in the handoff queue.
    Published(ConnectionId),
    /// Drop this connection and log that its handshake failed.
    LogFailure(ConnectionId),
    /// Drop this connection without a word: a handshake that fails after
    /// the shutdown signal is expected.
    Swallow(ConnectionId),
    /// Stop admitting raw connections.
    StopListening,
    /// Hand this session to the simulation.
    Deliver(ConnectionId),
    /// There is nothing to do.
    Nothing,
}

/// The mathematical state of an acceptor.
pub struct AcceptorView {
    /// The shutdown signal was raised.
    pub cancelled: bool,
    /// The connections whose handshake is in flight.
    pub handshaking: Seq<ConnectionId>,
    /// The handoff queue, oldest session first.
    pub ready: Seq<ConnectionId>,
}

/// The test for connections other than `id`.
pub open spec fn other_than(id: ConnectionId) -> spec_fn(ConnectionId) -> bool {
    |other: ConnectionId| other != id
}

impl AcceptorView {
    /// The acceptor that listens, with no connection in sight.
    pub open spec fn listening() -> AcceptorView {
        AcceptorView { cancelled: false, handshaking: Seq::empty(), ready: Seq::empty() }
    }

    /// Whether the acceptor knows the connection `id`.
    pub open spec fn knows(self, id: ConnectionId) -> bool {
        self.handshaking.contains(id) || self.ready.contains(id)
    }

    /// The state after an event.
    pub open spec fn step(self, event: AcceptorEvent) -> AcceptorView {
        match event {
            AcceptorEvent::Incoming(id) => if self.cancelled || self.knows(id) {
                self
            } else {
                AcceptorView { handshaking: self.handshaking.push(id), ..self }
            },
            AcceptorEvent::HandshakeSucceeded(id) => if self.handshaking.contains(id) {
                AcceptorView {
                    handshaking: self.handshaking.filter(other_than(id)),
                    ready: self.ready.push(id),
                    ..self
                }
            } else {
                self
            },
            AcceptorEvent::HandshakeFailed(id) => AcceptorView {
                handshaking: self.handshaking.filter(other_than(id)),
                ..self
            },
            AcceptorEvent::Cancel => AcceptorView { cancelled: true, ..self },
            AcceptorEvent::Poll => if self.ready.len() > 0 {
                AcceptorView { ready: self.ready.skip(1), ..self }
            } else {
                self
            },
        }
    }

    /// What the acceptor answers to an event.
    pub open spec fn answer(self, event: AcceptorEvent) -> AcceptorAction {
        match event {
            AcceptorEvent::Incoming(id) => if self.cancelled || self.knows(id) {
                AcceptorAction::Refuse(id)
            } else {
                AcceptorAction::StartHandshake(id)
            },
            AcceptorEvent::HandshakeSucceeded(id) => if self.handshaking.contains(id) {
                AcceptorAction::Published(id)
            } else {
                AcceptorAction::Nothing
            },
            AcceptorEvent::HandshakeFailed(id) => if !self.handshaking.contains(id) {
                AcceptorAction::Nothing
            } else if self.cancelled {
                AcceptorAction::Swallow(id)
            } else {
                AcceptorAction::LogFailure(id)
            },
            AcceptorEvent::Cancel => if self.cancelled {
                AcceptorAction::Nothing
            } else {
                AcceptorAction::StopListening
            },
            AcceptorEvent::Poll => if self.ready.len() > 0 {
                AcceptorAction::Deliver(self.ready[0])
            } else {
                AcceptorAction::Nothing
            },
        }
    }

    /// The state after a series of events.
    pub open spec fn run(self, events: Seq<AcceptorEvent>) -> AcceptorView
        decreases events.len(),
    {
        if events.len() == 0 {
            self
        } else {
            self.run(events.drop_last()).step(events.last())
        }
    }
}

/// Accepts connections and hands the sessions that are ready to the
/// simulation.
#[derive(Debug)]
pub struct SilkroadServer {
    cancelled: bool,
    handshaking: Vec<ConnectionId>,
    ready: VecDeque<ConnectionId>,
}

impl View for SilkroadServer {
    type V = AcceptorView;

    closed spec fn view(&self) -> AcceptorView {
        AcceptorView {
            cancelled: self.cancelled,
            handshaking: self.handshaking@,
            ready: self.ready@,
        }
    }
}

/// Whether `id` is among `ids`.
fn contains(ids: &Vec<ConnectionId>, id: ConnectionId) -> (found: bool)
    ensures
        found == ids@.contains(id),
{
    let mut i: usize = 0;
    while i < ids.len()
        invariant
            i <= ids.len(),
            forall|k: int| 0 <= k < i ==> ids@[k] != id,
        decreases ids.len() - i,
    {
        if ids[i] == id {
            return true;
        }
        i += 1;
    }
    false
}

impl SilkroadServer {
    /// An acceptor that listens. It has seen no connection yet.
    pub fn new() -> (server: SilkroadServer)
        ensures
            server@ == AcceptorView::listening(),
    {
        SilkroadServer { cancelled: false, handshaking: Vec::new(), ready: VecDeque::new() }
    }

    /// Whether the shutdown signal was raised.
    pub fn is_cancelled(&self) -> (cancelled: bool)
        ensures
            cancelled == self@.cancelled,
    {
        self.cancelled
    }

    /// Whether the connection `id` is handshaking or waits in the queue.
    fn knows(&self, id: ConnectionId) -> (known: bool)
        ensures
            known == self@.knows(id),
    {
        if contains(&self.handshaking, id) {
            return true;
        }
        let mut i: usize = 0;
        while i < self.ready.len()
            invariant
                i <= self.ready.len(),
                forall|k: int| 0 <= k < i ==> self.ready@[k] != id,
            decreases self.ready.len() - i,
        {
            if self.ready[i] == id {
                return true;
            }
            i += 1;
        }
        false
    }

    /// Forgets the handshake of `id`.
    fn forget(&mut self, id: ConnectionId)
        ensures
            final(self)@ == (AcceptorView {
                handshaking: old(self)@.handshaking.filter(other_than(id)),
                ..old(self)@
            }),
    {
        let ghost all = self.handshaking@;
        let mut kept: Vec<ConnectionId> = Vec::new();
        let mut i: usize = 0;
        assert(all.take(0) =~= Seq::empty());
        assert(kept@ =~= all.take(0).filter(other_than(id)));
        while i < self.handshaking.len()
            invariant
                i <= self.handshaking.len(),
                all == self.handshaking@,
                kept@ == all.take(i as int).filter(other_than(id)),
            decreases self.handshaking.len() - i,
        {
            let other = self.handshaking[i];
            proof {
                all.lemma_take_succ_push(i as int);
                all.take(i as int).lemma_filter_push(other, other_than(id));
            }
            if other != id {
                kept.push(other);
            }
            i += 1;
        }
        assert(all.take(i as int) =~= all);
        self.handshaking = kept;
    }

    /// A raw connection arrived. It is admitted, and its handshake is to
    /// start, unless the shutdown signal was raised or a connection of
    /// the same name is still under way.
    pub fn incoming(&mut self, id: ConnectionId) -> (action: AcceptorAction)
        ensures
            final(self)@ == old(self)@.step(AcceptorEvent::Incoming(id)),
            action == old(self)@.answer(AcceptorEvent::Incoming(id)),
    {
        if self.cancelled || self.knows(id) {
            AcceptorAction::Refuse(id)
        } else {
            self.handshaking.push(id);
            AcceptorAction::StartHandshake(id)
        }
    }

    /// The handshake with `id` succeeded: its session goes to the end of
    /// the handoff queue.
    pub fn handshake_succeeded(&mut self, id: ConnectionId) -> (action: AcceptorAction)
        ensures
            final(self)@ == old(self)@.step(AcceptorEvent::HandshakeSucceeded(id)),
            action == old(self)@.answer(AcceptorEvent::HandshakeSucceeded(id)),
    {
        if contains(&self.handshaking, id) {
            self.forget(id);
            self.ready.push_back(id);
            AcceptorAction::Published(id)
        } else {
            AcceptorAction::Nothing
        }
    }

    /// The handshake with `id` failed: the connection is dropped and
    /// nothing of it reaches the queue.
    pub fn handshake_failed(&mut self, id: ConnectionId) -> (action: AcceptorAction)
        ensures
            final(self)@ == old(self)@.step(AcceptorEvent::HandshakeFailed(id)),
            action == old(self)@.answer(AcceptorEvent::HandshakeFailed(id)),
    {
        let known = contains(&self.handshaking, id);
        self.forget(id);
        if !known {
            AcceptorAction::Nothing
        } else if self.cancelled {
            AcceptorAction::Swallow(id)
        } else {
            AcceptorAction::LogFailure(id)
        }
    }

    /// Raises the shutdown signal. It is never taken back.
    pub fn shutdown(&mut self) -> (action: AcceptorAction)
        ensures
            final(self)@ == old(self)@.step(AcceptorEvent::Cancel),
            action == old(self)@.answer(AcceptorEvent::Cancel),
    {
        let first = !self.cancelled;
        self.cancelled = true;
        if first {
            AcceptorAction::StopListening
        } else {
            AcceptorAction::Nothing
        }
    }

    /// The oldest session that is ready, if there is one. The call never
    /// waits.
    pub fn connected(&mut self) -> (session: Option<ConnectionId>)
        ensures
            final(self)@ == old(self)@.step(AcceptorEvent::Poll),
            session == match old(self)@.answer(AcceptorEvent::Poll) {
                AcceptorAction::Deliver(id) => Some(id),
                _ => None,
            },
    {
        let session = self.ready.pop_front();
        assert(self.ready@ =~= if old(self).ready@.len() > 0 {
            old(self).ready@.skip(1)
        } else {
            old(self).ready@
        });
        session
    }

    /// Takes one event and answers it.
    pub fn handle(&mut self, event: AcceptorEvent) -> (action: AcceptorAction)
        ensures
            final(self)@ == old(self)@.step(event),
            action == old(self)@.answer(event),
    {
        match event {
            AcceptorEvent::Incoming(id) => self.incoming(id),
            AcceptorEvent::HandshakeSucceeded(id) => self.handshake_succeeded(id),
            AcceptorEvent::HandshakeFailed(id) => self.handshake_failed(id),
            AcceptorEvent::Cancel => self.shutdown(),
            AcceptorEvent::Poll => match self.connected() {
                Some(id) => AcceptorAction::Deliver(id),
                None => AcceptorAction::Nothing,
            },
        }
    }
}


/// A session enters the handoff queue in one way only: by the success of
/// a handshake that was in flight. Nothing else adds to the queue, and a
/// poll takes the oldest session and no other.
pub proof fn lemma_only_handshakes_publish(state: AcceptorView, event: AcceptorEvent)
    ensures
        match event {
            AcceptorEvent::HandshakeSucceeded(id) if state.handshaking.contains(id) => state.step(
                event,
            ).ready == state.ready.push(id),
            AcceptorEvent::Poll if state.ready.len() > 0 => state.step(event).ready
                == state.ready.skip(1),
            _ => state.step(event).ready == state.ready,
        },
{
}

/// Once raised, the shutdown signal stays raised, and no connection is
/// admitted any more: every handshake that is in flight afterwards was in
/// flight before.
pub proof fn lemma_cancel_admits_nothing(state: AcceptorView, events: Seq<AcceptorEvent>)
    requires
        state.cancelled,
    ensures
        state.run(events).cancelled,
        forall|id: ConnectionId| #[trigger]
            state.run(events).handshaking.contains(id) ==> state.handshaking.contains(id),
        forall|id: ConnectionId| #[trigger]
            state.run(events).ready.contains(id) ==> state.knows(id),
        forall|id: ConnectionId|
            state.run(events).answer(AcceptorEvent::Incoming(id)) == AcceptorAction::Refuse(id),
    decreases events.len(),
{
    if events.len() > 0 {
        lemma_cancel_admits_nothing(state, events.drop_last());
        let before = state.run(events.drop_last());
        let after = state.run(events);
        assert(after == before.step(events.last()));
        assert forall|id: ConnectionId| #[trigger]
            after.handshaking.contains(id) implies state.handshaking.contains(id) by {
            match events.last() {
                AcceptorEvent::HandshakeSucceeded(gone) => {
                    if before.handshaking.contains(gone) {
                        before.handshaking.lemma_filter_contains_rev(other_than(gone), id);
                    }
                },
                AcceptorEvent::HandshakeFailed(gone) => {
                    before.handshaking.lemma_filter_contains_rev(other_than(gone), id);
                },
                _ => {},
            }
            assert(before.handshaking.contains(id));
        }
        assert forall|id: ConnectionId| #[trigger] after.ready.contains(id) implies state.knows(
            id,
        ) by {
            let k = choose|k: int| 0 <= k < after.ready.len() && after.ready[k] == id;
            match events.last() {
                AcceptorEvent::HandshakeSucceeded(done) => {
                    if before.handshaking.contains(done) {
                        if k < before.ready.len() {
                            assert(before.ready[k] == id);
                            assert(before.ready.contains(id));
                        } else {
                            assert(id == done);
                            assert(state.handshaking.contains(done));
                        }
                    } else {
                        assert(before.ready.contains(id));
                    }
                },
                AcceptorEvent::Poll => {
                    if before.ready.len() > 0 {
                        assert(before.ready[k + 1] == id);
                    }
                    assert(before.ready.contains(id));
                },
                _ => {
                    assert(before.ready.contains(id));
                },
            }
        }
    }
}

/// After the shutdown signal nothing is added to the handoff queue,
/// whatever connections arrive and whatever handshakes fail, as long as
/// no handshake that was in flight when the signal was raised succeeds.
/// The queue only loses what the simulation polls.
pub proof fn lemma_queue_closed_after_cancel(state: AcceptorView, events: Seq<AcceptorEvent>)
    requires
        state.cancelled,
        forall|k: int, id: ConnectionId|
            0 <= k < events.len() && events[k] == AcceptorEvent::HandshakeSucceeded(id)
                ==> !state.handshaking.contains(id),
    ensures
        exists|polled: int|
            0 <= polled <= state.ready.len() && state.run(events).ready == #[trigger] state.ready.skip(
                polled,
            ),
    decreases events.len(),
{
    if events.len() == 0 {
        assert(state.ready == state.ready.skip(0));
    } else {
        let earlier = events.drop_last();
        assert forall|k: int, id: ConnectionId|
            0 <= k < earlier.len() && earlier[k] == AcceptorEvent::HandshakeSucceeded(
                id,
            ) implies !state.handshaking.contains(id) by {
            assert(events[k] == earlier[k]);
        }
        lemma_queue_closed_after_cancel(state, earlier);
        lemma_cancel_admits_nothing(state, earlier);
        let before = state.run(earlier);
        let polled = choose|polled: int|
            0 <= polled <= state.ready.len() && before.ready == #[trigger] state.ready.skip(polled);
        match events.last() {
            AcceptorEvent::HandshakeSucceeded(id) => {
                assert(events[events.len() - 1] == AcceptorEvent::HandshakeSucceeded(id));
                assert(!before.handshaking.contains(id));
                assert(state.run(events).ready == state.ready.skip(polled));
            },
            AcceptorEvent::Poll => {
                if before.ready.len() > 0 {
                    assert(state.ready.skip(polled).skip(1) =~= state.ready.skip(polled + 1));
                    assert(state.run(events).ready == state.ready.skip(polled + 1));
                } else {
                    assert(state.run(events).ready == state.ready.skip(polled));
                }
            },
            _ => {
                assert(state.run(events).ready == state.ready.skip(polled));
            },
        }
    }
}

} // verus!
