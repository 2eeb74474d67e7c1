//! The simulation's end of a client connection.

use std::collections::VecDeque;
use vstd::prelude::*;

verus! {

/// The mathematical state of a session.
pub struct ClientView<P> {
    /// The decoded packets that wait for the simulation, oldest first.
    pub inbound: Seq<P>,
    /// How many sends have failed since the session began.
    pub failed_sends: nat,
}

/// A session as the systems see it: the packets that the client sent and
/// the tick has not consumed yet, and the record of sends that failed.
///
/// Sending is fire-and-forget. A send that fails is only counted; the one
/// place that acts on it is the disconnect check at the end of the tick.
#[derive(Debug)]
pub struct Client<P> {
    inbound: VecDeque<P>,
    failed_sends: u64,
}

impl<P> View for Client<P> {
    type V = ClientView<P>;

    closed spec fn view(&self) -> ClientView<P> {
        ClientView { inbound: self.inbound@, failed_sends: self.failed_sends as nat }
    }
}

impl<P> Client<P> {
    /// A session with nothing pending and no failure on record.
    pub fn new() -> (client: Client<P>)
        ensures
            client@ == (ClientView { inbound: Seq::<P>::empty(), failed_sends: 0 }),
    {
        Client { inbound: VecDeque::new(), failed_sends: 0 }
    }

    /// Queues a packet that the client sent, behind those that wait.
    pub fn receive(&mut self, packet: P)
        ensures
            final(self)@ == (ClientView {
                inbound: old(self)@.inbound.push(packet),
                ..old(self)@
            }),
    {
        self.inbound.push_back(packet);
    }

    /// Takes the oldest packet that waits, if there is one.
    pub fn next_packet(&mut self) -> (packet: Option<P>)
        ensures
            match packet {
                Some(packet) => old(self)@.inbound.len() > 0 && packet == old(self)@.inbound[0]
                    && final(self)@ == (ClientView {
                    inbound: old(self)@.inbound.skip(1),
                    ..old(self)@
                }),
                None => old(self)@.inbound.len() == 0 && final(self)@ == old(self)@,
            },
    {
        let packet = self.inbound.pop_front();
        assert(self.inbound@ =~= if old(self).inbound@.len() > 0 {
            old(self).inbound@.skip(1)
        } else {
            old(self).inbound@
        });
        packet
    }

    /// Records how a send went. A failure is counted, up to the largest
    /// count there is, and otherwise ignored for now; the packets that
    /// wait stay as they are.
    pub fn sent(&mut self, delivered: bool)
        ensures
            final(self)@ == (ClientView {
                failed_sends: if delivered || old(self)@.failed_sends == u64::MAX {
                    old(self)@.failed_sends
                } else {
                    old(self)@.failed_sends + 1
                },
                ..old(self)@
            }),
    {
        if !delivered && self.failed_sends < u64::MAX {
            self.failed_sends = self.failed_sends + 1;
        }
    }

    /// The disconnect check of the end of the tick: whether any send of
    /// this session has failed.
    pub fn is_disconnected(&self) -> (dead: bool)
        ensures
            dead == (self@.failed_sends > 0),
    {
        self.failed_sends > 0
    }
}

} // verus!
