//! The broker that owns the registry outright: every change to it happens in
//! the broker's own task, and other tasks reach it only by events.
use vstd::prelude::*;
use crate::frame::{protocol_error_close_bytes, protocol_error_close_frame};
use crate::queue::{new_queue, QueueReceiver};
use crate::registry::{delivered_ids, targets, Delivery, Recipient, Registry};

verus! {

/// What the connection tasks tell the broker.
pub enum BrokerEvent {
    /// A connection finished its handshake and wants an outbound queue.
    NewConnection(u128),
    /// An encoded frame to be fanned out.
    Message(Vec<u8>, Recipient),
}

/// What the broker did with an event.
pub enum BrokerOutput {
    /// The connection was registered; its writer drains this queue.
    Registered(QueueReceiver),
    /// The identifier was already registered; nothing changed.
    AlreadyRegistered,
    /// The message was handed to these queues.
    Dispatched(Vec<Delivery>),
}

/// The message that tells connection `id` it is being dropped for a protocol
/// error: a close frame with status 1002, addressed to it alone.
pub fn protocol_error_notice(id: u128) -> (r: BrokerEvent)
    ensures
        r matches BrokerEvent::Message(p, Recipient::User(to)) && p@ == protocol_error_close_bytes()
            && to == id,
{
    BrokerEvent::Message(protocol_error_close_frame(), Recipient::User(id))
}

/// The broker and the registry it alone mutates.
pub struct Broker {
    registry: Registry,
}

impl Broker {
    /// The registered identifiers, oldest first.
    pub closed spec fn ids(&self) -> Seq<u128> {
        self.registry.ids()
    }

    /// The sending halves of the registered queues, in the order of `ids`.
    pub closed spec fn senders(&self) -> Seq<crate::queue::QueueSender> {
        self.registry.senders()
    }

    /// The registered identifiers as a set.
    pub open spec fn keys(&self) -> Set<u128> {
        self.ids().to_set()
    }

    /// The registry holds each identifier at most once.
    pub closed spec fn wf(&self) -> bool {
        self.registry.wf()
    }

    /// A broker with no connections.
    pub fn new() -> (r: Broker)
        ensures
            r.wf(),
            r.ids() == Seq::<u128>::empty(),
    {
        Broker { registry: Registry::new() }
    }

    /// The registry, for reading.
    pub fn registry(&self) -> (r: &Registry)
        ensures
            r.ids() == self.ids(),
            r.senders() == self.senders(),
            self.wf() ==> r.wf(),
    {
        &self.registry
    }

    /// Applies one event. A new connection gets a fresh queue unless its
    /// identifier is taken; a message goes to the queues its recipient names.
    pub fn handle_event(&mut self, event: BrokerEvent) -> (r: BrokerOutput)
        requires
            old(self).wf(),
        ensures
            final(self).wf(),
            event matches BrokerEvent::NewConnection(id) ==> final(self).keys() == old(
                self,
            ).keys().insert(id),
            match event {
                BrokerEvent::NewConnection(id) => if old(self).keys().contains(id) {
                    r is AlreadyRegistered && final(self).ids() == old(self).ids()
                        && final(self).senders() == old(self).senders()
                } else {
                    r is Registered && final(self).ids() == old(self).ids().push(id)
                        && final(self).senders().len() == old(self).senders().len() + 1
                        && final(self).senders().drop_last() == old(self).senders()
                },
                BrokerEvent::Message(_, recipient) => final(self).ids() == old(self).ids()
                    && final(self).senders() == old(self).senders() && (
                r matches BrokerOutput::Dispatched(d) && delivered_ids(d@) == targets(
                    old(self).ids(),
                    recipient,
                )),
            },
    {
        match event {
            BrokerEvent::NewConnection(id) => {
                if self.registry.contains(id) {
                    BrokerOutput::AlreadyRegistered
                } else {
                    let (tx, rx) = new_queue();
                    self.registry.insert(id, tx);
                    assert(self.senders().drop_last() =~= old(self).senders());
                    BrokerOutput::Registered(rx)
                }
            },
            BrokerEvent::Message(payload, recipient) => {
                BrokerOutput::Dispatched(self.registry.dispatch(&payload, recipient))
            },
        }
    }

    /// Applies a disconnect signal: the entry of `id` goes, if it is still
    /// there. Returns whether it was.
    pub fn handle_disconnect(&mut self, id: u128) -> (r: bool)
        requires
            old(self).wf(),
        ensures
            final(self).wf(),
            r == old(self).keys().contains(id),
            final(self).keys() == old(self).keys().remove(id),
            r ==> exists|i: int|
                0 <= i < old(self).ids().len() && old(self).ids()[i] == id && final(self).ids()
                    == old(self).ids().remove(i) && final(self).senders() == old(
                    self,
                ).senders().remove(i),
            !r ==> final(self).ids() == old(self).ids(),
            !r ==> final(self).senders() == old(self).senders(),
    {
        let r = self.registry.remove(id);
        proof {
            if r {
                let i = choose|i: int|
                    0 <= i < old(self).registry.ids().len() && old(self).registry.ids()[i] == id
                        && self.registry.ids() == old(self).registry.ids().remove(i)
                        && self.registry.senders() == old(self).registry.senders().remove(i);
                assert(old(self).ids()[i] == id);
            }
        }
        r
    }
}

} // verus!
