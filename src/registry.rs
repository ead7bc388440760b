//! The registry of live connections: each identifier maps to the sending
//! half of that connection's outbound queue.
use vstd::prelude::*;
use crate::queue::{enqueue, QueueSender};

verus! {

/// How far a message is fanned out.
#[derive(Clone, Copy, Debug, PartialEq, Eq, Structural)]
pub enum Recipient {
    /// Every connection registered when the message is dispatched.
    All,
    /// The one connection with this identifier, if it is registered.
    User(u128),
}

/// One registered connection.
pub struct Entry {
    pub id: u128,
    pub tx: QueueSender,
}

/// The outcome of handing a message to one connection's queue.
#[derive(Clone, Copy, Debug, PartialEq, Eq, Structural)]
pub struct Delivery {
    pub id: u128,
    /// `false` when the connection's writer had already gone.
    pub accepted: bool,
}

/// The connections a message for `recipient` is handed to, given the
/// identifiers registered, in registry order.
pub open spec fn targets(ids: Seq<u128>, recipient: Recipient) -> Seq<u128> {
    match recipient {
        Recipient::All => ids,
        Recipient::User(id) => if ids.contains(id) {
            seq![id]
        } else {
            Seq::empty()
        },
    }
}

/// The identifiers of a list of deliveries.
pub open spec fn delivered_ids(d: Seq<Delivery>) -> Seq<u128> {
    d.map_values(|x: Delivery| x.id)
}

/// Relies on uuid::Uuid::new_v4, read as an integer by Uuid::as_u128: a
/// random identifier. Being random, nothing is promised of it.
#[verifier::external_body]
fn draw_id() -> (r: u128) {
    uuid::Uuid::new_v4().as_u128()
}

/// Removing one entry of a sequence without duplicates removes exactly its
/// value from the set of values, and leaves no duplicates.
proof fn lemma_remove_unique(s: Seq<u128>, i: int)
    requires
        s.no_duplicates(),
        0 <= i < s.len(),
    ensures
        s.remove(i).no_duplicates(),
        s.remove(i).to_set() == s.to_set().remove(s[i]),
{
    let r = s.remove(i);
    assert forall|a: int, b: int| 0 <= a < b < r.len() implies r[a] != r[b] by {
        let a2 = if a < i { a } else { a + 1 };
        let b2 = if b < i { b } else { b + 1 };
        assert(r[a] == s[a2] && r[b] == s[b2]);
    }
    assert forall|k: u128| r.to_set().contains(k) <==> s.to_set().remove(s[i]).contains(k) by {
        if r.contains(k) {
            let j = choose|j: int| 0 <= j < r.len() && r[j] == k;
            let j2 = if j < i { j } else { j + 1 };
            assert(s[j2] == k);
        }
        if s.contains(k) && k != s[i] {
            let j = choose|j: int| 0 <= j < s.len() && s[j] == k;
            assert(j != i);
            let j2 = if j < i { j } else { j - 1 };
            assert(r[j2] == k);
        }
    }
    assert(r.to_set() =~= s.to_set().remove(s[i]));
}

/// The live connections, in the order they registered.
pub struct Registry {
    entries: Vec<Entry>,
}

impl Registry {
    /// The registered identifiers, oldest first.
    pub closed spec fn ids(&self) -> Seq<u128> {
        self.entries@.map_values(|e: Entry| e.id)
    }

    /// The sending halves of the registered queues, in the order of `ids`.
    pub closed spec fn senders(&self) -> Seq<QueueSender> {
        self.entries@.map_values(|e: Entry| e.tx)
    }

    /// The registered identifiers as a set.
    pub open spec fn keys(&self) -> Set<u128> {
        self.ids().to_set()
    }

    /// No identifier is registered twice, and each has one sender.
    pub open spec fn wf(&self) -> bool {
        &&& self.ids().no_duplicates()
        &&& self.senders().len() == self.ids().len()
    }

    /// An empty registry.
    pub fn new() -> (r: Registry)
        ensures
            r.wf(),
            r.ids() == Seq::<u128>::empty(),
    {
        Registry { entries: Vec::new() }
    }

    /// The number of registered connections.
    pub fn len(&self) -> (r: usize)
        ensures
            r == self.ids().len(),
    {
        self.entries.len()
    }

    /// The position of `id` in the registry, if it is registered.
    fn position(&self, id: u128) -> (r: Option<usize>)
        ensures
            r is Some <==> self.ids().contains(id),
            r matches Some(i) ==> i < self.ids().len() && self.ids()[i as int] == id,
    {
        let mut i: usize = 0;
        while i < self.entries.len()
            invariant
                i <= self.entries.len(),
                forall|j: int| 0 <= j < i ==> self.ids()[j] != id,
            decreases self.entries.len() - i,
        {
            if self.entries[i].id == id {
                assert(self.ids()[i as int] == id);
                return Some(i);
            }
            i = i + 1;
        }
        proof {
            if self.ids().contains(id) {
                let j = choose|j: int| 0 <= j < self.ids().len() && self.ids()[j] == id;
                assert(self.ids()[j] != id);
            }
        }
        None
    }

    /// Whether `id` is registered.
    pub fn contains(&self, id: u128) -> (r: bool)
        ensures
            r == self.keys().contains(id),
    {
        self.position(id).is_some()
    }

    /// Registers `tx` as the queue of connection `id`. An identifier that is
    /// already registered keeps its entry, and `false` is returned.
    pub fn insert(&mut self, id: u128, tx: QueueSender) -> (r: bool)
        requires
            old(self).wf(),
        ensures
            final(self).wf(),
            r == !old(self).keys().contains(id),
            r ==> final(self).ids() == old(self).ids().push(id),
            r ==> final(self).senders() == old(self).senders().push(tx),
            !r ==> final(self).ids() == old(self).ids(),
            !r ==> final(self).senders() == old(self).senders(),
            final(self).keys() == old(self).keys().insert(id),
    {
        if self.contains(id) {
            assert(self.keys() =~= self.keys().insert(id));
            return false;
        }
        self.entries.push(Entry { id, tx });
        proof {
            assert(self.ids() =~= old(self).ids().push(id));
            assert(self.senders() =~= old(self).senders().push(tx));
            let before = old(self).ids();
            assert forall|k: u128| #[trigger]
                self.ids().contains(k) <==> before.contains(k) || k == id by {
                if self.ids().contains(k) {
                    let j = choose|j: int| 0 <= j < self.ids().len() && self.ids()[j] == k;
                    if j < before.len() {
                        assert(before[j] == k);
                    }
                }
                if before.contains(k) {
                    let j = choose|j: int| 0 <= j < before.len() && before[j] == k;
                    assert(self.ids()[j] == k);
                }
                assert(self.ids()[before.len() as int] == id);
            }
            assert(self.keys() =~= old(self).keys().insert(id));
            assert(self.ids().no_duplicates());
        }
        true
    }

    /// Registers `tx` under a newly drawn random identifier and returns it.
    /// Should the draw hit an identifier that is already registered, nothing
    /// changes and that identifier comes back as the error.
    pub fn register_new(&mut self, tx: QueueSender) -> (r: Result<u128, u128>)
        requires
            old(self).wf(),
        ensures
            final(self).wf(),
            r matches Ok(id) ==> !old(self).keys().contains(id) && final(self).ids() == old(
                self,
            ).ids().push(id) && final(self).senders() == old(self).senders().push(tx),
            r matches Err(id) ==> old(self).keys().contains(id) && final(self).ids() == old(
                self,
            ).ids() && final(self).senders() == old(self).senders(),
    {
        let id = draw_id();
        if self.insert(id, tx) {
            Ok(id)
        } else {
            Err(id)
        }
    }

    /// Removes the entry of connection `id`, if there is one; returns whether
    /// there was.
    pub fn remove(&mut self, id: u128) -> (r: bool)
        requires
            old(self).wf(),
        ensures
            final(self).wf(),
            r == old(self).keys().contains(id),
            final(self).keys() == old(self).keys().remove(id),
            r ==> exists|i: int|
                0 <= i < old(self).ids().len() && old(self).ids()[i] == id && final(self).ids()
                    == old(self).ids().remove(i) && final(self).senders() == old(
                    self,
                ).senders().remove(i),
            !r ==> final(self).ids() == old(self).ids(),
            !r ==> final(self).senders() == old(self).senders(),
    {
        match self.position(id) {
            None => {
                proof {
                    assert(self.keys() =~= self.keys().remove(id));
                }
                false
            },
            Some(i) => {
                let ghost before = self.ids();
                self.entries.remove(i);
                proof {
                    assert(self.ids() =~= before.remove(i as int));
                    assert(self.senders() =~= old(self).senders().remove(i as int));
                    lemma_remove_unique(before, i as int);
                }
                true
            },
        }
    }

    /// The positions of the entries that `recipient` names, in registry
    /// order.
    pub fn target_positions(&self, recipient: Recipient) -> (r: Vec<usize>)
        ensures
            r@.len() == targets(self.ids(), recipient).len(),
            forall|k: int|
                0 <= k < r@.len() ==> #[trigger] r@[k] < self.ids().len() && self.ids()[r@[k] as int]
                    == targets(self.ids(), recipient)[k],
    {
        let mut out: Vec<usize> = Vec::new();
        match recipient {
            Recipient::All => {
                let mut i: usize = 0;
                while i < self.entries.len()
                    invariant
                        i <= self.entries.len(),
                        out@.len() == i,
                        forall|k: int| 0 <= k < i ==> out@[k] == k,
                    decreases self.entries.len() - i,
                {
                    out.push(i);
                    i = i + 1;
                }
            },
            Recipient::User(id) => {
                if let Some(i) = self.position(id) {
                    out.push(i);
                }
            },
        }
        out
    }

    /// Hands a copy of `payload` to the queue of every connection that
    /// `recipient` names, and reports for each whether its queue took it.
    /// A queue whose writer has gone is skipped; the others are still served.
    /// Each payload goes to the queue of the entry it is reported for
    /// (`send_to`), at the positions `target_positions` gives.
    pub fn dispatch(&self, payload: &Vec<u8>, recipient: Recipient) -> (r: Vec<Delivery>)
        ensures
            delivered_ids(r@) == targets(self.ids(), recipient),
    {
        let positions = self.target_positions(recipient);
        let ghost goal = targets(self.ids(), recipient);
        let mut out: Vec<Delivery> = Vec::new();
        let mut k: usize = 0;
        assert(delivered_ids(out@) =~= goal.subrange(0, 0));
        while k < positions.len()
            invariant
                k <= positions.len(),
                goal == targets(self.ids(), recipient),
                positions@.len() == goal.len(),
                forall|j: int|
                    0 <= j < positions@.len() ==> #[trigger] positions@[j] < self.ids().len() && self.ids()[
                    positions@[j] as int] == goal[j],
                delivered_ids(out@) == goal.subrange(0, k as int),
            decreases positions.len() - k,
        {
            let p = positions[k];
            assert(p == positions@[k as int]);
            assert(self.ids().len() == self.entries@.len());
            assert(self.ids()[p as int] == self.entries@[p as int].id);
            let d = send_to(&self.entries[p], payload);
            let ghost prev = out@;
            out.push(d);
            proof {
                assert(delivered_ids(prev).len() == k);
                assert forall|j: int| 0 <= j < k + 1 implies delivered_ids(out@)[j] == goal[j] by {
                    assert(delivered_ids(out@)[j] == out@[j].id);
                    if j < k {
                        assert(delivered_ids(prev)[j] == prev[j].id);
                        assert(delivered_ids(prev)[j] == goal.subrange(0, k as int)[j]);
                    }
                }
                assert(delivered_ids(out@) =~= goal.subrange(0, k + 1));
            }
            k = k + 1;
        }
        proof {
            assert(goal.subrange(0, k as int) =~= goal);
        }
        out
    }
}

/// Hands a copy of `payload` to the queue of `entry` and reports, under that
/// entry's identifier, whether the queue took it.
fn send_to(entry: &Entry, payload: &Vec<u8>) -> (d: Delivery)
    ensures
        d.id == entry.id,
{
    let accepted = enqueue(&entry.tx, payload.clone());
    Delivery { id: entry.id, accepted }
}

} // verus!
