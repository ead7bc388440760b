//! Properties of the registry and of routing that hold over every run.
use vstd::prelude::*;
use crate::reader::{codec_is_prefix_stable, concat_chunks, read_run, FrameOutcome};
use crate::registry::{targets, Recipient, Registry};

verus! {

/// A change of membership, as the registry sees it.
pub enum Membership {
    Connect(u128),
    Disconnect(u128),
}

/// The registered identifiers after applying `ops` in order to `keys`: a
/// connect registers (`Registry::insert`, `Broker::handle_event`), a
/// disconnect removes (`Registry::remove`, `Broker::handle_disconnect`).
pub open spec fn apply_membership(keys: Set<u128>, ops: Seq<Membership>) -> Set<u128>
    decreases ops.len(),
{
    if ops.len() == 0 {
        keys
    } else {
        let next = match ops[0] {
            Membership::Connect(id) => keys.insert(id),
            Membership::Disconnect(id) => keys.remove(id),
        };
        apply_membership(next, ops.drop_first())
    }
}

/// No two entries of a well-formed registry share an identifier: it holds
/// exactly as many entries as distinct identifiers, each with one sender.
pub proof fn lemma_unique_entries(r: Registry)
    requires
        r.wf(),
    ensures
        r.ids().len() == r.keys().len(),
        r.senders().len() == r.keys().len(),
{
    r.ids().unique_seq_to_set();
}

/// Once a connection's teardown has removed its entry, it stays out of the
/// registry for any sequence of later connects and disconnects that does not
/// connect it again.
pub proof fn lemma_torn_down_stays_out(keys: Set<u128>, id: u128, ops: Seq<Membership>)
    requires
        forall|i: int| 0 <= i < ops.len() ==> ops[i] != Membership::Connect(id),
    ensures
        !apply_membership(keys.remove(id), ops).contains(id),
    decreases ops.len(),
{
    if ops.len() > 0 {
        let next = match ops[0] {
            Membership::Connect(x) => keys.remove(id).insert(x),
            Membership::Disconnect(x) => keys.remove(id).remove(x),
        };
        assert(next == next.insert(id).remove(id)) by {
            assert(next =~= next.insert(id).remove(id));
        }
        let rest = ops.drop_first();
        assert forall|i: int| 0 <= i < rest.len() implies rest[i] != Membership::Connect(id) by {
            assert(rest[i] == ops[i + 1]);
        }
        lemma_torn_down_stays_out(next.insert(id), id, rest);
    }
}

/// A broadcast reaches every registered connection, each exactly once, and
/// no connection that is not registered.
pub proof fn lemma_broadcast_reaches_all(r: Registry)
    requires
        r.wf(),
    ensures
        targets(r.ids(), Recipient::All).to_set() == r.keys(),
        targets(r.ids(), Recipient::All).no_duplicates(),
        targets(r.ids(), Recipient::All).len() == r.keys().len(),
{
    r.ids().unique_seq_to_set();
}

/// A direct message goes to its addressee alone, and only if it is
/// registered.
pub proof fn lemma_direct_message_single(r: Registry, id: u128)
    ensures
        targets(r.ids(), Recipient::User(id)).len() <= 1,
        forall|i: int|
            0 <= i < targets(r.ids(), Recipient::User(id)).len() ==> targets(
                r.ids(),
                Recipient::User(id),
            )[i] == id,
        targets(r.ids(), Recipient::User(id)).len() == 1 <==> r.keys().contains(id),
{
}

/// Disconnecting the same identifier twice leaves the registry as
/// disconnecting it once does.
pub proof fn lemma_disconnect_idempotent(keys: Set<u128>, id: u128)
    ensures
        apply_membership(keys, seq![Membership::Disconnect(id), Membership::Disconnect(id)])
            == apply_membership(keys, seq![Membership::Disconnect(id)]),
{
    let two = seq![Membership::Disconnect(id), Membership::Disconnect(id)];
    let one = seq![Membership::Disconnect(id)];
    assert(two.drop_first() =~= one);
    assert(one.drop_first() =~= Seq::<Membership>::empty());
    assert(keys.remove(id).remove(id) =~= keys.remove(id));
    assert(apply_membership(keys, one) == apply_membership(keys.remove(id), Seq::empty()));
    assert(apply_membership(keys.remove(id), one) == apply_membership(keys.remove(id).remove(id), Seq::empty()));
}

} // verus!

verus! {

/// Reading a stream piece by piece passes on what having all of it buffered
/// at once does.
proof fn lemma_read_run_buffered(
    codec: spec_fn(Seq<u8>) -> FrameOutcome,
    own: u128,
    pending: Seq<u8>,
    chunks: Seq<Seq<u8>>,
)
    requires
        codec_is_prefix_stable(codec),
    ensures
        read_run(codec, own, pending, chunks) == read_run(
            codec,
            own,
            pending + concat_chunks(chunks),
            Seq::empty(),
        ),
    decreases pending.len() + concat_chunks(chunks).len(), chunks.len(),
{
    let all = pending + concat_chunks(chunks);
    assert(codec(all) != codec(pending) ==> codec(pending) is NeedMoreData);
    match codec(pending) {
        FrameOutcome::Parsed { consumed, response, is_data, is_close } => {
            assert(0 < consumed <= pending.len());
            if !(response is Some && !is_data && is_close) {
                let rest = pending.subrange(consumed as int, pending.len() as int);
                lemma_read_run_buffered(codec, own, rest, chunks);
                assert(all.subrange(consumed as int, all.len() as int) =~= rest + concat_chunks(
                    chunks,
                ));
            }
        },
        FrameOutcome::NeedMoreData => {
            if chunks.len() == 0 {
                assert(all =~= pending);
            } else {
                lemma_read_run_buffered(codec, own, pending + chunks[0], chunks.drop_first());
                assert(pending + chunks[0] + concat_chunks(chunks.drop_first()) =~= all);
            }
        },
        FrameOutcome::Invalid => {},
    }
}

/// Partial-frame reassembly: however the stream is split into reads, the
/// reader passes on the same messages, in the same order. This holds for a
/// codec whose outcome depends on the buffered bytes alone
/// (`codec_is_prefix_stable`); a codec that keeps fragment state between
/// calls is outside what is shown here.
pub proof fn lemma_split_reads_agree(
    codec: spec_fn(Seq<u8>) -> FrameOutcome,
    own: u128,
    pending: Seq<u8>,
    a: Seq<Seq<u8>>,
    b: Seq<Seq<u8>>,
)
    requires
        codec_is_prefix_stable(codec),
        concat_chunks(a) == concat_chunks(b),
    ensures
        read_run(codec, own, pending, a) == read_run(codec, own, pending, b),
{
    lemma_read_run_buffered(codec, own, pending, a);
    lemma_read_run_buffered(codec, own, pending, b);
}

} // verus!
