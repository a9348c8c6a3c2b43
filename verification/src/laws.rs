//! What holds of a node over any number of steps and gossip rounds.

use crate::message::{MessageView, PayloadView};
use crate::node::{acknowledges, emitted, gossiped, outbox, stepped};
use crate::store::{adjacency_map, StoreView};
use vstd::prelude::*;

verus! {

/// Calls that follow one another add up: where each call of a run found the
/// counter as the call before it had left it, the run as a whole has emitted
/// all their envelopes, numbered without a gap from where the counter stood
/// at the start.
pub proof fn lemma_batches_compose(counters: Seq<usize>, batches: Seq<Seq<MessageView>>)
    requires
        counters.len() == batches.len() + 1,
        forall|k: int|
            0 <= k < batches.len() ==> emitted(counters[k], counters[k + 1], #[trigger] batches[k]),
    ensures
        emitted(counters.first(), counters.last(), batches.flatten()),
    decreases batches.len(),
{
    if batches.len() > 0 {
        let rest = batches.drop_first();
        let later = counters.drop_first();
        assert forall|k: int| 0 <= k < rest.len() implies emitted(
            later[k],
            later[k + 1],
            #[trigger] rest[k],
        ) by {
            assert(rest[k] == batches[k + 1]);
        }
        lemma_batches_compose(later, rest);
        // The first batch, then all the others.
        assert(emitted(counters[0], counters[1], batches.first()));
        assert(batches.flatten() == batches.first() + rest.flatten());
    }
}

/// The envelopes that a node emits carry the ids 1, 2, 3, ... in the order
/// of their emission, whatever steps and gossip rounds the node goes through:
/// `batches` holds what each call emitted, and `counters` where the counter
/// stood before the first call and after each.
pub proof fn lemma_ids_count_from_one(counters: Seq<usize>, batches: Seq<Seq<MessageView>>)
    requires
        counters.len() == batches.len() + 1,
        counters[0] == 1,
        forall|k: int|
            0 <= k < batches.len() ==> emitted(counters[k], counters[k + 1], #[trigger] batches[k]),
    ensures
        forall|i: int|
            0 <= i < batches.flatten().len() ==> ((#[trigger] batches.flatten()[i]).body.msg_id
                matches Some(id) && id == i + 1),
        counters.last() == batches.flatten().len() + 1,
{
    lemma_batches_compose(counters, batches);
}

/// One call of a node, with what it was given and what it handed out.
pub enum Call {
    /// A step on `input` that returned `out`.
    Step { input: MessageView, out: Option<MessageView> },
    /// A gossip round that returned `out`.
    Round { out: Seq<MessageView> },
}

impl Call {
    /// The envelopes that the call handed out, in order.
    pub open spec fn envelopes(self) -> Seq<MessageView> {
        match self {
            Call::Step { out, .. } => outbox(out),
            Call::Round { out } => out,
        }
    }

    /// The call is one that a node can make which has the counter at
    /// `id_before` and the store `store_before`, and it leaves them at
    /// `id_after` and `store_after`. A gossip round leaves the store as it is.
    pub open spec fn leads(
        self,
        id_before: usize,
        store_before: StoreView,
        id_after: usize,
        store_after: StoreView,
    ) -> bool {
        match self {
            Call::Step { input, out } => stepped(
                id_before,
                store_before,
                input,
                id_after,
                store_after,
                out,
            ),
            Call::Round { out } => gossiped(id_before, store_before, id_after, out) && store_after
                == store_before,
        }
    }
}

/// A run of a node: `calls` one after another, each leading from one counter
/// and store to the next.
pub open spec fn is_run(ids: Seq<usize>, stores: Seq<StoreView>, calls: Seq<Call>) -> bool {
    &&& ids.len() == calls.len() + 1
    &&& stores.len() == calls.len() + 1
    &&& forall|k: int|
        0 <= k < calls.len() ==> (#[trigger] calls[k]).leads(
            ids[k],
            stores[k],
            ids[k + 1],
            stores[k + 1],
        )
}

/// All envelopes of a run, in the order of their emission.
pub open spec fn envelopes_of(calls: Seq<Call>) -> Seq<MessageView> {
    calls.map_values(|call: Call| call.envelopes()).flatten()
}

/// Over any run of a node that starts with a new counter, the envelopes it
/// emits, replies and gossip alike, carry the ids 1, 2, 3, ... in the order
/// of their emission: none is left out, none is used twice.
pub proof fn lemma_run_numbers_envelopes(
    ids: Seq<usize>,
    stores: Seq<StoreView>,
    calls: Seq<Call>,
)
    requires
        is_run(ids, stores, calls),
        ids[0] == 1,
    ensures
        forall|i: int|
            0 <= i < envelopes_of(calls).len() ==> ((#[trigger] envelopes_of(
                calls,
            )[i]).body.msg_id matches Some(id) && id == i + 1),
        forall|i: int, j: int|
            0 <= i < j < envelopes_of(calls).len() ==> (#[trigger] envelopes_of(
                calls,
            )[i]).body.msg_id->0 < (#[trigger] envelopes_of(calls)[j]).body.msg_id->0,
        ids.last() == envelopes_of(calls).len() + 1,
{
    let batches = calls.map_values(|call: Call| call.envelopes());
    assert forall|k: int| 0 <= k < batches.len() implies emitted(
        ids[k],
        ids[k + 1],
        #[trigger] batches[k],
    ) by {
        assert(calls[k].leads(ids[k], stores[k], ids[k + 1], stores[k + 1]));
    }
    lemma_ids_count_from_one(ids, batches);
}

/// Over any run of a node no value is lost: what the store holds at one
/// point it holds at every later point.
pub proof fn lemma_run_keeps_values(
    ids: Seq<usize>,
    stores: Seq<StoreView>,
    calls: Seq<Call>,
    earlier: int,
    later: int,
)
    requires
        is_run(ids, stores, calls),
        0 <= earlier <= later < stores.len(),
    ensures
        stores[earlier].values.subset_of(stores[later].values),
    decreases later - earlier,
{
    if earlier < later {
        lemma_run_keeps_values(ids, stores, calls, earlier, later - 1);
        assert(calls[later - 1].leads(
            ids[later - 1],
            stores[later - 1],
            ids[later - 1 + 1],
            stores[later - 1 + 1],
        ));
        match calls[later - 1] {
            Call::Step { input, .. } => {
                lemma_values_are_kept(stores[later - 1], input.body.payload);
            },
            Call::Round { .. } => {},
        }
    }
}

/// Over any run of a node an address that has been assigned stays.
pub proof fn lemma_run_keeps_identity(
    ids: Seq<usize>,
    stores: Seq<StoreView>,
    calls: Seq<Call>,
    earlier: int,
    later: int,
)
    requires
        is_run(ids, stores, calls),
        0 <= earlier <= later < stores.len(),
        stores[earlier].identity.len() > 0,
    ensures
        stores[later].identity == stores[earlier].identity,
    decreases later - earlier,
{
    if earlier < later {
        lemma_run_keeps_identity(ids, stores, calls, earlier, later - 1);
        assert(calls[later - 1].leads(
            ids[later - 1],
            stores[later - 1],
            ids[later - 1 + 1],
            stores[later - 1 + 1],
        ));
        match calls[later - 1] {
            Call::Step { input, .. } => {
                lemma_identity_is_kept(stores[later - 1], input.body.payload);
            },
            Call::Round { .. } => {},
        }
    }
}

/// Over any run of a node a read returns every value that was submitted or
/// gossiped in before it.
pub proof fn lemma_run_reads_what_was_learned(
    ids: Seq<usize>,
    stores: Seq<StoreView>,
    calls: Seq<Call>,
    learned: int,
    read: int,
    value: usize,
)
    requires
        is_run(ids, stores, calls),
        0 <= learned < read < calls.len(),
        calls[learned] matches Call::Step { input, .. } && (input.body.payload == (
        PayloadView::Broadcast { message: value }) || (
        input.body.payload matches PayloadView::GossipBroadcast { message } && message.contains(
            value,
        ))),
        calls[read] matches Call::Step { input, .. } && input.body.payload is Read,
    ensures
        calls[read] matches Call::Step { out: Some(reply), .. }
            && reply.body.payload matches PayloadView::ReadOk { messages } && messages.contains(
            value,
        ),
{
    // The value is in the store right after it was learned, and stays until the read.
    assert(calls[learned].leads(
        ids[learned],
        stores[learned],
        ids[learned + 1],
        stores[learned + 1],
    ));
    assert(stores[learned + 1].values.contains(value));
    lemma_run_keeps_values(ids, stores, calls, learned + 1, read + 1);
    assert(calls[read].leads(ids[read], stores[read], ids[read + 1], stores[read + 1]));
}

/// Requests and acknowledgments pair up: each kind of request is answered by
/// its own kind of acknowledgment and by no other, and a gossip envelope is
/// the answer to nothing.
pub proof fn lemma_acknowledgments_pair_up(
    answer: PayloadView,
    request: PayloadView,
    store: StoreView,
)
    requires
        acknowledges(answer, request, store),
    ensures
        request.is_request(),
        !answer.is_request(),
        request is Init <==> answer is InitOk,
        request is Echo <==> answer is EchoOk,
        request is Generate <==> answer is GenerateOk,
        request is Broadcast <==> answer is BroadcastOk,
        request is Read <==> answer is ReadOk,
        request is Topology <==> answer is TopologyOk,
        !(answer is GossipBroadcast),
        !(answer is Error),
{
}

/// A value that the store has learned stays, whatever payload arrives.
pub proof fn lemma_values_are_kept(store: StoreView, payload: PayloadView)
    ensures
        store.values.subset_of(store.after(payload).values),
{
}

/// A value that is submitted or gossiped in is known afterwards.
pub proof fn lemma_values_are_learned(store: StoreView, payload: PayloadView, value: usize)
    ensures
        payload == (PayloadView::Broadcast { message: value }) ==> store.after(
            payload,
        ).values.contains(value),
        payload matches PayloadView::GossipBroadcast { message } ==> (message.contains(value)
            ==> store.after(payload).values.contains(value)),
{
}

/// To submit a value twice, or to gossip the same values in twice, is the
/// same as to do it once.
pub proof fn lemma_learning_is_idempotent(store: StoreView, payload: PayloadView)
    requires
        payload is Broadcast || payload is GossipBroadcast,
    ensures
        store.after(payload).after(payload) == store.after(payload),
{
    assert(store.after(payload).after(payload).values =~= store.after(payload).values);
}

/// An address that has been assigned stays, whatever payload arrives.
pub proof fn lemma_identity_is_kept(store: StoreView, payload: PayloadView)
    requires
        store.identity.len() > 0,
    ensures
        store.after(payload).identity == store.identity,
{
}

/// An adjacency map names the addresses of its entries, and no others.
pub proof fn lemma_adjacency_map_keys(entries: Seq<(Seq<char>, Seq<Seq<char>>)>, address: Seq<char>)
    ensures
        adjacency_map(entries).contains_key(address) <==> exists|i: int|
            0 <= i < entries.len() && (#[trigger] entries[i]).0 == address,
    decreases entries.len(),
{
    if entries.len() > 0 {
        let front = entries.drop_last();
        lemma_adjacency_map_keys(front, address);
        if adjacency_map(front).contains_key(address) {
            let i = choose|i: int| 0 <= i < front.len() && (#[trigger] front[i]).0 == address;
            assert(entries[i].0 == address);
        }
        if exists|i: int| 0 <= i < entries.len() && (#[trigger] entries[i]).0 == address {
            let i = choose|i: int| 0 <= i < entries.len() && (#[trigger] entries[i]).0 == address;
            if i < entries.len() - 1 {
                assert(front[i].0 == address);
            }
        }
    }
}

/// An adjacency map gives each address the list of the last entry that names it.
pub proof fn lemma_adjacency_map_last_entry(entries: Seq<(Seq<char>, Seq<Seq<char>>)>, at: int)
    requires
        0 <= at < entries.len(),
        forall|j: int| at < j < entries.len() ==> (#[trigger] entries[j]).0 != entries[at].0,
    ensures
        adjacency_map(entries).contains_key(entries[at].0),
        adjacency_map(entries)[entries[at].0] == entries[at].1,
    decreases entries.len(),
{
    if at < entries.len() - 1 {
        let front = entries.drop_last();
        assert forall|j: int| at < j < front.len() implies (#[trigger] front[j]).0 != front[at].0 by {
            assert(front[j] == entries[j]);
        }
        lemma_adjacency_map_last_entry(front, at);
    }
}

/// Of two topology updates the later one wins: after both, an address that
/// the second names has the list it was given there; an address that only
/// the first names has the list it was given there; any other address is
/// held as it was before.
pub proof fn lemma_topology_last_write_wins(
    store: StoreView,
    first: Seq<(Seq<char>, Seq<Seq<char>>)>,
    second: Seq<(Seq<char>, Seq<Seq<char>>)>,
    address: Seq<char>,
)
    ensures
        ({
            let earlier = adjacency_map(first);
            let later = adjacency_map(second);
            let merged = store.after(PayloadView::Topology { topology: first }).after(
                PayloadView::Topology { topology: second },
            ).topology;
            &&& merged.contains_key(address) == (later.contains_key(address)
                || earlier.contains_key(address) || store.topology.contains_key(address))
            &&& later.contains_key(address) ==> merged[address] == later[address]
            &&& !later.contains_key(address) && earlier.contains_key(address) ==> merged[address]
                == earlier[address]
            &&& !later.contains_key(address) && !earlier.contains_key(address)
                && store.topology.contains_key(address) ==> merged[address]
                == store.topology[address]
        }),
{
}

/// A topology update changes neither the values nor the address of the store.
pub proof fn lemma_topology_touches_nothing_else(store: StoreView, payload: PayloadView)
    requires
        payload is Topology,
    ensures
        store.after(payload).values == store.values,
        store.after(payload).identity == store.identity,
{
}

/// No node gossips to itself.
pub proof fn lemma_no_self_gossip(store: StoreView)
    ensures
        !store.gossip_targets().contains(store.identity),
{
}

} // verus!
