//! The node itself: it answers requests one at a time and, when asked to,
//! gossips what it knows.

use crate::address::strictly_ascending;
use crate::message::{Message, MessageBody, MessageView, Payload, PayloadView};
use crate::store::{BroadcastStore, StoreView};
use crate::unique::{fresh_ulid_text, is_ulid_text};
use vstd::prelude::*;

verus! {

/// The time from one gossip round of a node to the next, in milliseconds.
pub const GOSSIP_PERIOD_MS: u64 = 500;

/// A node's side of the protocol. It owns the counter that numbers the
/// envelopes the node emits.
pub struct EchoNode {
    id: usize,
}

/// The view of what a step returns.
pub open spec fn reply_view(out: Option<Message>) -> Option<MessageView> {
    match out {
        Some(reply) => Some(reply@),
        None => None,
    }
}

/// The views of the envelopes of a batch, in order.
pub open spec fn views(batch: Seq<Message>) -> Seq<MessageView> {
    batch.map_values(|m: Message| m@)
}

/// The receivers of the envelopes of a batch, in order.
pub open spec fn receivers(batch: Seq<MessageView>) -> Seq<Seq<char>> {
    batch.map_values(|m: MessageView| m.dest)
}

/// A call that found the counter at `before` and left it at `after` emitted
/// the envelopes of `batch`: they carry the ids `before`, `before + 1`, ...
/// in order, and the counter has moved past them.
pub open spec fn emitted(before: usize, after: usize, batch: Seq<MessageView>) -> bool {
    &&& after == before + batch.len()
    &&& forall|i: int|
        0 <= i < batch.len() ==> ((#[trigger] batch[i]).body.msg_id matches Some(id) && id
            == before + i)
}

/// `reply` goes back to where `request` came from and refers to it.
pub open spec fn returns_to_sender(reply: MessageView, request: MessageView) -> bool {
    &&& reply.src == request.dest
    &&& reply.dest == request.src
    &&& reply.body.in_reply_to == request.body.msg_id
}

/// `answer` is the acknowledgment that `request` calls for at a node whose
/// store is `store`. Each kind of request has its own kind of
/// acknowledgment; a payload that is no request has none.
pub open spec fn acknowledges(answer: PayloadView, request: PayloadView, store: StoreView) -> bool {
    match request {
        PayloadView::Init { .. } => answer == PayloadView::InitOk,
        PayloadView::Echo { echo } => answer == (PayloadView::EchoOk { echo }),
        PayloadView::Generate => answer is GenerateOk,
        PayloadView::Broadcast { .. } => answer == PayloadView::BroadcastOk,
        PayloadView::Read => {
            &&& answer matches PayloadView::ReadOk { messages }
            &&& messages.no_duplicates()
            &&& messages.to_set() == store.values
        },
        PayloadView::Topology { .. } => answer == PayloadView::TopologyOk,
        _ => false,
    }
}

/// The envelopes that a step hands out: its reply, if it has one.
pub open spec fn outbox(out: Option<MessageView>) -> Seq<MessageView> {
    match out {
        Some(reply) => seq![reply],
        None => Seq::empty(),
    }
}

/// What one step does, but for the identifier that a `Generate` is answered
/// with: the store takes in the payload; a request, and nothing else, is
/// answered; the answer is the acknowledgment that the request calls for,
/// sent back to the sender under the next id.
pub open spec fn stepped(
    id_before: usize,
    store_before: StoreView,
    input: MessageView,
    id_after: usize,
    store_after: StoreView,
    out: Option<MessageView>,
) -> bool {
    &&& store_after == store_before.after(input.body.payload)
    &&& out.is_some() == input.body.payload.is_request()
    &&& emitted(id_before, id_after, outbox(out))
    &&& out matches Some(reply) ==> {
        &&& reply.body.msg_id == Some(id_before)
        &&& returns_to_sender(reply, input)
        &&& acknowledges(reply.body.payload, input.body.payload, store_after)
    }
}

/// What one gossip round does: one envelope to each gossip target, in
/// ascending order of address, each from this node, in reply to nothing,
/// carrying every value of the store, numbered by the counter.
pub open spec fn gossiped(
    id_before: usize,
    store: StoreView,
    id_after: usize,
    out: Seq<MessageView>,
) -> bool {
    &&& emitted(id_before, id_after, out)
    &&& strictly_ascending(receivers(out))
    &&& receivers(out).to_set() == store.gossip_targets()
    &&& forall|i: int|
        0 <= i < out.len() ==> {
            &&& (#[trigger] out[i]).src == store.identity
            &&& out[i].dest != store.identity
            &&& out[i].body.in_reply_to.is_none()
            &&& out[i].body.payload == (PayloadView::GossipBroadcast { message: store.values })
        }
}

impl EchoNode {
    /// Ids start at 1.
    #[verifier::type_invariant]
    spec fn counts_from_one(self) -> bool {
        self.id >= 1
    }

    /// The id that the next envelope of this node will carry.
    pub closed spec fn spec_next_id(&self) -> usize {
        self.id
    }

    /// A node that has emitted nothing yet: its first envelope will carry the id 1.
    pub fn new() -> (node: Self)
        ensures
            node.next_id() == 1,
    {
        EchoNode { id: 1 }
    }

    /// The id that the next envelope of this node will carry.
    #[verifier::when_used_as_spec(spec_next_id)]
    pub fn next_id(&self) -> (id: usize)
        ensures
            id == self.next_id(),
            id >= 1,
    {
        proof {
            use_type_invariant(self);
        }
        self.id
    }

    /// Handles one inbound envelope, answering a `Generate` with `unique_id`.
    pub fn step_with(
        &mut self,
        input: Message,
        broadcast_store: &mut BroadcastStore,
        unique_id: String,
    ) -> (out: Option<Message>)
        requires
            input@.body.payload.is_request() ==> old(self).next_id() < usize::MAX,
        ensures
            stepped(
                old(self).next_id(),
                old(broadcast_store)@,
                input@,
                final(self).next_id(),
                final(broadcast_store)@,
                reply_view(out),
            ),
            input@.body.payload is Generate ==> (out matches Some(reply) && reply@.body.payload == (
            PayloadView::GenerateOk { unq_id: unique_id@ })),
    {
        let Message { src, dest, body } = input;
        let MessageBody { msg_id, in_reply_to: _, payload } = body;
        let answer = match payload {
            Payload::Init { node_id, node_ids: _ } => {
                broadcast_store.assign_identity(node_id.as_str());
                Some(Payload::InitOk)
            },
            Payload::Echo { echo } => Some(Payload::EchoOk { echo }),
            Payload::Generate => Some(Payload::GenerateOk { unq_id: unique_id }),
            Payload::Broadcast { message } => {
                broadcast_store.insert(message);
                Some(Payload::BroadcastOk)
            },
            Payload::Read => Some(Payload::ReadOk { messages: broadcast_store.read() }),
            Payload::Topology { topology } => {
                broadcast_store.merge_topology(topology);
                Some(Payload::TopologyOk)
            },
            Payload::GossipBroadcast { message } => {
                broadcast_store.absorb(&message);
                None
            },
            _ => None,
        };
        match answer {
            Some(payload) => {
                let reply = Message {
                    src: dest,
                    dest: src,
                    body: MessageBody { msg_id: Some(self.id), in_reply_to: msg_id, payload },
                };
                self.id += 1;
                Some(reply)
            },
            None => None,
        }
    }

    /// Handles one inbound envelope. A `Generate` is answered with the text of
    /// a newly made ULID.
    pub fn step(&mut self, input: Message, broadcast_store: &mut BroadcastStore) -> (out: Option<
        Message,
    >)
        requires
            input@.body.payload.is_request() ==> old(self).next_id() < usize::MAX,
        ensures
            stepped(
                old(self).next_id(),
                old(broadcast_store)@,
                input@,
                final(self).next_id(),
                final(broadcast_store)@,
                reply_view(out),
            ),
            input@.body.payload is Generate ==> (out matches Some(reply) && (
            reply@.body.payload matches PayloadView::GenerateOk { unq_id } && is_ulid_text(unq_id))),
    {
        let unique_id = match &input.body.payload {
            Payload::Generate => fresh_ulid_text(),
            _ => String::new(),
        };
        self.step_with(input, broadcast_store, unique_id)
    }

    /// Runs one gossip round: writes every value of the store to each gossip target.
    pub fn gossip_round(&mut self, broadcast_store: &BroadcastStore) -> (out: Vec<Message>)
        requires
            old(self).next_id() + broadcast_store@.gossip_targets().len() <= usize::MAX,
        ensures
            gossiped(old(self).next_id(), broadcast_store@, final(self).next_id(), views(out@)),
    {
        let targets = broadcast_store.neighbors();
        let mut out: Vec<Message> = Vec::new();
        let mut i: usize = 0;
        while i < targets.len()
            invariant
                i <= targets.len(),
                out.len() == i,
                self.id == old(self).id + i,
                old(self).id + targets.len() <= usize::MAX,
                emitted(old(self).id, self.id, views(out@)),
                receivers(views(out@)) == targets.deep_view().take(i as int),
                forall|k: int|
                    0 <= k < i ==> {
                        &&& (#[trigger] out[k])@.src == broadcast_store@.identity
                        &&& out[k]@.body.in_reply_to.is_none()
                        &&& out[k]@.body.payload == (PayloadView::GossipBroadcast {
                            message: broadcast_store@.values,
                        })
                    },
            decreases targets.len() - i,
        {
            let envelope = Message {
                src: broadcast_store.whoami().to_owned(),
                dest: targets[i].clone(),
                body: MessageBody {
                    msg_id: Some(self.id),
                    in_reply_to: None,
                    payload: Payload::GossipBroadcast { message: broadcast_store.snapshot() },
                },
            };
            let ghost sent = views(out@);
            out.push(envelope);
            proof {
                assert(views(out@) =~= sent.push(envelope@));
                assert(receivers(views(out@)) =~= targets.deep_view().take(i as int).push(
                    targets[i as int]@,
                ));
                assert(targets.deep_view().take(i + 1) =~= targets.deep_view().take(i as int).push(
                    targets[i as int]@,
                ));
            }
            self.id += 1;
            i += 1;
        }
        proof {
            assert(targets.deep_view().take(targets.len() as int) == targets.deep_view());
            let sent = views(out@);
            assert forall|k: int| 0 <= k < sent.len() implies (#[trigger] sent[k]).dest
                != broadcast_store@.identity by {
                assert(receivers(sent)[k] == sent[k].dest);
                assert(receivers(sent).to_set().contains(sent[k].dest));
            }
        }
        out
    }
}

} // verus!
