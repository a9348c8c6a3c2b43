//! Envelopes and their payloads, with the mathematical view that the
//! contracts of the node speak of.

use std::collections::HashSet;
use vstd::prelude::*;
use vstd::std_specs::iter::IteratorSpec;

verus! {

broadcast use vstd::std_specs::hash::group_hash_axioms;

/// The values carried by one gossip envelope.
pub type Gossiped = HashSet<usize>;

/// One entry of a topology update: a node address and the addresses adjacent to it.
pub type Adjacency = (String, Vec<String>);

/// The kinds of message, each with its own fields.
#[derive(Debug, PartialEq, Eq)]
#[allow(inconsistent_fields)]
pub enum Payload {
    Init { node_id: String, node_ids: Vec<String> },
    InitOk,
    Error { code: usize, text: String },
    Echo { echo: String },
    EchoOk { echo: String },
    Generate,
    GenerateOk { unq_id: String },
    Broadcast { message: usize },
    BroadcastOk,
    Read,
    ReadOk { messages: Vec<usize> },
    /// The entries are applied in order, so of two entries for one address the later one counts.
    Topology { topology: Vec<Adjacency> },
    TopologyOk,
    GossipBroadcast { message: Gossiped },
}

/// What travels inside an envelope: the two sequence numbers and the payload.
#[derive(Debug, PartialEq, Eq)]
pub struct MessageBody {
    pub msg_id: Option<usize>,
    pub in_reply_to: Option<usize>,
    pub payload: Payload,
}

/// An envelope: sender, receiver and body.
#[derive(Debug, PartialEq, Eq)]
pub struct Message {
    pub src: String,
    pub dest: String,
    pub body: MessageBody,
}

/// A payload as plain mathematical data.
#[allow(inconsistent_fields)]
pub enum PayloadView {
    Init { node_id: Seq<char>, node_ids: Seq<Seq<char>> },
    InitOk,
    Error { code: usize, text: Seq<char> },
    Echo { echo: Seq<char> },
    EchoOk { echo: Seq<char> },
    Generate,
    GenerateOk { unq_id: Seq<char> },
    Broadcast { message: usize },
    BroadcastOk,
    Read,
    ReadOk { messages: Seq<usize> },
    Topology { topology: Seq<(Seq<char>, Seq<Seq<char>>)> },
    TopologyOk,
    GossipBroadcast { message: Set<usize> },
}

/// A body as plain mathematical data.
pub struct MessageBodyView {
    pub msg_id: Option<usize>,
    pub in_reply_to: Option<usize>,
    pub payload: PayloadView,
}

/// An envelope as plain mathematical data.
pub struct MessageView {
    pub src: Seq<char>,
    pub dest: Seq<char>,
    pub body: MessageBodyView,
}

impl View for Payload {
    type V = PayloadView;

    open spec fn view(&self) -> PayloadView {
        match *self {
            Payload::Init { node_id, node_ids } => PayloadView::Init {
                node_id: node_id@,
                node_ids: node_ids.deep_view(),
            },
            Payload::InitOk => PayloadView::InitOk,
            Payload::Error { code, text } => PayloadView::Error { code, text: text@ },
            Payload::Echo { echo } => PayloadView::Echo { echo: echo@ },
            Payload::EchoOk { echo } => PayloadView::EchoOk { echo: echo@ },
            Payload::Generate => PayloadView::Generate,
            Payload::GenerateOk { unq_id } => PayloadView::GenerateOk { unq_id: unq_id@ },
            Payload::Broadcast { message } => PayloadView::Broadcast { message },
            Payload::BroadcastOk => PayloadView::BroadcastOk,
            Payload::Read => PayloadView::Read,
            Payload::ReadOk { messages } => PayloadView::ReadOk { messages: messages@ },
            Payload::Topology { topology } => PayloadView::Topology {
                topology: topology.deep_view(),
            },
            Payload::TopologyOk => PayloadView::TopologyOk,
            Payload::GossipBroadcast { message } => PayloadView::GossipBroadcast {
                message: message@,
            },
        }
    }
}

impl View for MessageBody {
    type V = MessageBodyView;

    open spec fn view(&self) -> MessageBodyView {
        MessageBodyView {
            msg_id: self.msg_id,
            in_reply_to: self.in_reply_to,
            payload: self.payload@,
        }
    }
}

impl View for Message {
    type V = MessageView;

    open spec fn view(&self) -> MessageView {
        MessageView { src: self.src@, dest: self.dest@, body: self.body@ }
    }
}

impl PayloadView {
    /// Whether a node that receives this payload owes the sender a reply.
    pub open spec fn is_request(self) -> bool {
        self is Init || self is Echo || self is Generate || self is Broadcast || self is Read
            || self is Topology
    }
}

impl Payload {
    /// Whether a node that receives this payload owes the sender a reply.
    pub fn is_request(&self) -> (owed: bool)
        ensures
            owed == self@.is_request(),
    {
        match self {
            Payload::Init { .. } => true,
            Payload::Echo { .. } => true,
            Payload::Generate => true,
            Payload::Broadcast { .. } => true,
            Payload::Read => true,
            Payload::Topology { .. } => true,
            _ => false,
        }
    }
}

/// A copy of a set of values.
pub(crate) fn copy_values(values: &Gossiped) -> (copy: Gossiped)
    ensures
        copy@ == values@,
{
    let mut copy: Gossiped = HashSet::new();
    let ghost order = values.iter().remaining().unref();
    for value in it: values.iter()
        invariant
            it.seq().unref() == order,
            copy@ == order.take(it.index()).to_set(),
    {
        proof {
            assert(order.take(it.index() + 1) == order.take(it.index()).push(*value));
            order.take(it.index()).lemma_push_to_set_commute(*value);
        }
        copy.insert(*value);
    }
    assert(order.take(order.len() as int) == order);
    copy
}

/// A copy of the entries of a topology update.
fn copy_entries(entries: &Vec<Adjacency>) -> (copy: Vec<Adjacency>)
    ensures
        copy.deep_view() == entries.deep_view(),
{
    let mut copy: Vec<Adjacency> = Vec::new();
    let mut i: usize = 0;
    while i < entries.len()
        invariant
            i <= entries.len(),
            copy.deep_view() == entries.deep_view().take(i as int),
        decreases entries.len() - i,
    {
        copy.push((entries[i].0.clone(), entries[i].1.clone()));
        assert(entries.deep_view().take(i + 1) =~= entries.deep_view().take(i as int).push(
            entries[i as int].deep_view(),
        ));
        i += 1;
    }
    copy
}

impl Clone for Payload {
    fn clone(&self) -> (copy: Self)
        ensures
            copy@ == self@,
    {
        match self {
            Payload::Init { node_id, node_ids } => Payload::Init {
                node_id: node_id.clone(),
                node_ids: node_ids.clone(),
            },
            Payload::InitOk => Payload::InitOk,
            Payload::Error { code, text } => Payload::Error { code: *code, text: text.clone() },
            Payload::Echo { echo } => Payload::Echo { echo: echo.clone() },
            Payload::EchoOk { echo } => Payload::EchoOk { echo: echo.clone() },
            Payload::Generate => Payload::Generate,
            Payload::GenerateOk { unq_id } => Payload::GenerateOk { unq_id: unq_id.clone() },
            Payload::Broadcast { message } => Payload::Broadcast { message: *message },
            Payload::BroadcastOk => Payload::BroadcastOk,
            Payload::Read => Payload::Read,
            Payload::ReadOk { messages } => Payload::ReadOk { messages: messages.clone() },
            Payload::Topology { topology } => Payload::Topology { topology: copy_entries(topology) },
            Payload::TopologyOk => Payload::TopologyOk,
            Payload::GossipBroadcast { message } => Payload::GossipBroadcast {
                message: copy_values(message),
            },
        }
    }
}

impl Clone for MessageBody {
    fn clone(&self) -> (copy: Self)
        ensures
            copy@ == self@,
    {
        MessageBody {
            msg_id: self.msg_id,
            in_reply_to: self.in_reply_to,
            payload: self.payload.clone(),
        }
    }
}

impl Clone for Message {
    fn clone(&self) -> (copy: Self)
        ensures
            copy@ == self@,
    {
        Message { src: self.src.clone(), dest: self.dest.clone(), body: self.body.clone() }
    }
}

} // verus!
