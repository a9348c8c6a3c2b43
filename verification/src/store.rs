//! What a node remembers: its own address, the values it has learned and
//! the adjacency lists it was told about.

use crate::address::{insert_ascending, lemma_ascending_no_duplicates, strictly_ascending};
use crate::message::{copy_values, Adjacency, Gossiped, PayloadView};
use std::collections::HashSet;
use vstd::hash_map::StringHashMap;
use vstd::prelude::*;
use vstd::std_specs::iter::IteratorSpec;

verus! {

broadcast use vstd::std_specs::hash::group_hash_axioms;

/// The state that the answers of a node depend on and that its gossip spreads.
pub struct BroadcastStore {
    messages: Gossiped,
    whoami: String,
    topology: StringHashMap<Vec<String>>,
}

/// The three parts of a store as plain mathematical data.
pub struct StoreView {
    /// The values learned so far.
    pub values: Set<usize>,
    /// This node's own address; empty until one has been assigned.
    pub identity: Seq<char>,
    /// For each address that a topology update has named, the adjacency list it was given last.
    pub topology: Map<Seq<char>, Seq<Seq<char>>>,
}

impl View for BroadcastStore {
    type V = StoreView;

    closed spec fn view(&self) -> StoreView {
        StoreView {
            values: self.messages@,
            identity: self.whoami@,
            topology: self.topology@.map_values(|list: Vec<String>| list.deep_view()),
        }
    }
}

impl StoreView {
    /// The store of a node that has just started: nothing known, nothing assigned.
    pub open spec fn empty() -> StoreView {
        StoreView { values: Set::empty(), identity: Seq::empty(), topology: Map::empty() }
    }

    /// The store after an attempt to assign `node_id`: an address that has been
    /// assigned stays.
    pub open spec fn with_identity(self, node_id: Seq<char>) -> StoreView {
        if self.identity.len() == 0 {
            StoreView { identity: node_id, ..self }
        } else {
            self
        }
    }

    /// The store after it has learned `value`.
    pub open spec fn with_value(self, value: usize) -> StoreView {
        StoreView { values: self.values.insert(value), ..self }
    }

    /// The store after it has learned every value of `incoming`.
    pub open spec fn with_values(self, incoming: Set<usize>) -> StoreView {
        StoreView { values: self.values.union(incoming), ..self }
    }

    /// The store after a topology update: each address that `update` names gets
    /// the list it has there, every other address keeps its own.
    pub open spec fn with_topology(self, update: Map<Seq<char>, Seq<Seq<char>>>) -> StoreView {
        StoreView { topology: self.topology.union_prefer_right(update), ..self }
    }

    /// The store after a node has received `payload`: the handshake assigns the
    /// address, a submitted or gossiped value is learned, a topology update is
    /// merged in, and every other payload leaves the store as it is.
    pub open spec fn after(self, payload: PayloadView) -> StoreView {
        match payload {
            PayloadView::Init { node_id, .. } => self.with_identity(node_id),
            PayloadView::Broadcast { message } => self.with_value(message),
            PayloadView::GossipBroadcast { message } => self.with_values(message),
            PayloadView::Topology { topology } => self.with_topology(adjacency_map(topology)),
            _ => self,
        }
    }

    /// The addresses that a gossip round writes to: those adjacent to this node,
    /// but not this node itself.
    pub open spec fn gossip_targets(self) -> Set<Seq<char>> {
        if self.topology.contains_key(self.identity) {
            self.topology[self.identity].to_set().remove(self.identity)
        } else {
            Set::empty()
        }
    }
}

/// The adjacency map that a list of entries stands for: the entries are
/// applied in order, so a later entry for an address replaces an earlier one.
pub open spec fn adjacency_map(entries: Seq<(Seq<char>, Seq<Seq<char>>)>) -> Map<
    Seq<char>,
    Seq<Seq<char>>,
>
    decreases entries.len(),
{
    if entries.len() == 0 {
        Map::empty()
    } else {
        adjacency_map(entries.drop_last()).insert(entries.last().0, entries.last().1)
    }
}

impl Default for BroadcastStore {
    fn default() -> (store: Self)
        ensures
            store@ == StoreView::empty(),
    {
        BroadcastStore::new()
    }
}

impl BroadcastStore {
    /// A store that knows nothing yet.
    pub fn new() -> (store: Self)
        ensures
            store@ == StoreView::empty(),
    {
        let store = BroadcastStore {
            messages: HashSet::new(),
            whoami: String::new(),
            topology: StringHashMap::new(),
        };
        assert(store@.topology =~= Map::empty());
        store
    }

    /// This node's own address; empty until one has been assigned.
    pub fn whoami(&self) -> (address: &str)
        ensures
            address@ == self@.identity,
    {
        self.whoami.as_str()
    }

    /// Whether the store has learned `value`.
    pub fn contains(&self, value: usize) -> (known: bool)
        ensures
            known == self@.values.contains(value),
    {
        self.messages.contains(&value)
    }

    /// The adjacency list that the store holds for `address`, if it holds one.
    pub fn adjacency(&self, address: &str) -> (list: Option<&Vec<String>>)
        ensures
            match list {
                Some(found) => self@.topology.contains_key(address@) && found.deep_view()
                    == self@.topology[address@],
                None => !self@.topology.contains_key(address@),
            },
    {
        self.topology.get(address)
    }

    /// Records `node_id` as this node's own address, unless it has one already.
    pub fn assign_identity(&mut self, node_id: &str)
        ensures
            final(self)@ == old(self)@.with_identity(node_id@),
    {
        if self.whoami.as_str().is_empty() {
            self.whoami = node_id.to_owned();
        }
    }

    /// Learns `value`. A value that is known already changes nothing.
    pub fn insert(&mut self, value: usize)
        ensures
            final(self)@ == old(self)@.with_value(value),
    {
        self.messages.insert(value);
    }

    /// Learns every value of `incoming`.
    pub fn absorb(&mut self, incoming: &Gossiped)
        ensures
            final(self)@ == old(self)@.with_values(incoming@),
    {
        let ghost order = incoming.iter().remaining().unref();
        for value in it: incoming.iter()
            invariant
                it.seq().unref() == order,
                self.whoami == old(self).whoami,
                self.topology == old(self).topology,
                self.messages@ == old(self).messages@.union(order.take(it.index()).to_set()),
        {
            proof {
                assert(order.take(it.index() + 1) == order.take(it.index()).push(*value));
                order.take(it.index()).lemma_push_to_set_commute(*value);
            }
            self.messages.insert(*value);
        }
        assert(order.take(order.len() as int) == order);
    }

    /// Applies a topology update, entry by entry.
    pub fn merge_topology(&mut self, update: Vec<Adjacency>)
        ensures
            final(self)@ == old(self)@.with_topology(adjacency_map(update.deep_view())),
    {
        let ghost entries = update.deep_view();
        for entry in it: update.into_iter()
            invariant
                it.seq() == update@,
                entries == update.deep_view(),
                self.whoami == old(self).whoami,
                self.messages == old(self).messages,
                self@.topology == old(self)@.topology.union_prefer_right(
                    adjacency_map(entries.take(it.index())),
                ),
        {
            let ghost earlier = adjacency_map(entries.take(it.index()));
            let ghost held = self@.topology;
            let (address, list) = entry;
            proof {
                assert(entries.take(it.index() + 1).drop_last() == entries.take(it.index()));
            }
            self.topology.insert(address, list);
            proof {
                // To merge in one more entry is to insert it into what was merged before.
                assert(self@.topology =~= held.insert(address@, list.deep_view()));
                assert(old(self)@.topology.union_prefer_right(
                    earlier.insert(address@, list.deep_view()),
                ) =~= held.insert(address@, list.deep_view()));
            }
        }
        assert(entries.take(entries.len() as int) == entries);
    }

    /// The values of the store, each once, in no particular order.
    pub fn read(&self) -> (messages: Vec<usize>)
        ensures
            messages@.no_duplicates(),
            messages@.to_set() == self@.values,
    {
        let mut out: Vec<usize> = Vec::new();
        let ghost order = self.messages.iter().remaining().unref();
        for value in it: self.messages.iter()
            invariant
                it.seq().unref() == order,
                out@ == order.take(it.index()),
        {
            out.push(*value);
        }
        assert(out@ == order);
        out
    }

    /// A copy of the values of the store.
    pub fn snapshot(&self) -> (values: Gossiped)
        ensures
            values@ == self@.values,
    {
        copy_values(&self.messages)
    }

    /// The addresses that a gossip round writes to, in ascending address order.
    pub fn neighbors(&self) -> (targets: Vec<String>)
        ensures
            strictly_ascending(targets.deep_view()),
            targets.deep_view().to_set() == self@.gossip_targets(),
            targets.len() == self@.gossip_targets().len(),
    {
        let mut out: Vec<String> = Vec::new();
        match self.topology.get(self.whoami.as_str()) {
            None => {},
            Some(list) => {
                let ghost adjacent = list.deep_view();
                let mut i: usize = 0;
                while i < list.len()
                    invariant
                        i <= list.len(),
                        adjacent == list.deep_view(),
                        strictly_ascending(out.deep_view()),
                        out.deep_view().to_set() == adjacent.take(i as int).to_set().remove(
                            self.whoami@,
                        ),
                    decreases list.len() - i,
                {
                    proof {
                        assert(adjacent.take(i + 1) == adjacent.take(i as int).push(
                            adjacent[i as int],
                        ));
                        adjacent.take(i as int).lemma_push_to_set_commute(adjacent[i as int]);
                    }
                    if list[i] != self.whoami {
                        insert_ascending(&mut out, list[i].as_str());
                    }
                    i += 1;
                }
                assert(adjacent.take(list.len() as int) == adjacent);
            },
        }
        proof {
            lemma_ascending_no_duplicates(out.deep_view());
            out.deep_view().unique_seq_to_set();
        }
        out
    }
}

} // verus!
