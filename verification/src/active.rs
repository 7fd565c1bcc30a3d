//! The active registry: the nodes that are connected and authenticated right
//! now, with the address each one has reported.
//!
//! Entries are kept in insertion order under unique identifiers. A session
//! inserts its entry on authentication, rewrites the entry's address on
//! request, and takes the entry out when the connection ends.

use crate::keyed::{
    distinct_keys, key_index, lemma_key_index, lemma_map_of_contains, lemma_map_of_index,
    lemma_map_of_push, lemma_map_of_remove, lemma_map_of_update, map_of, Keyed,
};
use crate::models::{ProxyNode, ProxyNodeV};
use crate::names::{node_name, node_name_of};
use vstd::pervasive::VecAdditionalExecFns;
use vstd::prelude::*;

verus! {

/// The entry a session puts into the registry the moment it authenticates:
/// the derived display name, no address yet, and the device identifier copied
/// from the node's long-term record.
pub open spec fn fresh_node(id: u128, mac_id: Seq<char>) -> ProxyNodeV {
    ProxyNodeV {
        id,
        name: node_name_of(id),
        ip: "unknown"@,
        port: 0,
        active: true,
        mac_id,
    }
}

/// The registry of currently live nodes.
pub struct ActiveRegistry {
    nodes: Vec<ProxyNode>,
}

impl View for ActiveRegistry {
    type V = Map<u128, ProxyNodeV>;

    /// The registry read as a map from identifier to entry.
    open spec fn view(&self) -> Map<u128, ProxyNodeV> {
        map_of(self.snapshot())
    }
}

impl ActiveRegistry {
    /// The entries in insertion order.
    pub closed spec fn snapshot(&self) -> Seq<ProxyNodeV> {
        self.nodes@.map_values(|n: ProxyNode| n@)
    }

    /// Identifiers are unique within the registry.
    pub open spec fn wf(&self) -> bool {
        distinct_keys(self.snapshot())
    }

    /// An empty registry.
    pub fn new() -> (s: Self)
        ensures
            s.wf(),
            s@ == Map::<u128, ProxyNodeV>::empty(),
            s.snapshot() == Seq::<ProxyNodeV>::empty(),
    {
        let s = ActiveRegistry { nodes: Vec::new() };
        proof {
            assert(s.snapshot() =~= Seq::<ProxyNodeV>::empty());
        }
        s
    }

    /// The position of the entry for `id`, when there is one.
    fn find_index(&self, id: u128) -> (r: Option<usize>)
        ensures
            match r {
                Some(i) => i < self.snapshot().len() && self.snapshot()[i as int].id == id,
                None => forall|j: int|
                    0 <= j < self.snapshot().len() ==> #[trigger] self.snapshot()[j].id != id,
            },
    {
        let mut i: usize = 0;
        while i < self.nodes.len()
            invariant
                i <= self.nodes.len(),
                self.snapshot().len() == self.nodes.len(),
                forall|j: int| 0 <= j < i ==> #[trigger] self.snapshot()[j].id != id,
            decreases self.nodes.len() - i,
        {
            if self.nodes[i].id == id {
                return Some(i);
            }
            i = i + 1;
        }
        None
    }

    /// Whether `id` currently has an entry.
    pub fn contains(&self, id: u128) -> (r: bool)
        ensures
            r == self@.contains_key(id),
    {
        proof {
            lemma_map_of_contains(self.snapshot(), id);
        }
        match self.find_index(id) {
            Some(i) => {
                proof {
                    assert(self.snapshot()[i as int].key() == id);
                }
                true
            },
            None => false,
        }
    }

    /// A pure read of the entry for `id`.
    pub fn lookup(&self, id: u128) -> (r: Option<&ProxyNode>)
        requires
            self.wf(),
        ensures
            match r {
                Some(n) => self@.contains_key(id) && n@ == self@[id],
                None => !self@.contains_key(id),
            },
    {
        proof {
            lemma_map_of_contains(self.snapshot(), id);
        }
        match self.find_index(id) {
            Some(i) => {
                proof {
                    assert(self.snapshot()[i as int].key() == id);
                    lemma_map_of_index(self.snapshot(), i as int);
                }
                Some(&self.nodes[i])
            },
            None => None,
        }
    }

    /// Insert the entry for `node.id`, replacing in place whatever entry that
    /// identifier had.
    pub fn upsert(&mut self, node: ProxyNode)
        requires
            old(self).wf(),
        ensures
            final(self).wf(),
            final(self)@ == old(self)@.insert(node.id, node@),
            old(self)@.contains_key(node.id) ==> final(self).snapshot() == old(self).snapshot()
                .update(key_index(old(self).snapshot(), node.id), node@),
            !old(self)@.contains_key(node.id) ==> final(self).snapshot() == old(self).snapshot()
                .push(node@),
    {
        proof {
            lemma_map_of_contains(self.snapshot(), node.id);
        }
        let ghost pre = self.snapshot();
        let ghost nv = node@;
        match self.find_index(node.id) {
            Some(i) => {
                proof {
                    assert(pre[i as int].key() == node.id);
                    lemma_key_index(pre, i as int);
                    lemma_map_of_update(pre, i as int, nv);
                }
                self.nodes.set(i, node);
                proof {
                    assert(self.snapshot() =~= pre.update(i as int, nv));
                }
            },
            None => {
                proof {
                    assert(forall|j: int|
                        0 <= j < pre.len() ==> #[trigger] pre[j].key() != node.id);
                    lemma_map_of_push(pre, nv);
                }
                self.nodes.push(node);
                proof {
                    assert(self.snapshot() =~= pre.push(nv));
                }
            },
        }
    }

    /// Insert the fresh entry a session owes on authentication.
    pub fn activate(&mut self, id: u128, mac_id: String)
        requires
            old(self).wf(),
        ensures
            final(self).wf(),
            final(self)@ == old(self)@.insert(id, fresh_node(id, mac_id@)),
            old(self)@.contains_key(id) ==> final(self).snapshot() == old(self).snapshot()
                .update(key_index(old(self).snapshot(), id), fresh_node(id, mac_id@)),
            !old(self)@.contains_key(id) ==> final(self).snapshot() == old(self).snapshot()
                .push(fresh_node(id, mac_id@)),
    {
        let name = node_name(id);
        let node = ProxyNode {
            id,
            name,
            ip: "unknown".to_owned(),
            port: 0,
            active: true,
            mac_id,
        };
        proof {
            assert(node@ == fresh_node(id, node.mac_id@));
        }
        self.upsert(node);
    }

    /// Take out the entry for `id`; every other entry stays as it was.
    pub fn remove(&mut self, id: u128) -> (r: bool)
        requires
            old(self).wf(),
        ensures
            final(self).wf(),
            r == old(self)@.contains_key(id),
            final(self)@ == old(self)@.remove(id),
            old(self)@.contains_key(id) ==> final(self).snapshot() == old(self).snapshot()
                .remove(key_index(old(self).snapshot(), id)),
            !old(self)@.contains_key(id) ==> final(self).snapshot() == old(self).snapshot(),
    {
        proof {
            lemma_map_of_contains(self.snapshot(), id);
        }
        let ghost pre = self.snapshot();
        match self.find_index(id) {
            Some(i) => {
                proof {
                    assert(pre[i as int].key() == id);
                    lemma_key_index(pre, i as int);
                    lemma_map_of_remove(pre, i as int);
                }
                self.nodes.remove(i);
                proof {
                    assert(self.snapshot() =~= pre.remove(i as int));
                }
                true
            },
            None => {
                proof {
                    assert(self@ =~= old(self)@.remove(id));
                }
                false
            },
        }
    }

    /// Rewrite the address of the entry for `id`, leaving its other fields
    /// alone; reports whether such an entry existed.
    pub fn set_address(&mut self, id: u128, ip: String, port: u16) -> (r: bool)
        requires
            old(self).wf(),
        ensures
            final(self).wf(),
            r == old(self)@.contains_key(id),
            old(self)@.contains_key(id) ==> {
                &&& final(self)@ == old(self)@.insert(
                    id,
                    ProxyNodeV { ip: ip@, port, ..old(self)@[id] },
                )
                &&& final(self).snapshot() == old(self).snapshot().update(
                    key_index(old(self).snapshot(), id),
                    ProxyNodeV { ip: ip@, port, ..old(self)@[id] },
                )
            },
            !old(self)@.contains_key(id) ==> final(self)@ == old(self)@ && final(self).snapshot()
                == old(self).snapshot(),
    {
        proof {
            lemma_map_of_contains(self.snapshot(), id);
        }
        let ghost pre = self.snapshot();
        match self.find_index(id) {
            Some(i) => {
                proof {
                    assert(pre[i as int].key() == id);
                    lemma_key_index(pre, i as int);
                    lemma_map_of_index(pre, i as int);
                }
                let n = &self.nodes[i];
                let node = ProxyNode {
                    id: n.id,
                    name: n.name.clone(),
                    ip,
                    port,
                    active: n.active,
                    mac_id: n.mac_id.clone(),
                };
                proof {
                    assert(node@ == ProxyNodeV { ip: node.ip@, port, ..old(self)@[id] });
                    lemma_map_of_update(pre, i as int, node@);
                }
                self.nodes.set(i, node);
                proof {
                    assert(self.snapshot() =~= pre.update(i as int, node@));
                }
                true
            },
            None => false,
        }
    }

    /// A snapshot of every entry, in insertion order, as the list endpoints
    /// serve it.
    pub fn list(&self) -> (r: Vec<ProxyNode>)
        ensures
            r@.map_values(|n: ProxyNode| n@) == self.snapshot(),
    {
        let r = self.nodes.clone();
        proof {
            assert(r@ =~= self.nodes@);
            assert(r@.map_values(|n: ProxyNode| n@) =~= self.snapshot());
        }
        r
    }

    /// How many nodes are live.
    pub fn len(&self) -> (r: usize)
        ensures
            r == self.snapshot().len(),
    {
        self.nodes.len()
    }
}

} // verus!
