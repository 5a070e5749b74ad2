//! The membership ring: a consistent-hash ring over the statically
//! configured node addresses, mapping every key to the one node that owns
//! it.
//!
//! The ring itself is `mpchash`'s; its state is modelled as the map from
//! ring position to the node placed there. `mpchash` computes positions with
//! fixed-seed hashing, so both a node's position and a key's owner are
//! functions of the values alone — which is what makes routing agree across
//! independently configured nodes.

use vstd::prelude::*;

use crate::settings::Settings;

verus! {

/// The position `mpchash`'s fixed-seed partitioner assigns to a node
/// address. Names the result of `mpchash::Xxh3Partitioner::position`, which
/// depends on the hashed value alone.
pub uninterp spec fn ring_position_of(node: Seq<char>) -> u64;

/// The positions held by an `mpchash` ring: which node stands at which ring
/// position.
pub uninterp spec fn ring_positions(r: NodeRing) -> Map<u64, Seq<char>>;

/// The owner `mpchash::HashRing::node` picks for a key: with fixed-seed
/// probing it is a function of the ring's positions and the key alone.
pub uninterp spec fn ring_owner(positions: Map<u64, Seq<char>>, key: Seq<char>) -> Seq<char>;

/// Whether a ring holds no node at all.
pub open spec fn no_nodes(positions: Map<u64, Seq<char>>) -> bool {
    positions == Map::<u64, Seq<char>>::empty()
}

/// The `mpchash` consistent-hash ring over node addresses. The struct is
/// opaque to the verifier; what it holds is modelled by [`ring_positions`].
#[verifier::external_body]
pub struct NodeRing {
    ring: mpchash::HashRing<String>,
}

/// Relies on mpchash::HashRing::new: a fresh ring holds no positions.
#[verifier::external_body]
fn ring_new() -> (r: NodeRing)
    ensures
        no_nodes(ring_positions(r)),
{
    NodeRing { ring: mpchash::HashRing::new() }
}

/// Relies on mpchash::HashRing::add: the node is stored at the position its
/// value hashes to, replacing whatever node held that position.
#[verifier::external_body]
fn ring_add(r: &mut NodeRing, node: String)
    ensures
        ring_positions(*final(r)) == ring_positions(*old(r)).insert(
            ring_position_of(node@),
            node@,
        ),
{
    r.ring.add(node);
}

/// Relies on mpchash::HashRing::node: it returns a node exactly when the
/// ring is non-empty, the choice depends only on the ring's positions and
/// the key, and the chosen node is one of those on the ring.
#[verifier::external_body]
fn ring_primary(r: &NodeRing, key: &str) -> (res: Option<String>)
    ensures
        res is Some <==> !no_nodes(ring_positions(*r)),
        res matches Some(a) ==> a@ == ring_owner(ring_positions(*r), key@) && ring_positions(
            *r,
        ).contains_value(a@),
{
    r.ring.node(&String::from(key)).map(|t| t.node().clone())
}

/// The positions a ring holds after the given node addresses were added in
/// order.
pub open spec fn positions_of_nodes(nodes: Seq<Seq<char>>) -> Map<u64, Seq<char>>
    decreases nodes.len(),
{
    if nodes.len() == 0 {
        Map::empty()
    } else {
        positions_of_nodes(nodes.drop_last()).insert(
            ring_position_of(nodes.last()),
            nodes.last(),
        )
    }
}

/// Every node a built ring holds is one of the addresses that were added.
pub proof fn lemma_positions_from_nodes(nodes: Seq<Seq<char>>)
    ensures
        forall|p: u64| #[trigger]
            positions_of_nodes(nodes).contains_key(p) ==> nodes.contains(
                positions_of_nodes(nodes)[p],
            ),
        nodes.len() > 0 ==> positions_of_nodes(nodes).contains_key(
            ring_position_of(nodes.last()),
        ),
    decreases nodes.len(),
{
    if nodes.len() > 0 {
        lemma_positions_from_nodes(nodes.drop_last());
        assert forall|p: u64| #[trigger]
            positions_of_nodes(nodes).contains_key(p) implies nodes.contains(
            positions_of_nodes(nodes)[p],
        ) by {
            if p == ring_position_of(nodes.last()) && positions_of_nodes(nodes)[p]
                == nodes.last() {
                assert(nodes[nodes.len() - 1] == nodes.last());
            } else {
                assert(positions_of_nodes(nodes.drop_last()).contains_key(p));
                let v = positions_of_nodes(nodes.drop_last())[p];
                let i = choose|i: int| 0 <= i < nodes.drop_last().len() && nodes.drop_last()[i] == v;
                assert(nodes[i] == v);
            }
        }
    }
}

/// The membership ring plus this node's own connectable address, fixed at
/// startup. An own address outside the configured membership is allowed and
/// makes every key remote: such a node routes and stores nothing locally.
pub struct Cluster {
    ring: NodeRing,
    pub my_addr: String,
}

impl Cluster {
    /// The ring's contents: which node stands at which position.
    pub closed spec fn spec_positions(self) -> Map<u64, Seq<char>> {
        ring_positions(self.ring)
    }

    /// This node's own connectable address.
    pub closed spec fn spec_my_addr(self) -> Seq<char> {
        self.my_addr@
    }

    /// The owner the ring gives a key.
    pub open spec fn spec_owner(self, key: Seq<char>) -> Seq<char> {
        ring_owner(self.spec_positions(), key)
    }

    /// A usable ring holds at least one node.
    pub open spec fn wf(self) -> bool {
        !no_nodes(self.spec_positions())
    }

    /// Builds the ring from the configured membership list. The list must
    /// not be empty: an empty membership is rejected at configuration time.
    pub fn new(settings: &Settings) -> (r: Cluster)
        requires
            settings.cluster_nodes@.len() > 0,
        ensures
            r.wf(),
            r.spec_positions() == positions_of_nodes(
                settings.cluster_nodes@.map_values(|n: String| n@),
            ),
            r.spec_my_addr() == settings.my_connectable_addr@,
    {
        let ghost all = settings.cluster_nodes@.map_values(|n: String| n@);
        let mut ring = ring_new();
        let n = settings.cluster_nodes.len();
        let mut i: usize = 0;
        proof {
            assert(all.take(0) =~= Seq::<Seq<char>>::empty());
        }
        while i < n
            invariant
                0 <= i <= n,
                n == settings.cluster_nodes@.len(),
                all == settings.cluster_nodes@.map_values(|node: String| node@),
                ring_positions(ring) == positions_of_nodes(all.take(i as int)),
            decreases n - i,
        {
            let node = settings.cluster_nodes[i].clone();
            ring_add(&mut ring, node);
            proof {
                assert(all.take(i + 1).drop_last() =~= all.take(i as int));
                assert(all.take(i + 1).last() == all[i as int]);
            }
            i = i + 1;
        }
        proof {
            assert(all.take(n as int) =~= all);
            lemma_positions_from_nodes(all);
            assert(all.last() == all[n - 1]);
        }
        Cluster { ring, my_addr: settings.my_connectable_addr.clone() }
    }

    /// The address of the node that owns `key`: a deterministic, total
    /// choice out of the configured membership.
    pub fn get_node_for_key(&self, key: &str) -> (r: String)
        requires
            self.wf(),
        ensures
            r@ == self.spec_owner(key@),
            self.spec_positions().contains_value(r@),
    {
        match ring_primary(&self.ring, key) {
            Some(addr) => addr,
            None => unreached(),
        }
    }

    /// This node's own connectable address.
    pub fn my_address(&self) -> (r: &String)
        ensures
            r@ == self.spec_my_addr(),
    {
        &self.my_addr
    }

    /// Whether this node itself owns `key`.
    pub fn is_key_local(&self, key: &str) -> (r: bool)
        requires
            self.wf(),
        ensures
            r == (self.spec_owner(key@) == self.spec_my_addr()),
    {
        let target = self.get_node_for_key(key);
        target == self.my_addr
    }
}

/// Routing determinism: rings built from the same membership give every key
/// the same owner, on whichever node the lookup runs.
pub proof fn lemma_routing_deterministic(
    a: Cluster,
    b: Cluster,
    nodes: Seq<Seq<char>>,
    key: Seq<char>,
)
    requires
        a.spec_positions() == positions_of_nodes(nodes),
        b.spec_positions() == positions_of_nodes(nodes),
    ensures
        a.spec_owner(key) == b.spec_owner(key),
{
}

} // verus!
