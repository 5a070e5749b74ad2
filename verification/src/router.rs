//! The per-request routing decision that glues store, ring and forwarding
//! together: the ring names the owner; the owner's own store serves the
//! operation, every other node forwards it there.

use vstd::prelude::*;

use crate::errors::AppError;
use crate::ring::{positions_of_nodes, Cluster};
use crate::store::{
    entry_live, has_key, keys_distinct, lemma_remove_key_shape, lemma_set_shape,
    lemma_set_then_get, spec_delete_state, spec_get_result, spec_set, EntryModel,
};

verus! {

/// Where an operation on a key must run.
pub enum RouteTarget {
    /// This node owns the key: serve it from the local store.
    Local,
    /// The named peer owns the key: forward the operation there.
    Remote(String),
}

impl Cluster {
    /// The routing decision for one key: local exactly when the ring names
    /// this node's own address as the owner.
    pub fn route_for_key(&self, key: &str) -> (r: RouteTarget)
        requires
            self.wf(),
        ensures
            self.spec_owner(key@) == self.spec_my_addr() ==> r == RouteTarget::Local,
            self.spec_owner(key@) != self.spec_my_addr() ==> (r matches RouteTarget::Remote(a)
                && a@ == self.spec_owner(key@)),
    {
        let target = self.get_node_for_key(key);
        if target == *self.my_address() {
            RouteTarget::Local
        } else {
            RouteTarget::Remote(target)
        }
    }
}

/// The body of a client Set must hold exactly one key/value pair; that pair
/// is the operation's key and value.
pub fn extract_single_pair(pairs: Vec<(String, String)>) -> (r: Result<(String, String), AppError>)
    ensures
        pairs@.len() == 1 ==> (r matches Ok(p) && p.0@ == pairs@[0].0@ && p.1@ == pairs@[0].1@),
        pairs@.len() != 1 ==> (r matches Err(e) && e matches AppError::InvalidInput(m) && m@
            == "JSON body must contain exactly one key-value pair"@),
{
    let mut pairs = pairs;
    if pairs.len() == 1 {
        match pairs.pop() {
            Some(p) => Ok(p),
            None => unreached(),
        }
    } else {
        Err(
            AppError::InvalidInput(
                "JSON body must contain exactly one key-value pair".to_owned(),
            ),
        )
    }
}

/// Round trip of forwarding: every node configured with the same membership
/// list routes a key to the same owner; a Set applied at that owner is read
/// back by a following Get, wherever in the cluster the Get enters; and a
/// Delete issued the same way removes the key for the whole cluster.
pub proof fn lemma_forwarding_round_trip(
    writer: Cluster,
    reader: Cluster,
    nodes: Seq<Seq<char>>,
    key: Seq<char>,
    owner_store: Seq<EntryModel>,
    v: Seq<char>,
    exp: Option<u64>,
    cap: nat,
    now: u64,
)
    requires
        writer.spec_positions() == positions_of_nodes(nodes),
        reader.spec_positions() == positions_of_nodes(nodes),
        keys_distinct(owner_store),
        owner_store.len() <= cap,
        cap >= 1,
    ensures
        writer.spec_owner(key) == reader.spec_owner(key),
        entry_live((EntryModel { key: key, value: v, expires_at: exp }), now) ==> spec_get_result(
            spec_set(owner_store, key, v, exp, cap),
            key,
            now,
        ) == Option::Some(v),
        !has_key(spec_delete_state(spec_set(owner_store, key, v, exp, cap), key), key),
{
    lemma_set_then_get(owner_store, key, v, exp, cap, now);
    lemma_set_shape(owner_store, key, v, exp, cap);
    lemma_remove_key_shape(spec_set(owner_store, key, v, exp, cap), key);
}

} // verus!
