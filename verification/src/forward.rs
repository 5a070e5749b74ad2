//! The forwarding client's state and decisions: the per-peer pool of
//! reusable channel handles, when a call may reuse a pooled handle and when
//! it must connect afresh, and how each reply from a peer is settled —
//! including the eviction of a pooled handle once its peer proves
//! unreachable.
//!
//! The network itself stays outside the library: the caller performs the
//! connect and the call, and hands the outcome back as plain data.

use vstd::prelude::*;

use crate::errors::{RpcClientError, StatusKind};
use crate::json::{is_json, json_text_valid};

verus! {

#[verifier::external_type_specification]
#[verifier::external_body]
#[verifier::reject_recursive_types(K)]
#[verifier::reject_recursive_types(V)]
#[verifier::reject_recursive_types(S)]
pub struct ExDashMap<K, V, S>(dashmap::DashMap<K, V, S>);

/// The handles pooled per peer address: which peer has an established
/// channel, and which handle stands for it.
pub uninterp spec fn pool_entries(m: dashmap::DashMap<String, u64>) -> Map<Seq<char>, u64>;

/// Whether a pool holds no handle at all.
pub open spec fn no_pooled(entries: Map<Seq<char>, u64>) -> bool {
    entries == Map::<Seq<char>, u64>::empty()
}

/// Relies on dashmap::DashMap::new: a fresh map holds nothing.
#[verifier::external_body]
fn pool_new() -> (m: dashmap::DashMap<String, u64>)
    ensures
        no_pooled(pool_entries(m)),
{
    dashmap::DashMap::new()
}

/// Relies on dashmap::DashMap::get: the handle pooled for the address, if
/// one is.
#[verifier::external_body]
fn pool_get(m: &dashmap::DashMap<String, u64>, addr: &str) -> (r: Option<u64>)
    ensures
        r is Some <==> pool_entries(*m).contains_key(addr@),
        r matches Some(h) ==> pool_entries(*m)[addr@] == h,
{
    m.get(addr).map(|v| *v)
}

/// Relies on dashmap::DashMap::insert: the new handle replaces whatever the
/// peer had pooled.
#[verifier::external_body]
fn pool_insert(m: &mut dashmap::DashMap<String, u64>, addr: &str, handle: u64)
    ensures
        pool_entries(*final(m)) == pool_entries(*old(m)).insert(addr@, handle),
{
    m.insert(addr.to_string(), handle);
}

/// Relies on dashmap::DashMap::remove: the peer's pooled handle is gone.
#[verifier::external_body]
fn pool_remove(m: &mut dashmap::DashMap<String, u64>, addr: &str)
    ensures
        pool_entries(*final(m)) == pool_entries(*old(m)).remove(addr@),
{
    m.remove(addr);
}

/// What a forwarded Get came back with, as plain data.
pub enum GetReply {
    /// The peer answered with this payload text.
    Payload(String),
    /// The peer answered with an error status.
    ErrStatus(StatusKind, String),
    /// No channel to the peer could be established within the timeout.
    ConnectFailed(String),
}

/// What a forwarded Set came back with.
pub enum SetReply {
    /// The peer acknowledged the write.
    Ack,
    /// The peer answered with an error status.
    ErrStatus(StatusKind, String),
    /// No channel to the peer could be established within the timeout.
    ConnectFailed(String),
}

/// What a forwarded Delete came back with.
pub enum DeleteReply {
    /// The peer reported this many removals.
    Count(i64),
    /// The peer answered with an error status.
    ErrStatus(StatusKind, String),
    /// No channel to the peer could be established within the timeout.
    ConnectFailed(String),
}

/// How the next call to a peer should obtain its channel.
#[derive(Debug, Clone, Copy, PartialEq, Eq, Structural)]
pub enum ConnectionPlan {
    /// A pooled handle exists; reuse it.
    Reuse(u64),
    /// Nothing is pooled; connect afresh, bounded by this many
    /// milliseconds.
    Connect(u64),
}

/// The pool a reply leaves behind: an unreachable peer loses its pooled
/// handle, every other reply leaves the pool alone.
pub open spec fn spec_settled_pool(
    entries: Map<Seq<char>, u64>,
    addr: Seq<char>,
    kind: StatusKind,
) -> Map<Seq<char>, u64> {
    if kind == StatusKind::Unavailable {
        entries.remove(addr)
    } else {
        entries
    }
}

/// The forwarding client: the shared pool of per-peer channel handles and
/// the connect timeout every fresh connection is bounded by.
pub struct RpcClient {
    pool: dashmap::DashMap<String, u64>,
    connect_timeout_ms: u64,
}

impl RpcClient {
    /// Which peer has a pooled handle, and which.
    pub closed spec fn spec_pool(self) -> Map<Seq<char>, u64> {
        pool_entries(self.pool)
    }

    /// The bound, in milliseconds, on establishing a fresh connection.
    pub closed spec fn spec_connect_timeout(self) -> u64 {
        self.connect_timeout_ms
    }

    /// A client with an empty pool and the given connect timeout.
    pub fn new(connect_timeout_ms: u64) -> (r: RpcClient)
        ensures
            no_pooled(r.spec_pool()),
            r.spec_connect_timeout() == connect_timeout_ms,
    {
        RpcClient { pool: pool_new(), connect_timeout_ms }
    }

    /// The bound, in milliseconds, that every fresh connection is given.
    pub fn connect_timeout(&self) -> (r: u64)
        ensures
            r == self.spec_connect_timeout(),
    {
        self.connect_timeout_ms
    }

    /// How a call to `target_addr` should obtain its channel: reuse the
    /// pooled handle when one exists, otherwise connect afresh under the
    /// client's timeout.
    pub fn connection_plan(&self, target_addr: &str) -> (r: ConnectionPlan)
        ensures
            self.spec_pool().contains_key(target_addr@) ==> r == ConnectionPlan::Reuse(
                self.spec_pool()[target_addr@],
            ),
            !self.spec_pool().contains_key(target_addr@) ==> r == ConnectionPlan::Connect(
                self.spec_connect_timeout(),
            ),
    {
        match pool_get(&self.pool, target_addr) {
            Some(handle) => ConnectionPlan::Reuse(handle),
            None => ConnectionPlan::Connect(self.connect_timeout_ms),
        }
    }

    /// Admits a freshly established channel handle into the pool. Concurrent
    /// connects to the same new peer may race; the last admitted handle
    /// wins.
    pub fn admit_connection(&mut self, target_addr: &str, handle: u64)
        ensures
            final(self).spec_pool() == old(self).spec_pool().insert(target_addr@, handle),
            final(self).spec_connect_timeout() == old(self).spec_connect_timeout(),
    {
        pool_insert(&mut self.pool, target_addr, handle);
    }

    /// Settles a forwarded Get: a payload is returned once it proves to be a
    /// well-formed value, an error status is propagated, and an unreachable
    /// peer loses its pooled handle.
    pub fn settle_get(&mut self, target_addr: &str, reply: GetReply) -> (r: Result<
        String,
        RpcClientError,
    >)
        ensures
            final(self).spec_connect_timeout() == old(self).spec_connect_timeout(),
            match reply {
                GetReply::Payload(v) => {
                    &&& final(self).spec_pool() == old(self).spec_pool()
                    &&& is_json(v@) ==> (r matches Ok(out) && out@ == v@)
                    &&& !is_json(v@) ==> (r matches Err(e) && e matches RpcClientError::Json(_))
                },
                GetReply::ErrStatus(kind, msg) => {
                    &&& final(self).spec_pool() == spec_settled_pool(
                        old(self).spec_pool(),
                        target_addr@,
                        kind,
                    )
                    &&& r matches Err(e) && e matches RpcClientError::Status(k, m) && k == kind
                        && m@ == msg@
                },
                GetReply::ConnectFailed(msg) => {
                    &&& final(self).spec_pool() == old(self).spec_pool()
                    &&& r matches Err(e) && e matches RpcClientError::Transport(m) && m@ == msg@
                },
            },
    {
        match reply {
            GetReply::Payload(v) => {
                if json_text_valid(v.as_str()) {
                    Ok(v)
                } else {
                    Err(RpcClientError::Json("reply is not a well-formed value".to_owned()))
                }
            },
            GetReply::ErrStatus(kind, msg) => {
                if kind == StatusKind::Unavailable {
                    pool_remove(&mut self.pool, target_addr);
                }
                Err(RpcClientError::Status(kind, msg))
            },
            GetReply::ConnectFailed(msg) => Err(RpcClientError::Transport(msg)),
        }
    }

    /// Settles a forwarded Set: the acknowledgement or the propagated error,
    /// with the same eviction of an unreachable peer's handle.
    pub fn settle_set(&mut self, target_addr: &str, reply: SetReply) -> (r: Result<
        (),
        RpcClientError,
    >)
        ensures
            final(self).spec_connect_timeout() == old(self).spec_connect_timeout(),
            match reply {
                SetReply::Ack => {
                    &&& final(self).spec_pool() == old(self).spec_pool()
                    &&& r is Ok
                },
                SetReply::ErrStatus(kind, msg) => {
                    &&& final(self).spec_pool() == spec_settled_pool(
                        old(self).spec_pool(),
                        target_addr@,
                        kind,
                    )
                    &&& r matches Err(e) && e matches RpcClientError::Status(k, m) && k == kind
                        && m@ == msg@
                },
                SetReply::ConnectFailed(msg) => {
                    &&& final(self).spec_pool() == old(self).spec_pool()
                    &&& r matches Err(e) && e matches RpcClientError::Transport(m) && m@ == msg@
                },
            },
    {
        match reply {
            SetReply::Ack => Ok(()),
            SetReply::ErrStatus(kind, msg) => {
                if kind == StatusKind::Unavailable {
                    pool_remove(&mut self.pool, target_addr);
                }
                Err(RpcClientError::Status(kind, msg))
            },
            SetReply::ConnectFailed(msg) => Err(RpcClientError::Transport(msg)),
        }
    }

    /// Settles a forwarded Delete: the peer's count or the propagated error,
    /// with the same eviction of an unreachable peer's handle.
    pub fn settle_delete(&mut self, target_addr: &str, reply: DeleteReply) -> (r: Result<
        i64,
        RpcClientError,
    >)
        ensures
            final(self).spec_connect_timeout() == old(self).spec_connect_timeout(),
            match reply {
                DeleteReply::Count(n) => {
                    &&& final(self).spec_pool() == old(self).spec_pool()
                    &&& r matches Ok(c) && c == n
                },
                DeleteReply::ErrStatus(kind, msg) => {
                    &&& final(self).spec_pool() == spec_settled_pool(
                        old(self).spec_pool(),
                        target_addr@,
                        kind,
                    )
                    &&& r matches Err(e) && e matches RpcClientError::Status(k, m) && k == kind
                        && m@ == msg@
                },
                DeleteReply::ConnectFailed(msg) => {
                    &&& final(self).spec_pool() == old(self).spec_pool()
                    &&& r matches Err(e) && e matches RpcClientError::Transport(m) && m@ == msg@
                },
            },
    {
        match reply {
            DeleteReply::Count(n) => Ok(n),
            DeleteReply::ErrStatus(kind, msg) => {
                if kind == StatusKind::Unavailable {
                    pool_remove(&mut self.pool, target_addr);
                }
                Err(RpcClientError::Status(kind, msg))
            },
            DeleteReply::ConnectFailed(msg) => Err(RpcClientError::Transport(msg)),
        }
    }
}

/// Pool eviction on failure: once a call found the peer unreachable, no
/// pooled handle remains for it, so the next call for that peer plans a
/// fresh connection instead of reusing a stale handle.
pub proof fn lemma_pool_eviction_on_failure(entries: Map<Seq<char>, u64>, addr: Seq<char>)
    ensures
        !spec_settled_pool(entries, addr, StatusKind::Unavailable).contains_key(addr),
{
}

} // verus!
