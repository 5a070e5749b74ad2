//! The internal cache service: the server-side counterpart that a peer's
//! forwarding client calls. It treats every key as locally owned — the
//! caller already routed — decodes the wire's tagged TTL choice, checks the
//! payload, and delegates to the local store.

use vstd::prelude::*;
use vstd::string::StringExecFns;

use crate::errors::StatusKind;
use crate::json::{is_json, json_text_valid};
use crate::store::{
    spec_delete_count, spec_delete_state, spec_get_result, spec_get_state, spec_set, CacheStore,
    EntryModel,
};
use crate::ttl::{spec_resolve_ttl, CacheItemTTL};

verus! {

/// The TTL choice in the tagged form a Set request carries on the wire: use
/// the owner's default, never expire, or a specific number of seconds.
#[derive(Debug, Clone, Copy, PartialEq, Eq, Structural)]
pub enum WireTtl {
    UseDefaultTtl(bool),
    SetPermanent(bool),
    SpecificTtlSeconds(u64),
}

pub open spec fn spec_wire_ttl_of(ttl: CacheItemTTL) -> WireTtl {
    match ttl {
        CacheItemTTL::Default => WireTtl::UseDefaultTtl(true),
        CacheItemTTL::Permanent => WireTtl::SetPermanent(true),
        CacheItemTTL::Custom(d) => WireTtl::SpecificTtlSeconds(d),
    }
}

/// Serializes the TTL choice into the tagged wire form, as the forwarding
/// client sends it.
pub fn wire_ttl_of(ttl: CacheItemTTL) -> (r: WireTtl)
    ensures
        r == spec_wire_ttl_of(ttl),
{
    match ttl {
        CacheItemTTL::Default => WireTtl::UseDefaultTtl(true),
        CacheItemTTL::Permanent => WireTtl::SetPermanent(true),
        CacheItemTTL::Custom(d) => WireTtl::SpecificTtlSeconds(d),
    }
}

pub open spec fn spec_ttl_of_wire(w: Option<WireTtl>) -> CacheItemTTL {
    match w {
        Option::Some(WireTtl::SetPermanent(true)) => CacheItemTTL::Permanent,
        Option::Some(WireTtl::SpecificTtlSeconds(s)) => CacheItemTTL::Custom(s),
        _ => CacheItemTTL::Default,
    }
}

/// Decodes the wire's TTL field, as the service reads it: anything but the
/// two explicit choices — a missing field included — falls back to the
/// owner's default.
pub fn ttl_of_wire(w: Option<WireTtl>) -> (r: CacheItemTTL)
    ensures
        r == spec_ttl_of_wire(w),
{
    match w {
        Option::Some(WireTtl::SetPermanent(true)) => CacheItemTTL::Permanent,
        Option::Some(WireTtl::SpecificTtlSeconds(s)) => CacheItemTTL::Custom(s),
        _ => CacheItemTTL::Default,
    }
}

/// The tagged TTL choice survives the wire: decoding what the forwarding
/// client encodes yields exactly the choice the client made.
pub proof fn lemma_wire_ttl_round_trip(ttl: CacheItemTTL)
    ensures
        spec_ttl_of_wire(Option::Some(spec_wire_ttl_of(ttl))) == ttl,
{
}

/// An error status as the internal service answers it.
#[derive(Debug)]
pub struct RpcStatus {
    pub kind: StatusKind,
    pub message: String,
}

/// The RPC-facing server component: wraps this node's store and answers the
/// requests that peers' forwarding clients routed here.
pub struct MyCacheService {
    cache: CacheStore,
}

impl MyCacheService {
    /// The wrapped store's state.
    pub closed spec fn spec_store(self) -> Seq<EntryModel> {
        self.cache@
    }

    pub closed spec fn spec_capacity(self) -> u64 {
        self.cache.spec_capacity()
    }

    pub closed spec fn spec_default_ttl(self) -> u64 {
        self.cache.spec_default_ttl()
    }

    pub closed spec fn wf(self) -> bool {
        self.cache.wf()
    }

    /// What a well-formed service guarantees of its store: distinct keys and
    /// a resident count within the capacity.
    pub proof fn lemma_wf(self)
        requires
            self.wf(),
        ensures
            crate::store::keys_distinct(self.spec_store()),
            self.spec_store().len() <= self.spec_capacity(),
            self.spec_capacity() >= 1,
    {
    }

    /// Puts the node's store behind the service.
    pub fn new(cache: CacheStore) -> (r: MyCacheService)
        requires
            cache.wf(),
        ensures
            r.wf(),
            r.spec_store() == cache@,
            r.spec_capacity() == cache.spec_capacity(),
            r.spec_default_ttl() == cache.spec_default_ttl(),
    {
        MyCacheService { cache }
    }

    /// A forwarded Set: the payload must decode as one structured value — a
    /// malformed one is answered invalid-argument and never touches the
    /// store — and the wire TTL is decoded and resolved at the owner.
    pub fn internal_set(
        &mut self,
        key: String,
        value_json: String,
        ttl_option: Option<WireTtl>,
        now: u64,
    ) -> (r: Result<(), RpcStatus>)
        requires
            old(self).wf(),
        ensures
            final(self).wf(),
            final(self).spec_capacity() == old(self).spec_capacity(),
            final(self).spec_default_ttl() == old(self).spec_default_ttl(),
            r is Ok <==> is_json(value_json@),
            r is Ok ==> final(self).spec_store() == spec_set(
                old(self).spec_store(),
                key@,
                value_json@,
                spec_resolve_ttl(spec_ttl_of_wire(ttl_option), now, old(self).spec_default_ttl()),
                old(self).spec_capacity() as nat,
            ),
            r matches Err(st) ==> final(self).spec_store() == old(self).spec_store() && st.kind
                == StatusKind::InvalidArgument && st.message@ == "Invalid JSON value provided"@,
    {
        if !json_text_valid(value_json.as_str()) {
            return Err(
                RpcStatus {
                    kind: StatusKind::InvalidArgument,
                    message: "Invalid JSON value provided".to_owned(),
                },
            );
        }
        let ttl = ttl_of_wire(ttl_option);
        self.cache.set(key, value_json, ttl, now);
        Ok(())
    }

    /// A forwarded Get: the live value, or a not-found status naming the
    /// key; an expired entry is lazily removed by this read.
    pub fn internal_get(&mut self, key: &str, now: u64) -> (r: Result<String, RpcStatus>)
        requires
            old(self).wf(),
        ensures
            final(self).wf(),
            final(self).spec_capacity() == old(self).spec_capacity(),
            final(self).spec_default_ttl() == old(self).spec_default_ttl(),
            final(self).spec_store() == spec_get_state(old(self).spec_store(), key@, now),
            r is Ok <==> spec_get_result(old(self).spec_store(), key@, now) is Some,
            r matches Ok(v) ==> spec_get_result(old(self).spec_store(), key@, now)
                == Option::Some(v@),
            r matches Err(st) ==> st.kind == StatusKind::NotFound && st.message@ == "Key '"@ + key@
                + "' not found"@,
    {
        match self.cache.get(key, now) {
            Some(v) => Ok(v),
            None => Err(
                RpcStatus {
                    kind: StatusKind::NotFound,
                    message: "Key '".to_owned().concat(key).concat("' not found"),
                },
            ),
        }
    }

    /// A forwarded Delete: how many entries were removed, 0 or 1.
    pub fn internal_delete(&mut self, key: &str, now: u64) -> (r: i64)
        requires
            old(self).wf(),
        ensures
            final(self).wf(),
            final(self).spec_capacity() == old(self).spec_capacity(),
            final(self).spec_default_ttl() == old(self).spec_default_ttl(),
            r == spec_delete_count(old(self).spec_store(), key@, now),
            final(self).spec_store() == spec_delete_state(old(self).spec_store(), key@),
    {
        self.cache.delete(key, now)
    }
}

} // verus!
