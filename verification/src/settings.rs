//! Node configuration: the two listen addresses, this node's connectable
//! address, the static cluster membership, and the cache parameters.
//!
//! Reading the process environment happens outside the library; this module
//! applies the documented defaults and rejects configurations the core
//! cannot run with.

use vstd::prelude::*;

verus! {

#[derive(Debug, Clone)]
pub struct CacheSettings {
    pub capacity: u64,
    pub default_ttl_seconds: u64,
}

#[derive(Debug, Clone)]
pub struct Settings {
    pub http_addr: String,
    pub rpc_addr: String,
    pub my_connectable_addr: String,
    pub cluster_nodes: Vec<String>,
    pub cache: CacheSettings,
    pub log_level: String,
}

/// A configuration the process cannot start with.
#[derive(Debug, Clone, Copy, PartialEq, Eq, Structural)]
pub enum SettingsError {
    /// The cluster membership list is empty.
    EmptyClusterNodes,
    /// The cache capacity is zero.
    ZeroCapacity,
}

pub open spec fn or_default(given: Option<Seq<char>>, dflt: Seq<char>) -> Seq<char> {
    match given {
        Option::Some(s) => s,
        Option::None => dflt,
    }
}

pub open spec fn or_default_u64(given: Option<u64>, dflt: u64) -> u64 {
    match given {
        Option::Some(v) => v,
        Option::None => dflt,
    }
}

impl Settings {
    /// Assembles the node's settings from whatever the environment supplied,
    /// filling each absent value with its documented default, and rejecting
    /// an empty membership list or a zero capacity as fatal configuration
    /// errors.
    pub fn from_values(
        http_addr: Option<String>,
        rpc_addr: Option<String>,
        my_connectable_addr: String,
        cluster_nodes: Vec<String>,
        capacity: Option<u64>,
        default_ttl_seconds: Option<u64>,
        log_level: Option<String>,
    ) -> (r: Result<Settings, SettingsError>)
        ensures
            r is Ok <==> cluster_nodes@.len() > 0 && or_default_u64(capacity, 10000) >= 1,
            cluster_nodes@.len() == 0 ==> r == Result::<Settings, SettingsError>::Err(
                SettingsError::EmptyClusterNodes,
            ),
            cluster_nodes@.len() > 0 && or_default_u64(capacity, 10000) == 0 ==> r
                == Result::<Settings, SettingsError>::Err(SettingsError::ZeroCapacity),
            r matches Ok(s) ==> {
                &&& s.http_addr@ == or_default(
                    match http_addr {
                        Option::Some(a) => Option::Some(a@),
                        Option::None => Option::None,
                    },
                    "0.0.0.0:8000"@,
                )
                &&& s.rpc_addr@ == or_default(
                    match rpc_addr {
                        Option::Some(a) => Option::Some(a@),
                        Option::None => Option::None,
                    },
                    "0.0.0.0:50051"@,
                )
                &&& s.my_connectable_addr@ == my_connectable_addr@
                &&& s.cluster_nodes@ == cluster_nodes@
                &&& s.cache.capacity == or_default_u64(capacity, 10000)
                &&& s.cache.capacity >= 1
                &&& s.cache.default_ttl_seconds == or_default_u64(default_ttl_seconds, 3600)
                &&& s.log_level@ == or_default(
                    match log_level {
                        Option::Some(a) => Option::Some(a@),
                        Option::None => Option::None,
                    },
                    "info"@,
                )
            },
    {
        if cluster_nodes.len() == 0 {
            return Err(SettingsError::EmptyClusterNodes);
        }
        let capacity = match capacity {
            Option::Some(c) => c,
            Option::None => 10000,
        };
        if capacity == 0 {
            return Err(SettingsError::ZeroCapacity);
        }
        let http_addr = match http_addr {
            Option::Some(a) => a,
            Option::None => "0.0.0.0:8000".to_owned(),
        };
        let rpc_addr = match rpc_addr {
            Option::Some(a) => a,
            Option::None => "0.0.0.0:50051".to_owned(),
        };
        let default_ttl_seconds = match default_ttl_seconds {
            Option::Some(v) => v,
            Option::None => 3600,
        };
        let log_level = match log_level {
            Option::Some(a) => a,
            Option::None => "info".to_owned(),
        };
        Ok(
            Settings {
                http_addr,
                rpc_addr,
                my_connectable_addr,
                cluster_nodes,
                cache: CacheSettings { capacity, default_ttl_seconds },
                log_level,
            },
        )
    }
}

} // verus!
