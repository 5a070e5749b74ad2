//! A sharded, TTL-aware key-value cache node: a bounded per-node store with
//! lazy expiry and least-recently-used eviction, a consistent-hashing
//! membership ring that assigns each key one owning node, and the pooled
//! forwarding layer that carries operations to the owner.

pub mod errors;
pub mod forward;
pub mod json;
pub mod ring;
pub mod router;
pub mod service;
pub mod settings;
pub mod store;
pub mod ttl;

pub use errors::{AppError, RpcClientError, StatusKind};
pub use forward::RpcClient;
pub use ring::Cluster;
pub use router::RouteTarget;
pub use service::{MyCacheService, RpcStatus, WireTtl};
pub use settings::{CacheSettings, Settings, SettingsError};
pub use store::{CacheEntry, CacheStore};
pub use ttl::{parse_ttl_query, CacheItemTTL};
