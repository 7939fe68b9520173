//! Client-side core of a device-detection service: the records it returns,
//! the bounded two-partition cache that keeps them, the cache key derived
//! from request headers, and the decisions a client takes around a lookup.
//!
//! Nothing here performs input or output. A caller asks [`WmClient`] what a
//! lookup needs, talks to the server itself, and hands the answer back.

pub mod cache;
pub mod catalog;
pub mod client;
pub mod digest;
pub mod key;
pub mod model;
pub mod names;
pub mod recency;
pub mod store;

pub use crate::cache::{
    Cache, Partition, _internal_get, _internal_put, DEVICE_ID_CACHE_SIZE, DEVICE_ID_CACHE_TYPE,
    USERAGENT_CACHE_TYPE,
};
pub use crate::catalog::Catalog;
pub use crate::client::{LookupStep, PendingLookup, WmClient};
pub use crate::model::{
    JSONDeviceData, JSONDeviceOsVersions, JSONInfoData, JSONMakeModel, JSONModelMktName, Request,
    WmError,
};
