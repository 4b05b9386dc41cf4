//! Identity resolution with bounded, time-expiring caching.
//!
//! The crate resolves an actor identifier (a DID or a domain-shaped handle)
//! to a full identity record: the actor's DID, its identity document, its
//! best-known handle and the endpoint of its personal data server.  Network
//! traffic is left to the caller: the resolver is a step machine that says
//! which URL to fetch next, and the caller feeds the outcome back in.

pub mod cache;
pub mod classify;
pub mod document;
pub mod notify;
pub mod resolver;
pub mod text;
