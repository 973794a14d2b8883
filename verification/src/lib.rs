//! Versioned knowledge-graph mapping engine.
//!
//! Entities carry attribute and relation edges scoped to a space and a
//! version interval `[min_version, max_version)`; an absent `max_version`
//! means the edge is live. The crate provides the typed value model,
//! deterministic identifier derivation, the filter and query-builder
//! kernel, the versioned triple and relation stores, space-hierarchy
//! traversal with pluralism fallback, and the event-sourced ingestion
//! pipeline that turns decoded on-chain edits into versioned mutations.
//!
//! The modules, leaves first: [`history`] models the version history
//! of one edge key and carries the replay and read-back laws;
//! [`value`] and [`ids`] give the scalar values and the derived
//! identifiers; [`pb`] holds the decoded wire records; [`query`] and
//! [`filters`] compile filters into backend query parts; [`store`]
//! and [`relations`] are the two versioned planes; [`graph`] binds
//! them with the entity table and the version registry; [`hierarchy`]
//! walks the space graph; [`models`] and [`entity`] are the typed
//! projections; [`ingest`] applies block bundles; [`replay`] proves
//! that re-applying a bundle's mutations changes nothing.

use vstd::prelude::*;

pub mod attributes;
pub mod block;
pub mod entity;
pub mod filters;
pub mod graph;
pub mod hierarchy;
pub mod history;
pub mod ids;
pub mod indexer_ids;
pub mod ingest;
pub mod models;
pub mod network_ids;
pub mod node;
pub mod pb;
pub mod query;
pub mod relations;
pub mod replay;
pub mod store;
pub mod system_ids;
pub mod time;
pub mod value;

verus! {

/// `true` for the ASCII characters that may appear in a base-58 string:
/// digits and letters except `0`, `O`, `I` and `l`.
pub open spec fn is_base58_char(c: char) -> bool {
    ('1' <= c && c <= '9') || ('A' <= c && c <= 'H') || ('J' <= c && c <= 'N') || ('P' <= c
        && c <= 'Z') || ('a' <= c && c <= 'k') || ('m' <= c && c <= 'z')
}

} // verus!
