//! The verified core of Indelible's integrations: YouTube URL recognition,
//! provider candidates for feeds, the Miniflux sync and read-state push, the
//! OAuth callback and connection removal, the worker's maintenance and feed
//! scheduling, export summaries and the API's integration payloads.
pub mod auto_heal;
pub mod dispatch;
pub mod domain;
pub mod dto;
pub mod error;
pub mod export_summary;
pub mod miniflux;
pub mod miniflux_sync;
pub mod operations;
pub mod outside;
pub mod provider_candidates;
pub mod schedulers;
pub mod tag_names;
pub mod text;
pub mod youtube;
