//! The control plane of a privacy-minded torrent daemon: the registry of
//! torrents, its reconciliation with the transfer engine, the analytics
//! that are derived from the engine's reports, the VPN kill switch, and
//! the decoder for torrent metadata.

pub mod admin;
pub mod availability;
pub mod bencode;
pub mod clock;
pub mod config;
pub mod digest;
pub mod engine;
pub mod error;
pub mod geo;
pub mod heartbeat;
pub mod ids;
pub mod ingest;
pub mod json;
pub mod kill_switch;
pub mod magnet;
pub mod metainfo;
pub mod model;
pub mod peers;
pub mod policy;
pub mod record;
pub mod redact;
pub mod requests;
pub mod samples;
pub mod sanitize;
pub mod state;
pub mod text;
pub mod trackers;
pub mod vpn;
