//! Verified core of the beemesh machine plane: manifest version tracking,
//! local manifest storage, manifest holder bookkeeping, replay protection,
//! provider discovery, handshakes, the decisions taken on apply, delete,
//! key-share and manifest requests, the tasks of the REST side, the
//! command-line client's decisions, and the byte formats exchanged between
//! machines.
pub mod apply;
pub mod assoc;
pub mod bytes;
pub mod capacity;
pub mod client;
pub mod clock;
pub mod config;
pub mod control;
pub mod crypto;
pub mod delete;
pub mod digest;
pub mod discovery;
pub mod discovery_manager;
pub mod envelope;
pub mod error_helpers;
pub mod handshake;
pub mod keyshare;
pub mod keystore_helper;
pub mod kube;
pub mod logging;
pub mod manifest_announcement;
pub mod manifest_fetch;
pub mod manifest_store;
pub mod provider;
pub mod provider_manager;
pub mod recipient_blob;
pub mod reply;
pub mod rest;
pub mod replay;
pub mod signing;
pub mod tasks;
pub mod text;
pub mod versioning;
