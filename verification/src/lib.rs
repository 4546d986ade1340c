//! Sled-local storage orchestration.
//!
//! This crate models the storage layer of a rack-scale control plane agent:
//! it tracks the storage pools attached to one machine, materializes
//! per-service datasets inside isolated execution zones backed by those
//! pools, persists dataset configuration so zones can be rebuilt after a
//! reboot, and queues outbound notifications that keep a central control
//! plane informed of what storage exists.
//!
//! The interactions with the host (filesystem creation, zone boot, property
//! stamping) are expressed against an explicit model of the host's observable
//! state, [`system::StorageSystem`]; a driver that talks to the real host
//! keeps that model in sync and performs the corresponding side effects.
//!
//! Alongside the storage core, the crate carries a few small verified
//! companions of the same control plane: the message types spoken to a
//! service processor, crash-dump header validation, the authorization
//! vocabulary, and checks over structured log records.

pub mod authz;
pub mod bunyan;
pub mod bytes;
pub mod config;
pub mod dataset;
pub mod dumphdr;
pub mod error;
pub mod ids;
pub mod manager;
pub mod messages;
pub mod net;
pub mod num;
pub mod pool;
pub mod system;
