//! The Vault HTTP API.
//!
//! Authentication, mount discovery, secret fetching and the reading of replies,
//! up to the requests themselves.

pub mod client;
pub mod data;
pub mod error;
pub mod fetch;
pub mod login;
pub mod resolver;

pub use client::VaultClient;
pub use data::{AuthPayload, ClientToken, EngineType, MountInfo, VaultData};
pub use error::VaultError;
pub use resolver::{deduplicate, resolve_secrets};
