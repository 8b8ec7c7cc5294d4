//! Run programs with secrets from HashiCorp Vault.
//!
//! This crate holds what can be decided without touching the outside world:
//! the grammar of secrets files, the resolution of options, the shape of every
//! request, the reading of every reply, and the environment that the program
//! finally runs in. Reading files, talking to servers and replacing the
//! process are left to the caller.

pub mod address;
pub mod auth;
pub mod cloud_metadata;
pub mod config;
pub mod http;
pub mod json;
pub mod launch;
pub mod mount_info;
pub mod secrets_file;
pub mod secrets_laws;
pub mod string_map;
pub mod text;
pub mod types;
pub mod vault_api;
