//! Verified core of `validate_pgp_server`, a TLS server that authenticates
//! client certificates and checks PGP-encrypted license requests.
//!
//! - `config`: the configuration, its validity and the command-line decision.
//! - `sslserver`: the client-certificate admission policy.
//! - `validate`: the request protocol and the check of the decrypted JSON.
//! - `json`: the `serde_json` calls the protocol makes.
//! - `text`: character-level string helpers.

pub mod config;
pub mod json;
pub mod sslserver;
pub mod text;
pub mod validate;
