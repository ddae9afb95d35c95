//! Process-wide configuration handed to the service at construction.
//!
//! The storage root (`filepath`) and the connection settings are plain data;
//! loading them from disk or the environment is the embedding application's
//! job.

use vstd::prelude::*;

verus! {

/// Top-level configuration: where the service listens, where blobs live on
/// disk, and how to reach its collaborators.
pub struct Config {
    pub address: String,
    pub filepath: String,
    pub port: u16,
    pub jwt: JWTConfig,
    pub cors: Option<CORSConfig>,
    pub db: DBConfig,
}

/// Settings for the token-issuing collaborator: how long a token stays valid
/// and where the signing key pair lives.
pub struct JWTConfig {
    pub valid_for: i64,
    pub private_key: String,
    pub public_key: String,
}

/// Origins the embedding HTTP layer may allow for cross-origin requests.
pub struct CORSConfig {
    pub origins: Vec<String>,
}

/// How the persistence collaborator is reached.
pub struct DBConfig {
    pub connection_string: String,
    pub connections: u32,
}

} // verus!
