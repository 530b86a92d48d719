//! Consumer-side engine for a decentralized RPC relay network: canonical
//! relay-envelope serialization and hashing, recoverable signing and address
//! derivation, provider probing and ranking, pairing state, and per-provider
//! session accounting.
pub mod cli;
pub mod crypto;
pub mod dispatch;
pub mod pairing;
pub mod relay_session;
pub mod session_context;
pub mod utils;
