//! Job Declarator Client for the Stratum V2 mining protocol: wire codecs,
//! framing, hashing helpers, coinbase construction and the pool-side
//! declaration state machine.

pub mod client;
pub mod coinbase;
pub mod error;
pub mod framing;
pub mod hashing;
pub mod messages;
pub mod msg_types;
pub mod outputs;
pub mod template;
pub mod types;
pub mod wire;
