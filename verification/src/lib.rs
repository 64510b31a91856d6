//! Transaction preparation and owner resolution for a multisig wallet client.
//!
//! The crate is split into the address model, the planning of deploy and
//! transfer messages, and the cache that maps token wallets to their owners.

pub mod address;
pub mod address_map;
pub mod owners_cache;
pub mod multisig;
pub mod record;
