//! An on-chain profile store: one fixed-size user record per authority key,
//! held at an address derived deterministically from a domain tag and the
//! authority's public key, with mutation restricted to that authority.

pub mod errors;
pub mod layout;
pub mod pda;
pub mod profile;
pub mod store;
