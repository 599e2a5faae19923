//! A negotiation model for cryptographic capabilities.
//!
//! Callers describe the security they demand from a cryptographic operation,
//! constructions describe the security they actually deliver, and the two are
//! reconciled: a requirement schema is matched against candidate capability
//! schemas, and a successful match yields an enforced schema whose limits are
//! decremented as the bound key is used.

use vstd::prelude::*;

pub mod block_cipher;
mod clock;
pub mod construction;
pub mod enforcement;
pub mod error;
pub mod matching;
pub mod provider;
pub mod runes;
pub mod security_properties;

verus! {

/// A primitive that can report the security properties it provides.
pub trait CryptographicPrimitive {
    /// The security properties the primitive actually provides.
    fn security_properties(&self) -> runes::Schema;
}

} // verus!
