//! The provider boundary: key-lifecycle operations and the operation-binding
//! object whose enforced limits derive from a matched schema.

use vstd::prelude::*;

verus! {

/// The kind of variation parameter a caller can supply, or that a
/// construction demands, when a seal operation needs per-message variation.
///
/// `Unique` is the most restrictive kind to provide; `Arbitrary` is the
/// least, placing no constraint on the value.
#[derive(Debug, Clone, Copy, PartialEq, Eq, Structural)]
pub enum VariationType {
    /// Any value is acceptable.
    Arbitrary,
    /// Every value must differ from all values previously supplied.
    Unique,
}

/// How restrictive a variation type is: a caller able to provide a kind of
/// a given rank can satisfy any construction demanding a lower or equal rank.
pub open spec fn variation_rank(t: VariationType) -> int {
    match t {
        VariationType::Arbitrary => 0,
        VariationType::Unique => 1,
    }
}

/// Executable counterpart of [`variation_rank`].
pub fn variation_rank_index(t: VariationType) -> (r: u32)
    ensures
        r == variation_rank(t),
{
    match t {
        VariationType::Arbitrary => 0,
        VariationType::Unique => 1,
    }
}

/// A provider gives access to a set of cryptographic primitives: it manages
/// the lifecycle of keys and supplies a secure environment for them.  The
/// negotiation core hands a provider the desired properties; the provider
/// materializes key material and operation objects whose enforced limits
/// derive from the matched schema.
pub trait Provider {
    /// Live key material, owned by the provider.
    type Key;

    /// Generates a key satisfying the desired properties.
    fn generate_key(&self, desired_properties: crate::security_properties::SecurityPropertySet) -> Result<
        Self::Key,
        crate::error::Error,
    >;

    /// Binds a sealing operation to a key.
    fn create_sealing_operation(&self, key: &Self::Key) -> Result<
        crate::enforcement::BindRune,
        crate::error::Error,
    >;

    /// Binds an unsealing operation to a key.
    fn create_unsealing_operation(&self, key: &Self::Key) -> Result<
        crate::enforcement::BindRune,
        crate::error::Error,
    >;
}

} // verus!
