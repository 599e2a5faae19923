//! Security properties of a cryptographic primitive.
//!
//! Security properties specify the security of a cryptographic primitive or
//! construction along a variety of axes.  In many cases a property is an
//! estimate, such as the number of security bits.  This is the flat,
//! capability-reporting face of the model; the builder and its override
//! semantics live with [`crate::runes`].

use vstd::prelude::*;

verus! {

/// The maximum number of messages an operation can process.
#[derive(Debug, Clone, PartialEq, Eq)]
pub enum MessageLimit {
    /// No limit is enforced.
    Unbounded,
    /// At most this many messages.
    Limited(u128),
}

/// The maximum total amount of data, in bytes, an operation can process.
#[derive(Debug, Clone, PartialEq, Eq)]
pub enum TotalDataLimit {
    /// No limit is enforced.
    Unbounded,
    /// At most this many bytes.
    Limited(u128),
}

/// Side channel resistances that can be exploited through software attacks.
#[derive(Debug, Clone, PartialEq, Eq)]
pub enum SoftwareSideChannelResistances {
    /// The operation is constant time and therefore resistant to timing
    /// attacks.
    ConstantTime,

    /// The operation is resistant to cache timing attacks executed from the
    /// client environment.
    CacheTimingResistant,
}

/// Side channel resistances that require physical access to the hardware to
/// exploit.
#[derive(Debug, Clone, PartialEq, Eq)]
pub enum HardwareSideChannelResistances {
    /// The operation is resistant to power analysis attacks, both
    /// differential and simple.
    PowerAnalysisResistant,

    /// The operation is resistant to electromagnetic side channel attacks.
    EmSideChannelResistant,
}

/// The level of isolation provided by the operation, including keys and
/// computation.
#[derive(Debug, Clone, PartialEq, Eq)]
pub enum IsolationLevel {
    /// The operation is isolated in a separate process on the same machine
    /// and under the same operating system as the caller.
    SeparateProcess,

    /// The operation is isolated in a virtual machine on the same CPU as the
    /// caller but not in the same operating system.
    VirtualMachine,

    /// The operation is isolated in a discrete CPU physically separate from
    /// the caller's CPU.
    DiscreteCpu,
}

/// The identity of the party whose data a property authenticates.
#[derive(Debug, Clone, PartialEq, Eq)]
pub struct OriginIdentity;

/// A third-party certification of the secure hardware.
#[derive(Debug, Clone, PartialEq, Eq)]
pub struct SecurityCertification;

/// One security property of a cryptographic primitive.
#[derive(Debug, Clone, PartialEq, Eq)]
pub enum SecurityProperty {
    /// The operation uses a public/private key pair, allowing the public key
    /// to be distributed to other parties for encryption or verification.
    PublicPrivateKeyPair,

    /// The operation uses a shared secret.
    SharedSecret,

    /// The estimated number of security bits, assuming the key material is
    /// not compromised, under a classical computing model.
    SecurityBits(u16),

    /// The maximum number of messages the operation can process before its
    /// security guarantees may be compromised.
    MessageLimit(MessageLimit),

    /// The maximum total amount of data the operation can process.
    TotalDataLimit(TotalDataLimit),

    /// The operation provides confidentiality of the data.
    Confidentiality,

    /// The operation ensures the integrity of the data.
    Integrity,

    /// The operation provides authentication of the source of the data.
    Authentication(OriginIdentity),

    /// The operation's security is resistant to quantum computing attacks.
    QuantumResistance,

    /// Resistance to side channel attacks exploitable through software.
    SoftwareSideChannelResistance(SoftwareSideChannelResistances),

    /// Resistance to side channel attacks that require physical access to
    /// the hardware.
    HardwareSideChannelResistance(HardwareSideChannelResistances),

    /// The operation and the keys it uses are kept in an isolated
    /// environment.
    Isolated(IsolationLevel),

    /// The secure hardware has been evaluated and certified by one or more
    /// third parties.
    Certifications(Vec<SecurityCertification>),
}

/// An ordered collection of security properties, as reported by a
/// primitive.
#[derive(Debug, Clone, PartialEq, Eq)]
pub struct SecurityPropertySet {
    properties: Vec<SecurityProperty>,
}

impl View for SecurityPropertySet {
    type V = Seq<SecurityProperty>;

    /// A property set is read as the sequence of its properties.
    closed spec fn view(&self) -> Seq<SecurityProperty> {
        self.properties@
    }
}

impl SecurityPropertySet {
    /// Wraps the given properties, in order.
    pub fn new(properties: Vec<SecurityProperty>) -> (r: Self)
        ensures
            r@ == properties@,
    {
        Self { properties }
    }

    /// The properties, in the order they were given.
    pub fn properties(&self) -> (r: &[SecurityProperty])
        ensures
            r@ == self@,
    {
        self.properties.as_slice()
    }
}

} // verus!
