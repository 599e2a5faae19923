//! Runes specify the security of a cryptographic operation along a variety of
//! axes.
//!
//! Runes have two uses:
//!
//! - Requirement specification: a caller assembles a [`Schema`] through a
//!   [`SchemaBuilder`] to state the minimum requirements for a desired
//!   construction.
//! - Capability reporting: a construction reports the security properties it
//!   actually provides as a [`Schema`] of its own.
//!
//! Within one schema each kind of rune appears at most once.  Inserting a rune
//! of a kind already present replaces the old one, except for the three
//! vector-valued kinds (software and hardware side-channel resistance, and
//! certifications), where insertion unions the new items into the existing
//! ones, de-duplicating by value.

use vstd::prelude::*;
use vstd::pervasive::VecAdditionalExecFns;

use crate::error::Error;
use crate::provider::VariationType;

verus! {

/// Side channel resistances that can be exploited through software attacks,
/// typically by malicious code running on the same system or by an attacker
/// who can measure timing or other software-observable characteristics.
#[derive(Debug, Clone, Copy, PartialEq, Eq, Structural)]
pub enum SoftwareSideChannelResistance {
    /// The operation is constant time and therefore resistant to timing
    /// attacks.
    ConstantTime,

    /// The operation is resistant to cache timing attacks executed from the
    /// client environment.
    CacheTimingResistant,
}

/// Side channel resistances that require physical access to the hardware to
/// exploit, such as power analysis or electromagnetic emissions.
#[derive(Debug, Clone, Copy, PartialEq, Eq, Structural)]
pub enum HardwareSideChannelResistance {
    /// The operation is resistant to power analysis attacks, both
    /// differential and simple, executed against the hosting device.
    PowerAnalysisResistant,

    /// The operation is resistant to electromagnetic side channel attacks
    /// executed against the hosting device.
    EmSideChannelResistant,
}

/// The level of isolation provided by the operation, including keys and
/// computation.  The variants are ordered from weakest to strongest.
#[derive(Debug, Clone, Copy, PartialEq, Eq, Structural)]
pub enum IsolationLevel {
    /// The operation runs in the same process as the application.
    SameProcess,

    /// The operation is isolated in a separate process on the same machine
    /// and under the same operating system as the caller.
    SeparateProcess,

    /// The operation is isolated in a virtual machine on the same CPU as the
    /// caller but not in the same operating system.
    VirtualMachine,

    /// The operation is isolated in a discrete CPU physically separate from
    /// the caller's CPU.  This is the strongest form of isolation.
    DiscreteCpu,
}

/// Where an isolation level stands in the weakest-to-strongest order.
pub open spec fn isolation_rank(l: IsolationLevel) -> int {
    match l {
        IsolationLevel::SameProcess => 0,
        IsolationLevel::SeparateProcess => 1,
        IsolationLevel::VirtualMachine => 2,
        IsolationLevel::DiscreteCpu => 3,
    }
}

/// Executable counterpart of [`isolation_rank`].
pub fn isolation_rank_index(l: IsolationLevel) -> (r: u32)
    ensures
        r == isolation_rank(l),
{
    match l {
        IsolationLevel::SameProcess => 0,
        IsolationLevel::SeparateProcess => 1,
        IsolationLevel::VirtualMachine => 2,
        IsolationLevel::DiscreteCpu => 3,
    }
}

/// The identity of the party whose data a rune authenticates.
#[derive(Debug, Clone, Copy, PartialEq, Eq, Structural)]
pub struct OriginIdentity;

/// A third-party certification of the secure hardware, identified by a
/// registry number.  Two certifications are the same exactly when their
/// identifiers are equal.
#[derive(Debug, Clone, Copy, PartialEq, Eq, Structural)]
pub struct SecurityCertification(pub u64);

/// How the per-message variation parameter of a seal operation is chosen.
#[derive(Debug, Clone, Copy, PartialEq, Eq, Structural)]
pub enum VariationStrategy {
    /// The variation is generated automatically by the seal operation and
    /// returned to the caller.  This is the default and recommended strategy.
    Automatic,

    /// The variation is provided by the caller.  In a requirement the payload
    /// states what kind of variation parameter the caller is able to provide;
    /// in a capability it states the kind the construction demands.
    CallerProvided(VariationType),
}

/// The sentinel limit value meaning "unbounded".  It is a legal value for a
/// capability to report but a forbidden input when building a requirement.
pub const UNBOUNDED: u128 = u128::MAX;

/// One axis of security, as required by a caller or reported by a
/// construction.
#[derive(Debug, PartialEq, Eq)]
pub enum Rune {
    /// The operation uses a public/private key pair, allowing the public key
    /// to be distributed to other parties for encryption or verification.
    /// When this rune is absent the operation uses a symmetric key or a
    /// shared secret.
    PublicPrivateKeyPair,

    /// The estimated number of security bits the operation provides, assuming
    /// the key material is not compromised, under a classical computing
    /// model.  In a requirement this is the minimum acceptable estimate; in a
    /// capability it is the actual estimate.
    SecurityBits(u16),

    /// The minimum number of messages that must be supported by the
    /// construction without compromising its security guarantees.  The
    /// construction's own limit is usually higher and is what gets enforced.
    MessageLimit(u128),

    /// Both the minimum number of messages that must be supported and the
    /// message count that will be enforced, even if the selected
    /// construction's limit is higher.  In an enforced schema this is the
    /// remaining message budget, decremented on each use.
    EnforcedMessageLimit(u128),

    /// The maximum size of a single message, in bytes, that must be supported
    /// by the selected construction.
    MessageSizeLimit(u128),

    /// Both the maximum message size that must be supported and the size that
    /// will be enforced on every call, even if the selected construction's
    /// limit is higher.
    EnforcedMessageSizeLimit(u128),

    /// The maximum total amount of data, in bytes, that must be supported by
    /// the selected construction.
    TotalDataLimit(u128),

    /// Both the maximum total amount of data that must be supported and the
    /// total that will be enforced.  In an enforced schema this is the
    /// remaining data budget, decremented by the processed byte count on each
    /// use.
    EnforcedTotalDataLimit(u128),

    /// The operation provides confidentiality of the data until the given end
    /// time, in milliseconds since the Unix epoch.
    Confidentiality { end_time: i64 },

    /// The operation ensures the integrity of the data until the given year.
    Integrity { year: u16 },

    /// The operation provides authentication of the source of the data until
    /// the given year.
    Authentication { origin: OriginIdentity, year: u16 },

    /// The operation's security is valid for a specific period of time, given
    /// by begin and end milliseconds since the Unix epoch.  Outside of the
    /// period the operation is rejected.
    CryptoPeriod { begin: i64, end: i64 },

    /// The operation's security is resistant to quantum computing attacks.
    QuantumResistance,

    /// Resistance to side channel attacks exploitable through software.  In a
    /// requirement, all of the listed resistances must be provided.
    SoftwareSideChannelResistance(Vec<SoftwareSideChannelResistance>),

    /// Resistance to side channel attacks that require physical access to the
    /// hardware.  In a requirement, all of the listed resistances must be
    /// provided.
    HardwareSideChannelResistance(Vec<HardwareSideChannelResistance>),

    /// The operation and the keys it uses are kept in an isolated
    /// environment, separate from the caller's environment.
    Isolated(IsolationLevel),

    /// The secure hardware has been evaluated and certified by one or more
    /// third parties.  In a requirement, at least one of the listed
    /// certifications must be available.
    Certifications(Vec<SecurityCertification>),

    /// How the per-message variation parameter of the seal operation is
    /// chosen.
    VariationStrategy(VariationStrategy),
}

/// The mathematical value of a [`Rune`]: the same tagged union with sequences
/// in place of vectors.
#[verifier::ext_equal]
pub enum RuneView {
    PublicPrivateKeyPair,
    SecurityBits(u16),
    MessageLimit(u128),
    EnforcedMessageLimit(u128),
    MessageSizeLimit(u128),
    EnforcedMessageSizeLimit(u128),
    TotalDataLimit(u128),
    EnforcedTotalDataLimit(u128),
    Confidentiality { end_time: i64 },
    Integrity { year: u16 },
    Authentication { origin: OriginIdentity, year: u16 },
    CryptoPeriod { begin: i64, end: i64 },
    QuantumResistance,
    SoftwareSideChannelResistance(Seq<SoftwareSideChannelResistance>),
    HardwareSideChannelResistance(Seq<HardwareSideChannelResistance>),
    Isolated(IsolationLevel),
    Certifications(Seq<SecurityCertification>),
    VariationStrategy(VariationStrategy),
}

impl View for Rune {
    type V = RuneView;

    open spec fn view(&self) -> RuneView {
        match self {
            Rune::PublicPrivateKeyPair => RuneView::PublicPrivateKeyPair,
            Rune::SecurityBits(bits) => RuneView::SecurityBits(*bits),
            Rune::MessageLimit(n) => RuneView::MessageLimit(*n),
            Rune::EnforcedMessageLimit(n) => RuneView::EnforcedMessageLimit(*n),
            Rune::MessageSizeLimit(n) => RuneView::MessageSizeLimit(*n),
            Rune::EnforcedMessageSizeLimit(n) => RuneView::EnforcedMessageSizeLimit(*n),
            Rune::TotalDataLimit(n) => RuneView::TotalDataLimit(*n),
            Rune::EnforcedTotalDataLimit(n) => RuneView::EnforcedTotalDataLimit(*n),
            Rune::Confidentiality { end_time } => (RuneView::Confidentiality { end_time: *end_time }),
            Rune::Integrity { year } => (RuneView::Integrity { year: *year }),
            Rune::Authentication { origin, year } => (RuneView::Authentication { origin: *origin, year: *year }),
            Rune::CryptoPeriod { begin, end } => (RuneView::CryptoPeriod { begin: *begin, end: *end }),
            Rune::QuantumResistance => RuneView::QuantumResistance,
            Rune::SoftwareSideChannelResistance(v) => RuneView::SoftwareSideChannelResistance(v@),
            Rune::HardwareSideChannelResistance(v) => RuneView::HardwareSideChannelResistance(v@),
            Rune::Isolated(l) => RuneView::Isolated(*l),
            Rune::Certifications(v) => RuneView::Certifications(v@),
            Rune::VariationStrategy(s) => RuneView::VariationStrategy(*s),
        }
    }
}

/// The discriminant of a rune, independent of its payload.  A limit and its
/// enforced counterpart share a kind: a schema holds one or the other, never
/// both.
#[derive(Debug, Clone, Copy, PartialEq, Eq, Structural)]
pub enum RuneKind {
    KeyTopology,
    SecurityBits,
    MessageLimit,
    MessageSizeLimit,
    TotalDataLimit,
    Confidentiality,
    Integrity,
    Authentication,
    CryptoPeriod,
    QuantumResistance,
    SoftwareSideChannelResistance,
    HardwareSideChannelResistance,
    Isolation,
    Certifications,
    VariationStrategy,
}

/// The kind of a rune value.
pub open spec fn rune_kind(r: RuneView) -> RuneKind {
    match r {
        RuneView::PublicPrivateKeyPair => RuneKind::KeyTopology,
        RuneView::SecurityBits(_) => RuneKind::SecurityBits,
        RuneView::MessageLimit(_) => RuneKind::MessageLimit,
        RuneView::EnforcedMessageLimit(_) => RuneKind::MessageLimit,
        RuneView::MessageSizeLimit(_) => RuneKind::MessageSizeLimit,
        RuneView::EnforcedMessageSizeLimit(_) => RuneKind::MessageSizeLimit,
        RuneView::TotalDataLimit(_) => RuneKind::TotalDataLimit,
        RuneView::EnforcedTotalDataLimit(_) => RuneKind::TotalDataLimit,
        RuneView::Confidentiality { .. } => RuneKind::Confidentiality,
        RuneView::Integrity { .. } => RuneKind::Integrity,
        RuneView::Authentication { .. } => RuneKind::Authentication,
        RuneView::CryptoPeriod { .. } => RuneKind::CryptoPeriod,
        RuneView::QuantumResistance => RuneKind::QuantumResistance,
        RuneView::SoftwareSideChannelResistance(_) => RuneKind::SoftwareSideChannelResistance,
        RuneView::HardwareSideChannelResistance(_) => RuneKind::HardwareSideChannelResistance,
        RuneView::Isolated(_) => RuneKind::Isolation,
        RuneView::Certifications(_) => RuneKind::Certifications,
        RuneView::VariationStrategy(_) => RuneKind::VariationStrategy,
    }
}

impl Rune {
    /// The kind of this rune.
    pub fn kind(&self) -> (k: RuneKind)
        ensures
            k == rune_kind(self@),
    {
        match self {
            Rune::PublicPrivateKeyPair => RuneKind::KeyTopology,
            Rune::SecurityBits(_) => RuneKind::SecurityBits,
            Rune::MessageLimit(_) => RuneKind::MessageLimit,
            Rune::EnforcedMessageLimit(_) => RuneKind::MessageLimit,
            Rune::MessageSizeLimit(_) => RuneKind::MessageSizeLimit,
            Rune::EnforcedMessageSizeLimit(_) => RuneKind::MessageSizeLimit,
            Rune::TotalDataLimit(_) => RuneKind::TotalDataLimit,
            Rune::EnforcedTotalDataLimit(_) => RuneKind::TotalDataLimit,
            Rune::Confidentiality { .. } => RuneKind::Confidentiality,
            Rune::Integrity { .. } => RuneKind::Integrity,
            Rune::Authentication { .. } => RuneKind::Authentication,
            Rune::CryptoPeriod { .. } => RuneKind::CryptoPeriod,
            Rune::QuantumResistance => RuneKind::QuantumResistance,
            Rune::SoftwareSideChannelResistance(_) => RuneKind::SoftwareSideChannelResistance,
            Rune::HardwareSideChannelResistance(_) => RuneKind::HardwareSideChannelResistance,
            Rune::Isolated(_) => RuneKind::Isolation,
            Rune::Certifications(_) => RuneKind::Certifications,
            Rune::VariationStrategy(_) => RuneKind::VariationStrategy,
        }
    }
}

/// The canonical, stable order of kinds, used for deterministic iteration.
pub open spec fn kind_order(k: RuneKind) -> int {
    match k {
        RuneKind::KeyTopology => 0,
        RuneKind::SecurityBits => 1,
        RuneKind::MessageLimit => 2,
        RuneKind::MessageSizeLimit => 3,
        RuneKind::TotalDataLimit => 4,
        RuneKind::Confidentiality => 5,
        RuneKind::Integrity => 6,
        RuneKind::Authentication => 7,
        RuneKind::CryptoPeriod => 8,
        RuneKind::QuantumResistance => 9,
        RuneKind::SoftwareSideChannelResistance => 10,
        RuneKind::HardwareSideChannelResistance => 11,
        RuneKind::Isolation => 12,
        RuneKind::Certifications => 13,
        RuneKind::VariationStrategy => 14,
    }
}

/// Executable counterpart of [`kind_order`].
pub fn kind_index(k: RuneKind) -> (r: u32)
    ensures
        r == kind_order(k),
{
    match k {
        RuneKind::KeyTopology => 0,
        RuneKind::SecurityBits => 1,
        RuneKind::MessageLimit => 2,
        RuneKind::MessageSizeLimit => 3,
        RuneKind::TotalDataLimit => 4,
        RuneKind::Confidentiality => 5,
        RuneKind::Integrity => 6,
        RuneKind::Authentication => 7,
        RuneKind::CryptoPeriod => 8,
        RuneKind::QuantumResistance => 9,
        RuneKind::SoftwareSideChannelResistance => 10,
        RuneKind::HardwareSideChannelResistance => 11,
        RuneKind::Isolation => 12,
        RuneKind::Certifications => 13,
        RuneKind::VariationStrategy => 14,
    }
}

/// The sequence of mathematical values of a sequence of runes.
pub open spec fn views_of(s: Seq<Rune>) -> Seq<RuneView> {
    s.map_values(|r: Rune| r@)
}

/// The runes of a sequence, ordered strictly by kind: each kind appears at
/// most once.
pub open spec fn sorted_by_kind(s: Seq<RuneView>) -> bool {
    forall|i: int, j: int|
        0 <= i < j < s.len() ==> kind_order(rune_kind(#[trigger] s[i])) < kind_order(
            rune_kind(#[trigger] s[j]),
        )
}

/// The vector-valued payloads of a rune hold no duplicate items.
pub open spec fn rune_items_no_dup(r: RuneView) -> bool {
    match r {
        RuneView::SoftwareSideChannelResistance(v) => v.no_duplicates(),
        RuneView::HardwareSideChannelResistance(v) => v.no_duplicates(),
        RuneView::Certifications(v) => v.no_duplicates(),
        _ => true,
    }
}

/// Well-formedness of a schema's underlying rune sequence: strictly ordered
/// by kind (hence one rune per kind) and duplicate-free vector payloads.
pub open spec fn runes_wf(s: Seq<RuneView>) -> bool {
    &&& sorted_by_kind(s)
    &&& forall|i: int| 0 <= i < s.len() ==> rune_items_no_dup(#[trigger] s[i])
}

/// The kind-indexed mapping represented by a rune sequence.  When a kind
/// occurs more than once the later rune wins; on well-formed sequences each
/// kind occurs at most once.
pub open spec fn runes_map(s: Seq<RuneView>) -> Map<RuneKind, RuneView>
    decreases s.len(),
{
    if s.len() == 0 {
        Map::empty()
    } else {
        runes_map(s.drop_last()).insert(rune_kind(s.last()), s.last())
    }
}

/// No two runes of the sequence share a kind.
pub open spec fn kinds_unique(s: Seq<RuneView>) -> bool {
    forall|i: int, j: int|
        0 <= i < j < s.len() ==> rune_kind(#[trigger] s[i]) != rune_kind(#[trigger] s[j])
}

/// A strictly kind-ordered sequence has pairwise distinct kinds.
pub proof fn lemma_sorted_kinds_unique(s: Seq<RuneView>)
    requires
        sorted_by_kind(s),
    ensures
        kinds_unique(s),
{
}

/// How [`runes_map`] relates to the underlying sequence: a kind is present
/// exactly when some rune has it, and each rune of the sequence is the value
/// at its kind.
pub proof fn lemma_runes_map(s: Seq<RuneView>)
    requires
        kinds_unique(s),
    ensures
        forall|k: RuneKind|
            #[trigger] runes_map(s).contains_key(k) <==> exists|i: int|
                0 <= i < s.len() && rune_kind(#[trigger] s[i]) == k,
        forall|i: int|
            0 <= i < s.len() ==> runes_map(s).contains_key(rune_kind(#[trigger] s[i]))
                && runes_map(s)[rune_kind(s[i])] == s[i],
    decreases s.len(),
{
    if s.len() > 0 {
        let prefix = s.drop_last();
        assert(kinds_unique(prefix)) by {
            assert(forall|i: int, j: int|
                0 <= i < j < prefix.len() ==> rune_kind(#[trigger] prefix[i]) != rune_kind(
                    #[trigger] prefix[j],
                )) by {
                assert(forall|i: int| 0 <= i < prefix.len() ==> prefix[i] == s[i]);
            }
        }
        lemma_runes_map(prefix);
        let last = s.last();
        let n = s.len() - 1;
        assert(forall|i: int| 0 <= i < n ==> s[i] == prefix[i]);
        assert(forall|i: int| 0 <= i < n ==> rune_kind(#[trigger] s[i]) != rune_kind(last));
        assert forall|i: int| 0 <= i < s.len() implies runes_map(s).contains_key(
            rune_kind(#[trigger] s[i]),
        ) && runes_map(s)[rune_kind(s[i])] == s[i] by {
            if i < n {
                assert(runes_map(prefix).contains_key(rune_kind(prefix[i])));
            }
        }
        assert forall|k: RuneKind| #[trigger] runes_map(s).contains_key(k) implies exists|i: int|
            0 <= i < s.len() && rune_kind(#[trigger] s[i]) == k by {
            if k == rune_kind(last) {
                assert(rune_kind(s[n]) == k);
            } else {
                assert(runes_map(prefix).contains_key(k));
                let w = choose|i: int| 0 <= i < prefix.len() && rune_kind(#[trigger] prefix[i]) == k;
                assert(rune_kind(s[w]) == k);
            }
        }
        assert forall|k: RuneKind|
            (exists|i: int| 0 <= i < s.len() && rune_kind(#[trigger] s[i]) == k) implies #[trigger]
            runes_map(s).contains_key(k) by {
            let w = choose|i: int| 0 <= i < s.len() && rune_kind(#[trigger] s[i]) == k;
            if w < n {
                assert(rune_kind(prefix[w]) == k);
                assert(runes_map(prefix).contains_key(k));
            }
        }
    }
}

/// Two distinct kinds never share a place in the canonical order.
pub proof fn lemma_kind_order_injective(a: RuneKind, b: RuneKind)
    ensures
        kind_order(a) == kind_order(b) ==> a == b,
{
}

/// Replacing or inserting one rune of kind `rune_kind(r)`, while leaving every
/// rune of the other kinds alone, updates the kind-indexed mapping at exactly
/// that kind.
#[verifier::rlimit(50)]
#[verifier::spinoff_prover]
pub proof fn lemma_put_map(s: Seq<RuneView>, t: Seq<RuneView>, r: RuneView)
    requires
        kinds_unique(s),
        kinds_unique(t),
        t.contains(r),
        forall|x: RuneView| rune_kind(x) != rune_kind(r) ==> (s.contains(x) <==> t.contains(x)),
    ensures
        runes_map(t) == runes_map(s).insert(rune_kind(r), r),
{
    let kr = rune_kind(r);
    lemma_runes_map(s);
    lemma_runes_map(t);
    let m1 = runes_map(t);
    let m2 = runes_map(s).insert(kr, r);
    let ir = choose|j: int| 0 <= j < t.len() && t[j] == r;
    assert(rune_kind(t[ir]) == kr);
    assert forall|k: RuneKind| #[trigger] m1.contains_key(k) implies m2.contains_key(k) && m1[k]
        == m2[k] by {
        let i = choose|i: int| 0 <= i < t.len() && rune_kind(#[trigger] t[i]) == k;
        if k == kr {
            assert(i == ir);
            assert(m1[k] == t[i]);
        } else {
            assert(t.contains(t[i]));
            assert(s.contains(t[i]));
            let j = choose|j: int| 0 <= j < s.len() && s[j] == t[i];
            assert(runes_map(s).contains_key(k));
            assert(runes_map(s)[k] == s[j]);
        }
    }
    assert forall|k: RuneKind| #[trigger] m2.contains_key(k) implies m1.contains_key(k) by {
        if k == kr {
            assert(rune_kind(t[ir]) == k);
        } else {
            assert(runes_map(s).contains_key(k));
            let j = choose|j: int| 0 <= j < s.len() && rune_kind(#[trigger] s[j]) == k;
            assert(s.contains(s[j]));
            assert(t.contains(s[j]));
            let w = choose|w: int| 0 <= w < t.len() && t[w] == s[j];
            assert(rune_kind(t[w]) == k);
        }
    }
    assert(m1 =~= m2);
}

/// Dropping every rune of kind `k`, while leaving the runes of the other
/// kinds alone, removes exactly that kind from the kind-indexed mapping.
#[verifier::rlimit(50)]
#[verifier::spinoff_prover]
pub proof fn lemma_remove_map(s: Seq<RuneView>, t: Seq<RuneView>, k: RuneKind)
    requires
        kinds_unique(s),
        kinds_unique(t),
        forall|i: int| 0 <= i < t.len() ==> rune_kind(#[trigger] t[i]) != k,
        forall|x: RuneView| rune_kind(x) != k ==> (s.contains(x) <==> t.contains(x)),
    ensures
        runes_map(t) == runes_map(s).remove(k),
{
    lemma_runes_map(s);
    lemma_runes_map(t);
    let m1 = runes_map(t);
    let m2 = runes_map(s).remove(k);
    assert forall|x: RuneKind| #[trigger] m1.contains_key(x) implies m2.contains_key(x) && m1[x]
        == m2[x] by {
        let i = choose|i: int| 0 <= i < t.len() && rune_kind(#[trigger] t[i]) == x;
        assert(t.contains(t[i]));
        assert(s.contains(t[i]));
        let j = choose|j: int| 0 <= j < s.len() && s[j] == t[i];
        assert(runes_map(s).contains_key(x));
        assert(runes_map(s)[x] == s[j]);
    }
    assert forall|x: RuneKind| #[trigger] m2.contains_key(x) implies m1.contains_key(x) by {
        assert(runes_map(s).contains_key(x));
        let j = choose|j: int| 0 <= j < s.len() && rune_kind(#[trigger] s[j]) == x;
        assert(s.contains(s[j]));
        assert(t.contains(s[j]));
        let w = choose|w: int| 0 <= w < t.len() && t[w] == s[j];
        assert(rune_kind(t[w]) == x);
    }
    assert(m1 =~= m2);
}

/// Replacing the rune at `i` by one of the same kind updates the mapping at
/// that kind and keeps the sequence well formed.
#[verifier::rlimit(50)]
#[verifier::spinoff_prover]
pub proof fn lemma_put_update(s: Seq<RuneView>, r: RuneView, i: int)
    requires
        runes_wf(s),
        rune_items_no_dup(r),
        0 <= i < s.len(),
        rune_kind(s[i]) == rune_kind(r),
    ensures
        runes_wf(s.update(i, r)),
        runes_map(s.update(i, r)) == runes_map(s).insert(rune_kind(r), r),
{
    let t = s.update(i, r);
    let kr = rune_kind(r);
    lemma_sorted_kinds_unique(s);
    assert forall|a: int, b: int| 0 <= a < b < t.len() implies kind_order(
        rune_kind(#[trigger] t[a]),
    ) < kind_order(rune_kind(#[trigger] t[b])) by {
        assert(kind_order(rune_kind(s[a])) < kind_order(rune_kind(s[b])));
    }
    lemma_sorted_kinds_unique(t);
    assert(t[i] == r);
    assert(t.contains(r));
    assert forall|x: RuneView| rune_kind(x) != kr implies (s.contains(x) <==> t.contains(x)) by {
        if s.contains(x) {
            let w = choose|w: int| 0 <= w < s.len() && s[w] == x;
            assert(w != i);
            assert(t[w] == x);
            assert(t.contains(x));
        }
        if t.contains(x) {
            let w = choose|w: int| 0 <= w < t.len() && t[w] == x;
            assert(w != i);
            assert(s[w] == x);
            assert(s.contains(x));
        }
    }
    lemma_put_map(s, t, r);
}

/// Inserting a rune at the place its kind takes in the order updates the
/// mapping at that kind and keeps the sequence well formed.
#[verifier::rlimit(50)]
#[verifier::spinoff_prover]
pub proof fn lemma_put_insert(s: Seq<RuneView>, r: RuneView, i: int)
    requires
        runes_wf(s),
        rune_items_no_dup(r),
        0 <= i <= s.len(),
        forall|j: int| 0 <= j < i ==> kind_order(rune_kind(#[trigger] s[j])) < kind_order(
            rune_kind(r),
        ),
        i < s.len() ==> kind_order(rune_kind(s[i])) > kind_order(rune_kind(r)),
    ensures
        runes_wf(s.insert(i, r)),
        runes_map(s.insert(i, r)) == runes_map(s).insert(rune_kind(r), r),
{
    let t = s.insert(i, r);
    let kr = rune_kind(r);
    lemma_sorted_kinds_unique(s);
    s.insert_ensures(i, r);
    assert forall|a: int, b: int| 0 <= a < b < t.len() implies kind_order(
        rune_kind(#[trigger] t[a]),
    ) < kind_order(rune_kind(#[trigger] t[b])) by {
        if a < i && b < i {
            assert(t[a] == s[a] && t[b] == s[b]);
        } else if a < i && b == i {
            assert(t[a] == s[a]);
        } else if a < i && b > i {
            assert(t[a] == s[a] && t[b] == s[b - 1]);
        } else if a == i {
            assert(t[b] == s[b - 1]);
            assert(kind_order(rune_kind(s[i])) <= kind_order(rune_kind(s[b - 1])));
        } else {
            assert(t[a] == s[a - 1] && t[b] == s[b - 1]);
        }
    }
    lemma_sorted_kinds_unique(t);
    assert(t[i] == r);
    assert(t.contains(r));
    assert forall|x: RuneView| rune_kind(x) != kr implies (s.contains(x) <==> t.contains(x)) by {
        if s.contains(x) {
            let w = choose|w: int| 0 <= w < s.len() && s[w] == x;
            if w < i {
                assert(t[w] == x);
            } else {
                assert(t[w + 1] == x);
            }
            assert(t.contains(x));
        }
        if t.contains(x) {
            let w = choose|w: int| 0 <= w < t.len() && t[w] == x;
            assert(w != i);
            if w < i {
                assert(s[w] == x);
            } else {
                assert(s[w - 1] == x);
            }
            assert(s.contains(x));
        }
    }
    lemma_put_map(s, t, r);
}

/// Removing the rune at `i` removes exactly its kind from the mapping and
/// keeps the sequence well formed.
#[verifier::rlimit(50)]
#[verifier::spinoff_prover]
pub proof fn lemma_remove_at(s: Seq<RuneView>, i: int)
    requires
        runes_wf(s),
        0 <= i < s.len(),
    ensures
        runes_wf(s.remove(i)),
        runes_map(s.remove(i)) == runes_map(s).remove(rune_kind(s[i])),
{
    let t = s.remove(i);
    let k = rune_kind(s[i]);
    lemma_sorted_kinds_unique(s);
    assert forall|a: int, b: int| 0 <= a < b < t.len() implies kind_order(
        rune_kind(#[trigger] t[a]),
    ) < kind_order(rune_kind(#[trigger] t[b])) by {
        if a < i && b < i {
            assert(t[a] == s[a] && t[b] == s[b]);
        } else if a < i {
            assert(t[a] == s[a] && t[b] == s[b + 1]);
        } else {
            assert(t[a] == s[a + 1] && t[b] == s[b + 1]);
        }
    }
    lemma_sorted_kinds_unique(t);
    assert forall|j: int| 0 <= j < t.len() implies rune_kind(#[trigger] t[j]) != k by {
        if j < i {
            assert(t[j] == s[j]);
        } else {
            assert(t[j] == s[j + 1]);
        }
    }
    assert forall|x: RuneView| rune_kind(x) != k implies (s.contains(x) <==> t.contains(x)) by {
        if s.contains(x) {
            let w = choose|w: int| 0 <= w < s.len() && s[w] == x;
            assert(w != i);
            if w < i {
                assert(t[w] == x);
            } else {
                assert(t[w - 1] == x);
            }
            assert(t.contains(x));
        }
        if t.contains(x) {
            let w = choose|w: int| 0 <= w < t.len() && t[w] == x;
            if w < i {
                assert(s[w] == x);
            } else {
                assert(s[w + 1] == x);
            }
            assert(s.contains(x));
        }
    }
    lemma_remove_map(s, t, k);
}

/// Inserts `rune` into a kind-sorted rune vector: the rune of the same kind,
/// if any, is replaced, and otherwise the rune lands at its kind's place in
/// the order.
pub(crate) fn put_rune(v: &mut Vec<Rune>, rune: Rune)
    requires
        runes_wf(views_of(old(v)@)),
        rune_items_no_dup(rune@),
    ensures
        runes_wf(views_of(final(v)@)),
        runes_map(views_of(final(v)@)) == runes_map(views_of(old(v)@)).insert(
            rune_kind(rune@),
            rune@,
        ),
{
    let ghost s = views_of(old(v)@);
    let ghost rv = rune@;
    let ghost kr = rune_kind(rune@);
    let ko = kind_index(rune.kind());
    let mut i: usize = 0;
    while i < v.len() && kind_index(v[i].kind()) < ko
        invariant
            v@ == old(v)@,
            s == views_of(v@),
            runes_wf(s),
            i <= v@.len(),
            ko == kind_order(kr),
            rune_items_no_dup(rv),
            forall|j: int| 0 <= j < i ==> kind_order(rune_kind(#[trigger] s[j])) < ko,
        decreases v@.len() - i,
    {
        i += 1;
    }
    proof {
        lemma_sorted_kinds_unique(s);
    }
    if i < v.len() && kind_index(v[i].kind()) == ko {
        proof {
            lemma_kind_order_injective(rune_kind(s[i as int]), kr);
        }
        v.set(i, rune);
        proof {
            lemma_put_update(s, rv, i as int);
            assert(views_of(v@) =~= s.update(i as int, rv));
        }
    } else {
        v.insert(i, rune);
        proof {
            lemma_put_insert(s, rv, i as int);
            assert(views_of(v@) =~= s.insert(i as int, rv));
        }
    }
}

/// Finds the index of the rune of kind `k`, if the vector holds one.
pub(crate) fn find_kind(v: &Vec<Rune>, k: RuneKind) -> (r: Option<usize>)
    ensures
        match r {
            Some(i) => 0 <= i < v@.len() && rune_kind(views_of(v@)[i as int]) == k,
            None => forall|j: int| 0 <= j < v@.len() ==> rune_kind(#[trigger] views_of(v@)[j]) != k,
        },
{
    let mut i: usize = 0;
    while i < v.len()
        invariant
            i <= v@.len(),
            forall|j: int| 0 <= j < i ==> rune_kind(#[trigger] views_of(v@)[j]) != k,
        decreases v@.len() - i,
    {
        if v[i].kind() == k {
            return Some(i);
        }
        i += 1;
    }
    None
}

/// Removes the rune of kind `k`, if the vector holds one.
pub(crate) fn remove_kind(v: &mut Vec<Rune>, k: RuneKind)
    requires
        runes_wf(views_of(old(v)@)),
    ensures
        runes_wf(views_of(final(v)@)),
        runes_map(views_of(final(v)@)) == runes_map(views_of(old(v)@)).remove(k),
{
    let ghost s = views_of(old(v)@);
    proof {
        lemma_sorted_kinds_unique(s);
    }
    match find_kind(v, k) {
        Some(i) => {
            v.remove(i);
            proof {
                lemma_remove_at(s, i as int);
                assert(views_of(v@) =~= s.remove(i as int));
            }
        },
        None => {
            proof {
                lemma_runes_map(s);
                assert(!runes_map(s).contains_key(k));
                assert(runes_map(s).remove(k) =~= runes_map(s));
            }
        },
    }
}

/// `a` with `x` appended, unless `a` already holds `x`.
pub open spec fn seq_union<T>(a: Seq<T>, x: T) -> Seq<T> {
    if a.contains(x) {
        a
    } else {
        a.push(x)
    }
}

/// `a` with every item of `b` united in, left to right, de-duplicating by
/// value.
pub open spec fn seq_union_all<T>(a: Seq<T>, b: Seq<T>) -> Seq<T>
    decreases b.len(),
{
    if b.len() == 0 {
        a
    } else {
        seq_union(seq_union_all(a, b.drop_last()), b.last())
    }
}

/// Uniting one item keeps a sequence duplicate-free, and the result holds
/// exactly the old items and the new one.
pub proof fn lemma_seq_union<T>(a: Seq<T>, x: T)
    requires
        a.no_duplicates(),
    ensures
        seq_union(a, x).no_duplicates(),
        forall|y: T| #[trigger] seq_union(a, x).contains(y) <==> (a.contains(y) || y == x),
{
    let u = seq_union(a, x);
    if !a.contains(x) {
        assert forall|y: T| #[trigger] u.contains(y) implies (a.contains(y) || y == x) by {
            let w = choose|w: int| 0 <= w < u.len() && u[w] == y;
            if w < a.len() {
                assert(a[w] == y);
                assert(a.contains(y));
            }
        }
        assert forall|y: T| (a.contains(y) || y == x) implies #[trigger] u.contains(y) by {
            if a.contains(y) {
                let w = choose|w: int| 0 <= w < a.len() && a[w] == y;
                assert(u[w] == y);
            } else {
                assert(u[a.len() as int] == y);
            }
        }
        assert forall|i: int, j: int| 0 <= i < j < u.len() implies u[i] != u[j] by {
            if j < a.len() {
                assert(a[i] != a[j]);
            } else {
                assert(u[j] == x);
                assert(a[i] == u[i]);
                assert(a.contains(a[i]));
            }
        }
    }
}

/// Uniting a sequence of items keeps the base duplicate-free, and the result
/// holds exactly the items of the two sequences.
pub proof fn lemma_seq_union_all<T>(a: Seq<T>, b: Seq<T>)
    requires
        a.no_duplicates(),
    ensures
        seq_union_all(a, b).no_duplicates(),
        forall|y: T| #[trigger] seq_union_all(a, b).contains(y) <==> (a.contains(y) || b.contains(
            y,
        )),
    decreases b.len(),
{
    if b.len() == 0 {
        assert forall|y: T| #[trigger] seq_union_all(a, b).contains(y) implies (a.contains(y)
            || b.contains(y)) by {}
        assert(forall|y: T| a.contains(y) ==> #[trigger] seq_union_all(a, b).contains(y));
    } else {
        let prefix = b.drop_last();
        lemma_seq_union_all(a, prefix);
        lemma_seq_union(seq_union_all(a, prefix), b.last());
        assert forall|y: T| #[trigger] seq_union_all(a, b).contains(y) implies (a.contains(y)
            || b.contains(y)) by {
            if prefix.contains(y) {
                let w = choose|w: int| 0 <= w < prefix.len() && prefix[w] == y;
                assert(b[w] == y);
                assert(b.contains(y));
            } else if y == b.last() {
                assert(b[b.len() - 1] == y);
                assert(b.contains(y));
            }
        }
        assert forall|y: T| (a.contains(y) || b.contains(y)) implies #[trigger] seq_union_all(
            a,
            b,
        ).contains(y) by {
            if b.contains(y) {
                let w = choose|w: int| 0 <= w < b.len() && b[w] == y;
                if w < b.len() - 1 {
                    assert(prefix[w] == y);
                    assert(prefix.contains(y));
                } else {
                    assert(y == b.last());
                }
            }
        }
    }
}

/// A fresh vector with the same items as `v`.
fn copied_vec<T: Copy>(v: &Vec<T>) -> (r: Vec<T>)
    ensures
        r@ == v@,
{
    let mut r: Vec<T> = Vec::new();
    let mut i: usize = 0;
    while i < v.len()
        invariant
            i <= v@.len(),
            r@ == v@.take(i as int),
        decreases v@.len() - i,
    {
        r.push(v[i]);
        proof {
            assert(v@.take(i + 1) =~= v@.take(i as int).push(v@[i as int]));
        }
        i += 1;
    }
    proof {
        assert(v@.take(v@.len() as int) =~= v@);
    }
    r
}

impl Clone for Rune {
    /// A deep copy: the clone has the same mathematical value.
    fn clone(&self) -> (r: Self)
        ensures
            r@ == self@,
    {
        match self {
            Rune::PublicPrivateKeyPair => Rune::PublicPrivateKeyPair,
            Rune::SecurityBits(bits) => Rune::SecurityBits(*bits),
            Rune::MessageLimit(n) => Rune::MessageLimit(*n),
            Rune::EnforcedMessageLimit(n) => Rune::EnforcedMessageLimit(*n),
            Rune::MessageSizeLimit(n) => Rune::MessageSizeLimit(*n),
            Rune::EnforcedMessageSizeLimit(n) => Rune::EnforcedMessageSizeLimit(*n),
            Rune::TotalDataLimit(n) => Rune::TotalDataLimit(*n),
            Rune::EnforcedTotalDataLimit(n) => Rune::EnforcedTotalDataLimit(*n),
            Rune::Confidentiality { end_time } => (Rune::Confidentiality { end_time: *end_time }),
            Rune::Integrity { year } => (Rune::Integrity { year: *year }),
            Rune::Authentication { origin, year } => (Rune::Authentication {
                origin: *origin,
                year: *year,
            }),
            Rune::CryptoPeriod { begin, end } => (Rune::CryptoPeriod {
                begin: *begin,
                end: *end,
            }),
            Rune::QuantumResistance => Rune::QuantumResistance,
            Rune::SoftwareSideChannelResistance(v) => Rune::SoftwareSideChannelResistance(
                copied_vec(v),
            ),
            Rune::HardwareSideChannelResistance(v) => Rune::HardwareSideChannelResistance(
                copied_vec(v),
            ),
            Rune::Isolated(l) => Rune::Isolated(*l),
            Rune::Certifications(v) => Rune::Certifications(copied_vec(v)),
            Rune::VariationStrategy(s) => Rune::VariationStrategy(*s),
        }
    }
}

/// Whether `v` holds the software side-channel resistance `x`.
pub fn contains_software(v: &Vec<SoftwareSideChannelResistance>, x: SoftwareSideChannelResistance) -> (r:
    bool)
    ensures
        r == v@.contains(x),
{
    let mut i: usize = 0;
    while i < v.len()
        invariant
            i <= v@.len(),
            forall|j: int| 0 <= j < i ==> v@[j] != x,
        decreases v@.len() - i,
    {
        if v[i] == x {
            return true;
        }
        i += 1;
    }
    false
}

/// Whether `v` holds the hardware side-channel resistance `x`.
pub fn contains_hardware(v: &Vec<HardwareSideChannelResistance>, x: HardwareSideChannelResistance) -> (r:
    bool)
    ensures
        r == v@.contains(x),
{
    let mut i: usize = 0;
    while i < v.len()
        invariant
            i <= v@.len(),
            forall|j: int| 0 <= j < i ==> v@[j] != x,
        decreases v@.len() - i,
    {
        if v[i] == x {
            return true;
        }
        i += 1;
    }
    false
}

/// Whether `v` holds the certification `x`.
pub fn contains_certification(v: &Vec<SecurityCertification>, x: SecurityCertification) -> (r: bool)
    ensures
        r == v@.contains(x),
{
    let mut i: usize = 0;
    while i < v.len()
        invariant
            i <= v@.len(),
            forall|j: int| 0 <= j < i ==> v@[j] != x,
        decreases v@.len() - i,
    {
        if v[i] == x {
            return true;
        }
        i += 1;
    }
    false
}

/// The union of two vectors of software resistances, de-duplicated.
fn union_software(
    existing: &Vec<SoftwareSideChannelResistance>,
    items: &Vec<SoftwareSideChannelResistance>,
) -> (r: Vec<SoftwareSideChannelResistance>)
    ensures
        r@ == seq_union_all(existing@, items@),
{
    let mut r = copied_vec(existing);
    let mut j: usize = 0;
    while j < items.len()
        invariant
            j <= items@.len(),
            r@ == seq_union_all(existing@, items@.take(j as int)),
        decreases items@.len() - j,
    {
        proof {
            assert(items@.take(j + 1).drop_last() =~= items@.take(j as int));
            assert(items@.take(j + 1).last() == items@[j as int]);
        }
        if !contains_software(&r, items[j]) {
            r.push(items[j]);
        }
        j += 1;
    }
    proof {
        assert(items@.take(items@.len() as int) =~= items@);
    }
    r
}

/// The union of two vectors of hardware resistances, de-duplicated.
fn union_hardware(
    existing: &Vec<HardwareSideChannelResistance>,
    items: &Vec<HardwareSideChannelResistance>,
) -> (r: Vec<HardwareSideChannelResistance>)
    ensures
        r@ == seq_union_all(existing@, items@),
{
    let mut r = copied_vec(existing);
    let mut j: usize = 0;
    while j < items.len()
        invariant
            j <= items@.len(),
            r@ == seq_union_all(existing@, items@.take(j as int)),
        decreases items@.len() - j,
    {
        proof {
            assert(items@.take(j + 1).drop_last() =~= items@.take(j as int));
            assert(items@.take(j + 1).last() == items@[j as int]);
        }
        if !contains_hardware(&r, items[j]) {
            r.push(items[j]);
        }
        j += 1;
    }
    proof {
        assert(items@.take(items@.len() as int) =~= items@);
    }
    r
}

/// The union of two vectors of certifications, de-duplicated.
fn union_certifications(
    existing: &Vec<SecurityCertification>,
    items: &Vec<SecurityCertification>,
) -> (r: Vec<SecurityCertification>)
    ensures
        r@ == seq_union_all(existing@, items@),
{
    let mut r = copied_vec(existing);
    let mut j: usize = 0;
    while j < items.len()
        invariant
            j <= items@.len(),
            r@ == seq_union_all(existing@, items@.take(j as int)),
        decreases items@.len() - j,
    {
        proof {
            assert(items@.take(j + 1).drop_last() =~= items@.take(j as int));
            assert(items@.take(j + 1).last() == items@[j as int]);
        }
        if !contains_certification(&r, items[j]) {
            r.push(items[j]);
        }
        j += 1;
    }
    proof {
        assert(items@.take(items@.len() as int) =~= items@);
    }
    r
}

/// The single merge function of the model: how inserting one rune changes the
/// kind-indexed mapping.  A scalar rune replaces any prior rune of its kind;
/// a vector-valued rune unites its items into the prior ones, de-duplicating
/// by value.
pub open spec fn merge_rune(m: Map<RuneKind, RuneView>, r: RuneView) -> Map<RuneKind, RuneView> {
    let k = rune_kind(r);
    match r {
        RuneView::SoftwareSideChannelResistance(items) => {
            let prior = if m.contains_key(k) {
                match m[k] {
                    RuneView::SoftwareSideChannelResistance(v) => v,
                    _ => Seq::empty(),
                }
            } else {
                Seq::empty()
            };
            m.insert(k, RuneView::SoftwareSideChannelResistance(seq_union_all(prior, items)))
        },
        RuneView::HardwareSideChannelResistance(items) => {
            let prior = if m.contains_key(k) {
                match m[k] {
                    RuneView::HardwareSideChannelResistance(v) => v,
                    _ => Seq::empty(),
                }
            } else {
                Seq::empty()
            };
            m.insert(k, RuneView::HardwareSideChannelResistance(seq_union_all(prior, items)))
        },
        RuneView::Certifications(items) => {
            let prior = if m.contains_key(k) {
                match m[k] {
                    RuneView::Certifications(v) => v,
                    _ => Seq::empty(),
                }
            } else {
                Seq::empty()
            };
            m.insert(k, RuneView::Certifications(seq_union_all(prior, items)))
        },
        _ => m.insert(k, r),
    }
}

/// The mapping accumulated by merging a sequence of runes, left to right,
/// into an empty mapping.
pub open spec fn merged_all(rs: Seq<RuneView>) -> Map<RuneKind, RuneView>
    decreases rs.len(),
{
    if rs.len() == 0 {
        Map::empty()
    } else {
        merge_rune(merged_all(rs.drop_last()), rs.last())
    }
}

/// Merges one rune into a kind-sorted rune vector, following [`merge_rune`].
pub(crate) fn merge_into(b: &mut Vec<Rune>, rune: Rune)
    requires
        runes_wf(views_of(old(b)@)),
    ensures
        runes_wf(views_of(final(b)@)),
        runes_map(views_of(final(b)@)) == merge_rune(runes_map(views_of(old(b)@)), rune@),
{
    let ghost s = views_of(old(b)@);
    let ghost m = runes_map(s);
    proof {
        lemma_sorted_kinds_unique(s);
        lemma_runes_map(s);
    }
    match rune {
        Rune::SoftwareSideChannelResistance(items) => {
            let k = RuneKind::SoftwareSideChannelResistance;
            let merged: Vec<SoftwareSideChannelResistance> = match find_kind(b, k) {
                Some(i) => {
                    match &b[i] {
                        Rune::SoftwareSideChannelResistance(existing) => {
                            proof {
                                assert(m[k] == s[i as int]);
                                assert(rune_items_no_dup(s[i as int]));
                                lemma_seq_union_all(existing@, items@);
                            }
                            union_software(existing, &items)
                        },
                        _ => {
                            let empty: Vec<SoftwareSideChannelResistance> = Vec::new();
                            proof {
                                lemma_seq_union_all(empty@, items@);
                            }
                            union_software(&empty, &items)
                        },
                    }
                },
                None => {
                    let empty: Vec<SoftwareSideChannelResistance> = Vec::new();
                    proof {
                        lemma_seq_union_all(empty@, items@);
                    }
                    union_software(&empty, &items)
                },
            };
            put_rune(b, Rune::SoftwareSideChannelResistance(merged));
        },
        Rune::HardwareSideChannelResistance(items) => {
            let k = RuneKind::HardwareSideChannelResistance;
            let merged: Vec<HardwareSideChannelResistance> = match find_kind(b, k) {
                Some(i) => {
                    match &b[i] {
                        Rune::HardwareSideChannelResistance(existing) => {
                            proof {
                                assert(m[k] == s[i as int]);
                                assert(rune_items_no_dup(s[i as int]));
                                lemma_seq_union_all(existing@, items@);
                            }
                            union_hardware(existing, &items)
                        },
                        _ => {
                            let empty: Vec<HardwareSideChannelResistance> = Vec::new();
                            proof {
                                lemma_seq_union_all(empty@, items@);
                            }
                            union_hardware(&empty, &items)
                        },
                    }
                },
                None => {
                    let empty: Vec<HardwareSideChannelResistance> = Vec::new();
                    proof {
                        lemma_seq_union_all(empty@, items@);
                    }
                    union_hardware(&empty, &items)
                },
            };
            put_rune(b, Rune::HardwareSideChannelResistance(merged));
        },
        Rune::Certifications(items) => {
            let k = RuneKind::Certifications;
            let merged: Vec<SecurityCertification> = match find_kind(b, k) {
                Some(i) => {
                    match &b[i] {
                        Rune::Certifications(existing) => {
                            proof {
                                assert(m[k] == s[i as int]);
                                assert(rune_items_no_dup(s[i as int]));
                                lemma_seq_union_all(existing@, items@);
                            }
                            union_certifications(existing, &items)
                        },
                        _ => {
                            let empty: Vec<SecurityCertification> = Vec::new();
                            proof {
                                lemma_seq_union_all(empty@, items@);
                            }
                            union_certifications(&empty, &items)
                        },
                    }
                },
                None => {
                    let empty: Vec<SecurityCertification> = Vec::new();
                    proof {
                        lemma_seq_union_all(empty@, items@);
                    }
                    union_certifications(&empty, &items)
                },
            };
            put_rune(b, Rune::Certifications(merged));
        },
        _ => {
            put_rune(b, rune);
        },
    }
}

/// The three kinds whose runes carry vectors of items.
pub open spec fn is_vector_kind(k: RuneKind) -> bool {
    k == RuneKind::SoftwareSideChannelResistance || k == RuneKind::HardwareSideChannelResistance
        || k == RuneKind::Certifications
}

/// A well-formed schema holds at most one rune per kind, and the vector
/// payloads of its runes hold no duplicate items.  Together with the union
/// facts of [`lemma_seq_union_all`], this is what a built schema looks like:
/// one rune per kind, with each vector kind holding the duplicate-free union
/// of everything merged into it.
pub proof fn lemma_schema_one_per_kind(s: Schema)
    requires
        s.wf(),
    ensures
        kinds_unique(s.rep()),
        forall|i: int| 0 <= i < s.rep().len() ==> rune_items_no_dup(#[trigger] s.rep()[i]),
{
    lemma_sorted_kinds_unique(s.rep());
}

/// Merging a vector-valued rune into a mapping that already holds one of the
/// same kind yields exactly the duplicate-free union of the prior items and
/// the new ones, and touches no other kind.
pub proof fn lemma_vector_merge_unions(
    m: Map<RuneKind, RuneView>,
    prior: Seq<SoftwareSideChannelResistance>,
    items: Seq<SoftwareSideChannelResistance>,
)
    requires
        prior.no_duplicates(),
        m.contains_key(RuneKind::SoftwareSideChannelResistance),
        m[RuneKind::SoftwareSideChannelResistance] == RuneView::SoftwareSideChannelResistance(
            prior,
        ),
    ensures
        merge_rune(m, RuneView::SoftwareSideChannelResistance(items)) == m.insert(
            RuneKind::SoftwareSideChannelResistance,
            RuneView::SoftwareSideChannelResistance(seq_union_all(prior, items)),
        ),
        seq_union_all(prior, items).no_duplicates(),
        forall|x: SoftwareSideChannelResistance| #[trigger]
            seq_union_all(prior, items).contains(x) <==> (prior.contains(x) || items.contains(x)),
{
    lemma_seq_union_all(prior, items);
}

/// Setting the same scalar kind twice keeps only the second value:
/// last-write-wins.
pub proof fn lemma_scalar_last_write_wins(m: Map<RuneKind, RuneView>, r1: RuneView, r2: RuneView)
    requires
        rune_kind(r1) == rune_kind(r2),
        !is_vector_kind(rune_kind(r1)),
    ensures
        merge_rune(merge_rune(m, r1), r2) == merge_rune(m, r2),
{
    assert(merge_rune(merge_rune(m, r1), r2) =~= merge_rune(m, r2));
}

/// Requiring quantum resistance and then withdrawing it leaves the mapping
/// exactly as if the rune had never been there: setting true then false
/// removes the property entirely.
pub proof fn lemma_quantum_toggle(m: Map<RuneKind, RuneView>)
    ensures
        merge_rune(m, RuneView::QuantumResistance).remove(RuneKind::QuantumResistance) == m.remove(
            RuneKind::QuantumResistance,
        ),
{
    assert(merge_rune(m, RuneView::QuantumResistance).remove(RuneKind::QuantumResistance) =~= m
        .remove(RuneKind::QuantumResistance));
}

/// An immutable, ordered collection of distinct runes: one per kind, sorted
/// in the canonical kind order.  Produced by a [`SchemaBuilder`] or reported
/// by a construction.
#[derive(Debug, PartialEq, Eq)]
pub struct Schema {
    runes: Vec<Rune>,
}

impl Schema {
    /// The underlying rune sequence, in canonical kind order.
    pub closed spec fn rep(&self) -> Seq<RuneView> {
        views_of(self.runes@)
    }

    /// Well-formedness: one rune per kind, in order, with duplicate-free
    /// vector payloads.  Every schema this library hands out is well formed.
    pub open spec fn wf(&self) -> bool {
        runes_wf(self.rep())
    }
}

impl View for Schema {
    type V = Map<RuneKind, RuneView>;

    /// A schema is read as the mapping from each kind to its rune.
    open spec fn view(&self) -> Map<RuneKind, RuneView> {
        runes_map(self.rep())
    }
}

impl Clone for Schema {
    /// A deep copy: the clone has the same mathematical value.
    fn clone(&self) -> (r: Self)
        ensures
            r.rep() == self.rep(),
            r@ == self@,
            r.wf() == self.wf(),
    {
        Schema { runes: self.clone_runes() }
    }
}

impl Schema {
    /// A fresh vector holding a deep copy of the schema's runes.
    pub(crate) fn clone_runes(&self) -> (r: Vec<Rune>)
        ensures
            views_of(r@) == self.rep(),
    {
        let mut runes: Vec<Rune> = Vec::new();
        let mut i: usize = 0;
        while i < self.runes.len()
            invariant
                i <= self.runes@.len(),
                views_of(runes@) == views_of(self.runes@).take(i as int),
            decreases self.runes@.len() - i,
        {
            let ghost prev = runes@;
            runes.push(self.runes[i].clone());
            proof {
                assert(views_of(prev).len() == prev.len());
                assert(prev.len() == i as int);
                assert(runes@ == prev.push(runes@[i as int]));
                assert forall|j: int| 0 <= j < runes@.len() implies views_of(runes@)[j]
                    == views_of(self.runes@).take(i + 1)[j] by {
                    assert(views_of(runes@)[j] == runes@[j]@);
                    if j < i {
                        assert(runes@[j] == prev[j]);
                        assert(views_of(prev)[j] == prev[j]@);
                    }
                }
                assert(views_of(runes@) =~= views_of(self.runes@).take(i + 1));
            }
            i += 1;
        }
        proof {
            assert(views_of(self.runes@).take(self.runes@.len() as int) =~= views_of(self.runes@));
        }
        runes
    }

    /// Wraps an already kind-sorted rune vector as a schema.
    pub(crate) fn from_sorted(runes: Vec<Rune>) -> (r: Schema)
        requires
            runes_wf(views_of(runes@)),
        ensures
            r.wf(),
            r.rep() == views_of(runes@),
    {
        Schema { runes }
    }

    /// Builds a schema directly from a vector of runes, merging each in turn
    /// as [`merge_rune`] describes: later runes of a kind replace earlier
    /// ones, except for the vector-valued kinds, which are united.
    pub fn from_runes(runes: Vec<Rune>) -> (r: Schema)
        ensures
            r.wf(),
            r@ == merged_all(views_of(runes@)),
    {
        let mut b: Vec<Rune> = Vec::new();
        let mut i: usize = 0;
        proof {
            assert(views_of(b@) =~= Seq::<RuneView>::empty());
        }
        while i < runes.len()
            invariant
                i <= runes@.len(),
                runes_wf(views_of(b@)),
                runes_map(views_of(b@)) == merged_all(views_of(runes@).take(i as int)),
            decreases runes@.len() - i,
        {
            proof {
                assert(views_of(runes@).take(i + 1).drop_last() =~= views_of(runes@).take(i as int));
                assert(views_of(runes@).take(i + 1).last() == views_of(runes@)[i as int]);
            }
            let rune = runes[i].clone();
            merge_into(&mut b, rune);
            i += 1;
        }
        proof {
            assert(views_of(runes@).take(runes@.len() as int) =~= views_of(runes@));
        }
        Schema { runes: b }
    }

    /// The runes of the schema, in canonical kind order.
    pub fn runes(&self) -> (r: &Vec<Rune>)
        ensures
            views_of(r@) == self.rep(),
    {
        &self.runes
    }

    /// Replaces or inserts one rune by kind.  Only the enforcement
    /// lifecycle mutates a schema after it is built.
    pub(crate) fn put(&mut self, rune: Rune)
        requires
            old(self).wf(),
            rune_items_no_dup(rune@),
        ensures
            final(self).wf(),
            final(self)@ == old(self)@.insert(rune_kind(rune@), rune@),
    {
        put_rune(&mut self.runes, rune);
    }

    /// Looks up the rune of the given kind, if the schema holds one.
    pub fn get(&self, kind: RuneKind) -> (r: Option<&Rune>)
        requires
            self.wf(),
        ensures
            match r {
                Some(rune) => self@.contains_key(kind) && rune@ == self@[kind],
                None => !self@.contains_key(kind),
            },
    {
        proof {
            lemma_sorted_kinds_unique(self.rep());
            lemma_runes_map(self.rep());
        }
        match find_kind(&self.runes, kind) {
            Some(i) => Some(&self.runes[i]),
            None => None,
        }
    }
}

/// The message limit a requirement starts with.
pub const DEFAULT_MESSAGE_LIMIT: u128 = 65536;

/// The message size limit, in bytes, a requirement starts with.
pub const DEFAULT_MESSAGE_SIZE_LIMIT: u128 = 65536;

/// The total data limit, in bytes, a requirement starts with.
pub const DEFAULT_TOTAL_DATA_LIMIT: u128 = 4294967296;

/// The baseline every requirement starts from: the three default limits.
pub open spec fn default_requirement() -> Map<RuneKind, RuneView> {
    Map::empty().insert(RuneKind::MessageLimit, RuneView::MessageLimit(DEFAULT_MESSAGE_LIMIT)).insert(
        RuneKind::MessageSizeLimit,
        RuneView::MessageSizeLimit(DEFAULT_MESSAGE_SIZE_LIMIT),
    ).insert(RuneKind::TotalDataLimit, RuneView::TotalDataLimit(DEFAULT_TOTAL_DATA_LIMIT))
}

/// A mutable accumulator of runes.  It starts pre-populated with the default
/// limit triple, enforces per-kind override and union semantics, validates
/// inputs before any mutation, and finalizes into an immutable [`Schema`].
#[derive(Debug)]
pub struct SchemaBuilder {
    runes: Vec<Rune>,
}

impl SchemaBuilder {
    /// The underlying rune sequence, in canonical kind order.
    pub closed spec fn rep(&self) -> Seq<RuneView> {
        views_of(self.runes@)
    }

    /// Well-formedness: one rune per kind, in order, with duplicate-free
    /// vector payloads.  [`SchemaBuilder::new`] establishes it and every
    /// setter preserves it.
    pub open spec fn wf(&self) -> bool {
        runes_wf(self.rep())
    }
}

impl View for SchemaBuilder {
    type V = Map<RuneKind, RuneView>;

    /// A builder is read as the mapping from each kind to its accumulated
    /// rune.
    open spec fn view(&self) -> Map<RuneKind, RuneView> {
        runes_map(self.rep())
    }
}

impl SchemaBuilder {
    /// A builder holding the default limit triple.
    pub fn new() -> (r: SchemaBuilder)
        ensures
            r.wf(),
            r@ == default_requirement(),
    {
        let mut runes: Vec<Rune> = Vec::new();
        proof {
            assert(views_of(runes@) =~= Seq::<RuneView>::empty());
        }
        put_rune(&mut runes, Rune::MessageLimit(DEFAULT_MESSAGE_LIMIT));
        put_rune(&mut runes, Rune::MessageSizeLimit(DEFAULT_MESSAGE_SIZE_LIMIT));
        put_rune(&mut runes, Rune::TotalDataLimit(DEFAULT_TOTAL_DATA_LIMIT));
        SchemaBuilder { runes }
    }

    /// Consumes the builder and yields the accumulated schema.
    pub fn build(self) -> (r: Schema)
        requires
            self.wf(),
        ensures
            r.wf(),
            r@ == self@,
    {
        Schema { runes: self.runes }
    }
}

impl SchemaBuilder {
    /// Requires that the operation use a public/private key pair, allowing
    /// the public key to be distributed to other parties for encryption or
    /// verification.  Without this rune the operation uses a symmetric key or
    /// a shared secret.
    pub fn public_private_key_pair(&mut self)
        requires
            old(self).wf(),
        ensures
            final(self).wf(),
            final(self)@ == merge_rune(old(self)@, RuneView::PublicPrivateKeyPair),
    {
        put_rune(&mut self.runes, Rune::PublicPrivateKeyPair);
    }

    /// Requires the given minimum number of security bits.  Overwrites any
    /// prior value.
    pub fn security_bits(&mut self, security_bits: u16)
        requires
            old(self).wf(),
        ensures
            final(self).wf(),
            final(self)@ == merge_rune(old(self)@, RuneView::SecurityBits(security_bits)),
    {
        put_rune(&mut self.runes, Rune::SecurityBits(security_bits));
    }

    /// Requires the given minimum supported message count.  Overwrites any
    /// prior value.  Fails, changing nothing, when the sentinel
    /// [`UNBOUNDED`] is requested.
    pub fn message_limit(&mut self, message_limit: u128) -> (r: Result<(), Error>)
        requires
            old(self).wf(),
        ensures
            final(self).wf(),
            message_limit == UNBOUNDED ==> r == Err::<(), Error>(Error::InvalidMessageLimit)
                && final(self)@ == old(self)@,
            message_limit != UNBOUNDED ==> r == Ok::<(), Error>(()) && final(self)@ == merge_rune(
                old(self)@,
                RuneView::MessageLimit(message_limit),
            ),
    {
        if message_limit == UNBOUNDED {
            return Err(Error::InvalidMessageLimit);
        }
        put_rune(&mut self.runes, Rune::MessageLimit(message_limit));
        Ok(())
    }

    /// Requires the given message count and makes it the enforced ceiling,
    /// even if the selected construction supports more.  Overwrites any prior
    /// value.  Fails, changing nothing, when the sentinel [`UNBOUNDED`] is
    /// requested.
    pub fn enforced_message_limit(&mut self, enforced_message_limit: u128) -> (r: Result<
        (),
        Error,
    >)
        requires
            old(self).wf(),
        ensures
            final(self).wf(),
            enforced_message_limit == UNBOUNDED ==> r == Err::<(), Error>(
                Error::InvalidMessageLimit,
            ) && final(self)@ == old(self)@,
            enforced_message_limit != UNBOUNDED ==> r == Ok::<(), Error>(()) && final(self)@
                == merge_rune(old(self)@, RuneView::EnforcedMessageLimit(enforced_message_limit)),
    {
        if enforced_message_limit == UNBOUNDED {
            return Err(Error::InvalidMessageLimit);
        }
        put_rune(&mut self.runes, Rune::EnforcedMessageLimit(enforced_message_limit));
        Ok(())
    }

    /// Requires the given minimum supported message size, in bytes.
    /// Overwrites any prior value.  Fails, changing nothing, when the
    /// sentinel [`UNBOUNDED`] is requested.
    pub fn message_size_limit(&mut self, message_size_limit: u128) -> (r: Result<(), Error>)
        requires
            old(self).wf(),
        ensures
            final(self).wf(),
            message_size_limit == UNBOUNDED ==> r == Err::<(), Error>(
                Error::InvalidMessageSizeLimit,
            ) && final(self)@ == old(self)@,
            message_size_limit != UNBOUNDED ==> r == Ok::<(), Error>(()) && final(self)@
                == merge_rune(old(self)@, RuneView::MessageSizeLimit(message_size_limit)),
    {
        if message_size_limit == UNBOUNDED {
            return Err(Error::InvalidMessageSizeLimit);
        }
        put_rune(&mut self.runes, Rune::MessageSizeLimit(message_size_limit));
        Ok(())
    }

    /// Requires the given message size, in bytes, and makes it the enforced
    /// per-call ceiling.  Overwrites any prior value.  Fails, changing
    /// nothing, when the sentinel [`UNBOUNDED`] is requested.
    pub fn enforced_message_size_limit(&mut self, enforced_message_size_limit: u128) -> (r: Result<
        (),
        Error,
    >)
        requires
            old(self).wf(),
        ensures
            final(self).wf(),
            enforced_message_size_limit == UNBOUNDED ==> r == Err::<(), Error>(
                Error::InvalidMessageSizeLimit,
            ) && final(self)@ == old(self)@,
            enforced_message_size_limit != UNBOUNDED ==> r == Ok::<(), Error>(()) && final(self)@
                == merge_rune(
                old(self)@,
                RuneView::EnforcedMessageSizeLimit(enforced_message_size_limit),
            ),
    {
        if enforced_message_size_limit == UNBOUNDED {
            return Err(Error::InvalidMessageSizeLimit);
        }
        put_rune(&mut self.runes, Rune::EnforcedMessageSizeLimit(enforced_message_size_limit));
        Ok(())
    }

    /// Requires the given minimum supported data total, in bytes.  Overwrites
    /// any prior value.  Fails, changing nothing, when the sentinel
    /// [`UNBOUNDED`] is requested.
    pub fn total_data_limit(&mut self, total_data_limit: u128) -> (r: Result<(), Error>)
        requires
            old(self).wf(),
        ensures
            final(self).wf(),
            total_data_limit == UNBOUNDED ==> r == Err::<(), Error>(Error::InvalidTotalDataLimit)
                && final(self)@ == old(self)@,
            total_data_limit != UNBOUNDED ==> r == Ok::<(), Error>(()) && final(self)@
                == merge_rune(old(self)@, RuneView::TotalDataLimit(total_data_limit)),
    {
        if total_data_limit == UNBOUNDED {
            return Err(Error::InvalidTotalDataLimit);
        }
        put_rune(&mut self.runes, Rune::TotalDataLimit(total_data_limit));
        Ok(())
    }

    /// Requires the given data total, in bytes, and makes it the enforced
    /// ceiling.  Overwrites any prior value.  Fails, changing nothing, when
    /// the sentinel [`UNBOUNDED`] is requested.
    pub fn enforced_total_data_limit(&mut self, enforced_total_data_limit: u128) -> (r: Result<
        (),
        Error,
    >)
        requires
            old(self).wf(),
        ensures
            final(self).wf(),
            enforced_total_data_limit == UNBOUNDED ==> r == Err::<(), Error>(
                Error::InvalidTotalDataLimit,
            ) && final(self)@ == old(self)@,
            enforced_total_data_limit != UNBOUNDED ==> r == Ok::<(), Error>(()) && final(self)@
                == merge_rune(
                old(self)@,
                RuneView::EnforcedTotalDataLimit(enforced_total_data_limit),
            ),
    {
        if enforced_total_data_limit == UNBOUNDED {
            return Err(Error::InvalidTotalDataLimit);
        }
        put_rune(&mut self.runes, Rune::EnforcedTotalDataLimit(enforced_total_data_limit));
        Ok(())
    }

    /// Requires validity during a specific period of time, in milliseconds
    /// since the Unix epoch.  Overwrites any prior window.  Fails, changing
    /// nothing, unless begin is strictly before end.
    pub fn crypto_period(&mut self, begin: i64, end: i64) -> (r: Result<(), Error>)
        requires
            old(self).wf(),
        ensures
            final(self).wf(),
            begin >= end ==> r == Err::<(), Error>((Error::InvalidCryptoPeriod { begin, end }))
                && final(self)@ == old(self)@,
            begin < end ==> r == Ok::<(), Error>(()) && final(self)@ == merge_rune(
                old(self)@,
                (RuneView::CryptoPeriod { begin, end }),
            ),
    {
        if begin >= end {
            return Err(Error::InvalidCryptoPeriod { begin, end });
        }
        put_rune(&mut self.runes, Rune::CryptoPeriod { begin, end });
        Ok(())
    }

    /// Requires resistance to quantum computing attacks, or withdraws that
    /// requirement: passing true inserts the rune, passing false removes it
    /// if present.  This is the only setter with removal semantics.
    pub fn quantum_resistance(&mut self, quantum_resistance: bool)
        requires
            old(self).wf(),
        ensures
            final(self).wf(),
            quantum_resistance ==> final(self)@ == merge_rune(
                old(self)@,
                RuneView::QuantumResistance,
            ),
            !quantum_resistance ==> final(self)@ == old(self)@.remove(RuneKind::QuantumResistance),
    {
        if quantum_resistance {
            put_rune(&mut self.runes, Rune::QuantumResistance);
        } else {
            remove_kind(&mut self.runes, RuneKind::QuantumResistance);
        }
    }

    /// Requires one software side-channel resistance, uniting it into those
    /// already required.
    pub fn software_side_channel_resistance(&mut self, resistance: SoftwareSideChannelResistance)
        requires
            old(self).wf(),
        ensures
            final(self).wf(),
            final(self)@ == merge_rune(
                old(self)@,
                RuneView::SoftwareSideChannelResistance(seq![resistance]),
            ),
    {
        let mut items: Vec<SoftwareSideChannelResistance> = Vec::new();
        items.push(resistance);
        proof {
            assert(items@ =~= seq![resistance]);
        }
        merge_into(&mut self.runes, Rune::SoftwareSideChannelResistance(items));
    }

    /// Requires one hardware side-channel resistance, uniting it into those
    /// already required.
    pub fn hardware_side_channel_resistance(&mut self, resistance: HardwareSideChannelResistance)
        requires
            old(self).wf(),
        ensures
            final(self).wf(),
            final(self)@ == merge_rune(
                old(self)@,
                RuneView::HardwareSideChannelResistance(seq![resistance]),
            ),
    {
        let mut items: Vec<HardwareSideChannelResistance> = Vec::new();
        items.push(resistance);
        proof {
            assert(items@ =~= seq![resistance]);
        }
        merge_into(&mut self.runes, Rune::HardwareSideChannelResistance(items));
    }

    /// Requires the given isolation level.  Overwrites any prior level.
    pub fn isolated(&mut self, isolation_level: IsolationLevel)
        requires
            old(self).wf(),
        ensures
            final(self).wf(),
            final(self)@ == merge_rune(old(self)@, RuneView::Isolated(isolation_level)),
    {
        put_rune(&mut self.runes, Rune::Isolated(isolation_level));
    }

    /// Names one acceptable certification, uniting it into those already
    /// named.
    pub fn certification(&mut self, certification: SecurityCertification)
        requires
            old(self).wf(),
        ensures
            final(self).wf(),
            final(self)@ == merge_rune(old(self)@, RuneView::Certifications(seq![certification])),
    {
        let mut items: Vec<SecurityCertification> = Vec::new();
        items.push(certification);
        proof {
            assert(items@ =~= seq![certification]);
        }
        merge_into(&mut self.runes, Rune::Certifications(items));
    }

    /// Requires confidentiality until `now_millis + duration_millis`, both in
    /// milliseconds since the Unix epoch.  Overwrites any prior
    /// confidentiality horizon.  Fails, changing nothing, when the end time
    /// overflows the representable range.
    pub fn confidentiality_at(&mut self, now_millis: i64, duration_millis: i64) -> (r: Result<
        (),
        Error,
    >)
        requires
            old(self).wf(),
        ensures
            final(self).wf(),
            now_millis + duration_millis > i64::MAX || now_millis + duration_millis < i64::MIN
                ==> r == Err::<(), Error>(Error::InternalError) && final(self)@ == old(self)@,
            i64::MIN <= now_millis + duration_millis <= i64::MAX ==> r == Ok::<(), Error>(())
                && final(self)@ == merge_rune(
                old(self)@,
                (RuneView::Confidentiality { end_time: (now_millis + duration_millis) as i64 }),
            ),
    {
        match now_millis.checked_add(duration_millis) {
            Some(end_time) => {
                put_rune(&mut self.runes, Rune::Confidentiality { end_time });
                Ok(())
            },
            None => Err(Error::InternalError),
        }
    }

    /// Requires confidentiality for the given duration from the current
    /// moment, computing the end time from the external time source.
    /// Overwrites any prior confidentiality horizon.  Whatever the clock
    /// returns, either a confidentiality horizon is recorded or a
    /// time-arithmetic failure is surfaced as an internal error with the
    /// builder unchanged.
    pub fn confidentiality(&mut self, duration_millis: i64) -> (r: Result<(), Error>)
        requires
            old(self).wf(),
        ensures
            final(self).wf(),
            match r {
                Ok(_) => exists|end_time: i64|
                    final(self)@ == merge_rune(
                        old(self)@,
                        (RuneView::Confidentiality { end_time }),
                    ),
                Err(e) => e == Error::InternalError && final(self)@ == old(self)@,
            },
    {
        let now: i64 = crate::clock::now_millis();
        let r = self.confidentiality_at(now, duration_millis);
        proof {
            if i64::MIN <= now + duration_millis <= i64::MAX {
                let w: i64 = (now + duration_millis) as i64;
                assert(self@ == merge_rune(old(self)@, (RuneView::Confidentiality { end_time: w })));
            }
        }
        r
    }
}

} // verus!
