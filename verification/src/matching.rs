//! Resolution: matching a requirement schema against candidate capability
//! schemas, ranking the satisfying candidates, and deriving the enforced
//! schema from the winner.

use vstd::prelude::*;

use crate::error::Error;
use crate::provider::variation_rank;
use crate::provider::variation_rank_index;
use crate::runes::contains_certification;
use crate::runes::contains_hardware;
use crate::runes::contains_software;
use crate::runes::isolation_rank;
use crate::runes::isolation_rank_index;
use crate::runes::kinds_unique;
use crate::runes::lemma_runes_map;
use crate::runes::lemma_sorted_kinds_unique;
use crate::runes::put_rune;
use crate::runes::rune_kind;
use crate::runes::runes_map;
use crate::runes::views_of;
use crate::runes::HardwareSideChannelResistance;
use crate::runes::Rune;
use crate::runes::RuneKind;
use crate::runes::RuneView;
use crate::runes::Schema;
use crate::runes::SecurityCertification;
use crate::runes::SoftwareSideChannelResistance;
use crate::runes::VariationStrategy;

verus! {

/// Every item of `r` occurs in `c`.
pub open spec fn item_superset<T>(r: Seq<T>, c: Seq<T>) -> bool {
    forall|i: int| 0 <= i < r.len() ==> c.contains(#[trigger] r[i])
}

/// Some item of `r` occurs in `c`.
pub open spec fn items_intersect<T>(r: Seq<T>, c: Seq<T>) -> bool {
    exists|i: int| 0 <= i < r.len() && c.contains(#[trigger] r[i])
}

/// Whether a candidate rune satisfies a requirement rune of the same kind.
///
/// - Scalar minimums (security bits, isolation, every limit family): the
///   candidate's value must be at least the required one; the unbounded
///   sentinel is the largest value, so it compares accordingly.
/// - Horizons (confidentiality end time, integrity and authentication years,
///   crypto period): the candidate's guaranteed horizon must cover the
///   required one.
/// - Presence flags (key topology, quantum resistance): the candidate must
///   declare the same flag.
/// - Side-channel resistance sets: the candidate must provide every required
///   resistance.
/// - Certifications: the candidate must provide at least one of the required
///   certifications.
/// - Variation strategy: automatic matches automatic, and a caller-provided
///   strategy matches a candidate demanding a kind no more restrictive than
///   the caller can provide.
pub open spec fn rune_satisfied(req: RuneView, cand: RuneView) -> bool {
    match req {
        RuneView::PublicPrivateKeyPair => cand is PublicPrivateKeyPair,
        RuneView::SecurityBits(a) => match cand {
            RuneView::SecurityBits(b) => b >= a,
            _ => false,
        },
        RuneView::MessageLimit(a) => match cand {
            RuneView::MessageLimit(b) => b >= a,
            RuneView::EnforcedMessageLimit(b) => b >= a,
            _ => false,
        },
        RuneView::EnforcedMessageLimit(a) => match cand {
            RuneView::MessageLimit(b) => b >= a,
            RuneView::EnforcedMessageLimit(b) => b >= a,
            _ => false,
        },
        RuneView::MessageSizeLimit(a) => match cand {
            RuneView::MessageSizeLimit(b) => b >= a,
            RuneView::EnforcedMessageSizeLimit(b) => b >= a,
            _ => false,
        },
        RuneView::EnforcedMessageSizeLimit(a) => match cand {
            RuneView::MessageSizeLimit(b) => b >= a,
            RuneView::EnforcedMessageSizeLimit(b) => b >= a,
            _ => false,
        },
        RuneView::TotalDataLimit(a) => match cand {
            RuneView::TotalDataLimit(b) => b >= a,
            RuneView::EnforcedTotalDataLimit(b) => b >= a,
            _ => false,
        },
        RuneView::EnforcedTotalDataLimit(a) => match cand {
            RuneView::TotalDataLimit(b) => b >= a,
            RuneView::EnforcedTotalDataLimit(b) => b >= a,
            _ => false,
        },
        RuneView::Confidentiality { end_time: a } => match cand {
            RuneView::Confidentiality { end_time: b } => b >= a,
            _ => false,
        },
        RuneView::Integrity { year: a } => match cand {
            RuneView::Integrity { year: b } => b >= a,
            _ => false,
        },
        RuneView::Authentication { origin: o1, year: a } => match cand {
            RuneView::Authentication { origin: o2, year: b } => o1 == o2 && b >= a,
            _ => false,
        },
        RuneView::CryptoPeriod { begin: b1, end: e1 } => match cand {
            RuneView::CryptoPeriod { begin: b2, end: e2 } => b2 <= b1 && e2 >= e1,
            _ => false,
        },
        RuneView::QuantumResistance => cand is QuantumResistance,
        RuneView::SoftwareSideChannelResistance(r) => match cand {
            RuneView::SoftwareSideChannelResistance(c) => item_superset(r, c),
            _ => false,
        },
        RuneView::HardwareSideChannelResistance(r) => match cand {
            RuneView::HardwareSideChannelResistance(c) => item_superset(r, c),
            _ => false,
        },
        RuneView::Isolated(a) => match cand {
            RuneView::Isolated(b) => isolation_rank(b) >= isolation_rank(a),
            _ => false,
        },
        RuneView::Certifications(r) => match cand {
            RuneView::Certifications(c) => items_intersect(r, c),
            _ => false,
        },
        RuneView::VariationStrategy(a) => match cand {
            RuneView::VariationStrategy(b) => match a {
                VariationStrategy::Automatic => b == VariationStrategy::Automatic,
                VariationStrategy::CallerProvided(t) => match b {
                    VariationStrategy::CallerProvided(u) => variation_rank(u) <= variation_rank(t),
                    _ => false,
                },
            },
            _ => false,
        },
    }
}

/// Whether a candidate capability schema satisfies a requirement schema:
/// every kind the requirement holds must be declared by the candidate and
/// pass its per-kind test.  A kind absent from the requirement imposes no
/// constraint.
pub open spec fn schema_satisfies(
    req: Map<RuneKind, RuneView>,
    cand: Map<RuneKind, RuneView>,
) -> bool {
    forall|k: RuneKind| #[trigger]
        req.contains_key(k) ==> cand.contains_key(k) && rune_satisfied(req[k], cand[k])
}

/// Whether the candidate vector of software resistances covers every
/// required one.
fn software_superset(
    req: &Vec<SoftwareSideChannelResistance>,
    cand: &Vec<SoftwareSideChannelResistance>,
) -> (r: bool)
    ensures
        r == item_superset(req@, cand@),
{
    let mut i: usize = 0;
    while i < req.len()
        invariant
            i <= req@.len(),
            forall|j: int| 0 <= j < i ==> cand@.contains(#[trigger] req@[j]),
        decreases req@.len() - i,
    {
        if !contains_software(cand, req[i]) {
            proof {
                assert(!item_superset(req@, cand@));
            }
            return false;
        }
        i += 1;
    }
    true
}

/// Whether the candidate vector of hardware resistances covers every
/// required one.
fn hardware_superset(
    req: &Vec<HardwareSideChannelResistance>,
    cand: &Vec<HardwareSideChannelResistance>,
) -> (r: bool)
    ensures
        r == item_superset(req@, cand@),
{
    let mut i: usize = 0;
    while i < req.len()
        invariant
            i <= req@.len(),
            forall|j: int| 0 <= j < i ==> cand@.contains(#[trigger] req@[j]),
        decreases req@.len() - i,
    {
        if !contains_hardware(cand, req[i]) {
            proof {
                assert(!item_superset(req@, cand@));
            }
            return false;
        }
        i += 1;
    }
    true
}

/// Whether the two certification vectors share at least one certification.
fn certifications_intersect(
    req: &Vec<SecurityCertification>,
    cand: &Vec<SecurityCertification>,
) -> (r: bool)
    ensures
        r == items_intersect(req@, cand@),
{
    let mut i: usize = 0;
    while i < req.len()
        invariant
            i <= req@.len(),
            forall|j: int| 0 <= j < i ==> !cand@.contains(#[trigger] req@[j]),
        decreases req@.len() - i,
    {
        if contains_certification(cand, req[i]) {
            proof {
                assert(items_intersect(req@, cand@));
            }
            return true;
        }
        i += 1;
    }
    false
}

/// Whether `cand` satisfies the requirement rune `req`, executably.
#[verifier::rlimit(80)]
#[verifier::spinoff_prover]
pub fn rune_satisfied_by(req: &Rune, cand: &Rune) -> (r: bool)
    ensures
        r == rune_satisfied(req@, cand@),
{
    match req {
        Rune::PublicPrivateKeyPair => match cand {
            Rune::PublicPrivateKeyPair => true,
            _ => false,
        },
        Rune::SecurityBits(a) => match cand {
            Rune::SecurityBits(b) => *b >= *a,
            _ => false,
        },
        Rune::MessageLimit(a) => match cand {
            Rune::MessageLimit(b) => *b >= *a,
            Rune::EnforcedMessageLimit(b) => *b >= *a,
            _ => false,
        },
        Rune::EnforcedMessageLimit(a) => match cand {
            Rune::MessageLimit(b) => *b >= *a,
            Rune::EnforcedMessageLimit(b) => *b >= *a,
            _ => false,
        },
        Rune::MessageSizeLimit(a) => match cand {
            Rune::MessageSizeLimit(b) => *b >= *a,
            Rune::EnforcedMessageSizeLimit(b) => *b >= *a,
            _ => false,
        },
        Rune::EnforcedMessageSizeLimit(a) => match cand {
            Rune::MessageSizeLimit(b) => *b >= *a,
            Rune::EnforcedMessageSizeLimit(b) => *b >= *a,
            _ => false,
        },
        Rune::TotalDataLimit(a) => match cand {
            Rune::TotalDataLimit(b) => *b >= *a,
            Rune::EnforcedTotalDataLimit(b) => *b >= *a,
            _ => false,
        },
        Rune::EnforcedTotalDataLimit(a) => match cand {
            Rune::TotalDataLimit(b) => *b >= *a,
            Rune::EnforcedTotalDataLimit(b) => *b >= *a,
            _ => false,
        },
        Rune::Confidentiality { end_time: a } => match cand {
            Rune::Confidentiality { end_time: b } => *b >= *a,
            _ => false,
        },
        Rune::Integrity { year: a } => match cand {
            Rune::Integrity { year: b } => *b >= *a,
            _ => false,
        },
        Rune::Authentication { origin: o1, year: a } => match cand {
            Rune::Authentication { origin: o2, year: b } => *o1 == *o2 && *b >= *a,
            _ => false,
        },
        Rune::CryptoPeriod { begin: b1, end: e1 } => match cand {
            Rune::CryptoPeriod { begin: b2, end: e2 } => *b2 <= *b1 && *e2 >= *e1,
            _ => false,
        },
        Rune::QuantumResistance => match cand {
            Rune::QuantumResistance => true,
            _ => false,
        },
        Rune::SoftwareSideChannelResistance(r) => match cand {
            Rune::SoftwareSideChannelResistance(c) => software_superset(r, c),
            _ => false,
        },
        Rune::HardwareSideChannelResistance(r) => match cand {
            Rune::HardwareSideChannelResistance(c) => hardware_superset(r, c),
            _ => false,
        },
        Rune::Isolated(a) => match cand {
            Rune::Isolated(b) => isolation_rank_index(*b) >= isolation_rank_index(*a),
            _ => false,
        },
        Rune::Certifications(r) => match cand {
            Rune::Certifications(c) => certifications_intersect(r, c),
            _ => false,
        },
        Rune::VariationStrategy(a) => match cand {
            Rune::VariationStrategy(b) => match a {
                VariationStrategy::Automatic => match b {
                    VariationStrategy::Automatic => true,
                    _ => false,
                },
                VariationStrategy::CallerProvided(t) => match b {
                    VariationStrategy::CallerProvided(u) => variation_rank_index(*u)
                        <= variation_rank_index(*t),
                    _ => false,
                },
            },
            _ => false,
        },
    }
}

/// Whether the candidate schema satisfies the requirement schema,
/// executably.
pub fn satisfies(requirement: &Schema, candidate: &Schema) -> (r: bool)
    requires
        requirement.wf(),
        candidate.wf(),
    ensures
        r == schema_satisfies(requirement@, candidate@),
{
    let ghost s = requirement.rep();
    proof {
        lemma_sorted_kinds_unique(s);
        lemma_runes_map(s);
    }
    let rr = requirement.runes();
    let mut i: usize = 0;
    while i < rr.len()
        invariant
            i <= rr@.len(),
            views_of(rr@) == s,
            requirement.wf(),
            candidate.wf(),
            requirement@ == runes_map(s),
            kinds_unique(s),
            forall|j: int|
                0 <= j < i ==> candidate@.contains_key(rune_kind(#[trigger] s[j]))
                    && rune_satisfied(s[j], candidate@[rune_kind(s[j])]),
        decreases rr@.len() - i,
    {
        let req_rune = &rr[i];
        proof {
            assert(req_rune@ == s[i as int]);
        }
        match candidate.get(req_rune.kind()) {
            Some(cand_rune) => {
                if !rune_satisfied_by(req_rune, cand_rune) {
                    proof {
                        lemma_runes_map(s);
                        assert(requirement@.contains_key(rune_kind(s[i as int])));
                        assert(requirement@[rune_kind(s[i as int])] == s[i as int]);
                    }
                    return false;
                }
            },
            None => {
                proof {
                    lemma_runes_map(s);
                    assert(requirement@.contains_key(rune_kind(s[i as int])));
                }
                return false;
            },
        }
        i += 1;
    }
    proof {
        lemma_runes_map(s);
        assert forall|k: RuneKind| #[trigger] requirement@.contains_key(k) implies candidate@
            .contains_key(k) && rune_satisfied(requirement@[k], candidate@[k]) by {
            let j = choose|j: int| 0 <= j < s.len() && rune_kind(#[trigger] s[j]) == k;
            assert(requirement@[k] == s[j]);
        }
    }
    true
}

/// The amount of resource a schema declares along one kind: its security
/// bits or limit value, or zero when the kind is absent.  Used to rank
/// satisfying candidates so that resolution prefers the least
/// over-provisioned one.
pub open spec fn declared_amount(m: Map<RuneKind, RuneView>, k: RuneKind) -> u128 {
    if m.contains_key(k) {
        match m[k] {
            RuneView::SecurityBits(b) => b as u128,
            RuneView::MessageLimit(n) => n,
            RuneView::EnforcedMessageLimit(n) => n,
            RuneView::MessageSizeLimit(n) => n,
            RuneView::EnforcedMessageSizeLimit(n) => n,
            RuneView::TotalDataLimit(n) => n,
            RuneView::EnforcedTotalDataLimit(n) => n,
            _ => 0,
        }
    } else {
        0
    }
}

/// The ranking of candidates: `a` consumes strictly fewer resources than
/// `b`, comparing declared security bits, then the message, message size and
/// total data limits, lexicographically.
pub open spec fn cost_lt(a: Map<RuneKind, RuneView>, b: Map<RuneKind, RuneView>) -> bool {
    let a1 = declared_amount(a, RuneKind::SecurityBits);
    let b1 = declared_amount(b, RuneKind::SecurityBits);
    let a2 = declared_amount(a, RuneKind::MessageLimit);
    let b2 = declared_amount(b, RuneKind::MessageLimit);
    let a3 = declared_amount(a, RuneKind::MessageSizeLimit);
    let b3 = declared_amount(b, RuneKind::MessageSizeLimit);
    let a4 = declared_amount(a, RuneKind::TotalDataLimit);
    let b4 = declared_amount(b, RuneKind::TotalDataLimit);
    a1 < b1 || (a1 == b1 && (a2 < b2 || (a2 == b2 && (a3 < b3 || (a3 == b3 && a4 < b4)))))
}

/// Executable counterpart of [`declared_amount`].
fn declared_amount_of(s: &Schema, k: RuneKind) -> (r: u128)
    requires
        s.wf(),
    ensures
        r == declared_amount(s@, k),
{
    match s.get(k) {
        Some(rune) => match rune {
            Rune::SecurityBits(b) => *b as u128,
            Rune::MessageLimit(n) => *n,
            Rune::EnforcedMessageLimit(n) => *n,
            Rune::MessageSizeLimit(n) => *n,
            Rune::EnforcedMessageSizeLimit(n) => *n,
            Rune::TotalDataLimit(n) => *n,
            Rune::EnforcedTotalDataLimit(n) => *n,
            _ => 0,
        },
        None => 0,
    }
}

/// Executable counterpart of [`cost_lt`].
pub fn cost_less(a: &Schema, b: &Schema) -> (r: bool)
    requires
        a.wf(),
        b.wf(),
    ensures
        r == cost_lt(a@, b@),
{
    let a1 = declared_amount_of(a, RuneKind::SecurityBits);
    let b1 = declared_amount_of(b, RuneKind::SecurityBits);
    let a2 = declared_amount_of(a, RuneKind::MessageLimit);
    let b2 = declared_amount_of(b, RuneKind::MessageLimit);
    let a3 = declared_amount_of(a, RuneKind::MessageSizeLimit);
    let b3 = declared_amount_of(b, RuneKind::MessageSizeLimit);
    let a4 = declared_amount_of(a, RuneKind::TotalDataLimit);
    let b4 = declared_amount_of(b, RuneKind::TotalDataLimit);
    a1 < b1 || (a1 == b1 && (a2 < b2 || (a2 == b2 && (a3 < b3 || (a3 == b3 && a4 < b4)))))
}

/// The enforced ceiling a requirement asks for along one limit family, if
/// the caller supplied the enforced variant.
pub open spec fn requested_enforced(m: Map<RuneKind, RuneView>, k: RuneKind) -> Option<u128> {
    if m.contains_key(k) {
        match m[k] {
            RuneView::EnforcedMessageLimit(n) => Some(n),
            RuneView::EnforcedMessageSizeLimit(n) => Some(n),
            RuneView::EnforcedTotalDataLimit(n) => Some(n),
            _ => None,
        }
    } else {
        None
    }
}

/// The ceiling a capability declares along one limit family, whichever
/// variant carries it.
pub open spec fn declared_ceiling(m: Map<RuneKind, RuneView>, k: RuneKind) -> Option<u128> {
    if m.contains_key(k) {
        match m[k] {
            RuneView::MessageLimit(n) => Some(n),
            RuneView::EnforcedMessageLimit(n) => Some(n),
            RuneView::MessageSizeLimit(n) => Some(n),
            RuneView::EnforcedMessageSizeLimit(n) => Some(n),
            RuneView::TotalDataLimit(n) => Some(n),
            RuneView::EnforcedTotalDataLimit(n) => Some(n),
            _ => None,
        }
    } else {
        None
    }
}

/// The smaller of two limits.
pub open spec fn min_u128(a: u128, b: u128) -> u128 {
    if a < b {
        a
    } else {
        b
    }
}

/// The ceiling that will actually be enforced along one limit family: the
/// minimum of what the caller asked to enforce and what the winning
/// candidate offers.  The caller can only tighten, never loosen, what the
/// construction provides.
pub open spec fn enforced_value(
    req: Map<RuneKind, RuneView>,
    cand: Map<RuneKind, RuneView>,
    k: RuneKind,
) -> Option<u128> {
    match requested_enforced(req, k) {
        Some(e) => match declared_ceiling(cand, k) {
            Some(c) => Some(min_u128(e, c)),
            None => Some(e),
        },
        None => declared_ceiling(cand, k),
    }
}

/// The three limit families.
pub open spec fn is_limit_kind(k: RuneKind) -> bool {
    k == RuneKind::MessageLimit || k == RuneKind::MessageSizeLimit || k == RuneKind::TotalDataLimit
}

/// The enforced rune of a limit family carrying the given ceiling.
pub open spec fn enforced_rune_view(k: RuneKind, n: u128) -> RuneView {
    if k == RuneKind::MessageLimit {
        RuneView::EnforcedMessageLimit(n)
    } else if k == RuneKind::MessageSizeLimit {
        RuneView::EnforcedMessageSizeLimit(n)
    } else {
        RuneView::EnforcedTotalDataLimit(n)
    }
}

/// The enforced schema derived from a winning candidate: the candidate's own
/// runes, with each limit family replaced by its enforced variant carrying
/// [`enforced_value`].
pub open spec fn enforce(
    req: Map<RuneKind, RuneView>,
    cand: Map<RuneKind, RuneView>,
) -> Map<RuneKind, RuneView> {
    Map::new(
        |k: RuneKind|
            if is_limit_kind(k) {
                enforced_value(req, cand, k) is Some
            } else {
                cand.contains_key(k)
            },
        |k: RuneKind|
            if is_limit_kind(k) {
                enforced_rune_view(
                    k,
                    match enforced_value(req, cand, k) {
                        Some(n) => n,
                        None => 0,
                    },
                )
            } else {
                cand[k]
            },
    )
}

/// Executable counterpart of [`enforced_value`].
fn enforced_value_of(requirement: &Schema, candidate: &Schema, k: RuneKind) -> (r: Option<u128>)
    requires
        requirement.wf(),
        candidate.wf(),
    ensures
        r == enforced_value(requirement@, candidate@, k),
{
    let req_enf: Option<u128> = match requirement.get(k) {
        Some(rune) => match rune {
            Rune::EnforcedMessageLimit(n) => Some(*n),
            Rune::EnforcedMessageSizeLimit(n) => Some(*n),
            Rune::EnforcedTotalDataLimit(n) => Some(*n),
            _ => None,
        },
        None => None,
    };
    let ceiling: Option<u128> = match candidate.get(k) {
        Some(rune) => match rune {
            Rune::MessageLimit(n) => Some(*n),
            Rune::EnforcedMessageLimit(n) => Some(*n),
            Rune::MessageSizeLimit(n) => Some(*n),
            Rune::EnforcedMessageSizeLimit(n) => Some(*n),
            Rune::TotalDataLimit(n) => Some(*n),
            Rune::EnforcedTotalDataLimit(n) => Some(*n),
            _ => None,
        },
        None => None,
    };
    match req_enf {
        Some(e) => match ceiling {
            Some(c) => Some(if e < c {
                e
            } else {
                c
            }),
            None => Some(e),
        },
        None => ceiling,
    }
}

/// Derives the enforced schema from the winning candidate: the candidate's
/// runes with each declared limit family replaced by its enforced variant,
/// carrying the minimum of the candidate's ceiling and any enforced ceiling
/// the requirement asked for.
pub fn derive_enforced(requirement: &Schema, candidate: &Schema) -> (r: Schema)
    requires
        requirement.wf(),
        candidate.wf(),
    ensures
        r.wf(),
        r@ == enforce(requirement@, candidate@),
{
    let ghost c0 = candidate@;
    let mut b = candidate.clone_runes();
    proof {
        lemma_sorted_kinds_unique(candidate.rep());
        lemma_runes_map(candidate.rep());
        assert forall|k: RuneKind| #[trigger] c0.contains_key(k) implies rune_kind(c0[k]) == k by {
            let i = choose|i: int|
                0 <= i < candidate.rep().len() && rune_kind(#[trigger] candidate.rep()[i]) == k;
            assert(c0[k] == candidate.rep()[i]);
        }
    }
    match enforced_value_of(requirement, candidate, RuneKind::MessageLimit) {
        Some(n) => put_rune(&mut b, Rune::EnforcedMessageLimit(n)),
        None => (),
    }
    match enforced_value_of(requirement, candidate, RuneKind::MessageSizeLimit) {
        Some(n) => put_rune(&mut b, Rune::EnforcedMessageSizeLimit(n)),
        None => (),
    }
    match enforced_value_of(requirement, candidate, RuneKind::TotalDataLimit) {
        Some(n) => put_rune(&mut b, Rune::EnforcedTotalDataLimit(n)),
        None => (),
    }
    proof {
        assert(runes_map(views_of(b@)) =~= enforce(requirement@, candidate@));
    }
    Schema::from_sorted(b)
}

/// Resolves a requirement against a list of candidate capability schemas,
/// one per registered construction, in registry order.
///
/// A candidate that fails any test of a kind present in the requirement is
/// eliminated.  Among the survivors the one consuming the fewest resources
/// wins ([`cost_lt`]); remaining ties go to the earliest candidate.  On
/// success the winning index and the derived enforced schema are returned;
/// when no candidate survives, resolution fails with the unsatisfiable
/// requirement.
pub fn resolve(requirement: &Schema, candidates: &Vec<Schema>) -> (r: Result<
    (usize, Schema),
    Error,
>)
    requires
        requirement.wf(),
        forall|i: int| 0 <= i < candidates@.len() ==> (#[trigger] candidates@[i]).wf(),
    ensures
        match r {
            Ok((idx, enforced)) => {
                &&& idx < candidates@.len()
                &&& schema_satisfies(requirement@, candidates@[idx as int]@)
                &&& forall|j: int|
                    0 <= j < candidates@.len() && schema_satisfies(
                        requirement@,
                        (#[trigger] candidates@[j])@,
                    ) ==> !cost_lt(candidates@[j]@, candidates@[idx as int]@)
                &&& forall|j: int|
                    0 <= j < idx && schema_satisfies(requirement@, (#[trigger] candidates@[j])@)
                        ==> cost_lt(candidates@[idx as int]@, candidates@[j]@)
                &&& enforced.wf()
                &&& enforced@ == enforce(requirement@, candidates@[idx as int]@)
            },
            Err(e) => {
                &&& e matches Error::UnsatisfiableRequirements(s) && s@ == requirement@
                &&& forall|j: int|
                    0 <= j < candidates@.len() ==> !schema_satisfies(
                        requirement@,
                        (#[trigger] candidates@[j])@,
                    )
            },
        },
{
    let mut best: Option<usize> = None;
    let mut i: usize = 0;
    while i < candidates.len()
        invariant
            i <= candidates@.len(),
            requirement.wf(),
            forall|j: int| 0 <= j < candidates@.len() ==> (#[trigger] candidates@[j]).wf(),
            match best {
                Some(bi) => {
                    &&& bi < i
                    &&& schema_satisfies(requirement@, candidates@[bi as int]@)
                    &&& forall|j: int|
                        0 <= j < i && schema_satisfies(
                            requirement@,
                            (#[trigger] candidates@[j])@,
                        ) ==> !cost_lt(candidates@[j]@, candidates@[bi as int]@)
                    &&& forall|j: int|
                        0 <= j < bi && schema_satisfies(requirement@, (#[trigger] candidates@[j])@)
                            ==> cost_lt(candidates@[bi as int]@, candidates@[j]@)
                },
                None => forall|j: int|
                    0 <= j < i ==> !schema_satisfies(requirement@, (#[trigger] candidates@[j])@),
            },
        decreases candidates@.len() - i,
    {
        let cand = &candidates[i];
        if satisfies(requirement, cand) {
            match best {
                Some(bi) => {
                    if cost_less(cand, &candidates[bi]) {
                        best = Some(i);
                    }
                },
                None => {
                    best = Some(i);
                },
            }
        }
        i += 1;
    }
    match best {
        Some(bi) => {
            let enforced = derive_enforced(requirement, &candidates[bi]);
            Ok((bi, enforced))
        },
        None => Err(Error::UnsatisfiableRequirements(requirement.clone())),
    }
}

} // verus!
