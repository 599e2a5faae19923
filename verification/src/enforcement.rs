//! The enforced-limit lifecycle of a bound operation.
//!
//! A [`BindRune`] owns the enforced schema produced by resolution: the only
//! schema that mutates after creation.  Each successful seal or unseal call
//! decrements the enforced message budget by one and the enforced total data
//! budget by the processed byte count.  A rejected call never changes the
//! budgets.  Once a budget reaches zero, or the current time leaves the
//! crypto period, every further operation is rejected; the key is not
//! destroyed but becomes permanently unusable.
//!
//! Checks run in a fixed order: crypto period (too soon, then too late),
//! then the per-message size ceiling, then the message budget, then the
//! total data budget.

use vstd::prelude::*;

use crate::error::Error;
use crate::runes::Rune;
use crate::runes::RuneKind;
use crate::runes::RuneView;
use crate::runes::Schema;

verus! {

/// The current time is before the enforced crypto period begins.
pub open spec fn too_soon(m: Map<RuneKind, RuneView>, now: i64) -> bool {
    m.contains_key(RuneKind::CryptoPeriod) && match m[RuneKind::CryptoPeriod] {
        RuneView::CryptoPeriod { begin, end } => now < begin,
        _ => false,
    }
}

/// The current time is at or past the end of the enforced crypto period.
pub open spec fn too_late(m: Map<RuneKind, RuneView>, now: i64) -> bool {
    m.contains_key(RuneKind::CryptoPeriod) && match m[RuneKind::CryptoPeriod] {
        RuneView::CryptoPeriod { begin, end } => now >= end,
        _ => false,
    }
}

/// The message exceeds the enforced per-message size ceiling.
pub open spec fn size_exceeded(m: Map<RuneKind, RuneView>, size: u128) -> bool {
    m.contains_key(RuneKind::MessageSizeLimit) && match m[RuneKind::MessageSizeLimit] {
        RuneView::EnforcedMessageSizeLimit(l) => size > l,
        _ => false,
    }
}

/// The enforced message budget is spent.
pub open spec fn count_exhausted(m: Map<RuneKind, RuneView>) -> bool {
    m.contains_key(RuneKind::MessageLimit) && match m[RuneKind::MessageLimit] {
        RuneView::EnforcedMessageLimit(c) => c == 0,
        _ => false,
    }
}

/// The message would overrun the remaining enforced total data budget.
pub open spec fn total_exceeded(m: Map<RuneKind, RuneView>, size: u128) -> bool {
    m.contains_key(RuneKind::TotalDataLimit) && match m[RuneKind::TotalDataLimit] {
        RuneView::EnforcedTotalDataLimit(t) => size > t,
        _ => false,
    }
}

/// The rejection, if any, that a seal or unseal call of the given size at
/// the given time receives, in check order.
pub open spec fn seal_error(m: Map<RuneKind, RuneView>, size: u128, now: i64) -> Option<Error> {
    if too_soon(m, now) {
        Some(Error::CryptoPeriodTooSoon)
    } else if too_late(m, now) {
        Some(Error::CryptoPeriodTooLate)
    } else if size_exceeded(m, size) {
        Some(Error::MessageTooLong)
    } else if count_exhausted(m) {
        Some(Error::MessageTooLong)
    } else if total_exceeded(m, size) {
        Some(Error::TotalDataTooLong)
    } else {
        None
    }
}

/// The enforced message budget, where the schema tracks one.
pub open spec fn remaining_messages(m: Map<RuneKind, RuneView>) -> Option<u128> {
    if m.contains_key(RuneKind::MessageLimit) {
        match m[RuneKind::MessageLimit] {
            RuneView::EnforcedMessageLimit(c) => Some(c),
            _ => None,
        }
    } else {
        None
    }
}

/// The enforced total data budget, where the schema tracks one.
pub open spec fn remaining_total_data(m: Map<RuneKind, RuneView>) -> Option<u128> {
    if m.contains_key(RuneKind::TotalDataLimit) {
        match m[RuneKind::TotalDataLimit] {
            RuneView::EnforcedTotalDataLimit(t) => Some(t),
            _ => None,
        }
    } else {
        None
    }
}

/// The schema after one successful call of the given size: the enforced
/// message budget drops by one and the enforced total data budget by the
/// byte count; everything else is untouched.
pub open spec fn seal_step(m: Map<RuneKind, RuneView>, size: u128) -> Map<RuneKind, RuneView> {
    let m1 = if m.contains_key(RuneKind::MessageLimit) && m[RuneKind::MessageLimit]
        is EnforcedMessageLimit {
        match m[RuneKind::MessageLimit] {
            RuneView::EnforcedMessageLimit(c) => m.insert(
                RuneKind::MessageLimit,
                RuneView::EnforcedMessageLimit((c - 1) as u128),
            ),
            _ => m,
        }
    } else {
        m
    };
    if m.contains_key(RuneKind::TotalDataLimit) && m[RuneKind::TotalDataLimit]
        is EnforcedTotalDataLimit {
        match m[RuneKind::TotalDataLimit] {
            RuneView::EnforcedTotalDataLimit(t) => m1.insert(
                RuneKind::TotalDataLimit,
                RuneView::EnforcedTotalDataLimit((t - size) as u128),
            ),
            _ => m1,
        }
    } else {
        m1
    }
}

/// How one seal or unseal call relates the schema before it to the schema
/// after it: a rejected call returns the rejection and changes nothing; an
/// accepted call returns success and steps the budgets down.
pub open spec fn seal_transition(
    m: Map<RuneKind, RuneView>,
    size: u128,
    now: i64,
    r: Result<(), Error>,
    after: Map<RuneKind, RuneView>,
) -> bool {
    match seal_error(m, size, now) {
        Some(e) => r == Err::<(), Error>(e) && after == m,
        None => r == Ok::<(), Error>(()) && after == seal_step(m, size),
    }
}

/// A successful call only tightens the tracked budgets: neither the message
/// budget nor the total data budget ever grows, and neither wraps below
/// zero.
pub proof fn lemma_seal_step_tightens(m: Map<RuneKind, RuneView>, size: u128)
    requires
        !count_exhausted(m),
        !total_exceeded(m, size),
    ensures
        match (remaining_messages(m), remaining_messages(seal_step(m, size))) {
            (Some(before), Some(after)) => after == before - 1,
            (None, None) => true,
            _ => false,
        },
        match (remaining_total_data(m), remaining_total_data(seal_step(m, size))) {
            (Some(before), Some(after)) => after == before - size,
            (None, None) => true,
            _ => false,
        },
{
}

/// The operation-binding object: a key bound to its enforced schema, the
/// one schema that mutates after creation.
#[derive(Debug)]
pub struct BindRune {
    schema: Schema,
}

impl BindRune {
    /// Well-formedness of the underlying enforced schema.
    pub closed spec fn wf(&self) -> bool {
        self.schema.wf()
    }
}

impl View for BindRune {
    type V = Map<RuneKind, RuneView>;

    /// A bound operation is read as its enforced schema's mapping.
    closed spec fn view(&self) -> Map<RuneKind, RuneView> {
        self.schema@
    }
}

impl BindRune {
    /// Binds a freshly resolved enforced schema.
    pub fn new(schema: Schema) -> (r: BindRune)
        requires
            schema.wf(),
        ensures
            r.wf(),
            r@ == schema@,
    {
        BindRune { schema }
    }

    /// The actual security properties of the bound operation: its enforced
    /// schema, with the budgets that remain right now.
    pub fn schema(&self) -> (r: &Schema)
        ensures
            r@ == self@,
            r.wf() == self.wf(),
    {
        &self.schema
    }

    /// The enforced message budget that remains, where one is tracked.
    pub fn remaining_message_budget(&self) -> (r: Option<u128>)
        requires
            self.wf(),
        ensures
            r == remaining_messages(self@),
    {
        match self.schema.get(RuneKind::MessageLimit) {
            Some(rune) => match rune {
                Rune::EnforcedMessageLimit(c) => Some(*c),
                _ => None,
            },
            None => None,
        }
    }

    /// The enforced total data budget that remains, where one is tracked.
    pub fn remaining_data_budget(&self) -> (r: Option<u128>)
        requires
            self.wf(),
        ensures
            r == remaining_total_data(self@),
    {
        match self.schema.get(RuneKind::TotalDataLimit) {
            Some(rune) => match rune {
                Rune::EnforcedTotalDataLimit(t) => Some(*t),
                _ => None,
            },
            None => None,
        }
    }

    /// One seal call of `message_size` bytes at the given time: gated by the
    /// crypto period, the size ceiling and the budgets, decrementing the
    /// budgets exactly when it succeeds.
    pub fn seal_at(&mut self, message_size: u128, now_millis: i64) -> (r: Result<(), Error>)
        requires
            old(self).wf(),
        ensures
            final(self).wf(),
            seal_transition(old(self)@, message_size, now_millis, r, final(self)@),
    {
        match self.schema.get(RuneKind::CryptoPeriod) {
            Some(rune) => match rune {
                Rune::CryptoPeriod { begin, end } => {
                    if now_millis < *begin {
                        return Err(Error::CryptoPeriodTooSoon);
                    }
                    if now_millis >= *end {
                        return Err(Error::CryptoPeriodTooLate);
                    }
                },
                _ => (),
            },
            None => (),
        }
        match self.schema.get(RuneKind::MessageSizeLimit) {
            Some(rune) => match rune {
                Rune::EnforcedMessageSizeLimit(l) => {
                    if message_size > *l {
                        return Err(Error::MessageTooLong);
                    }
                },
                _ => (),
            },
            None => (),
        }
        let count: Option<u128> = match self.schema.get(RuneKind::MessageLimit) {
            Some(rune) => match rune {
                Rune::EnforcedMessageLimit(c) => {
                    if *c == 0 {
                        return Err(Error::MessageTooLong);
                    }
                    Some(*c)
                },
                _ => None,
            },
            None => None,
        };
        let total: Option<u128> = match self.schema.get(RuneKind::TotalDataLimit) {
            Some(rune) => match rune {
                Rune::EnforcedTotalDataLimit(t) => {
                    if message_size > *t {
                        return Err(Error::TotalDataTooLong);
                    }
                    Some(*t)
                },
                _ => None,
            },
            None => None,
        };
        match count {
            Some(c) => {
                self.schema.put(Rune::EnforcedMessageLimit(c - 1));
            },
            None => (),
        }
        match total {
            Some(t) => {
                self.schema.put(Rune::EnforcedTotalDataLimit(t - message_size));
            },
            None => (),
        }
        proof {
            assert(self@ =~= seal_step(old(self)@, message_size));
        }
        Ok(())
    }

    /// One unseal call: gated and decremented exactly as a seal call is.
    pub fn unseal_at(&mut self, message_size: u128, now_millis: i64) -> (r: Result<(), Error>)
        requires
            old(self).wf(),
        ensures
            final(self).wf(),
            seal_transition(old(self)@, message_size, now_millis, r, final(self)@),
    {
        self.seal_at(message_size, now_millis)
    }

    /// One seal call of `message_size` bytes, taking the current time from
    /// the external time source.  Whatever the clock returns, the call
    /// follows [`seal_transition`] for that time.
    pub fn seal(&mut self, message_size: u128) -> (r: Result<(), Error>)
        requires
            old(self).wf(),
        ensures
            final(self).wf(),
            exists|now: i64|
                #[trigger] seal_transition(old(self)@, message_size, now, r, final(self)@),
    {
        let now: i64 = crate::clock::now_millis();
        let r = self.seal_at(message_size, now);
        proof {
            assert(seal_transition(old(self)@, message_size, now, r, self@));
        }
        r
    }

    /// One unseal call of `message_size` bytes, taking the current time from
    /// the external time source.
    pub fn unseal(&mut self, message_size: u128) -> (r: Result<(), Error>)
        requires
            old(self).wf(),
        ensures
            final(self).wf(),
            exists|now: i64|
                #[trigger] seal_transition(old(self)@, message_size, now, r, final(self)@),
    {
        let now: i64 = crate::clock::now_millis();
        let r = self.unseal_at(message_size, now);
        proof {
            assert(seal_transition(old(self)@, message_size, now, r, self@));
        }
        r
    }
}

} // verus!
