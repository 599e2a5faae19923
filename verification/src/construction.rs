//! The construction registry: a simple identifier-keyed lookup table of
//! concrete, named cryptographic schemes and the capabilities they report.
//! The negotiation core only reads it.

use vstd::prelude::*;

use crate::runes::Schema;

verus! {

/// The name under which a construction is registered.  Two identifiers are
/// the same exactly when their text is.
#[derive(Debug, Clone, PartialEq, Eq, PartialOrd, Ord)]
pub struct ConstructionIdentifier(String);

impl View for ConstructionIdentifier {
    type V = Seq<char>;

    /// An identifier is read as its text.
    closed spec fn view(&self) -> Seq<char> {
        self.0@
    }
}

impl ConstructionIdentifier {
    /// Wraps a name.
    pub fn new(name: String) -> (r: ConstructionIdentifier)
        ensures
            r@ == name@,
    {
        ConstructionIdentifier(name)
    }

    /// Whether two identifiers carry the same text.
    pub fn matches(&self, other: &ConstructionIdentifier) -> (r: bool)
        ensures
            r == (self@ == other@),
    {
        self.0 == other.0
    }
}

/// A concrete, named cryptographic scheme that reports its capabilities.
pub trait Construction {
    /// The name the construction registers under.
    fn identifier(&self) -> ConstructionIdentifier;

    /// The security properties the construction actually provides.
    fn schema(&self) -> Schema;
}

/// The schema registered last under the given name, if any.
pub open spec fn lookup(
    entries: Seq<(ConstructionIdentifier, Schema)>,
    id: Seq<char>,
) -> Option<Schema>
    decreases entries.len(),
{
    if entries.len() == 0 {
        None
    } else if entries.last().0@ == id {
        Some(entries.last().1)
    } else {
        lookup(entries.drop_last(), id)
    }
}

/// The identifier-keyed table of registered constructions and their
/// capability schemas, in registration order.
pub struct ConstructionRegistry {
    entries: Vec<(ConstructionIdentifier, Schema)>,
}

impl View for ConstructionRegistry {
    type V = Seq<(ConstructionIdentifier, Schema)>;

    /// A registry is read as its entries, in registration order.
    closed spec fn view(&self) -> Seq<(ConstructionIdentifier, Schema)> {
        self.entries@
    }
}

impl ConstructionRegistry {
    /// Every registered schema is well formed.
    pub open spec fn wf(&self) -> bool {
        forall|i: int| 0 <= i < self@.len() ==> (#[trigger] self@[i]).1.wf()
    }

    /// An empty registry.
    pub fn new() -> (r: ConstructionRegistry)
        ensures
            r.wf(),
            r@ == Seq::<(ConstructionIdentifier, Schema)>::empty(),
    {
        ConstructionRegistry { entries: Vec::new() }
    }

    /// Registers a construction's capability schema under its identifier.
    /// A later registration under the same identifier shadows an earlier
    /// one.
    pub fn register(&mut self, identifier: ConstructionIdentifier, schema: Schema)
        requires
            old(self).wf(),
            schema.wf(),
        ensures
            final(self).wf(),
            final(self)@ == old(self)@.push((identifier, schema)),
    {
        self.entries.push((identifier, schema));
        proof {
            assert forall|i: int| 0 <= i < self@.len() implies (#[trigger] self@[i]).1.wf() by {
                if i < old(self)@.len() {
                    assert(self@[i] == old(self)@[i]);
                }
            }
        }
    }

    /// Looks up the capability schema registered last under the identifier.
    pub fn get(&self, identifier: &ConstructionIdentifier) -> (r: Option<&Schema>)
        requires
            self.wf(),
        ensures
            match r {
                Some(schema) => lookup(self@, identifier@) == Some(*schema) && schema.wf(),
                None => lookup(self@, identifier@) is None,
            },
    {
        let mut i: usize = self.entries.len();
        proof {
            assert(self@.take(i as int) =~= self@);
        }
        while i > 0
        invariant
            i <= self@.len(),
            self.wf(),
            lookup(self@, identifier@) == lookup(self@.take(i as int), identifier@),
        decreases i,
        {
            i = i - 1;
            if self.entries[i].0.matches(identifier) {
                proof {
                    assert(self@.take(i + 1).last() == self@[i as int]);
                }
                return Some(&self.entries[i].1);
            }
            proof {
                assert(self@.take(i + 1).last() == self@[i as int]);
                assert(self@.take(i + 1).drop_last() =~= self@.take(i as int));
            }
        }
        proof {
            assert(self@.take(0) =~= Seq::<(ConstructionIdentifier, Schema)>::empty());
        }
        None
    }

    /// The capability schemas of all registered constructions, in
    /// registration order: the candidates that resolution ranges over.
    pub fn capabilities(&self) -> (r: Vec<Schema>)
        requires
            self.wf(),
        ensures
            r@.len() == self@.len(),
            forall|i: int| 0 <= i < r@.len() ==> (#[trigger] r@[i])@ == self@[i].1@,
            forall|i: int| 0 <= i < r@.len() ==> (#[trigger] r@[i]).wf(),
    {
        let mut r: Vec<Schema> = Vec::new();
        let mut i: usize = 0;
        while i < self.entries.len()
            invariant
                i <= self@.len(),
                self.wf(),
                r@.len() == i,
                forall|j: int| 0 <= j < i ==> (#[trigger] r@[j])@ == self@[j].1@,
                forall|j: int| 0 <= j < i ==> (#[trigger] r@[j]).wf(),
            decreases self@.len() - i,
        {
            r.push(self.entries[i].1.clone());
            i += 1;
        }
        r
    }
}

} // verus!
