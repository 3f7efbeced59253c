//! The registry of per-metric collections.
//!
//! It is filled once at startup, one binding per configured metric, and only
//! read afterwards. Ingestion and queries both ask it whether a metric exists.

use vstd::prelude::*;
use crate::text::{same_text, texts};

verus! {

#[derive(Debug)]
struct Binding<H> {
    metric: String,
    collection: H,
}

/// A mapping from metric name to the handle of the collection that stores it,
/// in the order in which the metrics were registered.
#[derive(Debug)]
pub struct Registry<H> {
    entries: Vec<Binding<H>>,
}

/// Each metric name with its collection, as a configuration lists them.
pub open spec fn paired<H>(configured: Seq<(String, H)>) -> Seq<(Seq<char>, H)> {
    configured.map_values(|b: (String, H)| (b.0@, b.1))
}

impl<H> Registry<H> {
    /// The bindings in registration order: metric name and collection handle.
    pub closed spec fn bindings(&self) -> Seq<(Seq<char>, H)> {
        self.entries@.map_values(|b: Binding<H>| (b.metric@, b.collection))
    }

    /// The registered metric names, in registration order.
    pub open spec fn metrics(&self) -> Seq<Seq<char>> {
        self.bindings().map_values(|b: (Seq<char>, H)| b.0)
    }

    /// No metric is bound twice. This holds of every registry.
    #[verifier::type_invariant]
    pub open spec fn wf(&self) -> bool {
        self.metrics().no_duplicates()
    }

    /// Whether `metric` is registered.
    pub open spec fn knows(&self, metric: Seq<char>) -> bool {
        self.metrics().contains(metric)
    }

    /// The collection bound to a registered metric.
    pub open spec fn collection(&self, metric: Seq<char>) -> H {
        self.bindings()[self.metrics().index_of(metric)].1
    }

    /// A registry without bindings.
    pub fn new() -> (registry: Self)
        ensures
            registry.bindings() == Seq::<(Seq<char>, H)>::empty(),
    {
        Registry { entries: Vec::new() }
    }

    /// The number of registered metrics.
    pub fn len(&self) -> (n: usize)
        ensures
            n == self.metrics().len(),
    {
        self.entries.len()
    }

    /// The registered metric names, in registration order.
    pub fn names(&self) -> (names: Vec<String>)
        ensures
            texts(names@) == self.metrics(),
    {
        let mut names: Vec<String> = Vec::new();
        let mut at: usize = 0;
        while at < self.entries.len()
            invariant
                at <= self.entries.len(),
                texts(names@) == self.metrics().take(at as int),
            decreases self.entries.len() - at,
        {
            let ghost before = names@;
            let name = self.entries[at].metric.clone();
            names.push(name);
            proof {
                before.lemma_push_map_commute(|s: String| s@, name);
            }
            at += 1;
        }
        names
    }

    /// The metric and the collection bound at position `at`.
    pub(crate) fn binding_at(&self, at: usize) -> (binding: (&String, &H))
        requires
            at < self.metrics().len(),
        ensures
            binding.0@ == self.metrics()[at as int],
            *binding.1 == self.collection(self.metrics()[at as int]),
    {
        proof {
            use_type_invariant(self);
            self.lemma_collection_at(at as int);
        }
        (&self.entries[at].metric, &self.entries[at].collection)
    }

    /// In a well-formed registry the collection of the metric at a position
    /// is the one bound at that position.
    pub proof fn lemma_collection_at(&self, at: int)
        requires
            self.wf(),
            0 <= at < self.metrics().len(),
        ensures
            self.knows(self.metrics()[at]),
            self.collection(self.metrics()[at]) == self.bindings()[at].1,
    {
        let chosen = self.metrics().index_of(self.metrics()[at]);
        assert(self.metrics()[chosen] == self.metrics()[at]);
    }

    fn position(&self, metric: &str) -> (found: Option<usize>)
        ensures
            match found {
                Some(at) => at < self.metrics().len() && self.metrics()[at as int] == metric@,
                None => !self.knows(metric@),
            },
    {
        let mut at: usize = 0;
        while at < self.entries.len()
            invariant
                at <= self.entries.len(),
                forall|j: int| 0 <= j < at ==> self.metrics()[j] != metric@,
            decreases self.entries.len() - at,
        {
            if same_text(self.entries[at].metric.as_str(), metric) {
                return Some(at);
            }
            at += 1;
        }
        None
    }

    /// Binds `metric` to `collection` unless the metric is already bound: a
    /// binding, once made, is never replaced.
    pub fn register(&mut self, metric: String, collection: H) -> (accepted: bool)
        ensures
            accepted == !old(self).knows(metric@),
            accepted ==> final(self).bindings() == old(self).bindings().push((metric@, collection)),
            !accepted ==> final(self).bindings() == old(self).bindings(),
            final(self).knows(metric@),
            accepted ==> final(self).collection(metric@) == collection,
            forall|other: Seq<char>|
                old(self).knows(other) ==> final(self).knows(other) && final(self).collection(other)
                    == old(self).collection(other),
    {
        proof {
            use_type_invariant(&*self);
        }
        if self.position(metric.as_str()).is_some() {
            return false;
        }
        let ghost before = *self;
        let mut entries: Vec<Binding<H>> = Vec::new();
        std::mem::swap(&mut entries, &mut self.entries);
        entries.push(Binding { metric, collection });
        proof {
            let after = Registry { entries };
            let last = before.metrics().len() as int;
            assert(after.metrics() =~= before.metrics().push(metric@));
            after.lemma_collection_at(last);
            assert forall|other: Seq<char>| before.knows(other) implies after.knows(other)
                && after.collection(other) == before.collection(other) by {
                let at = before.metrics().index_of(other);
                after.lemma_collection_at(at);
            }
        }
        self.entries = entries;
        true
    }

    /// Builds the registry of a deployment in one step, from each metric and
    /// its collection in configuration order. A metric that is configured
    /// twice leaves no registry at all.
    pub fn populate(configured: Vec<(String, H)>) -> (built: Option<Self>)
        ensures
            built is Some <==> paired(configured@).map_values(
                |b: (Seq<char>, H)| b.0,
            ).no_duplicates(),
            built matches Some(registry) ==> registry.bindings() == paired(configured@),
    {
        let mut registry = Registry::new();
        let ghost names = paired(configured@).map_values(|b: (Seq<char>, H)| b.0);
        for binding in it: configured
            invariant
                it.seq() == configured@,
                names == paired(configured@).map_values(|b: (Seq<char>, H)| b.0),
                registry.bindings() == paired(configured@.take(it.index() as int)),
        {
            let ghost at = it.index() as int;
            let ghost before = registry.metrics();
            proof {
                use_type_invariant(&registry);
                assert(forall|j: int| 0 <= j < at ==> before[j] == names[j]);
            }
            let (metric, collection) = binding;
            if !registry.register(metric, collection) {
                proof {
                    let earlier = before.index_of(names[at]);
                    assert(names[earlier] == names[at] && earlier != at);
                }
                return None;
            }
        }
        proof {
            use_type_invariant(&registry);
            assert(configured@.take(configured@.len() as int) =~= configured@);
        }
        Some(registry)
    }

    /// The collection that stores `metric`, if the metric is registered.
    pub fn lookup(&self, metric: &str) -> (found: Option<&H>)
        ensures
            found is Some <==> self.knows(metric@),
            found matches Some(handle) ==> *handle == self.collection(metric@),
    {
        match self.position(metric) {
            Some(at) => {
                proof {
                    use_type_invariant(self);
                    self.lemma_collection_at(at as int);
                }
                Some(&self.entries[at].collection)
            },
            None => None,
        }
    }
}

} // verus!
