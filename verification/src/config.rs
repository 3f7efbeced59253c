//! The metrics that a deployment ingests, and where each of them is stored.

use vstd::prelude::*;
use vstd::string::*;
use crate::text::{listed, texts};

verus! {

/// How far back a query looks when the caller names no window: 24 hours, in
/// milliseconds.
pub const DEFAULT_WINDOW_MILLIS: u64 = 86_400_000;

/// One configured metric and the name of the collection that stores it.
#[derive(Debug, Clone, PartialEq, Eq)]
pub struct MetricConfig {
    pub metric: String,
    pub collection: String,
}

/// The metric names of a configuration, in its order.
pub open spec fn metric_names(configured: Seq<MetricConfig>) -> Seq<Seq<char>> {
    configured.map_values(|c: MetricConfig| c.metric@)
}

/// The collection names of a configuration, in its order.
pub open spec fn collection_names(configured: Seq<MetricConfig>) -> Seq<Seq<char>> {
    configured.map_values(|c: MetricConfig| c.collection@)
}

/// The configured collections that a store does not hold yet.
pub open spec fn missing(
    configured: Seq<MetricConfig>,
    available: Seq<Seq<char>>,
) -> Seq<Seq<char>> {
    collection_names(configured).filter(|name: Seq<char>| !available.contains(name))
}

fn entry(metric: &str, collection: &str) -> (config: MetricConfig)
    ensures
        config.metric@ == metric@,
        config.collection@ == collection@,
{
    MetricConfig { metric: String::from_str(metric), collection: String::from_str(collection) }
}

/// The stock configuration: electrical conductivity, dissolved solids,
/// temperature and pH, in this order.
pub fn default_metrics() -> (configured: Vec<MetricConfig>)
    ensures
        metric_names(configured@) == seq!["ec"@, "tds"@, "tempC"@, "ph"@],
        collection_names(configured@) == seq![
            "sensor-ec"@,
            "sensor-tds"@,
            "sensor-temp-c"@,
            "sensor-ph"@,
        ],
        metric_names(configured@).no_duplicates(),
{
    let mut configured: Vec<MetricConfig> = Vec::new();
    configured.push(entry("ec", "sensor-ec"));
    configured.push(entry("tds", "sensor-tds"));
    configured.push(entry("tempC", "sensor-temp-c"));
    configured.push(entry("ph", "sensor-ph"));
    proof {
        reveal_strlit("ec");
        reveal_strlit("tds");
        reveal_strlit("tempC");
        reveal_strlit("ph");
        assert("ec"@.len() == 2 && "tds"@.len() == 3 && "tempC"@.len() == 5 && "ph"@.len() == 2);
        assert("ec"@[0] != "ph"@[0]);
    }
    configured
}

/// The names of the configured collections that are not among `available`,
/// in configuration order: the ones that startup has to create.
pub fn missing_collections(
    configured: &Vec<MetricConfig>,
    available: &Vec<String>,
) -> (names: Vec<String>)
    ensures
        texts(names@) == missing(configured@, texts(available@)),
{
    let mut names: Vec<String> = Vec::new();
    let ghost absent = |name: Seq<char>| !texts(available@).contains(name);
    let mut at: usize = 0;
    while at < configured.len()
        invariant
            at <= configured.len(),
            absent == |name: Seq<char>| !texts(available@).contains(name),
            texts(names@) == collection_names(configured@.take(at as int)).filter(absent),
        decreases configured.len() - at,
    {
        let ghost seen = collection_names(configured@.take(at as int));
        let ghost name = configured[at as int].collection@;
        proof {
            configured@.lemma_map_take_succ(|c: MetricConfig| c.collection@, at as int);
            seen.lemma_filter_push(name, absent);
        }
        if !listed(available, configured[at].collection.as_str()) {
            names.push(configured[at].collection.clone());
        }
        at += 1;
    }
    assert(configured@.take(at as int) =~= configured@);
    names
}

} // verus!
