//! The wire form of a topic: a device identifier, a separator, a metric token.

use vstd::prelude::*;
use vstd::std_specs::iter::IteratorSpec;
use vstd::string::*;
use crate::config::{metric_names, MetricConfig};
use crate::model::{device_ids, Device};
use crate::text::texts;

verus! {

/// The character between the device identifier and the metric token.
pub const SEPARATOR: char = '/';

/// A topic that holds no separator.
#[derive(Debug, Clone, Copy, PartialEq, Eq)]
pub struct MalformedTopic;

/// The topic under which `device_id` publishes `metric`.
pub open spec fn encoded(device_id: Seq<char>, metric: Seq<char>) -> Seq<char> {
    device_id.push(SEPARATOR) + metric
}

/// The two segments of a topic: what stands before its first separator, and
/// everything after it. A topic without a separator has none.
pub open spec fn decoded(topic: Seq<char>) -> Option<(Seq<char>, Seq<char>)> {
    match topic.index_of_first(SEPARATOR) {
        Some(at) => Some((topic.take(at), topic.skip(at + 1))),
        None => None,
    }
}

/// Splits a topic at its first separator into device identifier and metric
/// token. The metric token is not checked against any configuration.
pub fn decode(topic: &str) -> (res: Result<(String, String), MalformedTopic>)
    ensures
        match res {
            Ok((device_id, metric)) => decoded(topic@) == Some((device_id@, metric@)),
            Err(_) => decoded(topic@) is None,
        },
{
    let len = topic.unicode_len();
    let mut rest = topic.chars();
    let mut at: usize = 0;
    while at < len
        invariant
            at <= len == topic@.len(),
            rest.remaining() == topic@.skip(at as int),
            forall|j: int| 0 <= j < at ==> topic@[j] != SEPARATOR,
        decreases len - at,
    {
        let next = rest.next();
        if next == Some(SEPARATOR) {
            proof {
                topic@.index_of_first_ensures(SEPARATOR);
            }
            let device_id = topic.substring_char(0, at);
            let metric = topic.substring_char(at + 1, len);
            return Ok((String::from_str(device_id), String::from_str(metric)));
        }
        at += 1;
    }
    proof {
        topic@.index_of_first_ensures(SEPARATOR);
    }
    Err(MalformedTopic)
}

/// Joins a device identifier and a metric into the topic that carries them.
pub fn encode(device_id: &str, metric: &str) -> (topic: String)
    ensures
        topic@ == encoded(device_id@, metric@),
{
    let mut topic = String::from_str(device_id);
    proof {
        reveal_strlit("/");
    }
    topic.append("/");
    topic.append(metric);
    topic
}

/// The topics of one device, one per metric, in the order of the metrics.
pub open spec fn device_topics(device_id: Seq<char>, metrics: Seq<Seq<char>>) -> Seq<Seq<char>> {
    metrics.map_values(|metric: Seq<char>| encoded(device_id, metric))
}

/// The topics of every device and metric: device by device, and within a
/// device metric by metric.
pub open spec fn subscriptions(devices: Seq<Seq<char>>, metrics: Seq<Seq<char>>) -> Seq<Seq<char>> {
    devices.flat_map(|device_id: Seq<char>| device_topics(device_id, metrics))
}

/// The topics to subscribe to at startup: one for each pair of a known device
/// and a configured metric.
pub fn subscription_topics(
    devices: &Vec<Device>,
    configured: &Vec<MetricConfig>,
) -> (topics: Vec<String>)
    ensures
        texts(topics@) == subscriptions(device_ids(devices@), metric_names(configured@)),
{
    let mut topics: Vec<String> = Vec::new();
    let ghost metrics = metric_names(configured@);
    let ghost per_device = |device_id: Seq<char>| device_topics(device_id, metrics);
    let mut d: usize = 0;
    while d < devices.len()
        invariant
            d <= devices.len(),
            metrics == metric_names(configured@),
            per_device == |device_id: Seq<char>| device_topics(device_id, metrics),
            texts(topics@) == device_ids(devices@.take(d as int)).flat_map(per_device),
        decreases devices.len() - d,
    {
        let ghost done = texts(topics@);
        let ghost device_id = devices[d as int]@;
        let mut m: usize = 0;
        while m < configured.len()
            invariant
                d < devices.len(),
                device_id == devices[d as int]@,
                m <= configured.len(),
                metrics == metric_names(configured@),
                texts(topics@) == done + device_topics(device_id, metrics.take(m as int)),
            decreases configured.len() - m,
        {
            let ghost before = topics@;
            let topic = encode(devices[d].id.as_str(), configured[m].metric.as_str());
            topics.push(topic);
            proof {
                before.lemma_push_map_commute(|s: String| s@, topic);
            }
            m += 1;
        }
        proof {
            devices@.lemma_map_take_succ(|device: Device| device@, d as int);
            device_ids(devices@.take(d as int)).lemma_flat_map_push(per_device, device_id);
        }
        d += 1;
    }
    assert(devices@.take(d as int) =~= devices@);
    topics
}

/// A topic decodes exactly when it holds a separator, and then it is the
/// first separator that divides it.
pub proof fn lemma_decoded_iff_separator(topic: Seq<char>)
    ensures
        decoded(topic) is Some <==> topic.contains(SEPARATOR),
        decoded(topic) matches Some((device_id, metric)) ==> {
            &&& !device_id.contains(SEPARATOR)
            &&& topic == encoded(device_id, metric)
        },
{
    topic.index_of_first_ensures(SEPARATOR);
}

/// Decoding undoes encoding: a topic built from a device identifier that
/// holds no separator and from any metric token decodes to that pair.
pub proof fn lemma_decode_encode(device_id: Seq<char>, metric: Seq<char>)
    requires
        !device_id.contains(SEPARATOR),
    ensures
        decoded(encoded(device_id, metric)) == Some((device_id, metric)),
{
    let topic = encoded(device_id, metric);
    let cut = device_id.len() as int;
    topic.index_of_first_ensures(SEPARATOR);
    assert(topic[cut] == SEPARATOR);
}

} // verus!
