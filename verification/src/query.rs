//! The query engine: recent readings of one device, metric by metric.
//!
//! A query resolves its metrics against the registry, then reads one
//! collection after the other. The reads are made by the caller: the engine
//! says which collection to read with which filter, takes what the store
//! returned, and hands out the response when every metric is served.

use vstd::prelude::*;
use crate::clock::utc_now_millis;
use crate::config::DEFAULT_WINDOW_MILLIS;
use crate::model::{readings, Reading, SensorData};
use crate::registry::Registry;
use crate::text::{same_text, texts};
use crate::window::{admitted, window_start, ReadFilter, Scope};

verus! {

/// A query as it arrives: the device, and one metric or none. Without a
/// metric the query covers every registered metric.
#[derive(Debug, Clone, PartialEq, Eq)]
pub struct GetSensorRequest {
    pub device_id: String,
    pub topic: Option<String>,
}

/// Why a query failed.
#[derive(Debug, Clone, Copy, PartialEq, Eq, Structural)]
pub enum QueryError {
    /// A requested metric is not registered.
    NotFound,
    /// A read of the store failed.
    Backend,
}

impl QueryError {
    /// The HTTP status under which the failure is reported: 404 for a metric
    /// that is not registered, 500 for a failed read.
    pub fn status_code(&self) -> (code: u16)
        ensures
            code == match *self {
                QueryError::NotFound => 404u16,
                QueryError::Backend => 500u16,
            },
    {
        match self {
            QueryError::NotFound => 404,
            QueryError::Backend => 500,
        }
    }
}

/// The readings of one metric in a response.
#[derive(Debug, Clone, PartialEq, Eq)]
pub struct MetricSeries {
    pub metric: String,
    pub readings: Vec<SensorData>,
}

/// The answer to a query: one series for each metric that it covers.
#[derive(Debug, Clone, PartialEq, Eq)]
pub struct GetSensorResponse {
    pub data: Vec<MetricSeries>,
}

impl View for MetricSeries {
    type V = (Seq<char>, Seq<Reading>);

    open spec fn view(&self) -> (Seq<char>, Seq<Reading>) {
        (self.metric@, readings(self.readings@))
    }
}

impl View for GetSensorResponse {
    type V = Seq<(Seq<char>, Seq<Reading>)>;

    open spec fn view(&self) -> Seq<(Seq<char>, Seq<Reading>)> {
        self.data@.map_values(|series: MetricSeries| series@)
    }
}

/// The metric names of a response, in its order.
pub open spec fn series_names(response: Seq<(Seq<char>, Seq<Reading>)>) -> Seq<Seq<char>> {
    response.map_values(|series: (Seq<char>, Seq<Reading>)| series.0)
}

impl GetSensorResponse {
    /// The readings under `metric`: those of the first series of that name.
    pub fn get(&self, metric: &str) -> (found: Option<&Vec<SensorData>>)
        ensures
            found is Some <==> series_names(self@).contains(metric@),
            found matches Some(list) ==> {
                let at = series_names(self@).index_of_first(metric@).unwrap();
                readings(list@) == self@[at].1
            },
    {
        let mut at: usize = 0;
        while at < self.data.len()
            invariant
                at <= self.data.len(),
                forall|j: int| 0 <= j < at ==> series_names(self@)[j] != metric@,
            decreases self.data.len() - at,
        {
            if same_text(self.data[at].metric.as_str(), metric) {
                proof {
                    series_names(self@).index_of_first_ensures(metric@);
                    assert(series_names(self@)[at as int] == metric@);
                }
                return Some(&self.data[at].readings);
            }
            at += 1;
        }
        None
    }
}

/// What is known of a running query: the collections to read, in order, each
/// with the name of its metric; the scope of every read; and the readings
/// gathered from the collections read so far.
pub struct Progress<H> {
    pub targets: Seq<(Seq<char>, H)>,
    pub scope: Scope,
    pub gathered: Seq<Seq<Reading>>,
}

/// Where a query stands: a read is due, or the response is complete.
pub enum Staged<H> {
    Read(Progress<H>),
    Done(Seq<(Seq<char>, Seq<Reading>)>),
}

/// The metrics that a query covers, in the order in which it reads them:
/// the named ones, each once, in the order given; or all registered ones in
/// registration order.
pub open spec fn covered<H>(
    registry: Registry<H>,
    metrics: Option<Seq<Seq<char>>>,
) -> Seq<Seq<char>> {
    match metrics {
        Some(list) => list.remove_duplicates(Seq::empty()),
        None => registry.metrics(),
    }
}

/// Whether every metric of `list` is registered.
pub open spec fn all_known<H>(registry: Registry<H>, list: Seq<Seq<char>>) -> bool {
    forall|i: int| 0 <= i < list.len() ==> registry.knows(#[trigger] list[i])
}

/// Whether every named metric is registered.
pub open spec fn resolves<H>(registry: Registry<H>, metrics: Option<Seq<Seq<char>>>) -> bool {
    match metrics {
        Some(list) => all_known(registry, list),
        None => true,
    }
}

/// Each metric with the collection that the registry binds it to.
pub open spec fn bound<H>(registry: Registry<H>, metrics: Seq<Seq<char>>) -> Seq<(Seq<char>, H)> {
    metrics.map_values(|metric: Seq<char>| (metric, registry.collection(metric)))
}

/// The series gathered so far, each under the name of its metric.
pub open spec fn response<H>(progress: Progress<H>) -> Seq<(Seq<char>, Seq<Reading>)> {
    Seq::new(progress.gathered.len(), |i: int| (progress.targets[i].0, progress.gathered[i]))
}

/// The stage of a query with the given progress: done once every target is
/// served.
pub open spec fn staged<H>(progress: Progress<H>) -> Staged<H> {
    if progress.gathered.len() < progress.targets.len() {
        Staged::Read(progress)
    } else {
        Staged::Done(response(progress))
    }
}

/// How a query starts. If a named metric is not registered the whole query
/// fails and nothing is read. Otherwise its targets are the collections of
/// the metrics it covers and its scope reaches back `window` milliseconds
/// from `now`.
pub open spec fn begun<H>(
    registry: Registry<H>,
    device_id: Seq<char>,
    metrics: Option<Seq<Seq<char>>>,
    now: i64,
    window: u64,
) -> Result<Staged<H>, QueryError> {
    if resolves(registry, metrics) {
        Ok(
            staged(
                Progress {
                    targets: bound(registry, covered(registry, metrics)),
                    scope: Scope { device_id, since: window_start(now, window) },
                    gathered: Seq::empty(),
                },
            ),
        )
    } else {
        Err(QueryError::NotFound)
    }
}

/// How a query goes on when the due read has come back: with `None` for a
/// failed read, which fails the whole query, or with what the store returned.
/// Of that the query keeps the readings within its scope, in the store's
/// order, also when there are none.
pub open spec fn supplied<H>(
    progress: Progress<H>,
    outcome: Option<Seq<Reading>>,
) -> Result<Staged<H>, QueryError> {
    match outcome {
        None => Err(QueryError::Backend),
        Some(all) => Ok(
            staged(
                Progress {
                    targets: progress.targets,
                    scope: progress.scope,
                    gathered: progress.gathered.push(admitted(progress.scope, all)),
                },
            ),
        ),
    }
}

#[derive(Debug)]
struct Target<'a, H> {
    metric: String,
    collection: &'a H,
}

/// A query that waits for the outcome of a read.
#[derive(Debug)]
pub struct PendingRead<'a, H> {
    targets: Vec<Target<'a, H>>,
    filter: ReadFilter,
    gathered: Vec<MetricSeries>,
}

/// Where a query stands.
#[derive(Debug)]
pub enum Stage<'a, H> {
    /// The next read is due.
    Read(PendingRead<'a, H>),
    /// Every metric is served.
    Done(GetSensorResponse),
}

spec fn target_views<'a, H>(targets: Seq<Target<'a, H>>) -> Seq<(Seq<char>, H)> {
    targets.map_values(|target: Target<'a, H>| (target.metric@, *target.collection))
}

spec fn progress<'a, H>(
    targets: Seq<Target<'a, H>>,
    filter: ReadFilter,
    gathered: Seq<MetricSeries>,
) -> Progress<H> {
    Progress {
        targets: target_views(targets),
        scope: filter@,
        gathered: gathered.map_values(|series: MetricSeries| readings(series.readings@)),
    }
}

spec fn names_agree<'a, H>(targets: Seq<Target<'a, H>>, gathered: Seq<MetricSeries>) -> bool {
    forall|i: int|
        0 <= i < gathered.len() && i < targets.len() ==> (#[trigger] gathered[i]).metric@
            == targets[i].metric@
}

impl<'a, H> View for PendingRead<'a, H> {
    type V = Progress<H>;

    closed spec fn view(&self) -> Progress<H> {
        progress(self.targets@, self.filter, self.gathered@)
    }
}

impl<'a, H> View for Stage<'a, H> {
    type V = Staged<H>;

    open spec fn view(&self) -> Staged<H> {
        match self {
            Stage::Read(pending) => Staged::Read(pending@),
            Stage::Done(response) => Staged::Done(response@),
        }
    }
}

/// The stage that a step of a query led to, or the error that ended it.
pub open spec fn staging<'a, H>(
    step: Result<Stage<'a, H>, QueryError>,
) -> Result<Staged<H>, QueryError> {
    match step {
        Ok(stage) => Ok(stage@),
        Err(error) => Err(error),
    }
}

/// What a read came back with: the readings returned, or `None` for a failure.
pub open spec fn returned<E>(outcome: Result<Vec<SensorData>, E>) -> Option<Seq<Reading>> {
    match outcome {
        Ok(records) => Some(readings(records@)),
        Err(_) => None,
    }
}

/// The metric names of a list, if there is one.
pub open spec fn listed_names(metrics: Option<&Vec<String>>) -> Option<Seq<Seq<char>>> {
    match metrics {
        Some(list) => Some(texts(list@)),
        None => None,
    }
}

/// The metrics that a request names.
pub open spec fn named(request: GetSensorRequest) -> Option<Seq<Seq<char>>> {
    match request.topic {
        Some(topic) => Some(seq![topic@]),
        None => None,
    }
}

impl<'a, H> PendingRead<'a, H> {
    /// A target is left to read, and every series gathered so far belongs
    /// to the target at its position.
    #[verifier::type_invariant]
    closed spec fn wf(&self) -> bool {
        &&& self.gathered@.len() < self.targets@.len()
        &&& names_agree(self.targets@, self.gathered@)
    }

    /// The collection to read next.
    pub fn collection(&self) -> (collection: &'a H)
        ensures
            self@.gathered.len() < self@.targets.len(),
            *collection == self@.targets[self@.gathered.len() as int].1,
    {
        proof {
            use_type_invariant(self);
        }
        self.targets[self.gathered.len()].collection
    }

    /// The metric that the next read serves.
    pub fn metric(&self) -> (metric: &String)
        ensures
            self@.gathered.len() < self@.targets.len(),
            metric@ == self@.targets[self@.gathered.len() as int].0,
    {
        proof {
            use_type_invariant(self);
        }
        &self.targets[self.gathered.len()].metric
    }

    /// The filter of every read of this query.
    pub fn filter(&self) -> (filter: &ReadFilter)
        ensures
            filter@ == self@.scope,
    {
        &self.filter
    }

    fn settle(
        targets: Vec<Target<'a, H>>,
        filter: ReadFilter,
        gathered: Vec<MetricSeries>,
    ) -> (stage: Stage<'a, H>)
        requires
            gathered@.len() <= targets@.len(),
            names_agree(targets@, gathered@),
        ensures
            stage@ == staged(progress(targets@, filter, gathered@)),
    {
        if gathered.len() < targets.len() {
            Stage::Read(PendingRead { targets, filter, gathered })
        } else {
            let ghost done = progress(targets@, filter, gathered@);
            let complete = GetSensorResponse { data: gathered };
            assert(complete@ =~= response(done));
            Stage::Done(complete)
        }
    }

    /// Takes the outcome of the read that was due and moves the query on: to
    /// the next read, to the complete response, or to its failure.
    pub fn supply<E>(
        self,
        outcome: Result<Vec<SensorData>, E>,
    ) -> (step: Result<Stage<'a, H>, QueryError>)
        ensures
            staging(step) == supplied(self@, returned(outcome)),
    {
        proof {
            use_type_invariant(&self);
        }
        match outcome {
            Err(_) => Err(QueryError::Backend),
            Ok(records) => {
                let PendingRead { targets, filter, mut gathered } = self;
                let ghost served = gathered@;
                let series = MetricSeries {
                    metric: targets[gathered.len()].metric.clone(),
                    readings: filter.keep(records),
                };
                gathered.push(series);
                proof {
                    served.lemma_push_map_commute(
                        |series: MetricSeries| readings(series.readings@),
                        series,
                    );
                }
                Ok(Self::settle(targets, filter, gathered))
            },
        }
    }
}

fn resolve_all<'a, H>(registry: &'a Registry<H>) -> (targets: Vec<Target<'a, H>>)
    ensures
        target_views(targets@) == bound(*registry, registry.metrics()),
{
    let mut targets: Vec<Target<'a, H>> = Vec::new();
    let mut at: usize = 0;
    while at < registry.len()
        invariant
            at <= registry.metrics().len(),
            target_views(targets@) == bound(*registry, registry.metrics().take(at as int)),
        decreases registry.metrics().len() - at,
    {
        let (metric, collection) = registry.binding_at(at);
        let target = Target { metric: metric.clone(), collection };
        targets.push(target);
        proof {
            registry.metrics().lemma_map_take_succ(
                |metric: Seq<char>| (metric, registry.collection(metric)),
                at as int,
            );
        }
        at += 1;
    }
    targets
}

fn targets_hold<'a, H>(targets: &Vec<Target<'a, H>>, metric: &str) -> (found: bool)
    ensures
        found == target_views(targets@).map_values(|b: (Seq<char>, H)| b.0).contains(metric@),
{
    let ghost names = target_views(targets@).map_values(|b: (Seq<char>, H)| b.0);
    let mut at: usize = 0;
    while at < targets.len()
        invariant
            at <= targets.len(),
            names == target_views(targets@).map_values(|b: (Seq<char>, H)| b.0),
            forall|j: int| 0 <= j < at ==> names[j] != metric@,
        decreases targets.len() - at,
    {
        if same_text(targets[at].metric.as_str(), metric) {
            assert(names[at as int] == metric@);
            return true;
        }
        at += 1;
    }
    false
}

fn resolve_list<'a, H>(
    registry: &'a Registry<H>,
    list: &Vec<String>,
) -> (targets: Option<Vec<Target<'a, H>>>)
    ensures
        targets is Some <==> resolves(*registry, Some(texts(list@))),
        targets matches Some(found) ==> target_views(found@) == bound(
            *registry,
            covered(*registry, Some(texts(list@))),
        ),
{
    let mut targets: Vec<Target<'a, H>> = Vec::new();
    let ghost names = texts(list@);
    let ghost mut seen: Seq<Seq<char>> = Seq::empty();
    let mut at: usize = 0;
    assert(names.skip(0) =~= names);
    while at < list.len()
        invariant
            at <= list.len(),
            names == texts(list@),
            forall|j: int| 0 <= j < at ==> registry.knows(#[trigger] names[j]),
            names.remove_duplicates(Seq::empty()) == names.skip(at as int).remove_duplicates(seen),
            target_views(targets@) == bound(*registry, seen),
        decreases list.len() - at,
    {
        let collection = match registry.lookup(list[at].as_str()) {
            Some(collection) => collection,
            None => {
                return None;
            },
        };
        let ghost rest = names.skip(at as int);
        proof {
            assert(rest.skip(1) =~= names.skip(at + 1));
            assert(bound(*registry, seen).map_values(|b: (Seq<char>, H)| b.0) =~= seen);
        }
        if !targets_hold(&targets, list[at].as_str()) {
            let target = Target { metric: list[at].clone(), collection };
            targets.push(target);
            proof {
                assert(seen + seq![rest[0]] =~= seen.push(names[at as int]));
                seen = seen.push(names[at as int]);
            }
        }
        at += 1;
    }
    Some(targets)
}

/// Starts a query for the readings of `device_id` that are at most `window`
/// milliseconds older than `now`, under the metrics named in `metrics`, or
/// under every registered metric if none is named.
pub fn begin_at<'a, H>(
    registry: &'a Registry<H>,
    device_id: &str,
    metrics: Option<&Vec<String>>,
    now: i64,
    window: u64,
) -> (step: Result<Stage<'a, H>, QueryError>)
    ensures
        staging(step) == begun(*registry, device_id@, listed_names(metrics), now, window),
{
    let targets = match metrics {
        Some(list) => match resolve_list(registry, list) {
            Some(targets) => targets,
            None => {
                return Err(QueryError::NotFound);
            },
        },
        None => resolve_all(registry),
    };
    let filter = ReadFilter::new(device_id, now, window);
    let gathered: Vec<MetricSeries> = Vec::new();
    assert(progress(targets@, filter, gathered@).gathered =~= Seq::<Seq<Reading>>::empty());
    Ok(PendingRead::settle(targets, filter, gathered))
}

/// Starts the query that a request asks for, over the default window that
/// ends now. The instant is read from the clock, so the contract holds for
/// whatever the clock said.
pub fn get_sensor<'a, H>(
    body: &GetSensorRequest,
    collections: &'a Registry<H>,
) -> (step: Result<Stage<'a, H>, QueryError>)
    ensures
        exists|now: i64|
            staging(step) == #[trigger] begun(
                *collections,
                body.device_id@,
                named(*body),
                now,
                DEFAULT_WINDOW_MILLIS,
            ),
{
    let now = utc_now_millis();
    match &body.topic {
        Some(topic) => {
            let mut list: Vec<String> = Vec::new();
            list.push(topic.clone());
            assert(texts(list@) =~= seq![topic@]);
            begin_at(collections, body.device_id.as_str(), Some(&list), now, DEFAULT_WINDOW_MILLIS)
        },
        None => begin_at(collections, body.device_id.as_str(), None, now, DEFAULT_WINDOW_MILLIS),
    }
}

} // verus!
