//! What a whole query returns, and that the engine arrives at it step by
//! step.

use vstd::prelude::*;
use crate::ingest::routed;
use crate::model::Reading;
use crate::query::{
    begun, bound, covered, resolves, response, series_names, staged, supplied, Progress,
    QueryError, Staged,
};
use crate::registry::Registry;
use crate::topic::decoded;
use crate::window::{
    admits, admitted, lemma_admitted_membership, lemma_window_boundary, window_start, Scope,
};

verus! {

/// What a whole query returns when the reads of its collections come back
/// with `reads`, one outcome for each covered metric in order, `None` for a
/// failed read.
///
/// A named metric that is not registered fails the query with `NotFound`
/// before anything is read. Any failed read fails it with `Backend`.
/// Otherwise every covered metric appears once, in order, with the returned
/// readings that are within the scope, be there some or none.
pub open spec fn answer<H>(
    registry: Registry<H>,
    device_id: Seq<char>,
    metrics: Option<Seq<Seq<char>>>,
    now: i64,
    window: u64,
    reads: Seq<Option<Seq<Reading>>>,
) -> Result<Seq<(Seq<char>, Seq<Reading>)>, QueryError>
    recommends
        reads.len() == covered(registry, metrics).len(),
{
    let names = covered(registry, metrics);
    let scope = Scope { device_id, since: window_start(now, window) };
    if !resolves(registry, metrics) {
        Err(QueryError::NotFound)
    } else if any_failed(reads) {
        Err(QueryError::Backend)
    } else {
        Ok(Seq::new(names.len(), |i: int| (names[i], admitted(scope, reads[i].unwrap()))))
    }
}

/// Whether one of the reads failed.
pub open spec fn any_failed(reads: Seq<Option<Seq<Reading>>>) -> bool {
    exists|i: int| 0 <= i < reads.len() && (#[trigger] reads[i]) is None
}

/// The course of a query from one of its steps on, when the reads that fall
/// due come back with `reads` in turn: how it ends, or `None` if the reads
/// run out before it does.
pub open spec fn course<H>(
    step: Result<Staged<H>, QueryError>,
    reads: Seq<Option<Seq<Reading>>>,
) -> Option<Result<Seq<(Seq<char>, Seq<Reading>)>, QueryError>>
    decreases reads.len(),
{
    match step {
        Err(error) => Some(Err(error)),
        Ok(Staged::Done(series)) => Some(Ok(series)),
        Ok(Staged::Read(progress)) => if reads.len() > 0 {
            course(supplied(progress, reads[0]), reads.drop_first())
        } else {
            None
        },
    }
}

/// The series of a query once the reads that are still due have come back
/// with `reads`, none of them failed: what was gathered before, then what is
/// kept of each read.
spec fn completed<H>(
    progress: Progress<H>,
    reads: Seq<Option<Seq<Reading>>>,
) -> Seq<(Seq<char>, Seq<Reading>)> {
    Seq::new(
        progress.targets.len(),
        |i: int|
            (
                progress.targets[i].0,
                if i < progress.gathered.len() {
                    progress.gathered[i]
                } else {
                    admitted(progress.scope, reads[i - progress.gathered.len()].unwrap())
                },
            ),
    )
}

proof fn lemma_course_from<H>(progress: Progress<H>, reads: Seq<Option<Seq<Reading>>>)
    requires
        progress.gathered.len() + reads.len() == progress.targets.len(),
    ensures
        course(Ok(staged(progress)), reads) == Some(
            if any_failed(reads) {
                Err(QueryError::Backend)
            } else {
                Ok(completed(progress, reads))
            },
        ),
    decreases reads.len(),
{
    if reads.len() == 0 {
        assert(response(progress) =~= completed(progress, reads));
    } else {
        let rest = reads.drop_first();
        match reads[0] {
            None => {
                assert(course(supplied(progress, reads[0]), rest) == Some(
                    Err::<Seq<(Seq<char>, Seq<Reading>)>, QueryError>(QueryError::Backend),
                ));
            },
            Some(all) => {
                let next = Progress {
                    targets: progress.targets,
                    scope: progress.scope,
                    gathered: progress.gathered.push(admitted(progress.scope, all)),
                };
                lemma_course_from(next, rest);
                if any_failed(rest) {
                    let j = choose|j: int| 0 <= j < rest.len() && (#[trigger] rest[j]) is None;
                    assert(reads[j + 1] is None);
                }
                if any_failed(reads) {
                    let j = choose|j: int| 0 <= j < reads.len() && (#[trigger] reads[j]) is None;
                    assert(rest[j - 1] is None);
                } else {
                    assert(completed(next, rest) =~= completed(progress, reads));
                }
            },
        }
    }
}

/// Step by step a query arrives at its answer: started and then supplied
/// with the outcome of each read in turn, it ends with what [`answer`] says.
pub proof fn lemma_course_is_answer<H>(
    registry: Registry<H>,
    device_id: Seq<char>,
    metrics: Option<Seq<Seq<char>>>,
    now: i64,
    window: u64,
    reads: Seq<Option<Seq<Reading>>>,
)
    requires
        reads.len() == covered(registry, metrics).len(),
    ensures
        course(begun(registry, device_id, metrics, now, window), reads) == Some(
            answer(registry, device_id, metrics, now, window, reads),
        ),
{
    if resolves(registry, metrics) {
        let names = covered(registry, metrics);
        let scope = Scope { device_id, since: window_start(now, window) };
        let start = Progress {
            targets: bound(registry, names),
            scope,
            gathered: Seq::<Seq<Reading>>::empty(),
        };
        lemma_course_from(start, reads);
        if !any_failed(reads) {
            assert(completed(start, reads) =~= Seq::new(
                names.len(),
                |i: int| (names[i], admitted(scope, reads[i].unwrap())),
            ));
        }
    }
}

/// A query that names a metric which is not registered fails with
/// `NotFound`, whatever else it names and whatever the store holds.
pub proof fn lemma_unknown_metric_not_found<H>(
    registry: Registry<H>,
    device_id: Seq<char>,
    list: Seq<Seq<char>>,
    at: int,
    now: i64,
    window: u64,
    reads: Seq<Option<Seq<Reading>>>,
)
    requires
        0 <= at < list.len(),
        !registry.knows(list[at]),
    ensures
        begun(registry, device_id, Some(list), now, window) == Err::<Staged<H>, QueryError>(
            QueryError::NotFound,
        ),
        answer(registry, device_id, Some(list), now, window, reads) == Err::<
            Seq<(Seq<char>, Seq<Reading>)>,
            QueryError,
        >(QueryError::NotFound),
{
}

/// A covered metric for which the store returns nothing within the scope is
/// no error: it is answered with an empty series.
pub proof fn lemma_no_match_is_empty_series<H>(
    registry: Registry<H>,
    device_id: Seq<char>,
    metrics: Option<Seq<Seq<char>>>,
    now: i64,
    window: u64,
    reads: Seq<Option<Seq<Reading>>>,
    at: int,
)
    requires
        resolves(registry, metrics),
        reads.len() == covered(registry, metrics).len(),
        !any_failed(reads),
        0 <= at < reads.len(),
        forall|i: int|
            0 <= i < reads[at].unwrap().len() ==> !admits(
                Scope { device_id, since: window_start(now, window) },
                #[trigger] reads[at].unwrap()[i],
            ),
    ensures
        answer(registry, device_id, metrics, now, window, reads) is Ok,
        answer(registry, device_id, metrics, now, window, reads).unwrap()[at] == (
            covered(registry, metrics)[at],
            Seq::<Reading>::empty(),
        ),
{
    let scope = Scope { device_id, since: window_start(now, window) };
    let all = reads[at].unwrap();
    let kept = admitted(scope, all);
    if kept.len() > 0 {
        lemma_admitted_membership(scope, all, kept[0]);
    }
}

/// Round trip: a record that ingestion stored is among the answer to a query
/// for its device that covers its metric and whose window reaches back to
/// the instant of ingestion, provided the store returns the record and no
/// read fails.
pub proof fn lemma_round_trip<H>(
    registry: Registry<H>,
    topic: Seq<char>,
    data: u32,
    ingested: i64,
    metrics: Option<Seq<Seq<char>>>,
    now: i64,
    window: u64,
    reads: Seq<Option<Seq<Reading>>>,
    at: int,
)
    requires
        routed(registry, topic, Some(data), ingested) is Store,
        resolves(registry, metrics),
        reads.len() == covered(registry, metrics).len(),
        !any_failed(reads),
        0 <= at < reads.len(),
        covered(registry, metrics)[at] == decoded(topic).unwrap().1,
        ingested >= now - window,
        reads[at].unwrap().contains(routed(registry, topic, Some(data), ingested)->record),
    ensures
        answer(registry, decoded(topic).unwrap().0, metrics, now, window, reads) is Ok,
        answer(registry, decoded(topic).unwrap().0, metrics, now, window, reads).unwrap()[at].0
            == decoded(topic).unwrap().1,
        answer(
            registry,
            decoded(topic).unwrap().0,
            metrics,
            now,
            window,
            reads,
        ).unwrap()[at].1.contains(
            Reading { device_id: decoded(topic).unwrap().0, timestamp: ingested, data },
        ),
{
}

/// A record older than the window is absent from the answer, whatever the
/// store returns.
pub proof fn lemma_expired_is_absent<H>(
    registry: Registry<H>,
    device_id: Seq<char>,
    metrics: Option<Seq<Seq<char>>>,
    now: i64,
    window: u64,
    reads: Seq<Option<Seq<Reading>>>,
    at: int,
    reading: Reading,
)
    requires
        reads.len() == covered(registry, metrics).len(),
        0 <= at < reads.len(),
        reading.timestamp < now - window,
        answer(registry, device_id, metrics, now, window, reads) is Ok,
    ensures
        !answer(registry, device_id, metrics, now, window, reads).unwrap()[at].1.contains(reading),
{
}

/// An answer is a mapping: it holds one series for each covered metric, in
/// order, and no metric twice. The covered metrics are exactly the named
/// ones, or all registered ones if none is named.
pub proof fn lemma_answer_is_a_mapping<H>(
    registry: Registry<H>,
    device_id: Seq<char>,
    metrics: Option<Seq<Seq<char>>>,
    now: i64,
    window: u64,
    reads: Seq<Option<Seq<Reading>>>,
)
    requires
        registry.wf(),
    ensures
        covered(registry, metrics).no_duplicates(),
        metrics is None ==> covered(registry, metrics) == registry.metrics(),
        metrics matches Some(list) ==> forall|metric: Seq<char>|
            list.contains(metric) <==> #[trigger] covered(registry, metrics).contains(metric),
        answer(registry, device_id, metrics, now, window, reads) matches Ok(series)
            ==> series_names(series) == covered(registry, metrics),
{
    if let Some(list) = metrics {
        lemma_distinct_after(list, Seq::empty());
        list.lemma_remove_duplicates_properties(Seq::empty());
        assert(list + Seq::<Seq<char>>::empty() =~= list);
    }
}

proof fn lemma_distinct_after(list: Seq<Seq<char>>, seen: Seq<Seq<char>>)
    requires
        seen.no_duplicates(),
    ensures
        list.remove_duplicates(seen).no_duplicates(),
    decreases list.len(),
{
    if list.len() > 0 {
        if seen.contains(list[0]) {
            lemma_distinct_after(list.skip(1), seen);
        } else {
            let more = seen + seq![list[0]];
            assert(more.no_duplicates()) by {
                assert forall|i: int| 0 <= i < seen.len() implies seen[i] != list[0] by {
                    assert(seen.contains(seen[i]));
                }
            }
            lemma_distinct_after(list.skip(1), more);
        }
    }
}

} // verus!
