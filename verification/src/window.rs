//! The scope of a read: one device, and a window of time that ends now.

use vstd::prelude::*;
use vstd::string::*;
use crate::model::{readings, Reading, SensorData};
use crate::text::same_text;

verus! {

/// What a read asks of a collection: the readings of one device that are
/// no older than `since`, in milliseconds since the Unix epoch.
#[derive(Debug, Clone, PartialEq, Eq)]
pub struct ReadFilter {
    pub device_id: String,
    pub since: i64,
}

/// The mathematical content of a [`ReadFilter`].
pub struct Scope {
    pub device_id: Seq<char>,
    pub since: i64,
}

impl View for ReadFilter {
    type V = Scope;

    open spec fn view(&self) -> Scope {
        Scope { device_id: self.device_id@, since: self.since }
    }
}

/// The earliest instant that a query made at `now` still covers. The window
/// reaches back `window` milliseconds, and no further than the earliest
/// instant that a timestamp can hold.
pub open spec fn window_start(now: i64, window: u64) -> i64 {
    if now - window < i64::MIN {
        i64::MIN
    } else {
        (now - window) as i64
    }
}

/// Whether a reading falls within a scope: it is of the scope's device and
/// not older than the scope's start.
pub open spec fn admits(scope: Scope, reading: Reading) -> bool {
    reading.device_id == scope.device_id && reading.timestamp >= scope.since
}

/// The readings among `all` that fall within `scope`, in their order.
pub open spec fn admitted(scope: Scope, all: Seq<Reading>) -> Seq<Reading> {
    all.filter(|reading: Reading| admits(scope, reading))
}

impl ReadFilter {
    /// The filter of a query for `device_id` made at `now` that looks back
    /// `window` milliseconds.
    pub fn new(device_id: &str, now: i64, window: u64) -> (filter: ReadFilter)
        ensures
            filter@ == (Scope { device_id: device_id@, since: window_start(now, window) }),
    {
        let start: i128 = now as i128 - window as i128;
        let since: i64 = if start < i64::MIN as i128 {
            i64::MIN
        } else {
            start as i64
        };
        ReadFilter { device_id: String::from_str(device_id), since }
    }

    /// Whether `record` falls within this filter.
    pub fn admits(&self, record: &SensorData) -> (yes: bool)
        ensures
            yes == admits(self@, record@),
    {
        record.timestamp >= self.since && same_text(
            record.metadata.device_id.as_str(),
            self.device_id.as_str(),
        )
    }

    /// The records among `records` that fall within this filter, in their
    /// order.
    pub fn keep(&self, records: Vec<SensorData>) -> (kept: Vec<SensorData>)
        ensures
            readings(kept@) == admitted(self@, readings(records@)),
    {
        let mut kept: Vec<SensorData> = Vec::new();
        let ghost within = |reading: Reading| admits(self@, reading);
        for record in it: records
            invariant
                within == |reading: Reading| admits(self@, reading),
                it.seq() == records@,
                readings(kept@) == readings(records@.take(it.index() as int)).filter(within),
        {
            proof {
                records@.lemma_map_take_succ(|r: SensorData| r@, it.index() as int);
                readings(records@.take(it.index() as int)).lemma_filter_push(record@, within);
            }
            if self.admits(&record) {
                kept.push(record);
            }
        }
        assert(records@.take(records@.len() as int) =~= records@);
        kept
    }
}

/// The window boundary: a reading of the queried device is within the scope
/// of a query made at `now` exactly if it is not older than `now - window`.
/// One millisecond before that instant is outside, the instant itself and
/// everything later is inside.
pub proof fn lemma_window_boundary(device_id: Seq<char>, now: i64, window: u64, reading: Reading)
    requires
        reading.device_id == device_id,
    ensures
        admits(Scope { device_id, since: window_start(now, window) }, reading)
            <==> reading.timestamp >= now - window,
{
}

/// A reading of another device is outside the scope, whenever it was taken.
pub proof fn lemma_other_device_excluded(scope: Scope, reading: Reading)
    requires
        reading.device_id != scope.device_id,
    ensures
        !admits(scope, reading),
{
}

/// What a query keeps of a read are exactly the returned readings within
/// its scope.
pub proof fn lemma_admitted_membership(scope: Scope, all: Seq<Reading>, reading: Reading)
    ensures
        admitted(scope, all).contains(reading) <==> all.contains(reading) && admits(scope, reading),
{
    let within = |reading: Reading| admits(scope, reading);
    if all.contains(reading) && admits(scope, reading) {
        let at = choose|i: int| 0 <= i < all.len() && all[i] == reading;
        all.lemma_filter_contains(within, at);
    }
    if admitted(scope, all).contains(reading) {
        all.lemma_filter_contains_rev(within, reading);
    }
}

} // verus!
