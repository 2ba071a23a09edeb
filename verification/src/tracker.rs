//! The completion tracker: three counters per job in a shared store, and the
//! decisions that one worker takes for one finished chunk.
//!
//! The worker never touches the store itself. `Tracker` says which request to
//! send next and takes the reply; the caller performs the request. `JobCounters`
//! is the store's contract for one job, with every request applied atomically.

use vstd::prelude::*;
use crate::status::{ChunkStatus, JobStatus};
use crate::text::{count_value, parse_count};

verus! {

/// The total that stands for "not yet known". It lies above every count that
/// the store can hold, so no count ever reaches it.
pub const UNKNOWN_TOTAL: i128 = 0x7fff_ffff_ffff_ffff_ffff_ffff_ffff_ffff;

/// One of the three counters of a job.
#[derive(Clone, Copy, Debug, PartialEq, Eq, Structural)]
pub enum Counter {
    Processed,
    Total,
    Errors,
}

/// What a worker asks of the store, for the counters of one job.
#[derive(Clone, Copy, Debug, PartialEq, Eq, Structural)]
pub enum StoreRequest {
    /// Add one to a counter, a missing one counting as zero, and report the new value.
    Increment(Counter),
    /// Report the value of a counter.
    Read(Counter),
    /// Remove all three counters.
    DeleteAll,
}

/// What the store answers.
#[derive(Clone, Copy, Debug, PartialEq, Eq, Structural)]
pub enum StoreReply {
    /// The value of a counter after an increment.
    Count(i64),
    /// The value of a counter, `None` where the store holds none.
    Value(Option<i64>),
    /// The counters are gone.
    Deleted,
    /// The request was not carried out.
    Failed,
}

/// How long the counters of a job may outlive its last chunk.
#[derive(Clone, Copy, Debug, PartialEq, Eq, Structural)]
pub enum Expiry {
    /// Counters stay until their job is complete.
    Never,
    /// A counter is dropped when it has not been raised for so many seconds.
    After { seconds: u64 },
}

/// What the worker learned from one chunk.
#[derive(Clone, Copy, Debug, PartialEq, Eq, Structural)]
pub enum Outcome {
    /// The chunk was counted and the job goes on.
    Counted,
    /// This chunk was the last one: the job was reported and its counters removed.
    Completed(JobStatus),
    /// The chunk could not be counted.
    Aborted,
}

/// What the caller has to do next.
#[derive(Clone, Copy, Debug, PartialEq, Eq, Structural)]
pub enum TrackerAction {
    Store(StoreRequest),
    Notify(JobStatus),
    Stop(Outcome),
}

/// What the caller reports back.
#[derive(Clone, Copy, Debug, PartialEq, Eq, Structural)]
pub enum TrackerEvent {
    /// The store's answer to the last request.
    Reply(StoreReply),
    /// The callback was attempted; delivery is best effort.
    Notified,
}

/// Where a worker stands in the handling of one chunk.
#[derive(Clone, Copy, Debug, PartialEq, Eq, Structural)]
pub enum Tracker {
    CountingChunk { failed: bool },
    CountingError { processed: i64 },
    ReadingTotal { processed: i64 },
    ReadingErrors,
    Notifying { status: JobStatus },
    Clearing { status: JobStatus },
    Done { outcome: Outcome },
}

/// The counters of one job, as the store holds them.
#[derive(Clone, Copy, Debug, PartialEq, Eq, Structural)]
pub struct JobCounters {
    pub processed: Option<i64>,
    pub total: Option<i64>,
    pub errors: Option<i64>,
}

/// The number that a counter stands for: a missing one is zero.
pub open spec fn count_of(value: Option<i64>) -> int {
    match value {
        Some(v) => v as int,
        None => 0,
    }
}

/// The total to compare with: the stored one, or the sentinel.
pub open spec fn effective_total(value: Option<i64>) -> int {
    match value {
        Some(v) => v as int,
        None => UNKNOWN_TOTAL as int,
    }
}

/// A counter after one increment that ignores a refusal.
pub open spec fn bumped(value: Option<i64>) -> Option<i64> {
    if count_of(value) < i64::MAX {
        Some((count_of(value) + 1) as i64)
    } else {
        value
    }
}

/// The ending of a key, which says which counter it is.
pub open spec fn key_ending(counter: Counter) -> Seq<char> {
    match counter {
        Counter::Processed => ":processed"@,
        Counter::Total => ":total"@,
        Counter::Errors => ":errors"@,
    }
}

/// The text key of a counter in the shared store.
pub open spec fn key_text(job_id: Seq<char>, counter: Counter) -> Seq<char> {
    "job:"@ + job_id + key_ending(counter)
}

pub fn counter_key(job_id: &str, counter: Counter) -> (key: String)
    ensures
        key@ == key_text(job_id@, counter),
{
    let mut key = String::from_str("job:");
    key.append(job_id);
    match counter {
        Counter::Processed => key.append(":processed"),
        Counter::Total => key.append(":total"),
        Counter::Errors => key.append(":errors"),
    }
    key
}

/// No two counters share a key: the key tells the job and the counter.
pub proof fn keys_are_distinct(job: Seq<char>, counter: Counter, other_job: Seq<char>, other: Counter)
    requires
        key_text(job, counter) == key_text(other_job, other),
    ensures
        job == other_job,
        counter == other,
{
    reveal_strlit("job:");
    reveal_strlit(":processed");
    reveal_strlit(":total");
    reveal_strlit(":errors");
    let key = key_text(job, counter);
    let same = key_text(other_job, other);
    assert(key.last() == key_ending(counter).last());
    assert(same.last() == key_ending(other).last());
    assert(counter == other);
    assert(key.len() == 4 + job.len() + key_ending(counter).len());
    assert(same.len() == 4 + other_job.len() + key_ending(counter).len());
    assert(job.len() == other_job.len());
    assert forall|i: int| 0 <= i < job.len() implies job[i] == other_job[i] by {
        assert(key[4 + i] == job[i]);
        assert(same[4 + i] == other_job[i]);
    }
    assert(job =~= other_job);
}

/// The total to compare a count with, for a stored value or its absence.
pub fn total_or_unknown(value: Option<i64>) -> (total: i128)
    ensures
        total == effective_total(value),
{
    match value {
        Some(v) => v as i128,
        None => UNKNOWN_TOTAL,
    }
}

/// The value that a stored text stands for: none where nothing is stored or
/// where what is stored is no count.
pub open spec fn stored_value(text: Option<&str>) -> Option<i64> {
    match text {
        Some(text) => count_value(text@),
        None => None,
    }
}

/// The reply for a counter that the store returned as text.
pub fn value_reply(text: Option<&str>) -> (reply: StoreReply)
    ensures
        reply == StoreReply::Value(stored_value(text)),
{
    match text {
        Some(text) => StoreReply::Value(parse_count(text)),
        None => StoreReply::Value(None),
    }
}

/// The counter whose life is to be renewed after a request, and for how
/// long: the one that the request raised, where counters expire at all.
pub open spec fn renewal(request: StoreRequest, expiry: Expiry) -> Option<(Counter, u64)> {
    match (request, expiry) {
        (StoreRequest::Increment(counter), Expiry::After { seconds }) => Some((counter, seconds)),
        _ => None,
    }
}

/// Says which counter to renew after a request. A job that never reaches its
/// total would otherwise leave its counters in the store for ever.
pub fn renew_after(request: StoreRequest, expiry: Expiry) -> (renew: Option<(Counter, u64)>)
    ensures
        renew == renewal(request, expiry),
{
    match (request, expiry) {
        (StoreRequest::Increment(counter), Expiry::After { seconds }) => Some((counter, seconds)),
        _ => None,
    }
}

/// The expiry that a setting asks for: so many seconds where it is a count
/// above zero, none where it is anything else or not set.
pub open spec fn expiry_of(setting: Option<&str>) -> Expiry {
    match stored_value(setting) {
        Some(seconds) => if seconds > 0 {
            Expiry::After { seconds: seconds as u64 }
        } else {
            Expiry::Never
        },
        None => Expiry::Never,
    }
}

pub fn expiry_from(setting: Option<&str>) -> (expiry: Expiry)
    ensures
        expiry == expiry_of(setting),
{
    match setting {
        Some(text) => match parse_count(text) {
            Some(seconds) => if seconds > 0 {
                Expiry::After { seconds: seconds as u64 }
            } else {
                Expiry::Never
            },
            None => Expiry::Never,
        },
        None => Expiry::Never,
    }
}

impl JobCounters {
    pub open spec fn empty() -> JobCounters {
        JobCounters { processed: None, total: None, errors: None }
    }

    pub open spec fn get(self, counter: Counter) -> Option<i64> {
        match counter {
            Counter::Processed => self.processed,
            Counter::Total => self.total,
            Counter::Errors => self.errors,
        }
    }

    pub open spec fn set(self, counter: Counter, value: Option<i64>) -> JobCounters {
        match counter {
            Counter::Processed => JobCounters { processed: value, ..self },
            Counter::Total => JobCounters { total: value, ..self },
            Counter::Errors => JobCounters { errors: value, ..self },
        }
    }

    /// The store's contract: the counters after a request, and the reply. Each
    /// request is one indivisible step. An increment is refused only where the
    /// counter cannot grow.
    pub open spec fn apply(self, request: StoreRequest) -> (JobCounters, StoreReply) {
        match request {
            StoreRequest::Increment(counter) => {
                if count_of(self.get(counter)) < i64::MAX {
                    let next = (count_of(self.get(counter)) + 1) as i64;
                    (self.set(counter, Some(next)), StoreReply::Count(next))
                } else {
                    (self, StoreReply::Failed)
                }
            },
            StoreRequest::Read(counter) => (self, StoreReply::Value(self.get(counter))),
            StoreRequest::DeleteAll => (JobCounters::empty(), StoreReply::Deleted),
        }
    }

    /// No counter of the job is in the store.
    pub fn new() -> (counters: JobCounters)
        ensures
            counters == JobCounters::empty(),
    {
        JobCounters { processed: None, total: None, errors: None }
    }

    /// The counters of a job that was announced with `total` chunks.
    pub fn with_total(total: i64) -> (counters: JobCounters)
        ensures
            counters == (JobCounters { processed: None, total: Some(total), errors: None }),
    {
        JobCounters { processed: None, total: Some(total), errors: None }
    }

    pub fn value(&self, counter: Counter) -> (value: Option<i64>)
        ensures
            value == self.get(counter),
    {
        match counter {
            Counter::Processed => self.processed,
            Counter::Total => self.total,
            Counter::Errors => self.errors,
        }
    }

    pub fn is_empty(&self) -> (empty: bool)
        ensures
            empty == (*self == JobCounters::empty()),
    {
        self.processed.is_none() && self.total.is_none() && self.errors.is_none()
    }

    /// Carries out one request.
    pub fn execute(&mut self, request: StoreRequest) -> (reply: StoreReply)
        ensures
            (*final(self), reply) == old(self).apply(request),
    {
        match request {
            StoreRequest::Increment(counter) => {
                let current: i64 = match self.value(counter) {
                    Some(v) => v,
                    None => 0,
                };
                if current < i64::MAX {
                    let next: i64 = current + 1;
                    match counter {
                        Counter::Processed => { self.processed = Some(next); },
                        Counter::Total => { self.total = Some(next); },
                        Counter::Errors => { self.errors = Some(next); },
                    }
                    StoreReply::Count(next)
                } else {
                    StoreReply::Failed
                }
            },
            StoreRequest::Read(counter) => StoreReply::Value(self.value(counter)),
            StoreRequest::DeleteAll => {
                self.processed = None;
                self.total = None;
                self.errors = None;
                StoreReply::Deleted
            },
        }
    }
}

impl Tracker {
    /// The first step for a chunk that ended with `status`.
    pub open spec fn start(status: ChunkStatus) -> Tracker {
        Tracker::CountingChunk { failed: status.failed() }
    }

    /// What the caller has to do in this state.
    pub open spec fn pending(self) -> TrackerAction {
        match self {
            Tracker::CountingChunk { .. } => TrackerAction::Store(
                StoreRequest::Increment(Counter::Processed),
            ),
            Tracker::CountingError { .. } => TrackerAction::Store(
                StoreRequest::Increment(Counter::Errors),
            ),
            Tracker::ReadingTotal { .. } => TrackerAction::Store(
                StoreRequest::Read(Counter::Total),
            ),
            Tracker::ReadingErrors => TrackerAction::Store(StoreRequest::Read(Counter::Errors)),
            Tracker::Notifying { status } => TrackerAction::Notify(status),
            Tracker::Clearing { .. } => TrackerAction::Store(StoreRequest::DeleteAll),
            Tracker::Done { outcome } => TrackerAction::Stop(outcome),
        }
    }

    /// The state after the caller's report.
    ///
    /// Only a chunk that could not be counted ends the work early. An error
    /// count that could not be raised is passed over; a total that could not be
    /// read is unknown; an error count that could not be read is zero; the
    /// callback and the removal are attempted once each.
    pub open spec fn after(self, event: TrackerEvent) -> Tracker {
        match self {
            Tracker::CountingChunk { failed } => match event {
                TrackerEvent::Reply(StoreReply::Count(processed)) => if failed {
                    Tracker::CountingError { processed }
                } else {
                    Tracker::ReadingTotal { processed }
                },
                _ => Tracker::Done { outcome: Outcome::Aborted },
            },
            Tracker::CountingError { processed } => Tracker::ReadingTotal { processed },
            Tracker::ReadingTotal { processed } => {
                let total = match event {
                    TrackerEvent::Reply(StoreReply::Value(value)) => effective_total(value),
                    _ => UNKNOWN_TOTAL as int,
                };
                if processed >= total {
                    Tracker::ReadingErrors
                } else {
                    Tracker::Done { outcome: Outcome::Counted }
                }
            },
            Tracker::ReadingErrors => {
                let errors = match event {
                    TrackerEvent::Reply(StoreReply::Value(value)) => count_of(value),
                    _ => 0,
                };
                Tracker::Notifying { status: JobStatus::of_errors(errors) }
            },
            Tracker::Notifying { status } => Tracker::Clearing { status },
            Tracker::Clearing { status } => Tracker::Done { outcome: Outcome::Completed(status) },
            Tracker::Done { outcome } => Tracker::Done { outcome },
        }
    }

    pub fn begin(status: ChunkStatus) -> (tracker: Tracker)
        ensures
            tracker == Tracker::start(status),
    {
        Tracker::CountingChunk { failed: status.is_failure() }
    }

    pub fn action(&self) -> (action: TrackerAction)
        ensures
            action == self.pending(),
    {
        match self {
            Tracker::CountingChunk { .. } => TrackerAction::Store(
                StoreRequest::Increment(Counter::Processed),
            ),
            Tracker::CountingError { .. } => TrackerAction::Store(
                StoreRequest::Increment(Counter::Errors),
            ),
            Tracker::ReadingTotal { .. } => TrackerAction::Store(
                StoreRequest::Read(Counter::Total),
            ),
            Tracker::ReadingErrors => TrackerAction::Store(StoreRequest::Read(Counter::Errors)),
            Tracker::Notifying { status } => TrackerAction::Notify(*status),
            Tracker::Clearing { .. } => TrackerAction::Store(StoreRequest::DeleteAll),
            Tracker::Done { outcome } => TrackerAction::Stop(*outcome),
        }
    }

    pub fn advance(&self, event: TrackerEvent) -> (next: Tracker)
        ensures
            next == self.after(event),
    {
        match self {
            Tracker::CountingChunk { failed } => match event {
                TrackerEvent::Reply(StoreReply::Count(processed)) => if *failed {
                    Tracker::CountingError { processed }
                } else {
                    Tracker::ReadingTotal { processed }
                },
                _ => Tracker::Done { outcome: Outcome::Aborted },
            },
            Tracker::CountingError { processed } => Tracker::ReadingTotal { processed: *processed },
            Tracker::ReadingTotal { processed } => {
                let total: i128 = match event {
                    TrackerEvent::Reply(StoreReply::Value(value)) => total_or_unknown(value),
                    _ => UNKNOWN_TOTAL,
                };
                if *processed as i128 >= total {
                    Tracker::ReadingErrors
                } else {
                    Tracker::Done { outcome: Outcome::Counted }
                }
            },
            Tracker::ReadingErrors => {
                let errors: i64 = match event {
                    TrackerEvent::Reply(StoreReply::Value(Some(value))) => value,
                    _ => 0,
                };
                Tracker::Notifying { status: JobStatus::from_error_count(errors) }
            },
            Tracker::Notifying { status } => Tracker::Clearing { status: *status },
            Tracker::Clearing { status } => Tracker::Done {
                outcome: Outcome::Completed(*status),
            },
            Tracker::Done { outcome } => Tracker::Done { outcome: *outcome },
        }
    }

    pub open spec fn finished(self) -> bool {
        self is Done
    }

    pub fn is_done(&self) -> (done: bool)
        ensures
            done == self.finished(),
    {
        match self {
            Tracker::Done { .. } => true,
            _ => false,
        }
    }

    /// How many steps are left at most.
    pub open spec fn steps_left(self) -> nat {
        match self {
            Tracker::CountingChunk { .. } => 7,
            Tracker::CountingError { .. } => 6,
            Tracker::ReadingTotal { .. } => 5,
            Tracker::ReadingErrors => 4,
            Tracker::Notifying { .. } => 3,
            Tracker::Clearing { .. } => 2,
            Tracker::Done { .. } => 1,
        }
    }
}

} // verus!
