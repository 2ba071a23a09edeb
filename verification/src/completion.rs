//! What the completion tracker guarantees against a store that applies each
//! request atomically: one chunk handled without interruption, a whole job fed
//! chunk by chunk, and two workers racing on the last two chunks.

use vstd::prelude::*;
use crate::status::{ChunkStatus, JobStatus};
use crate::tracker::{
    bumped, count_of, effective_total, Counter, JobCounters, Outcome, Tracker, TrackerAction,
    TrackerEvent,
};

verus! {

/// One step of a worker against the store: the worker's next state, the
/// counters, and the status that was sent out in this step, if one was.
pub open spec fn perform(tracker: Tracker, counters: JobCounters) -> (
    Tracker,
    JobCounters,
    Option<JobStatus>,
) {
    match tracker.pending() {
        TrackerAction::Store(request) => {
            let (next, reply) = counters.apply(request);
            (tracker.after(TrackerEvent::Reply(reply)), next, None)
        },
        TrackerAction::Notify(status) => (
            tracker.after(TrackerEvent::Notified),
            counters,
            Some(status),
        ),
        TrackerAction::Stop(_) => (tracker, counters, None),
    }
}

/// A worker's steps to the end, with nothing in between: the counters left
/// behind and the status sent, if any.
pub open spec fn run_alone(tracker: Tracker, counters: JobCounters, sent: Option<JobStatus>) -> (
    JobCounters,
    Option<JobStatus>,
)
    decreases tracker.steps_left(),
{
    if tracker.finished() {
        (counters, sent)
    } else {
        let (next, store, out) = perform(tracker, counters);
        run_alone(
            next,
            store,
            if out is Some {
                out
            } else {
                sent
            },
        )
    }
}

/// The counters and the notification after one chunk.
///
/// The chunk is counted; a failed one raises the error count; the job is
/// complete when the count has reached the total, and then it is reported with
/// the error count read at that moment and its counters are removed. A count
/// that cannot grow leaves everything as it was.
pub open spec fn after_chunk(counters: JobCounters, status: ChunkStatus) -> (
    JobCounters,
    Option<JobStatus>,
) {
    if count_of(counters.processed) >= i64::MAX {
        (counters, None)
    } else {
        let processed = count_of(counters.processed) + 1;
        let errors = if status.failed() {
            bumped(counters.errors)
        } else {
            counters.errors
        };
        if processed >= effective_total(counters.total) {
            (JobCounters::empty(), Some(JobStatus::of_errors(count_of(errors))))
        } else {
            (
                JobCounters { processed: Some(processed as i64), total: counters.total, errors },
                None,
            )
        }
    }
}

/// The counters and the notifications, in order, after a series of chunks.
pub open spec fn after_chunks(counters: JobCounters, statuses: Seq<ChunkStatus>) -> (
    JobCounters,
    Seq<JobStatus>,
)
    decreases statuses.len(),
{
    if statuses.len() == 0 {
        (counters, Seq::empty())
    } else {
        let (before, sent) = after_chunks(counters, statuses.drop_last());
        let (next, out) = after_chunk(before, statuses.last());
        (
            next,
            match out {
                Some(status) => sent.push(status),
                None => sent,
            },
        )
    }
}

/// How many of the chunks failed.
pub open spec fn failures(statuses: Seq<ChunkStatus>) -> nat
    decreases statuses.len(),
{
    if statuses.len() == 0 {
        0
    } else {
        failures(statuses.drop_last()) + if statuses.last().failed() {
            1nat
        } else {
            0nat
        }
    }
}

/// Every report brings a worker nearer to its end: a chunk is dealt with in
/// seven steps at most, whatever the store answers.
pub proof fn worker_comes_to_an_end(tracker: Tracker, event: TrackerEvent)
    ensures
        tracker.finished() ==> tracker.after(event) == tracker,
        !tracker.finished() ==> tracker.after(event).steps_left() < tracker.steps_left(),
        tracker.steps_left() <= 7,
{
}

/// The worker's steps, run one after the other, do to the counters what
/// `after_chunk` says.
pub proof fn worker_alone_is_after_chunk(counters: JobCounters, status: ChunkStatus)
    ensures
        run_alone(Tracker::start(status), counters, None) == after_chunk(counters, status),
{
    reveal_with_fuel(run_alone, 8);
}

/// Handles one finished chunk against counters held in memory, and returns the
/// notification that it sent, if the chunk completed its job.
pub fn complete_chunk(counters: &mut JobCounters, status: ChunkStatus) -> (sent: Option<JobStatus>)
    ensures
        (*final(counters), sent) == after_chunk(*old(counters), status),
{
    let mut tracker = Tracker::begin(status);
    let mut sent: Option<JobStatus> = None;
    proof {
        worker_alone_is_after_chunk(*counters, status);
    }
    while !tracker.is_done()
        invariant
            run_alone(tracker, *counters, sent) == after_chunk(*old(counters), status),
        decreases tracker.steps_left(),
    {
        match tracker.action() {
            TrackerAction::Store(request) => {
                let reply = counters.execute(request);
                tracker = tracker.advance(TrackerEvent::Reply(reply));
            },
            TrackerAction::Notify(status) => {
                sent = Some(status);
                tracker = tracker.advance(TrackerEvent::Notified);
            },
            TrackerAction::Stop(_) => {},
        }
    }
    sent
}

/// Handles a series of finished chunks, one after the other, and returns the
/// notifications in the order in which they were sent.
pub fn complete_chunks(counters: &mut JobCounters, statuses: &Vec<ChunkStatus>) -> (sent: Vec<
    JobStatus,
>)
    ensures
        (*final(counters), sent@) == after_chunks(*old(counters), statuses@),
{
    let mut sent: Vec<JobStatus> = Vec::new();
    let mut i: usize = 0;
    while i < statuses.len()
        invariant
            i <= statuses.len(),
            (*counters, sent@) == after_chunks(*old(counters), statuses@.take(i as int)),
        decreases statuses.len() - i,
    {
        assert(statuses@.take(i + 1).drop_last() == statuses@.take(i as int));
        match complete_chunk(counters, statuses[i]) {
            Some(status) => sent.push(status),
            None => {},
        }
        i = i + 1;
    }
    assert(statuses@.take(i as int) == statuses@);
    sent
}

/// The counters of a job of `total` chunks after `seen` of them, `failed` of
/// which failed.
pub open spec fn counters_midway(total: i64, seen: int, failed: int) -> JobCounters {
    JobCounters {
        processed: if seen == 0 {
            None
        } else {
            Some(seen as i64)
        },
        total: Some(total),
        errors: if failed == 0 {
            None
        } else {
            Some(failed as i64)
        },
    }
}

proof fn lemma_failures_bound(statuses: Seq<ChunkStatus>)
    ensures
        failures(statuses) <= statuses.len(),
        failures(statuses) == 0 <==> forall|i: int|
            0 <= i < statuses.len() ==> !(#[trigger] statuses[i]).failed(),
    decreases statuses.len(),
{
    if statuses.len() > 0 {
        lemma_failures_bound(statuses.drop_last());
        assert forall|i: int| 0 <= i < statuses.len() - 1 implies statuses.drop_last()[i]
            == statuses[i] by {}
        if failures(statuses) == 0 {
            assert forall|i: int| 0 <= i < statuses.len() implies !(#[trigger] statuses[i]).failed() by {
                if i < statuses.len() - 1 {
                    assert(statuses.drop_last()[i] == statuses[i]);
                }
            }
        } else if failures(statuses.drop_last()) == 0 {
            assert(statuses[statuses.len() - 1].failed());
        } else {
            let j = choose|j: int|
                0 <= j < statuses.drop_last().len() && (#[trigger] statuses.drop_last()[j]).failed();
            assert(statuses[j].failed());
        }
    }
}

proof fn lemma_before_the_last(total: i64, statuses: Seq<ChunkStatus>)
    requires
        statuses.len() < total,
    ensures
        after_chunks(JobCounters::empty().set(Counter::Total, Some(total)), statuses)
            == (
            counters_midway(total, statuses.len() as int, failures(statuses) as int),
            Seq::<JobStatus>::empty(),
        ),
    decreases statuses.len(),
{
    if statuses.len() > 0 {
        lemma_before_the_last(total, statuses.drop_last());
        lemma_failures_bound(statuses.drop_last());
    }
}

/// Completion is reported exactly once. A job announced with `total` chunks,
/// fed exactly that many finished chunks in any order and with any of them
/// failed, sends one notification, when the last chunk is handled. Its status
/// is `Success` if and only if no chunk failed. Afterwards the store holds none
/// of the job's counters.
pub proof fn completion_is_reported_once(total: i64, statuses: Seq<ChunkStatus>)
    requires
        total >= 1,
        statuses.len() == total,
    ensures
        after_chunks(
            JobCounters { processed: None, total: Some(total), errors: None },
            statuses,
        ) == (JobCounters::empty(), seq![JobStatus::of_errors(failures(statuses) as int)]),
        after_chunks(
            JobCounters { processed: None, total: Some(total), errors: None },
            statuses.drop_last(),
        ).1.len() == 0,
        JobStatus::of_errors(failures(statuses) as int) == JobStatus::Success <==> forall|i: int|
            0 <= i < statuses.len() ==> !(#[trigger] statuses[i]).failed(),
{
    lemma_before_the_last(total, statuses.drop_last());
    lemma_failures_bound(statuses.drop_last());
    lemma_failures_bound(statuses);
    let start = JobCounters { processed: None, total: Some(total), errors: None };
    assert(start == JobCounters::empty().set(Counter::Total, Some(total)));
    let (before, sent) = after_chunks(start, statuses.drop_last());
    assert(sent.push(JobStatus::of_errors(failures(statuses) as int)) == seq![
        JobStatus::of_errors(failures(statuses) as int),
    ]);
}

/// A total that is never set is never reached: whatever the counters hold
/// besides, and however many chunks finish, nothing is sent and the total stays
/// unknown.
pub proof fn unknown_total_never_completes(counters: JobCounters, statuses: Seq<ChunkStatus>)
    requires
        counters.total is None,
    ensures
        after_chunks(counters, statuses).1.len() == 0,
        after_chunks(counters, statuses).0.total is None,
    decreases statuses.len(),
{
    if statuses.len() > 0 {
        unknown_total_never_completes(counters, statuses.drop_last());
    }
}

/// A chunk that arrives after its job was completed starts from fresh
/// counters: it is the first of an unannounced job and completes nothing.
pub proof fn late_chunk_starts_afresh(status: ChunkStatus)
    ensures
        after_chunk(JobCounters::empty(), status).1 is None,
        after_chunk(JobCounters::empty(), status).0.processed == Some(1i64),
        after_chunk(JobCounters::empty(), status).0.total is None,
{
}

/// Workers on the counters of one job, each with one finished chunk, and the
/// notifications that went out.
pub struct Crowd {
    pub counters: JobCounters,
    pub workers: Seq<Tracker>,
    pub sent: Seq<JobStatus>,
}

/// The workers at their start, one for each chunk.
pub open spec fn starting(statuses: Seq<ChunkStatus>) -> Seq<Tracker> {
    Seq::new(statuses.len(), |i: int| Tracker::start(statuses[i]))
}

impl Crowd {
    /// One step of one worker; all others wait. A turn that names no worker
    /// changes nothing.
    pub open spec fn step(self, who: int) -> Crowd {
        if 0 <= who < self.workers.len() {
            let (next, store, out) = perform(self.workers[who], self.counters);
            Crowd {
                counters: store,
                workers: self.workers.update(who, next),
                sent: match out {
                    Some(status) => self.sent.push(status),
                    None => self.sent,
                },
            }
        } else {
            self
        }
    }

    /// The steps of a schedule, which names the worker that moves at each turn.
    pub open spec fn run(self, schedule: Seq<int>) -> Crowd
        decreases schedule.len(),
    {
        if schedule.len() == 0 {
            self
        } else {
            self.run(schedule.drop_last()).step(schedule.last())
        }
    }

    /// Every worker has stopped.
    pub open spec fn settled(self) -> bool {
        forall|i: int| 0 <= i < self.workers.len() ==> (#[trigger] self.workers[i]).finished()
    }
}

/// A worker that holds a count below the total, or has learned that its
/// chunk was not the last.
spec fn below(tracker: Tracker, total: i64) -> bool {
    match tracker {
        Tracker::CountingError { processed } => processed < total,
        Tracker::ReadingTotal { processed } => processed < total,
        Tracker::Done { outcome: Outcome::Counted } => true,
        _ => false,
    }
}

/// The worker whose count reached the total, wherever it stands.
spec fn top(tracker: Tracker, total: i64) -> bool {
    match tracker {
        Tracker::CountingError { processed } => processed == total,
        Tracker::ReadingTotal { processed } => processed == total,
        Tracker::ReadingErrors => true,
        Tracker::Notifying { .. } => true,
        Tracker::Clearing { .. } => true,
        Tracker::Done { outcome: Outcome::Completed(_) } => true,
        _ => false,
    }
}

/// How many workers have counted their chunk.
spec fn counted(workers: Seq<Tracker>) -> nat
    decreases workers.len(),
{
    if workers.len() == 0 {
        0
    } else {
        counted(workers.drop_last()) + if workers.last() is CountingChunk {
            0nat
        } else {
            1nat
        }
    }
}

spec fn crowd_invariant(crowd: Crowd, total: i64) -> bool {
    let workers = crowd.workers;
    &&& forall|i: int|
        0 <= i < workers.len() ==> (#[trigger] workers[i]) is CountingChunk || below(
            workers[i],
            total,
        ) || top(workers[i], total)
    &&& forall|i: int, j: int|
        0 <= i < j < workers.len() ==> !(top(#[trigger] workers[i], total) && top(
            #[trigger] workers[j],
            total,
        ))
    &&& (forall|i: int| 0 <= i < workers.len() ==> !top(#[trigger] workers[i], total)) ==> {
        &&& crowd.counters.total == Some(total)
        &&& count_of(crowd.counters.processed) == total - workers.len() + counted(workers)
        &&& counted(workers) < workers.len()
        &&& crowd.sent.len() == 0
    }
    &&& forall|i: int|
        0 <= i < workers.len() && top(#[trigger] workers[i], total) ==> {
            &&& counted(workers) == workers.len()
            &&& match workers[i] {
                Tracker::Clearing { .. } => crowd.counters.total == Some(total) && crowd.sent.len()
                    == 1,
                Tracker::Done { .. } => crowd.counters.total is None
                    && crowd.counters.processed is None && crowd.sent.len() == 1,
                _ => crowd.counters.total == Some(total) && crowd.sent.len() == 0,
            }
        }
}

proof fn lemma_counted_bound(workers: Seq<Tracker>)
    ensures
        counted(workers) <= workers.len(),
        counted(workers) == workers.len() <==> forall|i: int|
            0 <= i < workers.len() ==> !((#[trigger] workers[i]) is CountingChunk),
    decreases workers.len(),
{
    if workers.len() > 0 {
        let front = workers.drop_last();
        lemma_counted_bound(front);
        if counted(workers) == workers.len() {
            assert forall|i: int| 0 <= i < workers.len() implies !((#[trigger] workers[i])
                is CountingChunk) by {
                if i < front.len() {
                    assert(front[i] == workers[i]);
                }
            }
        }
        if forall|i: int| 0 <= i < workers.len() ==> !((#[trigger] workers[i]) is CountingChunk) {
            assert forall|i: int| 0 <= i < front.len() implies !((#[trigger] front[i])
                is CountingChunk) by {
                assert(front[i] == workers[i]);
            }
            assert(!(workers[workers.len() - 1] is CountingChunk));
        }
    }
}

proof fn lemma_counted_update(workers: Seq<Tracker>, who: int, next: Tracker)
    requires
        0 <= who < workers.len(),
    ensures
        counted(workers.update(who, next)) == counted(workers) - (if workers[who]
            is CountingChunk {
            0int
        } else {
            1int
        }) + (if next is CountingChunk {
            0int
        } else {
            1int
        }),
    decreases workers.len(),
{
    let updated = workers.update(who, next);
    if who == workers.len() - 1 {
        assert(updated.drop_last() == workers.drop_last());
    } else {
        assert(updated.drop_last() == workers.drop_last().update(who, next));
        assert(updated.last() == workers.last());
        lemma_counted_update(workers.drop_last(), who, next);
    }
}

proof fn lemma_counted_at_start(statuses: Seq<ChunkStatus>)
    ensures
        counted(starting(statuses)) == 0,
    decreases statuses.len(),
{
    if statuses.len() > 0 {
        assert(starting(statuses).drop_last() == starting(statuses.drop_last()));
        lemma_counted_at_start(statuses.drop_last());
    }
}

#[verifier::rlimit(40)]
proof fn lemma_crowd_step(crowd: Crowd, total: i64, who: int)
    requires
        crowd_invariant(crowd, total),
    ensures
        crowd_invariant(crowd.step(who), total),
{
    if 0 <= who < crowd.workers.len() {
        let workers = crowd.workers;
        let mover = workers[who];
        let (next, store, out) = perform(mover, crowd.counters);
        let after = crowd.step(who);
        lemma_counted_update(workers, who, next);
        lemma_counted_bound(workers);
        lemma_counted_bound(after.workers);
        assert(after.workers[who] == next);
        assert forall|i: int| 0 <= i < workers.len() && i != who implies after.workers[i]
            == workers[i] by {}
        assert(mover is CountingChunk || below(mover, total) || top(mover, total));
        if mover is CountingChunk {
            assert forall|i: int| 0 <= i < workers.len() implies !top(
                #[trigger] workers[i],
                total,
            ) by {
                if top(workers[i], total) {
                    assert(counted(workers) == workers.len());
                }
            }
            assert(count_of(crowd.counters.processed) < total);
            if top(next, total) {
                assert(counted(after.workers) == workers.len());
            }
        } else if below(mover, total) {
            assert(below(next, total)) by {
                if mover is ReadingTotal {
                    if forall|i: int| 0 <= i < workers.len() ==> !top(#[trigger] workers[i], total) {
                    } else {
                        let i = choose|i: int| 0 <= i < workers.len() && top(workers[i], total);
                        assert(top(workers[i], total));
                    }
                }
            }
            assert(store == crowd.counters || (mover is CountingError && store.total
                == crowd.counters.total && store.processed == crowd.counters.processed));
            assert(out is None);
        } else {
            assert(top(mover, total));
            assert(top(next, total));
            assert forall|i: int| 0 <= i < workers.len() && i != who implies !top(
                #[trigger] workers[i],
                total,
            ) by {
                if i < who {
                    assert(!(top(workers[i], total) && top(workers[who], total)));
                } else {
                    assert(!(top(workers[who], total) && top(workers[i], total)));
                }
            }
        }
        assert forall|i: int, j: int| 0 <= i < j < after.workers.len() implies !(top(
            #[trigger] after.workers[i],
            total,
        ) && top(#[trigger] after.workers[j], total)) by {
            if i != who && j != who {
                assert(!(top(workers[i], total) && top(workers[j], total)));
            } else if top(mover, total) {
            } else if top(next, total) {
                let other = if i == who {
                    j
                } else {
                    i
                };
                assert(!top(workers[other], total));
            }
        }
    }
}

proof fn lemma_crowd_run(crowd: Crowd, total: i64, schedule: Seq<int>)
    requires
        crowd_invariant(crowd, total),
    ensures
        crowd_invariant(crowd.run(schedule), total),
    decreases schedule.len(),
{
    if schedule.len() > 0 {
        lemma_crowd_run(crowd, total, schedule.drop_last());
        lemma_crowd_step(crowd.run(schedule.drop_last()), total, schedule.last());
    }
}

/// The last chunks of a job may finish at the same time on as many workers.
/// However the steps of the workers interleave, never more than one
/// notification goes out, and once all workers have stopped exactly one has,
/// and the count and the total of the job are gone from the store. (The
/// error count is not named: a worker that raises it after the removal
/// leaves it behind.)
pub proof fn racing_workers_report_once(
    total: i64,
    counters: JobCounters,
    statuses: Seq<ChunkStatus>,
    schedule: Seq<int>,
)
    requires
        statuses.len() >= 1,
        counters.total == Some(total),
        count_of(counters.processed) + statuses.len() == total,
    ensures
        ({
            let crowd = Crowd { counters, workers: starting(statuses), sent: Seq::empty() }.run(
                schedule,
            );
            &&& crowd.sent.len() <= 1
            &&& crowd.settled() ==> crowd.sent.len() == 1 && crowd.counters.processed is None
                && crowd.counters.total is None
        }),
{
    let crowd = Crowd { counters, workers: starting(statuses), sent: Seq::empty() };
    lemma_counted_at_start(statuses);
    lemma_crowd_run(crowd, total, schedule);
    let end = crowd.run(schedule);
    lemma_counted_bound(end.workers);
    if end.settled() {
        assert forall|i: int| 0 <= i < end.workers.len() implies !((#[trigger] end.workers[i])
            is CountingChunk) by {
            assert(end.workers[i].finished());
        }
        lemma_run_keeps_the_workers(crowd, schedule);
        assert(counted(end.workers) == end.workers.len());
        if forall|i: int| 0 <= i < end.workers.len() ==> !top(#[trigger] end.workers[i], total) {
            assert(counted(end.workers) < end.workers.len());
        } else {
            let i = choose|i: int| 0 <= i < end.workers.len() && top(end.workers[i], total);
            assert(end.workers[i].finished());
        }
    } else {
        if forall|i: int| 0 <= i < end.workers.len() ==> !top(#[trigger] end.workers[i], total) {
        } else {
            let i = choose|i: int| 0 <= i < end.workers.len() && top(end.workers[i], total);
            assert(top(end.workers[i], total));
        }
    }
}

proof fn lemma_run_keeps_the_workers(crowd: Crowd, schedule: Seq<int>)
    ensures
        crowd.run(schedule).workers.len() == crowd.workers.len(),
    decreases schedule.len(),
{
    if schedule.len() > 0 {
        lemma_run_keeps_the_workers(crowd, schedule.drop_last());
    }
}

/// The last two chunks of a job, finishing at the same time on two workers,
/// are reported by exactly one notification, never none and never two.
pub proof fn last_two_chunks_report_once(
    total: i64,
    counters: JobCounters,
    first: ChunkStatus,
    second: ChunkStatus,
    schedule: Seq<int>,
)
    requires
        counters.total == Some(total),
        count_of(counters.processed) == total - 2,
    ensures
        ({
            let crowd = Crowd {
                counters,
                workers: seq![Tracker::start(first), Tracker::start(second)],
                sent: Seq::empty(),
            }.run(schedule);
            &&& crowd.sent.len() <= 1
            &&& crowd.settled() ==> crowd.sent.len() == 1
        }),
{
    assert(starting(seq![first, second]) =~= seq![Tracker::start(first), Tracker::start(second)]);
    racing_workers_report_once(total, counters, seq![first, second], schedule);
}

} // verus!
