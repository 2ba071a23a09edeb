//! A counter store held in memory: the counters of many jobs, each request
//! carried out in one step.
//!
//! It stands in for the shared store wherever none is at hand, and it says
//! what is expected of one: a request touches the counters of its own job and
//! of no other.

use vstd::prelude::*;
use crate::completion::{after_chunk, complete_chunk};
use crate::status::{ChunkStatus, JobStatus};
use crate::tracker::{JobCounters, StoreReply, StoreRequest};

verus! {

/// The counters of the jobs that the store knows.
pub struct CounterStore {
    jobs: Vec<(String, JobCounters)>,
}

/// The counters of a job among entries: those of the first entry under its
/// name, or none.
pub open spec fn lookup(entries: Seq<(String, JobCounters)>, job: Seq<char>) -> JobCounters
    decreases entries.len(),
{
    if entries.len() == 0 {
        JobCounters::empty()
    } else if entries[0].0@ == job {
        entries[0].1
    } else {
        lookup(entries.skip(1), job)
    }
}

proof fn lemma_lookup_absent(entries: Seq<(String, JobCounters)>, job: Seq<char>)
    requires
        forall|i: int| 0 <= i < entries.len() ==> (#[trigger] entries[i]).0@ != job,
    ensures
        lookup(entries, job) == JobCounters::empty(),
    decreases entries.len(),
{
    if entries.len() > 0 {
        let rest = entries.skip(1);
        assert forall|i: int| 0 <= i < rest.len() implies (#[trigger] rest[i]).0@ != job by {
            assert(rest[i] == entries[i + 1]);
        }
        lemma_lookup_absent(rest, job);
    }
}

proof fn lemma_lookup_after_push(
    entries: Seq<(String, JobCounters)>,
    entry: (String, JobCounters),
    job: Seq<char>,
)
    requires
        forall|i: int| 0 <= i < entries.len() ==> (#[trigger] entries[i]).0@ != entry.0@,
    ensures
        lookup(entries.push(entry), job) == if job == entry.0@ {
            entry.1
        } else {
            lookup(entries, job)
        },
    decreases entries.len(),
{
    let pushed = entries.push(entry);
    if entries.len() == 0 {
        assert(pushed[0] == entry);
        assert(pushed.skip(1) =~= Seq::<(String, JobCounters)>::empty());
        assert(lookup(pushed.skip(1), job) == JobCounters::empty());
        assert(lookup(entries, job) == JobCounters::empty());
    } else {
        let rest = entries.skip(1);
        assert(pushed[0] == entries[0]);
        assert(entries[0].0@ != entry.0@);
        assert(pushed.skip(1) =~= rest.push(entry));
        assert forall|i: int| 0 <= i < rest.len() implies (#[trigger] rest[i]).0@ != entry.0@ by {
            assert(rest[i] == entries[i + 1]);
        }
        lemma_lookup_after_push(rest, entry, job);
    }
}

proof fn lemma_lookup_after_update(
    entries: Seq<(String, JobCounters)>,
    at: int,
    entry: (String, JobCounters),
    job: Seq<char>,
)
    requires
        0 <= at < entries.len(),
        entries[at].0@ == entry.0@,
        forall|i: int| 0 <= i < at ==> (#[trigger] entries[i]).0@ != entry.0@,
    ensures
        lookup(entries.update(at, entry), job) == if job == entry.0@ {
            entry.1
        } else {
            lookup(entries, job)
        },
    decreases entries.len(),
{
    let updated = entries.update(at, entry);
    if at == 0 {
        assert(updated[0] == entry);
        assert(updated.skip(1) =~= entries.skip(1));
    } else {
        let rest = entries.skip(1);
        assert(updated[0] == entries[0]);
        assert(updated.skip(1) =~= rest.update(at - 1, entry));
        assert(rest[at - 1] == entries[at]);
        assert forall|i: int| 0 <= i < at - 1 implies (#[trigger] rest[i]).0@ != entry.0@ by {
            assert(rest[i] == entries[i + 1]);
        }
        lemma_lookup_after_update(rest, at - 1, entry, job);
    }
}

proof fn lemma_lookup_found(entries: Seq<(String, JobCounters)>, at: int)
    requires
        0 <= at < entries.len(),
        forall|i: int| 0 <= i < at ==> (#[trigger] entries[i]).0@ != entries[at].0@,
    ensures
        lookup(entries, entries[at].0@) == entries[at].1,
    decreases entries.len(),
{
    if at > 0 {
        let rest = entries.skip(1);
        assert(rest[at - 1] == entries[at]);
        assert forall|i: int| 0 <= i < at - 1 implies (#[trigger] rest[i]).0@ != rest[at - 1].0@ by {
            assert(rest[i] == entries[i + 1]);
        }
        lemma_lookup_found(rest, at - 1);
    }
}

impl CounterStore {
    /// The counters that the store holds for a job: none for a job that it
    /// does not know.
    pub closed spec fn counters_of(&self, job: Seq<char>) -> JobCounters {
        lookup(self.jobs@, job)
    }

    /// A store that knows no job.
    pub fn new() -> (store: CounterStore)
        ensures
            forall|job: Seq<char>| #[trigger] store.counters_of(job) == JobCounters::empty(),
    {
        CounterStore { jobs: Vec::new() }
    }

    fn position(&self, job_id: &str) -> (at: Option<usize>)
        ensures
            match at {
                Some(at) => at < self.jobs.len() && self.jobs@[at as int].0@ == job_id@ && forall|
                    i: int,
                | 0 <= i < at ==> (#[trigger] self.jobs@[i]).0@ != job_id@,
                None => forall|i: int|
                    0 <= i < self.jobs.len() ==> (#[trigger] self.jobs@[i]).0@ != job_id@,
            },
    {
        let wanted = String::from_str(job_id);
        let mut i: usize = 0;
        while i < self.jobs.len()
            invariant
                i <= self.jobs.len(),
                wanted@ == job_id@,
                forall|k: int| 0 <= k < i ==> (#[trigger] self.jobs@[k]).0@ != job_id@,
            decreases self.jobs.len() - i,
        {
            if self.jobs[i].0 == wanted {
                return Some(i);
            }
            i = i + 1;
        }
        None
    }

    /// The counters of a job.
    pub fn counters(&self, job_id: &str) -> (counters: JobCounters)
        ensures
            counters == self.counters_of(job_id@),
    {
        match self.position(job_id) {
            Some(at) => {
                proof {
                    lemma_lookup_found(self.jobs@, at as int);
                }
                self.jobs[at].1
            },
            None => {
                proof {
                    lemma_lookup_absent(self.jobs@, job_id@);
                }
                JobCounters::new()
            },
        }
    }

    fn put(&mut self, job_id: &str, counters: JobCounters)
        ensures
            forall|job: Seq<char>|
                #[trigger] final(self).counters_of(job) == if job == job_id@ {
                    counters
                } else {
                    old(self).counters_of(job)
                },
    {
        let entry = (String::from_str(job_id), counters);
        match self.position(job_id) {
            Some(at) => {
                proof {
                    assert forall|job: Seq<char>|
                        lookup(self.jobs@.update(at as int, entry), job) == if job == job_id@ {
                            counters
                        } else {
                            lookup(self.jobs@, job)
                        } by {
                        lemma_lookup_after_update(self.jobs@, at as int, entry, job);
                    }
                }
                self.jobs.set(at, entry);
            },
            None => {
                proof {
                    assert forall|job: Seq<char>|
                        lookup(self.jobs@.push(entry), job) == if job == job_id@ {
                            counters
                        } else {
                            lookup(self.jobs@, job)
                        } by {
                        lemma_lookup_after_push(self.jobs@, entry, job);
                    }
                }
                self.jobs.push(entry);
            },
        }
    }

    /// Announces a job: from now on its total is known.
    pub fn announce(&mut self, job_id: &str, total: i64)
        ensures
            final(self).counters_of(job_id@) == (JobCounters {
                total: Some(total),
                ..old(self).counters_of(job_id@)
            }),
            forall|job: Seq<char>|
                job != job_id@ ==> #[trigger] final(self).counters_of(job) == old(self).counters_of(
                    job,
                ),
    {
        let before = self.counters(job_id);
        self.put(job_id, JobCounters { total: Some(total), ..before });
    }

    /// Carries out one request on the counters of a job, in one step. The
    /// counters of every other job stay as they are.
    pub fn execute(&mut self, job_id: &str, request: StoreRequest) -> (reply: StoreReply)
        ensures
            (final(self).counters_of(job_id@), reply) == old(self).counters_of(job_id@).apply(
                request,
            ),
            forall|job: Seq<char>|
                job != job_id@ ==> #[trigger] final(self).counters_of(job) == old(self).counters_of(
                    job,
                ),
    {
        let mut counters = self.counters(job_id);
        let reply = counters.execute(request);
        self.put(job_id, counters);
        reply
    }

    /// Handles one finished chunk of a job without interruption, and returns
    /// the notification that it sent, if the chunk completed the job. The
    /// counters of every other job stay as they are.
    pub fn complete_chunk(&mut self, job_id: &str, status: ChunkStatus) -> (sent: Option<JobStatus>)
        ensures
            (final(self).counters_of(job_id@), sent) == after_chunk(
                old(self).counters_of(job_id@),
                status,
            ),
            forall|job: Seq<char>|
                job != job_id@ ==> #[trigger] final(self).counters_of(job) == old(self).counters_of(
                    job,
                ),
    {
        let mut counters = self.counters(job_id);
        let sent = complete_chunk(&mut counters, status);
        self.put(job_id, counters);
        sent
    }
}

} // verus!
