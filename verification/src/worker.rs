use vstd::prelude::*;

use crate::queue::DownloadJob;
use crate::settings::DownloaderConfig;

verus! {

/// What the pool decides when an event arrives: start a job now, keep it
/// buffered for a free slot, or sit idle.
pub enum DispatchAction {
    Start(DownloadJob, DownloaderConfig),
    Buffered,
    Idle,
}

/// An event the scheduling state reacts to, reduced to what the decision
/// depends on: the concurrency limit an offered job captured, or a
/// completion.
pub enum PoolEvent {
    Offered(usize),
    Finished,
}

/// The pair of counters the scheduler's decisions depend on: how many jobs
/// are in flight and how many wait in the overflow buffer.
pub open spec fn pool_counts_step(in_flight: int, buffered: int, e: PoolEvent) -> (int, int) {
    match e {
        PoolEvent::Offered(limit) => if in_flight < limit {
            (in_flight + 1, buffered)
        } else {
            (in_flight, buffered + 1)
        },
        PoolEvent::Finished => if buffered > 0 {
            (in_flight, buffered - 1)
        } else if in_flight > 0 {
            (in_flight - 1, buffered)
        } else {
            (0, buffered)
        },
    }
}

/// The counters after a whole sequence of events, starting from an idle pool.
pub open spec fn pool_counts_run(events: Seq<PoolEvent>) -> (int, int)
    decreases events.len(),
{
    if events.len() == 0 {
        (0, 0)
    } else {
        let prev = pool_counts_run(events.drop_last());
        pool_counts_step(prev.0, prev.1, events.last())
    }
}

/// Law: for any concurrency limit `n >= 1`, if every offered job captured a
/// configuration bounding parallelism by `n`, then after any sequence of
/// offers and completions at most `n` jobs are in flight — and so at every
/// moment of the run, since the bound holds of each prefix.
pub proof fn lemma_bounded_concurrency(events: Seq<PoolEvent>, n: int)
    requires
        n >= 1,
        forall|i: int|
            0 <= i < events.len() ==> (#[trigger] events[i] matches PoolEvent::Offered(limit)
                ==> limit <= n),
    ensures
        pool_counts_run(events).0 <= n,
        pool_counts_run(events).1 >= 0,
    decreases events.len(),
{
    if events.len() > 0 {
        lemma_bounded_concurrency(events.drop_last(), n);
    }
}

/// Bounds parallelism to each job's captured concurrency limit: keeps a count
/// of in-flight jobs and a first-in-first-out overflow buffer, so backlog that
/// exceeded the limit at enqueue time still starts in arrival order.
pub struct WorkerPool {
    in_flight: usize,
    overflow: Vec<(DownloadJob, DownloaderConfig)>,
}

impl WorkerPool {
    pub closed spec fn in_flight_spec(&self) -> int {
        self.in_flight as int
    }

    pub closed spec fn overflow_spec(&self) -> Seq<(DownloadJob, DownloaderConfig)> {
        self.overflow@
    }

    pub fn new() -> (r: WorkerPool)
        ensures
            r.in_flight_spec() == 0,
            r.overflow_spec() == Seq::<(DownloadJob, DownloaderConfig)>::empty(),
    {
        let r = WorkerPool { in_flight: 0, overflow: Vec::new() };
        proof {
            assert(r.overflow@ =~= Seq::<(DownloadJob, DownloaderConfig)>::empty());
        }
        r
    }

    /// How many jobs run right now.
    pub fn in_flight_count(&self) -> (r: usize)
        ensures
            r == self.in_flight_spec(),
    {
        self.in_flight
    }

    /// How many jobs wait in the overflow buffer.
    pub fn overflow_len(&self) -> (r: usize)
        ensures
            r == self.overflow_spec().len(),
    {
        self.overflow.len()
    }

    /// A job arrives from the queue: start it when a slot is free under the
    /// limit its configuration captured, else buffer it.
    pub fn on_job_offered(&mut self, job: DownloadJob, config: DownloaderConfig) -> (a:
        DispatchAction)
        requires
            old(self).in_flight_spec() < usize::MAX,
            old(self).overflow_spec().len() < usize::MAX,
        ensures
            (final(self).in_flight_spec(), final(self).overflow_spec().len() as int)
                == pool_counts_step(
                old(self).in_flight_spec(),
                old(self).overflow_spec().len() as int,
                PoolEvent::Offered(config.concurrent_downloads),
            ),
            if old(self).in_flight_spec() < config.concurrent_downloads {
                &&& a == DispatchAction::Start(job, config)
                &&& final(self).overflow_spec() == old(self).overflow_spec()
            } else {
                &&& a is Buffered
                &&& final(self).overflow_spec() == old(self).overflow_spec().push((job, config))
            },
    {
        if self.in_flight < config.concurrent_downloads {
            self.in_flight = self.in_flight + 1;
            DispatchAction::Start(job, config)
        } else {
            self.overflow.push((job, config));
            DispatchAction::Buffered
        }
    }

    /// A running job finished: its slot frees, and the oldest buffered job, if
    /// any, starts in its place before new work is requested.
    pub fn on_job_finished(&mut self) -> (a: DispatchAction)
        requires
            old(self).in_flight_spec() >= 1,
        ensures
            (final(self).in_flight_spec(), final(self).overflow_spec().len() as int)
                == pool_counts_step(
                old(self).in_flight_spec(),
                old(self).overflow_spec().len() as int,
                PoolEvent::Finished,
            ),
            if old(self).overflow_spec().len() > 0 {
                &&& a == DispatchAction::Start(
                    old(self).overflow_spec()[0].0,
                    old(self).overflow_spec()[0].1,
                )
                &&& final(self).overflow_spec() == old(self).overflow_spec().skip(1)
            } else {
                &&& a is Idle
                &&& final(self).overflow_spec() == old(self).overflow_spec()
            },
    {
        if self.overflow.len() > 0 {
            let (job, config) = self.overflow.remove(0);
            proof {
                assert(self.overflow@ =~= old(self).overflow@.skip(1));
            }
            DispatchAction::Start(job, config)
        } else {
            self.in_flight = self.in_flight - 1;
            DispatchAction::Idle
        }
    }
}

/// Law: when a slot is free under the offered job's own limit, the job starts
/// at once — backlog never forms while the pool is below the limit.
pub proof fn lemma_immediate_start_below_limit(in_flight: int, buffered: int, limit: usize)
    requires
        in_flight < limit,
    ensures
        pool_counts_step(in_flight, buffered, PoolEvent::Offered(limit)).0 == in_flight + 1,
        pool_counts_step(in_flight, buffered, PoolEvent::Offered(limit)).1 == buffered,
{
}

} // verus!
