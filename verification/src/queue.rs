use vstd::prelude::*;

use crate::error::SpotifyError;
use crate::settings::DownloaderConfig;

verus! {

/// The lifecycle state of one download.
///
/// `Queued` is freshly enqueued work, `Lock` marks a job handed to a worker
/// for this dispatch cycle, `Downloading(bytes_read, total_bytes)` carries
/// live progress, `Post` covers tagging after the stream is drained, and
/// `Done` and `Error` are terminal.
#[derive(Debug)]
pub enum DownloadState {
    Queued,
    Lock,
    Downloading(usize, usize),
    Post,
    Done,
    Error(String),
}

impl Clone for DownloadState {
    fn clone(&self) -> (r: Self)
        ensures
            r == *self,
    {
        match self {
            DownloadState::Queued => DownloadState::Queued,
            DownloadState::Lock => DownloadState::Lock,
            DownloadState::Downloading(b, t) => DownloadState::Downloading(*b, *t),
            DownloadState::Post => DownloadState::Post,
            DownloadState::Done => DownloadState::Done,
            DownloadState::Error(m) => DownloadState::Error(m.clone()),
        }
    }
}

impl DownloadState {
    pub fn is_queued(&self) -> (r: bool)
        ensures
            r == (*self matches DownloadState::Queued),
    {
        matches!(self, DownloadState::Queued)
    }

    pub fn is_done(&self) -> (r: bool)
        ensures
            r == (*self matches DownloadState::Done),
    {
        matches!(self, DownloadState::Done)
    }
}

/// One visible entry of the download queue.
#[derive(Debug)]
pub struct Download {
    /// Identity, assigned by the queue; unique for the queue's lifetime.
    pub id: i64,
    /// Reference of the track in the catalog; immutable after creation.
    pub track_id: String,
    pub title: String,
    pub subtitle: String,
    pub state: DownloadState,
}

impl Clone for Download {
    fn clone(&self) -> (r: Self)
        ensures
            r == *self,
    {
        Download {
            id: self.id,
            track_id: self.track_id.clone(),
            title: self.title.clone(),
            subtitle: self.subtitle.clone(),
            state: self.state.clone(),
        }
    }
}

/// The unit of work handed to a worker: one track and the job's identity.
#[derive(Debug)]
pub struct DownloadJob {
    pub id: i64,
    pub track_id: String,
}

impl Clone for DownloadJob {
    fn clone(&self) -> (r: Self)
        ensures
            r == *self,
    {
        DownloadJob { id: self.id, track_id: self.track_id.clone() }
    }
}

impl Download {
    /// The job handed to a worker for this download.
    pub fn to_job(&self) -> (r: DownloadJob)
        ensures
            r.id == self.id,
            r.track_id == self.track_id,
    {
        DownloadJob { id: self.id, track_id: self.track_id.clone() }
    }
}

/// The position of the first job eligible for dispatch (state `Queued`), in
/// insertion order, at or after `i`.
pub open spec fn first_eligible_from(jobs: Seq<Download>, i: int) -> Option<int>
    decreases jobs.len() - i,
{
    if i < 0 || i >= jobs.len() {
        None
    } else if (jobs[i].state matches DownloadState::Queued) {
        Some(i)
    } else {
        first_eligible_from(jobs, i + 1)
    }
}

pub open spec fn first_eligible(jobs: Seq<Download>) -> Option<int> {
    first_eligible_from(jobs, 0)
}

/// The position of the job with identity `id` at or after `i`, if any.
pub open spec fn find_id_from(jobs: Seq<Download>, id: i64, i: int) -> Option<int>
    decreases jobs.len() - i,
{
    if i < 0 || i >= jobs.len() {
        None
    } else if jobs[i].id == id {
        Some(i)
    } else {
        find_id_from(jobs, id, i + 1)
    }
}

pub open spec fn find_id(jobs: Seq<Download>, id: i64) -> Option<int> {
    find_id_from(jobs, id, 0)
}

/// The queue after `items` are enqueued: each item keeps its track reference
/// and captions, gets a fresh ascending id starting at `next_id`, and starts
/// in state `Queued`.
pub open spec fn enqueued_jobs(jobs: Seq<Download>, next_id: int, items: Seq<Download>) -> Seq<
    Download,
> {
    jobs + Seq::new(
        items.len(),
        |k: int|
            Download {
                id: (next_id + k) as i64,
                track_id: items[k].track_id,
                title: items[k].title,
                subtitle: items[k].subtitle,
                state: DownloadState::Queued,
            },
    )
}

/// Well-formedness of the queue: every id is non-negative, below the next id
/// to assign, and distinct from every other.
pub open spec fn queue_wf(jobs: Seq<Download>, next_id: int) -> bool {
    &&& 0 <= next_id <= i64::MAX
    &&& forall|k: int| 0 <= k < jobs.len() ==> 0 <= #[trigger] jobs[k].id < next_id
    &&& forall|k: int, l: int|
        0 <= k < l < jobs.len() ==> #[trigger] jobs[k].id != #[trigger] jobs[l].id
}

/// All jobs and their states; assigns monotonic identities and hands out
/// eligible work in insertion order. All mutation goes through one owner of
/// this value, so no job is ever handed out twice.
pub struct JobQueue {
    jobs: Vec<Download>,
    next_id: i64,
    waiting: bool,
}

impl JobQueue {
    pub closed spec fn jobs_view(&self) -> Seq<Download> {
        self.jobs@
    }

    pub closed spec fn next_id_spec(&self) -> int {
        self.next_id as int
    }

    /// Whether a worker asked for a job while none was eligible, so the next
    /// enqueue dispatches immediately.
    pub closed spec fn waiting_spec(&self) -> bool {
        self.waiting
    }

    pub closed spec fn wf(&self) -> bool {
        queue_wf(self.jobs@, self.next_id as int)
    }

    /// The id the next enqueued job will get; ids never go back down.
    pub fn next_id(&self) -> (r: i64)
        ensures
            r == self.next_id_spec(),
    {
        self.next_id
    }

    /// Whether a worker is idle-waiting for the next enqueue.
    pub fn is_waiting(&self) -> (r: bool)
        ensures
            r == self.waiting_spec(),
    {
        self.waiting
    }

    pub fn new() -> (r: JobQueue)
        ensures
            r.wf(),
            r.jobs_view() == Seq::<Download>::empty(),
            r.next_id_spec() == 0,
            !r.waiting_spec(),
    {
        let r = JobQueue { jobs: Vec::new(), next_id: 0, waiting: false };
        proof {
            assert(r.jobs@ =~= Seq::<Download>::empty());
        }
        r
    }

    /// Appends `items`, assigning each a fresh id and state `Queued`. Ids are
    /// strictly increasing in batch order and never reuse an id that any job
    /// of this queue ever held.
    pub fn enqueue(&mut self, items: Vec<Download>)
        requires
            old(self).wf(),
            old(self).next_id_spec() + items@.len() <= i64::MAX,
        ensures
            final(self).wf(),
            final(self).jobs_view() == enqueued_jobs(
                old(self).jobs_view(),
                old(self).next_id_spec(),
                items@,
            ),
            final(self).next_id_spec() == old(self).next_id_spec() + items@.len(),
            final(self).waiting_spec() == old(self).waiting_spec(),
    {
        let ghost jobs0 = self.jobs@;
        let ghost next0 = self.next_id as int;
        let ghost items_view = items@;
        let mut items = items;
        let n = items.len();
        let mut k: usize = 0;
        while k < n
            invariant
                self.next_id == next0 + k,
                n == items_view.len(),
                k <= n,
                items@ == items_view.skip(k as int),
                next0 + n <= i64::MAX,
                0 <= next0,
                self.jobs@ == enqueued_jobs(jobs0, next0, items_view.take(k as int)),
                queue_wf(jobs0, next0),
                queue_wf(self.jobs@, self.next_id as int),
                self.waiting == old(self).waiting,
            decreases n - k,
        {
            let ghost jobs_before = self.jobs@;
            let mut d = items.remove(0);
            d.id = self.next_id;
            d.state = DownloadState::Queued;
            self.jobs.push(d);
            self.next_id = self.next_id + 1;
            k += 1;
            proof {
                assert(items@ =~= items_view.skip(k as int));
                assert(self.jobs@ =~= enqueued_jobs(jobs0, next0, items_view.take(k as int)));
            }
        }
        proof {
            assert(items_view.take(n as int) =~= items_view);
        }
    }

    /// Locks and returns the first eligible job in insertion order; when none
    /// is eligible, records that a worker is waiting.
    pub fn next_eligible(&mut self) -> (r: Option<DownloadJob>)
        requires
            old(self).wf(),
        ensures
            final(self).wf(),
            final(self).next_id_spec() == old(self).next_id_spec(),
            match first_eligible(old(self).jobs_view()) {
                Some(k) => {
                    &&& r matches Some(job)
                    &&& job.id == old(self).jobs_view()[k].id
                    &&& job.track_id == old(self).jobs_view()[k].track_id
                    &&& final(self).jobs_view() == old(self).jobs_view().update(
                        k,
                        Download { state: DownloadState::Lock, ..old(self).jobs_view()[k] },
                    )
                    &&& !final(self).waiting_spec()
                },
                None => {
                    &&& r is None
                    &&& final(self).jobs_view() == old(self).jobs_view()
                    &&& final(self).waiting_spec()
                },
            },
    {
        let ghost jobs0 = self.jobs@;
        let n = self.jobs.len();
        let mut i: usize = 0;
        while i < n
            invariant
                self == old(self),
                n == self.jobs@.len(),
                i <= n,
                first_eligible(jobs0) == first_eligible_from(jobs0, i as int),
                jobs0 == self.jobs@,
                queue_wf(jobs0, self.next_id as int),
            decreases n - i,
        {
            if self.jobs[i].state.is_queued() {
                let mut d = self.jobs.remove(i);
                let job = d.to_job();
                d.state = DownloadState::Lock;
                self.jobs.insert(i, d);
                self.waiting = false;
                proof {
                    assert(self.jobs@ =~= jobs0.update(
                        i as int,
                        Download { state: DownloadState::Lock, ..jobs0[i as int] },
                    ));
                    assert(forall|k: int|
                        0 <= k < self.jobs@.len() ==> #[trigger] self.jobs@[k].id == jobs0[k].id);
                }
                return Some(job);
            }
            i += 1;
        }
        self.waiting = true;
        return None;
    }

    /// Applies a state report for job `id`: updates the state in place,
    /// removes the job when it reached `Done`, and ignores ids no longer
    /// present (the job may already have finished and left the queue).
    pub fn update_state(&mut self, id: i64, state: DownloadState)
        requires
            old(self).wf(),
        ensures
            final(self).wf(),
            final(self).next_id_spec() == old(self).next_id_spec(),
            final(self).waiting_spec() == old(self).waiting_spec(),
            match find_id(old(self).jobs_view(), id) {
                Some(k) => if (state matches DownloadState::Done) {
                    final(self).jobs_view() == old(self).jobs_view().remove(k)
                } else {
                    final(self).jobs_view() == old(self).jobs_view().update(
                        k,
                        Download { state: state, ..old(self).jobs_view()[k] },
                    )
                },
                None => final(self).jobs_view() == old(self).jobs_view(),
            },
    {
        let ghost jobs0 = self.jobs@;
        let n = self.jobs.len();
        let mut i: usize = 0;
        while i < n
            invariant
                self == old(self),
                n == self.jobs@.len(),
                i <= n,
                find_id(jobs0, id) == find_id_from(jobs0, id, i as int),
                jobs0 == self.jobs@,
                queue_wf(jobs0, self.next_id as int),
            decreases n - i,
        {
            if self.jobs[i].id == id {
                if state.is_done() {
                    self.jobs.remove(i);
                    proof {
                        assert(self.jobs@ =~= jobs0.remove(i as int));
                        assert(forall|k: int|
                            0 <= k < self.jobs@.len() ==> #[trigger] self.jobs@[k].id == if k < i {
                                jobs0[k].id
                            } else {
                                jobs0[k + 1].id
                            });
                    }
                } else {
                    let mut d = self.jobs.remove(i);
                    d.state = state;
                    self.jobs.insert(i, d);
                    proof {
                        assert(self.jobs@ =~= jobs0.update(
                            i as int,
                            Download { state: state, ..jobs0[i as int] },
                        ));
                        assert(forall|k: int|
                            0 <= k < self.jobs@.len() ==> #[trigger] self.jobs@[k].id
                                == jobs0[k].id);
                    }
                }
                return ;
            }
            i += 1;
        }
    }

    /// A read-only copy of the queue for reporting; no eligibility side
    /// effects.
    pub fn snapshot(&self) -> (r: Vec<Download>)
        ensures
            r@ == self.jobs_view(),
    {
        let mut r: Vec<Download> = Vec::new();
        let n = self.jobs.len();
        let mut i: usize = 0;
        while i < n
            invariant
                n == self.jobs@.len(),
                i <= n,
                r@ == self.jobs@.take(i as int),
            decreases n - i,
        {
            r.push(self.jobs[i].clone());
            proof {
                assert(r@ =~= self.jobs@.take(i + 1));
            }
            i += 1;
        }
        proof {
            assert(self.jobs@.take(n as int) =~= self.jobs@);
        }
        r
    }
}

/// Whatever position `first_eligible` names holds a job that still waits in
/// state `Queued`.
proof fn lemma_first_eligible_is_queued(jobs: Seq<Download>, i: int)
    ensures
        first_eligible_from(jobs, i) matches Some(k) ==> i <= k < jobs.len() && (
        jobs[k].state matches DownloadState::Queued),
    decreases jobs.len() - i,
{
    if 0 <= i < jobs.len() {
        lemma_first_eligible_is_queued(jobs, i + 1);
    }
}

/// Law: no job is handed out twice — once a dispatch locks a job, no later
/// dispatch can pick the same position again until its state is reset, since
/// dispatch only ever picks jobs still in state `Queued`.
pub proof fn lemma_no_double_dispatch(jobs: Seq<Download>, k: int)
    requires
        first_eligible(jobs) == Some(k),
    ensures
        first_eligible(locked_at(jobs, k)) != Some(k),
{
    lemma_first_eligible_is_queued(jobs, 0);
    lemma_first_eligible_is_queued(locked_at(jobs, k), 0);
}

/// Law: the ids an enqueue assigns are strictly increasing in batch order,
/// strictly greater than every id already in the queue, and — because
/// well-formedness keeps every id ever assigned below `next_id` — never equal
/// to an id any earlier job held.
pub proof fn lemma_enqueue_ids_strictly_increasing(
    jobs: Seq<Download>,
    next_id: int,
    items: Seq<Download>,
)
    requires
        queue_wf(jobs, next_id),
        next_id + items.len() <= i64::MAX,
    ensures
        forall|k: int, l: int|
            0 <= k < l < items.len() ==> #[trigger] enqueued_jobs(jobs, next_id, items)[jobs.len()
                + k].id < #[trigger] enqueued_jobs(jobs, next_id, items)[jobs.len() + l].id,
        forall|k: int, j: int|
            0 <= k < items.len() && 0 <= j < jobs.len() ==> #[trigger] enqueued_jobs(
                jobs,
                next_id,
                items,
            )[jobs.len() + k].id > #[trigger] jobs[j].id,
        queue_wf(enqueued_jobs(jobs, next_id, items), next_id + items.len()),
{
    let all = enqueued_jobs(jobs, next_id, items);
    assert(forall|k: int|
        0 <= k < items.len() ==> #[trigger] all[jobs.len() + k].id == next_id + k);
    assert forall|k: int, l: int| 0 <= k < l < all.len() implies #[trigger] all[k].id
        != #[trigger] all[l].id by {
        if k < jobs.len() && l < jobs.len() {
            assert(jobs[k].id != jobs[l].id);
        }
    }
}


/// The terminal state a job takes when its pipeline fails: the error's
/// human-readable message, visible until cleared — failed jobs stay in the
/// queue for inspection, finished ones leave it.
pub fn failure_state(e: &SpotifyError) -> (s: DownloadState)
    ensures
        s matches DownloadState::Error(m) && m@ == e.describe_spec(),
{
    DownloadState::Error(e.describe())
}

/// A request handled by the queue's owning coordinator.
pub enum Message {
    /// A worker asks for the next eligible job.
    GetJob,
    /// A worker reports the new state of job `id`.
    UpdateState(i64, DownloadState),
    /// The caller enqueues new downloads.
    AddToQueue(Vec<Download>),
    /// The caller asks for a snapshot of the queue.
    GetDownloads,
    /// The caller installs a new configuration for future dispatches.
    SetConfig(DownloaderConfig),
}

/// A reply sent back to the caller.
pub enum Response {
    Downloads(Vec<Download>),
}

/// A job dispatched to the worker pool, with the configuration snapshot it
/// captured at dispatch time.
pub enum DownloaderMessage {
    Job(DownloadJob, DownloaderConfig),
}

/// What handling one message produced: an optional reply to the caller and an
/// optional dispatch to the worker pool.
pub struct CoordinatorEffect {
    pub reply: Option<Response>,
    pub dispatch: Option<DownloaderMessage>,
}

/// Owns the job queue and the current configuration: the single serializing
/// entry point through which every queue mutation flows, so no job is ever
/// handed out twice.
pub struct QueueCoordinator {
    pub queue: JobQueue,
    pub config: DownloaderConfig,
}

/// The jobs after `next_eligible` locked position `k`.
pub open spec fn locked_at(jobs: Seq<Download>, k: int) -> Seq<Download> {
    jobs.update(k, Download { state: DownloadState::Lock, ..jobs[k] })
}

impl QueueCoordinator {
    pub fn new(queue: JobQueue, config: DownloaderConfig) -> (r: QueueCoordinator)
        ensures
            r.queue == queue,
            r.config == config,
    {
        QueueCoordinator { queue, config }
    }

    /// Handles one message from the mailbox; every state change of the queue
    /// and configuration goes through here.
    pub fn handle_message(&mut self, msg: Message) -> (e: CoordinatorEffect)
        requires
            old(self).queue.wf(),
            msg matches Message::AddToQueue(items) ==> old(self).queue.next_id_spec()
                + items@.len() <= i64::MAX,
        ensures
            final(self).queue.wf(),
            match msg {
                Message::GetJob => {
                    &&& e.reply is None
                    &&& final(self).config == old(self).config
                    &&& final(self).queue.next_id_spec() == old(self).queue.next_id_spec()
                    &&& match first_eligible(old(self).queue.jobs_view()) {
                        Some(k) => {
                            &&& e.dispatch matches Some(DownloaderMessage::Job(job, cfg))
                            &&& job.id == old(self).queue.jobs_view()[k].id
                            &&& job.track_id == old(self).queue.jobs_view()[k].track_id
                            &&& cfg == old(self).config
                            &&& final(self).queue.jobs_view() == locked_at(
                                old(self).queue.jobs_view(),
                                k,
                            )
                            &&& !final(self).queue.waiting_spec()
                        },
                        None => {
                            &&& e.dispatch is None
                            &&& final(self).queue.jobs_view() == old(self).queue.jobs_view()
                            &&& final(self).queue.waiting_spec()
                        },
                    }
                },
                Message::UpdateState(id, state) => {
                    &&& e.reply is None
                    &&& e.dispatch is None
                    &&& final(self).config == old(self).config
                    &&& final(self).queue.next_id_spec() == old(self).queue.next_id_spec()
                    &&& final(self).queue.waiting_spec() == old(self).queue.waiting_spec()
                    &&& match find_id(old(self).queue.jobs_view(), id) {
                        Some(k) => if (state matches DownloadState::Done) {
                            final(self).queue.jobs_view() == old(self).queue.jobs_view().remove(k)
                        } else {
                            final(self).queue.jobs_view() == old(self).queue.jobs_view().update(
                                k,
                                Download { state: state, ..old(self).queue.jobs_view()[k] },
                            )
                        },
                        None => final(self).queue.jobs_view() == old(self).queue.jobs_view(),
                    }
                },
                Message::AddToQueue(items) => {
                    let enq = enqueued_jobs(
                        old(self).queue.jobs_view(),
                        old(self).queue.next_id_spec(),
                        items@,
                    );
                    &&& e.reply is None
                    &&& final(self).config == old(self).config
                    &&& final(self).queue.next_id_spec() == old(self).queue.next_id_spec()
                        + items@.len()
                    &&& if old(self).queue.waiting_spec() {
                        match first_eligible(enq) {
                            Some(k) => {
                                &&& e.dispatch matches Some(DownloaderMessage::Job(job, cfg))
                                &&& job.id == enq[k].id
                                &&& job.track_id == enq[k].track_id
                                &&& cfg == old(self).config
                                &&& final(self).queue.jobs_view() == locked_at(enq, k)
                                &&& !final(self).queue.waiting_spec()
                            },
                            None => {
                                &&& e.dispatch is None
                                &&& final(self).queue.jobs_view() == enq
                                &&& final(self).queue.waiting_spec()
                            },
                        }
                    } else {
                        &&& e.dispatch is None
                        &&& final(self).queue.jobs_view() == enq
                        &&& !final(self).queue.waiting_spec()
                    }
                },
                Message::GetDownloads => {
                    &&& e.reply matches Some(Response::Downloads(snap)) && snap@ == old(
                        self,
                    ).queue.jobs_view()
                    &&& e.dispatch is None
                    &&& *final(self) == *old(self)
                },
                Message::SetConfig(c) => {
                    &&& e.reply is None
                    &&& e.dispatch is None
                    &&& final(self).config == c
                    &&& final(self).queue == old(self).queue
                },
            },
    {
        match msg {
            Message::GetJob => {
                let dispatch = match self.queue.next_eligible() {
                    Some(job) => Some(DownloaderMessage::Job(job, self.config.clone())),
                    None => None,
                };
                CoordinatorEffect { reply: None, dispatch }
            },
            Message::UpdateState(id, state) => {
                self.queue.update_state(id, state);
                CoordinatorEffect { reply: None, dispatch: None }
            },
            Message::AddToQueue(items) => {
                let was_waiting = self.queue.waiting;
                self.queue.enqueue(items);
                let dispatch = if was_waiting {
                    match self.queue.next_eligible() {
                        Some(job) => Some(DownloaderMessage::Job(job, self.config.clone())),
                        None => None,
                    }
                } else {
                    None
                };
                CoordinatorEffect { reply: None, dispatch }
            },
            Message::GetDownloads => {
                let snap = self.queue.snapshot();
                CoordinatorEffect { reply: Some(Response::Downloads(snap)), dispatch: None }
            },
            Message::SetConfig(c) => {
                self.config = c;
                CoordinatorEffect { reply: None, dispatch: None }
            },
        }
    }
}

} // verus!
