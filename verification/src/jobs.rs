//! The background jobs that are outstanding, and what a poll of one of them
//! means.

use vstd::prelude::*;

verus! {

/// How far a background job has come.
#[derive(Clone, Copy, Debug, PartialEq, Eq, Structural)]
pub struct ProgressInfo {
    pub bytes_finished: u64,
    pub total_bytes: u64,
}

/// A background job that has not been seen to end: its number, the tab
/// that started it and the tab whose directory it writes to (the same tab
/// for an operation within one directory).
#[derive(Clone, Copy, Debug, PartialEq, Eq, Structural)]
pub struct JobHandle {
    pub id: u64,
    pub tab_src: usize,
    pub tab_dest: usize,
}

/// What a bounded wait on the channel of a job gave.
#[derive(Clone, Copy, Debug, PartialEq, Eq, Structural)]
pub enum ThreadMessage {
    /// The worker reported its progress.
    Progress(ProgressInfo),
    /// The worker is gone and nothing more will come.
    Disconnected,
    /// Nothing came within the wait.
    Timeout,
}

/// What the caller is to do after a poll.
#[derive(Clone, Copy, Debug, PartialEq, Eq, Structural)]
pub enum JobEvent {
    /// The job goes on: show how far it has come.
    Progress { job: u64, bytes_finished: u64, total_bytes: u64 },
    /// The job has ended and is no longer outstanding: join its worker and
    /// bring the two tabs up to date.
    Settled { job: u64, src_tab: usize, dest_tab: usize },
}

/// The outcome of one poll: the place of the job to poll next in this
/// pass, and the event, if there is one.
#[derive(Clone, Copy, Debug, PartialEq, Eq, Structural)]
pub struct PollStep {
    pub next: usize,
    pub event: Option<JobEvent>,
}

/// Whether a job with the number `id` is among `threads`.
pub open spec fn spec_has_job(threads: Seq<JobHandle>, id: u64) -> bool {
    exists|k: int| 0 <= k < threads.len() && #[trigger] threads[k].id == id
}

/// No two outstanding jobs have the same number, and every number is below
/// the next one to be given out.
pub open spec fn spec_jobs_wf(threads: Seq<JobHandle>, next_job: u64) -> bool {
    &&& forall|k: int| 0 <= k < threads.len() ==> (#[trigger] threads[k]).id < next_job
    &&& forall|j: int, k: int|
        0 <= j < threads.len() && 0 <= k < threads.len() && j != k ==> (#[trigger] threads[j]).id
            != (#[trigger] threads[k]).id
}

/// Whether a message ends its job: a report that all bytes are done does,
/// and so does the loss of the worker, which is the only sign of a worker
/// that died.
pub open spec fn spec_settles(message: ThreadMessage) -> bool {
    match message {
        ThreadMessage::Progress(info) => info.bytes_finished == info.total_bytes,
        ThreadMessage::Disconnected => true,
        ThreadMessage::Timeout => false,
    }
}

/// The event that `message` means for `job`.
pub open spec fn spec_event(job: JobHandle, message: ThreadMessage) -> Option<JobEvent> {
    if spec_settles(message) {
        Some(JobEvent::Settled { job: job.id, src_tab: job.tab_src, dest_tab: job.tab_dest })
    } else {
        match message {
            ThreadMessage::Progress(info) => Some(
                JobEvent::Progress {
                    job: job.id,
                    bytes_finished: info.bytes_finished,
                    total_bytes: info.total_bytes,
                },
            ),
            _ => None,
        }
    }
}

/// The outstanding jobs after the job at `i` got `message`: a job that
/// ended leaves, and the last job takes its place.
pub open spec fn spec_threads_after(threads: Seq<JobHandle>, i: int, message: ThreadMessage) -> Seq<
    JobHandle,
> {
    if spec_settles(message) {
        threads.update(i, threads.last()).drop_last()
    } else {
        threads
    }
}

/// The place to poll after the job at `i` got `message`: the same place
/// where the job left, for the job that was moved there has not been
/// polled in this pass; the next place otherwise.
pub open spec fn spec_next(i: int, message: ThreadMessage) -> int {
    if spec_settles(message) {
        i
    } else {
        i + 1
    }
}

/// The numbers of the jobs that a pass which stands at `i` has yet to
/// poll.
pub open spec fn spec_pending(threads: Seq<JobHandle>, i: int) -> Set<u64> {
    Set::new(|id: u64| exists|k: int| i <= k < threads.len() && #[trigger] threads[k].id == id)
}

/// The background jobs that are outstanding.
pub struct JobScheduler {
    threads: Vec<JobHandle>,
    next_job: u64,
}

/// The scheduler as contracts see it.
pub struct SchedulerView {
    pub threads: Seq<JobHandle>,
    pub next_job: u64,
}

impl View for JobScheduler {
    type V = SchedulerView;

    closed spec fn view(&self) -> SchedulerView {
        SchedulerView { threads: self.threads@, next_job: self.next_job }
    }
}

impl JobScheduler {
    /// The outstanding jobs are well formed (see `spec_jobs_wf`).
    pub open spec fn wf(&self) -> bool {
        spec_jobs_wf(self@.threads, self@.next_job)
    }

    /// A scheduler without jobs.
    pub fn new() -> (r: Self)
        ensures
            r.wf(),
            r@ == (SchedulerView { threads: Seq::empty(), next_job: 0 }),
    {
        JobScheduler { threads: Vec::new(), next_job: 0 }
    }

    /// How many jobs are outstanding.
    pub fn len(&self) -> (r: usize)
        ensures
            r == self@.threads.len(),
    {
        self.threads.len()
    }

    /// The outstanding jobs, in the order in which a pass polls them.
    pub fn threads(&self) -> (r: &Vec<JobHandle>)
        ensures
            r@ == self@.threads,
    {
        &self.threads
    }

    /// Notes a job that was started from the tab `tab_src` and writes to
    /// the directory of the tab `tab_dest`, and hands out its handle. No
    /// job is noted once the numbers have run out.
    pub fn spawn(&mut self, tab_src: usize, tab_dest: usize) -> (r: Option<JobHandle>)
        requires
            old(self).wf(),
        ensures
            final(self).wf(),
            r is Some == (old(self)@.next_job < u64::MAX),
            r matches Some(job) ==> {
                &&& job == (JobHandle { id: old(self)@.next_job, tab_src, tab_dest })
                &&& !spec_has_job(old(self)@.threads, job.id)
                &&& final(self)@ == (SchedulerView {
                    threads: old(self)@.threads.push(job),
                    next_job: (job.id + 1) as u64,
                })
            },
            r is None ==> final(self)@ == old(self)@,
    {
        if self.next_job == u64::MAX {
            return None;
        }
        let job = JobHandle { id: self.next_job, tab_src, tab_dest };
        self.threads.push(job);
        self.next_job = self.next_job + 1;
        Some(job)
    }

    /// Takes in what the wait on the job at place `i` gave.
    ///
    /// A job that reported all of its bytes done, or whose worker is
    /// gone, leaves the outstanding jobs and is settled; the pass goes on
    /// at the same place. A job that reported less goes on, and so does
    /// one of which nothing came; the pass goes on at the next place.
    pub fn deliver(&mut self, i: usize, message: ThreadMessage) -> (r: PollStep)
        requires
            old(self).wf(),
            i < old(self)@.threads.len(),
        ensures
            final(self).wf(),
            r.next == spec_next(i as int, message),
            r.event == spec_event(old(self)@.threads[i as int], message),
            final(self)@.threads == spec_threads_after(old(self)@.threads, i as int, message),
            final(self)@.next_job == old(self)@.next_job,
    {
        proof {
            lemma_deliver(self@.threads, self@.next_job, i as int, message);
        }
        let n = self.threads.len();
        assert(i < n);
        let job = self.threads[i];
        match message {
            ThreadMessage::Progress(info) => {
                if info.bytes_finished == info.total_bytes {
                    let _ = self.threads.swap_remove(i);
                    PollStep {
                        next: i,
                        event: Some(
                            JobEvent::Settled {
                                job: job.id,
                                src_tab: job.tab_src,
                                dest_tab: job.tab_dest,
                            },
                        ),
                    }
                } else {
                    PollStep {
                        next: i + 1,
                        event: Some(
                            JobEvent::Progress {
                                job: job.id,
                                bytes_finished: info.bytes_finished,
                                total_bytes: info.total_bytes,
                            },
                        ),
                    }
                }
            },
            ThreadMessage::Disconnected => {
                let _ = self.threads.swap_remove(i);
                PollStep {
                    next: i,
                    event: Some(
                        JobEvent::Settled {
                            job: job.id,
                            src_tab: job.tab_src,
                            dest_tab: job.tab_dest,
                        },
                    ),
                }
            },
            ThreadMessage::Timeout => PollStep { next: i + 1, event: None },
        }
    }

    /// How long the event loop may wait for a key, as the terminal takes
    /// it: not at all (0) while jobs are outstanding, so that they are
    /// polled again; without end (-1) when none is.
    pub fn input_timeout(&self) -> (r: i32)
        ensures
            r == (if self@.threads.len() > 0 {
                0i32
            } else {
                -1i32
            }),
    {
        if self.threads.len() > 0 {
            0
        } else {
            -1
        }
    }
}

/// One poll of a pass over well-formed jobs.
///
/// The jobs stay well formed. The polled job is no longer pending, every
/// other pending job still is, and nothing else becomes pending: each job
/// that is outstanding when a pass begins is polled exactly once in it.
/// The jobs that the pass has yet to poll become one fewer, so a pass
/// ends. A job that was settled is no longer outstanding, so it is settled
/// only once; a job that was not settled stays, and so do all others.
pub proof fn lemma_deliver(threads: Seq<JobHandle>, next_job: u64, i: int, message: ThreadMessage)
    requires
        spec_jobs_wf(threads, next_job),
        0 <= i < threads.len(),
    ensures
        ({
            let after = spec_threads_after(threads, i, message);
            let next = spec_next(i, message);
            &&& spec_jobs_wf(after, next_job)
            &&& spec_pending(after, next) == spec_pending(threads, i).remove(threads[i].id)
            &&& after.len() - next == threads.len() - i - 1
            &&& spec_settles(message) ==> !spec_has_job(after, threads[i].id)
            &&& !spec_settles(message) ==> after == threads
            &&& forall|id: u64|
                id != threads[i].id ==> spec_has_job(after, id) == spec_has_job(threads, id)
            &&& forall|k: int| 0 <= k < i ==> after[k] == threads[k]
        }),
{
    let after = spec_threads_after(threads, i, message);
    let next = spec_next(i, message);
    let last = threads.len() - 1;
    if spec_settles(message) {
        assert forall|k: int| 0 <= k < after.len() implies after[k] == threads[if k == i {
            last
        } else {
            k
        }] by {}
        assert forall|id: u64|
            spec_pending(after, next).contains(id) == spec_pending(threads, i).remove(
                threads[i].id,
            ).contains(id) by {
            if spec_pending(after, next).contains(id) {
                let k = choose|k: int| next <= k < after.len() && #[trigger] after[k].id == id;
                let k0 = if k == i {
                    last
                } else {
                    k
                };
                assert(threads[k0].id == id);
            }
            if spec_pending(threads, i).remove(threads[i].id).contains(id) {
                let k0 = choose|k: int| i <= k < threads.len() && #[trigger] threads[k].id == id;
                assert(k0 != i);
                let k = if k0 == last {
                    i
                } else {
                    k0
                };
                assert(after[k].id == id);
            }
        }
        assert forall|id: u64| id != threads[i].id implies spec_has_job(after, id) == spec_has_job(
            threads,
            id,
        ) by {
            if spec_has_job(after, id) {
                let k = choose|k: int| 0 <= k < after.len() && #[trigger] after[k].id == id;
                let k0 = if k == i {
                    last
                } else {
                    k
                };
                assert(threads[k0].id == id);
            }
            if spec_has_job(threads, id) {
                let k0 = choose|k: int| 0 <= k < threads.len() && #[trigger] threads[k].id == id;
                let k = if k0 == last {
                    i
                } else {
                    k0
                };
                assert(after[k].id == id);
            }
        }
        if spec_has_job(after, threads[i].id) {
            let k = choose|k: int| 0 <= k < after.len() && #[trigger] after[k].id == threads[i].id;
            let k0 = if k == i {
                last
            } else {
                k
            };
            assert(threads[k0].id == threads[i].id);
        }
    } else {
        assert forall|id: u64|
            spec_pending(after, next).contains(id) == spec_pending(threads, i).remove(
                threads[i].id,
            ).contains(id) by {
            if spec_pending(after, next).contains(id) {
                let k = choose|k: int| next <= k < after.len() && #[trigger] after[k].id == id;
                assert(threads[k].id == id);
            }
            if spec_pending(threads, i).remove(threads[i].id).contains(id) {
                let k = choose|k: int| i <= k < threads.len() && #[trigger] threads[k].id == id;
                assert(k != i);
                assert(after[k].id == id);
            }
        }
    }
    assert(spec_pending(after, next) =~= spec_pending(threads, i).remove(threads[i].id));
}

/// A job whose worker is gone without a last report is settled like one
/// that reported all of its bytes done: the poll gives one settlement that
/// names the job and its two tabs, and the job is no longer outstanding,
/// so that no later poll can settle it again.
pub proof fn lemma_disconnection_settles(threads: Seq<JobHandle>, next_job: u64, i: int)
    requires
        spec_jobs_wf(threads, next_job),
        0 <= i < threads.len(),
    ensures
        spec_event(threads[i], ThreadMessage::Disconnected) == Some(
            JobEvent::Settled {
                job: threads[i].id,
                src_tab: threads[i].tab_src,
                dest_tab: threads[i].tab_dest,
            },
        ),
        !spec_has_job(spec_threads_after(threads, i, ThreadMessage::Disconnected), threads[i].id),
        spec_threads_after(threads, i, ThreadMessage::Disconnected).len() == threads.len() - 1,
{
    lemma_deliver(threads, next_job, i, ThreadMessage::Disconnected);
}

/// A job that reports all of its bytes done is settled: the poll gives one
/// settlement that names the job and its two tabs, and the job is no
/// longer outstanding.
pub proof fn lemma_completion_settles(
    threads: Seq<JobHandle>,
    next_job: u64,
    i: int,
    total_bytes: u64,
)
    requires
        spec_jobs_wf(threads, next_job),
        0 <= i < threads.len(),
    ensures
        ({
            let message = ThreadMessage::Progress(
                ProgressInfo { bytes_finished: total_bytes, total_bytes },
            );
            &&& spec_event(threads[i], message) == Some(
                JobEvent::Settled {
                    job: threads[i].id,
                    src_tab: threads[i].tab_src,
                    dest_tab: threads[i].tab_dest,
                },
            )
            &&& !spec_has_job(spec_threads_after(threads, i, message), threads[i].id)
            &&& spec_threads_after(threads, i, message).len() == threads.len() - 1
        }),
{
    lemma_deliver(
        threads,
        next_job,
        i,
        ThreadMessage::Progress(ProgressInfo { bytes_finished: total_bytes, total_bytes }),
    );
}

/// The outstanding jobs and the place of the pass after the messages
/// `messages` were taken in one after the other, each for the job at the
/// place where the pass stood. The pass is over once it stands behind the
/// last job.
pub open spec fn spec_pass(threads: Seq<JobHandle>, i: int, messages: Seq<ThreadMessage>) -> (
    Seq<JobHandle>,
    int,
)
    decreases messages.len(),
{
    if messages.len() == 0 || !(0 <= i < threads.len()) {
        (threads, i)
    } else {
        spec_pass(
            spec_threads_after(threads, i, messages[0]),
            spec_next(i, messages[0]),
            messages.skip(1),
        )
    }
}

/// The numbers of the jobs that were polled while those messages were
/// taken in, in the order of the polls.
pub open spec fn spec_polled(threads: Seq<JobHandle>, i: int, messages: Seq<ThreadMessage>) -> Seq<
    u64,
>
    decreases messages.len(),
{
    if messages.len() == 0 || !(0 <= i < threads.len()) {
        Seq::empty()
    } else {
        seq![threads[i].id] + spec_polled(
            spec_threads_after(threads, i, messages[0]),
            spec_next(i, messages[0]),
            messages.skip(1),
        )
    }
}

/// A pass that stands at `i` is over after one poll for each job from `i`
/// on, whatever the polls give: it polls each of those jobs exactly once
/// and no other job, and the jobs that are outstanding after it are well
/// formed and were outstanding before it.
pub proof fn lemma_pass(
    threads: Seq<JobHandle>,
    next_job: u64,
    i: int,
    messages: Seq<ThreadMessage>,
)
    requires
        spec_jobs_wf(threads, next_job),
        0 <= i <= threads.len(),
        messages.len() == threads.len() - i,
    ensures
        ({
            let after = spec_pass(threads, i, messages);
            let polled = spec_polled(threads, i, messages);
            &&& after.1 == after.0.len()
            &&& spec_jobs_wf(after.0, next_job)
            &&& forall|id: u64| spec_has_job(after.0, id) ==> spec_has_job(threads, id)
            &&& polled.len() == threads.len() - i
            &&& polled.no_duplicates()
            &&& forall|id: u64| polled.contains(id) <==> spec_pending(threads, i).contains(id)
        }),
    decreases messages.len(),
{
    let polled = spec_polled(threads, i, messages);
    if messages.len() == 0 {
        assert forall|id: u64| polled.contains(id) <==> spec_pending(threads, i).contains(
            id,
        ) by {}
    } else {
        let job = threads[i].id;
        let then = spec_threads_after(threads, i, messages[0]);
        let next = spec_next(i, messages[0]);
        let rest = spec_polled(then, next, messages.skip(1));
        lemma_deliver(threads, next_job, i, messages[0]);
        lemma_pass(then, next_job, next, messages.skip(1));
        assert(polled =~= seq![job] + rest);
        assert(!spec_pending(then, next).contains(job));
        assert(!rest.contains(job));
        assert(polled.no_duplicates()) by {
            assert forall|a: int, b: int|
                0 <= a < polled.len() && 0 <= b < polled.len() && a != b implies polled[a]
                != polled[b] by {
                if a > 0 && b > 0 {
                    assert(rest[a - 1] != rest[b - 1]);
                } else if a > 0 {
                    assert(rest.contains(rest[a - 1]));
                } else {
                    assert(rest.contains(rest[b - 1]));
                }
            }
        }
        assert forall|id: u64| polled.contains(id) <==> spec_pending(threads, i).contains(
            id,
        ) by {
            if polled.contains(id) {
                let a = choose|a: int| 0 <= a < polled.len() && polled[a] == id;
                if a > 0 {
                    assert(rest.contains(rest[a - 1]));
                } else {
                    assert(threads[i].id == id);
                }
            }
            if spec_pending(threads, i).contains(id) {
                if id == job {
                    assert(polled[0] == id);
                } else {
                    assert(spec_pending(threads, i).remove(job).contains(id));
                    assert(spec_pending(then, next).contains(id));
                    assert(rest.contains(id));
                    let b = choose|b: int| 0 <= b < rest.len() && rest[b] == id;
                    assert(polled[b + 1] == id);
                }
            }
        }
    }
}

} // verus!
