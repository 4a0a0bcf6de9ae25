//! Job orchestrator: the render task queue.
//!
//! Accepts render-job submissions, runs at most one render at a time — the
//! scene driver and the GPU context are a singleton resource — exposes job
//! status for polling, and supports cooperative cancellation. Per job the
//! lifecycle is `Queued → Running → {Succeeded | Failed | Cancelled}`;
//! only a Queued or Running job can be cancelled, and a job cancelled
//! while Queued never starts. Jobs are dequeued in arrival order.

use vstd::prelude::*;

use crate::config::RenderParams;
use crate::ipc::IPCEvent;

verus! {

/// The lifecycle state of one render job.
#[derive(Clone, Copy, Debug, PartialEq, Eq, Structural)]
pub enum TaskStatus {
    /// Submitted, not yet started.
    Queued,
    /// The worker process is rendering.
    Running,
    /// The worker finished and reported `Done`.
    Succeeded,
    /// The worker failed; the reason is kept beside the status.
    Failed,
    /// Cancelled by the submitter.
    Cancelled,
}

/// One render job owned by the orchestrator.
pub struct Task {
    /// The job's identity.
    pub id: u32,
    /// The job's parameters, copied at submission.
    pub params: RenderParams,
    /// Lifecycle state.
    pub status: TaskStatus,
    /// Frames reported so far.
    pub frames_done: u64,
    /// Total frames announced by the worker; zero until `StartRender`.
    pub total_frames: u64,
    /// The failure reason, when the job failed.
    pub error: Option<String>,
    /// Whether cancellation was requested while the job ran.
    pub cancel_requested: bool,
}

/// A job's observable status, handed out to pollers.
pub struct TaskView {
    /// The job's identity.
    pub id: u32,
    /// Lifecycle state.
    pub status: TaskStatus,
    /// Frames reported so far.
    pub frames_done: u64,
    /// Total frames announced by the worker.
    pub total_frames: u64,
    /// The failure reason, when the job failed.
    pub error: Option<String>,
}

/// Number of Running jobs among the tasks.
pub open spec fn count_running(tasks: Seq<Task>) -> int
    decreases tasks.len(),
{
    if tasks.len() == 0 {
        0
    } else {
        count_running(tasks.drop_last()) + (if tasks.last().status is Running {
            1int
        } else {
            0int
        })
    }
}

/// The count of Running jobs is never negative.
proof fn lemma_count_running_nonneg(tasks: Seq<Task>)
    ensures
        count_running(tasks) >= 0,
    decreases tasks.len(),
{
    if tasks.len() > 0 {
        lemma_count_running_nonneg(tasks.drop_last());
    }
}

/// A task at a Running index contributes to the count.
proof fn lemma_count_running_at(tasks: Seq<Task>, i: int)
    requires
        0 <= i < tasks.len(),
        tasks[i].status is Running,
    ensures
        count_running(tasks) >= 1,
    decreases tasks.len(),
{
    lemma_count_running_nonneg(tasks.drop_last());
    if i < tasks.len() - 1 {
        lemma_count_running_at(tasks.drop_last(), i);
    }
}

/// Two Running jobs at distinct indices make the count at least two.
proof fn lemma_two_running(tasks: Seq<Task>, i: int, j: int)
    requires
        0 <= i < j < tasks.len(),
        tasks[i].status is Running,
        tasks[j].status is Running,
    ensures
        count_running(tasks) >= 2,
    decreases tasks.len(),
{
    if j == tasks.len() - 1 {
        lemma_count_running_at(tasks.drop_last(), i);
    } else {
        lemma_two_running(tasks.drop_last(), i, j);
    }
}

/// Updating one task changes the count only by that task's contribution.
proof fn lemma_count_running_update(tasks: Seq<Task>, i: int, t: Task)
    requires
        0 <= i < tasks.len(),
    ensures
        count_running(tasks.update(i, t)) == count_running(tasks) + (if t.status is Running {
            1int
        } else {
            0int
        }) - (if tasks[i].status is Running {
            1int
        } else {
            0int
        }),
    decreases tasks.len(),
{
    if i == tasks.len() - 1 {
        assert(tasks.update(i, t).drop_last() =~= tasks.drop_last());
    } else {
        assert(tasks.update(i, t).drop_last() =~= tasks.drop_last().update(i, t));
        lemma_count_running_update(tasks.drop_last(), i, t);
    }
}

/// Appending a task adds its contribution to the count.
proof fn lemma_count_running_push(tasks: Seq<Task>, t: Task)
    ensures
        count_running(tasks.push(t)) == count_running(tasks) + (if t.status is Running {
            1int
        } else {
            0int
        }),
{
    assert(tasks.push(t).drop_last() =~= tasks);
}

/// The index of the first Queued job at or after position `k`.
pub open spec fn first_queued_from(tasks: Seq<Task>, k: int) -> Option<int>
    decreases tasks.len() - k,
{
    if k < 0 || k >= tasks.len() {
        Option::None
    } else if tasks[k].status is Queued {
        Option::Some(k)
    } else {
        first_queued_from(tasks, k + 1)
    }
}

/// When no job before position `i` is Queued, the first Queued job of the
/// whole queue is the first one at or after `i`.
proof fn lemma_first_queued_prefix(tasks: Seq<Task>, i: int)
    requires
        0 <= i <= tasks.len(),
        forall|j: int| 0 <= j < i ==> !((#[trigger] tasks[j]).status is Queued),
    ensures
        first_queued_from(tasks, 0) == first_queued_from(tasks, i),
    decreases i,
{
    if i > 0 {
        lemma_first_queued_prefix(tasks, i - 1);
    }
}

/// The render task queue.
pub struct TaskQueue {
    /// All known jobs, in submission order.
    pub tasks: Vec<Task>,
    /// The identity the next submission receives.
    pub next_id: u32,
}

impl TaskQueue {
    /// Queue invariant: at most one job is Running at any time, and
    /// identities grow with submission order, all below `next_id`.
    pub open spec fn wf(self) -> bool {
        &&& count_running(self.tasks@) <= 1
        &&& forall|i: int, j: int|
            0 <= i < j < self.tasks@.len() ==> (#[trigger] self.tasks@[i]).id < (
            #[trigger] self.tasks@[j]).id
        &&& forall|i: int| 0 <= i < self.tasks@.len() ==> (#[trigger] self.tasks@[i]).id
            < self.next_id
    }

    /// Creates an empty queue.
    pub fn new() -> (q: TaskQueue)
        ensures
            q.wf(),
            q.tasks@.len() == 0,
            q.next_id == 0,
    {
        TaskQueue { tasks: Vec::new(), next_id: 0 }
    }

    /// Submits a job: it is enqueued as Queued and its identity is
    /// returned immediately, without blocking on any render.
    pub fn post(&mut self, params: RenderParams) -> (id: u32)
        requires
            old(self).wf(),
            old(self).next_id < u32::MAX,
        ensures
            final(self).wf(),
            id == old(self).next_id,
            final(self).tasks@.len() == old(self).tasks@.len() + 1,
            forall|i: int| 0 <= i < old(self).tasks@.len() ==> final(self).tasks@[i] == old(self).tasks@[i],
            final(self).tasks@.last().id == id,
            final(self).tasks@.last().status is Queued,
            final(self).tasks@.last().params == params,
            !final(self).tasks@.last().cancel_requested,
            final(self).next_id == old(self).next_id + 1,
    {
        let id = self.next_id;
        let task = Task {
            id,
            params,
            status: TaskStatus::Queued,
            frames_done: 0,
            total_frames: 0,
            error: None,
            cancel_requested: false,
        };
        proof {
            lemma_count_running_push(self.tasks@, task);
        }
        self.tasks.push(task);
        self.next_id = id + 1;
        id
    }

    /// Finds the position of the job with the given identity.
    fn find(&self, id: u32) -> (r: Option<usize>)
        ensures
            match r {
                Option::Some(i) => i < self.tasks@.len() && self.tasks@[i as int].id == id,
                Option::None => forall|i: int| 0 <= i < self.tasks@.len() ==> (
                #[trigger] self.tasks@[i]).id != id,
            },
    {
        for i in 0..self.tasks.len()
            invariant
                forall|j: int| 0 <= j < i ==> (#[trigger] self.tasks@[j]).id != id,
        {
            if self.tasks[i].id == id {
                return Some(i);
            }
        }
        None
    }

    /// Whether some job is Queued.
    pub open spec fn spec_has_queued(self) -> bool {
        first_queued_from(self.tasks@, 0) is Some
    }

    /// Starts the next job: the first Queued job, in arrival order,
    /// becomes Running and its identity is returned. Only permitted while
    /// no job runs — the render context is a singleton.
    #[verifier::rlimit(60)]
    pub fn start_next(&mut self) -> (r: Option<u32>)
        requires
            old(self).wf(),
            count_running(old(self).tasks@) == 0,
        ensures
            final(self).wf(),
            final(self).next_id == old(self).next_id,
            final(self).tasks@.len() == old(self).tasks@.len(),
            r is Some <==> old(self).spec_has_queued(),
            match first_queued_from(old(self).tasks@, 0) {
                Option::Some(i) => r == Option::Some(old(self).tasks@[i].id) && final(self).tasks@ == old(self).tasks@.update(i, (Task {
                    status: TaskStatus::Running,
                    ..old(self).tasks@[i]
                })),
                Option::None => r is None && final(self).tasks@ == old(self).tasks@,
            },
    {
        let n = self.tasks.len();
        for i in 0..n
            invariant
                self.wf(),
                self.tasks@ == old(self).tasks@,
                self.next_id == old(self).next_id,
                n == self.tasks@.len(),
                count_running(self.tasks@) == 0,
                forall|j: int| 0 <= j < i ==> !((#[trigger] self.tasks@[j]).status is Queued),
        {
            if matches!(self.tasks[i].status, TaskStatus::Queued) {
                let id = self.tasks[i].id;
                let t = &mut self.tasks[i];
                t.status = TaskStatus::Running;
                proof {
                    lemma_count_running_update(old(self).tasks@, i as int,
                        self.tasks@[i as int]);
                    lemma_first_queued_prefix(old(self).tasks@, i as int);
                }
                return Some(id);
            }
        }
        proof {
            lemma_first_queued_prefix(old(self).tasks@, n as int);
        }
        None
    }

    /// Cancels a job, best-effort and idempotent. A Queued job moves
    /// straight to Cancelled and will never start; a Running job records
    /// the request, and the call reports that its worker must be stopped;
    /// a terminal or unknown job is left as it is.
    pub fn cancel(&mut self, id: u32) -> (kill_worker: bool)
        requires
            old(self).wf(),
        ensures
            final(self).wf(),
            final(self).next_id == old(self).next_id,
            final(self).tasks@.len() == old(self).tasks@.len(),
            match spec_position(old(self).tasks@, id) {
                Option::Some(i) => {
                    &&& (old(self).tasks@[i].status is Queued ==> final(self).tasks@[i] == (
                        Task { status: TaskStatus::Cancelled, ..old(self).tasks@[i] })
                        && !kill_worker)
                    &&& (old(self).tasks@[i].status is Running ==> final(self).tasks@[i] == (
                        Task { cancel_requested: true, ..old(self).tasks@[i] }) && kill_worker)
                    &&& (!(old(self).tasks@[i].status is Queued) && !(old(self).tasks@[i].status is Running) ==> *final(self) == *old(self)
                        && !kill_worker)
                    &&& (forall|j: int| 0 <= j < old(self).tasks@.len() && j != i ==> final(self).tasks@[j] == old(self).tasks@[j])
                },
                Option::None => *final(self) == *old(self) && !kill_worker,
            },
    {
        let pos = self.find(id);
        proof {
            lemma_position_agrees(self.tasks@, id, pos);
        }
        match pos {
            Some(i) => {
                if matches!(self.tasks[i].status, TaskStatus::Queued) {
                    let t = &mut self.tasks[i];
                    t.status = TaskStatus::Cancelled;
                    proof {
                        lemma_count_running_update(old(self).tasks@, i as int,
                            self.tasks@[i as int]);
                    }
                    false
                } else if matches!(self.tasks[i].status, TaskStatus::Running) {
                    let t = &mut self.tasks[i];
                    t.cancel_requested = true;
                    proof {
                        lemma_count_running_update(old(self).tasks@, i as int,
                            self.tasks@[i as int]);
                    }
                    true
                } else {
                    false
                }
            },
            None => false,
        }
    }

    /// Applies one worker event to the Running job it belongs to:
    /// `StartRender` records the announced total, each `Frame` advances
    /// the progress counter — monotonically — and `Done` makes the job
    /// Succeeded. Events for a job that is not Running are ignored.
    pub fn on_event(&mut self, id: u32, event: IPCEvent)
        requires
            old(self).wf(),
        ensures
            final(self).wf(),
            final(self).next_id == old(self).next_id,
            final(self).tasks@.len() == old(self).tasks@.len(),
            match spec_position(old(self).tasks@, id) {
                Option::Some(i) => {
                    &&& (old(self).tasks@[i].status is Running ==> final(self).tasks@[i] == (
                    match event {
                        IPCEvent::StartMixing => old(self).tasks@[i],
                        IPCEvent::StartRender(total) => (Task {
                            total_frames: total,
                            frames_done: 0,
                            ..old(self).tasks@[i]
                        }),
                        IPCEvent::Frame => (Task {
                            frames_done: (if old(self).tasks@[i].frames_done < u64::MAX {
                                old(self).tasks@[i].frames_done + 1
                            } else {
                                old(self).tasks@[i].frames_done as int
                            }) as u64,
                            ..old(self).tasks@[i]
                        }),
                        IPCEvent::Done(_) => (Task {
                            status: TaskStatus::Succeeded,
                            ..old(self).tasks@[i]
                        }),
                    }))
                    &&& (!(old(self).tasks@[i].status is Running) ==> *final(self) == *old(self))
                    &&& (forall|j: int| 0 <= j < old(self).tasks@.len() && j != i ==> final(self).tasks@[j] == old(self).tasks@[j])
                },
                Option::None => *final(self) == *old(self),
            },
    {
        let pos = self.find(id);
        proof {
            lemma_position_agrees(self.tasks@, id, pos);
        }
        match pos {
            Some(i) => {
                if matches!(self.tasks[i].status, TaskStatus::Running) {
                    match event {
                        IPCEvent::StartMixing => {},
                        IPCEvent::StartRender(total) => {
                            let t = &mut self.tasks[i];
                            t.total_frames = total;
                            t.frames_done = 0;
                            proof {
                                lemma_count_running_update(old(self).tasks@, i as int,
                                    self.tasks@[i as int]);
                            }
                        },
                        IPCEvent::Frame => {
                            let t = &mut self.tasks[i];
                            if t.frames_done < u64::MAX {
                                t.frames_done = t.frames_done + 1;
                            }
                            proof {
                                lemma_count_running_update(old(self).tasks@, i as int,
                                    self.tasks@[i as int]);
                            }
                        },
                        IPCEvent::Done(_) => {
                            let t = &mut self.tasks[i];
                            t.status = TaskStatus::Succeeded;
                            proof {
                                lemma_count_running_update(old(self).tasks@, i as int,
                                    self.tasks@[i as int]);
                            }
                        },
                    }
                }
            },
            None => {},
        }
    }

    /// Settles a Running job whose worker process exited: Cancelled when
    /// cancellation had been requested — never conflated with failure —
    /// otherwise Succeeded only if the worker had already reported `Done`,
    /// and Failed with the given reason in every other case. The
    /// orchestrator itself survives any worker failure.
    pub fn on_worker_exit(&mut self, id: u32, clean_exit: bool, error: Option<String>)
        requires
            old(self).wf(),
        ensures
            final(self).wf(),
            final(self).next_id == old(self).next_id,
            final(self).tasks@.len() == old(self).tasks@.len(),
            match spec_position(old(self).tasks@, id) {
                Option::Some(i) => {
                    &&& (old(self).tasks@[i].status is Running ==> final(self).tasks@[i].status
                        == (if old(self).tasks@[i].cancel_requested {
                        TaskStatus::Cancelled
                    } else if clean_exit {
                        TaskStatus::Succeeded
                    } else {
                        TaskStatus::Failed
                    }))
                    &&& (!(old(self).tasks@[i].status is Running) ==> final(self).tasks@[i]
                        == old(self).tasks@[i])
                    &&& (forall|j: int| 0 <= j < old(self).tasks@.len() && j != i ==> final(self).tasks@[j] == old(self).tasks@[j])
                },
                Option::None => *final(self) == *old(self),
            },
    {
        let pos = self.find(id);
        proof {
            lemma_position_agrees(self.tasks@, id, pos);
        }
        match pos {
            Some(i) => {
                if matches!(self.tasks[i].status, TaskStatus::Running) {
                    let cancelled = self.tasks[i].cancel_requested;
                    let t = &mut self.tasks[i];
                    if cancelled {
                        t.status = TaskStatus::Cancelled;
                    } else if clean_exit {
                        t.status = TaskStatus::Succeeded;
                    } else {
                        t.status = TaskStatus::Failed;
                        t.error = error;
                    }
                    proof {
                        lemma_count_running_update(old(self).tasks@, i as int,
                            self.tasks@[i as int]);
                    }
                }
            },
            None => {},
        }
    }

    /// Snapshots every job's observable status, in submission order.
    pub fn views(&self) -> (r: Vec<TaskView>)
        ensures
            r@.len() == self.tasks@.len(),
            forall|i: int|
                0 <= i < r@.len() ==> (#[trigger] r@[i]).id == self.tasks@[i].id && r@[i].status
                    == self.tasks@[i].status && r@[i].frames_done == self.tasks@[i].frames_done
                    && r@[i].total_frames == self.tasks@[i].total_frames && r@[i].error
                    == self.tasks@[i].error,
    {
        let mut r: Vec<TaskView> = Vec::new();
        for i in 0..self.tasks.len()
            invariant
                r@.len() == i,
                forall|j: int|
                    0 <= j < i ==> (#[trigger] r@[j]).id == self.tasks@[j].id && r@[j].status
                        == self.tasks@[j].status && r@[j].frames_done
                        == self.tasks@[j].frames_done && r@[j].total_frames
                        == self.tasks@[j].total_frames && r@[j].error == self.tasks@[j].error,
        {
            let t = &self.tasks[i];
            r.push(TaskView {
                id: t.id,
                status: t.status,
                frames_done: t.frames_done,
                total_frames: t.total_frames,
                error: crate::config::clone_opt_string(&t.error),
            });
        }
        r
    }
}

/// The position of the job with the given identity, if it is known.
pub open spec fn spec_position(tasks: Seq<Task>, id: u32) -> Option<int> {
    if exists|i: int| 0 <= i < tasks.len() && (#[trigger] tasks[i]).id == id {
        Option::Some(choose|i: int| 0 <= i < tasks.len() && (#[trigger] tasks[i]).id == id)
    } else {
        Option::None
    }
}

/// With unique identities, an executable search agrees with
/// `spec_position`.
proof fn lemma_position_agrees(tasks: Seq<Task>, id: u32, found: Option<usize>)
    requires
        forall|i: int, j: int|
            0 <= i < j < tasks.len() ==> (#[trigger] tasks[i]).id < (#[trigger] tasks[j]).id,
        match found {
            Option::Some(i) => i < tasks.len() && tasks[i as int].id == id,
            Option::None => forall|i: int| 0 <= i < tasks.len() ==> (#[trigger] tasks[i]).id
                != id,
        },
    ensures
        match found {
            Option::Some(i) => spec_position(tasks, id) == Option::Some(i as int),
            Option::None => spec_position(tasks, id) is None,
        },
{
    match found {
        Option::Some(i) => {
            let w = choose|k: int| 0 <= k < tasks.len() && (#[trigger] tasks[k]).id == id;
            assert(0 <= w < tasks.len() && tasks[w].id == id);
            if w < i as int {
                assert(tasks[w].id < tasks[i as int].id);
            }
            if w > i as int {
                assert(tasks[i as int].id < tasks[w].id);
            }
        },
        Option::None => {},
    }
}

/// At most one job is Running in a well-formed queue: two Running
/// positions are the same position, for every queue state the operations
/// can reach.
pub proof fn lemma_at_most_one_running(q: TaskQueue, i: int, j: int)
    requires
        q.wf(),
        0 <= i < q.tasks@.len(),
        0 <= j < q.tasks@.len(),
        q.tasks@[i].status is Running,
        q.tasks@[j].status is Running,
    ensures
        i == j,
{
    if i < j {
        lemma_two_running(q.tasks@, i, j);
    }
    if j < i {
        lemma_two_running(q.tasks@, j, i);
    }
}


/// What one batch submission creates: a Queued task for the listed chart
/// path, with default chart metadata at the widescreen ratio, carrying
/// the stored preset of the listed name when the store knows it and the
/// default configuration otherwise.
pub open spec fn batch_task_ok(
    presets: crate::config::PresetStore,
    item: (String, String),
    t: Task,
) -> bool {
    &&& t.status is Queued
    &&& t.params.path@ == item.0@
    &&& t.params.info.name@ == Seq::<char>::empty()
    &&& t.params.info.music@ == Seq::<char>::empty()
    &&& t.params.info.aspect_num == 16
    &&& t.params.info.aspect_den == 9
    &&& crate::config::chosen_config_ok(presets, item.1@, t.params.config)
}

/// Submits one job per listed chart: each entry names a chart path and a
/// preset; a known preset's configuration is used, any other name falls
/// back to the default configuration. Every submission is enqueued as
/// Queued, in list order.
pub fn batch_add_tasks(
    queue: &mut TaskQueue,
    presets: &crate::config::PresetStore,
    items: Vec<(String, String)>,
)
    requires
        old(queue).wf(),
        old(queue).next_id + items@.len() <= u32::MAX,
    ensures
        final(queue).wf(),
        final(queue).tasks@.len() == old(queue).tasks@.len() + items@.len(),
        final(queue).next_id == old(queue).next_id + items@.len(),
        forall|k: int|
            0 <= k < old(queue).tasks@.len() ==> final(queue).tasks@[k] == old(
                queue,
            ).tasks@[k],
        forall|k: int|
            old(queue).tasks@.len() <= k < final(queue).tasks@.len() ==> batch_task_ok(
                *presets,
                items@[k - old(queue).tasks@.len()],
                #[trigger] final(queue).tasks@[k],
            ),
{
    let n = items.len();
    let mut items = items;
    let ghost items0 = items@;
    for i in 0..n
        invariant
            queue.wf(),
            n == i + items@.len(),
            queue.next_id == old(queue).next_id + i,
            old(queue).next_id + n <= u32::MAX,
            queue.tasks@.len() == old(queue).tasks@.len() + i,
            forall|k: int|
                0 <= k < old(queue).tasks@.len() ==> queue.tasks@[k] == old(queue).tasks@[k],
            forall|k: int|
                old(queue).tasks@.len() <= k < queue.tasks@.len() ==> batch_task_ok(
                    *presets,
                    items0[k - old(queue).tasks@.len()],
                    #[trigger] queue.tasks@[k],
                ),
            forall|k: int| 0 <= k < items@.len() ==> items@[k] == items0[i + k],
    {
        let (path, preset_name) = items.remove(0);
        let config = match presets.get(preset_name.as_str()) {
            Some(c) => c,
            None => crate::config::create_default_render_config(),
        };
        let params = crate::config::RenderParams {
            path,
            info: crate::config::ChartInfo {
                name: String::new(),
                music: String::new(),
                aspect_num: 16,
                aspect_den: 9,
            },
            config,
        };
        queue.post(params);
    }
}

} // verus!
