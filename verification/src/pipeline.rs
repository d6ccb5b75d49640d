//! The graph of lookup steps and the run of one track through it.
//!
//! The steps of a pipeline stand in an arena and name their continuations by
//! index. A run holds the tasks that are under way and decides, each time one
//! of them ends, which tasks to cancel and which to start. The lookups
//! themselves are made by whoever drives the run.

use crate::types::{PartialTrack, UnprocessedTrack};
use vstd::prelude::*;

verus! {

/// Why a lookup gave no record.
#[derive(Debug, PartialEq, Eq)]
pub enum LookupError {
    /// Nothing matches the track.
    NotFound,
    /// The track has no catalog id to ask by.
    MissingId,
    /// The source has no way yet of looking tracks up.
    Unimplemented,
    /// The catalog is busy.
    RateLimited,
    /// The request failed in some other way.
    LookupFailed(String),
}

/// What a lookup gave, as a run takes it: the record, or nothing where the
/// lookup failed.
pub open spec fn found_track(r: Result<UnprocessedTrack, LookupError>) -> Option<PartialTrack> {
    match r {
        Ok(t) => Some(t@),
        Err(_) => None,
    }
}

/// A way of looking tracks up: given what is known of a track, it hands back
/// the track with what it found, merged as the preferred side if `replace` is
/// set, or it fails. A lookup may take long.
pub trait MusicDataSource {
    /// Whether the source may answer a lookup of `track` with `outcome`:
    /// `Some` record, or `None` for a failure. A source that says nothing of
    /// itself may answer with anything.
    open spec fn may_give(
        &self,
        track: PartialTrack,
        replace: bool,
        outcome: Option<PartialTrack>,
    ) -> bool {
        true
    }

    fn lookup_track(&self, track: UnprocessedTrack, replace: bool) -> (r: Result<
        UnprocessedTrack,
        LookupError,
    >)
        ensures
            self.may_give(track@, replace, found_track(r)),
    ;
}

/// The strategies a step can look a track up with.
#[derive(Debug, Clone, Copy, PartialEq, Eq, Structural)]
pub enum LookupSource {
    /// Search the local library for the track's file and read its tags.
    FsLibrary,
    /// Ask the remote catalog for the track by its catalog id.
    CatalogLookup,
    /// Search the remote catalog by the track's name.
    CatalogSearch,
}

/// One node of the pipeline graph.
#[derive(Debug, PartialEq, Eq)]
pub struct MusicLookupStep {
    /// Rank of the path this step lies on; the lower, the more preferred.
    pub priority: usize,
    /// Whether what the step finds overrides what was known, or only fills
    /// gaps.
    pub replacing: bool,
    pub source: LookupSource,
    /// The steps that follow this one, as indexes into the pipeline; `None`
    /// for a step that ends its path.
    pub next: Option<Vec<usize>>,
}

/// Mathematical model of a step.
pub struct StepModel {
    pub priority: usize,
    pub replacing: bool,
    pub source: LookupSource,
    pub next: Option<Seq<usize>>,
}

impl View for MusicLookupStep {
    type V = StepModel;

    open spec fn view(&self) -> StepModel {
        StepModel {
            priority: self.priority,
            replacing: self.replacing,
            source: self.source,
            next: match self.next {
                Some(n) => Some(n@),
                None => None,
            },
        }
    }
}

impl Clone for MusicLookupStep {
    fn clone(&self) -> (r: Self)
        ensures
            r@ == self@,
    {
        let next = match &self.next {
            Some(n) => Some(n.clone()),
            None => None,
        };
        MusicLookupStep {
            priority: self.priority,
            replacing: self.replacing,
            source: self.source,
            next,
        }
    }
}

/// Mathematical model of a pipeline: its steps and the indexes of those that
/// every run starts with.
pub struct PipelineModel {
    pub steps: Seq<StepModel>,
    pub roots: Seq<usize>,
}

/// The step at `index` names only steps that exist and stand behind it.
pub open spec fn step_well_formed(steps: Seq<StepModel>, index: int) -> bool {
    steps[index].next matches Some(next) ==> forall|j: int|
        0 <= j < next.len() ==> index < (#[trigger] next[j]) && next[j] < steps.len()
}

/// Every root exists, and every step names only steps that exist and stand
/// behind it in the arena, so that no path comes back to a step.
pub open spec fn graph_well_formed(steps: Seq<StepModel>, roots: Seq<usize>) -> bool {
    &&& forall|i: int| 0 <= i < roots.len() ==> (#[trigger] roots[i]) < steps.len()
    &&& forall|i: int| 0 <= i < steps.len() ==> #[trigger] step_well_formed(steps, i)
}

impl PipelineModel {
    /// The graph of the pipeline is well formed.
    pub open spec fn well_formed(self) -> bool {
        graph_well_formed(self.steps, self.roots)
    }

    /// The pipeline that tracks are enriched with. Three paths start at once.
    /// The first, preferred, looks for the file and then clears up the catalog
    /// identity, by id and by search. The second asks the catalog by id and
    /// then looks for the file. The third searches the catalog and then looks
    /// for the file. What a file says overrides what was known; what the
    /// catalog says fills gaps.
    pub open spec fn standard() -> PipelineModel {
        PipelineModel {
            steps: seq![
                StepModel {
                    priority: 0,
                    replacing: true,
                    source: LookupSource::FsLibrary,
                    next: Some(seq![1usize, 2usize]),
                },
                StepModel {
                    priority: 0,
                    replacing: false,
                    source: LookupSource::CatalogLookup,
                    next: None,
                },
                StepModel {
                    priority: 1,
                    replacing: false,
                    source: LookupSource::CatalogSearch,
                    next: None,
                },
                StepModel {
                    priority: 2,
                    replacing: false,
                    source: LookupSource::CatalogLookup,
                    next: Some(seq![4usize]),
                },
                StepModel {
                    priority: 2,
                    replacing: true,
                    source: LookupSource::FsLibrary,
                    next: None,
                },
                StepModel {
                    priority: 3,
                    replacing: false,
                    source: LookupSource::CatalogSearch,
                    next: Some(seq![6usize]),
                },
                StepModel {
                    priority: 3,
                    replacing: true,
                    source: LookupSource::FsLibrary,
                    next: None,
                },
            ],
            roots: seq![0usize, 3usize, 5usize],
        }
    }
}

/// The views of the steps of an arena.
pub open spec fn step_models(steps: Seq<MusicLookupStep>) -> Seq<StepModel> {
    Seq::new(steps.len(), |i: int| steps[i]@)
}

/// A graph of lookup steps, built once and not changed afterwards.
#[derive(Debug)]
pub struct MusicLookupPipeline {
    steps: Vec<MusicLookupStep>,
    roots: Vec<usize>,
}

impl View for MusicLookupPipeline {
    type V = PipelineModel;

    closed spec fn view(&self) -> PipelineModel {
        PipelineModel { steps: step_models(self.steps@), roots: self.roots@ }
    }
}

/// Whether the step at `index` names only steps that exist and stand behind
/// it.
fn check_step(steps: &Vec<MusicLookupStep>, index: usize) -> (r: bool)
    requires
        index < steps.len(),
    ensures
        r == step_well_formed(step_models(steps@), index as int),
{
    match &steps[index].next {
        None => true,
        Some(next) => {
            let mut j: usize = 0;
            while j < next.len()
                invariant
                    j <= next.len(),
                    index < steps.len(),
                    steps[index as int].next == Some(*next),
                    forall|k: int|
                        0 <= k < j ==> index < (#[trigger] next@[k]) && next@[k] < steps.len(),
                decreases next.len() - j,
            {
                if !(index < next[j] && next[j] < steps.len()) {
                    assert(step_models(steps@)[index as int].next->0 == next@);
                    return false;
                }
                j += 1;
            }
            true
        },
    }
}

impl MusicLookupPipeline {
    /// The pipeline that tracks are enriched with.
    pub fn new() -> (r: MusicLookupPipeline)
        ensures
            r@ == PipelineModel::standard(),
            r@.well_formed(),
    {
        let mut steps: Vec<MusicLookupStep> = Vec::new();
        // the file first, then the catalog by id and by search
        steps.push(
            MusicLookupStep {
                priority: 0,
                replacing: true,
                source: LookupSource::FsLibrary,
                next: Some(vec![1, 2]),
            },
        );
        steps.push(
            MusicLookupStep {
                priority: 0,
                replacing: false,
                source: LookupSource::CatalogLookup,
                next: None,
            },
        );
        steps.push(
            MusicLookupStep {
                priority: 1,
                replacing: false,
                source: LookupSource::CatalogSearch,
                next: None,
            },
        );
        // the catalog by id first, then the file
        steps.push(
            MusicLookupStep {
                priority: 2,
                replacing: false,
                source: LookupSource::CatalogLookup,
                next: Some(vec![4]),
            },
        );
        steps.push(
            MusicLookupStep {
                priority: 2,
                replacing: true,
                source: LookupSource::FsLibrary,
                next: None,
            },
        );
        // the catalog by search first, then the file
        steps.push(
            MusicLookupStep {
                priority: 3,
                replacing: false,
                source: LookupSource::CatalogSearch,
                next: Some(vec![6]),
            },
        );
        steps.push(
            MusicLookupStep {
                priority: 3,
                replacing: true,
                source: LookupSource::FsLibrary,
                next: None,
            },
        );
        let roots: Vec<usize> = vec![0, 3, 5];
        let r = MusicLookupPipeline { steps, roots };
        proof {
            let m = r@;
            let s = PipelineModel::standard();
            assert(m.steps[3].next->0 =~= seq![4usize]);
            assert(m.steps[5].next->0 =~= seq![6usize]);
            assert(m.steps =~= s.steps);
            lemma_standard_well_formed();
        }
        r
    }

    /// A pipeline of the caller's own steps; `None` unless the graph is well
    /// formed.
    pub fn from_steps(steps: Vec<MusicLookupStep>, roots: Vec<usize>) -> (r: Option<
        MusicLookupPipeline,
    >)
        ensures
            match r {
                Some(p) => p@.steps == step_models(steps@) && p@.roots == roots@
                    && p@.well_formed(),
                None => !graph_well_formed(step_models(steps@), roots@),
            },
    {
        let mut i: usize = 0;
        while i < roots.len()
            invariant
                i <= roots.len(),
                forall|k: int| 0 <= k < i ==> (#[trigger] roots@[k]) < steps.len(),
            decreases roots.len() - i,
        {
            if roots[i] >= steps.len() {
                return None;
            }
            i += 1;
        }
        let mut i: usize = 0;
        while i < steps.len()
            invariant
                i <= steps.len(),
                forall|k: int| 0 <= k < i ==> #[trigger] step_well_formed(step_models(steps@), k),
            decreases steps.len() - i,
        {
            if !check_step(&steps, i) {
                return None;
            }
            i += 1;
        }
        Some(MusicLookupPipeline { steps, roots })
    }

    /// The number of steps.
    pub fn len(&self) -> (r: usize)
        ensures
            r == self@.steps.len(),
    {
        self.steps.len()
    }

    /// The step at `index`, `None` past the last step.
    pub fn step(&self, index: usize) -> (r: Option<MusicLookupStep>)
        ensures
            match r {
                Some(s) => index < self@.steps.len() && s@ == self@.steps[index as int],
                None => index >= self@.steps.len(),
            },
    {
        if index < self.steps.len() {
            Some(self.steps[index].clone())
        } else {
            None
        }
    }
}

/// The standard pipeline is well formed.
pub proof fn lemma_standard_well_formed()
    ensures
        PipelineModel::standard().well_formed(),
{
    let s = PipelineModel::standard();
    assert forall|i: int| 0 <= i < s.steps.len() implies #[trigger] step_well_formed(
        s.steps,
        i,
    ) by {
        // one step after the other
        assert(i == 0 || i == 1 || i == 2 || i == 3 || i == 4 || i == 5 || i == 6);
    }
}

/// Mathematical model of a task: a step that is under way on a record.
pub struct TaskModel {
    pub id: usize,
    pub step: usize,
    pub priority: usize,
    pub track: PartialTrack,
}

/// Mathematical model of a lookup that the driver of a run is asked to make.
pub struct JobModel {
    pub id: usize,
    pub source: LookupSource,
    pub replacing: bool,
    pub track: PartialTrack,
}

/// Mathematical model of the best result so far.
pub struct CandidateModel {
    pub track: PartialTrack,
    pub priority: usize,
}

/// Mathematical model of a run.
pub struct RunModel {
    pub steps: Seq<StepModel>,
    pub pending: Seq<TaskModel>,
    pub best: Option<CandidateModel>,
    pub input: PartialTrack,
    pub next_id: usize,
}

/// The id `offset` places after `base`. Ids stop at the largest number; up to
/// there each task of a run has an id of its own.
pub open spec fn task_id(base: usize, offset: int) -> usize {
    if base + offset <= usize::MAX {
        (base + offset) as usize
    } else {
        usize::MAX
    }
}

/// The tasks that start the steps `next` on `track`, with ids from `base` on.
pub open spec fn tasks_for(steps: Seq<StepModel>, next: Seq<usize>, track: PartialTrack, base: usize)
    -> Seq<TaskModel> {
    Seq::new(
        next.len(),
        |j: int|
            TaskModel {
                id: task_id(base, j),
                step: next[j],
                priority: steps[next[j] as int].priority,
                track,
            },
    )
}

/// The lookup that the driver makes for a task.
pub open spec fn job_for(steps: Seq<StepModel>, task: TaskModel) -> JobModel {
    JobModel {
        id: task.id,
        source: steps[task.step as int].source,
        replacing: steps[task.step as int].replacing,
        track: task.track,
    }
}

/// The lookups for `tasks`, in their order.
pub open spec fn jobs_for(steps: Seq<StepModel>, tasks: Seq<TaskModel>) -> Seq<JobModel> {
    Seq::new(tasks.len(), |j: int| job_for(steps, tasks[j]))
}

/// The first task from `from` on with the id `id`.
pub open spec fn find_task_from(pending: Seq<TaskModel>, id: usize, from: int) -> Option<int>
    decreases pending.len() - from,
{
    if from < 0 || from >= pending.len() {
        None
    } else if pending[from].id == id {
        Some(from)
    } else {
        find_task_from(pending, id, from + 1)
    }
}

/// The first pending task with the id `id`.
pub open spec fn find_task(pending: Seq<TaskModel>, id: usize) -> Option<int> {
    find_task_from(pending, id, 0)
}

/// The tasks whose priority number is under `limit`, in their order.
pub open spec fn surviving(pending: Seq<TaskModel>, limit: usize) -> Seq<TaskModel>
    decreases pending.len(),
{
    if pending.len() == 0 {
        Seq::empty()
    } else if pending.last().priority < limit {
        surviving(pending.drop_last(), limit).push(pending.last())
    } else {
        surviving(pending.drop_last(), limit)
    }
}

/// The ids of the tasks whose priority number is `limit` or more, in their
/// order.
pub open spec fn superseded(pending: Seq<TaskModel>, limit: usize) -> Seq<usize>
    decreases pending.len(),
{
    if pending.len() == 0 {
        Seq::empty()
    } else if pending.last().priority < limit {
        superseded(pending.drop_last(), limit)
    } else {
        superseded(pending.drop_last(), limit).push(pending.last().id)
    }
}

/// What the driver of a run has to do after a task has ended.
pub struct ActionsModel {
    /// Ids of the tasks to cancel; what they still report is of no account.
    pub cancelled: Seq<usize>,
    /// The lookups to start.
    pub started: Seq<JobModel>,
}

/// The record with which a task ends: what the lookup gave, or, where it
/// failed, the record the task was started on.
pub open spec fn outcome_track(task: TaskModel, outcome: Option<PartialTrack>) -> PartialTrack {
    match outcome {
        Some(t) => t,
        None => task.track,
    }
}

/// A task ends its path when its step has no continuation or its record needs
/// no further enrichment.
pub open spec fn is_terminal(step: StepModel, track: PartialTrack) -> bool {
    step.next is None || track.is_ready()
}

/// The better of the best so far and a new candidate: the new one only where
/// its priority number is strictly lower, or there was none before.
pub open spec fn better_of(best: Option<CandidateModel>, track: PartialTrack, priority: usize)
    -> Option<CandidateModel> {
    match best {
        Some(b) => if b.priority > priority {
            Some(CandidateModel { track, priority })
        } else {
            best
        },
        None => Some(CandidateModel { track, priority }),
    }
}

impl RunModel {
    /// Every pending task runs a step that exists, and the graph is well
    /// formed.
    pub open spec fn well_formed(self) -> bool {
        &&& forall|i: int| 0 <= i < self.steps.len() ==> #[trigger] step_well_formed(self.steps, i)
        &&& forall|i: int|
            0 <= i < self.pending.len() ==> (#[trigger] self.pending[i]).step < self.steps.len()
    }

    /// A run at its start: every root step is under way on the input.
    pub open spec fn start(pipeline: PipelineModel, input: PartialTrack) -> RunModel {
        RunModel {
            steps: pipeline.steps,
            pending: tasks_for(pipeline.steps, pipeline.roots, input, 0),
            best: None,
            input,
            next_id: task_id(0, pipeline.roots.len() as int),
        }
    }

    /// The run after the task `id` has ended with `outcome`: `Some` record
    /// from a lookup that succeeded, `None` from one that failed. A task that
    /// is not pending, such as one that was cancelled, changes nothing. A task
    /// that ends its path is a candidate for the result, and every pending
    /// task whose priority number is not lower than its own is dropped. Any
    /// other task hands its record on to a new task for each continuation of
    /// its step.
    pub open spec fn complete(self, id: usize, outcome: Option<PartialTrack>) -> RunModel {
        match find_task(self.pending, id) {
            None => self,
            Some(k) => {
                let task = self.pending[k];
                let rest = self.pending.remove(k);
                let track = outcome_track(task, outcome);
                let step = self.steps[task.step as int];
                if is_terminal(step, track) {
                    RunModel {
                        steps: self.steps,
                        pending: surviving(rest, task.priority),
                        best: better_of(self.best, track, task.priority),
                        input: self.input,
                        next_id: self.next_id,
                    }
                } else {
                    RunModel {
                        steps: self.steps,
                        pending: rest + tasks_for(self.steps, step.next->0, track, self.next_id),
                        best: self.best,
                        input: self.input,
                        next_id: task_id(self.next_id, step.next->0.len() as int),
                    }
                }
            },
        }
    }

    /// What the driver has to do after the task `id` has ended with
    /// `outcome`.
    pub open spec fn actions(self, id: usize, outcome: Option<PartialTrack>) -> ActionsModel {
        match find_task(self.pending, id) {
            None => ActionsModel { cancelled: Seq::empty(), started: Seq::empty() },
            Some(k) => {
                let task = self.pending[k];
                let rest = self.pending.remove(k);
                let track = outcome_track(task, outcome);
                let step = self.steps[task.step as int];
                if is_terminal(step, track) {
                    ActionsModel {
                        cancelled: superseded(rest, task.priority),
                        started: Seq::empty(),
                    }
                } else {
                    ActionsModel {
                        cancelled: Seq::empty(),
                        started: jobs_for(
                            self.steps,
                            tasks_for(self.steps, step.next->0, track, self.next_id),
                        ),
                    }
                }
            },
        }
    }

    /// The result of the run: the best candidate, or the input where no task
    /// ended its path.
    pub open spec fn result(self) -> PartialTrack {
        match self.best {
            Some(b) => b.track,
            None => self.input,
        }
    }
}

/// A step that is under way on a record.
#[derive(Debug)]
struct LookupTask {
    id: usize,
    step: usize,
    priority: usize,
    track: UnprocessedTrack,
}

impl View for LookupTask {
    type V = TaskModel;

    closed spec fn view(&self) -> TaskModel {
        TaskModel { id: self.id, step: self.step, priority: self.priority, track: self.track@ }
    }
}

/// The views of tasks.
spec fn task_models(tasks: Seq<LookupTask>) -> Seq<TaskModel> {
    Seq::new(tasks.len(), |i: int| tasks[i]@)
}

/// A lookup that the driver of a run is asked to make: look `track` up with
/// `source`, and report the outcome under `id`.
#[derive(Debug, PartialEq, Eq)]
pub struct LookupJob {
    pub id: usize,
    pub source: LookupSource,
    pub replacing: bool,
    pub track: UnprocessedTrack,
}

impl View for LookupJob {
    type V = JobModel;

    open spec fn view(&self) -> JobModel {
        JobModel {
            id: self.id,
            source: self.source,
            replacing: self.replacing,
            track: self.track@,
        }
    }
}

/// The views of jobs.
pub open spec fn job_models(jobs: Seq<LookupJob>) -> Seq<JobModel> {
    Seq::new(jobs.len(), |i: int| jobs[i]@)
}

/// What the driver of a run has to do after a task has ended.
#[derive(Debug, PartialEq, Eq)]
pub struct Completion {
    /// Ids of the tasks to cancel.
    pub cancelled: Vec<usize>,
    /// The lookups to start.
    pub started: Vec<LookupJob>,
}

impl View for Completion {
    type V = ActionsModel;

    open spec fn view(&self) -> ActionsModel {
        ActionsModel { cancelled: self.cancelled@, started: job_models(self.started@) }
    }
}

/// The best result so far.
#[derive(Debug)]
struct Candidate {
    track: UnprocessedTrack,
    priority: usize,
}

/// The run of one track through a pipeline.
#[derive(Debug)]
pub struct PipelineRun {
    steps: Vec<MusicLookupStep>,
    pending: Vec<LookupTask>,
    best: Option<Candidate>,
    input: UnprocessedTrack,
    next_id: usize,
}

impl View for PipelineRun {
    type V = RunModel;

    closed spec fn view(&self) -> RunModel {
        RunModel {
            steps: step_models(self.steps@),
            pending: task_models(self.pending@),
            best: match self.best {
                Some(b) => Some(CandidateModel { track: b.track@, priority: b.priority }),
                None => None,
            },
            input: self.input@,
            next_id: self.next_id,
        }
    }
}

/// Every task that survives was pending.
proof fn lemma_surviving_were_pending(pending: Seq<TaskModel>, limit: usize)
    ensures
        forall|i: int|
            0 <= i < surviving(pending, limit).len() ==> pending.contains(
                #[trigger] surviving(pending, limit)[i],
            ) && surviving(pending, limit)[i].priority < limit,
    decreases pending.len(),
{
    if pending.len() > 0 {
        let rest = pending.drop_last();
        lemma_surviving_were_pending(rest, limit);
        let out = surviving(pending, limit);
        assert forall|i: int| 0 <= i < out.len() implies pending.contains(#[trigger] out[i])
            && out[i].priority < limit by {
            if i < surviving(rest, limit).len() {
                // it survived among the tasks before the last, where it stands at `k`
                let t = surviving(rest, limit)[i];
                let k = choose|k: int| 0 <= k < rest.len() && rest[k] == t;
                assert(pending[k] == t);
            }
        }
    }
}

/// Starts a task for each step of `next` on `track`.
fn spawn_tasks(
    steps: &Vec<MusicLookupStep>,
    pending: &mut Vec<LookupTask>,
    next_id: &mut usize,
    next: &Vec<usize>,
    track: &UnprocessedTrack,
) -> (jobs: Vec<LookupJob>)
    requires
        forall|j: int| 0 <= j < next@.len() ==> (#[trigger] next@[j]) < steps@.len(),
    ensures
        task_models(final(pending)@) == task_models(old(pending)@) + tasks_for(
            step_models(steps@),
            next@,
            track@,
            *old(next_id),
        ),
        *final(next_id) == task_id(*old(next_id), next@.len() as int),
        job_models(jobs@) == jobs_for(
            step_models(steps@),
            tasks_for(step_models(steps@), next@, track@, *old(next_id)),
        ),
{
    let ghost before = task_models(pending@);
    let ghost base = *next_id;
    let ghost models = step_models(steps@);
    let ghost tasks = tasks_for(models, next@, track@, base);
    let mut jobs: Vec<LookupJob> = Vec::new();
    let mut j: usize = 0;
    while j < next.len()
        invariant
            j <= next@.len(),
            forall|k: int| 0 <= k < next@.len() ==> (#[trigger] next@[k]) < steps@.len(),
            models == step_models(steps@),
            tasks == tasks_for(models, next@, track@, base),
            task_models(pending@) == before + tasks.take(j as int),
            *next_id == task_id(base, j as int),
            job_models(jobs@) == jobs_for(models, tasks).take(j as int),
        decreases next@.len() - j,
    {
        let child = next[j];
        let step = &steps[child];
        let id = *next_id;
        if *next_id < usize::MAX {
            *next_id = *next_id + 1;
        }
        let ghost old_pending = task_models(pending@);
        pending.push(LookupTask { id, step: child, priority: step.priority, track: track.clone() });
        jobs.push(
            LookupJob { id, source: step.source, replacing: step.replacing, track: track.clone() },
        );
        proof {
            assert(task_models(pending@) =~= old_pending.push(tasks[j as int]));
            assert(jobs_for(models, tasks).take(j as int + 1) =~= jobs_for(models, tasks).take(
                j as int,
            ).push(job_for(models, tasks[j as int])));
        }
        j += 1;
    }
    jobs
}

/// Drops the tasks whose priority number is `limit` or more and gives their
/// ids.
fn cancel_superseded(pending: &mut Vec<LookupTask>, limit: usize) -> (cancelled: Vec<usize>)
    ensures
        task_models(final(pending)@) == surviving(task_models(old(pending)@), limit),
        cancelled@ == superseded(task_models(old(pending)@), limit),
{
    let ghost all = task_models(pending@);
    let mut kept: Vec<LookupTask> = Vec::new();
    let mut cancelled: Vec<usize> = Vec::new();
    let ghost mut n: int = 0;
    while pending.len() > 0
        invariant
            0 <= n <= all.len(),
            task_models(pending@) == all.skip(n),
            task_models(kept@) == surviving(all.take(n), limit),
            cancelled@ == superseded(all.take(n), limit),
        decreases pending.len(),
    {
        let ghost old_pending = task_models(pending@);
        let task = pending.remove(0);
        proof {
            // the task is the one at `n`, and the tasks behind it move up
            assert(old_pending.len() > 0);
            assert(task@ == old_pending[0]);
            assert forall|i: int| 0 <= i < pending@.len() implies task_models(pending@)[i]
                == all.skip(n + 1)[i] by {
                assert(all.skip(n)[i + 1] == all[n + 1 + i]);
            }
            assert(all.take(n + 1).drop_last() =~= all.take(n));
        }
        if task.priority < limit {
            kept.push(task);
        } else {
            cancelled.push(task.id);
        }
        proof {
            n = n + 1;
        }
    }
    *pending = kept;
    cancelled
}

impl MusicLookupPipeline {
    #[verifier::type_invariant]
    spec fn well_formed(self) -> bool {
        graph_well_formed(step_models(self.steps@), self.roots@)
    }

    /// Starts the run of `track`: every root step becomes a task. The second
    /// part of the result is the lookups to make.
    pub fn start(&self, track: UnprocessedTrack) -> (r: (PipelineRun, Vec<LookupJob>))
        ensures
            r.0.wf(),
            r.0@ == RunModel::start(self@, track@),
            job_models(r.1@) == jobs_for(r.0@.steps, r.0@.pending),
    {
        proof {
            use_type_invariant(self);
        }
        let mut steps: Vec<MusicLookupStep> = Vec::new();
        let mut i: usize = 0;
        while i < self.steps.len()
            invariant
                i <= self.steps@.len(),
                steps@.len() == i,
                forall|k: int| 0 <= k < i ==> (#[trigger] steps@[k])@ == self.steps@[k]@,
            decreases self.steps@.len() - i,
        {
            steps.push(self.steps[i].clone());
            i += 1;
        }
        assert(step_models(steps@) =~= step_models(self.steps@));
        let mut run = PipelineRun {
            steps,
            pending: Vec::new(),
            best: None,
            input: track.clone(),
            next_id: 0,
        };
        let jobs = spawn_tasks(&run.steps, &mut run.pending, &mut run.next_id, &self.roots, &track);
        (run, jobs)
    }
}

impl PipelineRun {
    /// Every pending task runs a step that exists, and the graph is well
    /// formed.
    pub open spec fn wf(&self) -> bool {
        self@.well_formed()
    }

    /// The position of the first pending task with the id `id`.
    fn position(&self, id: usize) -> (r: Option<usize>)
        ensures
            match r {
                Some(k) => find_task(self@.pending, id) == Some(k as int) && k
                    < self.pending@.len(),
                None => find_task(self@.pending, id) is None,
            },
    {
        let mut k: usize = 0;
        while k < self.pending.len()
            invariant
                k <= self.pending@.len(),
                find_task(self@.pending, id) == find_task_from(self@.pending, id, k as int),
            decreases self.pending@.len() - k,
        {
            if self.pending[k].id == id {
                return Some(k);
            }
            k += 1;
        }
        None
    }

    /// Takes in the end of the task `id`: `outcome` is the record that its
    /// lookup gave, or `None` where the lookup failed. Says which tasks to
    /// cancel and which lookups to start.
    pub fn complete(&mut self, id: usize, outcome: Option<UnprocessedTrack>) -> (r: Completion)
        requires
            old(self).wf(),
        ensures
            final(self).wf(),
            final(self)@ == old(self)@.complete(id, opt_track(outcome)),
            r@ == old(self)@.actions(id, opt_track(outcome)),
    {
        let ghost before = self@;
        let found = self.position(id);
        let k = match found {
            Some(k) => k,
            None => {
                let nothing = Completion { cancelled: Vec::new(), started: Vec::new() };
                assert(nothing@.started =~= Seq::<JobModel>::empty());
                return nothing;
            },
        };
        let task = self.pending.remove(k);
        let ghost rest = before.pending.remove(k as int);
        assert(task_models(self.pending@) =~= rest);
        let track = match outcome {
            Some(t) => t,
            None => task.track,
        };
        let terminal = self.steps[task.step].next.is_none() || track.is_ready();
        if terminal {
            let cancelled = cancel_superseded(&mut self.pending, task.priority);
            let replace = match &self.best {
                Some(b) => b.priority > task.priority,
                None => true,
            };
            if replace {
                self.best = Some(Candidate { track, priority: task.priority });
            }
            proof {
                lemma_surviving_were_pending(rest, task.priority);
            }
            let r = Completion { cancelled, started: Vec::new() };
            assert(r@.started =~= Seq::<JobModel>::empty());
            r
        } else {
            assert(step_well_formed(before.steps, task.step as int));
            let started = match &self.steps[task.step].next {
                Some(next) => spawn_tasks(
                    &self.steps,
                    &mut self.pending,
                    &mut self.next_id,
                    next,
                    &track,
                ),
                None => Vec::new(),
            };
            Completion { cancelled: Vec::new(), started }
        }
    }

    /// The number of tasks that are under way.
    pub fn pending_count(&self) -> (r: usize)
        ensures
            r == self@.pending.len(),
    {
        self.pending.len()
    }

    /// Whether no task is under way any more.
    pub fn is_done(&self) -> (r: bool)
        ensures
            r == (self@.pending.len() == 0),
    {
        self.pending.len() == 0
    }

    /// The result of the run: the best candidate, or the input where no task
    /// ended its path.
    pub fn finish(self) -> (r: UnprocessedTrack)
        ensures
            r@ == self@.result(),
    {
        match self.best {
            Some(b) => b.track,
            None => self.input,
        }
    }
}

/// The number of continuations of the step at `index`.
pub open spec fn next_count(steps: Seq<StepModel>, index: int) -> int {
    if 0 <= index < steps.len() {
        match steps[index].next {
            Some(next) => next.len() as int,
            None => 0,
        }
    } else {
        0
    }
}

/// The lookups that a task on the step at `index` can lead to at most when
/// only the first `upto` continuations of the step are counted: its own, and
/// those of the tasks that continue it.
pub open spec fn work_upto(steps: Seq<StepModel>, index: int, upto: int) -> nat
    decreases steps.len() - index, upto,
{
    if upto <= 0 || upto > next_count(steps, index) {
        1
    } else {
        let child = steps[index].next->0[upto - 1] as int;
        work_upto(steps, index, upto - 1) + if index < child < steps.len() {
            work_upto(steps, child, next_count(steps, child))
        } else {
            0
        }
    }
}

/// The lookups that a task on the step at `index` can lead to at most.
pub open spec fn work_of(steps: Seq<StepModel>, index: int) -> nat {
    work_upto(steps, index, next_count(steps, index))
}

/// The lookups that the tasks `pending` can lead to at most.
pub open spec fn work_left(steps: Seq<StepModel>, pending: Seq<TaskModel>) -> nat
    decreases pending.len(),
{
    if pending.len() == 0 {
        0
    } else {
        work_left(steps, pending.drop_last()) + work_of(steps, pending.last().step as int)
    }
}

proof fn lemma_work_positive(steps: Seq<StepModel>, index: int, upto: int)
    ensures
        work_upto(steps, index, upto) >= 1,
    decreases steps.len() - index, upto,
{
    if !(upto <= 0 || upto > next_count(steps, index)) {
        lemma_work_positive(steps, index, upto - 1);
    }
}

proof fn lemma_work_left_concat(steps: Seq<StepModel>, a: Seq<TaskModel>, b: Seq<TaskModel>)
    ensures
        work_left(steps, a + b) == work_left(steps, a) + work_left(steps, b),
    decreases b.len(),
{
    if b.len() > 0 {
        lemma_work_left_concat(steps, a, b.drop_last());
        assert((a + b).drop_last() =~= a + b.drop_last());
    }
}

proof fn lemma_work_left_remove(steps: Seq<StepModel>, s: Seq<TaskModel>, k: int)
    requires
        0 <= k < s.len(),
    ensures
        work_left(steps, s.remove(k)) + work_of(steps, s[k].step as int) == work_left(steps, s),
    decreases s.len(),
{
    if k < s.len() - 1 {
        lemma_work_left_remove(steps, s.drop_last(), k);
        assert(s.remove(k).drop_last() =~= s.drop_last().remove(k));
    }
}

proof fn lemma_work_left_surviving(steps: Seq<StepModel>, s: Seq<TaskModel>, limit: usize)
    ensures
        work_left(steps, surviving(s, limit)) <= work_left(steps, s),
    decreases s.len(),
{
    if s.len() > 0 {
        lemma_work_left_surviving(steps, s.drop_last(), limit);
        if s.last().priority < limit {
            assert(surviving(s, limit).drop_last() =~= surviving(s.drop_last(), limit));
        }
    }
}

proof fn lemma_work_left_spawned(
    steps: Seq<StepModel>,
    index: int,
    track: PartialTrack,
    base: usize,
    upto: int,
)
    requires
        0 <= index < steps.len(),
        step_well_formed(steps, index),
        steps[index].next is Some,
        0 <= upto <= steps[index].next->0.len(),
    ensures
        work_left(steps, tasks_for(steps, steps[index].next->0, track, base).take(upto)) + 1
            == work_upto(steps, index, upto),
    decreases upto,
{
    let next = steps[index].next->0;
    let tasks = tasks_for(steps, next, track, base);
    if upto > 0 {
        lemma_work_left_spawned(steps, index, track, base, upto - 1);
        assert(tasks.take(upto).drop_last() =~= tasks.take(upto - 1));
    }
}

/// Every run ends. As long as the graph is well formed, the end of a pending
/// task lowers the number of lookups that the pending tasks can still lead
/// to, whatever its outcome was.
pub proof fn lemma_complete_lowers_work(run: RunModel, id: usize, outcome: Option<PartialTrack>)
    requires
        run.well_formed(),
        find_task(run.pending, id) is Some,
    ensures
        work_left(run.steps, run.complete(id, outcome).pending) < work_left(
            run.steps,
            run.pending,
        ),
{
    lemma_find_task(run.pending, id, 0);
    let k = find_task(run.pending, id)->0;
    let task = run.pending[k];
    let rest = run.pending.remove(k);
    let track = outcome_track(task, outcome);
    let index = task.step as int;
    lemma_work_left_remove(run.steps, run.pending, k);
    lemma_work_positive(run.steps, index, next_count(run.steps, index));
    if is_terminal(run.steps[index], track) {
        lemma_work_left_surviving(run.steps, rest, task.priority);
    } else {
        let next = run.steps[index].next->0;
        let tasks = tasks_for(run.steps, next, track, run.next_id);
        lemma_work_left_spawned(run.steps, index, track, run.next_id, next.len() as int);
        assert(tasks.take(next.len() as int) =~= tasks);
        lemma_work_left_concat(run.steps, rest, tasks);
    }
}

/// What `find_task_from` finds is a pending task with the id, and no task
/// before it from `from` on has the id.
pub proof fn lemma_find_task(pending: Seq<TaskModel>, id: usize, from: int)
    requires
        0 <= from,
    ensures
        match find_task_from(pending, id, from) {
            Some(k) => from <= k < pending.len() && pending[k].id == id && forall|j: int|
                from <= j < k ==> (#[trigger] pending[j]).id != id,
            None => forall|j: int| from <= j < pending.len() ==> (#[trigger] pending[j]).id != id,
        },
    decreases pending.len() - from,
{
    if from < pending.len() && pending[from].id != id {
        lemma_find_task(pending, id, from + 1);
    }
}

/// After a task has ended its path, no task is pending whose priority number
/// is as high as its own or higher; and the ids of the tasks that were dropped
/// for it are handed out for cancelling.
pub proof fn lemma_terminal_drops_superseded(
    run: RunModel,
    id: usize,
    outcome: Option<PartialTrack>,
)
    requires
        find_task(run.pending, id) matches Some(k) && is_terminal(
            run.steps[run.pending[k].step as int],
            outcome_track(run.pending[k], outcome),
        ),
    ensures
        ({
            let k = find_task(run.pending, id)->0;
            let after = run.complete(id, outcome);
            &&& forall|i: int|
                0 <= i < after.pending.len() ==> (#[trigger] after.pending[i]).priority
                    < run.pending[k].priority
            &&& run.actions(id, outcome).cancelled == superseded(
                run.pending.remove(k),
                run.pending[k].priority,
            )
            &&& run.actions(id, outcome).started.len() == 0
        }),
{
    let k = find_task(run.pending, id)->0;
    lemma_surviving_were_pending(run.pending.remove(k), run.pending[k].priority);
}

/// What a task reports that is not pending, such as one that was cancelled,
/// is of no account: the run stays as it is and nothing is to be done.
pub proof fn lemma_stale_outcome_ignored(run: RunModel, id: usize, outcome: Option<PartialTrack>)
    requires
        forall|i: int| 0 <= i < run.pending.len() ==> (#[trigger] run.pending[i]).id != id,
    ensures
        run.complete(id, outcome) == run,
        run.actions(id, outcome).cancelled.len() == 0,
        run.actions(id, outcome).started.len() == 0,
{
    lemma_find_task(run.pending, id, 0);
}

/// The lower priority number wins. The best result changes only for a task
/// that ends its path with a priority number strictly under that of the best
/// so far; the priority number of the best result never rises.
pub proof fn lemma_best_only_improves(run: RunModel, id: usize, outcome: Option<PartialTrack>)
    ensures
        ({
            let after = run.complete(id, outcome);
            run.best matches Some(b) ==> after.best is Some && after.best->0.priority
                <= b.priority && (after.best->0.priority == b.priority ==> after.best == run.best)
        }),
{
}

/// The ids of the tasks rise along `pending`, and all lie under `next_id`.
pub open spec fn ids_rising(pending: Seq<TaskModel>, next_id: usize) -> bool {
    &&& forall|i: int, j: int| 0 <= i < j < pending.len() ==> pending[i].id < pending[j].id
    &&& forall|i: int| 0 <= i < pending.len() ==> (#[trigger] pending[i]).id < next_id
}

impl RunModel {
    /// As long as the ids have not run out, every pending task has an id of
    /// its own, and the ids that will be handed out are new.
    pub open spec fn ids_distinct(self) -> bool {
        self.next_id < usize::MAX ==> ids_rising(self.pending, self.next_id)
    }
}

proof fn lemma_surviving_ids_rising(pending: Seq<TaskModel>, limit: usize, next_id: usize)
    requires
        ids_rising(pending, next_id),
    ensures
        ids_rising(surviving(pending, limit), next_id),
    decreases pending.len(),
{
    if pending.len() > 0 {
        let rest = pending.drop_last();
        assert(ids_rising(rest, next_id)) by {
            assert forall|i: int| 0 <= i < rest.len() implies (#[trigger] rest[i]).id
                < next_id by {
                assert(rest[i] == pending[i]);
            }
        }
        lemma_surviving_ids_rising(rest, limit, next_id);
        lemma_surviving_were_pending(rest, limit);
        let kept = surviving(rest, limit);
        let out = surviving(pending, limit);
        assert forall|i: int, j: int| 0 <= i < j < out.len() implies out[i].id < out[j].id by {
            if j == kept.len() {
                // the last task survived; the one at `i` stood before it
                let t = kept[i];
                assert(rest.contains(t));
                let k = choose|k: int| 0 <= k < rest.len() && rest[k] == t;
                assert(pending[k].id < pending[pending.len() - 1].id);
            }
        }
        assert forall|i: int| 0 <= i < out.len() implies (#[trigger] out[i]).id < next_id by {
            if i < kept.len() {
                assert(out[i] == kept[i]);
            } else {
                assert(out[i] == pending[pending.len() - 1]);
            }
        }
    }
}

/// A run starts with an id of its own for every task.
pub proof fn lemma_start_ids_distinct(pipeline: PipelineModel, input: PartialTrack)
    ensures
        RunModel::start(pipeline, input).ids_distinct(),
{
}

/// The tasks of a run keep ids of their own: whatever task ends, and however,
/// no two pending tasks come to share an id.
pub proof fn lemma_complete_ids_distinct(run: RunModel, id: usize, outcome: Option<PartialTrack>)
    requires
        run.ids_distinct(),
    ensures
        run.complete(id, outcome).ids_distinct(),
{
    let after = run.complete(id, outcome);
    if after.next_id < usize::MAX && find_task(run.pending, id) is Some {
        lemma_find_task(run.pending, id, 0);
        let k = find_task(run.pending, id)->0;
        let task = run.pending[k];
        let rest = run.pending.remove(k);
        assert(ids_rising(rest, run.next_id)) by {
            assert forall|i: int, j: int| 0 <= i < j < rest.len() implies rest[i].id
                < rest[j].id by {
                let a = if i < k { i } else { i + 1 };
                let b = if j < k { j } else { j + 1 };
                assert(rest[i] == run.pending[a] && rest[j] == run.pending[b]);
            }
            assert forall|i: int| 0 <= i < rest.len() implies (#[trigger] rest[i]).id
                < run.next_id by {
                let a = if i < k { i } else { i + 1 };
                assert(rest[i] == run.pending[a]);
            }
        }
        if is_terminal(run.steps[task.step as int], outcome_track(task, outcome)) {
            lemma_surviving_ids_rising(rest, task.priority, run.next_id);
        } else {
            let spawned = tasks_for(
                run.steps,
                run.steps[task.step as int].next->0,
                outcome_track(task, outcome),
                run.next_id,
            );
            assert forall|i: int, j: int| 0 <= i < j < after.pending.len() implies after.pending[i].id
                < after.pending[j].id by {
                if j >= rest.len() {
                    assert(after.pending[j] == spawned[j - rest.len()]);
                    if i >= rest.len() {
                        assert(after.pending[i] == spawned[i - rest.len()]);
                    } else {
                        assert(after.pending[i] == rest[i]);
                    }
                } else {
                    assert(after.pending[i] == rest[i] && after.pending[j] == rest[j]);
                }
            }
            assert forall|i: int| 0 <= i < after.pending.len() implies (
            #[trigger] after.pending[i]).id < after.next_id by {
                if i >= rest.len() {
                    assert(after.pending[i] == spawned[i - rest.len()]);
                } else {
                    assert(after.pending[i] == rest[i]);
                }
            }
        }
    }
}

/// The view of a track that may be absent.
pub open spec fn opt_track(t: Option<UnprocessedTrack>) -> Option<PartialTrack> {
    match t {
        Some(t) => Some(t@),
        None => None,
    }
}

/// The end of a task as the driver of a run reports it.
pub struct OutcomeModel {
    pub id: usize,
    pub outcome: Option<PartialTrack>,
}

impl RunModel {
    /// The run after the tasks of `trace` have ended, in the order of
    /// `trace`.
    pub open spec fn replay(self, trace: Seq<OutcomeModel>) -> RunModel
        decreases trace.len(),
    {
        if trace.len() == 0 {
            self
        } else {
            self.replay(trace.drop_last()).complete(trace.last().id, trace.last().outcome)
        }
    }
}

/// The sources that the steps of a pipeline look tracks up with, one for
/// each kind.
pub struct LookupSources<F, L, S> {
    pub fs_library: F,
    pub catalog_lookup: L,
    pub catalog_search: S,
}

/// Whether the source that `job` names may answer it with `outcome`.
pub open spec fn may_answer<F: MusicDataSource, L: MusicDataSource, S: MusicDataSource>(
    sources: LookupSources<F, L, S>,
    job: JobModel,
    outcome: Option<PartialTrack>,
) -> bool {
    match job.source {
        LookupSource::FsLibrary => sources.fs_library.may_give(job.track, job.replacing, outcome),
        LookupSource::CatalogLookup => sources.catalog_lookup.may_give(
            job.track,
            job.replacing,
            outcome,
        ),
        LookupSource::CatalogSearch => sources.catalog_search.may_give(
            job.track,
            job.replacing,
            outcome,
        ),
    }
}

/// Whether `report` is what a driver that takes one task after the other
/// may report to `run`: the end of the task that was started last, with an
/// outcome that the source of its step may give for its record.
pub open spec fn report_in_turn<F: MusicDataSource, L: MusicDataSource, S: MusicDataSource>(
    sources: LookupSources<F, L, S>,
    run: RunModel,
    report: OutcomeModel,
) -> bool {
    &&& run.pending.len() > 0
    &&& report.id == run.pending.last().id
    &&& may_answer(sources, job_for(run.steps, run.pending.last()), report.outcome)
}

/// Whether every report of `trace` is in turn for the run as it stands when
/// the report comes, from `start` on.
pub open spec fn reports_in_turn<F: MusicDataSource, L: MusicDataSource, S: MusicDataSource>(
    sources: LookupSources<F, L, S>,
    start: RunModel,
    trace: Seq<OutcomeModel>,
) -> bool
    decreases trace.len(),
{
    trace.len() == 0 || (reports_in_turn(sources, start, trace.drop_last()) && report_in_turn(
        sources,
        start.replay(trace.drop_last()),
        trace.last(),
    ))
}

impl PipelineRun {
    /// The lookup to make for the task that was started last, `None` when no
    /// task is under way.
    pub fn next_job(&self) -> (r: Option<LookupJob>)
        requires
            self.wf(),
        ensures
            match r {
                Some(job) => self@.pending.len() > 0 && job@ == job_for(
                    self@.steps,
                    self@.pending.last(),
                ),
                None => self@.pending.len() == 0,
            },
    {
        if self.pending.len() == 0 {
            return None;
        }
        let task = &self.pending[self.pending.len() - 1];
        let step = &self.steps[task.step];
        Some(
            LookupJob {
                id: task.id,
                source: step.source,
                replacing: step.replacing,
                track: task.track.clone(),
            },
        )
    }
}

impl MusicLookupPipeline {
    /// Runs `track` through the pipeline, one lookup after the other: of the
    /// tasks under way, the one started last is taken next, its record is
    /// handed to the source of its step, and what the source gives is
    /// reported to the run. A lookup that fails counts as one that found
    /// nothing. This goes on until no task is under way; the result is that
    /// of the run. A track comes back whatever the sources gave.
    pub fn lookup_track<F: MusicDataSource, L: MusicDataSource, S: MusicDataSource>(
        &self,
        sources: &LookupSources<F, L, S>,
        track: UnprocessedTrack,
    ) -> (r: UnprocessedTrack)
        ensures
            exists|trace: Seq<OutcomeModel>|
                {
                    let end = #[trigger] RunModel::start(self@, track@).replay(trace);
                    &&& reports_in_turn(*sources, RunModel::start(self@, track@), trace)
                    &&& end.pending.len() == 0
                    &&& r@ == end.result()
                },
    {
        let ghost start = RunModel::start(self@, track@);
        let (mut run, _) = self.start(track);
        let ghost mut trace: Seq<OutcomeModel> = Seq::empty();
        while !run.is_done()
            invariant
                run.wf(),
                run@ == start.replay(trace),
                reports_in_turn(*sources, start, trace),
            decreases work_left(run@.steps, run@.pending),
        {
            let job = run.next_job().unwrap();
            let id = job.id;
            let ghost asked = job@;
            let found = match job.source {
                LookupSource::FsLibrary => sources.fs_library.lookup_track(
                    job.track,
                    job.replacing,
                ),
                LookupSource::CatalogLookup => sources.catalog_lookup.lookup_track(
                    job.track,
                    job.replacing,
                ),
                LookupSource::CatalogSearch => sources.catalog_search.lookup_track(
                    job.track,
                    job.replacing,
                ),
            };
            assert(may_answer(*sources, asked, found_track(found)));
            let outcome = match found {
                Ok(t) => Some(t),
                Err(_) => None,
            };
            let ghost reported = OutcomeModel { id, outcome: opt_track(outcome) };
            proof {
                lemma_find_task(run@.pending, id, 0);
                lemma_complete_lowers_work(run@, id, reported.outcome);
                assert(trace.push(reported).drop_last() =~= trace);
                assert(report_in_turn(*sources, run@, reported));
            }
            run.complete(id, outcome);
            proof {
                trace = trace.push(reported);
            }
        }
        run.finish()
    }
}

} // verus!
