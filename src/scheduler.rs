//! The job ledger: one lifecycle state per build job, and aggregate counts.

use crate::build_matrix::{BuildJob, BuildMatrix};
use crate::text::same_text;
use vstd::prelude::*;

verus! {

/// Lifecycle state of a job.
#[derive(Debug, Clone, PartialEq, Eq)]
pub enum BuildResult {
    /// Finished successfully
    Success,
    /// Finished with an error message
    Failure(String),
    /// Not started
    Pending,
    /// Started, not finished
    Running,
}

/// A state is terminal once the job finished, either way.
pub open spec fn is_terminal(r: BuildResult) -> bool {
    r is Success || r is Failure
}

/// The state after a start: only a pending job starts.
pub open spec fn started(r: BuildResult) -> BuildResult {
    if r is Pending {
        BuildResult::Running
    } else {
        r
    }
}

/// The state after a success report: terminal states stay.
pub open spec fn succeeded(r: BuildResult) -> BuildResult {
    if is_terminal(r) {
        r
    } else {
        BuildResult::Success
    }
}

/// The state after a failure report: terminal states stay.
pub open spec fn failed(r: BuildResult, reason: String) -> BuildResult {
    if is_terminal(r) {
        r
    } else {
        BuildResult::Failure(reason)
    }
}

/// Status of one job.
#[derive(Debug, Clone)]
pub struct JobStatus {
    /// The job
    pub job: BuildJob,
    /// Its lifecycle state
    pub result: BuildResult,
    /// Duration in milliseconds, once it succeeded
    pub duration_ms: Option<u64>,
}

impl JobStatus {
    /// A pending status for `job`.
    pub fn new(job: BuildJob) -> (r: Self)
        ensures
            r.job == job,
            r.result == BuildResult::Pending,
            r.duration_ms == None::<u64>,
    {
        JobStatus { job, result: BuildResult::Pending, duration_ms: None }
    }

    /// Starts a pending job; any other state is kept.
    pub fn mark_running(&mut self)
        ensures
            final(self).job == old(self).job,
            final(self).result == started(old(self).result),
            final(self).duration_ms == old(self).duration_ms,
    {
        if let BuildResult::Pending = self.result {
            self.result = BuildResult::Running;
        }
    }

    /// Records success with its duration, unless the job already finished.
    pub fn mark_success(&mut self, duration_ms: u64)
        ensures
            final(self).job == old(self).job,
            final(self).result == succeeded(old(self).result),
            final(self).duration_ms == if is_terminal(old(self).result) {
                old(self).duration_ms
            } else {
                Some(duration_ms)
            },
    {
        if !self.is_complete() {
            self.result = BuildResult::Success;
            self.duration_ms = Some(duration_ms);
        }
    }

    /// Records failure with its reason, unless the job already finished.
    pub fn mark_failure(&mut self, error: String)
        ensures
            final(self).job == old(self).job,
            final(self).result == failed(old(self).result, error),
            final(self).duration_ms == old(self).duration_ms,
    {
        if !self.is_complete() {
            self.result = BuildResult::Failure(error);
        }
    }

    /// Whether the job finished.
    pub fn is_complete(&self) -> (r: bool)
        ensures
            r == is_terminal(self.result),
    {
        match self.result {
            BuildResult::Success => true,
            BuildResult::Failure(_) => true,
            _ => false,
        }
    }

    /// Whether the job finished successfully.
    pub fn is_success(&self) -> (r: bool)
        ensures
            r == (self.result is Success),
    {
        match self.result {
            BuildResult::Success => true,
            _ => false,
        }
    }

    /// Whether the job failed.
    pub fn is_failure(&self) -> (r: bool)
        ensures
            r == (self.result is Failure),
    {
        match self.result {
            BuildResult::Failure(_) => true,
            _ => false,
        }
    }
}

/// Finished states never change again: starting, succeeding or failing leaves
/// them as they are, and a fresh job that starts and then succeeds is finished
/// and successful.
pub proof fn lemma_terminal_states_stay(r: BuildResult, reason: String)
    ensures
        is_terminal(r) ==> started(r) == r && succeeded(r) == r && failed(r, reason) == r,
        is_terminal(succeeded(started(BuildResult::Pending))),
        succeeded(started(BuildResult::Pending)) is Success,
        is_terminal(r) ==> !(started(r) is Pending) && !(started(r) is Running),
{
}

/// Index of the first status whose job identifier is `id`, searching from `k`; -1 if none.
pub open spec fn find_from(l: Seq<JobStatus>, id: Seq<char>, k: int) -> int
    decreases l.len() - k,
{
    if k < 0 || k >= l.len() {
        -1
    } else if l[k].job.job_id@ == id {
        k
    } else {
        find_from(l, id, k + 1)
    }
}

/// Index of the status of job `id` in a ledger; -1 if none.
pub open spec fn find_job(l: Seq<JobStatus>, id: Seq<char>) -> int {
    find_from(l, id, 0)
}

/// The ledger after recording `s`: it replaces the status with the same job
/// identifier, or is appended.
pub open spec fn ledger_insert(l: Seq<JobStatus>, s: JobStatus) -> Seq<JobStatus> {
    let i = find_job(l, s.job.job_id@);
    if i < 0 {
        l.push(s)
    } else {
        l.update(i, s)
    }
}

/// The ledger built from `jobs`, each pending, in order.
pub open spec fn initial_ledger(jobs: Seq<BuildJob>) -> Seq<JobStatus>
    decreases jobs.len(),
{
    if jobs.len() == 0 {
        Seq::empty()
    } else {
        ledger_insert(
            initial_ledger(jobs.drop_last()),
            JobStatus { job: jobs.last(), result: BuildResult::Pending, duration_ms: None },
        )
    }
}

/// How many statuses satisfy `p`.
pub open spec fn count_where(l: Seq<JobStatus>, p: spec_fn(JobStatus) -> bool) -> nat
    decreases l.len(),
{
    if l.len() == 0 {
        0
    } else {
        count_where(l.drop_last(), p) + if p(l.last()) {
            1nat
        } else {
            0nat
        }
    }
}

/// The statuses that satisfy `p`, in ledger order.
pub open spec fn statuses_where(l: Seq<JobStatus>, p: spec_fn(JobStatus) -> bool) -> Seq<
    JobStatus,
>
    decreases l.len(),
{
    if l.len() == 0 {
        l
    } else {
        let r = statuses_where(l.drop_last(), p);
        if p(l.last()) {
            r.push(l.last())
        } else {
            r
        }
    }
}

/// How many statuses carry a duration.
pub open spec fn timed_in(l: Seq<JobStatus>) -> nat
    decreases l.len(),
{
    if l.len() == 0 {
        0
    } else {
        timed_in(l.drop_last()) + if l.last().duration_ms is Some {
            1nat
        } else {
            0nat
        }
    }
}

/// The sum of the recorded durations.
pub open spec fn duration_sum(l: Seq<JobStatus>) -> nat
    decreases l.len(),
{
    if l.len() == 0 {
        0
    } else {
        duration_sum(l.drop_last()) + match l.last().duration_ms {
            Some(d) => d as nat,
            None => 0nat,
        }
    }
}

/// The statuses behind a sequence of references.
pub open spec fn status_derefs(s: Seq<&JobStatus>) -> Seq<JobStatus> {
    s.map_values(|j: &JobStatus| *j)
}

/// Which statuses a count or listing is about.
#[derive(Clone, Copy)]
pub enum StatusKind {
    /// Not started
    Pending,
    /// Started
    Running,
    /// Finished either way
    Complete,
    /// Finished successfully
    Succeeded,
    /// Failed
    Failed,
}

/// Whether a status is of a kind.
pub open spec fn kind_holds(kind: StatusKind, s: JobStatus) -> bool {
    match kind {
        StatusKind::Pending => s.result is Pending,
        StatusKind::Running => s.result is Running,
        StatusKind::Complete => is_terminal(s.result),
        StatusKind::Succeeded => s.result is Success,
        StatusKind::Failed => s.result is Failure,
    }
}

/// The kind predicate as a function value.
pub open spec fn kind_pred(kind: StatusKind) -> spec_fn(JobStatus) -> bool {
    |s: JobStatus| kind_holds(kind, s)
}

fn status_is(kind: StatusKind, s: &JobStatus) -> (r: bool)
    ensures
        r == kind_holds(kind, *s),
{
    match kind {
        StatusKind::Pending => matches!(s.result, BuildResult::Pending),
        StatusKind::Running => matches!(s.result, BuildResult::Running),
        StatusKind::Complete => s.is_complete(),
        StatusKind::Succeeded => s.is_success(),
        StatusKind::Failed => s.is_failure(),
    }
}

/// Default parallelism budget.
fn num_cpus() -> (r: usize)
    ensures
        r == 4,
{
    4
}

/// A ledger of job statuses with a declared parallelism budget.
#[derive(Debug, Clone)]
pub struct BuildScheduler {
    statuses: Vec<JobStatus>,
    max_parallel: usize,
}

impl View for BuildScheduler {
    type V = Seq<JobStatus>;

    closed spec fn view(&self) -> Seq<JobStatus> {
        self.statuses@
    }
}

impl BuildScheduler {
    /// The declared parallelism budget.
    pub closed spec fn spec_max_parallelism(&self) -> usize {
        self.max_parallel
    }

    /// The budget is at least one.
    pub open spec fn wf(&self) -> bool {
        self.spec_max_parallelism() >= 1
    }

    /// An empty ledger with the default budget.
    pub fn new() -> (r: Self)
        ensures
            r.wf(),
            r@ == Seq::<JobStatus>::empty(),
            r.spec_max_parallelism() == 4,
    {
        Self::with_parallelism(num_cpus())
    }

    /// An empty ledger with budget `max_parallel`; zero becomes one.
    pub fn with_parallelism(max_parallel: usize) -> (r: Self)
        ensures
            r.wf(),
            r@ == Seq::<JobStatus>::empty(),
            r.spec_max_parallelism() == if max_parallel == 0 {
                1
            } else {
                max_parallel
            },
    {
        let max_parallel = if max_parallel == 0 {
            1
        } else {
            max_parallel
        };
        BuildScheduler { statuses: Vec::new(), max_parallel }
    }

    /// Index of the status of job `id`, if any.
    fn position(&self, id: &str) -> (r: Option<usize>)
        ensures
            match r {
                Some(i) => find_job(self@, id@) == i as int,
                None => find_job(self@, id@) == -1,
            },
    {
        let mut k: usize = 0;
        while k < self.statuses.len()
            invariant
                k <= self.statuses@.len(),
                find_job(self.statuses@, id@) == find_from(self.statuses@, id@, k as int),
            decreases self.statuses@.len() - k,
        {
            if same_text(self.statuses[k].job.job_id.as_str(), id) {
                return Some(k);
            }
            k += 1;
        }
        None
    }

    /// Replaces the ledger with one pending status per job of `matrix`.
    pub fn initialize(&mut self, matrix: &BuildMatrix)
        requires
            old(self).wf(),
        ensures
            final(self).wf(),
            final(self).spec_max_parallelism() == old(self).spec_max_parallelism(),
            final(self)@ == initial_ledger(matrix@),
    {
        self.statuses.clear();
        let jobs = matrix.jobs();
        let mut i: usize = 0;
        while i < jobs.len()
            invariant
                i <= jobs@.len(),
                jobs@ == matrix@,
                self.wf(),
                self.spec_max_parallelism() == old(self).spec_max_parallelism(),
                self@ == initial_ledger(jobs@.take(i as int)),
            decreases jobs@.len() - i,
        {
            let job = &jobs[i];
            let status = JobStatus::new(job.duplicate());
            assert(jobs@.take(i + 1).drop_last() =~= jobs@.take(i as int));
            let ghost l = self@;
            match self.position(job.job_id.as_str()) {
                Some(k) => {
                    proof {
                        lemma_find_in_range(self@, job.job_id@, 0);
                    }
                    self.statuses.set(k, status);
                },
                None => {
                    self.statuses.push(status);
                },
            }
            proof {
                let expected = JobStatus {
                    job: jobs@[i as int],
                    result: BuildResult::Pending,
                    duration_ms: None,
                };
                assert(status == expected);
                assert(self@ == ledger_insert(l, expected));
            }
            i += 1;
        }
        assert(jobs@.take(i as int) =~= jobs@);
    }

    /// The declared parallelism budget.
    pub fn max_parallelism(&self) -> (r: usize)
        ensures
            r == self.spec_max_parallelism(),
    {
        self.max_parallel
    }

    /// The number of jobs in the ledger.
    pub fn total_jobs(&self) -> (r: usize)
        ensures
            r == self@.len(),
    {
        self.statuses.len()
    }

    fn count_kind(&self, kind: StatusKind) -> (r: usize)
        ensures
            r == count_where(self@, kind_pred(kind)),
    {
        let mut n: usize = 0;
        let mut i: usize = 0;
        while i < self.statuses.len()
            invariant
                i <= self.statuses@.len(),
                n == count_where(self.statuses@.take(i as int), kind_pred(kind)),
                n <= i,
            decreases self.statuses@.len() - i,
        {
            assert(self.statuses@.take(i + 1).drop_last() =~= self.statuses@.take(i as int));
            if status_is(kind, &self.statuses[i]) {
                n += 1;
            }
            i += 1;
        }
        assert(self.statuses@.take(i as int) =~= self.statuses@);
        n
    }

    fn list_kind(&self, kind: StatusKind) -> (r: Vec<&JobStatus>)
        ensures
            status_derefs(r@) == statuses_where(self@, kind_pred(kind)),
    {
        let mut r: Vec<&JobStatus> = Vec::new();
        let mut i: usize = 0;
        while i < self.statuses.len()
            invariant
                i <= self.statuses@.len(),
                status_derefs(r@) == statuses_where(self.statuses@.take(i as int), kind_pred(kind)),
            decreases self.statuses@.len() - i,
        {
            assert(self.statuses@.take(i + 1).drop_last() =~= self.statuses@.take(i as int));
            let ghost before = status_derefs(r@);
            if status_is(kind, &self.statuses[i]) {
                r.push(&self.statuses[i]);
                assert(status_derefs(r@) =~= before.push(self.statuses@[i as int]));
            }
            i += 1;
        }
        assert(self.statuses@.take(i as int) =~= self.statuses@);
        r
    }

    /// The number of pending jobs.
    pub fn pending_count(&self) -> (r: usize)
        ensures
            r == count_where(self@, kind_pred(StatusKind::Pending)),
    {
        self.count_kind(StatusKind::Pending)
    }

    /// The number of running jobs.
    pub fn running_count(&self) -> (r: usize)
        ensures
            r == count_where(self@, kind_pred(StatusKind::Running)),
    {
        self.count_kind(StatusKind::Running)
    }

    /// The number of finished jobs.
    pub fn completed_count(&self) -> (r: usize)
        ensures
            r == count_where(self@, kind_pred(StatusKind::Complete)),
    {
        self.count_kind(StatusKind::Complete)
    }

    /// The number of successful jobs.
    pub fn success_count(&self) -> (r: usize)
        ensures
            r == count_where(self@, kind_pred(StatusKind::Succeeded)),
    {
        self.count_kind(StatusKind::Succeeded)
    }

    /// The number of failed jobs.
    pub fn failure_count(&self) -> (r: usize)
        ensures
            r == count_where(self@, kind_pred(StatusKind::Failed)),
    {
        self.count_kind(StatusKind::Failed)
    }

    /// The status of job `job_id`, if it is in the ledger.
    pub fn get_status(&self, job_id: &str) -> (r: Option<&JobStatus>)
        ensures
            find_job(self@, job_id@) < 0 ==> r is None,
            find_job(self@, job_id@) >= 0 ==> r is Some && *r->0 == self@[find_job(
                self@,
                job_id@,
            )],
    {
        match self.position(job_id) {
            Some(k) => {
                proof {
                    lemma_find_in_range(self@, job_id@, 0);
                }
                Some(&self.statuses[k])
            },
            None => None,
        }
    }

    /// Mutable access to the status of job `job_id`, if it is in the ledger.
    pub fn get_status_mut(&mut self, job_id: &str) -> (r: Option<&mut JobStatus>)
        ensures
            find_job(old(self)@, job_id@) < 0 ==> r is None && final(self)@ == old(self)@,
            find_job(old(self)@, job_id@) >= 0 ==> r is Some && *r->0 == old(self)@[find_job(
                old(self)@,
                job_id@,
            )] && final(self)@ == old(self)@.update(find_job(old(self)@, job_id@), *final(r->0)),
            final(self).spec_max_parallelism() == old(self).spec_max_parallelism(),
    {
        match self.position(job_id) {
            Some(k) => {
                proof {
                    lemma_find_in_range(self@, job_id@, 0);
                }
                Some(&mut self.statuses[k])
            },
            None => None,
        }
    }

    /// All statuses, in ledger order.
    pub fn all_statuses(&self) -> (r: Vec<&JobStatus>)
        ensures
            status_derefs(r@) == self@,
    {
        let mut r: Vec<&JobStatus> = Vec::new();
        let mut i: usize = 0;
        while i < self.statuses.len()
            invariant
                i <= self.statuses@.len(),
                status_derefs(r@) == self.statuses@.take(i as int),
            decreases self.statuses@.len() - i,
        {
            let ghost before = status_derefs(r@);
            r.push(&self.statuses[i]);
            assert(status_derefs(r@) =~= before.push(self.statuses@[i as int]));
            assert(status_derefs(r@) =~= self.statuses@.take(i + 1));
            i += 1;
        }
        assert(self.statuses@.take(i as int) =~= self.statuses@);
        r
    }

    /// The failed jobs, in ledger order.
    pub fn failed_jobs(&self) -> (r: Vec<&JobStatus>)
        ensures
            status_derefs(r@) == statuses_where(self@, kind_pred(StatusKind::Failed)),
    {
        self.list_kind(StatusKind::Failed)
    }

    /// The successful jobs, in ledger order.
    pub fn successful_jobs(&self) -> (r: Vec<&JobStatus>)
        ensures
            status_derefs(r@) == statuses_where(self@, kind_pred(StatusKind::Succeeded)),
    {
        self.list_kind(StatusKind::Succeeded)
    }

    /// The number of jobs with a recorded duration.
    pub fn timed_count(&self) -> (r: usize)
        ensures
            r == timed_in(self@),
    {
        let mut n: usize = 0;
        let mut i: usize = 0;
        while i < self.statuses.len()
            invariant
                i <= self.statuses@.len(),
                n == timed_in(self.statuses@.take(i as int)),
                n <= i,
            decreases self.statuses@.len() - i,
        {
            assert(self.statuses@.take(i + 1).drop_last() =~= self.statuses@.take(i as int));
            if self.statuses[i].duration_ms.is_some() {
                n += 1;
            }
            i += 1;
        }
        assert(self.statuses@.take(i as int) =~= self.statuses@);
        n
    }

    /// The sum of the recorded durations, in milliseconds; with `timed_count`
    /// it gives the average duration.
    pub fn total_duration_ms(&self) -> (r: u128)
        ensures
            r == duration_sum(self@),
    {
        let mut total: u128 = 0;
        let mut i: usize = 0;
        while i < self.statuses.len()
            invariant
                i <= self.statuses@.len(),
                total == duration_sum(self.statuses@.take(i as int)),
                total <= i * 0xffff_ffff_ffff_ffffu128,
            decreases self.statuses@.len() - i,
        {
            assert(self.statuses@.take(i + 1).drop_last() =~= self.statuses@.take(i as int));
            assert(i < 0x1_0000_0000_0000_0000);
            if let Some(d) = self.statuses[i].duration_ms {
                total = total + d as u128;
            }
            i += 1;
        }
        assert(self.statuses@.take(i as int) =~= self.statuses@);
        total
    }

    /// Whether every job has finished.
    pub fn is_complete(&self) -> (r: bool)
        ensures
            r == (forall|i: int| 0 <= i < self@.len() ==> is_terminal(#[trigger] self@[i].result)),
    {
        let mut i: usize = 0;
        while i < self.statuses.len()
            invariant
                i <= self.statuses@.len(),
                forall|j: int| 0 <= j < i ==> is_terminal(#[trigger] self.statuses@[j].result),
            decreases self.statuses@.len() - i,
        {
            if !self.statuses[i].is_complete() {
                return false;
            }
            i += 1;
        }
        true
    }
}

proof fn lemma_find_in_range(l: Seq<JobStatus>, id: Seq<char>, k: int)
    requires
        0 <= k,
    ensures
        find_from(l, id, k) == -1 || (k <= find_from(l, id, k) < l.len() && l[find_from(
            l,
            id,
            k,
        )].job.job_id@ == id),
    decreases l.len() - k,
{
    if k < l.len() && l[k].job.job_id@ != id {
        lemma_find_in_range(l, id, k + 1);
    }
}

impl Default for BuildScheduler {
    fn default() -> (r: Self)
        ensures
            r.wf(),
            r@ == Seq::<JobStatus>::empty(),
            r.spec_max_parallelism() == 4,
    {
        Self::new()
    }
}

} // verus!
