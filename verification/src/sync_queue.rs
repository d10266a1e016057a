//! The sync queue: jobs that upload a meeting's data to the cloud, with
//! retries, dependencies between jobs and per-meeting summaries.
//!
//! The queue is a table of rows ordered by id. Each operation is the table
//! statement of the application's SQLite store, stated over the rows; the
//! clock is read by the caller and handed in as SQLite text timestamps.
use vstd::prelude::*;
use crate::text::{copy_opt_string, copy_str, opt_str, str_eq, str_le, text_le, views};

verus! {

/// The state of a job.
#[derive(Debug, Clone, Copy, PartialEq, Eq, Structural)]
pub enum JobStatus {
    Pending,
    InProgress,
    Completed,
    Failed,
}

/// The text stored for a status.
pub open spec fn status_text(s: JobStatus) -> Seq<char> {
    match s {
        JobStatus::Pending => "pending"@,
        JobStatus::InProgress => "in_progress"@,
        JobStatus::Completed => "completed"@,
        JobStatus::Failed => "failed"@,
    }
}

impl JobStatus {
    /// The text stored for this status.
    pub fn as_str(&self) -> (r: &'static str)
        ensures
            r@ == status_text(*self),
    {
        match self {
            JobStatus::Pending => "pending",
            JobStatus::InProgress => "in_progress",
            JobStatus::Completed => "completed",
            JobStatus::Failed => "failed",
        }
    }
}

/// The job type whose result holds a meeting's cloud conversation.
pub open spec fn finalize_job_type() -> Seq<char> {
    "finalize_conversation"@
}

/// Attempts a job gets when the caller names none.
pub const DEFAULT_MAX_ATTEMPTS: i64 = 10;

/// Ready jobs handed out at once when the caller names no limit.
pub const DEFAULT_READY_LIMIT: i64 = 10;

/// Seconds after which a claimed job counts as abandoned, when the caller
/// names none.
pub const DEFAULT_STALE_SECONDS: i64 = 300;

/// One row of the queue.
#[derive(Debug)]
pub struct SyncQueueJob {
    pub id: i64,
    pub job_type: String,
    pub meeting_id: String,
    pub payload: String,
    pub status: JobStatus,
    pub attempt_count: i64,
    pub max_attempts: i64,
    pub last_error: Option<String>,
    pub next_retry_at: Option<String>,
    pub depends_on: Option<i64>,
    pub result_data: Option<String>,
    pub created_at: String,
    pub updated_at: String,
    pub completed_at: Option<String>,
}

/// A row as plain values.
pub struct JobView {
    pub id: i64,
    pub job_type: Seq<char>,
    pub meeting_id: Seq<char>,
    pub payload: Seq<char>,
    pub status: JobStatus,
    pub attempt_count: i64,
    pub max_attempts: i64,
    pub last_error: Option<Seq<char>>,
    pub next_retry_at: Option<Seq<char>>,
    pub depends_on: Option<i64>,
    pub result_data: Option<Seq<char>>,
    pub created_at: Seq<char>,
    pub updated_at: Seq<char>,
    pub completed_at: Option<Seq<char>>,
}

impl View for SyncQueueJob {
    type V = JobView;

    open spec fn view(&self) -> JobView {
        JobView {
            id: self.id,
            job_type: self.job_type@,
            meeting_id: self.meeting_id@,
            payload: self.payload@,
            status: self.status,
            attempt_count: self.attempt_count,
            max_attempts: self.max_attempts,
            last_error: opt_str(self.last_error),
            next_retry_at: opt_str(self.next_retry_at),
            depends_on: self.depends_on,
            result_data: opt_str(self.result_data),
            created_at: self.created_at@,
            updated_at: self.updated_at@,
            completed_at: opt_str(self.completed_at),
        }
    }
}

impl SyncQueueJob {
    /// A copy of this row.
    pub fn copy(&self) -> (r: SyncQueueJob)
        ensures
            r@ == self@,
    {
        SyncQueueJob {
            id: self.id,
            job_type: copy_str(self.job_type.as_str()),
            meeting_id: copy_str(self.meeting_id.as_str()),
            payload: copy_str(self.payload.as_str()),
            status: self.status,
            attempt_count: self.attempt_count,
            max_attempts: self.max_attempts,
            last_error: copy_opt_string(&self.last_error),
            next_retry_at: copy_opt_string(&self.next_retry_at),
            depends_on: self.depends_on,
            result_data: copy_opt_string(&self.result_data),
            created_at: copy_str(self.created_at.as_str()),
            updated_at: copy_str(self.updated_at.as_str()),
            completed_at: copy_opt_string(&self.completed_at),
        }
    }
}

/// The views of a sequence of rows.
pub open spec fn job_views(v: Seq<SyncQueueJob>) -> Seq<JobView> {
    v.map_values(|j: SyncQueueJob| j@)
}

/// Row ids rise strictly along the table.
pub open spec fn ids_ascending(t: Seq<JobView>) -> bool {
    forall|i: int, j: int| 0 <= i < j < t.len() ==> t[i].id < t[j].id
}

/// Some row has id `id`.
pub open spec fn has_row(t: Seq<JobView>, id: i64) -> bool {
    exists|k: int| 0 <= k < t.len() && t[k].id == id
}

/// The row with id `id`, where there is one.
pub open spec fn row_of(t: Seq<JobView>, id: i64) -> JobView {
    t[choose|k: int| 0 <= k < t.len() && t[k].id == id]
}

/// The row that `enqueue` adds.
pub open spec fn new_job(
    id: i64,
    job_type: Seq<char>,
    meeting_id: Seq<char>,
    payload: Seq<char>,
    max_attempts: i64,
    depends_on: Option<i64>,
    now: Seq<char>,
) -> JobView {
    JobView {
        id,
        job_type,
        meeting_id,
        payload,
        status: JobStatus::Pending,
        attempt_count: 0,
        max_attempts,
        last_error: None,
        next_retry_at: None,
        depends_on,
        result_data: None,
        created_at: now,
        updated_at: now,
        completed_at: None,
    }
}

/// Some row with id `id` is pending, so that a claim takes it.
pub open spec fn claimable(t: Seq<JobView>, id: i64) -> bool {
    exists|k: int| 0 <= k < t.len() && t[k].id == id && t[k].status == JobStatus::Pending
}

/// The table after claiming job `id`: a pending row with that id is in
/// progress from `now` on.
pub open spec fn claimed(t: Seq<JobView>, id: i64, now: Seq<char>) -> Seq<JobView> {
    t.map_values(
        |j: JobView|
            if j.id == id && j.status == JobStatus::Pending {
                JobView { status: JobStatus::InProgress, updated_at: now, ..j }
            } else {
                j
            },
    )
}

/// An optional borrowed text as plain values.
pub open spec fn opt_text(o: Option<&str>) -> Option<Seq<char>> {
    match o {
        Some(s) => Some(s@),
        None => None,
    }
}

/// The table after completing job `id` with `result`, whatever its status.
pub open spec fn completed(
    t: Seq<JobView>,
    id: i64,
    result: Option<Seq<char>>,
    now: Seq<char>,
) -> Seq<JobView> {
    t.map_values(
        |j: JobView|
            if j.id == id {
                JobView {
                    status: JobStatus::Completed,
                    result_data: result,
                    completed_at: Some(now),
                    updated_at: now,
                    ..j
                }
            } else {
                j
            },
    )
}

/// The rows with id `id` can count one more attempt.
pub open spec fn attempts_below_max(t: Seq<JobView>, id: i64) -> bool {
    forall|k: int| 0 <= k < t.len() && t[k].id == id ==> #[trigger] t[k].attempt_count < i64::MAX
}

/// A failed attempt on `j` uses up its attempts.
pub open spec fn exhausted(j: JobView) -> bool {
    j.attempt_count + 1 >= j.max_attempts
}

/// The table after a failed attempt on job `id`: the attempt is counted and
/// the error kept; the job fails for good once its attempts are used up, and
/// otherwise waits, pending, until `next_retry_at`.
pub open spec fn failed(
    t: Seq<JobView>,
    id: i64,
    error: Seq<char>,
    next_retry_at: Option<Seq<char>>,
    now: Seq<char>,
) -> Seq<JobView> {
    t.map_values(
        |j: JobView|
            if j.id == id {
                JobView {
                    attempt_count: (j.attempt_count + 1) as i64,
                    last_error: Some(error),
                    status: if exhausted(j) {
                        JobStatus::Failed
                    } else {
                        JobStatus::Pending
                    },
                    next_retry_at: if exhausted(j) {
                        None
                    } else {
                        next_retry_at
                    },
                    updated_at: now,
                    ..j
                }
            } else {
                j
            },
    )
}

/// A claimed job whose last change is at or before `cutoff`.
pub open spec fn is_stale(j: JobView, cutoff: Seq<char>) -> bool {
    j.status == JobStatus::InProgress && text_le(j.updated_at, cutoff)
}

/// `is_stale` as a predicate.
pub open spec fn stale_pred(cutoff: Seq<char>) -> spec_fn(JobView) -> bool {
    |j: JobView| is_stale(j, cutoff)
}

/// A row after an abandoned claim is undone.
pub open spec fn unclaimed(j: JobView, cutoff: Seq<char>, now: Seq<char>) -> JobView {
    if is_stale(j, cutoff) {
        JobView { status: JobStatus::Pending, updated_at: now, ..j }
    } else {
        j
    }
}

/// The table after returning the stale claimed jobs to the pending ones.
pub open spec fn reset_stale(t: Seq<JobView>, cutoff: Seq<char>, now: Seq<char>) -> Seq<JobView> {
    t.map_values(|j: JobView| unclaimed(j, cutoff, now))
}

/// Job `j` has no dependency, or its dependency is a completed row.
pub open spec fn dependency_met(t: Seq<JobView>, j: JobView) -> bool {
    match j.depends_on {
        None => true,
        Some(d) => exists|k: int|
            0 <= k < t.len() && t[k].id == d && t[k].status == JobStatus::Completed,
    }
}

/// Job `j` is ready at `now`: pending, past its retry time if it has one,
/// and with its dependency met.
pub open spec fn is_ready(t: Seq<JobView>, j: JobView, now: Seq<char>) -> bool {
    &&& j.status == JobStatus::Pending
    &&& match j.next_retry_at {
        None => true,
        Some(at) => text_le(at, now),
    }
    &&& dependency_met(t, j)
}

/// `is_ready` as a predicate.
pub open spec fn ready_pred(t: Seq<JobView>, now: Seq<char>) -> spec_fn(JobView) -> bool {
    |j: JobView| is_ready(t, j, now)
}

/// The first `limit` rows, or all of them where `limit` is negative (as
/// SQLite's `LIMIT`).
pub open spec fn limited(s: Seq<JobView>, limit: i64) -> Seq<JobView> {
    if 0 <= limit < s.len() {
        s.take(limit as int)
    } else {
        s
    }
}

/// The ready jobs in id order, at most `limit` of them.
pub open spec fn ready_jobs(t: Seq<JobView>, now: Seq<char>, limit: i64) -> Seq<JobView> {
    limited(t.filter(ready_pred(t, now)), limit)
}

/// Row `j` belongs to meeting `m` and, where `s` names a status, has it.
pub open spec fn counted(j: JobView, m: Seq<char>, s: Option<JobStatus>) -> bool {
    j.meeting_id == m && match s {
        None => true,
        Some(x) => j.status == x,
    }
}

/// How many rows `counted` selects.
pub open spec fn count_rows(t: Seq<JobView>, m: Seq<char>, s: Option<JobStatus>) -> nat
    decreases t.len(),
{
    if t.len() == 0 {
        0
    } else {
        count_rows(t.drop_last(), m, s) + if counted(t.last(), m, s) {
            1nat
        } else {
            0nat
        }
    }
}

/// A meeting's summary as plain values.
pub struct StatusView {
    pub meeting_id: Seq<char>,
    pub total_jobs: int,
    pub pending: int,
    pub in_progress: int,
    pub completed: int,
    pub failed: int,
}

/// The summary of meeting `m`'s jobs.
pub open spec fn status_of(t: Seq<JobView>, m: Seq<char>) -> StatusView {
    StatusView {
        meeting_id: m,
        total_jobs: count_rows(t, m, None) as int,
        pending: count_rows(t, m, Some(JobStatus::Pending)) as int,
        in_progress: count_rows(t, m, Some(JobStatus::InProgress)) as int,
        completed: count_rows(t, m, Some(JobStatus::Completed)) as int,
        failed: count_rows(t, m, Some(JobStatus::Failed)) as int,
    }
}

/// The summary of meeting `m`, which has one only where it has jobs.
pub open spec fn meeting_status(t: Seq<JobView>, m: Seq<char>) -> Option<StatusView> {
    if count_rows(t, m, None) == 0 {
        None
    } else {
        Some(status_of(t, m))
    }
}

/// The meetings of the rows, each once, in the order of their first row.
pub open spec fn meetings_of(t: Seq<JobView>) -> Seq<Seq<char>>
    decreases t.len(),
{
    if t.len() == 0 {
        Seq::empty()
    } else {
        let r = meetings_of(t.drop_last());
        if r.contains(t.last().meeting_id) {
            r
        } else {
            r.push(t.last().meeting_id)
        }
    }
}

/// Meeting `m` has a pending, claimed or failed job.
pub open spec fn has_open_jobs(t: Seq<JobView>, m: Seq<char>) -> bool {
    count_rows(t, m, Some(JobStatus::Pending)) > 0 || count_rows(t, m, Some(JobStatus::InProgress))
        > 0 || count_rows(t, m, Some(JobStatus::Failed)) > 0
}

/// `has_open_jobs` as a predicate.
pub open spec fn open_pred(t: Seq<JobView>) -> spec_fn(Seq<char>) -> bool {
    |m: Seq<char>| has_open_jobs(t, m)
}

/// The summaries of the meetings with a pending, claimed or failed job, in
/// the order of their first row.
pub open spec fn all_statuses(t: Seq<JobView>) -> Seq<StatusView> {
    meetings_of(t).filter(open_pred(t)).map_values(|m: Seq<char>| status_of(t, m))
}

/// A pending or claimed job of meeting `m`.
pub open spec fn is_open_job_of(j: JobView, m: Seq<char>) -> bool {
    j.meeting_id == m && (j.status == JobStatus::Pending || j.status == JobStatus::InProgress)
}

/// The rows that cancelling meeting `m`'s jobs keeps.
pub open spec fn kept_after_cancel(m: Seq<char>) -> spec_fn(JobView) -> bool {
    |j: JobView| !is_open_job_of(j, m)
}

/// The rows that deleting meeting `m`'s jobs keeps.
pub open spec fn kept_after_delete(m: Seq<char>) -> spec_fn(JobView) -> bool {
    |j: JobView| j.meeting_id != m
}

/// A job completed at or before `cutoff`.
pub open spec fn completed_by(j: JobView, cutoff: Seq<char>) -> bool {
    j.status == JobStatus::Completed && match j.completed_at {
        Some(at) => text_le(at, cutoff),
        None => false,
    }
}

/// The rows that cleaning up the jobs completed by `cutoff` keeps.
pub open spec fn kept_after_cleanup(cutoff: Seq<char>) -> spec_fn(JobView) -> bool {
    |j: JobView| !completed_by(j, cutoff)
}

/// The result of the dependency of job `job_id`: nothing where the job, its
/// dependency or the dependency's result is missing.
pub open spec fn dependency_result(t: Seq<JobView>, job_id: i64) -> Option<Seq<char>> {
    if has_row(t, job_id) {
        match row_of(t, job_id).depends_on {
            Some(d) => if has_row(t, d) {
                row_of(t, d).result_data
            } else {
                None
            },
            None => None,
        }
    } else {
        None
    }
}

/// A completed job of meeting `m` that finalizes its conversation.
pub open spec fn is_finalize_of(j: JobView, m: Seq<char>) -> bool {
    j.meeting_id == m && j.job_type == finalize_job_type() && j.status == JobStatus::Completed
}

/// The error of a queue operation.
#[derive(Debug, Clone, Copy, PartialEq, Eq, Structural)]
pub enum SyncQueueError {
    /// Every row id has been handed out.
    IdsExhausted,
}

/// The summary of a meeting's jobs.
#[derive(Debug)]
pub struct MeetingSyncStatus {
    pub meeting_id: String,
    pub total_jobs: i64,
    pub pending: i64,
    pub in_progress: i64,
    pub completed: i64,
    pub failed: i64,
}

impl View for MeetingSyncStatus {
    type V = StatusView;

    open spec fn view(&self) -> StatusView {
        StatusView {
            meeting_id: self.meeting_id@,
            total_jobs: self.total_jobs as int,
            pending: self.pending as int,
            in_progress: self.in_progress as int,
            completed: self.completed as int,
            failed: self.failed as int,
        }
    }
}

/// The views of a sequence of summaries.
pub open spec fn status_views(v: Seq<MeetingSyncStatus>) -> Seq<StatusView> {
    v.map_values(|s: MeetingSyncStatus| s@)
}

/// Whether some string of `v` holds the characters of `s`.
fn contains_text(v: &Vec<String>, s: &str) -> (r: bool)
    ensures
        r == views(v@).contains(s@),
{
    let mut i: usize = 0;
    while i < v.len()
        invariant
            i <= v@.len(),
            forall|k: int| 0 <= k < i ==> views(v@)[k] != s@,
        decreases v@.len() - i,
    {
        if str_eq(v[i].as_str(), s) {
            assert(views(v@)[i as int] == s@);
            return true;
        }
        i += 1;
    }
    false
}

/// Which rows a removal keeps.
#[derive(Clone, Copy)]
enum Retention {
    NotOpenOf,
    NotOf,
    NotCompletedBy,
}

/// Whether a removal of kind `kind` with text `x` keeps row `j`.
spec fn retains(kind: Retention, x: Seq<char>, j: JobView) -> bool {
    match kind {
        Retention::NotOpenOf => !is_open_job_of(j, x),
        Retention::NotOf => j.meeting_id != x,
        Retention::NotCompletedBy => !completed_by(j, x),
    }
}

/// `retains` as a predicate.
spec fn retain_pred(kind: Retention, x: Seq<char>) -> spec_fn(JobView) -> bool {
    |j: JobView| retains(kind, x, j)
}

/// A filter keeps the ids rising and within the bounds of the table's.
proof fn lemma_filter_ascending(t: Seq<JobView>, p: spec_fn(JobView) -> bool, lo: int, hi: int)
    requires
        ids_ascending(t),
        forall|k: int| 0 <= k < t.len() ==> lo <= #[trigger] t[k].id < hi,
    ensures
        ids_ascending(t.filter(p)),
        forall|k: int| 0 <= k < t.filter(p).len() ==> lo <= #[trigger] t.filter(p)[k].id < hi,
    decreases t.len(),
{
    if t.len() > 0 {
        let last = t.last();
        let init = t.drop_last();
        assert(init.push(last) =~= t);
        lemma_filter_ascending(init, p, lo, last.id as int);
        init.lemma_filter_push(last, p);
    }
}

/// The queue of sync jobs.
pub struct SyncQueueRepository {
    jobs: Vec<SyncQueueJob>,
    next_id: i64,
}

/// A strictly rising sequence of ids between `lo` and `hi` has at most
/// `hi - lo` members.
proof fn lemma_ascending_len(t: Seq<JobView>, lo: int, hi: int)
    requires
        ids_ascending(t),
        forall|k: int| 0 <= k < t.len() ==> lo <= #[trigger] t[k].id < hi,
    ensures
        t.len() <= if hi > lo { hi - lo } else { 0 },
    decreases t.len(),
{
    if t.len() > 0 {
        let last = t.last().id as int;
        lemma_ascending_len(t.drop_last(), lo, last);
    }
}

/// In a table whose ids rise, the row found at `k` is the row of its id.
proof fn lemma_row_of_at(t: Seq<JobView>, k: int)
    requires
        ids_ascending(t),
        0 <= k < t.len(),
    ensures
        has_row(t, t[k].id),
        row_of(t, t[k].id) == t[k],
{
    let id = t[k].id;
    assert(0 <= k < t.len() && t[k].id == id);
    let c = choose|c: int| 0 <= c < t.len() && t[c].id == id;
    if c < k {
        assert(t[c].id < t[k].id);
    } else if c > k {
        assert(t[k].id < t[c].id);
    }
}

/// In a table whose ids rise, no other row shares the id of the row at `k`.
proof fn lemma_only_row(t: Seq<JobView>, k: int)
    requires
        ids_ascending(t),
        0 <= k < t.len(),
    ensures
        forall|q: int| 0 <= q < t.len() && q != k ==> #[trigger] t[q].id != t[k].id,
{
    assert forall|q: int| 0 <= q < t.len() && q != k implies #[trigger] t[q].id != t[k].id by {
        if q < k {
            assert(t[q].id < t[k].id);
        } else {
            assert(t[k].id < t[q].id);
        }
    }
}

impl SyncQueueRepository {
    /// The rows, in id order.
    pub closed spec fn rows(&self) -> Seq<JobView> {
        job_views(self.jobs@)
    }

    /// The id the next row gets.
    pub closed spec fn next_row_id(&self) -> int {
        self.next_id as int
    }

    /// Ids rise along the table and stay below the next id, which is
    /// positive.
    pub closed spec fn wf(&self) -> bool {
        &&& 1 <= self.next_id
        &&& ids_ascending(self.rows())
        &&& forall|k: int|
            0 <= k < self.rows().len() ==> 1 <= #[trigger] self.rows()[k].id < self.next_id
    }

    /// The table holding `rows`, where the next row gets `next_id`: there is
    /// one only where the ids of the rows rise, are positive and stay below
    /// `next_id`.
    pub fn from_rows(rows: Vec<SyncQueueJob>, next_id: i64) -> (r: Option<SyncQueueRepository>)
        ensures
            match r {
                Some(q) => q.wf() && q.rows() == job_views(rows@) && q.next_row_id() == next_id,
                None => !(1 <= next_id && ids_ascending(job_views(rows@)) && forall|k: int|
                    0 <= k < rows@.len() ==> 1 <= #[trigger] rows@[k].id < next_id),
            },
    {
        if next_id < 1 {
            return None;
        }
        let mut i: usize = 0;
        while i < rows.len()
            invariant
                i <= rows@.len(),
                forall|a: int, b: int| 0 <= a < b < i ==> rows@[a].id < rows@[b].id,
                forall|k: int| 0 <= k < i ==> 1 <= #[trigger] rows@[k].id < next_id,
            decreases rows@.len() - i,
        {
            if rows[i].id < 1 || rows[i].id >= next_id {
                return None;
            }
            if i > 0 && rows[i - 1].id >= rows[i].id {
                proof {
                    assert(job_views(rows@)[i - 1].id == rows@[i - 1].id);
                    assert(job_views(rows@)[i as int].id == rows@[i as int].id);
                }
                return None;
            }
            i += 1;
        }
        let r = SyncQueueRepository { jobs: rows, next_id };
        proof {
            assert forall|a: int, b: int| 0 <= a < b < r.rows().len() implies r.rows()[a].id
                < r.rows()[b].id by {
                assert(r.rows()[a].id == r.jobs@[a].id);
                assert(r.rows()[b].id == r.jobs@[b].id);
            }
            assert forall|k: int| 0 <= k < r.rows().len() implies 1 <= #[trigger] r.rows()[k].id
                < r.next_id by {
                assert(r.rows()[k].id == r.jobs@[k].id);
            }
        }
        Some(r)
    }

    /// A copy of the rows, in id order.
    pub fn to_rows(&self) -> (r: Vec<SyncQueueJob>)
        ensures
            job_views(r@) == self.rows(),
    {
        let mut out: Vec<SyncQueueJob> = Vec::new();
        let mut i: usize = 0;
        while i < self.jobs.len()
            invariant
                i <= self.jobs@.len(),
                job_views(out@) == self.rows().take(i as int),
            decreases self.jobs@.len() - i,
        {
            let c = self.jobs[i].copy();
            let ghost prev = out@;
            out.push(c);
            proof {
                assert(job_views(out@) =~= job_views(prev).push(c@));
                assert(self.rows().take(i + 1) =~= self.rows().take(i as int).push(self.rows()[i as int]));
            }
            i += 1;
        }
        assert(self.rows().take(self.rows().len() as int) =~= self.rows());
        out
    }

    /// The id the next row gets.
    pub fn next_id(&self) -> (r: i64)
        ensures
            r == self.next_row_id(),
    {
        self.next_id
    }

    /// An empty queue.
    pub fn new() -> (r: SyncQueueRepository)
        ensures
            r.wf(),
            r.rows() == Seq::<JobView>::empty(),
            r.next_row_id() == 1,
    {
        let r = SyncQueueRepository { jobs: Vec::new(), next_id: 1 };
        assert(r.rows() =~= Seq::<JobView>::empty());
        r
    }

    /// The table holds fewer rows than the largest id.
    proof fn lemma_len_below_max(&self)
        requires
            self.wf(),
        ensures
            self.rows().len() < i64::MAX,
            self.jobs@.len() == self.rows().len(),
    {
        lemma_ascending_len(self.rows(), 1, self.next_id as int);
    }

    /// Adds a pending job and gives its id, which is above every id given
    /// before.
    pub fn enqueue(
        &mut self,
        job_type: &str,
        meeting_id: &str,
        payload: &str,
        max_attempts: i64,
        depends_on: Option<i64>,
        now: &str,
    ) -> (r: Result<i64, SyncQueueError>)
        requires
            old(self).wf(),
        ensures
            final(self).wf(),
            old(self).next_row_id() < i64::MAX ==> {
                &&& r == Ok::<i64, SyncQueueError>(old(self).next_row_id() as i64)
                &&& final(self).rows() == old(self).rows().push(
                    new_job(
                        old(self).next_row_id() as i64,
                        job_type@,
                        meeting_id@,
                        payload@,
                        max_attempts,
                        depends_on,
                        now@,
                    ),
                )
                &&& final(self).next_row_id() == old(self).next_row_id() + 1
            },
            old(self).next_row_id() == i64::MAX ==> {
                &&& r == Err::<i64, SyncQueueError>(SyncQueueError::IdsExhausted)
                &&& final(self).rows() == old(self).rows()
                &&& final(self).next_row_id() == old(self).next_row_id()
            },
    {
        if self.next_id == i64::MAX {
            return Err(SyncQueueError::IdsExhausted);
        }
        let id = self.next_id;
        let job = SyncQueueJob {
            id,
            job_type: copy_str(job_type),
            meeting_id: copy_str(meeting_id),
            payload: copy_str(payload),
            status: JobStatus::Pending,
            attempt_count: 0,
            max_attempts,
            last_error: None,
            next_retry_at: None,
            depends_on,
            result_data: None,
            created_at: copy_str(now),
            updated_at: copy_str(now),
            completed_at: None,
        };
        let ghost before = self.rows();
        self.jobs.push(job);
        self.next_id = id + 1;
        proof {
            assert(self.rows() =~= before.push(
                new_job(id, job_type@, meeting_id@, payload@, max_attempts, depends_on, now@),
            ));
        }
        Ok(id)
    }

    /// The position of the row with id `id`.
    fn index_of(&self, id: i64) -> (r: Option<usize>)
        requires
            self.wf(),
        ensures
            match r {
                Some(k) => k < self.rows().len() && self.rows()[k as int].id == id
                    && self.jobs@.len() == self.rows().len(),
                None => !has_row(self.rows(), id),
            },
    {
        let mut i: usize = 0;
        while i < self.jobs.len()
            invariant
                self.wf(),
                i <= self.jobs@.len(),
                self.jobs@.len() == self.rows().len(),
                forall|k: int| 0 <= k < i ==> self.rows()[k].id != id,
            decreases self.jobs@.len() - i,
        {
            if self.jobs[i].id == id {
                return Some(i);
            }
            i += 1;
        }
        None
    }

    /// The job with id `id`, whatever its status.
    pub fn get_job_by_id(&self, id: i64) -> (r: Option<SyncQueueJob>)
        requires
            self.wf(),
        ensures
            match r {
                Some(j) => has_row(self.rows(), id) && j@ == row_of(self.rows(), id),
                None => !has_row(self.rows(), id),
            },
    {
        match self.index_of(id) {
            Some(k) => {
                proof {
                    lemma_row_of_at(self.rows(), k as int);
                }
                Some(self.jobs[k].copy())
            },
            None => None,
        }
    }

    /// Claims job `id` for processing: only a pending job can be claimed.
    /// Says whether a row changed.
    pub fn claim_job(&mut self, id: i64, now: &str) -> (r: bool)
        requires
            old(self).wf(),
        ensures
            final(self).wf(),
            r == claimable(old(self).rows(), id),
            final(self).rows() == claimed(old(self).rows(), id, now@),
            final(self).next_row_id() == old(self).next_row_id(),
    {
        let ghost before = self.rows();
        match self.index_of(id) {
            Some(k) => {
                if self.jobs[k].status == JobStatus::Pending {
                    let mut j = self.jobs[k].copy();
                    j.status = JobStatus::InProgress;
                    j.updated_at = copy_str(now);
                    self.jobs.set(k, j);
                    proof {
                        assert forall|q: int| 0 <= q < before.len() && q != k implies before[q].id
                            != id by {
                            if q < k {
                                assert(before[q].id < before[k as int].id);
                            } else {
                                assert(before[k as int].id < before[q].id);
                            }
                        }
                        assert(self.rows() =~= claimed(before, id, now@));
                    }
                    true
                } else {
                    proof {
                        assert forall|q: int| 0 <= q < before.len() && q != k implies before[q].id
                            != id by {
                            if q < k {
                                assert(before[q].id < before[k as int].id);
                            } else {
                                assert(before[k as int].id < before[q].id);
                            }
                        }
                        assert(claimed(before, id, now@) =~= before);
                    }
                    false
                }
            },
            None => {
                assert(claimed(before, id, now@) =~= before);
                false
            },
        }
    }

    /// Marks job `id` completed with its result, whatever its status. Says
    /// whether a row changed.
    pub fn complete_job(&mut self, id: i64, result_data: Option<&str>, now: &str) -> (r: bool)
        requires
            old(self).wf(),
        ensures
            final(self).wf(),
            r == has_row(old(self).rows(), id),
            final(self).rows() == completed(old(self).rows(), id, opt_text(result_data), now@),
            final(self).next_row_id() == old(self).next_row_id(),
    {
        let ghost before = self.rows();
        match self.index_of(id) {
            Some(k) => {
                let mut j = self.jobs[k].copy();
                j.status = JobStatus::Completed;
                j.result_data = match result_data {
                    Some(d) => Some(copy_str(d)),
                    None => None,
                };
                j.completed_at = Some(copy_str(now));
                j.updated_at = copy_str(now);
                self.jobs.set(k, j);
                proof {
                    lemma_only_row(before, k as int);
                    assert(self.rows() =~= completed(before, id, opt_text(result_data), now@));
                }
                true
            },
            None => {
                assert(completed(before, id, opt_text(result_data), now@) =~= before);
                false
            },
        }
    }

    /// Records a failed attempt on job `id`: see `failed`. Says whether a
    /// row changed.
    pub fn fail_job(
        &mut self,
        id: i64,
        error_msg: &str,
        next_retry_at: Option<&str>,
        now: &str,
    ) -> (r: bool)
        requires
            old(self).wf(),
            attempts_below_max(old(self).rows(), id),
        ensures
            final(self).wf(),
            r == has_row(old(self).rows(), id),
            final(self).rows() == failed(
                old(self).rows(),
                id,
                error_msg@,
                opt_text(next_retry_at),
                now@,
            ),
            final(self).next_row_id() == old(self).next_row_id(),
    {
        let ghost before = self.rows();
        match self.index_of(id) {
            Some(k) => {
                let mut j = self.jobs[k].copy();
                assert(j@ == before[k as int]);
                assert(before[k as int].attempt_count < i64::MAX);
                let used_up = j.attempt_count + 1 >= j.max_attempts;
                j.attempt_count = j.attempt_count + 1;
                j.last_error = Some(copy_str(error_msg));
                if used_up {
                    j.status = JobStatus::Failed;
                    j.next_retry_at = None;
                } else {
                    j.status = JobStatus::Pending;
                    j.next_retry_at = match next_retry_at {
                        Some(d) => Some(copy_str(d)),
                        None => None,
                    };
                }
                j.updated_at = copy_str(now);
                self.jobs.set(k, j);
                proof {
                    lemma_only_row(before, k as int);
                    assert(self.rows() =~= failed(
                        before,
                        id,
                        error_msg@,
                        opt_text(next_retry_at),
                        now@,
                    ));
                }
                true
            },
            None => {
                assert(failed(before, id, error_msg@, opt_text(next_retry_at), now@) =~= before);
                false
            },
        }
    }

    /// Returns the claimed jobs last changed at or before `cutoff` to the
    /// pending ones, and gives how many there were.
    pub fn reset_stale_jobs(&mut self, cutoff: &str, now: &str) -> (r: u64)
        requires
            old(self).wf(),
        ensures
            final(self).wf(),
            final(self).rows() == reset_stale(old(self).rows(), cutoff@, now@),
            r == old(self).rows().filter(stale_pred(cutoff@)).len(),
            final(self).next_row_id() == old(self).next_row_id(),
    {
        let ghost before = self.rows();
        let mut count: u64 = 0;
        let mut i: usize = 0;
        while i < self.jobs.len()
            invariant
                before.len() == self.jobs@.len(),
                self.next_id == old(self).next_id,
                1 <= self.next_id,
                ids_ascending(before),
                forall|q: int| 0 <= q < before.len() ==> 1 <= #[trigger] before[q].id < self.next_id,
                i <= self.jobs@.len(),
                forall|q: int| 0 <= q < i ==> #[trigger] self.rows()[q] == unclaimed(before[q], cutoff@, now@),
                forall|q: int| i <= q < before.len() ==> #[trigger] self.rows()[q] == before[q],
                count as int == before.take(i as int).filter(stale_pred(cutoff@)).len(),
                count <= i,
            decreases self.jobs@.len() - i,
        {
            proof {
                assert(before.take(i + 1) =~= before.take(i as int).push(before[i as int]));
                before.take(i as int).lemma_filter_push(before[i as int], stale_pred(cutoff@));
            }
            assert(self.rows()[i as int] == before[i as int]);
            assert(self.jobs[i as int]@ == before[i as int]);
            if self.jobs[i].status == JobStatus::InProgress && str_le(
                self.jobs[i].updated_at.as_str(),
                cutoff,
            ) {
                let mut j = self.jobs[i].copy();
                j.status = JobStatus::Pending;
                j.updated_at = copy_str(now);
                let ghost mid = self.rows();
                self.jobs.set(i, j);
                proof {
                    assert forall|q: int| 0 <= q < before.len() && q != i implies #[trigger] self.rows()[q] == mid[q] by {}
                }
                count = count + 1;
            }
            i += 1;
        }
        proof {
            assert(before.take(before.len() as int) =~= before);
            assert(self.rows() =~= reset_stale(before, cutoff@, now@));
            assert forall|a: int, b: int| 0 <= a < b < self.rows().len() implies self.rows()[a].id
                < self.rows()[b].id by {
                assert(self.rows()[a].id == before[a].id);
                assert(self.rows()[b].id == before[b].id);
            }
            assert forall|q: int| 0 <= q < self.rows().len() implies 1 <= #[trigger] self.rows()[q].id
                < self.next_id by {
                assert(self.rows()[q].id == before[q].id);
            }
        }
        count
    }

    /// Whether the row with id `d` is completed.
    fn dependency_completed(&self, d: i64) -> (r: bool)
        requires
            self.wf(),
        ensures
            r == exists|k: int|
                0 <= k < self.rows().len() && self.rows()[k].id == d && self.rows()[k].status
                    == JobStatus::Completed,
    {
        match self.index_of(d) {
            Some(k) => {
                proof {
                    lemma_only_row(self.rows(), k as int);
                }
                assert(self.jobs[k as int]@ == self.rows()[k as int]);
                self.jobs[k].status == JobStatus::Completed
            },
            None => false,
        }
    }

    /// Whether the row at `i` is ready at `now`.
    fn ready_at(&self, i: usize, now: &str) -> (r: bool)
        requires
            self.wf(),
            i < self.rows().len(),
        ensures
            r == is_ready(self.rows(), self.rows()[i as int], now@),
    {
        proof {
            self.lemma_len_below_max();
        }
        assert(self.jobs[i as int]@ == self.rows()[i as int]);
        let j = &self.jobs[i];
        if j.status != JobStatus::Pending {
            return false;
        }
        match &j.next_retry_at {
            Some(at) => {
                if !str_le(at.as_str(), now) {
                    return false;
                }
            },
            None => {},
        }
        match j.depends_on {
            Some(d) => self.dependency_completed(d),
            None => true,
        }
    }

    /// The jobs ready at `now`, in id order, at most `limit` of them (all
    /// of them where `limit` is negative).
    pub fn get_ready_jobs(&self, limit: i64, now: &str) -> (r: Vec<SyncQueueJob>)
        requires
            self.wf(),
        ensures
            job_views(r@) == ready_jobs(self.rows(), now@, limit),
    {
        let ghost t = self.rows();
        proof {
            self.lemma_len_below_max();
        }
        let mut out: Vec<SyncQueueJob> = Vec::new();
        let mut i: usize = 0;
        while i < self.jobs.len()
            invariant
                self.wf(),
                t == self.rows(),
                self.jobs@.len() == t.len(),
                i <= t.len(),
                job_views(out@) == t.take(i as int).filter(ready_pred(t, now@)),
            decreases t.len() - i,
        {
            proof {
                assert(t.take(i + 1) =~= t.take(i as int).push(t[i as int]));
                t.take(i as int).lemma_filter_push(t[i as int], ready_pred(t, now@));
            }
            if self.ready_at(i, now) {
                let c = self.jobs[i].copy();
                let ghost prev = out@;
                out.push(c);
                proof {
                    assert(job_views(out@) =~= job_views(prev).push(c@));
                }
            }
            i += 1;
        }
        proof {
            assert(t.take(t.len() as int) =~= t);
        }
        if limit >= 0 && (limit as u64) < (out.len() as u64) {
            out.truncate(limit as usize);
            proof {
                assert(job_views(out@) =~= t.filter(ready_pred(t, now@)).take(limit as int));
            }
        }
        out
    }

    /// The summary of meeting `m`'s jobs, counted whether or not it has any.
    fn status_for(&self, m: &str) -> (r: MeetingSyncStatus)
        requires
            self.wf(),
        ensures
            r@ == status_of(self.rows(), m@),
    {
        let ghost t = self.rows();
        proof {
            self.lemma_len_below_max();
        }
        let mut total: i64 = 0;
        let mut pending: i64 = 0;
        let mut in_progress: i64 = 0;
        let mut completed: i64 = 0;
        let mut failed: i64 = 0;
        let mut i: usize = 0;
        while i < self.jobs.len()
            invariant
                t == self.rows(),
                self.jobs@.len() == t.len(),
                t.len() < i64::MAX,
                i <= t.len(),
                total as int == count_rows(t.take(i as int), m@, None),
                pending as int == count_rows(t.take(i as int), m@, Some(JobStatus::Pending)),
                in_progress as int == count_rows(t.take(i as int), m@, Some(JobStatus::InProgress)),
                completed as int == count_rows(t.take(i as int), m@, Some(JobStatus::Completed)),
                failed as int == count_rows(t.take(i as int), m@, Some(JobStatus::Failed)),
                total <= i,
                pending <= i,
                in_progress <= i,
                completed <= i,
                failed <= i,
            decreases t.len() - i,
        {
            assert(t.take(i + 1).drop_last() =~= t.take(i as int));
            assert(t.take(i + 1).last() == t[i as int]);
            assert(self.jobs[i as int]@ == t[i as int]);
            if str_eq(self.jobs[i].meeting_id.as_str(), m) {
                total = total + 1;
                match self.jobs[i].status {
                    JobStatus::Pending => {
                        pending = pending + 1;
                    },
                    JobStatus::InProgress => {
                        in_progress = in_progress + 1;
                    },
                    JobStatus::Completed => {
                        completed = completed + 1;
                    },
                    JobStatus::Failed => {
                        failed = failed + 1;
                    },
                }
            }
            i += 1;
        }
        assert(t.take(t.len() as int) =~= t);
        MeetingSyncStatus {
            meeting_id: copy_str(m),
            total_jobs: total,
            pending,
            in_progress,
            completed,
            failed,
        }
    }

    /// The summary of meeting `meeting_id`'s jobs, where it has any.
    pub fn get_meeting_sync_status(&self, meeting_id: &str) -> (r: Option<MeetingSyncStatus>)
        requires
            self.wf(),
        ensures
            match r {
                Some(st) => meeting_status(self.rows(), meeting_id@) == Some(st@),
                None => meeting_status(self.rows(), meeting_id@) is None,
            },
    {
        let st = self.status_for(meeting_id);
        if st.total_jobs == 0 {
            None
        } else {
            Some(st)
        }
    }

    /// The summaries of the meetings that have a pending, claimed or failed
    /// job, in the order of their first row.
    pub fn get_all_sync_statuses(&self) -> (r: Vec<MeetingSyncStatus>)
        requires
            self.wf(),
        ensures
            status_views(r@) == all_statuses(self.rows()),
    {
        let ghost t = self.rows();
        proof {
            self.lemma_len_below_max();
        }
        let mut ms: Vec<String> = Vec::new();
        let mut i: usize = 0;
        while i < self.jobs.len()
            invariant
                self.wf(),
                t == self.rows(),
                self.jobs@.len() == t.len(),
                i <= t.len(),
                views(ms@) == meetings_of(t.take(i as int)),
            decreases t.len() - i,
        {
            assert(t.take(i + 1).drop_last() =~= t.take(i as int));
            assert(t.take(i + 1).last() == t[i as int]);
            assert(self.jobs[i as int]@ == t[i as int]);
            if !contains_text(&ms, self.jobs[i].meeting_id.as_str()) {
                let m = copy_str(self.jobs[i].meeting_id.as_str());
                let ghost prev = ms@;
                ms.push(m);
                assert(views(ms@) =~= views(prev).push(m@));
            }
            i += 1;
        }
        assert(t.take(t.len() as int) =~= t);
        let ghost all = meetings_of(t);
        let mut out: Vec<MeetingSyncStatus> = Vec::new();
        let mut k: usize = 0;
        while k < ms.len()
            invariant
                self.wf(),
                t == self.rows(),
                views(ms@) == all,
                k <= ms@.len(),
                status_views(out@) == all.take(k as int).filter(open_pred(t)).map_values(
                    |m: Seq<char>| status_of(t, m),
                ),
            decreases ms@.len() - k,
        {
            proof {
                assert(all.take(k + 1) =~= all.take(k as int).push(all[k as int]));
                all.take(k as int).lemma_filter_push(all[k as int], open_pred(t));
            }
            assert(views(ms@)[k as int] == ms@[k as int]@);
            let st = self.status_for(ms[k].as_str());
            if st.pending > 0 || st.in_progress > 0 || st.failed > 0 {
                let ghost prev = out@;
                out.push(st);
                proof {
                    let f = |m: Seq<char>| status_of(t, m);
                    let before = all.take(k as int).filter(open_pred(t));
                    assert(before.push(all[k as int]).map_values(f) =~= before.map_values(f).push(
                        f(all[k as int]),
                    ));
                    assert(status_views(out@) =~= status_views(prev).push(st@));
                }
            }
            k += 1;
        }
        assert(all.take(all.len() as int) =~= all);
        out
    }

    /// Keeps the rows that `kind` with `x` retains and gives how many went.
    fn retain_rows(&mut self, kind: Retention, x: &str) -> (r: u64)
        requires
            old(self).wf(),
        ensures
            final(self).wf(),
            final(self).rows() == old(self).rows().filter(retain_pred(kind, x@)),
            r == old(self).rows().len() - final(self).rows().len(),
            final(self).next_row_id() == old(self).next_row_id(),
    {
        let ghost before = self.rows();
        let ghost p = retain_pred(kind, x@);
        proof {
            self.lemma_len_below_max();
        }
        let mut kept: Vec<SyncQueueJob> = Vec::new();
        let mut removed: u64 = 0;
        let mut i: usize = 0;
        while i < self.jobs.len()
            invariant
                before == self.rows(),
                p == retain_pred(kind, x@),
                self.jobs@.len() == before.len(),
                i <= before.len(),
                job_views(kept@) == before.take(i as int).filter(p),
                removed + kept@.len() == i,
            decreases before.len() - i,
        {
            proof {
                assert(before.take(i + 1) =~= before.take(i as int).push(before[i as int]));
                before.take(i as int).lemma_filter_push(before[i as int], p);
            }
            assert(self.jobs[i as int]@ == before[i as int]);
            let j = &self.jobs[i];
            let keep = match kind {
                Retention::NotOpenOf => !(str_eq(j.meeting_id.as_str(), x) && (j.status
                    == JobStatus::Pending || j.status == JobStatus::InProgress)),
                Retention::NotOf => !str_eq(j.meeting_id.as_str(), x),
                Retention::NotCompletedBy => !(j.status == JobStatus::Completed && match &j.completed_at {
                    Some(at) => str_le(at.as_str(), x),
                    None => false,
                }),
            };
            assert(keep == retains(kind, x@, before[i as int]));
            assert(p(before[i as int]) == retains(kind, x@, before[i as int]));
            if keep {
                let c = j.copy();
                let ghost prev = kept@;
                kept.push(c);
                assert(job_views(kept@) =~= job_views(prev).push(c@));
            } else {
                removed = removed + 1;
            }
            i += 1;
        }
        proof {
            assert(before.take(before.len() as int) =~= before);
            lemma_filter_ascending(before, p, 1, self.next_id as int);
        }
        self.jobs = kept;
        removed
    }

    /// Removes meeting `meeting_id`'s pending and claimed jobs and gives how
    /// many went; its completed and failed jobs stay.
    pub fn cancel_jobs_for_meeting(&mut self, meeting_id: &str) -> (r: u64)
        requires
            old(self).wf(),
        ensures
            final(self).wf(),
            final(self).rows() == old(self).rows().filter(kept_after_cancel(meeting_id@)),
            r == old(self).rows().len() - final(self).rows().len(),
            final(self).next_row_id() == old(self).next_row_id(),
    {
        assert(retain_pred(Retention::NotOpenOf, meeting_id@) =~= kept_after_cancel(meeting_id@));
        self.retain_rows(Retention::NotOpenOf, meeting_id)
    }

    /// Removes every job of meeting `meeting_id` and gives how many went.
    pub fn delete_by_meeting(&mut self, meeting_id: &str) -> (r: u64)
        requires
            old(self).wf(),
        ensures
            final(self).wf(),
            final(self).rows() == old(self).rows().filter(kept_after_delete(meeting_id@)),
            r == old(self).rows().len() - final(self).rows().len(),
            final(self).next_row_id() == old(self).next_row_id(),
    {
        assert(retain_pred(Retention::NotOf, meeting_id@) =~= kept_after_delete(meeting_id@));
        self.retain_rows(Retention::NotOf, meeting_id)
    }

    /// Removes the jobs completed at or before `cutoff` and gives how many
    /// went.
    pub fn cleanup_old_completed(&mut self, cutoff: &str) -> (r: u64)
        requires
            old(self).wf(),
        ensures
            final(self).wf(),
            final(self).rows() == old(self).rows().filter(kept_after_cleanup(cutoff@)),
            r == old(self).rows().len() - final(self).rows().len(),
            final(self).next_row_id() == old(self).next_row_id(),
    {
        assert(retain_pred(Retention::NotCompletedBy, cutoff@) =~= kept_after_cleanup(cutoff@));
        self.retain_rows(Retention::NotCompletedBy, cutoff)
    }

    /// The result of job `job_id`'s dependency: see `dependency_result`.
    pub fn get_dependency_result(&self, job_id: i64) -> (r: Option<String>)
        requires
            self.wf(),
        ensures
            opt_str(r) == dependency_result(self.rows(), job_id),
    {
        match self.index_of(job_id) {
            Some(k) => {
                proof {
                    lemma_row_of_at(self.rows(), k as int);
                }
                assert(self.jobs[k as int]@ == self.rows()[k as int]);
                match self.jobs[k].depends_on {
                    Some(d) => match self.index_of(d) {
                        Some(k2) => {
                            proof {
                                lemma_row_of_at(self.rows(), k2 as int);
                            }
                            assert(self.jobs[k2 as int]@ == self.rows()[k2 as int]);
                            copy_opt_string(&self.jobs[k2].result_data)
                        },
                        None => None,
                    },
                    None => None,
                }
            },
            None => None,
        }
    }

    /// The result of meeting `meeting_id`'s first completed job that
    /// finalizes its conversation, if there is one.
    pub fn get_completed_finalize_result(&self, meeting_id: &str) -> (r: Option<String>)
        requires
            self.wf(),
        ensures
            (forall|k: int| 0 <= k < self.rows().len() ==> !is_finalize_of(
                #[trigger] self.rows()[k],
                meeting_id@,
            )) ==> r is None,
            forall|k: int|
                0 <= k < self.rows().len() && is_finalize_of(#[trigger] self.rows()[k], meeting_id@)
                    && (forall|q: int| 0 <= q < k ==> !is_finalize_of(self.rows()[q], meeting_id@))
                    ==> opt_str(r) == self.rows()[k].result_data,
    {
        let ghost t = self.rows();
        proof {
            self.lemma_len_below_max();
        }
        let mut i: usize = 0;
        while i < self.jobs.len()
            invariant
                t == self.rows(),
                self.jobs@.len() == t.len(),
                i <= t.len(),
                forall|q: int| 0 <= q < i ==> !is_finalize_of(#[trigger] t[q], meeting_id@),
            decreases t.len() - i,
        {
            assert(self.jobs[i as int]@ == t[i as int]);
            let j = &self.jobs[i];
            if str_eq(j.meeting_id.as_str(), meeting_id) && str_eq(
                j.job_type.as_str(),
                "finalize_conversation",
            ) && j.status == JobStatus::Completed {
                proof {
                    assert(is_finalize_of(t[i as int], meeting_id@));
                    assert forall|k: int|
                        0 <= k < t.len() && is_finalize_of(#[trigger] t[k], meeting_id@) && (forall|
                            q: int,
                        | 0 <= q < k ==> !is_finalize_of(t[q], meeting_id@)) implies k == i by {
                        if k > i {
                            assert(!is_finalize_of(t[i as int], meeting_id@));
                        }
                    }
                }
                return copy_opt_string(&j.result_data);
            }
            i += 1;
        }
        None
    }
}


/// Enqueues a job with `DEFAULT_MAX_ATTEMPTS` attempts where the caller names
/// none.
pub fn sync_queue_enqueue(
    queue: &mut SyncQueueRepository,
    job_type: &str,
    meeting_id: &str,
    payload: &str,
    max_attempts: Option<i64>,
    depends_on: Option<i64>,
    now: &str,
) -> (r: Result<i64, SyncQueueError>)
    requires
        old(queue).wf(),
    ensures
        final(queue).wf(),
        old(queue).next_row_id() < i64::MAX ==> {
            &&& r == Ok::<i64, SyncQueueError>(old(queue).next_row_id() as i64)
            &&& final(queue).rows() == old(queue).rows().push(
                new_job(
                    old(queue).next_row_id() as i64,
                    job_type@,
                    meeting_id@,
                    payload@,
                    match max_attempts {
                        Some(n) => n,
                        None => DEFAULT_MAX_ATTEMPTS,
                    },
                    depends_on,
                    now@,
                ),
            )
            &&& final(queue).next_row_id() == old(queue).next_row_id() + 1
        },
        old(queue).next_row_id() == i64::MAX ==> {
            &&& r == Err::<i64, SyncQueueError>(SyncQueueError::IdsExhausted)
            &&& final(queue).rows() == old(queue).rows()
            &&& final(queue).next_row_id() == old(queue).next_row_id()
        },
{
    let attempts = match max_attempts {
        Some(n) => n,
        None => DEFAULT_MAX_ATTEMPTS,
    };
    queue.enqueue(job_type, meeting_id, payload, attempts, depends_on, now)
}

/// The jobs ready at `now`, at most `DEFAULT_READY_LIMIT` of them where the
/// caller names no limit.
pub fn sync_queue_get_ready_jobs(queue: &SyncQueueRepository, limit: Option<i64>, now: &str) -> (r:
    Vec<SyncQueueJob>)
    requires
        queue.wf(),
    ensures
        job_views(r@) == ready_jobs(
            queue.rows(),
            now@,
            match limit {
                Some(n) => n,
                None => DEFAULT_READY_LIMIT,
            },
        ),
{
    let n = match limit {
        Some(n) => n,
        None => DEFAULT_READY_LIMIT,
    };
    queue.get_ready_jobs(n, now)
}


proof fn lemma_meetings_of_contains(t: Seq<JobView>, m: Seq<char>)
    requires
        count_rows(t, m, None) > 0,
    ensures
        meetings_of(t).contains(m),
    decreases t.len(),
{
    let init = t.drop_last();
    let r = meetings_of(init);
    if count_rows(init, m, None) > 0 {
        lemma_meetings_of_contains(init, m);
        if !r.contains(t.last().meeting_id) {
            let q = choose|q: int| 0 <= q < r.len() && r[q] == m;
            assert(r.push(t.last().meeting_id)[q] == m);
        }
    } else {
        assert(t.last().meeting_id == m);
        if !r.contains(m) {
            assert(r.push(m)[r.len() as int] == m);
        }
    }
}

proof fn lemma_count_some_le_all(t: Seq<JobView>, m: Seq<char>, st: JobStatus)
    ensures
        count_rows(t, m, Some(st)) <= count_rows(t, m, None),
    decreases t.len(),
{
    if t.len() > 0 {
        lemma_count_some_le_all(t.drop_last(), m, st);
    }
}

/// Every meeting with a pending, claimed (in progress) or failed job is
/// listed among all the statuses, with its own counts.
pub proof fn meetings_with_open_jobs_are_listed(t: Seq<JobView>, m: Seq<char>)
    requires
        count_rows(t, m, Some(JobStatus::Pending)) > 0 || count_rows(
            t,
            m,
            Some(JobStatus::InProgress),
        ) > 0 || count_rows(t, m, Some(JobStatus::Failed)) > 0,
    ensures
        exists|k: int|
            0 <= k < all_statuses(t).len() && #[trigger] all_statuses(t)[k] == status_of(t, m),
        status_of(t, m).meeting_id == m,
{
    lemma_count_some_le_all(t, m, JobStatus::Pending);
    lemma_count_some_le_all(t, m, JobStatus::InProgress);
    lemma_count_some_le_all(t, m, JobStatus::Failed);
    lemma_meetings_of_contains(t, m);
    let ms = meetings_of(t);
    let q = choose|q: int| 0 <= q < ms.len() && ms[q] == m;
    ms.lemma_filter_contains(open_pred(t), q);
    let f = ms.filter(open_pred(t));
    let k = choose|k: int| 0 <= k < f.len() && f[k] == m;
    assert(all_statuses(t)[k] == status_of(t, f[k]));
}

/// Once job `id` is claimed, claiming it again takes nothing: no job is
/// processed twice at once.
pub proof fn claim_is_exclusive(t: Seq<JobView>, id: i64, now: Seq<char>)
    ensures
        !claimable(claimed(t, id, now), id),
{
    let c = claimed(t, id, now);
    assert forall|k: int| 0 <= k < c.len() && c[k].id == id implies c[k].status
        != JobStatus::Pending by {
        assert(c[k] == if t[k].id == id && t[k].status == JobStatus::Pending {
            JobView { status: JobStatus::InProgress, updated_at: now, ..t[k] }
        } else {
            t[k]
        });
    }
}

/// A failed attempt that uses up a job's attempts fails it for good: it has
/// no retry time and is never ready again. One that does not leaves it
/// pending until the retry time given.
pub proof fn failure_uses_up_attempts(
    t: Seq<JobView>,
    id: i64,
    error: Seq<char>,
    next_retry_at: Option<Seq<char>>,
    now: Seq<char>,
    later: Seq<char>,
    k: int,
)
    requires
        0 <= k < t.len(),
        t[k].id == id,
    ensures
        exhausted(t[k]) ==> {
            let f = failed(t, id, error, next_retry_at, now);
            &&& f[k].status == JobStatus::Failed
            &&& f[k].next_retry_at is None
            &&& !is_ready(f, f[k], later)
        },
        !exhausted(t[k]) ==> {
            let f = failed(t, id, error, next_retry_at, now);
            &&& f[k].status == JobStatus::Pending
            &&& f[k].next_retry_at == next_retry_at
            &&& f[k].last_error == Some(error)
        },
{
}

/// Every job handed out as ready is pending, past its retry time, and has
/// its dependency completed.
pub proof fn ready_jobs_are_runnable(t: Seq<JobView>, now: Seq<char>, limit: i64)
    ensures
        forall|i: int|
            0 <= i < ready_jobs(t, now, limit).len() ==> is_ready(
                t,
                #[trigger] ready_jobs(t, now, limit)[i],
                now,
            ),
{
    let all = t.filter(ready_pred(t, now));
    assert forall|i: int|
        0 <= i < ready_jobs(t, now, limit).len() implies is_ready(
        t,
        #[trigger] ready_jobs(t, now, limit)[i],
        now,
    ) by {
        assert(ready_jobs(t, now, limit)[i] == all[i]);
        t.lemma_filter_pred(ready_pred(t, now), i);
    }
}

/// A meeting's job count is the sum of its pending, claimed, completed and
/// failed jobs.
pub proof fn status_counts_add_up(t: Seq<JobView>, m: Seq<char>)
    ensures
        count_rows(t, m, None) == count_rows(t, m, Some(JobStatus::Pending)) + count_rows(
            t,
            m,
            Some(JobStatus::InProgress),
        ) + count_rows(t, m, Some(JobStatus::Completed)) + count_rows(
            t,
            m,
            Some(JobStatus::Failed),
        ),
    decreases t.len(),
{
    if t.len() > 0 {
        status_counts_add_up(t.drop_last(), m);
    }
}

/// A job just enqueued is found by its id, as it was written.
pub proof fn enqueued_job_is_found(
    t: Seq<JobView>,
    id: i64,
    job_type: Seq<char>,
    meeting_id: Seq<char>,
    payload: Seq<char>,
    max_attempts: i64,
    depends_on: Option<i64>,
    now: Seq<char>,
)
    requires
        forall|k: int| 0 <= k < t.len() ==> #[trigger] t[k].id < id,
    ensures
        ({
            let j = new_job(id, job_type, meeting_id, payload, max_attempts, depends_on, now);
            has_row(t.push(j), id) && row_of(t.push(j), id) == j
        }),
{
    let j = new_job(id, job_type, meeting_id, payload, max_attempts, depends_on, now);
    let u = t.push(j);
    assert(u[t.len() as int].id == id);
    let c = choose|c: int| 0 <= c < u.len() && u[c].id == id;
    if c < t.len() {
        assert(u[c] == t[c]);
    }
}

/// Cancelling a meeting's jobs leaves it no pending or claimed job and keeps
/// its completed and failed ones.
pub proof fn cancel_keeps_finished_jobs(t: Seq<JobView>, m: Seq<char>)
    ensures
        count_rows(t.filter(kept_after_cancel(m)), m, Some(JobStatus::Pending)) == 0,
        count_rows(t.filter(kept_after_cancel(m)), m, Some(JobStatus::InProgress)) == 0,
        count_rows(t.filter(kept_after_cancel(m)), m, Some(JobStatus::Completed)) == count_rows(
            t,
            m,
            Some(JobStatus::Completed),
        ),
        count_rows(t.filter(kept_after_cancel(m)), m, Some(JobStatus::Failed)) == count_rows(
            t,
            m,
            Some(JobStatus::Failed),
        ),
    decreases t.len(),
{
    if t.len() > 0 {
        let init = t.drop_last();
        let x = t.last();
        let p = kept_after_cancel(m);
        assert(init.push(x) =~= t);
        cancel_keeps_finished_jobs(init, m);
        init.lemma_filter_push(x, p);
        let f = init.filter(p);
        assert(f.push(x).drop_last() =~= f);
    }
}

/// After stale claims are reset, no claimed job is left whose last change
/// is at or before the cutoff.
pub proof fn reset_leaves_no_stale_claim(t: Seq<JobView>, cutoff: Seq<char>, now: Seq<char>)
    ensures
        forall|k: int|
            0 <= k < t.len() ==> !is_stale(#[trigger] reset_stale(t, cutoff, now)[k], cutoff),
{
    assert forall|k: int| 0 <= k < t.len() implies !is_stale(
        #[trigger] reset_stale(t, cutoff, now)[k],
        cutoff,
    ) by {
        assert(reset_stale(t, cutoff, now)[k] == unclaimed(t[k], cutoff, now));
    }
}

} // verus!
