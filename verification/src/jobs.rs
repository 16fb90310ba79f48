//! The embedding job queue: one job per document, debounced by the time its
//! latest update was received, retried once after a failure, and kept as
//! failed after a second failure until the document is submitted again.
//!
//! The program around the library stores the rows in SQLite; every change of
//! the queue is decided here.

use vstd::prelude::*;

use crate::storage::opt_text;
use crate::text::{chars_eq, chars_of};

verus! {

/// The state of an embedding job.
#[derive(Clone, Copy, Debug, PartialEq, Eq, Structural)]
pub enum JobStatus {
    /// Waiting to be claimed.
    Pending,
    /// Claimed by the worker.
    Running,
    /// Failed twice; waits for the document to be submitted again.
    Failed,
}

impl JobStatus {
    /// The status as it is stored.
    pub open spec fn text(self) -> Seq<char> {
        match self {
            JobStatus::Pending => "pending"@,
            JobStatus::Running => "running"@,
            JobStatus::Failed => "failed"@,
        }
    }

    /// The status as it is stored.
    pub fn as_str(&self) -> (r: &'static str)
        ensures
            r@ == self.text(),
    {
        match self {
            JobStatus::Pending => "pending",
            JobStatus::Running => "running",
            JobStatus::Failed => "failed",
        }
    }

    /// The status stored as `text`, if it names one.
    pub fn parse(text: &str) -> (r: Option<JobStatus>)
        ensures
            match r {
                Some(s) => s.text() == text@,
                None => forall|s: JobStatus| s.text() != text@,
            },
    {
        let t = chars_of(text);
        if chars_eq(t.as_slice(), chars_of("pending").as_slice()) {
            Some(JobStatus::Pending)
        } else if chars_eq(t.as_slice(), chars_of("running").as_slice()) {
            Some(JobStatus::Running)
        } else if chars_eq(t.as_slice(), chars_of("failed").as_slice()) {
            Some(JobStatus::Failed)
        } else {
            None
        }
    }
}

/// A stored job.
#[derive(Debug)]
pub struct JobRow {
    /// Papra document identifier; one job per document.
    pub document_id: String,
    /// Time the latest update of the document was received, or the time of its retry.
    pub received_at: String,
    pub status: JobStatus,
    /// Failed attempts since the last update.
    pub attempts: i64,
    pub last_error: Option<String>,
}

/// The value of a stored job, without its document identifier.
pub struct JobRecord {
    pub received_at: Seq<char>,
    pub status: JobStatus,
    pub attempts: int,
    pub last_error: Option<Seq<char>>,
}

/// The value of a stored job.
pub open spec fn record_of(r: JobRow) -> JobRecord {
    JobRecord {
        received_at: r.received_at@,
        status: r.status,
        attempts: r.attempts as int,
        last_error: opt_text(r.last_error),
    }
}

/// The jobs of a table of rows, by document.
pub open spec fn rows_map(rows: Seq<JobRow>) -> Map<Seq<char>, JobRecord>
    decreases rows.len(),
{
    if rows.len() == 0 {
        Map::empty()
    } else {
        rows_map(rows.drop_last()).insert(rows.last().document_id@, record_of(rows.last()))
    }
}

/// No document has two rows.
pub open spec fn unique_ids(rows: Seq<JobRow>) -> bool {
    forall|i: int, j: int|
        0 <= i < rows.len() && 0 <= j < rows.len() && i != j ==> rows[i].document_id@
            != rows[j].document_id@
}

/// Every job that can still fail can count one more attempt.
pub open spec fn attempts_bounded(rows: Seq<JobRow>) -> bool {
    forall|i: int|
        0 <= i < rows.len() && rows[i].status != JobStatus::Failed ==> #[trigger] rows[i].attempts
            < i64::MAX
}

/// Persisted embedding job state, as handed to the worker.
#[derive(Debug)]
pub struct EmbeddingJob {
    /// Papra document identifier.
    pub document_id: String,
    /// Timestamp of the latest enqueue operation.
    pub received_at: String,
    /// Number of attempts already made.
    pub attempts: i64,
}

/// Whether `a` sorts before or equal to `b`: character codes compared left to
/// right, a prefix first. This is how SQLite compares UTF-8 text.
pub open spec fn text_le(a: Seq<char>, b: Seq<char>) -> bool
    decreases a.len(),
{
    if a.len() == 0 {
        true
    } else if b.len() == 0 {
        false
    } else if (a[0] as u32) < (b[0] as u32) {
        true
    } else if (a[0] as u32) > (b[0] as u32) {
        false
    } else {
        text_le(a.drop_first(), b.drop_first())
    }
}

/// Any two texts are ordered one way or the other.
pub proof fn lemma_text_le_total(a: Seq<char>, b: Seq<char>)
    ensures
        text_le(a, b) || text_le(b, a),
    decreases a.len(),
{
    if a.len() > 0 && b.len() > 0 && a[0] as u32 == b[0] as u32 {
        lemma_text_le_total(a.drop_first(), b.drop_first());
    }
}

/// The order of texts is transitive.
pub proof fn lemma_text_le_transitive(a: Seq<char>, b: Seq<char>, c: Seq<char>)
    requires
        text_le(a, b),
        text_le(b, c),
    ensures
        text_le(a, c),
    decreases a.len(),
{
    if a.len() > 0 && b.len() > 0 && c.len() > 0 && a[0] as u32 == b[0] as u32 && b[0] as u32
        == c[0] as u32 {
        lemma_text_le_transitive(a.drop_first(), b.drop_first(), c.drop_first());
    }
}

/// Whether `a` sorts before or equal to `b`.
pub fn text_le_chars(a: &[char], b: &[char]) -> (r: bool)
    ensures
        r == text_le(a@, b@),
{
    let mut i: usize = 0;
    assert(a@.skip(0) =~= a@);
    assert(b@.skip(0) =~= b@);
    while i < a.len() && i < b.len()
        invariant
            i <= a@.len(),
            i <= b@.len(),
            text_le(a@, b@) == text_le(a@.skip(i as int), b@.skip(i as int)),
        decreases a@.len() - i,
    {
        let x = a[i] as u32;
        let y = b[i] as u32;
        assert(a@.skip(i as int)[0] == a@[i as int]);
        assert(b@.skip(i as int)[0] == b@[i as int]);
        if x < y {
            return true;
        }
        if x > y {
            return false;
        }
        assert(a@.skip(i as int).drop_first() =~= a@.skip(i + 1));
        assert(b@.skip(i as int).drop_first() =~= b@.skip(i + 1));
        i = i + 1;
    }
    i == a.len()
}

/// The table holds exactly the documents of its rows.
pub proof fn lemma_rows_map_contains(rows: Seq<JobRow>, k: Seq<char>)
    ensures
        rows_map(rows).contains_key(k) <==> exists|i: int|
            0 <= i < rows.len() && #[trigger] rows[i].document_id@ == k,
    decreases rows.len(),
{
    if rows.len() > 0 {
        let t = rows.drop_last();
        lemma_rows_map_contains(t, k);
        if rows_map(rows).contains_key(k) && rows.last().document_id@ != k {
            let i = choose|i: int| 0 <= i < t.len() && #[trigger] t[i].document_id@ == k;
            assert(rows[i] == t[i]);
        }
        if exists|i: int| 0 <= i < rows.len() && #[trigger] rows[i].document_id@ == k {
            let i = choose|i: int| 0 <= i < rows.len() && #[trigger] rows[i].document_id@ == k;
            if i < rows.len() - 1 {
                assert(t[i] == rows[i]);
            }
        }
    }
}

/// With one row per document, the job of a row's document is that row.
pub proof fn lemma_rows_map_index(rows: Seq<JobRow>, i: int)
    requires
        unique_ids(rows),
        0 <= i < rows.len(),
    ensures
        rows_map(rows).contains_key(rows[i].document_id@),
        rows_map(rows)[rows[i].document_id@] == record_of(rows[i]),
    decreases rows.len(),
{
    if i < rows.len() - 1 {
        let t = rows.drop_last();
        assert(t[i] == rows[i]);
        lemma_rows_map_index(t, i);
    }
}

/// Replacing the row of a document replaces its job.
pub proof fn lemma_rows_map_update(rows: Seq<JobRow>, i: int, row: JobRow)
    requires
        unique_ids(rows),
        0 <= i < rows.len(),
        row.document_id@ == rows[i].document_id@,
    ensures
        unique_ids(rows.update(i, row)),
        rows_map(rows.update(i, row)) == rows_map(rows).insert(row.document_id@, record_of(row)),
{
    let u = rows.update(i, row);
    assert(unique_ids(u)) by {
        assert forall|a: int, b: int|
            0 <= a < u.len() && 0 <= b < u.len() && a != b implies u[a].document_id@
            != u[b].document_id@ by {
            assert(u[a].document_id@ == rows[a].document_id@);
            assert(u[b].document_id@ == rows[b].document_id@);
        }
    }
    let m = rows_map(rows).insert(row.document_id@, record_of(row));
    assert forall|k: Seq<char>| #[trigger] rows_map(u).contains_key(k) <==> m.contains_key(k) by {
        lemma_rows_map_contains(u, k);
        lemma_rows_map_contains(rows, k);
        if k == row.document_id@ {
            assert(u[i].document_id@ == k);
            assert(rows[i].document_id@ == k);
        } else if m.contains_key(k) {
            let j = choose|j: int| 0 <= j < rows.len() && #[trigger] rows[j].document_id@ == k;
            assert(u[j].document_id@ == k);
        }
        if rows_map(u).contains_key(k) {
            let j = choose|j: int| 0 <= j < u.len() && #[trigger] u[j].document_id@ == k;
            if j != i {
                assert(rows[j].document_id@ == k);
            }
        }
    }
    assert forall|k: Seq<char>| #[trigger] rows_map(u).contains_key(k) implies rows_map(u)[k]
        == m[k] by {
        lemma_rows_map_contains(u, k);
        let j = choose|j: int| 0 <= j < u.len() && #[trigger] u[j].document_id@ == k;
        lemma_rows_map_index(u, j);
        if j != i {
            assert(u[j] == rows[j]);
            lemma_rows_map_index(rows, j);
        }
    }
    assert(rows_map(u) =~= m);
}

/// Removing the row of a document removes its job.
pub proof fn lemma_rows_map_remove(rows: Seq<JobRow>, i: int)
    requires
        unique_ids(rows),
        0 <= i < rows.len(),
    ensures
        unique_ids(rows.remove(i)),
        rows_map(rows.remove(i)) == rows_map(rows).remove(rows[i].document_id@),
{
    let u = rows.remove(i);
    let gone = rows[i].document_id@;
    assert forall|a: int| 0 <= a < u.len() implies #[trigger] u[a] == rows[if a < i {
        a
    } else {
        a + 1
    }] by {}
    assert(unique_ids(u)) by {
        assert forall|a: int, b: int|
            0 <= a < u.len() && 0 <= b < u.len() && a != b implies u[a].document_id@
            != u[b].document_id@ by {
            let ia = if a < i {
                a
            } else {
                a + 1
            };
            let ib = if b < i {
                b
            } else {
                b + 1
            };
            assert(u[a] == rows[ia]);
            assert(u[b] == rows[ib]);
        }
    }
    let m = rows_map(rows).remove(gone);
    assert forall|k: Seq<char>| #[trigger] rows_map(u).contains_key(k) <==> m.contains_key(k) by {
        lemma_rows_map_contains(u, k);
        lemma_rows_map_contains(rows, k);
        if m.contains_key(k) {
            let j = choose|j: int| 0 <= j < rows.len() && #[trigger] rows[j].document_id@ == k;
            assert(j != i);
            let ju = if j < i {
                j
            } else {
                j - 1
            };
            assert(u[ju] == rows[j]);
        }
        if rows_map(u).contains_key(k) {
            let j = choose|j: int| 0 <= j < u.len() && #[trigger] u[j].document_id@ == k;
            let jr = if j < i {
                j
            } else {
                j + 1
            };
            assert(u[j] == rows[jr]);
            assert(jr != i);
        }
    }
    assert forall|k: Seq<char>| #[trigger] rows_map(u).contains_key(k) implies rows_map(u)[k]
        == m[k] by {
        lemma_rows_map_contains(u, k);
        let j = choose|j: int| 0 <= j < u.len() && #[trigger] u[j].document_id@ == k;
        let jr = if j < i {
            j
        } else {
            j + 1
        };
        assert(u[j] == rows[jr]);
        lemma_rows_map_index(u, j);
        lemma_rows_map_index(rows, jr);
    }
    assert(rows_map(u) =~= m);
}


impl Clone for EmbeddingJob {
    fn clone(&self) -> (r: Self)
        ensures
            r.document_id@ == self.document_id@,
            r.received_at@ == self.received_at@,
            r.attempts == self.attempts,
    {
        EmbeddingJob {
            document_id: self.document_id.clone(),
            received_at: self.received_at.clone(),
            attempts: self.attempts,
        }
    }
}

/// The jobs after an update of `doc` received at `at`: a new job is pending;
/// a pending or failed job becomes pending again with no attempts; a running
/// job stays running and keeps its attempts. The error is cleared.
pub open spec fn enqueue_spec(jobs: Map<Seq<char>, JobRecord>, doc: Seq<char>, at: Seq<char>) -> Map<
    Seq<char>,
    JobRecord,
> {
    let running = jobs.contains_key(doc) && jobs[doc].status == JobStatus::Running;
    jobs.insert(
        doc,
        JobRecord {
            received_at: at,
            status: if running {
                JobStatus::Running
            } else {
                JobStatus::Pending
            },
            attempts: if running {
                jobs[doc].attempts
            } else {
                0
            },
            last_error: None,
        },
    )
}

/// Whether a job may be claimed by a worker looking for jobs received no later
/// than `before`.
pub open spec fn claimable(job: JobRecord, before: Seq<char>) -> bool {
    job.status == JobStatus::Pending && text_le(job.received_at, before)
}

/// The jobs once `doc` is claimed: it is running.
pub open spec fn start_spec(jobs: Map<Seq<char>, JobRecord>, doc: Seq<char>) -> Map<Seq<char>, JobRecord> {
    jobs.insert(doc, JobRecord { status: JobStatus::Running, ..jobs[doc] })
}

/// The jobs once the worker finished the job of `doc` it claimed when the job
/// was received at `received_at`: the job is done, unless an update arrived
/// while it ran, in which case it is pending again with no attempts.
pub open spec fn finish_spec(
    jobs: Map<Seq<char>, JobRecord>,
    doc: Seq<char>,
    received_at: Seq<char>,
) -> Map<Seq<char>, JobRecord> {
    if jobs.contains_key(doc) && jobs[doc].status == JobStatus::Running {
        if jobs[doc].received_at == received_at {
            jobs.remove(doc)
        } else {
            jobs.insert(
                doc,
                JobRecord { status: JobStatus::Pending, attempts: 0, last_error: None, ..jobs[doc] },
            )
        }
    } else {
        jobs
    }
}

/// The jobs once the worker failed the job of `doc` it claimed when the job
/// was received at `received_at`: a job updated while it ran is pending again,
/// due at `retry_at`, with no attempts; otherwise a first failure is retried at
/// `retry_at` and a later one leaves the job failed. The error is recorded.
pub open spec fn fail_spec(
    jobs: Map<Seq<char>, JobRecord>,
    doc: Seq<char>,
    received_at: Seq<char>,
    error: Seq<char>,
    retry_at: Seq<char>,
) -> Map<Seq<char>, JobRecord> {
    if jobs.contains_key(doc) && jobs[doc].status == JobStatus::Running {
        let job = jobs[doc];
        let updated = job.received_at != received_at;
        jobs.insert(
            doc,
            JobRecord {
                status: if updated || job.attempts < 1 {
                    JobStatus::Pending
                } else {
                    JobStatus::Failed
                },
                received_at: if updated || job.attempts < 1 {
                    retry_at
                } else {
                    job.received_at
                },
                attempts: if updated {
                    0
                } else {
                    job.attempts + 1
                },
                last_error: Some(error),
            },
        )
    } else {
        jobs
    }
}

/// How often the worker looks for a job to embed, in seconds.
pub const POLL_SECONDS: u64 = 60;

/// How long a job waits after the latest update of its document before the
/// worker may claim it, in seconds.
pub const DEBOUNCE_SECONDS: i64 = 60;

/// How long a failed job waits before its retry, in seconds.
pub const RETRY_SECONDS: u64 = 60;

/// What becomes of a claimed job after the worker ran it: finished on
/// success; on failure, the error is recorded and the job retried at
/// `retry_at` (or left failed after its second failure).
pub open spec fn complete_spec(
    jobs: Map<Seq<char>, JobRecord>,
    doc: Seq<char>,
    received_at: Seq<char>,
    outcome: Result<(), Seq<char>>,
    retry_at: Seq<char>,
) -> Map<Seq<char>, JobRecord> {
    match outcome {
        Ok(()) => finish_spec(jobs, doc, received_at),
        Err(error) => fail_spec(jobs, doc, received_at, error, retry_at),
    }
}

/// The embedding jobs, one per document.
pub struct JobQueue {
    rows: Vec<JobRow>,
}

impl JobQueue {
    #[verifier::type_invariant]
    spec fn well_formed(self) -> bool {
        unique_ids(self.rows@) && attempts_bounded(self.rows@)
    }
}

impl View for JobQueue {
    type V = Map<Seq<char>, JobRecord>;

    closed spec fn view(&self) -> Map<Seq<char>, JobRecord> {
        rows_map(self.rows@)
    }
}

/// A copy of a string.
fn copy_str(s: &str) -> (r: String)
    ensures
        r@ == s@,
{
    s.to_owned()
}

impl JobQueue {
    /// An empty queue.
    pub fn new() -> (q: JobQueue)
        ensures
            q@ == Map::<Seq<char>, JobRecord>::empty(),
    {
        JobQueue { rows: Vec::new() }
    }

    /// The queue stored as `rows`, when no document has two rows and no job that
    /// can still fail has reached the largest count of attempts.
    pub fn from_rows(rows: Vec<JobRow>) -> (r: Option<JobQueue>)
        ensures
            match r {
                Some(q) => q@ == rows_map(rows@),
                None => !(unique_ids(rows@) && attempts_bounded(rows@)),
            },
    {
        let n = rows.len();
        let mut i: usize = 0;
        while i < n
            invariant
                i <= n == rows@.len(),
                forall|a: int, b: int|
                    0 <= a < i && 0 <= b < n && a != b ==> rows@[a].document_id@
                        != rows@[b].document_id@,
                forall|a: int|
                    0 <= a < i && rows@[a].status != JobStatus::Failed ==> #[trigger] rows@[a].attempts
                        < i64::MAX,
            decreases n - i,
        {
            if rows[i].status != JobStatus::Failed && rows[i].attempts == i64::MAX {
                return None;
            }
            let id_i = chars_of(rows[i].document_id.as_str());
            let mut j: usize = 0;
            while j < n
                invariant
                    i < n == rows@.len(),
                    j <= n,
                    id_i@ == rows@[i as int].document_id@,
                    forall|b: int| 0 <= b < j && b != i ==> rows@[i as int].document_id@
                        != rows@[b].document_id@,
                decreases n - j,
            {
                if j != i && chars_eq(id_i.as_slice(), chars_of(rows[j].document_id.as_str()).as_slice()) {
                    return None;
                }
                j = j + 1;
            }
            i = i + 1;
        }
        Some(JobQueue { rows })
    }

    /// Replaces the row at `i` by a row of the same document.
    fn replace_row(&mut self, i: usize, row: JobRow)
        requires
            i < old(self).rows@.len(),
            unique_ids(old(self).rows@.update(i as int, row)),
            attempts_bounded(old(self).rows@.update(i as int, row)),
        ensures
            final(self).rows@ == old(self).rows@.update(i as int, row),
    {
        let mut rows: Vec<JobRow> = Vec::new();
        std::mem::swap(&mut rows, &mut self.rows);
        rows.set(i, row);
        self.rows = rows;
    }

    /// Adds a row.
    fn push_row(&mut self, row: JobRow)
        requires
            unique_ids(old(self).rows@.push(row)),
            attempts_bounded(old(self).rows@.push(row)),
        ensures
            final(self).rows@ == old(self).rows@.push(row),
    {
        let mut rows: Vec<JobRow> = Vec::new();
        std::mem::swap(&mut rows, &mut self.rows);
        rows.push(row);
        self.rows = rows;
    }

    /// Removes the row at `i`.
    fn remove_row(&mut self, i: usize)
        requires
            i < old(self).rows@.len(),
            unique_ids(old(self).rows@.remove(i as int)),
            attempts_bounded(old(self).rows@.remove(i as int)),
        ensures
            final(self).rows@ == old(self).rows@.remove(i as int),
    {
        let mut rows: Vec<JobRow> = Vec::new();
        std::mem::swap(&mut rows, &mut self.rows);
        rows.remove(i);
        self.rows = rows;
    }

    /// The rows of the queue, one per document.
    pub fn rows(&self) -> (r: &Vec<JobRow>)
        ensures
            rows_map(r@) == self@,
            unique_ids(r@),
    {
        proof {
            use_type_invariant(self);
        }
        &self.rows
    }

    /// The index of the row of `doc`.
    fn position(&self, doc: &[char]) -> (r: Option<usize>)
        ensures
            match r {
                Some(i) => i < self.rows@.len() && self.rows@[i as int].document_id@ == doc@,
                None => !self@.contains_key(doc@),
            },
    {
        let mut i: usize = 0;
        while i < self.rows.len()
            invariant
                i <= self.rows@.len(),
                forall|k: int| 0 <= k < i ==> #[trigger] self.rows@[k].document_id@ != doc@,
            decreases self.rows@.len() - i,
        {
            if chars_eq(chars_of(self.rows[i].document_id.as_str()).as_slice(), doc) {
                return Some(i);
            }
            i = i + 1;
        }
        proof {
            lemma_rows_map_contains(self.rows@, doc@);
        }
        None
    }

    /// The job of `document_id`.
    pub fn get(&self, document_id: &str) -> (r: Option<&JobRow>)
        ensures
            match r {
                Some(row) => self@.contains_key(document_id@) && self@[document_id@] == record_of(*row)
                    && row.document_id@ == document_id@,
                None => !self@.contains_key(document_id@),
            },
    {
        proof {
            use_type_invariant(self);
        }
        match self.position(chars_of(document_id).as_slice()) {
            Some(i) => {
                proof {
                    lemma_rows_map_index(self.rows@, i as int);
                }
                Some(&self.rows[i])
            },
            None => None,
        }
    }

    /// Enqueues or refreshes a document's embedding job.
    pub fn enqueue_embedding(&mut self, document_id: &str, received_at: &str)
        ensures
            final(self)@ == enqueue_spec(old(self)@, document_id@, received_at@),
    {
        proof {
            use_type_invariant(&*self);
        }
        match self.position(chars_of(document_id).as_slice()) {
            Some(i) => {
                let running = self.rows[i].status == JobStatus::Running;
                let attempts = if running {
                    self.rows[i].attempts
                } else {
                    0
                };
                let row = JobRow {
                    document_id: copy_str(document_id),
                    received_at: copy_str(received_at),
                    status: if running {
                        JobStatus::Running
                    } else {
                        JobStatus::Pending
                    },
                    attempts,
                    last_error: None,
                };
                proof {
                    lemma_rows_map_index(self.rows@, i as int);
                    lemma_rows_map_update(self.rows@, i as int, row);
                }
                self.replace_row(i, row);
            },
            None => {
                let row = JobRow {
                    document_id: copy_str(document_id),
                    received_at: copy_str(received_at),
                    status: JobStatus::Pending,
                    attempts: 0,
                    last_error: None,
                };
                proof {
                    let s = self.rows@;
                    assert forall|k: int| 0 <= k < s.len() implies #[trigger] s[k].document_id@
                        != document_id@ by {
                        lemma_rows_map_contains(s, document_id@);
                    }
                    assert(s.push(row).drop_last() =~= s);
                }
                self.push_row(row);
            },
        }
    }

    /// Claims the oldest pending job received no later than `before`: when
    /// several are equally old, one of them.
    pub fn claim_embedding_job(&mut self, before: &str) -> (r: Option<EmbeddingJob>)
        ensures
            match r {
                Some(job) => {
                    &&& old(self)@.contains_key(job.document_id@)
                    &&& claimable(old(self)@[job.document_id@], before@)
                    &&& forall|k: Seq<char>|
                        old(self)@.contains_key(k) && claimable(#[trigger] old(self)@[k], before@)
                            ==> text_le(old(self)@[job.document_id@].received_at, old(self)@[k].received_at)
                    &&& job.received_at@ == old(self)@[job.document_id@].received_at
                    &&& job.attempts == old(self)@[job.document_id@].attempts
                    &&& final(self)@ == start_spec(old(self)@, job.document_id@)
                },
                None => {
                    &&& forall|k: Seq<char>|
                        old(self)@.contains_key(k) ==> !claimable(#[trigger] old(self)@[k], before@)
                    &&& final(self)@ == old(self)@
                },
            },
    {
        proof {
            use_type_invariant(&*self);
        }
        let b = chars_of(before);
        let n = self.rows.len();
        let mut best: Option<usize> = None;
        let mut i: usize = 0;
        while i < n
            invariant
                i <= n == self.rows@.len(),
                b@ == before@,
                match best {
                    Some(x) => x < i && claimable(record_of(self.rows@[x as int]), before@) && forall|
                        k: int,
                    |
                        0 <= k < i && claimable(record_of(#[trigger] self.rows@[k]), before@)
                            ==> text_le(self.rows@[x as int].received_at@, self.rows@[k].received_at@),
                    None => forall|k: int|
                        0 <= k < i ==> !claimable(record_of(#[trigger] self.rows@[k]), before@),
                },
            decreases n - i,
        {
            let row = &self.rows[i];
            let ra = chars_of(row.received_at.as_str());
            if row.status == JobStatus::Pending && text_le_chars(ra.as_slice(), b.as_slice()) {
                match best {
                    None => {
                        proof {
                            lemma_text_le_total(ra@, ra@);
                        }
                        best = Some(i);
                    },
                    Some(x) => {
                        let current = chars_of(self.rows[x].received_at.as_str());
                        if !text_le_chars(current.as_slice(), ra.as_slice()) {
                            proof {
                                lemma_text_le_total(self.rows@[x as int].received_at@, ra@);
                                assert forall|k: int|
                                    0 <= k < i + 1 && claimable(
                                        record_of(#[trigger] self.rows@[k]),
                                        before@,
                                    ) implies text_le(ra@, self.rows@[k].received_at@) by {
                                    if k < i {
                                        lemma_text_le_transitive(
                                            ra@,
                                            self.rows@[x as int].received_at@,
                                            self.rows@[k].received_at@,
                                        );
                                    } else {
                                        lemma_text_le_total(ra@, ra@);
                                    }
                                }
                            }
                            best = Some(i);
                        }
                    },
                }
            }
            i = i + 1;
        }
        match best {
            None => {
                proof {
                    assert forall|k: Seq<char>| self@.contains_key(k) implies !claimable(
                        #[trigger] self@[k],
                        before@,
                    ) by {
                        lemma_rows_map_contains(self.rows@, k);
                        let j = choose|j: int|
                            0 <= j < self.rows@.len() && #[trigger] self.rows@[j].document_id@ == k;
                        lemma_rows_map_index(self.rows@, j);
                    }
                }
                None
            },
            Some(x) => {
                let ghost old_jobs = self@;
                proof {
                    lemma_rows_map_index(self.rows@, x as int);
                    assert forall|k: Seq<char>|
                        old_jobs.contains_key(k) && claimable(#[trigger] old_jobs[k], before@)
                            implies text_le(old_jobs[self.rows@[x as int].document_id@].received_at, old_jobs[k].received_at) by {
                        lemma_rows_map_contains(self.rows@, k);
                        let j = choose|j: int|
                            0 <= j < self.rows@.len() && #[trigger] self.rows@[j].document_id@ == k;
                        lemma_rows_map_index(self.rows@, j);
                    }
                }
                let job = EmbeddingJob {
                    document_id: self.rows[x].document_id.clone(),
                    received_at: self.rows[x].received_at.clone(),
                    attempts: self.rows[x].attempts,
                };
                let row = JobRow {
                    document_id: self.rows[x].document_id.clone(),
                    received_at: self.rows[x].received_at.clone(),
                    status: JobStatus::Running,
                    attempts: self.rows[x].attempts,
                    last_error: crate::storage::clone_opt_string(&self.rows[x].last_error),
                };
                proof {
                    lemma_rows_map_update(self.rows@, x as int, row);
                    assert(record_of(row) == JobRecord {
                        status: JobStatus::Running,
                        ..old_jobs[job.document_id@]
                    });
                }
                self.replace_row(x, row);
                Some(job)
            },
        }
    }

    /// Removes a finished job, unless an update arrived while it ran: then the
    /// job is pending again.
    pub fn finish_embedding_job(&mut self, job: &EmbeddingJob)
        ensures
            final(self)@ == finish_spec(old(self)@, job.document_id@, job.received_at@),
    {
        proof {
            use_type_invariant(&*self);
        }
        match self.position(chars_of(job.document_id.as_str()).as_slice()) {
            None => {},
            Some(i) => {
                proof {
                    lemma_rows_map_index(self.rows@, i as int);
                }
                if self.rows[i].status == JobStatus::Running {
                    let same = chars_eq(
                        chars_of(self.rows[i].received_at.as_str()).as_slice(),
                        chars_of(job.received_at.as_str()).as_slice(),
                    );
                    if same {
                        proof {
                            lemma_rows_map_remove(self.rows@, i as int);
                        }
                        self.remove_row(i);
                    } else {
                        let row = JobRow {
                            document_id: self.rows[i].document_id.clone(),
                            received_at: self.rows[i].received_at.clone(),
                            status: JobStatus::Pending,
                            attempts: 0,
                            last_error: None,
                        };
                        proof {
                            lemma_rows_map_update(self.rows@, i as int, row);
                        }
                        self.replace_row(i, row);
                    }
                }
            },
        }
    }

    /// Records the outcome of a job the worker claimed and ran: a success
    /// finishes it, a failure records its error and schedules the retry.
    pub fn complete_embedding_job(&mut self, job: &EmbeddingJob, outcome: Result<(), String>, retry_at: &str)
        ensures
            final(self)@ == complete_spec(
                old(self)@,
                job.document_id@,
                job.received_at@,
                match outcome {
                    Ok(()) => Ok::<(), Seq<char>>(()),
                    Err(e) => Err::<(), Seq<char>>(e@),
                },
                retry_at@,
            ),
    {
        match outcome {
            Ok(()) => self.finish_embedding_job(job),
            Err(error) => self.fail_embedding_job(job, error.as_str(), retry_at),
        }
    }

    /// Records a failure: a first failure is retried at `retry_at`, a second one
    /// leaves the job failed.
    pub fn fail_embedding_job(&mut self, job: &EmbeddingJob, error: &str, retry_at: &str)
        ensures
            final(self)@ == fail_spec(old(self)@, job.document_id@, job.received_at@, error@, retry_at@),
    {
        proof {
            use_type_invariant(&*self);
        }
        match self.position(chars_of(job.document_id.as_str()).as_slice()) {
            None => {},
            Some(i) => {
                proof {
                    lemma_rows_map_index(self.rows@, i as int);
                }
                if self.rows[i].status == JobStatus::Running {
                    let updated = !chars_eq(
                        chars_of(self.rows[i].received_at.as_str()).as_slice(),
                        chars_of(job.received_at.as_str()).as_slice(),
                    );
                    let attempts = self.rows[i].attempts;
                    assert(attempts < i64::MAX);
                    let retry = updated || attempts < 1;
                    let row = JobRow {
                        document_id: self.rows[i].document_id.clone(),
                        received_at: if retry {
                            copy_str(retry_at)
                        } else {
                            self.rows[i].received_at.clone()
                        },
                        status: if retry {
                            JobStatus::Pending
                        } else {
                            JobStatus::Failed
                        },
                        attempts: if updated {
                            0
                        } else {
                            attempts + 1
                        },
                        last_error: Some(copy_str(error)),
                    };
                    proof {
                        lemma_rows_map_update(self.rows@, i as int, row);
                    }
                    self.replace_row(i, row);
                }
            },
        }
    }
}


/// An update that arrives while its document's job runs is not lost: once the
/// worker finishes the job it claimed, the job is pending again under the new
/// time, with no attempts and no error, and the other jobs are as before.
pub proof fn update_during_processing_is_requeued(
    jobs: Map<Seq<char>, JobRecord>,
    doc: Seq<char>,
    update_at: Seq<char>,
)
    requires
        jobs.contains_key(doc),
        update_at != jobs[doc].received_at,
    ensures
        finish_spec(
            enqueue_spec(start_spec(jobs, doc), doc, update_at),
            doc,
            jobs[doc].received_at,
        ) == jobs.insert(
            doc,
            JobRecord {
                received_at: update_at,
                status: JobStatus::Pending,
                attempts: 0,
                last_error: None,
            },
        ),
{
    let m = finish_spec(enqueue_spec(start_spec(jobs, doc), doc, update_at), doc, jobs[doc].received_at);
    assert(m =~= jobs.insert(
        doc,
        JobRecord { received_at: update_at, status: JobStatus::Pending, attempts: 0, last_error: None },
    ));
}

/// A job that the worker claims and finishes with no update in between leaves
/// the queue, and nothing else changes.
pub proof fn finished_job_leaves_queue(jobs: Map<Seq<char>, JobRecord>, doc: Seq<char>)
    requires
        jobs.contains_key(doc),
    ensures
        finish_spec(start_spec(jobs, doc), doc, jobs[doc].received_at) == jobs.remove(doc),
{
    assert(finish_spec(start_spec(jobs, doc), doc, jobs[doc].received_at) =~= jobs.remove(doc));
}

/// A failed job is retried once: its first failure makes it pending again,
/// due at the retry time, with one attempt; a second failure of the retry
/// leaves it in the queue as failed, with two attempts and the last error.
pub proof fn failed_job_is_retried_once(
    jobs: Map<Seq<char>, JobRecord>,
    doc: Seq<char>,
    first_error: Seq<char>,
    first_retry_at: Seq<char>,
    second_error: Seq<char>,
    second_retry_at: Seq<char>,
)
    requires
        jobs.contains_key(doc),
        jobs[doc].attempts == 0,
    ensures
        ({
            let after_first = fail_spec(
                start_spec(jobs, doc),
                doc,
                jobs[doc].received_at,
                first_error,
                first_retry_at,
            );
            let after_second = fail_spec(
                start_spec(after_first, doc),
                doc,
                first_retry_at,
                second_error,
                second_retry_at,
            );
            &&& after_first[doc] == JobRecord {
                received_at: first_retry_at,
                status: JobStatus::Pending,
                attempts: 1,
                last_error: Some(first_error),
            }
            &&& after_second[doc] == JobRecord {
                received_at: first_retry_at,
                status: JobStatus::Failed,
                attempts: 2,
                last_error: Some(second_error),
            }
        }),
{
}

/// Submitting the document of a failed job again resets the job: it is pending
/// under the new time, with no attempts and no error.
pub proof fn resubmission_resets_failed_job(
    jobs: Map<Seq<char>, JobRecord>,
    doc: Seq<char>,
    received_at: Seq<char>,
)
    requires
        jobs.contains_key(doc),
        jobs[doc].status == JobStatus::Failed,
    ensures
        enqueue_spec(jobs, doc, received_at)[doc] == (JobRecord {
            received_at,
            status: JobStatus::Pending,
            attempts: 0,
            last_error: None,
        }),
{
}

/// Debounce: a job enqueued at `received_at` can only be claimed by a worker
/// looking for jobs received no later than a time at or after `received_at`;
/// a failed job is never claimed.
pub proof fn claim_respects_debounce(
    jobs: Map<Seq<char>, JobRecord>,
    doc: Seq<char>,
    received_at: Seq<char>,
    before: Seq<char>,
)
    ensures
        claimable(enqueue_spec(jobs, doc, received_at)[doc], before) ==> text_le(received_at, before),
        jobs.contains_key(doc) && jobs[doc].status == JobStatus::Failed ==> !claimable(jobs[doc], before),
{
}

/// What happens to the job queue: an update of a document is received, the
/// worker claims a document's job looking for jobs received no later than
/// `before`, or the worker records the outcome of a job it claimed.
pub enum QueueEvent {
    Enqueue { doc: Seq<char>, at: Seq<char> },
    Claim { doc: Seq<char>, before: Seq<char> },
    Complete { doc: Seq<char>, received_at: Seq<char>, outcome: Result<(), Seq<char>>, retry_at: Seq<char> },
}

/// The jobs after one event; a claim of a job that is not claimable changes
/// nothing, as the worker only ever claims a claimable one.
pub open spec fn queue_step(jobs: Map<Seq<char>, JobRecord>, event: QueueEvent) -> Map<Seq<char>, JobRecord> {
    match event {
        QueueEvent::Enqueue { doc, at } => enqueue_spec(jobs, doc, at),
        QueueEvent::Claim { doc, before } => if jobs.contains_key(doc) && claimable(jobs[doc], before) {
            start_spec(jobs, doc)
        } else {
            jobs
        },
        QueueEvent::Complete { doc, received_at, outcome, retry_at } => complete_spec(
            jobs,
            doc,
            received_at,
            outcome,
            retry_at,
        ),
    }
}

/// The jobs after a sequence of events.
pub open spec fn queue_run(jobs: Map<Seq<char>, JobRecord>, events: Seq<QueueEvent>) -> Map<
    Seq<char>,
    JobRecord,
>
    decreases events.len(),
{
    if events.len() == 0 {
        jobs
    } else {
        queue_step(queue_run(jobs, events.drop_last()), events.last())
    }
}

/// Whether an event is an update of `doc`.
pub open spec fn enqueues(event: QueueEvent, doc: Seq<char>) -> bool {
    event matches QueueEvent::Enqueue { doc: d, .. } && d == doc
}

/// A failed job stays as it is through any events that do not update its
/// document.
proof fn lemma_failed_job_unchanged(jobs: Map<Seq<char>, JobRecord>, doc: Seq<char>, events: Seq<QueueEvent>)
    requires
        jobs.contains_key(doc),
        jobs[doc].status == JobStatus::Failed,
        forall|i: int| 0 <= i < events.len() ==> !enqueues(#[trigger] events[i], doc),
    ensures
        queue_run(jobs, events).contains_key(doc),
        queue_run(jobs, events)[doc] == jobs[doc],
    decreases events.len(),
{
    if events.len() > 0 {
        let init = events.drop_last();
        assert forall|i: int| 0 <= i < init.len() implies !enqueues(#[trigger] init[i], doc) by {
            assert(init[i] == events[i]);
        }
        lemma_failed_job_unchanged(jobs, doc, init);
        assert(!enqueues(events[events.len() - 1], doc));
    }
}

/// A failed job is never claimed again until its document is submitted
/// again: through any events that do not update its document it keeps its
/// record, and at every point no worker may claim it.
pub proof fn failed_job_waits_for_resubmission(
    jobs: Map<Seq<char>, JobRecord>,
    doc: Seq<char>,
    events: Seq<QueueEvent>,
)
    requires
        jobs.contains_key(doc),
        jobs[doc].status == JobStatus::Failed,
        forall|i: int| 0 <= i < events.len() ==> !enqueues(#[trigger] events[i], doc),
    ensures
        forall|k: int|
            0 <= k <= events.len() ==> {
                let now = #[trigger] queue_run(jobs, events.take(k));
                &&& now.contains_key(doc)
                &&& now[doc] == jobs[doc]
                &&& forall|before: Seq<char>| !claimable(now[doc], before)
            },
{
    assert forall|k: int| 0 <= k <= events.len() implies {
        let now = #[trigger] queue_run(jobs, events.take(k));
        &&& now.contains_key(doc)
        &&& now[doc] == jobs[doc]
        &&& forall|before: Seq<char>| !claimable(now[doc], before)
    } by {
        let prefix = events.take(k);
        assert forall|i: int| 0 <= i < prefix.len() implies !enqueues(#[trigger] prefix[i], doc) by {
            assert(prefix[i] == events[i]);
        }
        lemma_failed_job_unchanged(jobs, doc, prefix);
    }
}

/// An update of a document whose job is not running leaves a fresh pending
/// job due at the update's time, with no attempts and no error, so it gets
/// its full retry; an update of a running job keeps it running with its
/// attempts, takes the new time and clears the error. Other jobs are untouched.
pub proof fn enqueue_gives_fresh_job(jobs: Map<Seq<char>, JobRecord>, doc: Seq<char>, at: Seq<char>)
    ensures
        enqueue_spec(jobs, doc, at).contains_key(doc),
        !(jobs.contains_key(doc) && jobs[doc].status == JobStatus::Running) ==> enqueue_spec(jobs, doc, at)[doc]
            == (JobRecord { received_at: at, status: JobStatus::Pending, attempts: 0, last_error: None }),
        (jobs.contains_key(doc) && jobs[doc].status == JobStatus::Running) ==> enqueue_spec(jobs, doc, at)[doc]
            == (JobRecord {
            received_at: at,
            status: JobStatus::Running,
            attempts: jobs[doc].attempts,
            last_error: None,
        }),
        forall|k: Seq<char>|
            k != doc ==> (#[trigger] enqueue_spec(jobs, doc, at).contains_key(k) == jobs.contains_key(k) && (
            jobs.contains_key(k) ==> enqueue_spec(jobs, doc, at)[k] == jobs[k])),
{
}

} // verus!
