//! The recording log: lifecycle events of recording sessions, kept for
//! diagnostics and uploaded to the cloud.
//!
//! The log is a table of rows ordered by id. Each operation is the table
//! statement of the application's SQLite store, stated over the rows; the
//! clock is read by the caller and handed in as a SQLite text timestamp.
//! Rows listed by time are ordered by creation time, then by id.
use vstd::prelude::*;
use crate::text::{
    copy_opt_string,
    copy_str,
    lemma_text_lt_asymmetric,
    lemma_text_lt_total,
    lemma_text_lt_transitive,
    opt_str,
    str_eq,
    str_le,
    text_lt,
};

verus! {

/// Recent events included in an export.
pub const EXPORT_LOG_LIMIT: i64 = 500;

/// One row of the log.
#[derive(Debug)]
pub struct RecordingLog {
    pub id: i64,
    pub session_id: String,
    pub event_type: String,
    pub event_data: Option<String>,
    pub status: Option<String>,
    pub error: Option<String>,
    pub meeting_id: Option<String>,
    pub app_version: Option<String>,
    pub device_info: Option<String>,
    pub synced_to_cloud: bool,
    pub created_at: String,
}

/// A row as plain values.
pub struct LogView {
    pub id: i64,
    pub session_id: Seq<char>,
    pub event_type: Seq<char>,
    pub event_data: Option<Seq<char>>,
    pub status: Option<Seq<char>>,
    pub error: Option<Seq<char>>,
    pub meeting_id: Option<Seq<char>>,
    pub app_version: Option<Seq<char>>,
    pub device_info: Option<Seq<char>>,
    pub synced_to_cloud: bool,
    pub created_at: Seq<char>,
}

impl View for RecordingLog {
    type V = LogView;

    open spec fn view(&self) -> LogView {
        LogView {
            id: self.id,
            session_id: self.session_id@,
            event_type: self.event_type@,
            event_data: opt_str(self.event_data),
            status: opt_str(self.status),
            error: opt_str(self.error),
            meeting_id: opt_str(self.meeting_id),
            app_version: opt_str(self.app_version),
            device_info: opt_str(self.device_info),
            synced_to_cloud: self.synced_to_cloud,
            created_at: self.created_at@,
        }
    }
}

impl RecordingLog {
    /// A copy of this row.
    pub fn copy(&self) -> (r: RecordingLog)
        ensures
            r@ == self@,
    {
        RecordingLog {
            id: self.id,
            session_id: copy_str(self.session_id.as_str()),
            event_type: copy_str(self.event_type.as_str()),
            event_data: copy_opt_string(&self.event_data),
            status: copy_opt_string(&self.status),
            error: copy_opt_string(&self.error),
            meeting_id: copy_opt_string(&self.meeting_id),
            app_version: copy_opt_string(&self.app_version),
            device_info: copy_opt_string(&self.device_info),
            synced_to_cloud: self.synced_to_cloud,
            created_at: copy_str(self.created_at.as_str()),
        }
    }
}

/// The views of a sequence of rows.
pub open spec fn log_views(v: Seq<RecordingLog>) -> Seq<LogView> {
    v.map_values(|l: RecordingLog| l@)
}

/// An optional borrowed text as plain values.
pub open spec fn opt_text(o: Option<&str>) -> Option<Seq<char>> {
    match o {
        Some(s) => Some(s@),
        None => None,
    }
}

/// The row that `log_event` adds.
pub open spec fn new_log(
    id: i64,
    session_id: Seq<char>,
    event_type: Seq<char>,
    event_data: Option<Seq<char>>,
    status: Option<Seq<char>>,
    error: Option<Seq<char>>,
    meeting_id: Option<Seq<char>>,
    app_version: Option<Seq<char>>,
    device_info: Option<Seq<char>>,
    now: Seq<char>,
) -> LogView {
    LogView {
        id,
        session_id,
        event_type,
        event_data,
        status,
        error,
        meeting_id,
        app_version,
        device_info,
        synced_to_cloud: false,
        created_at: now,
    }
}

/// Row ids rise strictly along the table.
pub open spec fn log_ids_ascending(t: Seq<LogView>) -> bool {
    forall|i: int, j: int| 0 <= i < j < t.len() ==> t[i].id < t[j].id
}

/// `a` was created before `b`, or at the same time with a smaller id.
pub open spec fn log_before(a: LogView, b: LogView) -> bool {
    text_lt(a.created_at, b.created_at) || (a.created_at == b.created_at && a.id < b.id)
}

/// `a` comes before `b` in a listing, oldest first or, where `newest`,
/// newest first.
pub open spec fn precedes(a: LogView, b: LogView, newest: bool) -> bool {
    if newest {
        log_before(b, a)
    } else {
        log_before(a, b)
    }
}

/// The rows of `s` are listed in order.
pub open spec fn in_order(s: Seq<LogView>, newest: bool) -> bool {
    forall|i: int, j: int| 0 <= i < j < s.len() ==> precedes(#[trigger] s[i], #[trigger] s[j], newest)
}

/// How many of `n` rows a listing with `limit` holds: all of them where the
/// limit is negative, as SQLite's `LIMIT`.
pub open spec fn limited_len(n: nat, limit: i64) -> nat {
    if 0 <= limit < n {
        limit as nat
    } else {
        n
    }
}

/// `r` lists, in order, the first `limit` rows of `sel`: it holds rows of
/// `sel` only, as many as the limit allows, and every row of `sel` that it
/// leaves out comes after all of its rows.
pub open spec fn first_in_order(r: Seq<LogView>, sel: Seq<LogView>, newest: bool, limit: i64) -> bool {
    &&& in_order(r, newest)
    &&& r.len() == limited_len(sel.len(), limit)
    &&& forall|i: int| 0 <= i < r.len() ==> sel.contains(#[trigger] r[i])
    &&& forall|x: LogView, i: int|
        #![trigger sel.contains(x), r[i]]
        sel.contains(x) && !r.contains(x) && 0 <= i < r.len() ==> precedes(r[i], x, newest)
}

/// The rows of session `s`.
pub open spec fn of_session(s: Seq<char>) -> spec_fn(LogView) -> bool {
    |l: LogView| l.session_id == s
}

/// The rows not yet uploaded.
pub open spec fn not_synced() -> spec_fn(LogView) -> bool {
    |l: LogView| !l.synced_to_cloud
}

/// The rows whose id is listed in `ids`.
pub open spec fn listed_in(ids: Seq<i64>) -> spec_fn(LogView) -> bool {
    |l: LogView| ids.contains(l.id)
}

/// The table after marking the rows listed in `ids` as uploaded.
pub open spec fn synced(t: Seq<LogView>, ids: Seq<i64>) -> Seq<LogView> {
    t.map_values(
        |l: LogView|
            if ids.contains(l.id) {
                LogView { synced_to_cloud: true, ..l }
            } else {
                l
            },
    )
}

/// The rows that deleting meeting `m`'s events keeps: those of other
/// meetings and those of none.
pub open spec fn kept_after_delete(m: Seq<char>) -> spec_fn(LogView) -> bool {
    |l: LogView| l.meeting_id != Some(m)
}

/// `precedes` is transitive.
proof fn lemma_precedes_transitive(a: LogView, b: LogView, c: LogView, newest: bool)
    requires
        precedes(a, b, newest),
        precedes(b, c, newest),
    ensures
        precedes(a, c, newest),
{
    let (x, y, z) = if newest {
        (c, b, a)
    } else {
        (a, b, c)
    };
    assert(log_before(x, y) && log_before(y, z));
    if text_lt(x.created_at, y.created_at) && text_lt(y.created_at, z.created_at) {
        lemma_text_lt_transitive(x.created_at, y.created_at, z.created_at);
    }
}

/// Two rows with different ids come in one order or the other, never both.
proof fn lemma_precedes_total(a: LogView, b: LogView, newest: bool)
    requires
        a.id != b.id,
    ensures
        precedes(a, b, newest) || precedes(b, a, newest),
        !(precedes(a, b, newest) && precedes(b, a, newest)),
{
    lemma_text_lt_asymmetric(a.created_at, b.created_at);
    if a.created_at != b.created_at {
        lemma_text_lt_total(a.created_at, b.created_at);
    }
}

/// Inserting `c` where everything before precedes it and it precedes
/// everything after keeps a listing in order.
proof fn lemma_insert_in_order(s: Seq<LogView>, pos: int, c: LogView, newest: bool)
    requires
        in_order(s, newest),
        0 <= pos <= s.len(),
        forall|q: int| 0 <= q < pos ==> precedes(#[trigger] s[q], c, newest),
        forall|q: int| pos <= q < s.len() ==> precedes(c, #[trigger] s[q], newest),
    ensures
        in_order(s.insert(pos, c), newest),
{
    let u = s.insert(pos, c);
    assert forall|a: int, b: int| 0 <= a < b < u.len() implies precedes(
        #[trigger] u[a],
        #[trigger] u[b],
        newest,
    ) by {
        if b < pos {
            assert(u[a] == s[a] && u[b] == s[b]);
        } else if b == pos {
            assert(u[a] == s[a] && u[b] == c);
        } else if a < pos {
            assert(u[a] == s[a] && u[b] == s[b - 1]);
        } else if a == pos {
            assert(u[a] == c && u[b] == s[b - 1]);
        } else {
            assert(u[a] == s[a - 1] && u[b] == s[b - 1]);
        }
    }
}

/// Where the first row of an ordered listing that `c` does not follow is at
/// `pos`, `c` precedes every row from `pos` on.
proof fn lemma_precedes_rest(s: Seq<LogView>, pos: int, c: LogView, newest: bool)
    requires
        in_order(s, newest),
        0 <= pos <= s.len(),
        pos < s.len() ==> !precedes(s[pos], c, newest) && s[pos].id != c.id,
    ensures
        forall|q: int| pos <= q < s.len() ==> precedes(c, #[trigger] s[q], newest),
{
    if pos < s.len() {
        lemma_precedes_total(s[pos], c, newest);
        assert forall|q: int| pos <= q < s.len() implies precedes(c, #[trigger] s[q], newest) by {
            if q > pos {
                assert(precedes(s[pos], s[q], newest));
                lemma_precedes_transitive(c, s[pos], s[q], newest);
            }
        }
    }
}

/// The error of a log operation.
#[derive(Debug, Clone, Copy, PartialEq, Eq, Structural)]
pub enum RecordingLogError {
    /// Every row id has been handed out.
    IdsExhausted,
}

/// `v` is a row among the first `n` of `t` that `p` selects.
spec fn drawn_from(v: LogView, t: Seq<LogView>, p: spec_fn(LogView) -> bool, n: int) -> bool {
    exists|q: int| 0 <= q < n && v == t[q] && p(t[q])
}

/// Which rows a listing selects.
#[derive(Clone, Copy)]
enum Selection {
    Session,
    All,
    Unsynced,
}

/// Whether a listing of kind `kind` for session `s` selects row `l`.
spec fn selects(kind: Selection, s: Seq<char>, l: LogView) -> bool {
    match kind {
        Selection::Session => l.session_id == s,
        Selection::All => true,
        Selection::Unsynced => !l.synced_to_cloud,
    }
}

/// `selects` as a predicate.
spec fn select_pred(kind: Selection, s: Seq<char>) -> spec_fn(LogView) -> bool {
    |l: LogView| selects(kind, s, l)
}

/// Filtering with a predicate that holds of every row keeps them all.
proof fn lemma_filter_all(t: Seq<LogView>, p: spec_fn(LogView) -> bool)
    requires
        forall|l: LogView| #[trigger] p(l),
    ensures
        t.filter(p) == t,
    decreases t.len(),
{
    if t.len() > 0 {
        let init = t.drop_last();
        assert(init.push(t.last()) =~= t);
        lemma_filter_all(init, p);
        init.lemma_filter_push(t.last(), p);
    } else {
        reveal(Seq::filter);
    }
}

/// A filter keeps the ids rising and within the bounds of the table's.
proof fn lemma_filter_ascending(t: Seq<LogView>, p: spec_fn(LogView) -> bool, lo: int, hi: int)
    requires
        log_ids_ascending(t),
        forall|k: int| 0 <= k < t.len() ==> lo <= #[trigger] t[k].id < hi,
    ensures
        log_ids_ascending(t.filter(p)),
        forall|k: int| 0 <= k < t.filter(p).len() ==> lo <= #[trigger] t.filter(p)[k].id < hi,
    decreases t.len(),
{
    if t.len() > 0 {
        let last = t.last();
        let init = t.drop_last();
        assert(init.push(last) =~= t);
        lemma_filter_ascending(init, p, lo, last.id as int);
        init.lemma_filter_push(last, p);
    }
}

/// Filtering with a predicate that holds of no row keeps none.
proof fn lemma_filter_none(t: Seq<LogView>, p: spec_fn(LogView) -> bool)
    requires
        forall|l: LogView| !#[trigger] p(l),
    ensures
        t.filter(p).len() == 0,
    decreases t.len(),
{
    if t.len() > 0 {
        let init = t.drop_last();
        assert(init.push(t.last()) =~= t);
        lemma_filter_none(init, p);
        init.lemma_filter_push(t.last(), p);
    } else {
        reveal(Seq::filter);
    }
}

/// Whether `ids` lists `id`.
fn lists_id(ids: &[i64], id: i64) -> (r: bool)
    ensures
        r == ids@.contains(id),
{
    let mut k: usize = 0;
    while k < ids.len()
        invariant
            k <= ids@.len(),
            forall|q: int| 0 <= q < k ==> ids@[q] != id,
        decreases ids@.len() - k,
    {
        if ids[k] == id {
            assert(ids@[k as int] == id);
            return true;
        }
        k += 1;
    }
    false
}

/// The recording log.
pub struct RecordingLogRepository {
    logs: Vec<RecordingLog>,
    next_id: i64,
}

/// Whether `a` comes before `b` in a listing.
fn log_precedes(a: &RecordingLog, b: &RecordingLog, newest: bool) -> (r: bool)
    ensures
        r == precedes(a@, b@, newest),
{
    let (x, y) = if newest {
        (b, a)
    } else {
        (a, b)
    };
    let same = str_eq(x.created_at.as_str(), y.created_at.as_str());
    proof {
        lemma_text_lt_asymmetric(x.created_at@, x.created_at@);
    }
    let earlier = str_le(x.created_at.as_str(), y.created_at.as_str()) && !same;
    earlier || (same && x.id < y.id)
}

impl RecordingLogRepository {
    /// The rows, in id order.
    pub closed spec fn rows(&self) -> Seq<LogView> {
        log_views(self.logs@)
    }

    /// The id the next row gets.
    pub closed spec fn next_row_id(&self) -> int {
        self.next_id as int
    }

    /// Ids rise along the table and stay below the next id, which is
    /// positive.
    pub closed spec fn wf(&self) -> bool {
        &&& 1 <= self.next_id
        &&& log_ids_ascending(self.rows())
        &&& forall|k: int|
            0 <= k < self.rows().len() ==> 1 <= #[trigger] self.rows()[k].id < self.next_id
    }

    /// The table holding `rows`, where the next row gets `next_id`: there is
    /// one only where the ids of the rows rise, are positive and stay below
    /// `next_id`.
    pub fn from_rows(rows: Vec<RecordingLog>, next_id: i64) -> (r: Option<RecordingLogRepository>)
        ensures
            match r {
                Some(q) => q.wf() && q.rows() == log_views(rows@) && q.next_row_id() == next_id,
                None => !(1 <= next_id && log_ids_ascending(log_views(rows@)) && forall|k: int|
                    0 <= k < rows@.len() ==> 1 <= #[trigger] rows@[k].id < next_id),
            },
    {
        if next_id < 1 {
            return None;
        }
        let mut i: usize = 0;
        while i < rows.len()
            invariant
                i <= rows@.len(),
                forall|a: int, b: int| 0 <= a < b < i ==> rows@[a].id < rows@[b].id,
                forall|k: int| 0 <= k < i ==> 1 <= #[trigger] rows@[k].id < next_id,
            decreases rows@.len() - i,
        {
            if rows[i].id < 1 || rows[i].id >= next_id {
                return None;
            }
            if i > 0 && rows[i - 1].id >= rows[i].id {
                proof {
                    assert(log_views(rows@)[i - 1].id == rows@[i - 1].id);
                    assert(log_views(rows@)[i as int].id == rows@[i as int].id);
                }
                return None;
            }
            i += 1;
        }
        let r = RecordingLogRepository { logs: rows, next_id };
        proof {
            assert forall|a: int, b: int| 0 <= a < b < r.rows().len() implies r.rows()[a].id
                < r.rows()[b].id by {
                assert(r.rows()[a].id == r.logs@[a].id);
                assert(r.rows()[b].id == r.logs@[b].id);
            }
            assert forall|k: int| 0 <= k < r.rows().len() implies 1 <= #[trigger] r.rows()[k].id
                < r.next_id by {
                assert(r.rows()[k].id == r.logs@[k].id);
            }
        }
        Some(r)
    }

    /// A copy of the rows, in id order.
    pub fn to_rows(&self) -> (r: Vec<RecordingLog>)
        ensures
            log_views(r@) == self.rows(),
    {
        let mut out: Vec<RecordingLog> = Vec::new();
        let mut i: usize = 0;
        while i < self.logs.len()
            invariant
                i <= self.logs@.len(),
                log_views(out@) == self.rows().take(i as int),
            decreases self.logs@.len() - i,
        {
            let c = self.logs[i].copy();
            let ghost prev = out@;
            out.push(c);
            proof {
                assert(log_views(out@) =~= log_views(prev).push(c@));
                assert(self.rows().take(i + 1) =~= self.rows().take(i as int).push(self.rows()[i as int]));
            }
            i += 1;
        }
        assert(self.rows().take(self.rows().len() as int) =~= self.rows());
        out
    }

    /// The id the next row gets.
    pub fn next_id(&self) -> (r: i64)
        ensures
            r == self.next_row_id(),
    {
        self.next_id
    }

    /// An empty log.
    pub fn new() -> (r: RecordingLogRepository)
        ensures
            r.wf(),
            r.rows() == Seq::<LogView>::empty(),
            r.next_row_id() == 1,
    {
        let r = RecordingLogRepository { logs: Vec::new(), next_id: 1 };
        assert(r.rows() =~= Seq::<LogView>::empty());
        r
    }

    /// Records an event and gives its id, which is above every id given
    /// before.
    pub fn log_event(
        &mut self,
        session_id: &str,
        event_type: &str,
        event_data: Option<&str>,
        status: Option<&str>,
        error_msg: Option<&str>,
        meeting_id: Option<&str>,
        app_version: Option<&str>,
        device_info: Option<&str>,
        now: &str,
    ) -> (r: Result<i64, RecordingLogError>)
        requires
            old(self).wf(),
        ensures
            final(self).wf(),
            old(self).next_row_id() < i64::MAX ==> {
                &&& r == Ok::<i64, RecordingLogError>(old(self).next_row_id() as i64)
                &&& final(self).rows() == old(self).rows().push(
                    new_log(
                        old(self).next_row_id() as i64,
                        session_id@,
                        event_type@,
                        opt_text(event_data),
                        opt_text(status),
                        opt_text(error_msg),
                        opt_text(meeting_id),
                        opt_text(app_version),
                        opt_text(device_info),
                        now@,
                    ),
                )
                &&& final(self).next_row_id() == old(self).next_row_id() + 1
            },
            old(self).next_row_id() == i64::MAX ==> {
                &&& r == Err::<i64, RecordingLogError>(RecordingLogError::IdsExhausted)
                &&& final(self).rows() == old(self).rows()
                &&& final(self).next_row_id() == old(self).next_row_id()
            },
    {
        if self.next_id == i64::MAX {
            return Err(RecordingLogError::IdsExhausted);
        }
        let id = self.next_id;
        let row = RecordingLog {
            id,
            session_id: copy_str(session_id),
            event_type: copy_str(event_type),
            event_data: copy_opt_text(event_data),
            status: copy_opt_text(status),
            error: copy_opt_text(error_msg),
            meeting_id: copy_opt_text(meeting_id),
            app_version: copy_opt_text(app_version),
            device_info: copy_opt_text(device_info),
            synced_to_cloud: false,
            created_at: copy_str(now),
        };
        let ghost before = self.rows();
        self.logs.push(row);
        self.next_id = id + 1;
        proof {
            assert(self.rows() =~= before.push(
                new_log(
                    id,
                    session_id@,
                    event_type@,
                    opt_text(event_data),
                    opt_text(status),
                    opt_text(error_msg),
                    opt_text(meeting_id),
                    opt_text(app_version),
                    opt_text(device_info),
                    now@,
                ),
            ));
        }
        Ok(id)
    }

    /// The rows that `kind` selects for session `s`, listed in order, at most
    /// `limit` of them.
    fn ordered_selection(&self, kind: Selection, s: &str, newest: bool, limit: i64) -> (r: Vec<
        RecordingLog,
    >)
        requires
            self.wf(),
        ensures
            first_in_order(log_views(r@), self.rows().filter(select_pred(kind, s@)), newest, limit),
    {
        let ghost t = self.rows();
        let ghost p = select_pred(kind, s@);
        let mut out: Vec<RecordingLog> = Vec::new();
        let mut i: usize = 0;
        while i < self.logs.len()
            invariant
                t == self.rows(),
                self.wf(),
                p == select_pred(kind, s@),
                self.logs@.len() == t.len(),
                i <= t.len(),
                in_order(log_views(out@), newest),
                log_views(out@).len() == t.take(i as int).filter(p).len(),
                forall|k: int|
                    0 <= k < out@.len() ==> drawn_from(#[trigger] log_views(out@)[k], t, p, i as int),
                forall|q: int|
                    0 <= q < i && p(t[q]) ==> log_views(out@).contains(#[trigger] t[q]),
            decreases t.len() - i,
        {
            proof {
                assert(t.take(i + 1) =~= t.take(i as int).push(t[i as int]));
                t.take(i as int).lemma_filter_push(t[i as int], p);
            }
            assert(self.logs[i as int]@ == t[i as int]);
            let l = &self.logs[i];
            let chosen = match kind {
                Selection::Session => str_eq(l.session_id.as_str(), s),
                Selection::All => true,
                Selection::Unsynced => !l.synced_to_cloud,
            };
            assert(chosen == p(t[i as int]));
            if chosen {
                let c = l.copy();
                let ghost ov = log_views(out@);
                let mut pos: usize = 0;
                let mut searching = true;
                while searching
                    invariant
                        log_views(out@) == ov,
                        pos <= ov.len(),
                        forall|q: int| 0 <= q < pos ==> precedes(#[trigger] ov[q], c@, newest),
                        !searching ==> (pos < ov.len() ==> !precedes(ov[pos as int], c@, newest)),
                    decreases ov.len() - pos + if searching {
                        1int
                    } else {
                        0int
                    },
                {
                    if pos < out.len() && log_precedes(&out[pos], &c, newest) {
                        assert(out[pos as int]@ == ov[pos as int]);
                        pos += 1;
                    } else {
                        proof {
                            if pos < ov.len() {
                                assert(out[pos as int]@ == ov[pos as int]);
                            }
                        }
                        searching = false;
                    }
                }
                proof {
                    if pos < ov.len() {
                        assert(drawn_from(ov[pos as int], t, p, i as int));
                        let q2 = choose|q: int| 0 <= q < i && ov[pos as int] == t[q] && p(t[q]);
                        assert(t[q2].id < t[i as int].id);
                    }
                    lemma_precedes_rest(ov, pos as int, c@, newest);
                    lemma_insert_in_order(ov, pos as int, c@, newest);
                }
                out.insert(pos, c);
                proof {
                    let nv = log_views(out@);
                    assert(nv =~= ov.insert(pos as int, c@));
                    assert forall|k: int| 0 <= k < out@.len() implies drawn_from(
                        #[trigger] log_views(out@)[k],
                        t,
                        p,
                        i + 1,
                    ) by {
                        if k < pos {
                            assert(nv[k] == ov[k]);
                            assert(drawn_from(ov[k], t, p, i as int));
                            let q0 = choose|q: int| 0 <= q < i && ov[k] == t[q] && p(t[q]);
                            assert(0 <= q0 < i + 1 && nv[k] == t[q0] && p(t[q0]));
                        } else if k == pos {
                            assert(nv[k] == t[i as int]);
                        } else {
                            assert(nv[k] == ov[k - 1]);
                            assert(drawn_from(ov[k - 1], t, p, i as int));
                            let q0 = choose|q: int| 0 <= q < i && ov[k - 1] == t[q] && p(t[q]);
                            assert(0 <= q0 < i + 1 && nv[k] == t[q0] && p(t[q0]));
                        }
                    }
                    assert forall|q: int| 0 <= q < i + 1 && p(t[q]) implies log_views(
                        out@,
                    ).contains(#[trigger] t[q]) by {
                        if q == i {
                            assert(nv[pos as int] == t[q]);
                        } else {
                            assert(ov.contains(t[q]));
                            let k = choose|k: int| 0 <= k < ov.len() && ov[k] == t[q];
                            if k < pos {
                                assert(nv[k] == t[q]);
                            } else {
                                assert(nv[k + 1] == t[q]);
                            }
                        }
                    }
                }
            } else {
                proof {
                    let nv = log_views(out@);
                    assert forall|k: int| 0 <= k < out@.len() implies drawn_from(
                        #[trigger] log_views(out@)[k],
                        t,
                        p,
                        i + 1,
                    ) by {
                        assert(drawn_from(nv[k], t, p, i as int));
                        let q0 = choose|q: int| 0 <= q < i && nv[k] == t[q] && p(t[q]);
                        assert(0 <= q0 < i + 1 && nv[k] == t[q0] && p(t[q0]));
                    }
                }
            }
            i += 1;
        }
        let ghost full = log_views(out@);
        if limit >= 0 && (limit as u64) < (out.len() as u64) {
            out.truncate(limit as usize);
        }
        proof {
            let sel = t.filter(p);
            let r = log_views(out@);
            assert(t.take(t.len() as int) =~= t);
            assert(r =~= full.take(r.len() as int));
            assert forall|a: int, b: int| 0 <= a < b < r.len() implies precedes(
                #[trigger] r[a],
                #[trigger] r[b],
                newest,
            ) by {
                assert(r[a] == full[a] && r[b] == full[b]);
            }
            assert forall|k: int| 0 <= k < r.len() implies sel.contains(#[trigger] r[k]) by {
                assert(r[k] == full[k]);
                assert(drawn_from(full[k], t, p, t.len() as int));
                let q = choose|q: int| 0 <= q < t.len() && full[k] == t[q] && p(t[q]);
                t.lemma_filter_contains(p, q);
            }
            assert forall|x: LogView, k: int|
                #![trigger sel.contains(x), r[k]]
                sel.contains(x) && !r.contains(x) && 0 <= k < r.len() implies precedes(
                r[k],
                x,
                newest,
            ) by {
                t.lemma_filter_contains_rev(p, x);
                let j = choose|j: int| 0 <= j < sel.len() && sel[j] == x;
                t.lemma_filter_pred(p, j);
                let q = choose|q: int| 0 <= q < t.len() && t[q] == x;
                assert(full.contains(t[q]));
                let m = choose|m: int| 0 <= m < full.len() && full[m] == x;
                if m < r.len() {
                    assert(r[m] == x);
                }
                assert(r[k] == full[k]);
                assert(precedes(full[k], full[m], newest));
            }
        }
        out
    }

    /// The events of session `session_id`, oldest first.
    pub fn get_logs_by_session(&self, session_id: &str) -> (r: Vec<RecordingLog>)
        requires
            self.wf(),
        ensures
            first_in_order(log_views(r@), self.rows().filter(of_session(session_id@)), false, -1i64),
    {
        assert(select_pred(Selection::Session, session_id@) =~= of_session(session_id@));
        self.ordered_selection(Selection::Session, session_id, false, -1)
    }

    /// The `limit` most recent events, newest first (all of them where
    /// `limit` is negative).
    pub fn get_recent_logs(&self, limit: i64) -> (r: Vec<RecordingLog>)
        requires
            self.wf(),
        ensures
            first_in_order(log_views(r@), self.rows(), true, limit),
    {
        proof {
            lemma_filter_all(self.rows(), select_pred(Selection::All, ""@));
        }
        self.ordered_selection(Selection::All, "", true, limit)
    }

    /// The first `limit` events not yet uploaded, oldest first (all of them
    /// where `limit` is negative).
    pub fn get_unsynced_logs(&self, limit: i64) -> (r: Vec<RecordingLog>)
        requires
            self.wf(),
        ensures
            first_in_order(log_views(r@), self.rows().filter(not_synced()), false, limit),
    {
        assert(select_pred(Selection::Unsynced, ""@) =~= not_synced());
        self.ordered_selection(Selection::Unsynced, "", false, limit)
    }

    /// Marks the events listed in `ids` as uploaded and gives how many rows
    /// they are.
    pub fn mark_as_synced(&mut self, ids: &[i64]) -> (r: u64)
        requires
            old(self).wf(),
        ensures
            final(self).wf(),
            final(self).rows() == synced(old(self).rows(), ids@),
            r == old(self).rows().filter(listed_in(ids@)).len(),
            final(self).next_row_id() == old(self).next_row_id(),
    {
        let ghost before = self.rows();
        let mut count: u64 = 0;
        if ids.len() == 0 {
            proof {
                assert(synced(before, ids@) =~= before);
                lemma_filter_none(before, listed_in(ids@));
            }
            return 0;
        }
        let mut i: usize = 0;
        while i < self.logs.len()
            invariant
                before.len() == self.logs@.len(),
                self.next_id == old(self).next_id,
                1 <= self.next_id,
                log_ids_ascending(before),
                forall|q: int| 0 <= q < before.len() ==> 1 <= #[trigger] before[q].id < self.next_id,
                i <= self.logs@.len(),
                forall|q: int| 0 <= q < i ==> #[trigger] self.rows()[q] == (if ids@.contains(before[q].id) {
                    LogView { synced_to_cloud: true, ..before[q] }
                } else {
                    before[q]
                }),
                forall|q: int| i <= q < before.len() ==> #[trigger] self.rows()[q] == before[q],
                count as int == before.take(i as int).filter(listed_in(ids@)).len(),
                count <= i,
            decreases self.logs@.len() - i,
        {
            proof {
                assert(before.take(i + 1) =~= before.take(i as int).push(before[i as int]));
                before.take(i as int).lemma_filter_push(before[i as int], listed_in(ids@));
            }
            assert(self.rows()[i as int] == before[i as int]);
            assert(self.logs[i as int]@ == before[i as int]);
            if lists_id(ids, self.logs[i].id) {
                let mut l = self.logs[i].copy();
                l.synced_to_cloud = true;
                let ghost mid = self.rows();
                self.logs.set(i, l);
                proof {
                    assert forall|q: int| 0 <= q < before.len() && q != i implies #[trigger] self.rows()[q]
                        == mid[q] by {}
                }
                count = count + 1;
            }
            i += 1;
        }
        proof {
            assert(before.take(before.len() as int) =~= before);
            assert(self.rows() =~= synced(before, ids@));
            assert forall|a: int, b: int| 0 <= a < b < self.rows().len() implies self.rows()[a].id
                < self.rows()[b].id by {
                assert(self.rows()[a].id == before[a].id);
                assert(self.rows()[b].id == before[b].id);
            }
            assert forall|q: int| 0 <= q < self.rows().len() implies 1 <= #[trigger] self.rows()[q].id
                < self.next_id by {
                assert(self.rows()[q].id == before[q].id);
            }
        }
        count
    }

    /// Removes the events of meeting `meeting_id` and gives how many went;
    /// events of no meeting stay.
    pub fn delete_by_meeting(&mut self, meeting_id: &str) -> (r: u64)
        requires
            old(self).wf(),
        ensures
            final(self).wf(),
            final(self).rows() == old(self).rows().filter(kept_after_delete(meeting_id@)),
            r == old(self).rows().len() - final(self).rows().len(),
            final(self).next_row_id() == old(self).next_row_id(),
    {
        let ghost before = self.rows();
        let ghost p = kept_after_delete(meeting_id@);
        let mut kept: Vec<RecordingLog> = Vec::new();
        let mut removed: u64 = 0;
        let mut i: usize = 0;
        while i < self.logs.len()
            invariant
                before == self.rows(),
                p == kept_after_delete(meeting_id@),
                self.logs@.len() == before.len(),
                i <= before.len(),
                removed + kept@.len() == i,
                log_views(kept@) == before.take(i as int).filter(p),
            decreases before.len() - i,
        {
            proof {
                assert(before.take(i + 1) =~= before.take(i as int).push(before[i as int]));
                before.take(i as int).lemma_filter_push(before[i as int], p);
            }
            assert(self.logs[i as int]@ == before[i as int]);
            let l = &self.logs[i];
            let keep = match &l.meeting_id {
                Some(m) => !str_eq(m.as_str(), meeting_id),
                None => true,
            };
            assert(keep == p(before[i as int]));
            if keep {
                let c = l.copy();
                let ghost prev = kept@;
                kept.push(c);
                assert(log_views(kept@) =~= log_views(prev).push(c@));
            } else {
                removed = removed + 1;
            }
            i += 1;
        }
        proof {
            assert(before.take(before.len() as int) =~= before);
            lemma_filter_ascending(before, p, 1, self.next_id as int);
        }
        self.logs = kept;
        removed
    }
}

/// An event just logged is among its session's events.
pub proof fn logged_event_is_listed(t: Seq<LogView>, row: LogView)
    ensures
        t.push(row).filter(of_session(row.session_id)).contains(row),
{
    t.lemma_filter_push(row, of_session(row.session_id));
    let f = t.filter(of_session(row.session_id));
    assert(f.push(row)[f.len() as int] == row);
}

/// Once events are marked as uploaded, none of them is listed as waiting
/// for upload.
pub proof fn synced_events_leave_the_upload_list(t: Seq<LogView>, ids: Seq<i64>)
    ensures
        forall|k: int|
            0 <= k < synced(t, ids).filter(not_synced()).len() ==> !ids.contains(
                #[trigger] synced(t, ids).filter(not_synced())[k].id,
            ),
{
    let u = synced(t, ids);
    let f = u.filter(not_synced());
    assert forall|k: int| 0 <= k < f.len() implies !ids.contains(#[trigger] f[k].id) by {
        u.lemma_filter_pred(not_synced(), k);
        assert(f.contains(f[k]));
        u.lemma_filter_contains_rev(not_synced(), f[k]);
        let j = choose|j: int| 0 <= j < u.len() && u[j] == f[k];
        assert(u[j] == if ids.contains(t[j].id) {
            LogView { synced_to_cloud: true, ..t[j] }
        } else {
            t[j]
        });
    }
}

/// An owned copy of an optional borrowed text.
fn copy_opt_text(o: Option<&str>) -> (r: Option<String>)
    ensures
        opt_str(r) == opt_text(o),
{
    match o {
        Some(s) => Some(copy_str(s)),
        None => None,
    }
}

} // verus!
