//! The application's log files: where they are kept, which files of that
//! directory are logs and in which order they are listed, their total
//! size, and the description handed to the interface.
use vstd::prelude::*;
use crate::num::{decimal, push_decimal};
use crate::text::{copy_str, push_str, str_eq};

verus! {

/// A description of the log files.
#[derive(Debug, Clone)]
pub struct LogInfo {
    pub log_directory: Option<String>,
    pub total_size_bytes: u64,
    pub total_size_human: String,
    pub file_count: usize,
    pub files: Vec<LogFileInfo>,
}

/// A description of one log file.
#[derive(Debug, Clone)]
pub struct LogFileInfo {
    pub name: String,
    pub size_bytes: u64,
    pub size_human: String,
    /// Local time of the last change, `YYYY-MM-DD HH:MM:SS`.
    pub modified: Option<String>,
}

/// The log directory, set once when logging starts.
pub struct LogDirectoryCell {
    dir: Option<String>,
}

impl LogDirectoryCell {
    /// The directory, once set.
    pub closed spec fn value(&self) -> Option<Seq<char>> {
        match self.dir {
            Some(d) => Some(d@),
            None => None,
        }
    }

    /// A cell with no directory set.
    pub fn new() -> (r: Self)
        ensures
            r.value() is None,
    {
        LogDirectoryCell { dir: None }
    }
}

/// Sets the log directory unless it is already set; gives it back when it
/// was.
pub fn set_log_directory(cell: &mut LogDirectoryCell, dir: String) -> (r: Result<(), String>)
    ensures
        old(cell).value() is None ==> r is Ok && final(cell).value() == Some(dir@),
        old(cell).value() is Some ==> (r matches Err(d) && d@ == dir@) && final(cell).value()
            == old(cell).value(),
{
    if cell.dir.is_some() {
        return Err(dir);
    }
    cell.dir = Some(dir);
    Ok(())
}

/// The log directory, once set.
pub fn get_log_directory(cell: &LogDirectoryCell) -> (r: Option<String>)
    ensures
        match r {
            Some(d) => cell.value() == Some(d@),
            None => cell.value() is None,
        },
{
    match &cell.dir {
        Some(d) => Some(d.clone()),
        None => None,
    }
}

/// The sum of the sizes that could be read.
pub open spec fn readable_total(sizes: Seq<Option<u64>>) -> nat
    decreases sizes.len(),
{
    if sizes.len() == 0 {
        0
    } else {
        readable_total(sizes.drop_last()) + match sizes.last() {
            Some(n) => n as nat,
            None => 0,
        }
    }
}

proof fn lemma_readable_total_prefix(sizes: Seq<Option<u64>>, k: int)
    requires
        0 <= k <= sizes.len(),
    ensures
        readable_total(sizes.take(k)) <= readable_total(sizes),
    decreases sizes.len() - k,
{
    if k < sizes.len() {
        lemma_readable_total_prefix(sizes, k + 1);
        assert(sizes.take(k + 1).drop_last() =~= sizes.take(k));
    } else {
        assert(sizes.take(k) =~= sizes);
    }
}

/// The total size of the log files, from the sizes that could be read.
pub fn get_logs_total_size(sizes: &Vec<Option<u64>>) -> (r: u64)
    requires
        readable_total(sizes@) <= u64::MAX,
    ensures
        r == readable_total(sizes@),
{
    let mut total: u64 = 0;
    let mut i: usize = 0;
    while i < sizes.len()
        invariant
            i <= sizes.len(),
            readable_total(sizes@) <= u64::MAX,
            total == readable_total(sizes@.take(i as int)),
        decreases sizes.len() - i,
    {
        proof {
            lemma_readable_total_prefix(sizes@, i + 1);
            assert(sizes@.take(i + 1).drop_last() =~= sizes@.take(i as int));
        }
        match sizes[i] {
            Some(n) => {
                total = total + n;
            },
            None => {},
        }
        i += 1;
    }
    assert(sizes@.take(sizes.len() as int) =~= sizes@);
    total
}

/// An entry of the log directory: its path, whether it is a file, its
/// extension, and when it last changed (nanoseconds from the Unix epoch).
pub struct DirEntry {
    pub path: String,
    pub is_file: bool,
    pub extension: Option<String>,
    pub modified: Option<i128>,
}

/// Whether an entry is a log file: a file with the extension `log`.
pub open spec fn is_log(e: DirEntry) -> bool {
    e.is_file && (e.extension matches Some(x) && x@ == "log"@)
}

/// `a` sorts before `b` newest first: a change time sorts before an unknown
/// one, and a later one before an earlier one.
pub open spec fn newer_or_same(a: Option<i128>, b: Option<i128>) -> bool {
    match (a, b) {
        (_, None) => true,
        (None, Some(_)) => false,
        (Some(x), Some(y)) => x >= y,
    }
}

/// The position at which an entry changed at `t` goes into a list sorted
/// newest first, after the entries at least as new.
pub open spec fn insert_position(l: Seq<(Seq<char>, Option<i128>)>, t: Option<i128>) -> int
    decreases l.len(),
{
    if l.len() == 0 {
        0
    } else if newer_or_same(l[0].1, t) {
        1 + insert_position(l.drop_first(), t)
    } else {
        0
    }
}

/// The log files of a directory listing, newest first; files changed at
/// the same time (or both of unknown time) keep their listing order.
pub open spec fn log_listing(es: Seq<DirEntry>) -> Seq<(Seq<char>, Option<i128>)>
    decreases es.len(),
{
    if es.len() == 0 {
        Seq::empty()
    } else {
        let prev = log_listing(es.drop_last());
        let e = es.last();
        if is_log(e) {
            let k = insert_position(prev, e.modified);
            prev.take(k).push((e.path@, e.modified)) + prev.skip(k)
        } else {
            prev
        }
    }
}

/// A listing is in order newest first.
pub open spec fn newest_first(l: Seq<(Seq<char>, Option<i128>)>) -> bool {
    forall|i: int, j: int| 0 <= i < j < l.len() ==> newer_or_same(#[trigger] l[i].1, #[trigger] l[j].1)
}

proof fn lemma_newer_or_same_transitive(a: Option<i128>, b: Option<i128>, c: Option<i128>)
    requires
        newer_or_same(a, b),
        newer_or_same(b, c),
    ensures
        newer_or_same(a, c),
{
}

proof fn lemma_newer_or_same_total(a: Option<i128>, b: Option<i128>)
    ensures
        newer_or_same(a, b) || newer_or_same(b, a),
{
}

proof fn lemma_insert_position_split(l: Seq<(Seq<char>, Option<i128>)>, t: Option<i128>)
    requires
        newest_first(l),
    ensures
        0 <= insert_position(l, t) <= l.len(),
        forall|i: int| 0 <= i < insert_position(l, t) ==> newer_or_same(#[trigger] l[i].1, t),
        forall|i: int|
            insert_position(l, t) <= i < l.len() ==> !newer_or_same(#[trigger] l[i].1, t),
    decreases l.len(),
{
    if l.len() > 0 {
        let rest = l.drop_first();
        assert(newest_first(rest)) by {
            assert forall|i: int, j: int| 0 <= i < j < rest.len() implies newer_or_same(
                #[trigger] rest[i].1,
                #[trigger] rest[j].1,
            ) by {
                assert(rest[i] == l[i + 1] && rest[j] == l[j + 1]);
            }
        }
        lemma_insert_position_split(rest, t);
        if newer_or_same(l[0].1, t) {
            assert forall|i: int| 0 <= i < insert_position(l, t) implies newer_or_same(
                #[trigger] l[i].1,
                t,
            ) by {
                if i > 0 {
                    assert(l[i] == rest[i - 1]);
                }
            }
            assert forall|i: int| insert_position(l, t) <= i < l.len() implies !newer_or_same(
                #[trigger] l[i].1,
                t,
            ) by {
                assert(l[i] == rest[i - 1]);
            }
        } else {
            assert forall|i: int| 0 <= i < l.len() implies !newer_or_same(#[trigger] l[i].1, t) by {
                if i > 0 && newer_or_same(l[i].1, t) {
                    assert(newer_or_same(l[0].1, l[i].1));
                    lemma_newer_or_same_transitive(l[0].1, l[i].1, t);
                }
            }
        }
    }
}

/// The log files are listed newest first: each file changed no earlier
/// than the ones after it, and files of unknown time come last.
pub proof fn log_listing_is_newest_first(es: Seq<DirEntry>)
    ensures
        newest_first(log_listing(es)),
    decreases es.len(),
{
    if es.len() > 0 {
        log_listing_is_newest_first(es.drop_last());
        let prev = log_listing(es.drop_last());
        let e = es.last();
        if is_log(e) {
            let t = e.modified;
            lemma_insert_position_split(prev, t);
            let k = insert_position(prev, t);
            let l = prev.take(k).push((e.path@, t)) + prev.skip(k);
            assert(l.len() == prev.len() + 1);
            assert forall|i: int, j: int| 0 <= i < j < l.len() implies newer_or_same(
                #[trigger] l[i].1,
                #[trigger] l[j].1,
            ) by {
                if j < k {
                    assert(l[i] == prev[i] && l[j] == prev[j]);
                } else if j == k {
                    assert(l[i] == prev[i]);
                    assert(l[j].1 == t);
                } else if i < k {
                    assert(l[i] == prev[i] && l[j] == prev[j - 1]);
                } else if i == k {
                    assert(l[i].1 == t);
                    assert(l[j] == prev[j - 1]);
                    assert(!newer_or_same(prev[j - 1].1, t));
                    lemma_newer_or_same_total(prev[j - 1].1, t);
                } else {
                    assert(l[i] == prev[i - 1] && l[j] == prev[j - 1]);
                }
            }
        }
    }
}

fn newer_or_same_exec(a: Option<i128>, b: Option<i128>) -> (r: bool)
    ensures
        r == newer_or_same(a, b),
{
    match (a, b) {
        (_, None) => true,
        (None, Some(_)) => false,
        (Some(x), Some(y)) => x >= y,
    }
}

/// The paths of the log files of a directory listing, newest first.
pub fn select_log_files(entries: &Vec<DirEntry>) -> (r: Vec<String>)
    ensures
        r@.map_values(|p: String| p@) == log_listing(entries@).map_values(
            |x: (Seq<char>, Option<i128>)| x.0,
        ),
{
    let mut sorted: Vec<(String, Option<i128>)> = Vec::new();
    let mut i: usize = 0;
    while i < entries.len()
        invariant
            i <= entries.len(),
            sorted@.map_values(|x: (String, Option<i128>)| (x.0@, x.1)) == log_listing(
                entries@.take(i as int),
            ),
        decreases entries.len() - i,
    {
        let ghost prev = log_listing(entries@.take(i as int));
        assert(entries@.take(i + 1).drop_last() =~= entries@.take(i as int));
        assert(entries@.take(i + 1).last() == entries@[i as int]);
        let e = &entries[i];
        let is_log_file = e.is_file && match &e.extension {
            Some(x) => str_eq(x.as_str(), "log"),
            None => false,
        };
        if is_log_file {
            let t = e.modified;
            let mut k: usize = 0;
            assert(prev.skip(0) =~= prev);
            while k < sorted.len() && newer_or_same_exec(sorted[k].1, t)
                invariant
                    k <= sorted.len(),
                    prev == sorted@.map_values(|x: (String, Option<i128>)| (x.0@, x.1)),
                    insert_position(prev, t) == k + insert_position(prev.skip(k as int), t),
                decreases sorted.len() - k,
            {
                assert(prev.skip(k as int)[0] == prev[k as int]);
                assert(prev.skip(k as int).drop_first() =~= prev.skip(k + 1));
                k += 1;
            }
            proof {
                if k < sorted.len() {
                    assert(prev.skip(k as int)[0] == prev[k as int]);
                }
            }
            let ghost before = sorted@;
            sorted.insert(k, (e.path.clone(), t));
            assert(sorted@.map_values(|x: (String, Option<i128>)| (x.0@, x.1)) =~= prev.take(
                k as int,
            ).push((e.path@, t)) + prev.skip(k as int));
        }
        i += 1;
    }
    assert(entries@.take(entries.len() as int) =~= entries@);
    let mut out: Vec<String> = Vec::new();
    let mut j: usize = 0;
    while j < sorted.len()
        invariant
            j <= sorted.len(),
            out@.map_values(|p: String| p@) == sorted@.take(j as int).map_values(
                |x: (String, Option<i128>)| x.0@,
            ),
        decreases sorted.len() - j,
    {
        let ghost before = out@;
        let p = sorted[j].0.clone();
        assert(p@ == sorted@[j as int].0@);
        out.push(p);
        assert(out@ == before.push(p));
        assert(sorted@.take(j + 1) =~= sorted@.take(j as int).push(sorted@[j as int]));
        let ghost lhs = out@.map_values(|p: String| p@);
        let ghost rhs = sorted@.take(j + 1).map_values(|x: (String, Option<i128>)| x.0@);
        let ghost old_rhs = sorted@.take(j as int).map_values(|x: (String, Option<i128>)| x.0@);
        assert(before.map_values(|p: String| p@).len() == before.len());
        assert(old_rhs.len() == j);
        assert(lhs.len() == rhs.len());
        assert forall|k: int| 0 <= k < lhs.len() implies lhs[k] == rhs[k] by {
            if k < j {
                assert(lhs[k] == before[k]@);
                assert(before.map_values(|p: String| p@)[k] == old_rhs[k]);
            }
        }
        assert(lhs =~= rhs);
        j += 1;
    }
    assert(sorted@.take(sorted.len() as int) =~= sorted@);
    assert(out@.map_values(|p: String| p@) =~= log_listing(entries@).map_values(
        |x: (Seq<char>, Option<i128>)| x.0,
    ));
    out
}


/// How many of the newest log files are kept by default when old ones are
/// cleared.
pub const DEFAULT_KEPT_LOGS: usize = 2;

/// The log files to delete, from a list newest first: all but the first
/// `keep_count` (by default two).
pub fn logs_to_delete(files: &Vec<String>, keep_count: Option<usize>) -> (r: Vec<String>)
    ensures
        ({
            let keep = match keep_count {
                Some(k) => k as int,
                None => DEFAULT_KEPT_LOGS as int,
            };
            r@.map_values(|f: String| f@) == if keep < files@.len() {
                files@.skip(keep).map_values(|f: String| f@)
            } else {
                Seq::<Seq<char>>::empty()
            }
        }),
{
    let keep = match keep_count {
        Some(k) => k,
        None => DEFAULT_KEPT_LOGS,
    };
    let mut out: Vec<String> = Vec::new();
    let mut i = keep;
    if i >= files.len() {
        return out;
    }
    while i < files.len()
        invariant
            keep <= i <= files.len(),
            keep < files.len(),
            out@.map_values(|f: String| f@) == files@.subrange(keep as int, i as int).map_values(
                |f: String| f@,
            ),
        decreases files.len() - i,
    {
        let ghost before = out@;
        let f = files[i].clone();
        out.push(f);
        let ghost lhs = out@.map_values(|f: String| f@);
        let ghost rhs = files@.subrange(keep as int, i + 1).map_values(|f: String| f@);
        let ghost old_rhs = files@.subrange(keep as int, i as int).map_values(|f: String| f@);
        assert(before.map_values(|f: String| f@).len() == before.len());
        assert(old_rhs.len() == i - keep);
        assert(lhs.len() == rhs.len());
        assert forall|k: int| 0 <= k < lhs.len() implies lhs[k] == rhs[k] by {
            if k < i - keep {
                assert(lhs[k] == before[k]@);
                assert(before.map_values(|f: String| f@)[k] == old_rhs[k]);
            }
        }
        assert(lhs =~= rhs);
        i += 1;
    }
    assert(files@.subrange(keep as int, files.len() as int) =~= files@.skip(keep as int));
    out
}

/// The name of a log export made at `timestamp` (`YYYYMMDD_HHMMSS`).
pub fn export_file_name(timestamp: &str) -> (r: String)
    ensures
        r@ == "maity_logs_"@ + timestamp@ + ".zip"@,
{
    let mut r = copy_str("maity_logs_");
    push_str(&mut r, timestamp);
    push_str(&mut r, ".zip");
    r
}

/// An export needs at least one log file.
pub fn check_export(file_count: usize) -> (r: Result<(), String>)
    ensures
        file_count == 0 ==> (r matches Err(e) && e@ == "No log files found to export"@),
        file_count > 0 ==> r is Ok,
{
    if file_count == 0 {
        Err(copy_str("No log files found to export"))
    } else {
        Ok(())
    }
}

/// The facts gathered for the system description of a log export.
pub struct SystemFacts {
    /// Local time, `YYYY-MM-DD HH:MM:SS`.
    pub generated: String,
    pub app_version: String,
    pub os: String,
    pub arch: String,
    pub total_memory_bytes: u64,
    pub available_memory_bytes: u64,
    pub cpu_count: usize,
    pub system_name: Option<String>,
    pub os_version: Option<String>,
}

/// The system description added to a log export.
pub open spec fn system_info_spec(f: SystemFacts) -> Seq<char> {
    "=== Maity Desktop System Info ===\n\n"@ + "Generated: "@ + f.generated@ + "\n"@
        + "App Version: "@ + f.app_version@ + "\n"@ + "OS: "@ + f.os@ + "\n"@
        + "Architecture: "@ + f.arch@ + "\n"@ + "Total Memory: "@ + decimal(
        (f.total_memory_bytes / 1024 / 1024) as nat,
    ) + " MB\n"@ + "Available Memory: "@ + decimal(
        (f.available_memory_bytes / 1024 / 1024) as nat,
    ) + " MB\n"@ + "CPU Count: "@ + decimal(f.cpu_count as nat) + "\n"@ + match f.system_name {
        Some(n) => "System Name: "@ + n@ + "\n"@,
        None => Seq::empty(),
    } + match f.os_version {
        Some(v) => "OS Version: "@ + v@ + "\n"@,
        None => Seq::empty(),
    } + "\n=== End System Info ===\n"@
}

/// The system description added to a log export.
pub fn generate_system_info(f: &SystemFacts) -> (r: String)
    ensures
        r@ == system_info_spec(*f),
{
    let mut info = copy_str("=== Maity Desktop System Info ===\n\n");
    push_str(&mut info, "Generated: ");
    push_str(&mut info, f.generated.as_str());
    push_str(&mut info, "\n");
    push_str(&mut info, "App Version: ");
    push_str(&mut info, f.app_version.as_str());
    push_str(&mut info, "\n");
    push_str(&mut info, "OS: ");
    push_str(&mut info, f.os.as_str());
    push_str(&mut info, "\n");
    push_str(&mut info, "Architecture: ");
    push_str(&mut info, f.arch.as_str());
    push_str(&mut info, "\n");
    push_str(&mut info, "Total Memory: ");
    push_decimal(&mut info, f.total_memory_bytes / 1024 / 1024);
    push_str(&mut info, " MB\n");
    push_str(&mut info, "Available Memory: ");
    push_decimal(&mut info, f.available_memory_bytes / 1024 / 1024);
    push_str(&mut info, " MB\n");
    push_str(&mut info, "CPU Count: ");
    push_decimal(&mut info, f.cpu_count as u64);
    push_str(&mut info, "\n");
    let ghost upto = info@;
    match &f.system_name {
        Some(n) => {
            push_str(&mut info, "System Name: ");
            push_str(&mut info, n.as_str());
            push_str(&mut info, "\n");
        },
        None => {
            assert(info@ =~= upto + Seq::<char>::empty());
        },
    }
    let ghost upto2 = info@;
    match &f.os_version {
        Some(v) => {
            push_str(&mut info, "OS Version: ");
            push_str(&mut info, v.as_str());
            push_str(&mut info, "\n");
        },
        None => {
            assert(info@ =~= upto2 + Seq::<char>::empty());
        },
    }
    push_str(&mut info, "\n=== End System Info ===\n");
    info
}

} // verus!
