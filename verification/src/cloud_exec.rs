//! Running a task on a copy of a workspace: what it changes comes back as a
//! list of changed files, which can be applied and taken back.

use crate::audit::{opt_text, AuditLog, AuditModel};
use crate::table::Table;
use crate::text::{
    contains_text, copy_str, decimal, decimal_text, has_text, less_text, same_text, signed_decimal, signed_decimal_text,
    text_less, text_order, texts,
};
use vstd::prelude::*;

verus! {

/// How a file has changed.
#[derive(Debug, Clone, Copy, PartialEq, Eq, Structural)]
pub enum DiffKind {
    Added,
    Modified,
    Deleted,
}

/// A changed file.
pub struct FileDiff {
    pub path: String,
    pub change: DiffKind,
    /// What it held before, where it was there.
    pub old: Option<String>,
    /// What it holds now, where it is there.
    pub new: Option<String>,
}

/// What a changed file says.
pub struct DiffModel {
    pub path: Seq<char>,
    pub change: DiffKind,
    pub old: Option<Seq<char>>,
    pub new: Option<Seq<char>>,
}

impl View for FileDiff {
    type V = DiffModel;

    open spec fn view(&self) -> DiffModel {
        DiffModel { path: self.path@, change: self.change, old: opt_text(self.old), new: opt_text(self.new) }
    }
}

pub open spec fn diff_models(v: Seq<FileDiff>) -> Seq<DiffModel> {
    v.map_values(|d: FileDiff| d@)
}

/// The files of a directory, by path.
pub type Files = Map<Seq<char>, Seq<char>>;

/// What is to be done to a file.
pub enum FileAction {
    /// Write the text, making the directories above where they are missing.
    Write { path: String, content: String },
    /// Remove the file, where it is there.
    Remove { path: String },
}

/// What an action does to the files.
pub open spec fn carried_out(files: Files, a: FileAction) -> Files {
    match a {
        FileAction::Write { path, content } => files.insert(path@, content@),
        FileAction::Remove { path } => files.remove(path@),
    }
}

/// The text, or nothing.
pub open spec fn text_or_empty(t: Option<Seq<char>>) -> Seq<char> {
    match t {
        Some(s) => s,
        None => Seq::<char>::empty(),
    }
}

/// The files with a change made.
pub open spec fn applied(files: Files, d: DiffModel) -> Files {
    match d.change {
        DiffKind::Deleted => files.remove(d.path),
        _ => files.insert(d.path, text_or_empty(d.new)),
    }
}

/// The files with a change taken back.
pub open spec fn reversed(files: Files, d: DiffModel) -> Files {
    match d.change {
        DiffKind::Added => files.remove(d.path),
        _ => files.insert(d.path, text_or_empty(d.old)),
    }
}

/// The files with all changes made, one after the other.
pub open spec fn all_applied(files: Files, v: Seq<DiffModel>) -> Files
    decreases v.len(),
{
    if v.len() == 0 {
        files
    } else {
        applied(all_applied(files, v.drop_last()), v.last())
    }
}

/// The files with all changes taken back, the last one first.
pub open spec fn all_reversed(files: Files, v: Seq<DiffModel>) -> Files
    decreases v.len(),
{
    if v.len() == 0 {
        files
    } else {
        all_reversed(reversed(files, v.last()), v.drop_last())
    }
}

fn owned_or_empty(t: &Option<String>) -> (r: String)
    ensures
        r@ == text_or_empty(opt_text(*t)),
{
    match t {
        Some(s) => s.clone(),
        None => String::new(),
    }
}

impl FileDiff {
    /// What makes the change.
    pub fn apply(&self) -> (r: FileAction)
        ensures
            forall|files: Files| #[trigger] carried_out(files, r) == applied(files, self@),
            r is Remove <==> self.change == DiffKind::Deleted,
    {
        match self.change {
            DiffKind::Deleted => FileAction::Remove { path: self.path.clone() },
            _ => FileAction::Write { path: self.path.clone(), content: owned_or_empty(&self.new) },
        }
    }

    /// What takes the change back.
    pub fn reverse(&self) -> (r: FileAction)
        ensures
            forall|files: Files| #[trigger] carried_out(files, r) == reversed(files, self@),
            r is Remove <==> self.change == DiffKind::Added,
    {
        match self.change {
            DiffKind::Added => FileAction::Remove { path: self.path.clone() },
            _ => FileAction::Write { path: self.path.clone(), content: owned_or_empty(&self.old) },
        }
    }
}

// ---------------------------------------------------------------------------
// Snapshots and their difference
// ---------------------------------------------------------------------------

/// The most changes that are listed.
pub const DIFF_LIMIT: usize = 200;

/// The largest file, in bytes.
pub const MAX_FILE_BYTES: u64 = 2_097_152;

/// The largest snapshot, in bytes.
pub const MAX_SNAPSHOT_BYTES: u64 = 67_108_864;

/// The files of a workspace as they are read in.
pub struct Snapshot {
    pub files: Table<String>,
    pub total: u64,
}

/// What a table of texts holds.
pub open spec fn file_map(t: Table<String>) -> Files {
    t@.map_values(|s: String| s@)
}

impl Snapshot {
    /// The bytes of the files so far.
    pub open spec fn bytes(self) -> nat {
        self.total as nat
    }

    pub open spec fn wf(self) -> bool {
        self.files.wf() && self.files.sorted() && self.total <= MAX_SNAPSHOT_BYTES
    }

    /// Nothing read.
    pub fn new() -> (r: Snapshot)
        ensures
            r.wf(),
            r.bytes() == 0,
            r.files@ == Map::<Seq<char>, String>::empty(),
    {
        Snapshot { files: Table::new(), total: 0 }
    }

    /// Admits a file of `len` bytes before it is read: neither the file nor the
    /// whole may be too large.
    pub fn measure(&mut self, path: &str, len: u64) -> (r: Result<(), String>)
        requires
            old(self).wf(),
        ensures
            final(self).files == old(self).files,
            match r {
                Ok(_) => len <= MAX_FILE_BYTES && old(self).bytes() + len <= MAX_SNAPSHOT_BYTES && final(self).bytes()
                    == old(self).bytes() + len && final(self).wf(),
                Err(e) => {
                    &&& len > MAX_FILE_BYTES || old(self).bytes() + len > MAX_SNAPSHOT_BYTES
                    &&& len > MAX_FILE_BYTES ==> e@ == "文件超过上限："@ + path@ + "（"@ + decimal(len as nat) + "B）"@
                    &&& len <= MAX_FILE_BYTES ==> e@ == "快照总大小超过上限（"@ + decimal(MAX_SNAPSHOT_BYTES as nat)
                        + "B）"@
                    &&& *final(self) == *old(self)
                },
            },
    {
        if len > MAX_FILE_BYTES {
            let mut e = copy_str("文件超过上限：");
            e.append(path);
            e.append("（");
            e.append(decimal_text(len).as_str());
            e.append("B）");
            return Err(e);
        }
        if self.total + len > MAX_SNAPSHOT_BYTES {
            let mut e = copy_str("快照总大小超过上限（");
            e.append(decimal_text(MAX_SNAPSHOT_BYTES).as_str());
            e.append("B）");
            return Err(e);
        }
        self.total = self.total + len;
        Ok(())
    }

    /// Adds what a file holds.
    pub fn add_file(&mut self, path: String, content: String)
        requires
            old(self).wf(),
        ensures
            final(self).wf(),
            final(self).bytes() == old(self).bytes(),
            final(self).files@ == old(self).files@.insert(path@, content),
    {
        self.files.insert_sorted(path, content);
    }
}

/// The change at a file of the later state, where there is one.
pub open spec fn forward_change(before: Files, path: Seq<char>, new: Seq<char>) -> Option<DiffModel> {
    if !before.contains_key(path) {
        Some(DiffModel { path, change: DiffKind::Added, old: None, new: Some(new) })
    } else if before[path] != new {
        Some(DiffModel { path, change: DiffKind::Modified, old: Some(before[path]), new: Some(new) })
    } else {
        None
    }
}

/// The change at a file that is there no more.
pub open spec fn deletion(path: Seq<char>, old: Seq<char>) -> DiffModel {
    DiffModel { path, change: DiffKind::Deleted, old: Some(old), new: None }
}

/// The change at a file that was not there.
pub open spec fn addition(path: Seq<char>, new: Seq<char>) -> DiffModel {
    DiffModel { path, change: DiffKind::Added, old: None, new: Some(new) }
}

/// The changes from the files `b` to the files `a`, both in the order of their
/// paths, in that order.
pub open spec fn merged(b: Seq<(String, String)>, a: Seq<(String, String)>) -> Seq<DiffModel>
    decreases b.len() + a.len(),
{
    if b.len() == 0 && a.len() == 0 {
        seq![]
    } else if a.len() == 0 || (b.len() > 0 && text_less(b[0].0@, a[0].0@)) {
        seq![deletion(b[0].0@, b[0].1@)] + merged(b.skip(1), a)
    } else if b.len() == 0 || text_less(a[0].0@, b[0].0@) {
        seq![addition(a[0].0@, a[0].1@)] + merged(b, a.skip(1))
    } else if b[0].1@ == a[0].1@ {
        merged(b.skip(1), a.skip(1))
    } else {
        seq![
            DiffModel { path: a[0].0@, change: DiffKind::Modified, old: Some(b[0].1@), new: Some(a[0].1@) },
        ] + merged(b.skip(1), a.skip(1))
    }
}

/// All that has changed, in the order of the paths.
pub open spec fn full_diff(before: Table<String>, after: Table<String>) -> Seq<DiffModel> {
    merged(before.entries@, after.entries@)
}

/// The changes stand in the order of their paths.
pub open spec fn by_path(v: Seq<DiffModel>) -> bool {
    forall|i: int, j: int| 0 <= i < j < v.len() ==> text_less((#[trigger] v[i]).path, (#[trigger] v[j]).path)
}

/// The changes `v` are the first ones from one state to the other by path: each
/// is one, and every other comes behind them.
pub open spec fn first_changes(v: Seq<DiffModel>, before: Files, after: Files) -> bool {
    &&& by_path(v)
    &&& forall|i: int| 0 <= i < v.len() ==> change_at(before, after, (#[trigger] v[i]).path) == Some(v[i])
    &&& forall|p: Seq<char>|
        change_at(before, after, p) is Some ==> #[trigger] has_path(v, p) || (forall|i: int|
            0 <= i < v.len() ==> text_less((#[trigger] v[i]).path, p))
}

/// The changes from `before` to `after` in the order of their paths.
fn all_changes(before: &Table<String>, after: &Table<String>) -> (r: Vec<FileDiff>)
    requires
        before.wf(),
        after.wf(),
    ensures
        diff_models(r@) == full_diff(*before, *after),
{
    let mut diff: Vec<FileDiff> = Vec::new();
    let ghost b = before.entries@;
    let ghost a = after.entries@;
    let mut i: usize = 0;
    let mut j: usize = 0;
    proof {
        assert(b.skip(0) =~= b);
        assert(a.skip(0) =~= a);
        assert(diff_models(diff@) + merged(b, a) =~= merged(b, a));
    }
    while i < before.entries.len() || j < after.entries.len()
        invariant
            b == before.entries@,
            a == after.entries@,
            i <= b.len(),
            j <= a.len(),
            diff_models(diff@) + merged(b.skip(i as int), a.skip(j as int)) == merged(b, a),
        decreases b.len() - i + a.len() - j,
    {
        let ghost done = diff@;
        let ghost bs = b.skip(i as int);
        let ghost rest = a.skip(j as int);
        proof {
            assert(i < b.len() ==> bs[0] == b[i as int] && bs.skip(1) =~= b.skip(i + 1));
            assert(j < a.len() ==> rest[0] == a[j as int] && rest.skip(1) =~= a.skip(j + 1));
        }
        let gone = i < before.entries.len() && (j >= after.entries.len() || less_text(
            before.entries[i].0.as_str(),
            after.entries[j].0.as_str(),
        ));
        if gone {
            let d = FileDiff {
                path: before.entries[i].0.clone(),
                change: DiffKind::Deleted,
                old: Some(before.entries[i].1.clone()),
                new: None,
            };
            let ghost m = d@;
            diff.push(d);
            i += 1;
            proof {
                change_listed(done, diff@, m, merged(b.skip(i as int), rest));
            }
        } else if i >= before.entries.len() || less_text(
            after.entries[j].0.as_str(),
            before.entries[i].0.as_str(),
        ) {
            let d = FileDiff {
                path: after.entries[j].0.clone(),
                change: DiffKind::Added,
                old: None,
                new: Some(after.entries[j].1.clone()),
            };
            let ghost m = d@;
            diff.push(d);
            j += 1;
            proof {
                change_listed(done, diff@, m, merged(bs, a.skip(j as int)));
            }
        } else {
            if !same_text(before.entries[i].1.as_str(), after.entries[j].1.as_str()) {
                let d = FileDiff {
                    path: after.entries[j].0.clone(),
                    change: DiffKind::Modified,
                    old: Some(before.entries[i].1.clone()),
                    new: Some(after.entries[j].1.clone()),
                };
                let ghost m = d@;
                diff.push(d);
                proof {
                    change_listed(done, diff@, m, merged(b.skip(i + 1), a.skip(j + 1)));
                }
            }
            i += 1;
            j += 1;
        }
    }
    assert(diff_models(diff@) + merged(b.skip(i as int), a.skip(j as int)) =~= diff_models(diff@));
    diff
}

proof fn change_listed(done: Seq<FileDiff>, now: Seq<FileDiff>, m: DiffModel, rest: Seq<DiffModel>)
    requires
        now.len() == done.len() + 1,
        now == done.push(now.last()),
        now.last()@ == m,
    ensures
        diff_models(now) + rest == diff_models(done) + (seq![m] + rest),
{
    assert forall|k: int| 0 <= k < done.len() implies now[k] == done[k] by {
        assert(done.push(now.last())[k] == done[k]);
    }
    assert(diff_models(now) + rest =~= diff_models(done) + (seq![m] + rest));
}

/// What has changed from `before` to `after`, in the order of the paths; only the
/// first changes where there are too many, which the second part of the result
/// tells.
pub fn compute_diff(before: &Table<String>, after: &Table<String>) -> (r: (Vec<FileDiff>, bool))
    requires
        before.wf(),
        before.sorted(),
        after.wf(),
        after.sorted(),
    ensures
        r.1 == (full_diff(*before, *after).len() > DIFF_LIMIT),
        diff_models(r.0@) == (if r.1 {
            full_diff(*before, *after).take(DIFF_LIMIT as int)
        } else {
            full_diff(*before, *after)
        }),
        by_path(diff_models(r.0@)),
        first_changes(diff_models(r.0@), file_map(*before), file_map(*after)),
        !r.1 ==> is_diff(diff_models(r.0@), file_map(*before), file_map(*after)),
{
    let mut diff = all_changes(before, after);
    proof {
        diff_is_exact(*before, *after);
        assert(diff_models(diff@).len() == diff@.len());
    }
    if diff.len() > DIFF_LIMIT {
        let ghost whole = diff_models(diff@);
        diff.truncate(DIFF_LIMIT);
        proof {
            assert(diff_models(diff@) =~= whole.take(DIFF_LIMIT as int));
            front_is_first(whole, DIFF_LIMIT as int, file_map(*before), file_map(*after));
        }
        return (diff, true);
    }
    proof {
        let whole = diff_models(diff@);
        assert(whole.take(whole.len() as int) =~= whole);
        front_is_first(whole, whole.len() as int, file_map(*before), file_map(*after));
    }
    (diff, false)
}

proof fn front_is_first(v: Seq<DiffModel>, n: int, before: Files, after: Files)
    requires
        is_diff(v, before, after),
        by_path(v),
        0 <= n <= v.len(),
    ensures
        first_changes(v.take(n), before, after),
{
    let front = v.take(n);
    assert forall|i: int, j: int| 0 <= i < j < front.len() implies text_less(
        (#[trigger] front[i]).path,
        (#[trigger] front[j]).path,
    ) by {
        assert(text_less(v[i].path, v[j].path));
    }
    assert forall|i: int| 0 <= i < front.len() implies change_at(before, after, (#[trigger] front[i]).path) == Some(
        front[i],
    ) by {
        assert(change_at(before, after, v[i].path) == Some(v[i]));
    }
    assert forall|p: Seq<char>| change_at(before, after, p) is Some implies #[trigger] has_path(front, p) || (forall|i: int|
        0 <= i < front.len() ==> text_less((#[trigger] front[i]).path, p)) by {
        assert(has_path(v, p));
        let k = choose|k: int| 0 <= k < v.len() && (#[trigger] v[k]).path == p;
        if k < n {
            assert(front[k].path == p);
        } else {
            assert forall|i: int| 0 <= i < front.len() implies text_less((#[trigger] front[i]).path, p) by {
                assert(text_less(v[i].path, v[k].path));
            }
        }
    }
}

// ---------------------------------------------------------------------------
// Changes lead from one state to the other and back
// ---------------------------------------------------------------------------

/// What stands at a path.
pub open spec fn at(files: Files, p: Seq<char>) -> Option<Seq<char>> {
    if files.contains_key(p) {
        Some(files[p])
    } else {
        None
    }
}

/// The change at a path from one state to the other, where there is one.
pub open spec fn change_at(before: Files, after: Files, p: Seq<char>) -> Option<DiffModel> {
    if after.contains_key(p) {
        forward_change(before, p, after[p])
    } else if before.contains_key(p) {
        Some(DiffModel { path: p, change: DiffKind::Deleted, old: Some(before[p]), new: None })
    } else {
        None
    }
}

/// One of the changes is at the path.
pub open spec fn has_path(v: Seq<DiffModel>, p: Seq<char>) -> bool {
    exists|i: int| 0 <= i < v.len() && (#[trigger] v[i]).path == p
}

/// No two changes are at the same path.
pub open spec fn paths_differ(v: Seq<DiffModel>) -> bool {
    forall|i: int, j: int| 0 <= i < j < v.len() ==> (#[trigger] v[i]).path != (#[trigger] v[j]).path
}

/// The changes are those from one state to the other, each once.
pub open spec fn is_diff(v: Seq<DiffModel>, before: Files, after: Files) -> bool {
    &&& paths_differ(v)
    &&& forall|i: int| 0 <= i < v.len() ==> change_at(before, after, (#[trigger] v[i]).path) == Some(v[i])
    &&& forall|p: Seq<char>| change_at(before, after, p) is Some ==> #[trigger] has_path(v, p)
}

/// One of the entries from `i` on has the path.
spec fn from_on(v: Seq<(String, String)>, i: int, p: Seq<char>) -> bool {
    exists|k: int| i <= k < v.len() && (#[trigger] v[k]).0@ == p
}

/// The entries before `i` come before all of `w` from `j` on.
spec fn passed(v: Seq<(String, String)>, i: int, w: Seq<(String, String)>, j: int) -> bool {
    forall|k: int, l: int|
        0 <= k < i && j <= l < w.len() ==> text_less((#[trigger] v[k]).0@, (#[trigger] w[l]).0@)
}

proof fn file_map_entry(t: Table<String>, k: int)
    requires
        t.wf(),
        0 <= k < t.entries@.len(),
    ensures
        file_map(t).contains_key(t.entries@[k].0@),
        file_map(t)[t.entries@[k].0@] == t.entries@[k].1@,
{
    t.entry_is_value(k);
}

/// A path that stands behind the first `i` entries and before the others is not
/// in the table.
proof fn between_is_absent(t: Table<String>, i: int, q: Seq<char>)
    requires
        t.wf(),
        0 <= i <= t.entries@.len(),
        forall|k: int| 0 <= k < i ==> text_less((#[trigger] t.entries@[k]).0@, q),
        forall|k: int| i <= k < t.entries@.len() ==> text_less(q, (#[trigger] t.entries@[k]).0@),
    ensures
        !file_map(t).contains_key(q),
{
    if file_map(t).contains_key(q) {
        t.slot_of_key(q);
        let k = t.slot(q);
        assert(t.entries@[k].0@ == q);
        text_order(q, q, q);
    }
}

/// An entry comes before all that follow it, and before all that follow one that
/// comes behind it.
proof fn entry_is_first(t: Table<String>, i: int, q: Seq<char>)
    requires
        t.sorted(),
        0 <= i <= t.entries@.len(),
        i < t.entries@.len() ==> text_less(q, t.entries@[i].0@) || q == t.entries@[i].0@,
    ensures
        forall|k: int| i < k < t.entries@.len() ==> text_less(q, (#[trigger] t.entries@[k]).0@),
        i < t.entries@.len() && text_less(q, t.entries@[i].0@) ==> forall|k: int|
            i <= k < t.entries@.len() ==> text_less(q, (#[trigger] t.entries@[k]).0@),
{
    assert forall|k: int| i < k < t.entries@.len() implies text_less(q, (#[trigger] t.entries@[k]).0@) by {
        assert(text_less(t.entries@[i].0@, t.entries@[k].0@));
        text_order(q, t.entries@[i].0@, t.entries@[k].0@);
    }
}

/// What the merged changes from `i` and `j` on are.
spec fn rest_is_right(before: Table<String>, after: Table<String>, i: int, j: int) -> bool {
    let v = merged(before.entries@.skip(i), after.entries@.skip(j));
    let b = file_map(before);
    let a = file_map(after);
    &&& by_path(v)
    &&& forall|m: int|
        0 <= m < v.len() ==> change_at(b, a, (#[trigger] v[m]).path) == Some(v[m]) && (from_on(
            before.entries@,
            i,
            v[m].path,
        ) || from_on(after.entries@, j, v[m].path))
    &&& forall|p: Seq<char>|
        change_at(b, a, p) is Some && (from_on(before.entries@, i, p) || from_on(after.entries@, j, p))
            ==> #[trigger] has_path(v, p)
}

/// A change before all others is put in front of them.
proof fn put_in_front(
    before: Table<String>,
    after: Table<String>,
    i: int,
    j: int,
    i2: int,
    j2: int,
    q: Seq<char>,
)
    requires
        before.wf(),
        before.sorted(),
        after.wf(),
        after.sorted(),
        0 <= i <= i2 <= i + 1,
        0 <= j <= j2 <= j + 1,
        i2 <= before.entries@.len(),
        j2 <= after.entries@.len(),
        i2 > i ==> before.entries@[i].0@ == q,
        j2 > j ==> after.entries@[j].0@ == q,
        forall|k: int| i2 <= k < before.entries@.len() ==> text_less(q, (#[trigger] before.entries@[k]).0@),
        forall|k: int| j2 <= k < after.entries@.len() ==> text_less(q, (#[trigger] after.entries@[k]).0@),
        i2 > i || j2 > j,
        rest_is_right(before, after, i2, j2),
        ({
            let v = merged(before.entries@.skip(i), after.entries@.skip(j));
            let rest = merged(before.entries@.skip(i2), after.entries@.skip(j2));
            match change_at(file_map(before), file_map(after), q) {
                Some(d) => d.path == q && v == seq![d] + rest,
                None => v == rest,
            }
        }),
    ensures
        rest_is_right(before, after, i, j),
{
    let be = before.entries@;
    let ae = after.entries@;
    let b = file_map(before);
    let a = file_map(after);
    let v = merged(be.skip(i), ae.skip(j));
    let rest = merged(be.skip(i2), ae.skip(j2));
    let n: int = if change_at(b, a, q) is Some {
        1
    } else {
        0
    };
    assert forall|m: int| n <= m < v.len() implies (#[trigger] v[m]) == rest[m - n] && text_less(q, v[m].path) by {
        assert(v[m] == rest[m - n]);
        let p = rest[m - n].path;
        if from_on(be, i2, p) {
            let k = choose|k: int| i2 <= k < be.len() && (#[trigger] be[k]).0@ == p;
            assert(text_less(q, be[k].0@));
        } else {
            let k = choose|k: int| j2 <= k < ae.len() && (#[trigger] ae[k]).0@ == p;
            assert(text_less(q, ae[k].0@));
        }
    }
    assert forall|m: int, l: int| 0 <= m < l < v.len() implies text_less(
        (#[trigger] v[m]).path,
        (#[trigger] v[l]).path,
    ) by {
        if m >= n {
            assert(text_less(rest[m - n].path, rest[l - n].path));
        } else {
            assert(v[m].path == q);
        }
    }
    assert forall|m: int| 0 <= m < v.len() implies change_at(b, a, (#[trigger] v[m]).path) == Some(v[m]) && (from_on(
        be,
        i,
        v[m].path,
    ) || from_on(ae, j, v[m].path)) by {
        if m >= n {
            let p = rest[m - n].path;
            assert(v[m] == rest[m - n]);
            if from_on(be, i2, p) {
                let k = choose|k: int| i2 <= k < be.len() && (#[trigger] be[k]).0@ == p;
                assert(be[k].0@ == p && i <= k);
            } else {
                let k = choose|k: int| j2 <= k < ae.len() && (#[trigger] ae[k]).0@ == p;
                assert(ae[k].0@ == p && j <= k);
            }
        } else if i2 > i {
            assert(be[i].0@ == v[m].path);
        } else {
            assert(ae[j].0@ == v[m].path);
        }
    }
    assert forall|p: Seq<char>| change_at(b, a, p) is Some && (from_on(be, i, p) || from_on(ae, j, p)) implies #[trigger] has_path(
        v,
        p,
    ) by {
        if p == q {
            assert(v[0].path == p);
        } else {
            if from_on(be, i, p) {
                let k = choose|k: int| i <= k < be.len() && (#[trigger] be[k]).0@ == p;
                assert(be[k].0@ == p && i2 <= k);
            } else {
                let k = choose|k: int| j <= k < ae.len() && (#[trigger] ae[k]).0@ == p;
                assert(ae[k].0@ == p && j2 <= k);
            }
            assert(has_path(rest, p));
            let m = choose|m: int| 0 <= m < rest.len() && (#[trigger] rest[m]).path == p;
            assert(v[m + n] == rest[m]);
        }
    }
}

proof fn merge_is_right(before: Table<String>, after: Table<String>, i: int, j: int)
    requires
        before.wf(),
        before.sorted(),
        after.wf(),
        after.sorted(),
        0 <= i <= before.entries@.len(),
        0 <= j <= after.entries@.len(),
        passed(before.entries@, i, after.entries@, j),
        passed(after.entries@, j, before.entries@, i),
    ensures
        rest_is_right(before, after, i, j),
    decreases before.entries@.len() - i + after.entries@.len() - j,
{
    let be = before.entries@;
    let ae = after.entries@;
    let bs = be.skip(i);
    let rest = ae.skip(j);
    assert(i < be.len() ==> bs[0] == be[i] && bs.skip(1) =~= be.skip(i + 1));
    assert(j < ae.len() ==> rest[0] == ae[j] && rest.skip(1) =~= ae.skip(j + 1));
    if i >= be.len() && j >= ae.len() {
        assert forall|p: Seq<char>| !from_on(be, i, p) && !from_on(ae, j, p) by {}
        assert(rest_is_right(before, after, i, j));
    } else if j >= ae.len() || (i < be.len() && text_less(be[i].0@, ae[j].0@)) {
        let q = be[i].0@;
        entry_is_first(before, i, q);
        entry_is_first(after, j, q);
        between_is_absent(after, j, q);
        file_map_entry(before, i);
        merge_is_right(before, after, i + 1, j);
        put_in_front(before, after, i, j, i + 1, j, q);
    } else if i >= be.len() || text_less(ae[j].0@, be[i].0@) {
        let q = ae[j].0@;
        entry_is_first(after, j, q);
        entry_is_first(before, i, q);
        between_is_absent(before, i, q);
        file_map_entry(after, j);
        merge_is_right(before, after, i, j + 1);
        put_in_front(before, after, i, j, i, j + 1, q);
    } else {
        let q = ae[j].0@;
        text_order(q, be[i].0@, q);
        assert(q == be[i].0@);
        entry_is_first(after, j, q);
        entry_is_first(before, i, q);
        file_map_entry(after, j);
        file_map_entry(before, i);
        merge_is_right(before, after, i + 1, j + 1);
        put_in_front(before, after, i, j, i + 1, j + 1, q);
    }
}

/// What is found to have changed is exactly what differs, each path once, in the
/// order of the paths.
pub proof fn diff_is_exact(before: Table<String>, after: Table<String>)
    requires
        before.wf(),
        before.sorted(),
        after.wf(),
        after.sorted(),
    ensures
        is_diff(full_diff(before, after), file_map(before), file_map(after)),
        by_path(full_diff(before, after)),
{
    let be = before.entries@;
    let ae = after.entries@;
    let v = full_diff(before, after);
    let b = file_map(before);
    let a = file_map(after);
    assert(be.skip(0) =~= be);
    assert(ae.skip(0) =~= ae);
    merge_is_right(before, after, 0, 0);
    assert forall|i: int, j: int| 0 <= i < j < v.len() implies (#[trigger] v[i]).path != (#[trigger] v[j]).path by {
        text_order(v[i].path, v[i].path, v[i].path);
    }
    assert forall|p: Seq<char>| change_at(b, a, p) is Some implies #[trigger] has_path(v, p) by {
        if a.contains_key(p) {
            after.slot_of_key(p);
            assert(ae[after.slot(p)].0@ == p);
            assert(from_on(ae, 0, p));
        } else {
            before.slot_of_key(p);
            assert(be[before.slot(p)].0@ == p);
            assert(from_on(be, 0, p));
        }
    }
}

proof fn applied_at(files: Files, v: Seq<DiffModel>, p: Seq<char>)
    requires
        paths_differ(v),
    ensures
        !has_path(v, p) ==> at(all_applied(files, v), p) == at(files, p),
        forall|i: int|
            0 <= i < v.len() && (#[trigger] v[i]).path == p ==> at(all_applied(files, v), p) == at(
                applied(files, v[i]),
                p,
            ),
    decreases v.len(),
{
    if v.len() > 0 {
        let front = v.drop_last();
        assert(paths_differ(front)) by {
            assert forall|i: int, j: int| 0 <= i < j < front.len() implies (#[trigger] front[i]).path != (
            #[trigger] front[j]).path by {
                assert(v[i].path != v[j].path);
            }
        }
        applied_at(files, front, p);
        assert(v[v.len() - 1] == v.last());
        if v.last().path == p {
            assert forall|i: int| 0 <= i < v.len() && (#[trigger] v[i]).path == p implies i == v.len() - 1 by {
                if i < v.len() - 1 {
                    assert(v[i].path != v[v.len() - 1].path);
                }
            }
        } else {
            assert(has_path(front, p) ==> has_path(v, p)) by {
                if has_path(front, p) {
                    let i = choose|i: int| 0 <= i < front.len() && (#[trigger] front[i]).path == p;
                    assert(v[i].path == p);
                }
            }
            assert forall|i: int| 0 <= i < v.len() && (#[trigger] v[i]).path == p implies at(
                all_applied(files, v),
                p,
            ) == at(applied(files, v[i]), p) by {
                assert(front[i].path == p);
            }
        }
    }
}

proof fn reversed_at(files: Files, v: Seq<DiffModel>, p: Seq<char>)
    requires
        paths_differ(v),
    ensures
        !has_path(v, p) ==> at(all_reversed(files, v), p) == at(files, p),
        forall|i: int|
            0 <= i < v.len() && (#[trigger] v[i]).path == p ==> at(all_reversed(files, v), p) == at(
                reversed(files, v[i]),
                p,
            ),
    decreases v.len(),
{
    if v.len() > 0 {
        let front = v.drop_last();
        assert(paths_differ(front)) by {
            assert forall|i: int, j: int| 0 <= i < j < front.len() implies (#[trigger] front[i]).path != (
            #[trigger] front[j]).path by {
                assert(v[i].path != v[j].path);
            }
        }
        let next = reversed(files, v.last());
        reversed_at(next, front, p);
        assert(v[v.len() - 1] == v.last());
        if v.last().path == p {
            assert(!has_path(front, p)) by {
                if has_path(front, p) {
                    let i = choose|i: int| 0 <= i < front.len() && (#[trigger] front[i]).path == p;
                    assert(v[i].path != v[v.len() - 1].path);
                }
            }
            assert forall|i: int| 0 <= i < v.len() && (#[trigger] v[i]).path == p implies i == v.len() - 1 by {
                if i < v.len() - 1 {
                    assert(v[i].path != v[v.len() - 1].path);
                }
            }
        } else {
            assert(at(next, p) == at(files, p));
            assert(has_path(front, p) ==> has_path(v, p)) by {
                if has_path(front, p) {
                    let i = choose|i: int| 0 <= i < front.len() && (#[trigger] front[i]).path == p;
                    assert(v[i].path == p);
                }
            }
            assert forall|i: int| 0 <= i < v.len() && (#[trigger] v[i]).path == p implies at(
                all_reversed(files, v),
                p,
            ) == at(reversed(files, v[i]), p) by {
                assert(front[i].path == p);
                assert(at(reversed(next, v[i]), p) == at(reversed(files, v[i]), p));
            }
        }
    }
}

/// Making all changes leads from the earlier state to the later one.
pub proof fn applying_leads_to_after(v: Seq<DiffModel>, before: Files, after: Files)
    requires
        is_diff(v, before, after),
    ensures
        all_applied(before, v) == after,
{
    let end = all_applied(before, v);
    assert forall|p: Seq<char>| at(end, p) == at(after, p) by {
        applied_at(before, v, p);
        if has_path(v, p) {
            let i = choose|i: int| 0 <= i < v.len() && (#[trigger] v[i]).path == p;
            assert(change_at(before, after, p) == Some(v[i]));
        } else {
            assert(change_at(before, after, p) is None);
        }
    }
    assert forall|p: Seq<char>| end.contains_key(p) <==> after.contains_key(p) by {
        assert(at(end, p) == at(after, p));
    }
    assert forall|p: Seq<char>| end.contains_key(p) implies end[p] == after[p] by {
        assert(at(end, p) == at(after, p));
    }
    assert(end =~= after);
}

/// Taking all changes back leads from the later state to the earlier one; so
/// what was applied and taken back leaves the files as they were.
pub proof fn reverting_leads_to_before(v: Seq<DiffModel>, before: Files, after: Files)
    requires
        is_diff(v, before, after),
    ensures
        all_reversed(after, v) == before,
        all_reversed(all_applied(before, v), v) == before,
{
    applying_leads_to_after(v, before, after);
    let end = all_reversed(after, v);
    assert forall|p: Seq<char>| at(end, p) == at(before, p) by {
        reversed_at(after, v, p);
        if has_path(v, p) {
            let i = choose|i: int| 0 <= i < v.len() && (#[trigger] v[i]).path == p;
            assert(change_at(before, after, p) == Some(v[i]));
        } else {
            assert(change_at(before, after, p) is None);
        }
    }
    assert forall|p: Seq<char>| end.contains_key(p) <==> before.contains_key(p) by {
        assert(at(end, p) == at(before, p));
    }
    assert forall|p: Seq<char>| end.contains_key(p) implies end[p] == before[p] by {
        assert(at(end, p) == at(before, p));
    }
    assert(end =~= before);
}

/// The change fits the files: what it holds as old stands there.
pub open spec fn fits(files: Files, d: DiffModel) -> bool {
    match d.change {
        DiffKind::Added => !files.contains_key(d.path),
        _ => files.contains_key(d.path) && d.old == Some(files[d.path]),
    }
}

/// Whatever changes are made at different paths, as long as each fits the files,
/// taking them back leaves the files as they were.
pub proof fn taking_back_undoes(v: Seq<DiffModel>, files: Files)
    requires
        paths_differ(v),
        forall|i: int| 0 <= i < v.len() ==> fits(files, #[trigger] v[i]),
    ensures
        all_reversed(all_applied(files, v), v) == files,
{
    let there = all_applied(files, v);
    let end = all_reversed(there, v);
    assert forall|p: Seq<char>| at(end, p) == at(files, p) by {
        applied_at(files, v, p);
        reversed_at(there, v, p);
        if has_path(v, p) {
            let i = choose|i: int| 0 <= i < v.len() && (#[trigger] v[i]).path == p;
            assert(fits(files, v[i]));
        }
    }
    assert forall|p: Seq<char>| end.contains_key(p) <==> files.contains_key(p) by {
        assert(at(end, p) == at(files, p));
    }
    assert forall|p: Seq<char>| end.contains_key(p) implies end[p] == files[p] by {
        assert(at(end, p) == at(files, p));
    }
    assert(end =~= files);
}

// ---------------------------------------------------------------------------
// Tasks
// ---------------------------------------------------------------------------

/// What is to be run. It carries no credentials.
pub struct CloudTaskSpec {
    pub name: String,
    pub workspace_dir: String,
    /// Run in this order.
    pub commands: Vec<String>,
    /// The names of the variables of the environment that are passed on.
    pub env_passthrough: Vec<String>,
    /// For each command.
    pub timeout_secs: u64,
}

/// What came of a task.
pub struct CloudTaskResult {
    pub task_id: String,
    pub exit_code: Option<i32>,
    pub stdout: String,
    pub stderr: String,
    pub diff: Vec<FileDiff>,
    /// There were more changes than are listed.
    pub diff_truncated: bool,
}

impl CloudTaskResult {
    /// Brings the changes into a directory, in order: what is to be done once
    /// `tried` of them were tried and `last` came of the last one (at the start,
    /// nothing went wrong). The first that fails ends it, with its position.
    pub fn apply_to(&self, tried: usize, last: Result<(), String>) -> (r: ApplyStep)
        requires
            tried <= self.diff@.len(),
            tried == 0 ==> last is Ok,
        ensures
            r.model() == apply_step(self.diff@.len(), tried as int, attempt_model(last)),
            r matches ApplyStep::Perform { action, .. } ==> forall|files: Files|
                #[trigger] carried_out(files, action) == applied(files, self.diff@[tried as int]@),
    {
        match last {
            Err(error) => ApplyStep::Failed { position: tried - 1, error },
            Ok(_) => if tried == self.diff.len() {
                ApplyStep::Done { count: tried }
            } else {
                ApplyStep::Perform { position: tried, action: self.diff[tried].apply() }
            },
        }
    }

    /// Takes the changes out of a directory again, the last one first: what is to
    /// be done once `tried` of them were tried and `last` came of the last one.
    /// The first that fails ends it.
    pub fn revert_from(&self, tried: usize, last: Result<(), String>) -> (r: RevertStep)
        requires
            tried <= self.diff@.len(),
            tried == 0 ==> last is Ok,
        ensures
            match apply_step(self.diff@.len(), tried as int, attempt_model(last)) {
                StepModel::Perform(k) => r matches RevertStep::Perform(action) && forall|files: Files|
                    #[trigger] carried_out(files, action) == reversed(files, self.diff@[self.diff@.len() - 1 - k]@),
                StepModel::Done(n) => r matches RevertStep::Done { count } && count == n,
                StepModel::Failed(k, e) => r matches RevertStep::Failed(error) && error@ == "回滚 "@
                    + self.diff@[self.diff@.len() - 1 - k].path@ + " 失败:"@ + e,
            },
    {
        let n: usize = self.diff.len();
        match last {
            Err(error) => {
                let mut e = copy_str("回滚 ");
                e.append(self.diff[n - tried].path.as_str());
                e.append(" 失败:");
                e.append(error.as_str());
                RevertStep::Failed(e)
            },
            Ok(_) => if tried == n {
                RevertStep::Done { count: n }
            } else {
                RevertStep::Perform(self.diff[n - 1 - tried].reverse())
            },
        }
    }
}

/// Step by step, the first failure ends it: up to it all went well, what is
/// reported is its position and its error, and nothing behind it was tried. Where
/// none fails, every change was made, in order.
pub proof fn first_failure_ends_it(v: Seq<DiffModel>, files: Files, outcomes: Seq<Result<(), Seq<char>>>)
    requires
        in_turn(v.len(), outcomes),
    ensures
        outcomes.len() <= v.len(),
        match apply_step(v.len(), outcomes.len() as int, last_attempt(outcomes)) {
            StepModel::Perform(k) => {
                &&& k == outcomes.len() < v.len()
                &&& forall|i: int| 0 <= i < k ==> (#[trigger] outcomes[i]) is Ok
                &&& after_attempts(files, v, outcomes) == all_applied(files, v.take(k))
            },
            StepModel::Done(n) => {
                &&& n == v.len() == outcomes.len()
                &&& forall|i: int| 0 <= i < n ==> (#[trigger] outcomes[i]) is Ok
                &&& after_attempts(files, v, outcomes) == all_applied(files, v)
            },
            StepModel::Failed(k, e) => {
                &&& k == outcomes.len() - 1
                &&& 0 <= k < v.len()
                &&& outcomes[k] == Err::<(), Seq<char>>(e)
                &&& forall|i: int| 0 <= i < k ==> (#[trigger] outcomes[i]) is Ok
                &&& after_attempts(files, v, outcomes) == all_applied(files, v.take(k))
            },
        },
    decreases outcomes.len(),
{
    if outcomes.len() == 0 {
        assert(v.take(0) =~= seq![]);
        assert(v.len() == 0 ==> v =~= seq![]);
    } else {
        let front = outcomes.drop_last();
        let k = front.len() as int;
        assert forall|i: int| 0 <= i < front.len() implies #[trigger] apply_step(v.len(), i, last_attempt(front.take(i)))
            == StepModel::Perform(i) by {
            assert(front.take(i) =~= outcomes.take(i));
            assert(apply_step(v.len(), i, last_attempt(outcomes.take(i))) == StepModel::Perform(i));
        }
        first_failure_ends_it(v, files, front);
        assert(outcomes.take(k) =~= front);
        assert(apply_step(v.len(), k, last_attempt(outcomes.take(k))) == StepModel::Perform(k));
        assert forall|i: int| 0 <= i < k implies (#[trigger] outcomes[i]) is Ok by {
            assert(front[i] is Ok);
        }
        assert(v.take(k + 1).drop_last() =~= v.take(k));
        assert(v.take(v.len() as int) =~= v);
    }
}

/// The next step in bringing changes into a directory.
pub enum ApplyStep {
    /// Do this for the change at this position.
    Perform { position: usize, action: FileAction },
    /// All changes were made.
    Done { count: usize },
    /// The change at this position failed; nothing behind it is to be done.
    Failed { position: usize, error: String },
}

/// The next step in taking changes out of a directory.
pub enum RevertStep {
    Perform(FileAction),
    /// All changes were taken back.
    Done { count: usize },
    /// One could not be taken back; nothing more is to be done.
    Failed(String),
}

/// The next step through a list: try the one at a position, or end.
pub enum StepModel {
    Perform(int),
    Done(int),
    Failed(int, Seq<char>),
}

impl ApplyStep {
    pub open spec fn model(self) -> StepModel {
        match self {
            ApplyStep::Perform { position, .. } => StepModel::Perform(position as int),
            ApplyStep::Done { count } => StepModel::Done(count as int),
            ApplyStep::Failed { position, error } => StepModel::Failed(position as int, error@),
        }
    }
}

/// What came of one change.
pub open spec fn attempt_model(r: Result<(), String>) -> Result<(), Seq<char>> {
    match r {
        Ok(_) => Ok(()),
        Err(e) => Err(e@),
    }
}

/// The next step through `n` changes once `tried` of them were tried.
pub open spec fn apply_step(n: nat, tried: int, last: Result<(), Seq<char>>) -> StepModel {
    match last {
        Err(e) => StepModel::Failed(tried - 1, e),
        Ok(_) => if tried == n {
            StepModel::Done(n as int)
        } else {
            StepModel::Perform(tried)
        },
    }
}

/// What came of the last of the changes that were tried.
pub open spec fn last_attempt(outcomes: Seq<Result<(), Seq<char>>>) -> Result<(), Seq<char>> {
    if outcomes.len() == 0 {
        Ok(())
    } else {
        outcomes.last()
    }
}

/// The outcomes came about step by step: each change was tried because it was the
/// next one.
pub open spec fn in_turn(n: nat, outcomes: Seq<Result<(), Seq<char>>>) -> bool {
    forall|k: int|
        0 <= k < outcomes.len() ==> #[trigger] apply_step(n, k, last_attempt(outcomes.take(k))) == StepModel::Perform(k)
}

/// The files once changes were tried: one that failed changed nothing.
pub open spec fn after_attempts(files: Files, v: Seq<DiffModel>, outcomes: Seq<Result<(), Seq<char>>>) -> Files
    decreases outcomes.len(),
{
    if outcomes.len() == 0 {
        files
    } else {
        let before = after_attempts(files, v, outcomes.drop_last());
        if outcomes.last() is Ok {
            applied(before, v[outcomes.len() - 1])
        } else {
            before
        }
    }
}

/// A task with its copy of the workspace.
pub struct CloudTask {
    pub task_id: String,
    pub spec: CloudTaskSpec,
    pub temp_dir: Option<String>,
    pub result: Option<CloudTaskResult>,
}

/// Runs tasks on copies of their workspaces.
pub struct LocalSimExecutor {
    pub tasks: Table<CloudTask>,
    pub audit: AuditLog,
    pub counter: u64,
}

/// The decimal notation of a number, with zeros in front up to five digits.
pub open spec fn five_digits(n: nat) -> Seq<char> {
    zeros(5 - decimal(n).len()) + decimal(n)
}

pub open spec fn zeros(n: int) -> Seq<char>
    decreases n,
{
    if n <= 0 {
        Seq::<char>::empty()
    } else {
        zeros(n - 1).push('0')
    }
}

fn five_digit_text(n: u64) -> (r: String)
    ensures
        r@ == five_digits(n as nat),
{
    let digits = decimal_text(n);
    let len: usize = crate::text::chars_of(digits.as_str()).len();
    let mut r = String::new();
    let mut k: usize = 0;
    assert(r@ =~= zeros(0));
    while len < 5 && k < 5 - len
        invariant
            len == decimal(n as nat).len(),
            k == 0 || k <= 5 - len,
            r@ == zeros(k as int),
        decreases 5 - len - k,
    {
        r.push('0');
        k += 1;
    }
    assert(zeros(k as int) =~= zeros(5 - len));
    r.append(digits.as_str());
    r
}

/// Why a task is not accepted.
pub open spec fn refusal(spec: CloudTaskSpec, workspace_is_dir: bool) -> Option<Seq<char>> {
    if spec.commands@.len() == 0 {
        Some("任务至少需要一条命令"@)
    } else if holds_equals(spec.env_passthrough@) {
        Some("env_passthrough 只允许变量名，禁止内联值"@)
    } else if !workspace_is_dir {
        Some("工作区目录不存在："@ + spec.workspace_dir@)
    } else {
        None
    }
}

/// One of the names holds an equals sign.
pub open spec fn holds_equals(v: Seq<String>) -> bool {
    exists|i: int| 0 <= i < v.len() && has_text((#[trigger] v[i])@, "="@)
}

/// An entry of the record on a task.
pub open spec fn cloud_entry(event: Seq<char>, detail: Seq<char>) -> AuditModel {
    AuditModel { session_id: "cloud"@, event, tool: None, approved: None, detail }
}

/// The identifier of the `n`-th task.
pub open spec fn task_name(n: nat) -> Seq<char> {
    "cloud-"@ + five_digits(n)
}

/// How far the commands of a task have come.
pub struct RunState {
    pub done: usize,
    pub stdout: String,
    pub stderr: String,
    pub exit_code: Option<i32>,
    pub timed_out: bool,
}

/// How a command ended.
pub enum CommandEnd {
    Output { stdout: String, stderr: String, code: Option<i32> },
    /// It could not be started.
    Unstarted(String),
    TimedOut,
}

/// What to do next.
pub enum RunNext {
    /// Run the command at this position.
    Command(usize),
    /// All commands that are to be run have run.
    Finished,
    Fail(String),
}

impl RunState {
    /// No command has run.
    pub fn new() -> (r: RunState)
        ensures
            r.done == 0,
            r.stdout@.len() == 0,
            r.stderr@.len() == 0,
            r.exit_code is None,
            !r.timed_out,
    {
        RunState { done: 0, stdout: String::new(), stderr: String::new(), exit_code: None, timed_out: false }
    }

    /// How the task goes on after a command: what it wrote is kept; the first
    /// command that does not end well is the last one.
    pub fn command_done(&mut self, commands: usize, end: CommandEnd) -> (r: RunNext)
        requires
            old(self).done < commands,
        ensures
            match end {
                CommandEnd::Output { stdout, stderr, code } => {
                    &&& final(self).stdout@ == old(self).stdout@ + stdout@
                    &&& final(self).stderr@ == old(self).stderr@ + stderr@
                    &&& final(self).exit_code == code
                    &&& final(self).timed_out == old(self).timed_out
                    &&& final(self).done == old(self).done + 1
                    &&& if code == Some(0i32) && final(self).done < commands {
                        r == RunNext::Command(final(self).done)
                    } else {
                        r is Finished
                    }
                },
                CommandEnd::Unstarted(e) => {
                    &&& r matches RunNext::Fail(m)
                    &&& m@ == "命令启动失败："@ + e@
                    &&& *final(self) == *old(self)
                },
                CommandEnd::TimedOut => {
                    &&& r is Finished
                    &&& *final(self) == (RunState { timed_out: true, ..*old(self) })
                },
            },
    {
        match end {
            CommandEnd::Output { stdout, stderr, code } => {
                self.stdout.append(stdout.as_str());
                self.stderr.append(stderr.as_str());
                self.exit_code = code;
                self.done = self.done + 1;
                let well = match code {
                    Some(c) => c == 0,
                    None => false,
                };
                if well && self.done < commands {
                    RunNext::Command(self.done)
                } else {
                    RunNext::Finished
                }
            },
            CommandEnd::Unstarted(e) => {
                let mut m = copy_str("命令启动失败：");
                m.append(e.as_str());
                RunNext::Fail(m)
            },
            CommandEnd::TimedOut => {
                self.timed_out = true;
                RunNext::Finished
            },
        }
    }
}

/// An exit code as it is written in the record.
pub open spec fn code_text(code: Option<i32>) -> Seq<char> {
    match code {
        Some(c) => "Some("@ + signed_decimal(c as int) + ")"@,
        None => "None"@,
    }
}

pub open spec fn bool_text(b: bool) -> Seq<char> {
    if b {
        "true"@
    } else {
        "false"@
    }
}

/// What the record says of a run.
pub open spec fn run_detail(task_id: Seq<char>, code: Option<i32>, changes: nat, truncated: bool, timed_out: bool) -> Seq<
    char,
> {
    "task_id="@ + task_id + " 退出码="@ + code_text(code) + " diff 条目="@ + decimal(changes) + " 截断="@ + bool_text(
        truncated,
    ) + " 超时="@ + bool_text(timed_out)
}

fn bool_str(b: bool) -> (r: String)
    ensures
        r@ == bool_text(b),
{
    if b {
        copy_str("true")
    } else {
        copy_str("false")
    }
}

fn code_str(code: Option<i32>) -> (r: String)
    ensures
        r@ == code_text(code),
{
    match code {
        Some(c) => {
            let mut r = copy_str("Some(");
            r.append(signed_decimal_text(c as i64).as_str());
            r.append(")");
            r
        },
        None => copy_str("None"),
    }
}

fn not_found(task_id: &str) -> (r: String)
    ensures
        r@ == "任务不存在："@ + task_id@,
{
    let mut e = copy_str("任务不存在：");
    e.append(task_id);
    e
}

fn copy_diff(v: &Vec<FileDiff>) -> (r: Vec<FileDiff>)
    ensures
        diff_models(r@) == diff_models(v@),
{
    let mut r: Vec<FileDiff> = Vec::new();
    for i in 0..v.len()
        invariant
            r@.len() == i,
            forall|j: int| 0 <= j < i ==> (#[trigger] r@[j])@ == v@[j]@,
    {
        r.push(
            FileDiff {
                path: v[i].path.clone(),
                change: v[i].change,
                old: v[i].old.clone(),
                new: v[i].new.clone(),
            },
        );
    }
    assert(diff_models(r@) =~= diff_models(v@));
    r
}

/// Two results say the same.
pub open spec fn same_result(a: CloudTaskResult, b: CloudTaskResult) -> bool {
    &&& a.task_id@ == b.task_id@
    &&& a.exit_code == b.exit_code
    &&& a.stdout@ == b.stdout@
    &&& a.stderr@ == b.stderr@
    &&& diff_models(a.diff@) == diff_models(b.diff@)
    &&& a.diff_truncated == b.diff_truncated
}

impl Clone for CloudTaskResult {
    fn clone(&self) -> (r: CloudTaskResult)
        ensures
            same_result(r, *self),
    {
        CloudTaskResult {
            task_id: self.task_id.clone(),
            exit_code: self.exit_code,
            stdout: self.stdout.clone(),
            stderr: self.stderr.clone(),
            diff: copy_diff(&self.diff),
            diff_truncated: self.diff_truncated,
        }
    }
}

impl LocalSimExecutor {
    pub open spec fn wf(self) -> bool {
        self.tasks.wf()
    }

    /// No tasks.
    pub fn new() -> (r: LocalSimExecutor)
        ensures
            r.wf(),
            r.tasks@ == Map::<Seq<char>, CloudTask>::empty(),
            r.audit@ == Seq::<AuditModel>::empty(),
            r.counter == 0,
    {
        LocalSimExecutor { tasks: Table::new(), audit: AuditLog::new(), counter: 0 }
    }

    /// Accepts a task and gives it its identifier; `snapshot` is whether its
    /// workspace could be read.
    pub fn submit(&mut self, spec: &CloudTaskSpec, workspace_is_dir: bool, snapshot: Result<(), String>) -> (r: Result<
        String,
        String,
    >)
        requires
            old(self).counter < u64::MAX,
        ensures
            final(self).tasks == old(self).tasks,
            final(self).audit == old(self).audit,
            match (refusal(*spec, workspace_is_dir), snapshot) {
                (Some(m), _) => r matches Err(e) && e@ == m && final(self).counter == old(self).counter,
                (None, Err(m)) => r == Err::<String, String>(m) && final(self).counter == old(self).counter,
                (None, Ok(_)) => r matches Ok(id) && id@ == task_name(old(self).counter as nat + 1) && final(self).counter == old(self).counter + 1,
            },
    {
        if spec.commands.len() == 0 {
            return Err(copy_str("任务至少需要一条命令"));
        }
        for i in 0..spec.env_passthrough.len()
            invariant
                *self == *old(self),
                spec.commands@.len() > 0,
                forall|j: int| 0 <= j < i ==> !has_text((#[trigger] spec.env_passthrough@[j])@, "="@),
        {
            if contains_text(spec.env_passthrough[i].as_str(), "=") {
                assert(has_text(spec.env_passthrough@[i as int]@, "="@));
                return Err(copy_str("env_passthrough 只允许变量名，禁止内联值"));
            }
        }
        if !workspace_is_dir {
            let mut e = copy_str("工作区目录不存在：");
            e.append(spec.workspace_dir.as_str());
            return Err(e);
        }
        match snapshot {
            Ok(_) => {},
            Err(e) => {
                return Err(e);
            },
        }
        self.counter = self.counter + 1;
        let mut id = copy_str("cloud-");
        id.append(five_digit_text(self.counter).as_str());
        Ok(id)
    }

    /// Keeps a task whose workspace was copied to `temp_dir`.
    pub fn submitted(
        &mut self,
        task_id: String,
        spec: CloudTaskSpec,
        temp_dir: String,
        copied: Result<(), String>,
    ) -> (r: Result<String, String>)
        requires
            old(self).wf(),
        ensures
            final(self).wf(),
            final(self).counter == old(self).counter,
            match copied {
                Ok(_) => {
                    &&& r matches Ok(id) && id@ == task_id@
                    &&& final(self).audit.continues(old(self).audit)
                    &&& final(self).audit@ == old(self).audit@.push(
                        cloud_entry(
                            "cloud.submit"@,
                            "task_id="@ + task_id@ + " 命令数="@ + decimal(spec.commands@.len()) + " 隔离目录已就绪"@,
                        ),
                    )
                    &&& final(self).tasks@.dom() == old(self).tasks@.dom().insert(task_id@)
                    &&& final(self).tasks@.remove(task_id@) == old(self).tasks@.remove(task_id@)
                    &&& ({
                        let t = final(self).tasks@[task_id@];
                        t.task_id@ == task_id@ && t.spec == spec && t.temp_dir == Some(temp_dir) && t.result is None
                    })
                },
                Err(e) => r == Err::<String, String>(e) && final(self).tasks == old(self).tasks && final(self).audit
                    == old(self).audit,
            },
    {
        match copied {
            Ok(_) => {},
            Err(e) => {
                return Err(e);
            },
        }
        let mut detail = copy_str("task_id=");
        detail.append(task_id.as_str());
        detail.append(" 命令数=");
        detail.append(decimal_text(spec.commands.len() as u64).as_str());
        detail.append(" 隔离目录已就绪");
        self.audit.record("cloud", "cloud.submit", None, None, detail.as_str());
        let task = CloudTask { task_id: task_id.clone(), spec, temp_dir: Some(temp_dir), result: None };
        let ghost before = self.tasks@;
        let ghost t = task;
        self.tasks.insert(task_id.clone(), task);
        proof {
            assert(self.tasks@.dom() =~= before.dom().insert(task_id@));
            assert(self.tasks@.remove(task_id@) =~= before.remove(task_id@));
        }
        Ok(task_id)
    }

    /// The task to run.
    pub fn begin_run(&self, task_id: &str) -> (r: Result<&CloudTask, String>)
        requires
            self.wf(),
        ensures
            match r {
                Ok(t) => self.tasks@.contains_key(task_id@) && *t == self.tasks@[task_id@] && t.temp_dir is Some,
                Err(e) => if self.tasks@.contains_key(task_id@) {
                    self.tasks@[task_id@].temp_dir is None && e@ == "任务已回滚："@ + task_id@
                } else {
                    e@ == "任务不存在："@ + task_id@
                },
            },
    {
        match self.tasks.get(task_id) {
            Some(t) => {
                if t.temp_dir.is_none() {
                    let mut e = copy_str("任务已回滚：");
                    e.append(task_id);
                    return Err(e);
                }
                Ok(t)
            },
            None => Err(not_found(task_id)),
        }
    }

    fn keep_result(&mut self, task_id: &str, result: CloudTaskResult)
        requires
            old(self).wf(),
        ensures
            final(self).wf(),
            final(self).audit == old(self).audit,
            final(self).counter == old(self).counter,
            final(self).tasks@ == (if old(self).tasks@.contains_key(task_id@) {
                old(self).tasks@.insert(
                    task_id@,
                    CloudTask { result: Some(result), ..old(self).tasks@[task_id@] },
                )
            } else {
                old(self).tasks@
            }),
    {
        match self.tasks.find(task_id) {
            Some(_) => {
                let found = self.tasks.remove(task_id);
                if let Some(t) = found {
                    let ghost before = old(self).tasks@;
                    let task = CloudTask {
                        task_id: t.task_id,
                        spec: t.spec,
                        temp_dir: t.temp_dir,
                        result: Some(result),
                    };
                    let ghost new = task;
                    self.tasks.insert(copy_str(task_id), task);
                    assert(self.tasks@ =~= before.insert(task_id@, new));
                }
            },
            None => {},
        }
    }

    /// The end of a run: what the commands wrote, and what changed from the
    /// workspace, `before`, to the copy, `after`. The result is kept with the
    /// task, also where a command ran out of time.
    pub fn run(
        &mut self,
        task_id: &str,
        state: RunState,
        timeout_secs: u64,
        before: &Table<String>,
        after: &Table<String>,
    ) -> (r: Result<CloudTaskResult, String>)
        requires
            old(self).wf(),
            before.wf(),
            before.sorted(),
            after.wf(),
            after.sorted(),
        ensures
            final(self).wf(),
            final(self).counter == old(self).counter,
            ({
                let whole = full_diff(*before, *after);
                let truncated = whole.len() > DIFF_LIMIT;
                let listed = if truncated {
                    whole.take(DIFF_LIMIT as int)
                } else {
                    whole
                };
                &&& first_changes(listed, file_map(*before), file_map(*after))
                &&& final(self).audit.continues(old(self).audit)
                &&& final(self).audit@ == old(self).audit@.push(
                    cloud_entry(
                        "cloud.run"@,
                        run_detail(task_id@, state.exit_code, listed.len(), truncated, state.timed_out),
                    ),
                )
                &&& match r {
                    Ok(result) => !state.timed_out && is_result(result, task_id@, state, listed, truncated),
                    Err(e) => state.timed_out && e@ == "命令执行超时（>"@ + decimal(timeout_secs as nat) + "s）"@,
                }
                &&& final(self).tasks@.dom() == old(self).tasks@.dom()
                &&& final(self).tasks@.remove(task_id@) == old(self).tasks@.remove(task_id@)
                &&& old(self).tasks@.contains_key(task_id@) ==> ({
                    let t = final(self).tasks@[task_id@];
                    &&& t.result matches Some(kept)
                    &&& is_result(kept, task_id@, state, listed, truncated)
                    &&& t.spec == old(self).tasks@[task_id@].spec
                    &&& t.temp_dir == old(self).tasks@[task_id@].temp_dir
                    &&& t.task_id == old(self).tasks@[task_id@].task_id
                })
            }),
    {
        let (diff, truncated) = compute_diff(before, after);
        assert(diff_models(diff@).len() == diff@.len());
        let mut detail = copy_str("task_id=");
        detail.append(task_id);
        detail.append(" 退出码=");
        detail.append(code_str(state.exit_code).as_str());
        detail.append(" diff 条目=");
        detail.append(decimal_text(diff.len() as u64).as_str());
        detail.append(" 截断=");
        detail.append(bool_str(truncated).as_str());
        detail.append(" 超时=");
        detail.append(bool_str(state.timed_out).as_str());
        self.audit.record("cloud", "cloud.run", None, None, detail.as_str());
        let timed_out = state.timed_out;
        let result = CloudTaskResult {
            task_id: copy_str(task_id),
            exit_code: state.exit_code,
            stdout: state.stdout,
            stderr: state.stderr,
            diff,
            diff_truncated: truncated,
        };
        self.keep_result(task_id, result.clone());
        proof {
            assert(self.tasks@.dom() =~= old(self).tasks@.dom());
            assert(self.tasks@.remove(task_id@) =~= old(self).tasks@.remove(task_id@));
        }
        if timed_out {
            let mut e = copy_str("命令执行超时（>");
            e.append(decimal_text(timeout_secs).as_str());
            e.append("s）");
            return Err(e);
        }
        Ok(result)
    }

    /// Gives up a task: its copy of the workspace is to be removed. The result is
    /// where that copy is.
    pub fn revert(&mut self, task_id: &str) -> (r: Result<Option<String>, String>)
        requires
            old(self).wf(),
        ensures
            final(self).wf(),
            final(self).audit == old(self).audit,
            final(self).counter == old(self).counter,
            final(self).tasks@ == old(self).tasks@.remove(task_id@),
            match r {
                Ok(dir) => old(self).tasks@.contains_key(task_id@) && dir == old(self).tasks@[task_id@].temp_dir,
                Err(e) => !old(self).tasks@.contains_key(task_id@) && e@ == "任务不存在："@ + task_id@,
            },
    {
        match self.tasks.remove(task_id) {
            Some(t) => Ok(t.temp_dir),
            None => Err(not_found(task_id)),
        }
    }

    /// The end of giving up a task, once its copy was removed.
    pub fn reverted(&mut self, task_id: &str, removed: Result<(), String>) -> (r: Result<(), String>)
        ensures
            final(self).tasks == old(self).tasks,
            final(self).counter == old(self).counter,
            match removed {
                Ok(_) => r is Ok && final(self).audit.continues(old(self).audit) && final(self).audit@
                    == old(self).audit@.push(
                    cloud_entry(
                        "cloud.revert"@,
                        "task_id="@ + task_id@ + " 隔离环境已销毁，原工作区未被改动"@,
                    ),
                ),
                Err(e) => r matches Err(m) && m@ == "清理隔离目录失败："@ + e@ && final(self).audit == old(self).audit,
            },
    {
        match removed {
            Ok(_) => {
                let mut detail = copy_str("task_id=");
                detail.append(task_id);
                detail.append(" 隔离环境已销毁，原工作区未被改动");
                self.audit.record("cloud", "cloud.revert", None, None, detail.as_str());
                Ok(())
            },
            Err(e) => {
                let mut m = copy_str("清理隔离目录失败：");
                m.append(e.as_str());
                Err(m)
            },
        }
    }
}

/// The result of a task says what its commands wrote and what changed.
pub open spec fn is_result(
    r: CloudTaskResult,
    task_id: Seq<char>,
    state: RunState,
    listed: Seq<DiffModel>,
    truncated: bool,
) -> bool {
    &&& r.task_id@ == task_id
    &&& r.exit_code == state.exit_code
    &&& r.stdout@ == state.stdout@
    &&& r.stderr@ == state.stderr@
    &&& diff_models(r.diff@) == listed
    &&& r.diff_truncated == truncated
}

/// The variables of the environment that a command gets: those that every
/// command needs, then those that the task names.
pub fn passed_environment(spec: &CloudTaskSpec) -> (r: Vec<String>)
    ensures
        texts(r@) == seq!["PATH"@, "SystemRoot"@, "COMSPEC"@] + texts(spec.env_passthrough@),
{
    let mut names: Vec<String> = Vec::new();
    names.push(copy_str("PATH"));
    names.push(copy_str("SystemRoot"));
    names.push(copy_str("COMSPEC"));
    let ghost fixed = texts(names@);
    assert(fixed =~= seq!["PATH"@, "SystemRoot"@, "COMSPEC"@]);
    let ghost first = names@;
    for i in 0..spec.env_passthrough.len()
        invariant
            names@ == first + spec.env_passthrough@.take(i as int),
    {
        names.push(spec.env_passthrough[i].clone());
        assert(names@ =~= first + spec.env_passthrough@.take(i + 1));
    }
    assert(spec.env_passthrough@.take(spec.env_passthrough@.len() as int) =~= spec.env_passthrough@);
    assert(texts(names@) =~= fixed + texts(spec.env_passthrough@));
    names
}

/// A file has changed exactly if what it holds before and after is not the same: it is
/// new where it was not there, deleted where it is no longer, and else modified. The
/// change tells both.
pub proof fn changes_tell_both_sides(before: Files, after: Files, p: Seq<char>)
    ensures
        change_at(before, after, p) is None <==> (before.contains_key(p) <==> after.contains_key(p)) && (before.contains_key(
            p,
        ) ==> before[p] == after[p]),
        change_at(before, after, p) matches Some(d) ==> {
            &&& d.path == p
            &&& d.change is Added <==> !before.contains_key(p) && after.contains_key(p)
            &&& d.change is Deleted <==> before.contains_key(p) && !after.contains_key(p)
            &&& d.change is Modified <==> before.contains_key(p) && after.contains_key(p)
            &&& before.contains_key(p) ==> d.old == Some(before[p])
            &&& !before.contains_key(p) ==> d.old is None
            &&& after.contains_key(p) ==> d.new == Some(after[p])
            &&& !after.contains_key(p) ==> d.new is None
        },
{
}

/// The whole difference of two states names a path exactly if it differs, once, in the
/// order of the paths; a part of it leaves out only what comes behind.
pub proof fn the_difference_names_what_differs(before: Table<String>, after: Table<String>, p: Seq<char>, v: Seq<DiffModel>)
    requires
        before.wf() && before.sorted() && after.wf() && after.sorted(),
    ensures
        ({
            let b = file_map(before);
            let a = file_map(after);
            let d = full_diff(before, after);
            &&& (exists|i: int| 0 <= i < d.len() && (#[trigger] d[i]).path == p) <==> b.contains_key(p) != a.contains_key(p) || (
            b.contains_key(p) && b[p] != a[p])
            &&& forall|i: int, j: int| 0 <= i < j < d.len() ==> text_less((#[trigger] d[i]).path, (#[trigger] d[j]).path)
            &&& first_changes(v, b, a) && (b.contains_key(p) != a.contains_key(p) || (b.contains_key(p) && b[p] != a[p]))
                && (forall|i: int| 0 <= i < v.len() ==> (#[trigger] v[i]).path != p) ==> forall|i: int|
                0 <= i < v.len() ==> text_less((#[trigger] v[i]).path, p)
        }),
{
    diff_is_exact(before, after);
    let b = file_map(before);
    let a = file_map(after);
    let d = full_diff(before, after);
    changes_tell_both_sides(b, a, p);
    if change_at(b, a, p) is Some {
        assert(has_path(d, p));
    }
    if exists|i: int| 0 <= i < d.len() && (#[trigger] d[i]).path == p {
        let i = choose|i: int| 0 <= i < d.len() && (#[trigger] d[i]).path == p;
        assert(change_at(b, a, d[i].path) == Some(d[i]));
    }
    if first_changes(v, b, a) && change_at(b, a, p) is Some {
        assert(has_path(v, p) || (forall|i: int| 0 <= i < v.len() ==> text_less((#[trigger] v[i]).path, p)));
    }
}

/// Making a change leaves at its path what it says, and nothing where it deletes; taking
/// it back leaves what was there before. No other path is touched.
pub proof fn changes_touch_their_path(files: Files, d: DiffModel, q: Seq<char>)
    ensures
        d.change is Deleted ==> !applied(files, d).contains_key(d.path),
        !(d.change is Deleted) && d.new is Some ==> applied(files, d).contains_key(d.path) && applied(files, d)[d.path]
            == d.new->0,
        d.change is Added ==> !reversed(files, d).contains_key(d.path),
        !(d.change is Added) && d.old is Some ==> reversed(files, d).contains_key(d.path) && reversed(files, d)[d.path]
            == d.old->0,
        q != d.path ==> (applied(files, d).contains_key(q) <==> files.contains_key(q)) && (reversed(files, d).contains_key(q)
            <==> files.contains_key(q)),
        q != d.path && files.contains_key(q) ==> applied(files, d)[q] == files[q] && reversed(files, d)[q] == files[q],
{
}

/// Changes are made from the first to the last and taken back from the last to the
/// first.
pub proof fn changes_go_in_turn(files: Files, v: Seq<DiffModel>, d: DiffModel)
    ensures
        all_applied(files, seq![]) == files && all_reversed(files, seq![]) == files,
        all_applied(files, v.push(d)) == applied(all_applied(files, v), d),
        all_reversed(files, v.push(d)) == all_reversed(reversed(files, d), v),
{
    assert(v.push(d).drop_last() =~= v);
}

/// What is done to a file is done to it alone: it is written, or it is gone.
pub proof fn actions_touch_their_file(files: Files, a: FileAction, q: Seq<char>)
    ensures
        a matches FileAction::Write { path, content } ==> carried_out(files, a).contains_key(path@) && carried_out(files, a)[path@]
            == content@ && (q != path@ ==> (carried_out(files, a).contains_key(q) <==> files.contains_key(q)) && (files.contains_key(
            q,
        ) ==> carried_out(files, a)[q] == files[q])),
        a matches FileAction::Remove { path } ==> !carried_out(files, a).contains_key(path@) && (q != path@ ==> (carried_out(
            files,
            a,
        ).contains_key(q) <==> files.contains_key(q)) && (files.contains_key(q) ==> carried_out(files, a)[q] == files[q])),
{
}

/// A task is refused if it has nothing to run, if it hands on values under the names of
/// variables, or if its workspace is not there, and for nothing else.
pub proof fn tasks_are_refused_for_three_reasons(spec: CloudTaskSpec, workspace_is_dir: bool)
    ensures
        refusal(spec, workspace_is_dir) is None <==> spec.commands@.len() > 0 && workspace_is_dir && forall|i: int|
            0 <= i < spec.env_passthrough@.len() ==> !has_text((#[trigger] spec.env_passthrough@[i])@, "="@),
{
}

/// The names of tasks differ, and are five digits long as long as five are enough.
pub proof fn task_names_differ(a: nat, b: nat)
    ensures
        task_name(a) == task_name(b) ==> a == b,
        a < 100_000 ==> five_digits(a).len() == 5,
        crate::text::finishes_with(task_name(a), decimal(a)),
{
    let za = zeros(5 - decimal(a).len());
    let zb = zeros(5 - decimal(b).len());
    all_zeros(5 - decimal(a).len());
    all_zeros(5 - decimal(b).len());
    let ta = task_name(a);
    let tb = task_name(b);
    assert(ta.skip(ta.len() - decimal(a).len()) =~= decimal(a));
    crate::text::decimal_is_made_of_digits(a, 0);
    crate::text::decimal_is_made_of_digits(b, 0);
    short_decimals(a);
    if ta == tb {
        let head = "cloud-"@;
        assert(ta.skip(head.len() as int) =~= five_digits(a));
        assert(tb.skip(head.len() as int) =~= five_digits(b));
        let fa = five_digits(a);
        assert(fa == five_digits(b));
        if za.len() == zb.len() {
            assert(fa.skip(za.len() as int) =~= decimal(a));
            assert(five_digits(b).skip(zb.len() as int) =~= decimal(b));
            crate::text::decimal_injective(a, b);
        } else if za.len() < zb.len() {
            assert(fa[za.len() as int] == decimal(a)[0]);
            assert(five_digits(b)[za.len() as int] == zb[za.len() as int]);
            assert(decimal(a)[0] == '0');
            assert(a == 0);
            crate::text::decimal_is_made_of_digits(0, 0);
            assert(decimal(0).len() == 1);
        } else {
            assert(five_digits(b)[zb.len() as int] == decimal(b)[0]);
            assert(fa[zb.len() as int] == za[zb.len() as int]);
            assert(decimal(b)[0] == '0');
            assert(b == 0);
            assert(decimal(0).len() == 1);
        }
    }
}

proof fn all_zeros(n: int)
    ensures
        zeros(n).len() == if n > 0 { n } else { 0 },
        forall|i: int| 0 <= i < zeros(n).len() ==> #[trigger] zeros(n)[i] == '0',
    decreases n,
{
    if n > 0 {
        all_zeros(n - 1);
        assert forall|i: int| 0 <= i < zeros(n).len() implies #[trigger] zeros(n)[i] == '0' by {
            if i < n - 1 {
                assert(zeros(n - 1)[i] == '0');
            }
        }
    }
}

proof fn short_decimals(n: nat)
    ensures
        n < 100_000 ==> decimal(n).len() <= 5,
{
    reveal_with_fuel(decimal, 6);
}

/// What a task leaves behind tells how it ended: its name, its code and how much has
/// changed.
pub proof fn runs_are_told(task_id: Seq<char>, code: Option<i32>, changes: nat, truncated: bool, timed_out: bool, c: i32)
    ensures
        has_text(run_detail(task_id, code, changes, truncated, timed_out), task_id),
        has_text(run_detail(task_id, code, changes, truncated, timed_out), decimal(changes)),
        code == Some(c) ==> has_text(run_detail(task_id, code, changes, truncated, timed_out), signed_decimal(c as int)),
{
    let t = run_detail(task_id, code, changes, truncated, timed_out);
    let a = "task_id="@;
    let b = " 退出码="@;
    let e = " diff 条目="@;
    let z = " 截断="@ + bool_text(truncated) + " 超时="@ + bool_text(timed_out);
    let k = code_text(code);
    let d = decimal(changes);
    assert(t =~= a + task_id + (b + k + e + d + z));
    crate::text::parts_stand_in_the_whole(a, task_id, b + k + e + d + z, t);
    assert(t =~= (a + task_id + b + k + e) + d + z);
    crate::text::parts_stand_in_the_whole(a + task_id + b + k + e, d, z, t);
    if code == Some(c) {
        let n = signed_decimal(c as int);
        let x = a + task_id + b + "Some("@;
        let y = ")"@ + e + d + z;
        assert(t =~= x + n + y);
        crate::text::parts_stand_in_the_whole(x, n, y, t);
    }
}

/// Of a run one result is told: its task, how it ended, what it wrote and what it
/// changed.
pub proof fn one_result_is_told(
    a: CloudTaskResult,
    b: CloudTaskResult,
    task_id: Seq<char>,
    state: RunState,
    listed: Seq<DiffModel>,
    truncated: bool,
)
    requires
        is_result(a, task_id, state, listed, truncated),
    ensures
        a.task_id@ == task_id && a.exit_code == state.exit_code && a.stdout@ == state.stdout@ && a.stderr@ == state.stderr@
            && a.diff_truncated == truncated && diff_models(a.diff@) == listed,
        is_result(b, task_id, state, listed, truncated) <==> same_result(a, b),
{
}

} // verus!
