//! The model of a pending change: file entries, change kinds, and the
//! rules deciding which file diffs are withheld from the prompt.

use crate::text::{contains_at, ends_with, ends_with_ci, lower_seq, matches_at_ci};
use vstd::prelude::*;

verus! {

/// The kind of change recorded for one file, mirroring the delta states a
/// repository diff can report.
#[derive(Clone, Copy, Debug, PartialEq, Eq, Structural)]
pub enum DeltaKind {
    Added,
    Modified,
    Deleted,
    Renamed,
    Copied,
    Untracked,
    Typechange,
    Ignored,
    Unmodified,
    Unreadable,
    Conflicted,
}

/// Single-character status code for display.
pub fn status_char(delta: DeltaKind) -> (r: char)
    ensures
        r == status_char_spec(delta),
{
    match delta {
        DeltaKind::Added | DeltaKind::Copied | DeltaKind::Untracked => 'A',
        DeltaKind::Modified | DeltaKind::Typechange => 'M',
        DeltaKind::Deleted => 'D',
        DeltaKind::Renamed => 'R',
        _ => '?',
    }
}

/// The status code for each change kind.
pub open spec fn status_char_spec(delta: DeltaKind) -> char {
    match delta {
        DeltaKind::Added | DeltaKind::Copied | DeltaKind::Untracked => 'A',
        DeltaKind::Modified | DeltaKind::Typechange => 'M',
        DeltaKind::Deleted => 'D',
        DeltaKind::Renamed => 'R',
        _ => '?',
    }
}

/// A single file change with its status.
#[derive(Debug, PartialEq)]
pub struct FileChange {
    pub status: DeltaKind,
    pub path: String,
    /// The path before a rename; present exactly when `status` is `Renamed`.
    pub old_path: Option<String>,
    /// True for files whose diff body is withheld from the prompt
    /// (lock files, minified files, binary files).
    pub diff_ignored: bool,
}

/// The mathematical shadow of a [`FileChange`].
pub ghost struct FileChangeV {
    pub status: DeltaKind,
    pub path: Seq<char>,
    pub old_path: Option<Seq<char>>,
    pub diff_ignored: bool,
}

impl View for FileChange {
    type V = FileChangeV;

    open spec fn view(&self) -> FileChangeV {
        FileChangeV {
            status: self.status,
            path: self.path@,
            old_path: match self.old_path {
                Some(p) => Some(p@),
                None => None,
            },
            diff_ignored: self.diff_ignored,
        }
    }
}

impl FileChangeV {
    /// The construction invariant: the previous path is recorded exactly
    /// for renames.
    pub open spec fn wf(self) -> bool {
        self.old_path is Some <==> self.status is Renamed
    }
}

/// A set of pending changes, staged or unstaged, with its unified diff.
#[derive(Debug)]
pub struct ChangeSet {
    pub files: Vec<FileChange>,
    pub diff: String,
    pub is_staged: bool,
}

impl ChangeSet {
    /// Every file entry satisfies its construction invariant.
    pub open spec fn wf(&self) -> bool {
        forall|i: int| 0 <= i < self.files@.len() ==> (#[trigger] self.files@[i])@.wf()
    }

    /// A short description of where the changes came from.
    pub fn source(&self) -> (r: &'static str)
        ensures
            self.is_staged ==> r@ == "staged changes"@,
            !self.is_staged ==> r@ == "unstaged changes"@,
    {
        if self.is_staged {
            "staged changes"
        } else {
            "unstaged changes"
        }
    }
}

/// The longest suffix of `p` that holds no `c`: everything after the last
/// `c`, or all of `p` when `c` does not occur.
pub open spec fn suffix_after_last(p: Seq<char>, c: char) -> Seq<char>
    decreases p.len(),
{
    if p.len() == 0 {
        p
    } else if p[p.len() - 1] == c {
        Seq::empty()
    } else {
        suffix_after_last(p.drop_last(), c) + seq![p[p.len() - 1]]
    }
}

/// When everything from `i` on differs from `c`, and `c` stands just
/// before `i` (or `i` is the start), the suffix after the last `c` is
/// exactly the piece from `i` on.
pub proof fn lemma_suffix_after_last_at(p: Seq<char>, c: char, i: int)
    requires
        0 <= i <= p.len(),
        forall|j: int| i <= j < p.len() ==> p[j] != c,
        i > 0 ==> p[i - 1] == c,
    ensures
        suffix_after_last(p, c) == p.subrange(i, p.len() as int),
    decreases p.len() - i,
{
    if i == p.len() {
        lemma_suffix_after_last_none(p, c, i);
    } else {
        let q = p.drop_last();
        assert(forall|j: int| i <= j < q.len() ==> q[j] != c);
        lemma_suffix_after_last_at(q, c, i);
        assert(q.subrange(i, q.len() as int) + seq![p[p.len() - 1]] =~= p.subrange(
            i,
            p.len() as int,
        ));
    }
}

proof fn lemma_suffix_after_last_none(p: Seq<char>, c: char, i: int)
    requires
        i == p.len(),
        i > 0 ==> p[i - 1] == c,
    ensures
        suffix_after_last(p, c) == p.subrange(i, p.len() as int),
{
    if p.len() == 0 {
        assert(suffix_after_last(p, c) =~= p.subrange(0, 0));
    } else {
        assert(suffix_after_last(p, c) =~= p.subrange(i, p.len() as int));
    }
}

/// The path names a file whose extension, lower-cased, is `lock`.
pub open spec fn has_lock_extension_spec(p: Seq<char>) -> bool {
    let name = suffix_after_last(p, '/');
    (exists|i: int| 1 <= i < name.len() && name[i] == '.') && lower_seq(
        suffix_after_last(name, '.'),
    ) == "lock"@
}

/// A file whose diff body is withheld from the prompt by its name alone:
/// lock files and minified assets.
pub open spec fn should_ignore_spec(p: Seq<char>) -> bool {
    ||| ends_with(lower_seq(p), "-lock.json"@)
    ||| ends_with(lower_seq(p), "-lock.yaml"@)
    ||| has_lock_extension_spec(p)
    ||| ends_with(lower_seq(p), ".min.js"@)
    ||| ends_with(lower_seq(p), ".min.css"@)
    ||| ends_with(lower_seq(p), "-min.js"@)
    ||| ends_with(lower_seq(p), "-min.css"@)
}

/// Decide whether the file's extension, lower-cased, is `lock`.
fn has_lock_extension(path: &str) -> (r: bool)
    ensures
        r == has_lock_extension_spec(path@),
{
    let len = path.unicode_len();
    // the file name starts after the last slash
    let mut i: usize = len;
    while i > 0 && path.get_char(i - 1) != '/'
        invariant
            0 <= i <= len,
            len == path@.len(),
            forall|j: int| i <= j < len ==> path@[j] != '/',
        decreases i,
    {
        i = i - 1;
    }
    proof {
        lemma_suffix_after_last_at(path@, '/', i as int);
    }
    let ghost name = path@.subrange(i as int, len as int);
    // the extension starts after the last dot of the name
    let mut j: usize = len;
    while j > i && path.get_char(j - 1) != '.'
        invariant
            i <= j <= len,
            len == path@.len(),
            forall|k: int| j <= k < len ==> path@[k] != '.',
        decreases j,
    {
        j = j - 1;
    }
    if j == i {
        // no dot in the file name at all
        proof {
            assert forall|k: int| 1 <= k < name.len() implies name[k] != '.' by {
                assert(name[k] == path@[i + k]);
            }
        }
        return false;
    }
    if j == i + 1 {
        // the only dots begin the file name: no extension
        proof {
            assert forall|k: int| 1 <= k < name.len() implies name[k] != '.' by {
                assert(name[k] == path@[i + k]);
            }
        }
        return false;
    }
    proof {
        assert(name[j - 1 - i] == '.');
        assert(1 <= j - 1 - i < name.len());
        assert forall|k: int| j - i <= k < name.len() implies name[k] != '.' by {
            assert(name[k] == path@[i + k]);
        }
        lemma_suffix_after_last_at(name, '.', j - i);
        assert(name.subrange(j - i, name.len() as int) =~= path@.subrange(
            j as int,
            len as int,
        ));
    }
    // the extension is `lock`, in any casing
    proof {
        reveal_strlit("lock");
        assert("lock"@.len() == 4);
    }
    if len - j != 4 {
        proof {
            assert(lower_seq(suffix_after_last(name, '.')).len() == len - j);
        }
        return false;
    }
    let r = matches_at_ci(path, j, "lock");
    proof {
        let ext = path@.subrange(j as int, len as int);
        assert(lower_seq(ext) =~= lower_seq(path@).subrange(j as int, len as int));
        if contains_at(lower_seq(path@), j as int, "lock"@) {
            assert(lower_seq(path@).subrange(j as int, j + 4) =~= lower_seq(path@).subrange(
                j as int,
                len as int,
            ));
        }
        if lower_seq(ext) == "lock"@ {
            assert(lower_seq(path@).subrange(j as int, j + 4) =~= "lock"@);
        }
    }
    r
}

/// Whether a file's diff body should be withheld from the prompt based on
/// its path: lock files and minified files.
pub fn should_ignore_diff(path: &str) -> (r: bool)
    ensures
        r == should_ignore_spec(path@),
{
    if ends_with_ci(path, "-lock.json") {
        return true;
    }
    if ends_with_ci(path, "-lock.yaml") {
        return true;
    }
    if has_lock_extension(path) {
        return true;
    }
    if ends_with_ci(path, ".min.js") {
        return true;
    }
    if ends_with_ci(path, ".min.css") {
        return true;
    }
    if ends_with_ci(path, "-min.js") {
        return true;
    }
    ends_with_ci(path, "-min.css")
}

/// One raw delta reported by the repository diff, as plain values.
#[derive(Debug)]
pub struct DeltaRecord {
    pub status: DeltaKind,
    pub new_path: Option<String>,
    pub old_path: Option<String>,
    pub new_binary: bool,
    pub old_binary: bool,
}

/// The mathematical shadow of a [`DeltaRecord`].
pub ghost struct DeltaRecordV {
    pub status: DeltaKind,
    pub new_path: Option<Seq<char>>,
    pub old_path: Option<Seq<char>>,
    pub new_binary: bool,
    pub old_binary: bool,
}

impl View for DeltaRecord {
    type V = DeltaRecordV;

    open spec fn view(&self) -> DeltaRecordV {
        DeltaRecordV {
            status: self.status,
            new_path: match self.new_path {
                Some(p) => Some(p@),
                None => None,
            },
            old_path: match self.old_path {
                Some(p) => Some(p@),
                None => None,
            },
            new_binary: self.new_binary,
            old_binary: self.old_binary,
        }
    }
}

/// Delta states that never become file entries.
pub open spec fn delta_skipped(status: DeltaKind) -> bool {
    match status {
        DeltaKind::Ignored | DeltaKind::Unmodified | DeltaKind::Unreadable
            | DeltaKind::Conflicted => true,
        _ => false,
    }
}

/// The path that names a delta: the old path for deletions, the new path
/// otherwise.
pub open spec fn delta_path(r: DeltaRecordV) -> Option<Seq<char>> {
    match r.status {
        DeltaKind::Deleted => r.old_path,
        _ => r.new_path,
    }
}

/// The file entry a delta record becomes, if any. A record in a skipped
/// state, without a usable path, or renamed without its previous path,
/// yields none.
pub open spec fn entry_of(r: DeltaRecordV) -> Option<FileChangeV> {
    if delta_skipped(r.status) {
        None
    } else {
        match delta_path(r) {
            None => None,
            Some(p) => {
                let ignored = should_ignore_spec(p) || r.new_binary || r.old_binary;
                if r.status is Renamed {
                    match r.old_path {
                        None => None,
                        Some(op) => Some(
                            FileChangeV {
                                status: r.status,
                                path: p,
                                old_path: Some(op),
                                diff_ignored: ignored,
                            },
                        ),
                    }
                } else {
                    Some(
                        FileChangeV {
                            status: r.status,
                            path: p,
                            old_path: None,
                            diff_ignored: ignored,
                        },
                    )
                }
            },
        }
    }
}

/// The file entries of a whole run of delta records, in order.
pub open spec fn entries_of(rs: Seq<DeltaRecordV>) -> Seq<FileChangeV>
    decreases rs.len(),
{
    if rs.len() == 0 {
        Seq::empty()
    } else {
        entries_of(rs.drop_last()) + match entry_of(rs.last()) {
            Some(e) => seq![e],
            None => Seq::<FileChangeV>::empty(),
        }
    }
}

/// Every entry a run of records yields satisfies the construction invariant.
pub proof fn lemma_entries_of_wf(rs: Seq<DeltaRecordV>)
    ensures
        forall|i: int| 0 <= i < entries_of(rs).len() ==> (#[trigger] entries_of(rs)[i]).wf(),
    decreases rs.len(),
{
    if rs.len() > 0 {
        lemma_entries_of_wf(rs.drop_last());
        let pre = entries_of(rs.drop_last());
        let whole = entries_of(rs);
        assert forall|i: int| 0 <= i < whole.len() implies (#[trigger] whole[i]).wf() by {
            if i < pre.len() {
                assert(whole[i] == pre[i]);
            } else {
                match entry_of(rs.last()) {
                    Some(e) => {
                        assert(whole[i] == e);
                        assert(e.wf());
                    },
                    None => {},
                }
            }
        }
    }
}

fn clone_opt_string(o: &Option<String>) -> (r: Option<String>)
    ensures
        r == *o,
{
    match o {
        Some(s) => Some(s.clone()),
        None => None,
    }
}

/// Build the file entries from the raw deltas of a repository diff,
/// skipping the states that carry no change and flagging the files whose
/// diff body is withheld from the prompt.
pub fn files_from_deltas(records: &Vec<DeltaRecord>) -> (files: Vec<FileChange>)
    ensures
        files@.map_values(|f: FileChange| f@) == entries_of(
            records@.map_values(|r: DeltaRecord| r@),
        ),
        forall|i: int| 0 <= i < files@.len() ==> (#[trigger] files@[i])@.wf(),
{
    let ghost all = records@.map_values(|r: DeltaRecord| r@);
    let n = records.len();
    let mut files: Vec<FileChange> = Vec::new();
    let mut k: usize = 0;
    while k < n
        invariant
            0 <= k <= n,
            n == records@.len(),
            all == records@.map_values(|r: DeltaRecord| r@),
            files@.map_values(|f: FileChange| f@) == entries_of(all.subrange(0, k as int)),
        decreases n - k,
    {
        let r = &records[k];
        let ghost prefix = all.subrange(0, k as int);
        let ghost next = all.subrange(0, k + 1);
        proof {
            assert(next.drop_last() =~= prefix);
            assert(next.last() == r@);
        }
        let skipped = match r.status {
            DeltaKind::Ignored | DeltaKind::Unmodified | DeltaKind::Unreadable
                | DeltaKind::Conflicted => true,
            _ => false,
        };
        if !skipped {
            let path_opt = match r.status {
                DeltaKind::Deleted => clone_opt_string(&r.old_path),
                _ => clone_opt_string(&r.new_path),
            };
            match path_opt {
                None => {},
                Some(path) => {
                    let ignored = should_ignore_diff(path.as_str()) || r.new_binary
                        || r.old_binary;
                    let is_rename = match r.status {
                        DeltaKind::Renamed => true,
                        _ => false,
                    };
                    if is_rename {
                        match clone_opt_string(&r.old_path) {
                            None => {},
                            Some(op) => {
                                files.push(
                                    FileChange {
                                        status: r.status,
                                        path,
                                        old_path: Some(op),
                                        diff_ignored: ignored,
                                    },
                                );
                            },
                        }
                    } else {
                        files.push(
                            FileChange {
                                status: r.status,
                                path,
                                old_path: None,
                                diff_ignored: ignored,
                            },
                        );
                    }
                },
            }
        }
        proof {
            assert(files@.map_values(|f: FileChange| f@) =~= entries_of(next));
        }
        k = k + 1;
    }
    proof {
        assert(all.subrange(0, n as int) =~= all);
        lemma_entries_of_wf(all);
        assert forall|i: int| 0 <= i < files@.len() implies (#[trigger] files@[i])@.wf() by {
            assert(files@.map_values(|f: FileChange| f@)[i] == (files@[i])@);
            assert(entries_of(all)[i].wf());
        }
    }
    files
}

/// One step of the staging plan: put a path into the index, or take one out.
#[derive(Debug, PartialEq)]
pub enum StageOp {
    AddPath(String),
    RemovePath(String),
}

/// The mathematical shadow of a [`StageOp`].
pub ghost enum StageOpV {
    Add(Seq<char>),
    Remove(Seq<char>),
}

impl View for StageOp {
    type V = StageOpV;

    open spec fn view(&self) -> StageOpV {
        match self {
            StageOp::AddPath(p) => StageOpV::Add(p@),
            StageOp::RemovePath(p) => StageOpV::Remove(p@),
        }
    }
}

/// A file entry the staging plan knows how to handle.
pub open spec fn stageable(f: FileChangeV) -> bool {
    match f.status {
        DeltaKind::Added | DeltaKind::Modified | DeltaKind::Copied | DeltaKind::Untracked
            | DeltaKind::Typechange | DeltaKind::Deleted => true,
        DeltaKind::Renamed => f.old_path is Some,
        _ => false,
    }
}

/// The index operations one file entry calls for: deletions leave the
/// index, renames leave under the old path and enter under the new one,
/// everything else enters under its path.
pub open spec fn ops_of_file(f: FileChangeV) -> Seq<StageOpV> {
    match f.status {
        DeltaKind::Deleted => seq![StageOpV::Remove(f.path)],
        DeltaKind::Renamed => match f.old_path {
            Some(op) => seq![StageOpV::Remove(op), StageOpV::Add(f.path)],
            None => Seq::empty(),
        },
        DeltaKind::Added | DeltaKind::Modified | DeltaKind::Copied | DeltaKind::Untracked
            | DeltaKind::Typechange => seq![StageOpV::Add(f.path)],
        _ => Seq::empty(),
    }
}

/// The staging plan for a whole run of file entries, in order.
pub open spec fn plan_of(files: Seq<FileChangeV>) -> Seq<StageOpV>
    decreases files.len(),
{
    if files.len() == 0 {
        Seq::empty()
    } else {
        plan_of(files.drop_last()) + ops_of_file(files.last())
    }
}

/// Compute the staging plan for the files of a changeset. Fails with the
/// index of the first entry in a state the plan cannot handle.
pub fn staging_ops(files: &Vec<FileChange>) -> (r: Result<Vec<StageOp>, usize>)
    ensures
        match r {
            Ok(ops) => {
                &&& forall|i: int|
                    0 <= i < files@.len() ==> stageable(#[trigger] (files@[i])@)
                &&& ops@.map_values(|o: StageOp| o@) == plan_of(
                    files@.map_values(|f: FileChange| f@),
                )
            },
            Err(i) => {
                &&& i < files@.len()
                &&& !stageable(files@[i as int]@)
                &&& forall|j: int| 0 <= j < i ==> stageable(#[trigger] (files@[j])@)
            },
        },
{
    let ghost all = files@.map_values(|f: FileChange| f@);
    let n = files.len();
    let mut ops: Vec<StageOp> = Vec::new();
    let mut k: usize = 0;
    while k < n
        invariant
            0 <= k <= n,
            n == files@.len(),
            all == files@.map_values(|f: FileChange| f@),
            ops@.map_values(|o: StageOp| o@) == plan_of(all.subrange(0, k as int)),
            forall|j: int| 0 <= j < k ==> stageable(#[trigger] (files@[j])@),
        decreases n - k,
    {
        let f = &files[k];
        let ghost prefix = all.subrange(0, k as int);
        let ghost next = all.subrange(0, k + 1);
        proof {
            assert(next.drop_last() =~= prefix);
            assert(next.last() == f@);
        }
        match f.status {
            DeltaKind::Deleted => {
                ops.push(StageOp::RemovePath(f.path.clone()));
            },
            DeltaKind::Renamed => {
                match &f.old_path {
                    Some(op) => {
                        ops.push(StageOp::RemovePath(op.clone()));
                        ops.push(StageOp::AddPath(f.path.clone()));
                    },
                    None => {
                        return Err(k);
                    },
                }
            },
            DeltaKind::Added | DeltaKind::Modified | DeltaKind::Copied
                | DeltaKind::Untracked | DeltaKind::Typechange => {
                ops.push(StageOp::AddPath(f.path.clone()));
            },
            _ => {
                return Err(k);
            },
        }
        proof {
            assert(ops@.map_values(|o: StageOp| o@) =~= plan_of(next));
        }
        k = k + 1;
    }
    proof {
        assert(all.subrange(0, n as int) =~= all);
    }
    Ok(ops)
}

/// The provider's source policy: the changes described are the staged
/// ones whenever the staged diff touches any file; only then does the
/// unstaged state speak.
pub fn use_staged_changes(staged_files_changed: usize) -> (r: bool)
    ensures
        r <==> staged_files_changed > 0,
{
    staged_files_changed > 0
}

/// All-or-nothing staging: the index may only be written back when no
/// per-file operation failed; otherwise it is reloaded and left as it was.
pub fn stage_write_allowed(errors: &Vec<String>) -> (r: bool)
    ensures
        r <==> errors@.len() == 0,
{
    errors.len() == 0
}

} // verus!
