//! The state of files in the index and the working tree: the two-letter status
//! codes that the dump command prints, whether anything is left to commit, and
//! which paths are untracked.
use crate::text::{chars_of, push_char, push_chars, push_str};
use vstd::prelude::*;

verus! {

/// What the repository reports of one path: the changes staged in the index and
/// the changes in the working tree.
#[derive(Debug, Clone, Copy, PartialEq, Eq, Structural)]
pub struct FileStatus {
    pub index_new: bool,
    pub index_modified: bool,
    pub index_deleted: bool,
    pub index_renamed: bool,
    pub index_typechange: bool,
    pub wt_new: bool,
    pub wt_modified: bool,
    pub wt_deleted: bool,
    pub wt_renamed: bool,
    pub wt_typechange: bool,
}

/// One status entry: the status of a path, and the path when it could be read.
#[derive(Debug, Clone, PartialEq, Eq)]
pub struct StatusEntry {
    pub status: FileStatus,
    pub path: Option<String>,
}

/// The index column: `A` added, `M` modified, `D` deleted, `R` renamed,
/// `T` type changed, blank for none, taken in that order of precedence.
pub open spec fn index_code(s: FileStatus) -> char {
    if s.index_new {
        'A'
    } else if s.index_modified {
        'M'
    } else if s.index_deleted {
        'D'
    } else if s.index_renamed {
        'R'
    } else if s.index_typechange {
        'T'
    } else {
        ' '
    }
}

/// The working-tree column: `?` untracked, `M` modified, `D` deleted, `R` renamed,
/// `T` type changed, blank for none, taken in that order of precedence.
pub open spec fn worktree_code(s: FileStatus) -> char {
    if s.wt_new {
        '?'
    } else if s.wt_modified {
        'M'
    } else if s.wt_deleted {
        'D'
    } else if s.wt_renamed {
        'R'
    } else if s.wt_typechange {
        'T'
    } else {
        ' '
    }
}

/// The two-letter status code: index column, then working-tree column; an
/// untracked path with nothing staged shows as `??`.
pub open spec fn status_code(s: FileStatus) -> Seq<char> {
    if s.wt_new && index_code(s) == ' ' {
        seq!['?', '?']
    } else {
        seq![index_code(s), worktree_code(s)]
    }
}

/// The path that a status line names: the entry's path, or `<unknown>`.
pub open spec fn shown_path(e: StatusEntry) -> Seq<char> {
    match e.path {
        Some(p) => p@,
        None => seq!['<', 'u', 'n', 'k', 'n', 'o', 'w', 'n', '>'],
    }
}

/// The line the dump command prints for an entry: `XY path` in porcelain form,
/// else the code padded to three columns, a space and the path.
pub open spec fn status_line_text(e: StatusEntry, porcelain: bool) -> Seq<char> {
    if porcelain {
        status_code(e.status) + seq![' '] + shown_path(e)
    } else {
        status_code(e.status) + seq![' ', ' '] + shown_path(e)
    }
}

/// The path has a change in the index or the working tree.
pub open spec fn is_change(s: FileStatus) -> bool {
    s.index_new || s.index_modified || s.index_deleted || s.index_renamed || s.index_typechange
        || s.wt_new || s.wt_modified || s.wt_deleted || s.wt_renamed || s.wt_typechange
}

/// The index column of the status code.
pub fn index_status_char(s: &FileStatus) -> (r: char)
    ensures
        r == index_code(*s),
{
    if s.index_new {
        'A'
    } else if s.index_modified {
        'M'
    } else if s.index_deleted {
        'D'
    } else if s.index_renamed {
        'R'
    } else if s.index_typechange {
        'T'
    } else {
        ' '
    }
}

/// The working-tree column of the status code.
pub fn worktree_status_char(s: &FileStatus) -> (r: char)
    ensures
        r == worktree_code(*s),
{
    if s.wt_new {
        '?'
    } else if s.wt_modified {
        'M'
    } else if s.wt_deleted {
        'D'
    } else if s.wt_renamed {
        'R'
    } else if s.wt_typechange {
        'T'
    } else {
        ' '
    }
}

/// The two-letter status code of a path (`??` for an untracked one with nothing staged).
pub fn format_status(s: &FileStatus) -> (r: String)
    ensures
        r@ == status_code(*s),
{
    let index = index_status_char(s);
    let worktree = worktree_status_char(s);
    let mut r = String::new();
    if index == ' ' && s.wt_new {
        push_char(&mut r, '?');
        push_char(&mut r, '?');
    } else {
        push_char(&mut r, index);
        push_char(&mut r, worktree);
    }
    r
}

/// The line the dump command prints for a status entry.
pub fn status_line(e: &StatusEntry, porcelain: bool) -> (r: String)
    ensures
        r@ == status_line_text(*e, porcelain),
{
    let mut r = format_status(&e.status);
    if porcelain {
        push_char(&mut r, ' ');
    } else {
        push_chars(&mut r, &[' ', ' ']);
    }
    match &e.path {
        Some(p) => push_str(&mut r, p.as_str()),
        None => push_chars(&mut r, &['<', 'u', 'n', 'k', 'n', 'o', 'w', 'n', '>']),
    }
    r
}

/// Whether any of the paths has a change in the index or the working tree.
pub fn has_uncommitted_changes(statuses: &[FileStatus]) -> (r: bool)
    ensures
        r == exists|i: int| 0 <= i < statuses@.len() && is_change(#[trigger] statuses@[i]),
{
    let n = statuses.len();
    for i in 0..n
        invariant
            n == statuses@.len(),
            forall|j: int| 0 <= j < i ==> !is_change(#[trigger] statuses@[j]),
    {
        let s = &statuses[i];
        if s.index_new || s.index_modified || s.index_deleted || s.index_renamed
            || s.index_typechange || s.wt_new || s.wt_modified || s.wt_deleted || s.wt_renamed
            || s.wt_typechange {
            assert(is_change(statuses@[i as int]));
            return true;
        }
    }
    false
}

/// The entries that are untracked in the working tree and have a path.
pub open spec fn untracked_entries(entries: Seq<StatusEntry>) -> Seq<StatusEntry> {
    entries.filter(|e: StatusEntry| e.status.wt_new && e.path is Some)
}

/// The paths of the untracked entries, in the order the entries come.
pub fn untracked_paths(entries: &[StatusEntry]) -> (r: Vec<String>)
    ensures
        r@.len() == untracked_entries(entries@).len(),
        forall|i: int|
            0 <= i < r@.len() ==> (#[trigger] r@[i])@ == untracked_entries(entries@)[i].path->0@,
{
    let mut r: Vec<String> = Vec::new();
    let n = entries.len();
    for i in 0..n
        invariant
            n == entries@.len(),
            r@.len() == untracked_entries(entries@.take(i as int)).len(),
            forall|k: int|
                0 <= k < r@.len() ==> (#[trigger] r@[k])@ == untracked_entries(
                    entries@.take(i as int),
                )[k].path->0@,
    {
        let ghost before = entries@.take(i as int);
        let ghost x = entries@[i as int];
        assert(entries@.take(i + 1) == before.push(x));
        proof {
            reveal_with_fuel(Seq::filter, 1);
            let p = |e: StatusEntry| e.status.wt_new && e.path is Some;
            assert(before.push(x).drop_last() == before);
            assert(before.push(x).filter(p) == (if p(x) {
                before.filter(p).push(x)
            } else {
                before.filter(p)
            }));
        }
        let e = &entries[i];
        if e.status.wt_new {
            match &e.path {
                Some(p) => {
                    r.push(p.clone());
                },
                None => {},
            }
        }
    }
    assert(entries@.take(n as int) == entries@);
    r
}

/// The status of a path with no change at all: every flag clear.
pub open spec fn unchanged_status() -> FileStatus {
    FileStatus {
        index_new: false,
        index_modified: false,
        index_deleted: false,
        index_renamed: false,
        index_typechange: false,
        wt_new: false,
        wt_modified: false,
        wt_deleted: false,
        wt_renamed: false,
        wt_typechange: false,
    }
}

/// A path counts as changed exactly when its status is not the all-clear one,
/// that is when any one of its ten index or working-tree flags is set.
pub proof fn lemma_change_is_any_flag(s: FileStatus)
    ensures
        is_change(s) <==> s != unchanged_status(),
{
}

/// The index column reads the five index flags and nothing else: it is blank
/// exactly when none is set, `A` exactly when a new file is staged, and `M` for a
/// staged modification of a file that is not new; two statuses that agree on the
/// index flags get the same index column, whatever their working-tree flags.
pub proof fn lemma_index_column(s: FileStatus, t: FileStatus)
    ensures
        index_code(s) == ' ' <==> !(s.index_new || s.index_modified || s.index_deleted
            || s.index_renamed || s.index_typechange),
        index_code(s) == 'A' <==> s.index_new,
        s.index_modified && !s.index_new ==> index_code(s) == 'M',
        s.index_deleted && !s.index_new && !s.index_modified ==> index_code(s) == 'D',
        s.index_new == t.index_new && s.index_modified == t.index_modified && s.index_deleted
            == t.index_deleted && s.index_renamed == t.index_renamed && s.index_typechange
            == t.index_typechange ==> index_code(s) == index_code(t),
{
}

/// The working-tree column reads the five working-tree flags and nothing else: it
/// is blank exactly when none is set, `?` exactly when the path is untracked, and
/// `M` for a modification of a tracked file.
pub proof fn lemma_worktree_column(s: FileStatus, t: FileStatus)
    ensures
        worktree_code(s) == ' ' <==> !(s.wt_new || s.wt_modified || s.wt_deleted || s.wt_renamed
            || s.wt_typechange),
        worktree_code(s) == '?' <==> s.wt_new,
        s.wt_modified && !s.wt_new ==> worktree_code(s) == 'M',
        s.wt_new == t.wt_new && s.wt_modified == t.wt_modified && s.wt_deleted == t.wt_deleted
            && s.wt_renamed == t.wt_renamed && s.wt_typechange == t.wt_typechange
            ==> worktree_code(s) == worktree_code(t),
{
}

} // verus!
