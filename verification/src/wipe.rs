//! The decisions of the wipe command when it clears away empty directories.
use crate::text::chars_of;
use vstd::prelude::*;

verus! {

/// What became of one entry of a directory while the wipe command cleaned it.
#[derive(Debug, Clone, Copy, PartialEq, Eq, Structural)]
pub enum ChildOutcome {
    /// A file (or anything that is not a directory): it stays.
    File,
    /// The repository's `.git` directory: never entered, it stays.
    GitDir,
    /// A subdirectory that was emptied and removed.
    RemovedDir,
    /// A subdirectory that kept some content.
    KeptDir,
}

/// The name of the repository's own directory, `.git`, which wipe never enters.
pub open spec fn git_dir_name(name: Option<&str>) -> bool {
    name matches Some(n) && n@ == seq!['.', 'g', 'i', 't']
}

/// A directory is removed when every entry it had was a subdirectory that was
/// removed in turn (so it is now empty), unless it is the working directory's root.
pub open spec fn removable(children: Seq<ChildOutcome>, is_root: bool) -> bool {
    !is_root && forall|i: int| 0 <= i < children.len() ==> children[i] == ChildOutcome::RemovedDir
}

/// Whether a directory entry's name is `.git`.
pub fn is_git_dir_name(name: Option<&str>) -> (r: bool)
    ensures
        r == git_dir_name(name),
{
    match name {
        Some(n) => {
            let cs = chars_of(n);
            let r = cs.len() == 4 && cs[0] == '.' && cs[1] == 'g' && cs[2] == 'i' && cs[3] == 't';
            assert(r ==> cs@ =~= seq!['.', 'g', 'i', 't']);
            r
        },
        None => false,
    }
}

/// Whether the directory whose entries came out as `children` is removed.
pub fn dir_removable(children: &[ChildOutcome], is_root: bool) -> (r: bool)
    ensures
        r == removable(children@, is_root),
{
    let n = children.len();
    let mut empty = true;
    for i in 0..n
        invariant
            n == children@.len(),
            empty == forall|j: int| 0 <= j < i ==> children@[j] == ChildOutcome::RemovedDir,
    {
        match children[i] {
            ChildOutcome::RemovedDir => {},
            _ => {
                empty = false;
            },
        }
    }
    empty && !is_root
}

/// A directory goes only when each of its entries, wherever it stands, is a
/// subdirectory that was removed: one file, `.git` or kept subdirectory at any
/// position keeps it, and the root is always kept. An emptied non-root directory
/// does go.
pub proof fn lemma_removal_needs_every_child_gone(children: Seq<ChildOutcome>, is_root: bool, k: int)
    ensures
        0 <= k < children.len() && children[k] != ChildOutcome::RemovedDir ==> !removable(
            children,
            is_root,
        ),
        is_root ==> !removable(children, is_root),
        !is_root && !children.contains(ChildOutcome::File) && !children.contains(
            ChildOutcome::GitDir,
        ) && !children.contains(ChildOutcome::KeptDir) ==> removable(children, is_root),
{
    if !is_root && !children.contains(ChildOutcome::File) && !children.contains(ChildOutcome::GitDir)
        && !children.contains(ChildOutcome::KeptDir) {
        assert forall|i: int| 0 <= i < children.len() implies children[i]
            == ChildOutcome::RemovedDir by {
            match children[i] {
                ChildOutcome::File => assert(children.contains(ChildOutcome::File)),
                ChildOutcome::GitDir => assert(children.contains(ChildOutcome::GitDir)),
                ChildOutcome::KeptDir => assert(children.contains(ChildOutcome::KeptDir)),
                ChildOutcome::RemovedDir => {},
            }
        }
    }
}

} // verus!
