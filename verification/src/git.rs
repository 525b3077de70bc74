use vstd::prelude::*;
use crate::naming::{normalize_git_path, normalized};
use crate::text::texts;
use crate::usage::{clamp, lemma_rank_slot_is, plus, ranked};

verus! {

/// What git reports of one path: how it differs in the index from the
/// last commit, and in the working tree from the index.
#[derive(Clone, Copy, Debug, PartialEq, Eq, Structural)]
pub struct PathChanges {
    pub index_new: bool,
    pub index_modified: bool,
    pub index_deleted: bool,
    pub index_renamed: bool,
    pub index_typechange: bool,
    pub wt_new: bool,
    pub wt_modified: bool,
    pub wt_deleted: bool,
    pub wt_renamed: bool,
    pub wt_typechange: bool,
}

/// The status of one path as it is shown.
#[derive(Debug)]
pub struct GitFileStatus {
    pub path: String,
    pub status: String,
    pub additions: i64,
    pub deletions: i64,
}

/// The mark of a path's changes: `A` for a new path, else `M` for a
/// modified one, else `D`, `R` and `T` for a deleted, a renamed and a
/// retyped one, and `--` for a path with none of these changes.
pub open spec fn mark_of(c: PathChanges) -> Seq<char> {
    if c.wt_new || c.index_new {
        "A"@
    } else if c.wt_modified || c.index_modified {
        "M"@
    } else if c.wt_deleted || c.index_deleted {
        "D"@
    } else if c.wt_renamed || c.index_renamed {
        "R"@
    } else if c.wt_typechange || c.index_typechange {
        "T"@
    } else {
        "--"@
    }
}

/// Whether the index differs from the last commit at the path.
pub open spec fn staged(c: PathChanges) -> bool {
    c.index_new || c.index_modified || c.index_deleted || c.index_renamed || c.index_typechange
}

/// Whether the working tree differs from the index at the path.
pub open spec fn unstaged(c: PathChanges) -> bool {
    c.wt_new || c.wt_modified || c.wt_deleted || c.wt_renamed || c.wt_typechange
}

/// The mark of a path's changes.
pub fn status_mark(c: &PathChanges) -> (r: &'static str)
    ensures
        r@ == mark_of(*c),
{
    if c.wt_new || c.index_new {
        "A"
    } else if c.wt_modified || c.index_modified {
        "M"
    } else if c.wt_deleted || c.index_deleted {
        "D"
    } else if c.wt_renamed || c.index_renamed {
        "R"
    } else if c.wt_typechange || c.index_typechange {
        "T"
    } else {
        "--"
    }
}

/// Whether the lines of the staged changes of the path are counted.
pub fn include_index(c: &PathChanges) -> (r: bool)
    ensures
        r == staged(*c),
{
    c.index_new || c.index_modified || c.index_deleted || c.index_renamed || c.index_typechange
}

/// Whether the lines of the unstaged changes of the path are counted.
pub fn include_workdir(c: &PathChanges) -> (r: bool)
    ensures
        r == unstaged(*c),
{
    c.wt_new || c.wt_modified || c.wt_deleted || c.wt_renamed || c.wt_typechange
}

/// The lines of a path's changes: those of the staged and of the unstaged
/// changes together, each counted only where the path has such changes.
pub open spec fn lines_changed(c: PathChanges, in_index: i64, in_workdir: i64) -> i64 {
    clamp(
        (if staged(c) {
            in_index as int
        } else {
            0
        }) + (if unstaged(c) {
            in_workdir as int
        } else {
            0
        }),
    )
}

/// The lines of a path's changes.
pub fn combine_stats(c: &PathChanges, in_index: i64, in_workdir: i64) -> (r: i64)
    ensures
        r == lines_changed(*c, in_index, in_workdir),
{
    let a = if include_index(c) {
        in_index
    } else {
        0
    };
    let b = if include_workdir(c) {
        in_workdir
    } else {
        0
    };
    plus(a, b)
}

/// The status of one path as it is shown: the path with forward slashes, and its mark.
pub fn file_status(path: &str, c: &PathChanges, additions: i64, deletions: i64) -> (r: GitFileStatus)
    ensures
        r.path@ == normalized(path@),
        r.status@ == mark_of(*c),
        r.additions == additions,
        r.deletions == deletions,
{
    GitFileStatus {
        path: normalize_git_path(path),
        status: status_mark(c).to_owned(),
        additions,
        deletions,
    }
}

/// The added lines of some paths together.
pub open spec fn additions_of(files: Seq<GitFileStatus>) -> i64
    decreases files.len(),
{
    if files.len() == 0 {
        0
    } else {
        clamp(additions_of(files.drop_last()) + files.last().additions)
    }
}

/// The deleted lines of some paths together.
pub open spec fn deletions_of(files: Seq<GitFileStatus>) -> i64
    decreases files.len(),
{
    if files.len() == 0 {
        0
    } else {
        clamp(deletions_of(files.drop_last()) + files.last().deletions)
    }
}

/// The added and the deleted lines of all paths.
pub fn total_changes(files: &Vec<GitFileStatus>) -> (r: (i64, i64))
    ensures
        r.0 == additions_of(files@),
        r.1 == deletions_of(files@),
{
    let mut additions: i64 = 0;
    let mut deletions: i64 = 0;
    let mut i: usize = 0;
    proof {
        assert(files@.take(0) =~= Seq::<GitFileStatus>::empty());
    }
    while i < files.len()
        invariant
            i <= files.len(),
            additions == additions_of(files@.take(i as int)),
            deletions == deletions_of(files@.take(i as int)),
        decreases files.len() - i,
    {
        proof {
            assert(files@.take(i + 1).drop_last() =~= files@.take(i as int));
        }
        additions = plus(additions, files[i].additions);
        deletions = plus(deletions, files[i].deletions);
        i += 1;
    }
    proof {
        assert(files@.take(files@.len() as int) =~= files@);
    }
    (additions, deletions)
}

/// The remote whose address is shown: `origin` where the repository has
/// it, and else its first remote, unless that has an empty name.
pub open spec fn chosen_remote(names: Seq<Seq<char>>) -> Option<Seq<char>> {
    if names.contains("origin"@) {
        Some("origin"@)
    } else if names.len() > 0 && names[0].len() > 0 {
        Some(names[0])
    } else {
        None
    }
}

/// The remote whose address is shown.
pub fn pick_remote(names: &Vec<String>) -> (r: Option<String>)
    ensures
        crate::text::option_text(r) == chosen_remote(texts(names@)),
{
    if crate::text::holds_text(names, "origin") {
        Some("origin".to_owned())
    } else if names.len() > 0 && names[0].as_str().unicode_len() > 0 {
        assert(texts(names@)[0] == names@[0]@);
        Some(names[0].clone())
    } else {
        proof {
            if names.len() > 0 {
                assert(texts(names@)[0] == names@[0]@);
            }
        }
        None
    }
}

/// A local branch and the time of its last commit, in seconds.
#[derive(Debug)]
pub struct BranchInfo {
    pub name: String,
    pub last_commit: i64,
}

impl View for BranchInfo {
    type V = (Seq<char>, i64);

    open spec fn view(&self) -> (Seq<char>, i64) {
        (self.name@, self.last_commit)
    }
}

/// The values of a list of branches.
pub open spec fn branch_views(list: Seq<BranchInfo>) -> Seq<(Seq<char>, i64)> {
    list.map_values(|b: BranchInfo| b@)
}

/// The predicate that holds of the branches that have a name.
pub open spec fn named() -> spec_fn((Seq<char>, i64)) -> bool {
    |b: (Seq<char>, i64)| b.0.len() > 0
}

/// The branches that have a name, the one with the latest commit first;
/// branches with commits of one time stay in the order of the list.
pub fn newest_first(branches: Vec<BranchInfo>) -> (sorted: Vec<BranchInfo>)
    ensures
        branch_views(sorted@) == ranked(branch_views(branches@).filter(named())),
{
    let ghost all = branch_views(branches@);
    let mut sorted: Vec<BranchInfo> = Vec::new();
    let mut i: usize = 0;
    proof {
        reveal(Seq::filter);
        assert(all.take(0) =~= Seq::<(Seq<char>, i64)>::empty());
        assert(branch_views(sorted@) =~= Seq::<(Seq<char>, i64)>::empty());
    }
    while i < branches.len()
        invariant
            i <= branches.len(),
            all == branch_views(branches@),
            branch_views(sorted@) == ranked(all.take(i as int).filter(named())),
        decreases branches.len() - i,
    {
        proof {
            reveal(Seq::filter);
            assert(all.take(i + 1).drop_last() =~= all.take(i as int));
            assert(all.take(i + 1).last() == branches@[i as int]@);
            let kept = all.take(i as int).filter(named());
            if named()(branches@[i as int]@) {
                assert(kept.push(branches@[i as int]@).drop_last() =~= kept);
            }
        }
        let b = &branches[i];
        if b.name.as_str().unicode_len() > 0 {
            let ghost before = branch_views(sorted@);
            let mut k: usize = 0;
            while k < sorted.len() && sorted[k].last_commit >= b.last_commit
                invariant
                    k <= sorted.len(),
                    branch_views(sorted@) == before,
                    forall|m: int| 0 <= m < k ==> (#[trigger] before[m]).1 >= b.last_commit,
                decreases sorted.len() - k,
            {
                assert(before[k as int] == sorted@[k as int]@);
                k += 1;
            }
            proof {
                if k < sorted.len() {
                    assert(before[k as int] == sorted@[k as int]@);
                }
                lemma_rank_slot_is(before, b.last_commit, k as int);
            }
            let copy = BranchInfo { name: b.name.clone(), last_commit: b.last_commit };
            sorted.insert(k, copy);
            assert(branch_views(sorted@) =~= before.insert(k as int, copy@));
        }
        i += 1;
    }
    proof {
        assert(all.take(all.len() as int) =~= all);
    }
    sorted
}

/// The number of commits that a log shows: forty where none is asked for.
pub fn log_limit(limit: Option<usize>) -> (r: usize)
    ensures
        r == match limit {
            Some(n) => n,
            None => 40usize,
        },
{
    match limit {
        Some(n) => n,
        None => 40,
    }
}

} // verus!
