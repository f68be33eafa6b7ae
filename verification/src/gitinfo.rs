//! Reading the state of an enclosing git repository, through crate
//! `git2`. Everything here that touches the repository is environmental:
//! what comes back depends on the working tree on disk, so the wrappers
//! promise nothing about the values, and the rendering logic takes the
//! gathered snapshot as a plain argument.

use vstd::prelude::*;

verus! {

/// Workdir-versus-index change totals.
#[derive(Clone, Copy, Debug, PartialEq, Eq, Structural)]
pub struct DiffTotals {
    pub files_changed: usize,
    pub insertions: usize,
    pub deletions: usize,
}

/// Commit counts relative to the upstream branch.
#[derive(Clone, Copy, Debug, PartialEq, Eq, Structural)]
pub struct AheadBehind {
    pub ahead: usize,
    pub behind: usize,
}

/// A plain snapshot of what the repository queries yielded. Every
/// field degrades to `None` on its own when its query fails: a partial
/// snapshot (say, a branch name with no upstream counts) is valid and
/// expected.
#[derive(Debug, PartialEq)]
pub struct GitInfo {
    /// The current branch's short name (or detached-HEAD identifier).
    pub branch: Option<String>,
    /// Change statistics between working tree and index.
    pub stats: Option<DiffTotals>,
    /// Commits ahead of and behind the upstream branch.
    pub ahead_behind: Option<AheadBehind>,
}

/// The mathematical shape of a snapshot.
pub ghost struct GitInfoV {
    pub branch: Option<Seq<char>>,
    pub stats: Option<DiffTotals>,
    pub ahead_behind: Option<AheadBehind>,
}

impl View for GitInfo {
    type V = GitInfoV;

    open spec fn view(&self) -> GitInfoV {
        GitInfoV {
            branch: match self.branch {
                Some(b) => Some(b@),
                None => None,
            },
            stats: self.stats,
            ahead_behind: self.ahead_behind,
        }
    }
}

#[verifier::external_type_specification]
#[verifier::external_body]
pub struct ExRepository(git2::Repository);

#[verifier::external_type_specification]
#[verifier::external_body]
pub struct ExReference<'a>(git2::Reference<'a>);

#[verifier::external_type_specification]
#[verifier::external_body]
pub struct ExBranch<'a>(git2::Branch<'a>);

#[verifier::external_type_specification]
#[verifier::external_body]
pub struct ExDiff<'a>(git2::Diff<'a>);

#[verifier::external_type_specification]
#[verifier::external_body]
pub struct ExDiffStats(git2::DiffStats);

#[verifier::external_type_specification]
#[verifier::external_body]
pub struct ExOid(git2::Oid);

/// Relies on `git2::Repository::discover`: walks up from `path` to find
/// an enclosing repository; which (if any) depends on the disk.
#[verifier::external_body]
fn repo_discover(path: &str) -> (r: Option<git2::Repository>) {
    git2::Repository::discover(path).ok()
}

/// Relies on `git2::Repository::head`: the reference HEAD points to,
/// absent for an unborn HEAD or on any repository error.
#[verifier::external_body]
fn repo_head<'r>(repo: &'r git2::Repository) -> (r: Option<git2::Reference<'r>>) {
    repo.head().ok()
}

/// Relies on `git2::Reference::shorthand`: the reference's short name,
/// when it is valid UTF-8.
#[verifier::external_body]
fn ref_shorthand(re: &git2::Reference<'_>) -> (r: Option<String>) {
    re.shorthand().map(|s| s.to_string())
}

/// Relies on `git2::Repository::diff_index_to_workdir` with no index
/// and default options: the changes between index and working tree.
#[verifier::external_body]
fn repo_diff_index_to_workdir<'r>(repo: &'r git2::Repository) -> (r: Option<git2::Diff<'r>>) {
    repo.diff_index_to_workdir(None, None).ok()
}

/// Relies on `git2::Diff::stats`: accumulated totals of a diff.
#[verifier::external_body]
fn diff_stats(d: &git2::Diff<'_>) -> (r: Option<git2::DiffStats>) {
    d.stats().ok()
}

/// Relies on `git2::DiffStats::files_changed`.
#[verifier::external_body]
fn stats_files_changed(s: &git2::DiffStats) -> (r: usize) {
    s.files_changed()
}

/// Relies on `git2::DiffStats::insertions`.
#[verifier::external_body]
fn stats_insertions(s: &git2::DiffStats) -> (r: usize) {
    s.insertions()
}

/// Relies on `git2::DiffStats::deletions`.
#[verifier::external_body]
fn stats_deletions(s: &git2::DiffStats) -> (r: usize) {
    s.deletions()
}

/// Relies on `git2::Branch::wrap`: views a reference as a branch.
#[verifier::external_body]
fn branch_wrap<'r>(re: git2::Reference<'r>) -> (r: git2::Branch<'r>) {
    git2::Branch::wrap(re)
}

/// Relies on `git2::Branch::upstream`: the branch's configured
/// upstream, absent when none is set or on error.
#[verifier::external_body]
fn branch_upstream<'r>(b: &git2::Branch<'r>) -> (r: Option<git2::Branch<'r>>) {
    b.upstream().ok()
}

/// Relies on `git2::Branch::get`: the underlying reference.
#[verifier::external_body]
fn branch_get<'a, 'r>(b: &'a git2::Branch<'r>) -> (r: &'a git2::Reference<'r>) {
    b.get()
}

/// Relies on `git2::Reference::target`: the OID a direct reference
/// points to.
#[verifier::external_body]
fn ref_target(re: &git2::Reference<'_>) -> (r: Option<git2::Oid>) {
    re.target()
}

/// Relies on `git2::Repository::graph_ahead_behind`: how many commits
/// each of two OIDs is ahead of their merge base.
#[verifier::external_body]
fn repo_graph_ahead_behind(
    repo: &git2::Repository,
    local: git2::Oid,
    upstream: git2::Oid,
) -> (r: Option<(usize, usize)>) {
    repo.graph_ahead_behind(local, upstream).ok()
}

/// Takes a snapshot of the repository enclosing `path`, if any: the
/// branch name, the workdir-versus-index totals, and the ahead/behind
/// counts against upstream. Every part degrades to absent on its own
/// failure; what comes back depends entirely on the disk, so nothing
/// more can be promised of it.
pub fn gather_git_info(path: &str) -> (r: Option<GitInfo>) {
    let repo = match repo_discover(path) {
        Some(re) => re,
        None => {
            return None;
        },
    };
    let head = match repo_head(&repo) {
        Some(h) => h,
        None => {
            return None;
        },
    };
    let branch = ref_shorthand(&head);
    let stats = match repo_diff_index_to_workdir(&repo) {
        Some(d) => match diff_stats(&d) {
            Some(s) => Some(
                DiffTotals {
                    files_changed: stats_files_changed(&s),
                    insertions: stats_insertions(&s),
                    deletions: stats_deletions(&s),
                },
            ),
            None => None,
        },
        None => None,
    };
    let local = branch_wrap(head);
    let local_target = ref_target(branch_get(&local));
    let ahead_behind = match branch_upstream(&local) {
        Some(up) => match (local_target, ref_target(branch_get(&up))) {
            (Some(lt), Some(ut)) => match repo_graph_ahead_behind(&repo, lt, ut) {
                Some((a, b)) => Some(AheadBehind { ahead: a, behind: b }),
                None => None,
            },
            _ => None,
        },
        None => None,
    };
    Some(GitInfo { branch, stats, ahead_behind })
}

} // verus!
