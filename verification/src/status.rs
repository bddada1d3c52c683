//! The data model of branch reconciliation: a branch snapshot, the status
//! a sync run decides per branch, the structural errors, and the spec-level
//! pictures the contracts are stated over.
use vstd::prelude::*;

verus! {

/// A structural failure of one of the repository operations.
#[derive(Debug, PartialEq, Eq, Structural)]
pub enum GitError {
    /// The working directory is not inside a repository.
    NotARepository,
    /// A sync run was requested but the repository has no remote.
    NoRemoteConfigured,
    /// Neither a symbolic default ref nor a conventional default branch exists.
    NoDefaultBranch,
    /// An underlying query whose answer the decision needed has failed.
    QueryFailed,
}

/// One local branch as read from ref storage: its name, the short hash of
/// its tip, and the path of the linked worktree it is checked out in, if any.
#[derive(Debug)]
pub struct BranchInfo {
    pub name: String,
    pub commit_id: String,
    pub worktree_path: Option<String>,
}

/// The spec-level picture of a [`BranchInfo`].
pub struct BranchInfoModel {
    pub name: Seq<char>,
    pub commit_id: Seq<char>,
    pub worktree_path: Option<Seq<char>>,
}

impl View for BranchInfo {
    type V = BranchInfoModel;

    open spec fn view(&self) -> BranchInfoModel {
        BranchInfoModel {
            name: self.name@,
            commit_id: self.commit_id@,
            worktree_path: self.worktree_path.deep_view(),
        }
    }
}

impl DeepView for BranchInfo {
    type V = BranchInfoModel;

    open spec fn deep_view(&self) -> BranchInfoModel {
        self.view()
    }
}

/// What one sync run decided about one branch.
#[derive(Debug)]
pub enum BranchStatus {
    /// The local branch was behind and its ref was advanced to the remote tip.
    Updated(String),
    /// The branch was fully merged into the default branch and was deleted.
    Merged(String),
    /// The branch once had a remote-tracking ref which is now gone.
    RemoteGone(String),
    /// The branch has local commits the remote-tracking ref lacks.
    Diverged(String),
    /// Local and remote-tracking tips are identical.
    UpToDate,
    /// No remote-tracking ref exists at all; the branch was never pushed.
    LocalOnly(String),
    /// The working tree has uncommitted changes; the run stopped here.
    Modified(String),
}

/// The spec-level picture of a [`BranchStatus`].
pub enum StatusModel {
    Updated(Seq<char>),
    Merged(Seq<char>),
    RemoteGone(Seq<char>),
    Diverged(Seq<char>),
    UpToDate,
    LocalOnly(Seq<char>),
    Modified(Seq<char>),
}

impl View for BranchStatus {
    type V = StatusModel;

    open spec fn view(&self) -> StatusModel {
        match self {
            BranchStatus::Updated(n) => StatusModel::Updated(n@),
            BranchStatus::Merged(n) => StatusModel::Merged(n@),
            BranchStatus::RemoteGone(n) => StatusModel::RemoteGone(n@),
            BranchStatus::Diverged(n) => StatusModel::Diverged(n@),
            BranchStatus::UpToDate => StatusModel::UpToDate,
            BranchStatus::LocalOnly(n) => StatusModel::LocalOnly(n@),
            BranchStatus::Modified(n) => StatusModel::Modified(n@),
        }
    }
}

impl DeepView for BranchStatus {
    type V = StatusModel;

    open spec fn deep_view(&self) -> StatusModel {
        self.view()
    }
}

impl PartialEq for BranchStatus {
    fn eq(&self, other: &Self) -> (r: bool) {
        match (self, other) {
            (BranchStatus::Updated(a), BranchStatus::Updated(b)) => crate::text::str_eq(
                a.as_str(),
                b.as_str(),
            ),
            (BranchStatus::Merged(a), BranchStatus::Merged(b)) => crate::text::str_eq(
                a.as_str(),
                b.as_str(),
            ),
            (BranchStatus::RemoteGone(a), BranchStatus::RemoteGone(b)) => crate::text::str_eq(
                a.as_str(),
                b.as_str(),
            ),
            (BranchStatus::Diverged(a), BranchStatus::Diverged(b)) => crate::text::str_eq(
                a.as_str(),
                b.as_str(),
            ),
            (BranchStatus::UpToDate, BranchStatus::UpToDate) => true,
            (BranchStatus::LocalOnly(a), BranchStatus::LocalOnly(b)) => crate::text::str_eq(
                a.as_str(),
                b.as_str(),
            ),
            (BranchStatus::Modified(a), BranchStatus::Modified(b)) => crate::text::str_eq(
                a.as_str(),
                b.as_str(),
            ),
            _ => false,
        }
    }
}

impl vstd::std_specs::cmp::PartialEqSpecImpl for BranchStatus {
    open spec fn obeys_eq_spec() -> bool {
        true
    }

    open spec fn eq_spec(&self, other: &Self) -> bool {
        match (self, other) {
            (BranchStatus::Updated(a), BranchStatus::Updated(b)) => a@ == b@,
            (BranchStatus::Merged(a), BranchStatus::Merged(b)) => a@ == b@,
            (BranchStatus::RemoteGone(a), BranchStatus::RemoteGone(b)) => a@ == b@,
            (BranchStatus::Diverged(a), BranchStatus::Diverged(b)) => a@ == b@,
            (BranchStatus::UpToDate, BranchStatus::UpToDate) => true,
            (BranchStatus::LocalOnly(a), BranchStatus::LocalOnly(b)) => a@ == b@,
            (BranchStatus::Modified(a), BranchStatus::Modified(b)) => a@ == b@,
            _ => false,
        }
    }
}

/// The ref mutation, if any, that a classification decision calls for.
#[derive(Debug, PartialEq, Eq, Structural)]
pub enum ClassifyAction {
    /// Classification leaves every ref as it stands.
    Nothing,
    /// The branch's local ref must be advanced to its remote-tracking tip.
    AdvanceToRemote,
}

} // verus!
