//! The values that the git operations give back.

use vstd::prelude::*;

verus! {

/// Why an operation failed: a message, and what lay behind it where the
/// failure came from outside.
#[derive(Debug, PartialEq, Eq)]
pub struct GitError {
    pub message: String,
    pub cause: Option<String>,
}

/// A `GitError` with its texts as sequences.
pub struct GitErrorView {
    pub message: Seq<char>,
    pub cause: Option<Seq<char>>,
}

impl View for GitError {
    type V = GitErrorView;

    open spec fn view(&self) -> GitErrorView {
        GitErrorView { message: self.message@, cause: self.cause.deep_view() }
    }
}

/// A failure that has only a message.
pub open spec fn plain_error(message: Seq<char>) -> GitErrorView {
    GitErrorView { message, cause: None }
}

impl GitError {
    /// A failure that has only a message.
    pub fn new(message: String) -> (r: GitError)
        ensures
            r@ == plain_error(message@),
    {
        GitError { message, cause: None }
    }
}

/// The result of a fallible operation on texts, with texts as sequences.
pub open spec fn text_result(r: Result<String, GitError>) -> Result<Seq<char>, GitErrorView> {
    match r {
        Ok(s) => Ok(s@),
        Err(e) => Err(e@),
    }
}

/// A worktree of a repository.
#[derive(Debug, PartialEq, Eq)]
pub struct WorktreeInfo {
    pub path: String,
    pub branch: Option<String>,
    pub is_main: bool,
}

/// A `WorktreeInfo` with its texts as sequences.
pub struct WorktreeView {
    pub path: Seq<char>,
    pub branch: Option<Seq<char>>,
    pub is_main: bool,
}

impl View for WorktreeInfo {
    type V = WorktreeView;

    open spec fn view(&self) -> WorktreeView {
        WorktreeView {
            path: self.path@,
            branch: self.branch.deep_view(),
            is_main: self.is_main,
        }
    }
}

impl DeepView for WorktreeInfo {
    type V = WorktreeView;

    open spec fn deep_view(&self) -> WorktreeView {
        self.view()
    }
}

/// What there is to know about a directory and the repository around it.
#[derive(Debug, PartialEq, Eq)]
pub struct GitState {
    pub is_git_repo: bool,
    pub current_branch: Option<String>,
    pub dirty_file_count: u32,
    pub incoming_commit_count: u32,
    pub worktrees: Vec<WorktreeInfo>,
    pub is_worktree: bool,
    pub main_worktree_path: Option<String>,
    pub local_branches: Vec<String>,
}

/// A `GitState` with its texts as sequences.
pub struct GitStateView {
    pub is_git_repo: bool,
    pub current_branch: Option<Seq<char>>,
    pub dirty_file_count: u32,
    pub incoming_commit_count: u32,
    pub worktrees: Seq<WorktreeView>,
    pub is_worktree: bool,
    pub main_worktree_path: Option<Seq<char>>,
    pub local_branches: Seq<Seq<char>>,
}

impl View for GitState {
    type V = GitStateView;

    open spec fn view(&self) -> GitStateView {
        GitStateView {
            is_git_repo: self.is_git_repo,
            current_branch: self.current_branch.deep_view(),
            dirty_file_count: self.dirty_file_count,
            incoming_commit_count: self.incoming_commit_count,
            worktrees: self.worktrees.deep_view(),
            is_worktree: self.is_worktree,
            main_worktree_path: self.main_worktree_path.deep_view(),
            local_branches: self.local_branches.deep_view(),
        }
    }
}

impl DeepView for GitState {
    type V = GitStateView;

    open spec fn deep_view(&self) -> GitStateView {
        self.view()
    }
}

/// The state of a directory outside of any repository.
pub open spec fn no_repository() -> GitStateView {
    GitStateView {
        is_git_repo: false,
        current_branch: None,
        dirty_file_count: 0,
        incoming_commit_count: 0,
        worktrees: seq![],
        is_worktree: false,
        main_worktree_path: None,
        local_branches: seq![],
    }
}

impl Default for GitState {
    fn default() -> (r: GitState)
        ensures
            r@ == no_repository(),
    {
        let r = GitState {
            is_git_repo: false,
            current_branch: None,
            dirty_file_count: 0,
            incoming_commit_count: 0,
            worktrees: Vec::new(),
            is_worktree: false,
            main_worktree_path: None,
            local_branches: Vec::new(),
        };
        assert(r.worktrees.deep_view() =~= seq![]);
        assert(r.local_branches.deep_view() =~= seq![]);
        r
    }
}

/// A worktree that was made, and its branch.
#[derive(Debug, PartialEq, Eq)]
pub struct CreatedWorktree {
    pub path: String,
    pub branch: String,
}

/// A `CreatedWorktree` with its texts as sequences.
pub struct CreatedView {
    pub path: Seq<char>,
    pub branch: Seq<char>,
}

impl View for CreatedWorktree {
    type V = CreatedView;

    open spec fn view(&self) -> CreatedView {
        CreatedView { path: self.path@, branch: self.branch@ }
    }
}

impl DeepView for CreatedWorktree {
    type V = CreatedView;

    open spec fn deep_view(&self) -> CreatedView {
        self.view()
    }
}

/// A file that differs from the last commit.
#[derive(Debug, PartialEq, Eq)]
pub struct ChangedFile {
    pub path: String,
    pub status: String,
    pub additions: u32,
    pub deletions: u32,
}

/// A `ChangedFile` with its texts as sequences.
pub struct ChangedView {
    pub path: Seq<char>,
    pub status: Seq<char>,
    pub additions: u32,
    pub deletions: u32,
}

impl View for ChangedFile {
    type V = ChangedView;

    open spec fn view(&self) -> ChangedView {
        ChangedView {
            path: self.path@,
            status: self.status@,
            additions: self.additions,
            deletions: self.deletions,
        }
    }
}

impl DeepView for ChangedFile {
    type V = ChangedView;

    open spec fn deep_view(&self) -> ChangedView {
        self.view()
    }
}

} // verus!
