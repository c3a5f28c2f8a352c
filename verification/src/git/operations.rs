//! The operations on repositories. Each function is given the replies to the
//! actions that it asked for so far and says what comes next.

use crate::encoding;
use crate::git::exchange;
use crate::git::exchange::{
    ActionView, GitAction, GitReply, GitStep, Progress, ProgressView, ReplyView, StepView,
};
use crate::git::parse;
use crate::git::types;
use crate::git::types::{
    CreatedView, CreatedWorktree, GitError, GitErrorView, GitState, GitStateView,
};
use crate::git::worktree;
use crate::numbers;
use crate::paths;
use crate::platform::Platform;
use crate::text;
use vstd::prelude::*;

verus! {

/// An operation that runs git once in a directory that has to exist.
pub open spec fn single_run(
    path: Seq<char>,
    args: Seq<Seq<char>>,
    replies: Seq<ReplyView>,
) -> StepView<()> {
    exchange::after(
        exchange::repo_path(path, replies, 0),
        |_u: ()|
            exchange::after(
                exchange::git_output(path, args, replies, 1),
                |_out: Seq<char>| StepView::Done(Ok(())),
            ),
    )
}

/// An operation that runs git once in a directory that has to exist.
fn run_once(path: &str, args: Vec<String>, replies: &Vec<GitReply>) -> (r: GitStep<()>)
    ensures
        r@ == single_run(path@, args.deep_view(), replies.deep_view()),
{
    match exchange::resolve_repo_path(path, replies, 0) {
        Progress::Ask(action) => GitStep::Do(action),
        Progress::Fail(e) => GitStep::Done(Err(e)),
        Progress::Go(_) => match exchange::run_git_success(path, args, replies, 1) {
            Progress::Ask(action) => GitStep::Do(action),
            Progress::Fail(e) => GitStep::Done(Err(e)),
            Progress::Go(_) => GitStep::Done(Ok(())),
        },
    }
}

/// Switches to a branch.
pub fn switch_branch(path: &str, branch: &str, replies: &Vec<GitReply>) -> (r: GitStep<()>)
    ensures
        r@ == single_run(path@, seq!["switch"@, branch@], replies.deep_view()),
{
    let args = vec!["switch".to_string(), branch.to_string()];
    assert(args.deep_view() =~= seq!["switch"@, branch@]);
    run_once(path, args, replies)
}

/// Puts the changes aside.
pub fn stash(path: &str, replies: &Vec<GitReply>) -> (r: GitStep<()>)
    ensures
        r@ == single_run(path@, seq!["stash"@], replies.deep_view()),
{
    let args = vec!["stash".to_string()];
    assert(args.deep_view() =~= seq!["stash"@]);
    run_once(path, args, replies)
}

/// Makes a repository of a directory.
pub fn init(path: &str, replies: &Vec<GitReply>) -> (r: GitStep<()>)
    ensures
        r@ == single_run(path@, seq!["init"@], replies.deep_view()),
{
    let args = vec!["init".to_string()];
    assert(args.deep_view() =~= seq!["init"@]);
    run_once(path, args, replies)
}

/// Fetches, and drops what is gone from the remote.
pub fn fetch(path: &str, replies: &Vec<GitReply>) -> (r: GitStep<()>)
    ensures
        r@ == single_run(path@, seq!["fetch"@, "--prune"@], replies.deep_view()),
{
    let args = vec!["fetch".to_string(), "--prune".to_string()];
    assert(args.deep_view() =~= seq!["fetch"@, "--prune"@]);
    run_once(path, args, replies)
}

/// Pulls, where that needs no merge.
pub fn pull(path: &str, replies: &Vec<GitReply>) -> (r: GitStep<()>)
    ensures
        r@ == single_run(path@, seq!["pull"@, "--ff-only"@], replies.deep_view()),
{
    let args = vec!["pull".to_string(), "--ff-only".to_string()];
    assert(args.deep_view() =~= seq!["pull"@, "--ff-only"@]);
    run_once(path, args, replies)
}

/// What a text that must not be empty amounts to as part of an operation.
pub open spec fn checked<T>(r: Result<T, GitErrorView>) -> ProgressView<T> {
    match r {
        Ok(value) => ProgressView::Go(value),
        Err(e) => ProgressView::Fail(e),
    }
}

/// The steps of making a branch.
pub open spec fn create_branch_step(
    path: Seq<char>,
    name: Seq<char>,
    base_branch: Seq<char>,
    replies: Seq<ReplyView>,
) -> StepView<()> {
    exchange::after(
        exchange::repo_path(path, replies, 0),
        |_u: ()|
            exchange::after(
                checked(parse::nonempty(name, "Branch name"@)),
                |branch: Seq<char>|
                    exchange::after(
                        checked(parse::nonempty(base_branch, "Base branch"@)),
                        |base: Seq<char>|
                            exchange::after(
                                exchange::git_output(
                                    path,
                                    seq!["switch"@, "-c"@, branch, base],
                                    replies,
                                    1,
                                ),
                                |_out: Seq<char>| StepView::Done(Ok(())),
                            ),
                    ),
            ),
    )
}

/// Makes a branch from another one and switches to it.
pub fn create_branch(
    path: &str,
    name: &str,
    base_branch: &str,
    replies: &Vec<GitReply>,
) -> (r: GitStep<()>)
    ensures
        r@ == create_branch_step(path@, name@, base_branch@, replies.deep_view()),
{
    match exchange::resolve_repo_path(path, replies, 0) {
        Progress::Ask(action) => {
            return GitStep::Do(action);
        },
        Progress::Fail(e) => {
            return GitStep::Done(Err(e));
        },
        Progress::Go(_) => {},
    }
    let branch = match parse::require_nonempty(name, "Branch name") {
        Ok(branch) => branch,
        Err(e) => {
            return GitStep::Done(Err(e));
        },
    };
    let base = match parse::require_nonempty(base_branch, "Base branch") {
        Ok(base) => base,
        Err(e) => {
            return GitStep::Done(Err(e));
        },
    };
    let args = vec!["switch".to_string(), "-c".to_string(), branch, base];
    assert(args.deep_view() =~= seq!["switch"@, "-c"@, branch@, base@]);
    match exchange::run_git_success(path, args, replies, 1) {
        Progress::Ask(action) => GitStep::Do(action),
        Progress::Fail(e) => GitStep::Done(Err(e)),
        Progress::Go(_) => GitStep::Done(Ok(())),
    }
}

/// Whether a directory is inside of a worktree, by the reply at place `at`.
pub open spec fn inside_worktree(dir: Seq<char>, replies: Seq<ReplyView>, at: int) -> ProgressView<
    bool,
> {
    match replies[at] {
        ReplyView::Ran { success, stdout, .. } if at < replies.len() => ProgressView::Go(
            success && text::trimmed(encoding::utf8_lossy(stdout)) == "true"@,
        ),
        ReplyView::NotRun(cause) if at < replies.len() => ProgressView::Fail(
            exchange::not_run(cause),
        ),
        _ => ProgressView::Ask(
            ActionView::Git { dir, args: seq!["rev-parse"@, "--is-inside-work-tree"@] },
        ),
    }
}

/// Whether a directory is inside of a worktree, by the reply at place `at`.
pub fn is_git_repo(dir: &str, replies: &Vec<GitReply>, at: usize) -> (r: Progress<bool>)
    ensures
        r@ == inside_worktree(dir@, replies.deep_view(), at as int),
{
    if at < replies.len() {
        assert(replies.deep_view()[at as int] == replies@[at as int]@);
        match &replies[at] {
            GitReply::Ran { success, stdout, stderr: _ } => {
                let output = text::trim(encoding::from_utf8_lossy(stdout.as_slice()).as_str());
                return Progress::Go(*success && text::same_text(output.as_str(), "true"));
            },
            GitReply::NotRun(cause) => {
                return Progress::Fail(
                    GitError {
                        message: "Failed to run git".to_string(),
                        cause: Some(cause.clone()),
                    },
                );
            },
            _ => {},
        }
    }
    let args = vec!["rev-parse".to_string(), "--is-inside-work-tree".to_string()];
    assert(args.deep_view() =~= seq!["rev-parse"@, "--is-inside-work-tree"@]);
    Progress::Ask(GitAction::Git { dir: dir.to_string(), args })
}

/// The root of the worktree around a directory, by the reply at place `at`.
pub open spec fn worktree_root(dir: Seq<char>, replies: Seq<ReplyView>, at: int) -> ProgressView<
    Seq<char>,
> {
    match exchange::git_output(dir, seq!["rev-parse"@, "--show-toplevel"@], replies, at) {
        ProgressView::Go(output) => match parse::content(output) {
            Some(root) => ProgressView::Go(root),
            None => ProgressView::Fail(
                types::plain_error("Could not determine repository root"@),
            ),
        },
        other => other,
    }
}

/// The root of the worktree around a directory, by the reply at place `at`.
fn find_root(dir: &str, replies: &Vec<GitReply>, at: usize) -> (r: Progress<String>)
    ensures
        r@ == worktree_root(dir@, replies.deep_view(), at as int),
{
    let args = vec!["rev-parse".to_string(), "--show-toplevel".to_string()];
    assert(args.deep_view() =~= seq!["rev-parse"@, "--show-toplevel"@]);
    match exchange::run_git_success(dir, args, replies, at) {
        Progress::Go(output) => match parse::trim_to_option(output) {
            Some(root) => Progress::Go(root),
            None => Progress::Fail(
                GitError::new("Could not determine repository root".to_string()),
            ),
        },
        other => other,
    }
}

/// What `git rev-parse --git-common-dir` is run as.
pub open spec fn common_dir_args() -> Seq<Seq<char>> {
    seq!["rev-parse"@, "--git-common-dir"@]
}

/// The path of the main worktree, from what git wrote as its common directory.
pub open spec fn main_path(
    common_dir_output: Seq<char>,
    root: Seq<char>,
    platform: Platform,
) -> Option<Seq<char>> {
    match parse::content(common_dir_output) {
        Some(dir) => match worktree::main_worktree(dir, root, platform) {
            Some(path) => Some(parse::normal_path(path)),
            None => None,
        },
        None => None,
    }
}

/// The path of the main worktree, from what git wrote as its common directory.
fn find_main_path(common_dir_output: String, root: &str, platform: Platform) -> (r: Option<String>)
    ensures
        r.deep_view() == main_path(common_dir_output@, root@, platform),
{
    match parse::trim_to_option(common_dir_output) {
        Some(dir) => match worktree::resolve_main_worktree_path(dir.as_str(), root, platform) {
            Some(path) => Some(parse::normalize_path_string(path.as_str())),
            None => None,
        },
        None => None,
    }
}

/// The root of a worktree and the path of the main one, by the two replies from
/// place `at` on.
pub open spec fn repo_context(
    dir: Seq<char>,
    platform: Platform,
    replies: Seq<ReplyView>,
    at: int,
) -> ProgressView<(Seq<char>, Option<Seq<char>>)> {
    match worktree_root(dir, replies, at) {
        ProgressView::Ask(action) => ProgressView::Ask(action),
        ProgressView::Fail(e) => ProgressView::Fail(e),
        ProgressView::Go(root) => match exchange::git_output(
            dir,
            common_dir_args(),
            replies,
            at + 1,
        ) {
            ProgressView::Ask(action) => ProgressView::Ask(action),
            ProgressView::Fail(e) => ProgressView::Fail(e),
            ProgressView::Go(output) => ProgressView::Go((root, main_path(output, root, platform))),
        },
    }
}

/// The root of a worktree and the path of the main one, by the two replies from
/// place `at` on.
pub fn git_repo_context(
    dir: &str,
    platform: Platform,
    replies: &Vec<GitReply>,
    at: usize,
) -> (r: Progress<(String, Option<String>)>)
    requires
        at < usize::MAX,
    ensures
        r@ == repo_context(dir@, platform, replies.deep_view(), at as int),
{
    let root = match find_root(dir, replies, at) {
        Progress::Ask(action) => {
            return Progress::Ask(action);
        },
        Progress::Fail(e) => {
            return Progress::Fail(e);
        },
        Progress::Go(root) => root,
    };
    let args = vec!["rev-parse".to_string(), "--git-common-dir".to_string()];
    assert(args.deep_view() =~= common_dir_args());
    match exchange::run_git_success(dir, args, replies, at + 1) {
        Progress::Ask(action) => Progress::Ask(action),
        Progress::Fail(e) => Progress::Fail(e),
        Progress::Go(output) => {
            let main = find_main_path(output, root.as_str(), platform);
            Progress::Go((root, main))
        },
    }
}

/// How many commits wait upstream, and the place of the reply behind those that
/// tell. Where there is no upstream none wait; where git cannot be run, fails or
/// writes no number, it is not known how many.
pub open spec fn incoming(dir: Seq<char>, replies: Seq<ReplyView>, at: int) -> ProgressView<
    (Option<u32>, usize),
> {
    let upstream = seq![
        "rev-parse"@,
        "--abbrev-ref"@,
        "--symbolic-full-name"@,
        "@{upstream}"@,
    ];
    match replies[at] {
        ReplyView::Ran { success, .. } if at < replies.len() => if success {
            match exchange::git_output(
                dir,
                seq!["rev-list"@, "--count"@, "HEAD..@{upstream}"@],
                replies,
                at + 1,
            ) {
                ProgressView::Ask(action) => ProgressView::Ask(action),
                ProgressView::Fail(_) => ProgressView::Go((None, (at + 2) as usize)),
                ProgressView::Go(output) => ProgressView::Go(
                    (numbers::parsed_u32(text::trimmed(output)), (at + 2) as usize),
                ),
            }
        } else {
            ProgressView::Go((Some(0), (at + 1) as usize))
        },
        ReplyView::NotRun(_) if at < replies.len() => ProgressView::Go((None, (at + 1) as usize)),
        _ => ProgressView::Ask(ActionView::Git { dir, args: upstream }),
    }
}

/// How many commits wait upstream, and the place of the reply behind those that
/// tell.
pub fn count_incoming_commits(dir: &str, replies: &Vec<GitReply>, at: usize) -> (r: Progress<
    (Option<u32>, usize),
>)
    requires
        at < usize::MAX - 1,
    ensures
        r@ == incoming(dir@, replies.deep_view(), at as int),
{
    if at < replies.len() {
        assert(replies.deep_view()[at as int] == replies@[at as int]@);
        match &replies[at] {
            GitReply::Ran { success, stdout: _, stderr: _ } => {
                if !*success {
                    return Progress::Go((Some(0), at + 1));
                }
                let args = vec![
                    "rev-list".to_string(),
                    "--count".to_string(),
                    "HEAD..@{upstream}".to_string(),
                ];
                assert(args.deep_view() =~= seq![
                    "rev-list"@,
                    "--count"@,
                    "HEAD..@{upstream}"@,
                ]);
                return match exchange::run_git_success(dir, args, replies, at + 1) {
                    Progress::Ask(action) => Progress::Ask(action),
                    Progress::Fail(_) => Progress::Go((None, at + 2)),
                    Progress::Go(output) => {
                        let count = numbers::parse_u32(text::trim(output.as_str()).as_str());
                        Progress::Go((count, at + 2))
                    },
                };
            },
            GitReply::NotRun(_) => {
                return Progress::Go((None, at + 1));
            },
            _ => {},
        }
    }
    let args = vec![
        "rev-parse".to_string(),
        "--abbrev-ref".to_string(),
        "--symbolic-full-name".to_string(),
        "@{upstream}".to_string(),
    ];
    assert(args.deep_view() =~= seq![
        "rev-parse"@,
        "--abbrev-ref"@,
        "--symbolic-full-name"@,
        "@{upstream}"@,
    ]);
    Progress::Ask(GitAction::Git { dir: dir.to_string(), args })
}

/// The local branches, the one that was worked on last first.
pub open spec fn local_branches(dir: Seq<char>, replies: Seq<ReplyView>, at: int) -> ProgressView<
    Seq<Seq<char>>,
> {
    match exchange::git_output(
        dir,
        seq![
            "for-each-ref"@,
            "--sort=-committerdate"@,
            "--format=%(refname:short)"@,
            "refs/heads"@,
        ],
        replies,
        at,
    ) {
        ProgressView::Ask(action) => ProgressView::Ask(action),
        ProgressView::Fail(e) => ProgressView::Fail(e),
        ProgressView::Go(output) => ProgressView::Go(text::inked(text::lines(output))),
    }
}

/// The local branches, the one that was worked on last first.
pub fn list_local_branches(dir: &str, replies: &Vec<GitReply>, at: usize) -> (r: Progress<
    Vec<String>,
>)
    ensures
        r@ == local_branches(dir@, replies.deep_view(), at as int),
{
    let args = vec![
        "for-each-ref".to_string(),
        "--sort=-committerdate".to_string(),
        "--format=%(refname:short)".to_string(),
        "refs/heads".to_string(),
    ];
    assert(args.deep_view() =~= seq![
        "for-each-ref"@,
        "--sort=-committerdate"@,
        "--format=%(refname:short)"@,
        "refs/heads"@,
    ]);
    match exchange::run_git_success(dir, args, replies, at) {
        Progress::Ask(action) => Progress::Ask(action),
        Progress::Fail(e) => Progress::Fail(e),
        Progress::Go(output) => Progress::Go(text::trim_all(&text::lines_of(output.as_str()))),
    }
}

/// What is known of a repository from what git wrote about it.
pub open spec fn described(
    root: Seq<char>,
    branch_output: Seq<char>,
    status_output: Seq<char>,
    common_dir_output: Seq<char>,
    worktrees_output: Seq<char>,
    incoming: Option<u32>,
    branches: Option<Seq<Seq<char>>>,
    platform: Platform,
) -> GitStateView {
    let main = main_path(common_dir_output, root, platform);
    GitStateView {
        is_git_repo: true,
        current_branch: parse::content(branch_output),
        dirty_file_count: parse::line_count(status_output),
        incoming_commit_count: match incoming {
            Some(n) => n,
            None => 0,
        },
        worktrees: parse::worktrees(worktrees_output, main),
        is_worktree: main is Some && main != Some(parse::normal_path(root)),
        main_worktree_path: main,
        local_branches: match branches {
            Some(names) => names,
            None => seq![],
        },
    }
}

/// The steps of asking for the state of a directory.
pub open spec fn git_state_step(
    path: Seq<char>,
    platform: Platform,
    replies: Seq<ReplyView>,
) -> StepView<GitStateView> {
    exchange::after(
        exchange::repo_path(path, replies, 0),
        |_u: ()|
            exchange::after(
                inside_worktree(path, replies, 1),
                |inside: bool|
                    if inside {
                        repository_step(path, platform, replies)
                    } else {
                        StepView::Done(Ok(types::no_repository()))
                    },
            ),
    )
}

/// The steps of asking for the state of a repository, from the third reply on.
pub open spec fn repository_step(
    path: Seq<char>,
    platform: Platform,
    replies: Seq<ReplyView>,
) -> StepView<GitStateView> {
    exchange::after(
        worktree_root(path, replies, 2),
        |root: Seq<char>|
            exchange::after(
                exchange::git_output(path, seq!["branch"@, "--show-current"@], replies, 3),
                |branch: Seq<char>|
                    exchange::after(
                        exchange::git_output(path, seq!["status"@, "--porcelain"@], replies, 4),
                        |status: Seq<char>|
                            exchange::after(
                                exchange::git_output(path, common_dir_args(), replies, 5),
                                |common: Seq<char>|
                                    exchange::after(
                                        exchange::git_output(
                                            path,
                                            seq!["worktree"@, "list"@, "--porcelain"@],
                                            replies,
                                            6,
                                        ),
                                        |listed: Seq<char>|
                                            exchange::after(
                                                incoming(path, replies, 7),
                                                |count: (Option<u32>, usize)|
                                                    match local_branches(
                                                        path,
                                                        replies,
                                                        count.1 as int,
                                                    ) {
                                                        ProgressView::Ask(action) =>
                                                            StepView::Do(action),
                                                        ProgressView::Fail(_) => StepView::Done(
                                                            Ok(
                                                                described(
                                                                    root,
                                                                    branch,
                                                                    status,
                                                                    common,
                                                                    listed,
                                                                    count.0,
                                                                    None,
                                                                    platform,
                                                                ),
                                                            ),
                                                        ),
                                                        ProgressView::Go(names) => StepView::Done(
                                                            Ok(
                                                                described(
                                                                    root,
                                                                    branch,
                                                                    status,
                                                                    common,
                                                                    listed,
                                                                    count.0,
                                                                    Some(names),
                                                                    platform,
                                                                ),
                                                            ),
                                                        ),
                                                    },
                                            ),
                                    ),
                            ),
                    ),
            ),
    )
}

/// The state of a directory and of the repository around it.
pub fn get_git_state(
    path: &str,
    platform: Platform,
    replies: &Vec<GitReply>,
) -> (r: GitStep<GitState>)
    ensures
        r@ == git_state_step(path@, platform, replies.deep_view()),
{
    match exchange::resolve_repo_path(path, replies, 0) {
        Progress::Ask(action) => {
            return GitStep::Do(action);
        },
        Progress::Fail(e) => {
            return GitStep::Done(Err(e));
        },
        Progress::Go(_) => {},
    }
    match is_git_repo(path, replies, 1) {
        Progress::Ask(action) => {
            return GitStep::Do(action);
        },
        Progress::Fail(e) => {
            return GitStep::Done(Err(e));
        },
        Progress::Go(inside) => {
            if !inside {
                return GitStep::Done(Ok(GitState::default()));
            }
        },
    }
    describe_repository(path, platform, replies)
}

/// The state of a repository, from the third reply on.
fn describe_repository(
    path: &str,
    platform: Platform,
    replies: &Vec<GitReply>,
) -> (r: GitStep<GitState>)
    ensures
        r@ == repository_step(path@, platform, replies.deep_view()),
{
    let root = match find_root(path, replies, 2) {
        Progress::Ask(action) => {
            return GitStep::Do(action);
        },
        Progress::Fail(e) => {
            return GitStep::Done(Err(e));
        },
        Progress::Go(root) => root,
    };
    let args = vec!["branch".to_string(), "--show-current".to_string()];
    assert(args.deep_view() =~= seq!["branch"@, "--show-current"@]);
    let branch = match exchange::run_git_success(path, args, replies, 3) {
        Progress::Ask(action) => {
            return GitStep::Do(action);
        },
        Progress::Fail(e) => {
            return GitStep::Done(Err(e));
        },
        Progress::Go(output) => output,
    };
    let args = vec!["status".to_string(), "--porcelain".to_string()];
    assert(args.deep_view() =~= seq!["status"@, "--porcelain"@]);
    let status = match exchange::run_git_success(path, args, replies, 4) {
        Progress::Ask(action) => {
            return GitStep::Do(action);
        },
        Progress::Fail(e) => {
            return GitStep::Done(Err(e));
        },
        Progress::Go(output) => output,
    };
    let args = vec!["rev-parse".to_string(), "--git-common-dir".to_string()];
    assert(args.deep_view() =~= common_dir_args());
    let common = match exchange::run_git_success(path, args, replies, 5) {
        Progress::Ask(action) => {
            return GitStep::Do(action);
        },
        Progress::Fail(e) => {
            return GitStep::Done(Err(e));
        },
        Progress::Go(output) => output,
    };
    let main = find_main_path(common, root.as_str(), platform);
    let args = vec!["worktree".to_string(), "list".to_string(), "--porcelain".to_string()];
    assert(args.deep_view() =~= seq!["worktree"@, "list"@, "--porcelain"@]);
    let listed = match exchange::run_git_success(path, args, replies, 6) {
        Progress::Ask(action) => {
            return GitStep::Do(action);
        },
        Progress::Fail(e) => {
            return GitStep::Done(Err(e));
        },
        Progress::Go(output) => output,
    };
    let (worktrees, is_worktree) = match &main {
        Some(path) => {
            let here = parse::normalize_path_string(root.as_str());
            (
                parse::parse_worktrees(listed.as_str(), Some(path.as_str())),
                !text::same_text(here.as_str(), path.as_str()),
            )
        },
        None => (parse::parse_worktrees(listed.as_str(), None), false),
    };
    let (count, next): (Option<u32>, usize) = match count_incoming_commits(path, replies, 7) {
        Progress::Ask(action) => {
            return GitStep::Do(action);
        },
        Progress::Fail(e) => {
            return GitStep::Done(Err(e));
        },
        Progress::Go((count, next)) => (count, next),
    };
    let branches = match list_local_branches(path, replies, next) {
        Progress::Ask(action) => {
            return GitStep::Do(action);
        },
        Progress::Fail(_) => {
            let none: Vec<String> = Vec::new();
            assert(none.deep_view() =~= seq![]);
            none
        },
        Progress::Go(names) => names,
    };
    GitStep::Done(
        Ok(
            GitState {
                is_git_repo: true,
                current_branch: parse::trim_to_option(branch),
                dirty_file_count: parse::count_lines(status.as_str()),
                incoming_commit_count: match count {
                    Some(n) => n,
                    None => 0,
                },
                worktrees,
                is_worktree,
                main_worktree_path: main,
                local_branches: branches,
            },
        ),
    )
}

/// Whether the directories are there, by the reply at place `at`.
pub open spec fn dirs_created(
    path: Seq<char>,
    replies: Seq<ReplyView>,
    at: int,
) -> ProgressView<()> {
    match replies[at] {
        ReplyView::DirsCreated if at < replies.len() => ProgressView::Go(()),
        ReplyView::DirsFailed(cause) if at < replies.len() => ProgressView::Fail(
            GitErrorView {
                message: "Failed to create worktree directory"@,
                cause: Some(cause),
            },
        ),
        _ => ProgressView::Ask(ActionView::CreateDirs { path }),
    }
}

/// Whether the directories are there, by the reply at place `at`.
fn create_dirs(path: String, replies: &Vec<GitReply>, at: usize) -> (r: Progress<()>)
    ensures
        r@ == dirs_created(path@, replies.deep_view(), at as int),
{
    if at < replies.len() {
        assert(replies.deep_view()[at as int] == replies@[at as int]@);
        match &replies[at] {
            GitReply::DirsCreated => {
                return Progress::Go(());
            },
            GitReply::DirsFailed(cause) => {
                return Progress::Fail(
                    GitError {
                        message: "Failed to create worktree directory".to_string(),
                        cause: Some(cause.clone()),
                    },
                );
            },
            _ => {},
        }
    }
    Progress::Ask(GitAction::CreateDirs { path })
}

/// The path of a new worktree, which must not exist, by the reply at place `at`.
pub open spec fn free_target(
    main: Seq<char>,
    name: Seq<char>,
    platform: Platform,
    replies: Seq<ReplyView>,
    at: int,
) -> ProgressView<Seq<char>> {
    match worktree::worktree_target(main, name, platform) {
        Err(e) => ProgressView::Fail(e),
        Ok(target) => match exchange::existence(target, replies, at) {
            ProgressView::Ask(action) => ProgressView::Ask(action),
            ProgressView::Fail(e) => ProgressView::Fail(e),
            ProgressView::Go(true) => ProgressView::Fail(
                types::plain_error("Worktree path already exists: "@ + target),
            ),
            ProgressView::Go(false) => ProgressView::Go(target),
        },
    }
}

/// The path of a new worktree, which must not exist, by the reply at place `at`.
pub fn derive_worktree_path(
    main_worktree_path: &str,
    worktree_name: &str,
    platform: Platform,
    replies: &Vec<GitReply>,
    at: usize,
) -> (r: Progress<String>)
    ensures
        r@ == free_target(
            main_worktree_path@,
            worktree_name@,
            platform,
            replies.deep_view(),
            at as int,
        ),
{
    let target = match worktree::worktree_path(main_worktree_path, worktree_name, platform) {
        Ok(target) => target,
        Err(e) => {
            return Progress::Fail(e);
        },
    };
    match exchange::path_existence(target.as_str(), replies, at) {
        Progress::Ask(action) => Progress::Ask(action),
        Progress::Fail(e) => Progress::Fail(e),
        Progress::Go(true) => {
            let mut message = "Worktree path already exists: ".to_string();
            message.append(target.as_str());
            Progress::Fail(GitError::new(message))
        },
        Progress::Go(false) => Progress::Go(target),
    }
}

/// The steps of making a worktree, up to the path that it gets.
pub open spec fn create_worktree_step(
    path: Seq<char>,
    name: Seq<char>,
    branch: Seq<char>,
    create_branch: bool,
    base_branch: Option<Seq<char>>,
    platform: Platform,
    replies: Seq<ReplyView>,
) -> StepView<CreatedView> {
    exchange::after(
        exchange::repo_path(path, replies, 0),
        |_u: ()|
            exchange::after(
                checked(worktree::worktree_name(name)),
                |folder: Seq<char>|
                    exchange::after(
                        checked(parse::nonempty(branch, "Branch name"@)),
                        |branch_name: Seq<char>|
                            exchange::after(
                                repo_context(path, platform, replies, 1),
                                |context: (Seq<char>, Option<Seq<char>>)|
                                    exchange::after(
                                        free_target(
                                            match context.1 {
                                                Some(main) => main,
                                                None => path,
                                            },
                                            folder,
                                            platform,
                                            replies,
                                            3,
                                        ),
                                        |target: Seq<char>|
                                            add_worktree_step(
                                                path,
                                                target,
                                                branch_name,
                                                create_branch,
                                                base_branch,
                                                platform,
                                                replies,
                                            ),
                                    ),
                            ),
                    ),
            ),
    )
}

/// The arguments of git that make a worktree.
pub open spec fn add_worktree_args(
    target: Seq<char>,
    branch: Seq<char>,
    base: Option<Seq<char>>,
) -> Seq<Seq<char>> {
    match base {
        Some(base) => seq!["worktree"@, "add"@, "-b"@, branch, target, base],
        None => seq!["worktree"@, "add"@, target, branch],
    }
}

/// The steps of making a worktree at a path, from the fifth reply on.
pub open spec fn add_worktree_step(
    path: Seq<char>,
    target: Seq<char>,
    branch: Seq<char>,
    create_branch: bool,
    base_branch: Option<Seq<char>>,
    platform: Platform,
    replies: Seq<ReplyView>,
) -> StepView<CreatedView> {
    let (dirs, at) = match paths::parent(target, platform) {
        Some(up) => (dirs_created(up, replies, 4), 5int),
        None => (ProgressView::Go(()), 4int),
    };
    let base = if create_branch {
        match parse::nonempty(
            match base_branch {
                Some(base) => base,
                None => seq![],
            },
            "Base branch"@,
        ) {
            Ok(base) => ProgressView::Go(Some(base)),
            Err(e) => ProgressView::Fail(e),
        }
    } else {
        ProgressView::Go(None)
    };
    exchange::after(
        dirs,
        |_u: ()|
            exchange::after(
                base,
                |base: Option<Seq<char>>|
                    exchange::after(
                        exchange::git_output(
                            path,
                            add_worktree_args(target, branch, base),
                            replies,
                            at,
                        ),
                        |_out: Seq<char>|
                            StepView::Done(
                                Ok(CreatedView { path: parse::normal_path(target), branch }),
                            ),
                    ),
            ),
    )
}

/// Makes a worktree at a path, from the fifth reply on.
fn add_worktree(
    path: &str,
    target: String,
    branch: String,
    create_branch: bool,
    base_branch: Option<&str>,
    platform: Platform,
    replies: &Vec<GitReply>,
) -> (r: GitStep<CreatedWorktree>)
    ensures
        r@ == add_worktree_step(
            path@,
            target@,
            branch@,
            create_branch,
            base_branch.deep_view(),
            platform,
            replies.deep_view(),
        ),
{
    let mut at: usize = 4;
    if let Some(up) = paths::path_parent(target.as_str(), platform) {
        match create_dirs(up, replies, 4) {
            Progress::Ask(action) => {
                return GitStep::Do(action);
            },
            Progress::Fail(e) => {
                return GitStep::Done(Err(e));
            },
            Progress::Go(_) => {},
        }
        at = 5;
    }
    let args = if create_branch {
        let given = match base_branch {
            Some(base) => base.to_string(),
            None => String::new(),
        };
        let base = match parse::require_nonempty(given.as_str(), "Base branch") {
            Ok(base) => base,
            Err(e) => {
                return GitStep::Done(Err(e));
            },
        };
        let args = vec![
            "worktree".to_string(),
            "add".to_string(),
            "-b".to_string(),
            branch.clone(),
            target.clone(),
            base,
        ];
        assert(args.deep_view() =~= add_worktree_args(target@, branch@, Some(base@)));
        args
    } else {
        let args = vec![
            "worktree".to_string(),
            "add".to_string(),
            target.clone(),
            branch.clone(),
        ];
        assert(args.deep_view() =~= add_worktree_args(target@, branch@, None));
        args
    };
    match exchange::run_git_success(path, args, replies, at) {
        Progress::Ask(action) => GitStep::Do(action),
        Progress::Fail(e) => GitStep::Done(Err(e)),
        Progress::Go(_) => GitStep::Done(
            Ok(CreatedWorktree { path: parse::normalize_path_string(target.as_str()), branch }),
        ),
    }
}

/// Makes a worktree for a branch, which may be a new one.
pub fn create_worktree(
    path: &str,
    name: &str,
    branch: &str,
    create_branch: bool,
    base_branch: Option<&str>,
    platform: Platform,
    replies: &Vec<GitReply>,
) -> (r: GitStep<CreatedWorktree>)
    ensures
        r@ == create_worktree_step(
            path@,
            name@,
            branch@,
            create_branch,
            base_branch.deep_view(),
            platform,
            replies.deep_view(),
        ),
{
    match exchange::resolve_repo_path(path, replies, 0) {
        Progress::Ask(action) => {
            return GitStep::Do(action);
        },
        Progress::Fail(e) => {
            return GitStep::Done(Err(e));
        },
        Progress::Go(_) => {},
    }
    let folder = match worktree::validate_worktree_name(name) {
        Ok(folder) => folder,
        Err(e) => {
            return GitStep::Done(Err(e));
        },
    };
    let branch_name = match parse::require_nonempty(branch, "Branch name") {
        Ok(branch_name) => branch_name,
        Err(e) => {
            return GitStep::Done(Err(e));
        },
    };
    let main = match git_repo_context(path, platform, replies, 1) {
        Progress::Ask(action) => {
            return GitStep::Do(action);
        },
        Progress::Fail(e) => {
            return GitStep::Done(Err(e));
        },
        Progress::Go((_, main)) => match main {
            Some(main) => main,
            None => path.to_string(),
        },
    };
    let target = match derive_worktree_path(main.as_str(), folder.as_str(), platform, replies, 3) {
        Progress::Ask(action) => {
            return GitStep::Do(action);
        },
        Progress::Fail(e) => {
            return GitStep::Done(Err(e));
        },
        Progress::Go(target) => target,
    };
    add_worktree(path, target, branch_name, create_branch, base_branch, platform, replies)
}

} // verus!
