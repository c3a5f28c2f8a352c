//! Listing the files that differ from the last commit.

use crate::git::changes;
use crate::git::counter;
use crate::git::exchange;
use crate::git::exchange::{
    ActionView, GitAction, GitReply, GitStep, Progress, ProgressView, ReplyView, StepView,
};
use crate::git::operations;
use crate::git::types::{ChangedFile, ChangedView};
use crate::paths;
use crate::platform::Platform;
use crate::text;
use vstd::prelude::*;

verus! {

/// The largest file whose lines are counted, in bytes.
pub const MAX_LINE_COUNT_SIZE: u64 = 1048576;

/// The steps of counting the lines of a file that is not in the diff. A file
/// that cannot be looked at or read, or that is too large, counts nothing; a
/// text counts as added lines.
pub open spec fn count_lines_step(
    repo_path: Seq<char>,
    file_path: Seq<char>,
    platform: Platform,
    replies: Seq<ReplyView>,
) -> StepView<(u32, u32)> {
    let full = paths::joined_path(repo_path, file_path, platform);
    match replies[0] {
        ReplyView::FileSize(size) if replies.len() > 0 => match size {
            Some(n) if n <= MAX_LINE_COUNT_SIZE => match replies[1] {
                ReplyView::Text(contents) if replies.len() > 1 => match contents {
                    Some(contents) => StepView::Done(
                        Ok((text::lines(contents).len() as u32, 0)),
                    ),
                    None => StepView::Done(Ok((0, 0))),
                },
                _ => StepView::Do(ActionView::ReadText { path: full }),
            },
            _ => StepView::Done(Ok((0, 0))),
        },
        _ => StepView::Do(ActionView::FileSize { path: full }),
    }
}

/// The added and deleted lines of a file that is not in the diff.
pub fn count_file_lines(
    repo_path: &str,
    file_path: &str,
    platform: Platform,
    replies: &Vec<GitReply>,
) -> (r: GitStep<(u32, u32)>)
    ensures
        r@ == count_lines_step(repo_path@, file_path@, platform, replies.deep_view()),
{
    let full = paths::path_join(repo_path, file_path, platform);
    if replies.len() > 0 {
        assert(replies.deep_view()[0] == replies@[0]@);
        if let GitReply::FileSize(size) = &replies[0] {
            let readable = match size {
                Some(n) => *n <= MAX_LINE_COUNT_SIZE,
                None => false,
            };
            if !readable {
                return GitStep::Done(Ok((0, 0)));
            }
            if replies.len() > 1 {
                assert(replies.deep_view()[1] == replies@[1]@);
                if let GitReply::Text(contents) = &replies[1] {
                    return match contents {
                        Some(contents) => {
                            let ls = text::lines_of(contents.as_str());
                            assert(ls@.len() == ls.deep_view().len());
                            GitStep::Done(Ok((ls.len() as u32, 0)))
                        },
                        None => GitStep::Done(Ok((0, 0))),
                    };
                }
            }
            return GitStep::Do(GitAction::ReadText { path: full });
        }
    }
    GitStep::Do(GitAction::FileSize { path: full })
}

/// What the diff against the last commit wrote, by the reply at place `at`.
/// Where git fails, as before the first commit, it counts as nothing.
pub open spec fn head_diff(dir: Seq<char>, replies: Seq<ReplyView>, at: int) -> ProgressView<
    Seq<char>,
> {
    match exchange::git_output(dir, seq!["diff"@, "HEAD"@, "--numstat"@], replies, at) {
        ProgressView::Ask(action) => ProgressView::Ask(action),
        ProgressView::Fail(_) => ProgressView::Go(seq![]),
        ProgressView::Go(output) => ProgressView::Go(output),
    }
}

/// What the diff against the last commit wrote, by the reply at place `at`.
fn read_head_diff(dir: &str, replies: &Vec<GitReply>, at: usize) -> (r: Progress<String>)
    ensures
        r@ == head_diff(dir@, replies.deep_view(), at as int),
{
    let args = vec!["diff".to_string(), "HEAD".to_string(), "--numstat".to_string()];
    assert(args.deep_view() =~= seq!["diff"@, "HEAD"@, "--numstat"@]);
    match exchange::run_git_success(dir, args, replies, at) {
        Progress::Ask(action) => Progress::Ask(action),
        Progress::Fail(_) => Progress::Go(String::new()),
        Progress::Go(output) => Progress::Go(output),
    }
}

/// The counts of the files that the diff does not tell of, by the reply at place
/// `at`. Nothing is asked where there are none.
pub open spec fn line_counts(
    dir: Seq<char>,
    files: Seq<Seq<char>>,
    platform: Platform,
    replies: Seq<ReplyView>,
    at: int,
) -> ProgressView<Seq<(u32, u32)>> {
    if files.len() == 0 {
        ProgressView::Go(seq![])
    } else {
        match replies[at] {
            ReplyView::LineCounts(counting) if at < replies.len() => match counter::finished_counts(
                counting,
                dir,
                files,
                platform,
            ) {
                Some(counts) => ProgressView::Go(counts),
                None => ProgressView::Ask(ActionView::CountLines { dir, files }),
            },
            _ => ProgressView::Ask(ActionView::CountLines { dir, files }),
        }
    }
}

/// The steps of listing the changed files from what git wrote about them.
pub open spec fn listing_step(
    path: Seq<char>,
    status: Seq<char>,
    diff: Seq<char>,
    platform: Platform,
    replies: Seq<ReplyView>,
) -> StepView<Seq<ChangedView>> {
    if !changes::numstat_readable(diff) || !changes::status_readable(status) {
        StepView::Unreadable
    } else {
        let rows = changes::status_rows(text::lines(status));
        let stats = changes::numstat(text::lines(diff));
        exchange::after(
            line_counts(path, changes::uncounted(rows, stats), platform, replies, 4),
            |counts: Seq<(u32, u32)>|
                StepView::Done(Ok(changes::changed_files(rows, stats, counts))),
        )
    }
}

/// The steps of listing the files that differ from the last commit.
pub open spec fn changed_files_step(
    path: Seq<char>,
    platform: Platform,
    replies: Seq<ReplyView>,
) -> StepView<Seq<ChangedView>> {
    exchange::after(
        exchange::repo_path(path, replies, 0),
        |_u: ()|
            exchange::after(
                operations::inside_worktree(path, replies, 1),
                |inside: bool|
                    if !inside {
                        StepView::Done(Ok(seq![]))
                    } else {
                        exchange::after(
                            exchange::git_output(
                                path,
                                seq!["status"@, "--porcelain"@, "--untracked-files=all"@],
                                replies,
                                2,
                            ),
                            |status: Seq<char>|
                                if text::trimmed(status).len() == 0 {
                                    StepView::Done(Ok(seq![]))
                                } else {
                                    exchange::after(
                                        head_diff(path, replies, 3),
                                        |diff: Seq<char>|
                                            listing_step(path, status, diff, platform, replies),
                                    )
                                },
                        )
                    },
            ),
    )
}

/// The changed files, from what git wrote about them.
fn list_changes(
    path: &str,
    status: String,
    diff: String,
    platform: Platform,
    replies: &Vec<GitReply>,
) -> (r: GitStep<Vec<ChangedFile>>)
    ensures
        r@ == listing_step(path@, status@, diff@, platform, replies.deep_view()),
{
    if !changes::is_readable_numstat(diff.as_str()) || !changes::is_readable_status(
        status.as_str(),
    ) {
        return GitStep::Unreadable;
    }
    let stats = changes::parse_numstat(diff.as_str());
    let rows = changes::parse_status(status.as_str());
    let files = changes::uncounted_paths(&rows, &stats);
    assert(files@.len() == files.deep_view().len());
    if files.len() == 0 {
        let counts: Vec<(u32, u32)> = Vec::new();
        return GitStep::Done(Ok(changes::build_changed_files(&rows, &stats, &counts)));
    }
    if replies.len() > 4 {
        assert(replies.deep_view()[4] == replies@[4]@);
        if let GitReply::LineCounts(counting) = &replies[4] {
            if let Some(counts) = counting.finished(path, &files, platform) {
                return GitStep::Done(Ok(changes::build_changed_files(&rows, &stats, counts)));
            }
        }
    }
    GitStep::Do(GitAction::CountLines { dir: path.to_string(), files })
}

/// The files that differ from the last commit, sorted by path.
pub fn get_changed_files(path: &str, platform: Platform, replies: &Vec<GitReply>) -> (r: GitStep<
    Vec<ChangedFile>,
>)
    ensures
        r@ == changed_files_step(path@, platform, replies.deep_view()),
{
    match exchange::resolve_repo_path(path, replies, 0) {
        Progress::Ask(action) => {
            return GitStep::Do(action);
        },
        Progress::Fail(e) => {
            return GitStep::Done(Err(e));
        },
        Progress::Go(_) => {},
    }
    match operations::is_git_repo(path, replies, 1) {
        Progress::Ask(action) => {
            return GitStep::Do(action);
        },
        Progress::Fail(e) => {
            return GitStep::Done(Err(e));
        },
        Progress::Go(inside) => {
            if !inside {
                let none: Vec<ChangedFile> = Vec::new();
                assert(none.deep_view() =~= seq![]);
                return GitStep::Done(Ok(none));
            }
        },
    }
    let args = vec![
        "status".to_string(),
        "--porcelain".to_string(),
        "--untracked-files=all".to_string(),
    ];
    assert(args.deep_view() =~= seq!["status"@, "--porcelain"@, "--untracked-files=all"@]);
    let status = match exchange::run_git_success(path, args, replies, 2) {
        Progress::Ask(action) => {
            return GitStep::Do(action);
        },
        Progress::Fail(e) => {
            return GitStep::Done(Err(e));
        },
        Progress::Go(output) => output,
    };
    if text::trim(status.as_str()).as_str().is_empty() {
        let none: Vec<ChangedFile> = Vec::new();
        assert(none.deep_view() =~= seq![]);
        return GitStep::Done(Ok(none));
    }
    match read_head_diff(path, replies, 3) {
        Progress::Ask(action) => GitStep::Do(action),
        Progress::Fail(e) => GitStep::Done(Err(e)),
        Progress::Go(diff) => list_changes(path, status, diff, platform, replies),
    }
}

} // verus!
