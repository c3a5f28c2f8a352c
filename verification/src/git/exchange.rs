//! How an operation talks to the host: it asks for one action at a time and is
//! given the replies to all actions so far.

use crate::encoding;
use crate::git::counter::{CounterView, LineCounter};
use crate::git::types;
use crate::git::types::{GitError, GitErrorView};
use crate::text;
use vstd::prelude::*;

verus! {

/// Something that the host does for an operation.
#[derive(Debug, PartialEq, Eq)]
pub enum GitAction {
    /// Look whether a path exists.
    PathExists { path: String },
    /// Run git in a directory.
    Git { dir: String, args: Vec<String> },
    /// Make a directory and those above it.
    CreateDirs { path: String },
    /// Count the lines of files in a directory: perform what a `LineCounter`
    /// wants until it wants no more.
    CountLines { dir: String, files: Vec<String> },
    /// Look how large a file is.
    FileSize { path: String },
    /// Read a file as text.
    ReadText { path: String },
}

/// A `GitAction` with its texts as sequences.
pub enum ActionView {
    PathExists { path: Seq<char> },
    Git { dir: Seq<char>, args: Seq<Seq<char>> },
    CreateDirs { path: Seq<char> },
    CountLines { dir: Seq<char>, files: Seq<Seq<char>> },
    FileSize { path: Seq<char> },
    ReadText { path: Seq<char> },
}

impl View for GitAction {
    type V = ActionView;

    open spec fn view(&self) -> ActionView {
        match self {
            GitAction::PathExists { path } => ActionView::PathExists { path: path@ },
            GitAction::Git { dir, args } => ActionView::Git { dir: dir@, args: args.deep_view() },
            GitAction::CreateDirs { path } => ActionView::CreateDirs { path: path@ },
            GitAction::CountLines { dir, files } => ActionView::CountLines {
                dir: dir@,
                files: files.deep_view(),
            },
            GitAction::FileSize { path } => ActionView::FileSize { path: path@ },
            GitAction::ReadText { path } => ActionView::ReadText { path: path@ },
        }
    }
}

/// What came of an action.
#[derive(Debug, PartialEq, Eq)]
pub enum GitReply {
    /// Whether the path exists.
    Exists(bool),
    /// Git ran: whether it ended well, and what it wrote.
    Ran { success: bool, stdout: Vec<u8>, stderr: Vec<u8> },
    /// Git could not be run, and why.
    NotRun(String),
    /// The directories are there.
    DirsCreated,
    /// The directories could not be made, and why.
    DirsFailed(String),
    /// The counting of the lines of files.
    LineCounts(LineCounter),
    /// The size of a file, if it could be had.
    FileSize(Option<u64>),
    /// The text of a file, if it could be read.
    Text(Option<String>),
}

/// A `GitReply` with its texts as sequences.
pub enum ReplyView {
    Exists(bool),
    Ran { success: bool, stdout: Seq<u8>, stderr: Seq<u8> },
    NotRun(Seq<char>),
    DirsCreated,
    DirsFailed(Seq<char>),
    LineCounts(CounterView),
    FileSize(Option<u64>),
    Text(Option<Seq<char>>),
}

impl View for GitReply {
    type V = ReplyView;

    open spec fn view(&self) -> ReplyView {
        match self {
            GitReply::Exists(b) => ReplyView::Exists(*b),
            GitReply::Ran { success, stdout, stderr } => ReplyView::Ran {
                success: *success,
                stdout: stdout@,
                stderr: stderr@,
            },
            GitReply::NotRun(e) => ReplyView::NotRun(e@),
            GitReply::DirsCreated => ReplyView::DirsCreated,
            GitReply::DirsFailed(e) => ReplyView::DirsFailed(e@),
            GitReply::LineCounts(counter) => ReplyView::LineCounts(counter@),
            GitReply::FileSize(n) => ReplyView::FileSize(*n),
            GitReply::Text(t) => ReplyView::Text(t.deep_view()),
        }
    }
}

impl DeepView for GitReply {
    type V = ReplyView;

    open spec fn deep_view(&self) -> ReplyView {
        self.view()
    }
}

/// What an operation does next.
#[derive(Debug, PartialEq, Eq)]
pub enum GitStep<T> {
    /// It wants this action done, and its reply put behind the others.
    Do(GitAction),
    /// It is over.
    Done(Result<T, GitError>),
    /// Git wrote lines that do not have the columns of its format.
    Unreadable,
}

/// A `GitStep` with its texts as sequences.
pub enum StepView<T> {
    Do(ActionView),
    Done(Result<T, GitErrorView>),
    Unreadable,
}

impl<T: DeepView> View for GitStep<T> {
    type V = StepView<T::V>;

    open spec fn view(&self) -> StepView<T::V> {
        match self {
            GitStep::Do(action) => StepView::Do(action@),
            GitStep::Done(Ok(value)) => StepView::Done(Ok(value.deep_view())),
            GitStep::Done(Err(e)) => StepView::Done(Err(e@)),
            GitStep::Unreadable => StepView::Unreadable,
        }
    }
}

/// How far a part of an operation has come.
pub enum Progress<T> {
    /// It wants this action done first.
    Ask(GitAction),
    /// It failed.
    Fail(GitError),
    /// It has its value.
    Go(T),
}

/// A `Progress` with its texts as sequences.
pub enum ProgressView<T> {
    Ask(ActionView),
    Fail(GitErrorView),
    Go(T),
}

impl<T: DeepView> View for Progress<T> {
    type V = ProgressView<T::V>;

    open spec fn view(&self) -> ProgressView<T::V> {
        match self {
            Progress::Ask(action) => ProgressView::Ask(action@),
            Progress::Fail(e) => ProgressView::Fail(e@),
            Progress::Go(value) => ProgressView::Go(value.deep_view()),
        }
    }
}

/// The step of an operation whose part has come so far and which goes on with
/// `next` from the value of that part.
pub open spec fn after<A, B>(
    part: ProgressView<A>,
    next: spec_fn(A) -> StepView<B>,
) -> StepView<B> {
    match part {
        ProgressView::Ask(action) => StepView::Do(action),
        ProgressView::Fail(e) => StepView::Done(Err(e)),
        ProgressView::Go(value) => next(value),
    }
}

/// Whether a path exists, by the reply at place `at`.
pub open spec fn existence(
    path: Seq<char>,
    replies: Seq<ReplyView>,
    at: int,
) -> ProgressView<bool> {
    match replies[at] {
        ReplyView::Exists(b) if at < replies.len() => ProgressView::Go(b),
        _ => ProgressView::Ask(ActionView::PathExists { path }),
    }
}

/// Whether a path exists, by the reply at place `at`.
pub fn path_existence(path: &str, replies: &Vec<GitReply>, at: usize) -> (r: Progress<bool>)
    ensures
        r@ == existence(path@, replies.deep_view(), at as int),
{
    if at < replies.len() {
        assert(replies.deep_view()[at as int] == replies@[at as int]@);
        if let GitReply::Exists(b) = &replies[at] {
            return Progress::Go(*b);
        }
    }
    Progress::Ask(GitAction::PathExists { path: path.to_string() })
}

/// The path of a repository, which has to exist.
pub open spec fn repo_path(path: Seq<char>, replies: Seq<ReplyView>, at: int) -> ProgressView<()> {
    match existence(path, replies, at) {
        ProgressView::Go(true) => ProgressView::Go(()),
        ProgressView::Go(false) => ProgressView::Fail(
            types::plain_error("Path does not exist: "@ + path),
        ),
        ProgressView::Ask(action) => ProgressView::Ask(action),
        ProgressView::Fail(e) => ProgressView::Fail(e),
    }
}

/// The path of a repository, which has to exist.
pub fn resolve_repo_path(path: &str, replies: &Vec<GitReply>, at: usize) -> (r: Progress<()>)
    ensures
        r@ == repo_path(path@, replies.deep_view(), at as int),
{
    match path_existence(path, replies, at) {
        Progress::Go(true) => Progress::Go(()),
        Progress::Go(false) => {
            let mut message = "Path does not exist: ".to_string();
            message.append(path);
            Progress::Fail(GitError::new(message))
        },
        Progress::Ask(action) => Progress::Ask(action),
        Progress::Fail(e) => Progress::Fail(e),
    }
}

/// The failure to run git at all.
pub open spec fn not_run(cause: Seq<char>) -> GitErrorView {
    GitErrorView { message: "Failed to run git"@, cause: Some(cause) }
}

/// The failure of a run of git: its arguments, and what it wrote as errors, or
/// what it wrote else where it wrote no errors.
pub open spec fn run_failed(
    args: Seq<Seq<char>>,
    stdout: Seq<u8>,
    stderr: Seq<u8>,
) -> GitErrorView {
    let errors = text::trimmed(encoding::utf8_lossy(stderr));
    let message = if errors.len() > 0 {
        errors
    } else {
        text::trimmed(encoding::utf8_lossy(stdout))
    };
    types::plain_error("git "@ + text::joined(args, " "@) + " failed: "@ + message)
}

/// What a run of git wrote, by the reply at place `at`. It has to end well.
pub open spec fn git_output(
    dir: Seq<char>,
    args: Seq<Seq<char>>,
    replies: Seq<ReplyView>,
    at: int,
) -> ProgressView<Seq<char>> {
    match replies[at] {
        ReplyView::Ran { success, stdout, stderr } if at < replies.len() => if success {
            ProgressView::Go(encoding::utf8_lossy(stdout))
        } else {
            ProgressView::Fail(run_failed(args, stdout, stderr))
        },
        ReplyView::NotRun(cause) if at < replies.len() => ProgressView::Fail(not_run(cause)),
        _ => ProgressView::Ask(ActionView::Git { dir, args }),
    }
}

/// What a run of git wrote, by the reply at place `at`. It has to end well.
pub fn run_git_success(
    dir: &str,
    args: Vec<String>,
    replies: &Vec<GitReply>,
    at: usize,
) -> (r: Progress<String>)
    ensures
        r@ == git_output(dir@, args.deep_view(), replies.deep_view(), at as int),
{
    if at < replies.len() {
        assert(replies.deep_view()[at as int] == replies@[at as int]@);
        match &replies[at] {
            GitReply::Ran { success, stdout, stderr } => {
                if *success {
                    return Progress::Go(encoding::from_utf8_lossy(stdout.as_slice()));
                }
                let errors = text::trim(encoding::from_utf8_lossy(stderr.as_slice()).as_str());
                let output = text::trim(encoding::from_utf8_lossy(stdout.as_slice()).as_str());
                let mut message = "git ".to_string();
                message.append(text::join(&args, " ").as_str());
                message.append(" failed: ");
                if !errors.as_str().is_empty() {
                    message.append(errors.as_str());
                } else {
                    message.append(output.as_str());
                }
                return Progress::Fail(GitError::new(message));
            },
            GitReply::NotRun(cause) => {
                return Progress::Fail(
                    GitError {
                        message: "Failed to run git".to_string(),
                        cause: Some(cause.clone()),
                    },
                );
            },
            _ => {},
        }
    }
    Progress::Ask(GitAction::Git { dir: dir.to_string(), args })
}

} // verus!
