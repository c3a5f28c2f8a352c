//! How an operation on files talks to the host: it asks for one action at a
//! time and is given the replies to all actions so far.

use vstd::prelude::*;

verus! {

/// Something that the host does for an operation.
#[derive(Debug, PartialEq, Eq)]
pub enum FsAction {
    /// Look whether a path exists.
    Exists { path: String },
    /// Look at each path: whether it exists and, if so, what it leads to.
    Probe { paths: Vec<String> },
    /// Look at what a path leads to.
    Stat { path: String },
    /// Read the children of a directory, and look at each child itself, not at
    /// what a link leads to.
    ReadDir { path: String },
    /// Resolve each path to the one without links.
    Canonicalize { paths: Vec<String> },
    /// Make a directory and those above it.
    CreateDirs { path: String },
    /// Write a file.
    Write { path: String, contents: String },
    /// Read a file.
    ReadBytes { path: String },
    /// Walk directory trees, until a `MentionScan` of this limit is full. The
    /// flags say whether links are followed, and whether hidden files, those
    /// that the ignore files of the trees, the user's global one and the
    /// repositories' own exclude are left out.
    Walk {
        roots: Vec<String>,
        limit: usize,
        max_depth: usize,
        follow_links: bool,
        hidden: bool,
        git_ignore: bool,
        git_global: bool,
        git_exclude: bool,
    },
}

/// An `FsAction` with its texts as sequences.
pub enum FsActionView {
    Exists { path: Seq<char> },
    Probe { paths: Seq<Seq<char>> },
    Stat { path: Seq<char> },
    ReadDir { path: Seq<char> },
    Canonicalize { paths: Seq<Seq<char>> },
    CreateDirs { path: Seq<char> },
    Write { path: Seq<char>, contents: Seq<char> },
    ReadBytes { path: Seq<char> },
    Walk {
        roots: Seq<Seq<char>>,
        limit: usize,
        max_depth: usize,
        follow_links: bool,
        hidden: bool,
        git_ignore: bool,
        git_global: bool,
        git_exclude: bool,
    },
}

impl View for FsAction {
    type V = FsActionView;

    open spec fn view(&self) -> FsActionView {
        match self {
            FsAction::Exists { path } => FsActionView::Exists { path: path@ },
            FsAction::Probe { paths } => FsActionView::Probe { paths: paths.deep_view() },
            FsAction::Stat { path } => FsActionView::Stat { path: path@ },
            FsAction::ReadDir { path } => FsActionView::ReadDir { path: path@ },
            FsAction::Canonicalize { paths } => FsActionView::Canonicalize {
                paths: paths.deep_view(),
            },
            FsAction::CreateDirs { path } => FsActionView::CreateDirs { path: path@ },
            FsAction::Write { path, contents } => FsActionView::Write {
                path: path@,
                contents: contents@,
            },
            FsAction::ReadBytes { path } => FsActionView::ReadBytes { path: path@ },
            FsAction::Walk {
                roots,
                limit,
                max_depth,
                follow_links,
                hidden,
                git_ignore,
                git_global,
                git_exclude,
            } => FsActionView::Walk {
                roots: roots.deep_view(),
                limit: *limit,
                max_depth: *max_depth,
                follow_links: *follow_links,
                hidden: *hidden,
                git_ignore: *git_ignore,
                git_global: *git_global,
                git_exclude: *git_exclude,
            },
        }
    }
}

/// What a path leads to.
#[derive(Debug, Clone, Copy, PartialEq, Eq)]
pub struct FileStat {
    pub is_dir: bool,
    pub is_file: bool,
    pub len: u64,
}

/// What came of looking at a path.
#[derive(Debug, PartialEq, Eq)]
pub enum Probe {
    /// Nothing is there.
    Missing,
    /// Something is there, but it could not be looked at, and why.
    Failed(String),
    /// This is there.
    Found(FileStat),
}

/// A `Probe` with its texts as sequences.
pub enum ProbeView {
    Missing,
    Failed(Seq<char>),
    Found(FileStat),
}

impl View for Probe {
    type V = ProbeView;

    open spec fn view(&self) -> ProbeView {
        match self {
            Probe::Missing => ProbeView::Missing,
            Probe::Failed(e) => ProbeView::Failed(e@),
            Probe::Found(stat) => ProbeView::Found(*stat),
        }
    }
}

impl DeepView for Probe {
    type V = ProbeView;

    open spec fn deep_view(&self) -> ProbeView {
        self.view()
    }
}

/// A child of a directory: its name, its path, and whether it is a directory,
/// where that could be told.
#[derive(Debug, PartialEq, Eq)]
pub struct DirChild {
    pub name: String,
    pub path: String,
    pub is_dir: Option<bool>,
}

/// A `DirChild` with its texts as sequences.
pub struct ChildView {
    pub name: Seq<char>,
    pub path: Seq<char>,
    pub is_dir: Option<bool>,
}

impl View for DirChild {
    type V = ChildView;

    open spec fn view(&self) -> ChildView {
        ChildView { name: self.name@, path: self.path@, is_dir: self.is_dir }
    }
}

impl DeepView for DirChild {
    type V = ChildView;

    open spec fn deep_view(&self) -> ChildView {
        self.view()
    }
}

/// A path without links: its text, and the parts between its separators.
#[derive(Debug, PartialEq, Eq)]
pub struct CanonicalPath {
    pub text: String,
    pub parts: Vec<Vec<u8>>,
}

/// A `CanonicalPath` with its texts as sequences.
pub struct CanonicalView {
    pub text: Seq<char>,
    pub parts: Seq<Seq<u8>>,
}

impl View for CanonicalPath {
    type V = CanonicalView;

    open spec fn view(&self) -> CanonicalView {
        CanonicalView { text: self.text@, parts: self.parts.deep_view() }
    }
}

impl DeepView for CanonicalPath {
    type V = CanonicalView;

    open spec fn deep_view(&self) -> CanonicalView {
        self.view()
    }
}

/// Something that a walk met: its path, whether it is a file, where that could
/// be told, and its path without links, where it could be resolved.
#[derive(Debug, PartialEq, Eq)]
pub struct WalkEntry {
    pub path: String,
    pub is_file: Option<bool>,
    pub canonical: Option<CanonicalPath>,
}

/// A `WalkEntry` with its texts as sequences.
pub struct WalkEntryView {
    pub path: Seq<char>,
    pub is_file: Option<bool>,
    pub canonical: Option<CanonicalView>,
}

impl View for WalkEntry {
    type V = WalkEntryView;

    open spec fn view(&self) -> WalkEntryView {
        WalkEntryView {
            path: self.path@,
            is_file: self.is_file,
            canonical: self.canonical.deep_view(),
        }
    }
}

impl DeepView for WalkEntry {
    type V = WalkEntryView;

    open spec fn deep_view(&self) -> WalkEntryView {
        self.view()
    }
}

/// What came of an action.
#[derive(Debug, PartialEq, Eq)]
pub enum FsReply {
    /// Whether the path exists.
    Exists(bool),
    /// What each path leads to.
    Probed(Vec<Probe>),
    /// What the path leads to.
    Stat(FileStat),
    /// The children of the directory, with nothing for one that could not be read.
    Children(Vec<Option<DirChild>>),
    /// Each path without links, if it could be resolved.
    Canonical(Vec<Option<String>>),
    /// The action is done.
    Finished,
    /// The bytes of the file.
    Bytes(Vec<u8>),
    /// What the walk met, and the roots without links, where they could be
    /// resolved, as the parts between their separators.
    Walked { roots: Vec<Option<Vec<Vec<u8>>>>, entries: Vec<WalkEntry> },
    /// The action failed, and why.
    Failed(String),
}

/// An `FsReply` with its texts as sequences.
pub enum FsReplyView {
    Exists(bool),
    Probed(Seq<ProbeView>),
    Stat(FileStat),
    Children(Seq<Option<ChildView>>),
    Canonical(Seq<Option<Seq<char>>>),
    Finished,
    Bytes(Seq<u8>),
    Walked { roots: Seq<Option<Seq<Seq<u8>>>>, entries: Seq<WalkEntryView> },
    Failed(Seq<char>),
}

impl View for FsReply {
    type V = FsReplyView;

    open spec fn view(&self) -> FsReplyView {
        match self {
            FsReply::Exists(b) => FsReplyView::Exists(*b),
            FsReply::Probed(probes) => FsReplyView::Probed(probes.deep_view()),
            FsReply::Stat(stat) => FsReplyView::Stat(*stat),
            FsReply::Children(children) => FsReplyView::Children(children.deep_view()),
            FsReply::Canonical(paths) => FsReplyView::Canonical(paths.deep_view()),
            FsReply::Finished => FsReplyView::Finished,
            FsReply::Bytes(bytes) => FsReplyView::Bytes(bytes@),
            FsReply::Walked { roots, entries } => FsReplyView::Walked {
                roots: roots.deep_view(),
                entries: entries.deep_view(),
            },
            FsReply::Failed(e) => FsReplyView::Failed(e@),
        }
    }
}

impl DeepView for FsReply {
    type V = FsReplyView;

    open spec fn deep_view(&self) -> FsReplyView {
        self.view()
    }
}

/// What an operation does next.
#[derive(Debug, PartialEq, Eq)]
pub enum FsStep<T> {
    /// It wants this action done, and its reply put behind the others.
    Do(FsAction),
    /// It is over.
    Done(Result<T, String>),
}

/// An `FsStep` with its texts as sequences.
pub enum FsStepView<T> {
    Do(FsActionView),
    Done(Result<T, Seq<char>>),
}

impl<T: DeepView> View for FsStep<T> {
    type V = FsStepView<T::V>;

    open spec fn view(&self) -> FsStepView<T::V> {
        match self {
            FsStep::Do(action) => FsStepView::Do(action@),
            FsStep::Done(Ok(value)) => FsStepView::Done(Ok(value.deep_view())),
            FsStep::Done(Err(e)) => FsStepView::Done(Err(e@)),
        }
    }
}

/// A message about a path and what lay behind it: `front`, the path, `middle`
/// and the cause.
pub open spec fn blamed(
    front: Seq<char>,
    path: Seq<char>,
    middle: Seq<char>,
    cause: Seq<char>,
) -> Seq<char> {
    front + path + middle + cause
}

/// A message about a path and what lay behind it.
pub fn blame(front: &str, path: &str, middle: &str, cause: &str) -> (r: String)
    ensures
        r@ == blamed(front@, path@, middle@, cause@),
{
    let mut out = front.to_string();
    out.append(path);
    out.append(middle);
    out.append(cause);
    out
}

/// The reply at place `at`, if there is one.
pub open spec fn reply_at(replies: Seq<FsReplyView>, at: int) -> Option<FsReplyView> {
    if 0 <= at < replies.len() {
        Some(replies[at])
    } else {
        None
    }
}

/// The reply at place `at`, if there is one.
pub fn get_reply(replies: &Vec<FsReply>, at: usize) -> (r: Option<&FsReply>)
    ensures
        match r {
            Some(reply) => reply_at(replies.deep_view(), at as int) == Some(reply@),
            None => reply_at(replies.deep_view(), at as int) is None,
        },
{
    if at < replies.len() {
        assert(replies.deep_view()[at as int] == replies@[at as int]@);
        Some(&replies[at])
    } else {
        None
    }
}

} // verus!
