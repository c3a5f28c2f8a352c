//! Listing directories, and writing files.

use crate::encoding;
use crate::order;
use crate::order::{KeyView, SortKey};
use crate::paths;
use crate::platform::Platform;
use crate::system_ops::exchange;
use crate::system_ops::exchange::{
    ChildView, DirChild, FsAction, FsActionView, FsReply, FsReplyView, FsStep, FsStepView, Probe,
    ProbeView,
};
use crate::system_ops::types;
use crate::system_ops::types::{EntryView, FileTreeEntry};
use crate::text;
use vstd::prelude::*;

verus! {

/// The home directory of the user, where there is one.
pub fn get_home_dir(home_dir: Option<String>) -> (r: Result<String, String>)
    ensures
        match home_dir {
            Some(dir) => r matches Ok(found) && found@ == dir@,
            None => r matches Err(e) && e@ == "Could not determine home directory"@,
        },
{
    match home_dir {
        Some(dir) => Ok(dir),
        None => Err("Could not determine home directory".to_string()),
    }
}

/// Whether a path exists.
pub open spec fn path_exists_step(path: Seq<char>, replies: Seq<FsReplyView>) -> FsStepView<bool> {
    match exchange::reply_at(replies, 0) {
        Some(FsReplyView::Exists(b)) => FsStepView::Done(Ok(b)),
        _ => FsStepView::Do(FsActionView::Exists { path }),
    }
}

/// Whether a path exists.
pub fn path_exists(path: &str, replies: &Vec<FsReply>) -> (r: FsStep<bool>)
    ensures
        r@ == path_exists_step(path@, replies.deep_view()),
{
    match exchange::get_reply(replies, 0) {
        Some(FsReply::Exists(b)) => FsStep::Done(Ok(*b)),
        _ => FsStep::Do(FsAction::Exists { path: path.to_string() }),
    }
}

/// The step of writing a file, by the reply at place `at`.
pub open spec fn write_step(
    path: Seq<char>,
    contents: Seq<char>,
    replies: Seq<FsReplyView>,
    at: int,
) -> FsStepView<()> {
    match exchange::reply_at(replies, at) {
        Some(FsReplyView::Finished) => FsStepView::Done(Ok(())),
        Some(FsReplyView::Failed(e)) => FsStepView::Done(
            Err(exchange::blamed("Failed to write file '"@, path, "': "@, e)),
        ),
        _ => FsStepView::Do(FsActionView::Write { path, contents }),
    }
}

/// The steps of writing a file after making the directories that it lacks.
pub open spec fn write_file_step(
    path: Seq<char>,
    contents: Seq<char>,
    platform: Platform,
    replies: Seq<FsReplyView>,
) -> FsStepView<()> {
    match paths::parent(path, platform) {
        Some(up) if up.len() > 0 => match exchange::reply_at(replies, 0) {
            Some(FsReplyView::Exists(true)) => write_step(path, contents, replies, 1),
            Some(FsReplyView::Exists(false)) => match exchange::reply_at(replies, 1) {
                Some(FsReplyView::Finished) => write_step(path, contents, replies, 2),
                Some(FsReplyView::Failed(e)) => FsStepView::Done(
                    Err(exchange::blamed("Failed to create '"@, up, "': "@, e)),
                ),
                _ => FsStepView::Do(FsActionView::CreateDirs { path: up }),
            },
            _ => FsStepView::Do(FsActionView::Exists { path: up }),
        },
        _ => write_step(path, contents, replies, 0),
    }
}

fn write_at(path: &str, contents: &str, replies: &Vec<FsReply>, at: usize) -> (r: FsStep<()>)
    ensures
        r@ == write_step(path@, contents@, replies.deep_view(), at as int),
{
    match exchange::get_reply(replies, at) {
        Some(FsReply::Finished) => FsStep::Done(Ok(())),
        Some(FsReply::Failed(e)) => FsStep::Done(
            Err(exchange::blame("Failed to write file '", path, "': ", e.as_str())),
        ),
        _ => FsStep::Do(
            FsAction::Write { path: path.to_string(), contents: contents.to_string() },
        ),
    }
}

/// Writes a file, after making the directories that it lacks.
pub fn write_file(
    path: &str,
    contents: &str,
    platform: Platform,
    replies: &Vec<FsReply>,
) -> (r: FsStep<()>)
    ensures
        r@ == write_file_step(path@, contents@, platform, replies.deep_view()),
{
    let up = match paths::path_parent(path, platform) {
        Some(up) => up,
        None => {
            return write_at(path, contents, replies, 0);
        },
    };
    if up.as_str().is_empty() {
        return write_at(path, contents, replies, 0);
    }
    match exchange::get_reply(replies, 0) {
        Some(FsReply::Exists(true)) => write_at(path, contents, replies, 1),
        Some(FsReply::Exists(false)) => match exchange::get_reply(replies, 1) {
            Some(FsReply::Finished) => write_at(path, contents, replies, 2),
            Some(FsReply::Failed(e)) => FsStep::Done(
                Err(exchange::blame("Failed to create '", up.as_str(), "': ", e.as_str())),
            ),
            _ => FsStep::Do(FsAction::CreateDirs { path: up }),
        },
        _ => FsStep::Do(FsAction::Exists { path: up }),
    }
}

/// The entry of a child in a listing, if its kind could be told.
pub open spec fn tree_entry(path: Seq<char>, name: Seq<char>, is_dir: Option<bool>) -> Option<
    EntryView,
> {
    match is_dir {
        Some(d) => Some(EntryView { name, path, kind: types::kind_word(d) }),
        None => None,
    }
}

/// The entry of a child in a listing, if its kind could be told.
pub fn build_file_tree_entry(path: String, name: String, is_dir: Option<bool>) -> (r: Option<
    FileTreeEntry,
>)
    ensures
        r.deep_view() == tree_entry(path@, name@, is_dir),
{
    match is_dir {
        Some(d) => Some(FileTreeEntry { name, path, kind: types::kind_text(d) }),
        None => None,
    }
}

/// The entry that a listing has for a child: none for one that could not be read
/// or told, and none for the directory of git.
pub open spec fn shown(child: Option<ChildView>) -> Option<EntryView> {
    match child {
        Some(child) if child.name != ".git"@ => tree_entry(child.path, child.name, child.is_dir),
        _ => None,
    }
}

/// The entries that a listing has for children, in their order.
pub open spec fn entries(children: Seq<Option<ChildView>>) -> Seq<EntryView>
    decreases children.len(),
{
    if children.len() == 0 {
        seq![]
    } else {
        match shown(children.last()) {
            Some(entry) => entries(children.drop_last()).push(entry),
            None => entries(children.drop_last()),
        }
    }
}

/// What entries are sorted by: directories before files, then the name without
/// regard to letter case, then the name.
pub open spec fn entry_key(entry: EntryView) -> KeyView {
    KeyView {
        rank: if entry.kind == "directory"@ {
            0
        } else {
            1
        },
        primary: encoding::lowercased(entry.name),
        secondary: entry.name,
    }
}

/// The keys of entries.
pub open spec fn entry_keys(list: Seq<EntryView>) -> Seq<KeyView> {
    list.map_values(|e: EntryView| entry_key(e))
}

/// The sorted entries of a directory.
pub open spec fn listing(children: Seq<Option<ChildView>>) -> Seq<EntryView> {
    let list = entries(children);
    order::sorted_items(entry_keys(list), list)
}

fn sort_key(entry: &FileTreeEntry) -> (r: SortKey)
    ensures
        r@ == entry_key(entry@),
{
    SortKey {
        rank: if text::same_text(entry.kind.as_str(), "directory") {
            0
        } else {
            1
        },
        primary: encoding::to_lowercase(entry.name.as_str()),
        secondary: entry.name.clone(),
    }
}

/// Sorts entries.
fn sort_entries(list: Vec<FileTreeEntry>) -> (r: Vec<FileTreeEntry>)
    ensures
        r.deep_view() == order::sorted_items(entry_keys(list.deep_view()), list.deep_view()),
{
    let mut keys: Vec<SortKey> = Vec::new();
    for i in 0..list.len()
        invariant
            keys@.len() == i,
            forall|k: int| 0 <= k < i ==> (#[trigger] keys@[k])@ == entry_key(list@[k]@),
    {
        keys.push(sort_key(&list[i]));
    }
    assert(keys.deep_view() =~= entry_keys(list.deep_view()));
    let sorted = order::sorted_order(&keys);
    let mut out: Vec<FileTreeEntry> = Vec::new();
    for i in 0..sorted.len()
        invariant
            list@.len() == sorted@.len(),
            keys@.len() == list@.len(),
            order::is_sorted_order(keys.deep_view(), sorted@),
            out@.len() == i,
            forall|k: int| 0 <= k < i ==> (#[trigger] out@[k])@ == list@[sorted@[k] as int]@,
    {
        assert(sorted@[i as int] < keys.deep_view().len());
        let entry = &list[sorted[i]];
        out.push(
            FileTreeEntry {
                name: entry.name.clone(),
                path: entry.path.clone(),
                kind: entry.kind.clone(),
            },
        );
    }
    proof {
        order::lemma_sorted_items(keys.deep_view(), list.deep_view(), sorted@);
        assert forall|k: int| 0 <= k < sorted@.len() implies #[trigger] out.deep_view()[k]
            == list.deep_view()[sorted@[k] as int] by {
            assert(out@[k]@ == list@[sorted@[k] as int]@);
            assert(sorted@[k] < keys.deep_view().len());
        }
        assert(out.deep_view() =~= sorted@.map_values(|i: usize| list.deep_view()[i as int]));
    }
    out
}

/// The entry that a listing has for a child.
fn show_child(child: &Option<DirChild>) -> (r: Option<FileTreeEntry>)
    ensures
        r.deep_view() == shown(child.deep_view()),
{
    match child {
        Some(child) => if text::same_text(child.name.as_str(), ".git") {
            None
        } else {
            build_file_tree_entry(child.path.clone(), child.name.clone(), child.is_dir)
        },
        None => None,
    }
}

/// The sorted entries of a directory.
fn build_listing(children: &Vec<Option<DirChild>>) -> (r: Vec<FileTreeEntry>)
    ensures
        r.deep_view() == listing(children.deep_view()),
{
    let ghost all = children.deep_view();
    let mut list: Vec<FileTreeEntry> = Vec::new();
    assert(list.deep_view() =~= entries(all.take(0)));
    for i in 0..children.len()
        invariant
            all == children.deep_view(),
            list.deep_view() == entries(all.take(i as int)),
    {
        assert(all.take(i + 1).drop_last() =~= all.take(i as int));
        assert(all.take(i + 1).last() == children@[i as int].deep_view());
        if let Some(entry) = show_child(&children[i]) {
            let ghost before = list.deep_view();
            list.push(entry);
            assert(list.deep_view() =~= before.push(entry@));
        }
    }
    assert(all.take(all.len() as int) =~= all);
    sort_entries(list)
}

/// The steps of listing the children of a directory, from the second reply on.
pub open spec fn children_step(path: Seq<char>, replies: Seq<FsReplyView>) -> FsStepView<
    Seq<EntryView>,
> {
    match exchange::reply_at(replies, 1) {
        Some(FsReplyView::Failed(e)) => FsStepView::Done(
            Err(exchange::blamed("Failed to read directory '"@, path, "': "@, e)),
        ),
        Some(FsReplyView::Children(children)) => FsStepView::Done(Ok(listing(children))),
        _ => FsStepView::Do(FsActionView::ReadDir { path }),
    }
}

/// The steps of listing a directory.
pub open spec fn directory_step(path: Seq<char>, replies: Seq<FsReplyView>) -> FsStepView<
    Seq<EntryView>,
> {
    match exchange::reply_at(replies, 0) {
        Some(FsReplyView::Probed(probes)) if probes.len() == 1 => match probes[0] {
            ProbeView::Missing => FsStepView::Done(Err("Directory does not exist: "@ + path)),
            ProbeView::Failed(e) => FsStepView::Done(
                Err(exchange::blamed("Failed to inspect '"@, path, "': "@, e)),
            ),
            ProbeView::Found(stat) => if stat.is_dir {
                children_step(path, replies)
            } else {
                FsStepView::Done(Err("Path is not a directory: "@ + path))
            },
        },
        _ => FsStepView::Do(FsActionView::Probe { paths: seq![path] }),
    }
}

/// Lists the children of a directory, from the second reply on.
fn list_children(path: &str, replies: &Vec<FsReply>) -> (r: FsStep<Vec<FileTreeEntry>>)
    ensures
        r@ == children_step(path@, replies.deep_view()),
{
    match exchange::get_reply(replies, 1) {
        Some(FsReply::Failed(e)) => FsStep::Done(
            Err(exchange::blame("Failed to read directory '", path, "': ", e.as_str())),
        ),
        Some(FsReply::Children(children)) => FsStep::Done(Ok(build_listing(children))),
        _ => FsStep::Do(FsAction::ReadDir { path: path.to_string() }),
    }
}

/// The children of a directory: directories before files, and both by name. The
/// directory of git is not among them.
pub fn list_directory_entries(path: &str, replies: &Vec<FsReply>) -> (r: FsStep<
    Vec<FileTreeEntry>,
>)
    ensures
        r@ == directory_step(path@, replies.deep_view()),
{
    if let Some(FsReply::Probed(probes)) = exchange::get_reply(replies, 0) {
        assert(probes@.len() == probes.deep_view().len());
        if probes.len() == 1 {
            assert(probes.deep_view()[0] == probes@[0]@);
            return match &probes[0] {
                Probe::Missing => {
                    let mut message = "Directory does not exist: ".to_string();
                    message.append(path);
                    FsStep::Done(Err(message))
                },
                Probe::Failed(e) => FsStep::Done(
                    Err(exchange::blame("Failed to inspect '", path, "': ", e.as_str())),
                ),
                Probe::Found(stat) => if stat.is_dir {
                    list_children(path, replies)
                } else {
                    let mut message = "Path is not a directory: ".to_string();
                    message.append(path);
                    FsStep::Done(Err(message))
                },
            };
        }
    }
    let paths = vec![path.to_string()];
    assert(paths.deep_view() =~= seq![path@]);
    FsStep::Do(FsAction::Probe { paths })
}

} // verus!
