//! Files that a message can mention.

use crate::encoding;
use crate::order;
use crate::order::{KeyView, SortKey};
use crate::platform::Platform;
use crate::system_ops::attachments;
use crate::system_ops::exchange;
use crate::system_ops::exchange::{
    FsAction, FsActionView, FsReply, FsReplyView, FsStep, FsStepView, WalkEntry, WalkEntryView,
};
use vstd::hash_set::StringHashSet;
use vstd::prelude::*;

verus! {

/// How many files are listed where the caller does not say.
pub const DEFAULT_FILE_MENTION_LIMIT: usize = 1500;

/// How many files are listed at most.
pub const MAX_FILE_MENTION_LIMIT: usize = 5000;

/// How deep directory trees are walked.
pub const MAX_SCAN_DEPTH: usize = 8;

/// How many files are listed: up to as many as the caller wants, and never more
/// than `MAX_FILE_MENTION_LIMIT`.
pub open spec fn limit_of(max_results: Option<usize>) -> usize {
    match max_results {
        None => DEFAULT_FILE_MENTION_LIMIT,
        Some(n) => if n > MAX_FILE_MENTION_LIMIT {
            MAX_FILE_MENTION_LIMIT
        } else {
            n
        },
    }
}

/// How many files are listed.
pub fn mention_limit(max_results: Option<usize>) -> (r: usize)
    ensures
        r == limit_of(max_results),
        r <= MAX_FILE_MENTION_LIMIT,
{
    match max_results {
        None => DEFAULT_FILE_MENTION_LIMIT,
        Some(n) => if n > MAX_FILE_MENTION_LIMIT {
            MAX_FILE_MENTION_LIMIT
        } else {
            n
        },
    }
}

/// The directories to look in, each once.
pub fn normalize_roots(roots: &Vec<String>, platform: Platform, replies: &Vec<FsReply>) -> (r:
    FsStep<Vec<String>>)
    ensures
        r@ == attachments::normalize_step(roots.deep_view(), platform, replies.deep_view()),
{
    match attachments::normalize_paths(roots, platform, replies, 0) {
        Ok(left) => FsStep::Done(Ok(left)),
        Err(action) => FsStep::Do(action),
    }
}

/// A path lies in a directory or is that directory.
pub open spec fn within(parts: Seq<Seq<u8>>, root: Seq<Seq<u8>>) -> bool {
    root.len() <= parts.len() && parts.take(root.len() as int) == root
}

/// A path lies in one of some directories.
pub open spec fn within_any(parts: Seq<Seq<u8>>, roots: Seq<Seq<Seq<u8>>>) -> bool {
    exists|i: int| 0 <= i < roots.len() && #[trigger] within(parts, roots[i])
}

fn same_bytes(a: &Vec<u8>, b: &Vec<u8>) -> (r: bool)
    ensures
        r == (a@ == b@),
{
    if a.len() != b.len() {
        return false;
    }
    for i in 0..a.len()
        invariant
            a@.len() == b@.len(),
            forall|k: int| 0 <= k < i ==> a@[k] == b@[k],
    {
        if a[i] != b[i] {
            return false;
        }
    }
    assert(a@ =~= b@);
    true
}

fn is_within(parts: &Vec<Vec<u8>>, root: &Vec<Vec<u8>>) -> (r: bool)
    ensures
        r == within(parts.deep_view(), root.deep_view()),
{
    let ghost p = parts.deep_view();
    let ghost q = root.deep_view();
    assert(p.len() == parts@.len() && q.len() == root@.len());
    if root.len() > parts.len() {
        return false;
    }
    for i in 0..root.len()
        invariant
            p == parts.deep_view(),
            q == root.deep_view(),
            p.len() == parts@.len(),
            q.len() == root@.len(),
            root@.len() <= parts@.len(),
            forall|k: int| 0 <= k < i ==> p[k] == q[k],
    {
        assert(p[i as int] =~= parts@[i as int]@);
        assert(q[i as int] =~= root@[i as int]@);
        if !same_bytes(&parts[i], &root[i]) {
            assert(p.take(q.len() as int)[i as int] != q[i as int]);
            return false;
        }
    }
    assert(p.take(q.len() as int) =~= q);
    true
}

fn is_within_any(parts: &Vec<Vec<u8>>, roots: &Vec<Vec<Vec<u8>>>) -> (r: bool)
    ensures
        r == within_any(parts.deep_view(), roots.deep_view()),
{
    for i in 0..roots.len()
        invariant
            forall|k: int|
                0 <= k < i ==> !#[trigger] within(parts.deep_view(), roots.deep_view()[k]),
    {
        assert(roots.deep_view()[i as int] == roots@[i as int].deep_view());
        if is_within(parts, &roots[i]) {
            return true;
        }
    }
    assert(roots@.len() == roots.deep_view().len());
    false
}

/// The state of a scan: the directories that files have to lie in, how many
/// files it takes, the files that it has met, known by their paths without
/// links, and those that it has taken.
pub struct ScanView {
    pub roots: Seq<Seq<Seq<u8>>>,
    pub limit: usize,
    pub seen: Set<Seq<char>>,
    pub files: Seq<Seq<char>>,
}

/// A scan that has met nothing.
pub open spec fn fresh_scan(roots: Seq<Seq<Seq<u8>>>, limit: usize) -> ScanView {
    ScanView { roots, limit, seen: Set::empty(), files: seq![] }
}

/// A file that a scan can take, known by its path without links: one that does
/// not leave the directories by way of a link.
pub open spec fn candidate(roots: Seq<Seq<Seq<u8>>>, entry: WalkEntryView) -> Option<Seq<char>> {
    match (entry.is_file, entry.canonical) {
        (Some(true), Some(path)) if within_any(path.parts, roots) => Some(path.text),
        _ => None,
    }
}

/// A scan after it has met something: it takes a file that it can take and has
/// not met, as long as it is not full.
pub open spec fn offered(scan: ScanView, entry: WalkEntryView) -> ScanView {
    match candidate(scan.roots, entry) {
        Some(key) if scan.files.len() < scan.limit && !scan.seen.contains(key) => ScanView {
            seen: scan.seen.insert(key),
            files: scan.files.push(entry.path),
            ..scan
        },
        _ => scan,
    }
}

/// A scan after it has met several things.
pub open spec fn scanned(scan: ScanView, entries: Seq<WalkEntryView>) -> ScanView
    decreases entries.len(),
{
    if entries.len() == 0 {
        scan
    } else {
        offered(scanned(scan, entries.drop_last()), entries.last())
    }
}

/// A scan of directory trees for files.
pub struct MentionScan {
    roots: Vec<Vec<Vec<u8>>>,
    limit: usize,
    seen: StringHashSet,
    files: Vec<String>,
}

impl View for MentionScan {
    type V = ScanView;

    closed spec fn view(&self) -> ScanView {
        ScanView {
            roots: self.roots.deep_view(),
            limit: self.limit,
            seen: self.seen@,
            files: self.files.deep_view(),
        }
    }
}

/// The directories that could be resolved.
pub open spec fn resolved(roots: Seq<Option<Seq<Seq<u8>>>>) -> Seq<Seq<Seq<u8>>>
    decreases roots.len(),
{
    if roots.len() == 0 {
        seq![]
    } else {
        match roots.last() {
            Some(root) => resolved(roots.drop_last()).push(root),
            None => resolved(roots.drop_last()),
        }
    }
}

fn copy_bytes(bytes: &Vec<u8>) -> (r: Vec<u8>)
    ensures
        r@ == bytes@,
{
    let mut out: Vec<u8> = Vec::new();
    for i in 0..bytes.len()
        invariant
            out@ == bytes@.take(i as int),
    {
        out.push(bytes[i]);
        assert(out@ =~= bytes@.take(i + 1));
    }
    assert(out@ =~= bytes@);
    out
}

fn copy_parts(parts: &Vec<Vec<u8>>) -> (r: Vec<Vec<u8>>)
    ensures
        r.deep_view() == parts.deep_view(),
{
    let mut out: Vec<Vec<u8>> = Vec::new();
    for i in 0..parts.len()
        invariant
            out@.len() == i,
            forall|k: int| 0 <= k < i ==> (#[trigger] out@[k])@ == parts@[k]@,
    {
        let part = copy_bytes(&parts[i]);
        out.push(part);
    }
    assert forall|k: int| 0 <= k < parts@.len() implies #[trigger] out.deep_view()[k]
        == parts.deep_view()[k] by {
        assert(out@[k]@ == parts@[k]@);
        assert(out.deep_view()[k] =~= out@[k]@);
        assert(parts.deep_view()[k] =~= parts@[k]@);
    }
    assert(out.deep_view() =~= parts.deep_view());
    out
}

impl MentionScan {
    /// A scan that has met nothing, in those directories that could be resolved.
    pub fn new(roots: &Vec<Option<Vec<Vec<u8>>>>, limit: usize) -> (r: MentionScan)
        ensures
            r@ == fresh_scan(resolved(roots.deep_view()), limit),
    {
        let ghost all = roots.deep_view();
        let mut kept: Vec<Vec<Vec<u8>>> = Vec::new();
        assert(kept.deep_view() =~= resolved(all.take(0)));
        for i in 0..roots.len()
            invariant
                all == roots.deep_view(),
                kept.deep_view() == resolved(all.take(i as int)),
        {
            assert(all.take(i + 1).drop_last() =~= all.take(i as int));
            assert(all.take(i + 1).last() == roots@[i as int].deep_view());
            if let Some(root) = &roots[i] {
                let ghost before = kept.deep_view();
                let root = copy_parts(root);
                kept.push(root);
                assert(kept.deep_view() =~= before.push(root.deep_view()));
            }
        }
        assert(all.take(all.len() as int) =~= all);
        let files: Vec<String> = Vec::new();
        assert(files.deep_view() =~= seq![]);
        MentionScan { roots: kept, limit, seen: StringHashSet::new(), files }
    }

    /// Whether the scan takes no more files.
    pub fn is_full(&self) -> (r: bool)
        ensures
            r == (self@.files.len() >= self@.limit),
    {
        self.files.len() >= self.limit
    }

    /// Lets the scan meet something.
    pub fn offer(&mut self, entry: &WalkEntry)
        ensures
            final(self)@ == offered(old(self)@, entry@),
    {
        if self.files.len() >= self.limit {
            return;
        }
        let path = match (entry.is_file, &entry.canonical) {
            (Some(true), Some(path)) => path,
            _ => {
                return;
            },
        };
        if !is_within_any(&path.parts, &self.roots) {
            return;
        }
        if self.seen.contains(path.text.as_str()) {
            return;
        }
        let ghost before = self.files.deep_view();
        self.seen.insert(path.text.clone());
        self.files.push(entry.path.clone());
        assert(self.files.deep_view() =~= before.push(entry.path@));
    }

    /// The files that the scan has taken.
    pub fn into_files(self) -> (r: Vec<String>)
        ensures
            r.deep_view() == self@.files,
    {
        self.files
    }
}

/// What files are sorted by: their paths without regard to letter case.
pub open spec fn mention_key(path: Seq<char>) -> KeyView {
    KeyView { rank: 0, primary: encoding::lowercased(path), secondary: seq![] }
}

/// Files, sorted. Those with the same key stand in the order in which they came.
pub open spec fn sorted_mentions(files: Seq<Seq<char>>) -> Seq<Seq<char>> {
    order::sorted_items(files.map_values(|path: Seq<char>| mention_key(path)), files)
}

/// Files, sorted.
pub fn sort_mentions(files: &Vec<String>) -> (r: Vec<String>)
    ensures
        r.deep_view() == sorted_mentions(files.deep_view()),
{
    let ghost all = files.deep_view();
    let mut keys: Vec<SortKey> = Vec::new();
    for i in 0..files.len()
        invariant
            keys@.len() == i,
            forall|k: int| 0 <= k < i ==> (#[trigger] keys@[k])@ == mention_key(files@[k]@),
    {
        let secondary = String::new();
        assert(secondary@ =~= seq![]);
        keys.push(
            SortKey { rank: 0, primary: encoding::to_lowercase(files[i].as_str()), secondary },
        );
    }
    assert(keys.deep_view() =~= all.map_values(|path: Seq<char>| mention_key(path)));
    let sorted = order::sorted_order(&keys);
    let mut out: Vec<String> = Vec::new();
    for i in 0..sorted.len()
        invariant
            files@.len() == sorted@.len(),
            keys@.len() == files@.len(),
            order::is_sorted_order(keys.deep_view(), sorted@),
            out@.len() == i,
            forall|k: int| 0 <= k < i ==> (#[trigger] out@[k])@ == files@[sorted@[k] as int]@,
    {
        assert(sorted@[i as int] < keys.deep_view().len());
        out.push(files[sorted[i]].clone());
    }
    proof {
        order::lemma_sorted_items(keys.deep_view(), all, sorted@);
        assert forall|k: int| 0 <= k < sorted@.len() implies #[trigger] out.deep_view()[k]
            == all[sorted@[k] as int] by {
            assert(out@[k]@ == files@[sorted@[k] as int]@);
            assert(sorted@[k] < keys.deep_view().len());
        }
        assert(out.deep_view() =~= sorted@.map_values(|i: usize| all[i as int]));
    }
    out
}

/// The files that a walk yields.
pub open spec fn mentions(
    roots: Seq<Option<Seq<Seq<u8>>>>,
    limit: usize,
    entries: Seq<WalkEntryView>,
) -> Seq<Seq<char>> {
    sorted_mentions(scanned(fresh_scan(resolved(roots), limit), entries).files)
}

/// The files that a walk yields.
pub fn collect_mentions(
    roots: &Vec<Option<Vec<Vec<u8>>>>,
    limit: usize,
    entries: &Vec<WalkEntry>,
) -> (r: Vec<String>)
    ensures
        r.deep_view() == mentions(roots.deep_view(), limit, entries.deep_view()),
{
    let ghost all = entries.deep_view();
    let mut scan = MentionScan::new(roots, limit);
    let ghost start = scan@;
    assert(scan@ == scanned(start, all.take(0)));
    for i in 0..entries.len()
        invariant
            all == entries.deep_view(),
            scan@ == scanned(start, all.take(i as int)),
    {
        assert(all.take(i + 1).drop_last() =~= all.take(i as int));
        assert(all.take(i + 1).last() == entries@[i as int]@);
        scan.offer(&entries[i]);
    }
    assert(all.take(all.len() as int) =~= all);
    let files = scan.into_files();
    sort_mentions(&files)
}

/// The walk that looks for files: hidden ones and ignored ones are left out, and
/// links are not followed.
pub open spec fn walk(roots: Seq<Seq<char>>, limit: usize) -> FsActionView {
    FsActionView::Walk {
        roots,
        limit,
        max_depth: MAX_SCAN_DEPTH,
        follow_links: false,
        hidden: true,
        git_ignore: true,
        git_global: true,
        git_exclude: true,
    }
}

/// The steps of listing files.
pub open spec fn mentions_step(
    roots: Seq<Seq<char>>,
    max_results: Option<usize>,
    platform: Platform,
    replies: Seq<FsReplyView>,
) -> FsStepView<Seq<Seq<char>>> {
    match attachments::normalized(roots, platform, replies, 0) {
        Err(action) => FsStepView::Do(action),
        Ok(left) => if left.len() == 0 {
            FsStepView::Done(Ok(seq![]))
        } else {
            match exchange::reply_at(replies, 1) {
                Some(FsReplyView::Walked { roots: found, entries }) => FsStepView::Done(
                    Ok(mentions(found, limit_of(max_results), entries)),
                ),
                _ => FsStepView::Do(walk(left, limit_of(max_results))),
            }
        },
    }
}

/// Lists the files below some directories.
pub fn list_files_for_mentions(
    roots: &Vec<String>,
    max_results: Option<usize>,
    platform: Platform,
    replies: &Vec<FsReply>,
) -> (r: FsStep<Vec<String>>)
    ensures
        r@ == mentions_step(roots.deep_view(), max_results, platform, replies.deep_view()),
{
    let left = match attachments::normalize_paths(roots, platform, replies, 0) {
        Ok(left) => left,
        Err(action) => {
            return FsStep::Do(action);
        },
    };
    assert(left@.len() == left.deep_view().len());
    if left.len() == 0 {
        assert(left.deep_view() =~= seq![]);
        return FsStep::Done(Ok(left));
    }
    let limit: usize = mention_limit(max_results);
    match exchange::get_reply(replies, 1) {
        Some(FsReply::Walked { roots: found, entries }) => FsStep::Done(
            Ok(collect_mentions(found, limit, entries)),
        ),
        _ => FsStep::Do(
            FsAction::Walk {
                roots: left,
                limit,
                max_depth: MAX_SCAN_DEPTH,
                follow_links: false,
                hidden: true,
                git_ignore: true,
                git_global: true,
                git_exclude: true,
            },
        ),
    }
}

} // verus!
