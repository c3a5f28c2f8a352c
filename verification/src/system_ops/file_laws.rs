//! What the operations on files do, in terms of the request and of what the host
//! replied.

use crate::encoding;
use crate::git::state_laws;
use crate::order;
use crate::paths;
use crate::platform::Platform;
use crate::system_ops::attachments;
use crate::system_ops::directory;
use crate::system_ops::exchange::{FileStat, FsAction, FsReplyView, FsStep, ProbeView};
use crate::system_ops::laws;
use crate::system_ops::types::{
    AttachmentPathInfo, AttachmentView, FileTreeEntry, ImageAttachmentPayload,
};
use crate::text;
use crate::text_laws;
use vstd::prelude::*;

verus! {

/// An operation failed with a message.
pub open spec fn fails<T>(r: FsStep<T>, message: Seq<char>) -> bool {
    r matches FsStep::Done(Err(e)) && e@ == message
}

/// A host found one thing at the one path that it looked at.
pub open spec fn found_one(reply: FsReplyView, probe: ProbeView) -> bool {
    reply matches FsReplyView::Probed(probes) && probes.len() == 1 && probes[0] == probe
}

/// Whether a path exists is asked of the host, and what it replies is told.
pub proof fn existence_is_asked_for(path: Seq<char>, replies: Seq<FsReplyView>, r: FsStep<bool>)
    requires
        r@ == directory::path_exists_step(path, replies),
    ensures
        replies.len() == 0 ==> (r matches FsStep::Do(FsAction::Exists { path: p }) && p@ == path),
        replies.len() > 0 ==> (replies[0] matches FsReplyView::Exists(b) ==> r == FsStep::<
            bool,
        >::Done(Ok(b))),
{
}

/// A child of a directory that could be read and told, and that is not the
/// directory of git, has an entry.
pub open spec fn has_entry(reply: FsReplyView, i: int) -> bool {
    reply matches FsReplyView::Children(children) && 0 <= i < children.len() && (
    children[i] matches Some(child) && child.name != ".git"@ && child.is_dir is Some)
}

/// The listing of a directory has an entry for each child that has one, with its
/// name and path and the word for what it is, and no other entries. Directories
/// stand before all else, then names ascend without regard to letter case, and
/// those that differ in nothing else by themselves. `places` gives the place of each
/// entry among the children.
pub proof fn directories_are_listed_whole(
    path: Seq<char>,
    replies: Seq<FsReplyView>,
    stat: FileStat,
    r: FsStep<Vec<FileTreeEntry>>,
) -> (places: Seq<int>)
    requires
        r@ == directory::directory_step(path, replies),
        replies.len() > 1,
        found_one(replies[0], ProbeView::Found(stat)) && stat.is_dir,
        replies[1] matches FsReplyView::Children(children) && children.len() <= usize::MAX,
    ensures
        ({
            let children = replies[1]->Children_0;
            r matches FsStep::Done(Ok(entries)) && {
                let list = entries@;
                &&& places.len() == list.len()
                &&& places.no_duplicates()
                &&& forall|k: int|
                    0 <= k < list.len() ==> {
                        &&& has_entry(replies[1], #[trigger] places[k])
                        &&& list[k].name@ == children[places[k]]->0.name
                        &&& list[k].path@ == children[places[k]]->0.path
                        &&& list[k].kind@ == if children[places[k]]->0.is_dir == Some(true) {
                            "directory"@
                        } else {
                            "file"@
                        }
                    }
                &&& forall|i: int| #[trigger] has_entry(replies[1], i) ==> places.contains(i)
                &&& forall|i: int, j: int|
                    #![trigger list[i], list[j]]
                    0 <= i < j < list.len() ==> stands_before(list[i], list[j])
            }
        }),
{
    let children = replies[1]->Children_0;
    let entries = r->Done_0->Ok_0;
    let list = entries@;
    let shown = entries.deep_view();
    let places = laws::listings_are_sorted_and_complete(children);
    assert(shown == directory::listing(children));
    assert(shown.len() == list.len());
    assert forall|k: int| 0 <= k < list.len() implies {
        &&& has_entry(replies[1], #[trigger] places[k])
        &&& list[k].name@ == children[places[k]]->0.name
        &&& list[k].path@ == children[places[k]]->0.path
        &&& list[k].kind@ == if children[places[k]]->0.is_dir == Some(true) {
            "directory"@
        } else {
            "file"@
        }
    } by {
        assert(shown[k] == list[k]@);
        assert(0 <= places[k] < children.len());
        assert(shown[k].kind == "directory"@ || shown[k].kind == "file"@);
    }
    assert forall|i: int| #[trigger] has_entry(replies[1], i) implies places.contains(i) by {
        assert(directory::shown(children[i]) is Some);
    }
    assert forall|i: int, j: int|
        #![trigger list[i], list[j]]
        0 <= i < j < list.len() implies stands_before(list[i], list[j]) by {
        assert(shown[i] == list[i]@ && shown[j] == list[j]@);
        assert(laws::listed_before(shown[i], shown[j]));
    }
    places
}

/// An entry may stand before another one in a listing.
pub open spec fn stands_before(a: FileTreeEntry, b: FileTreeEntry) -> bool {
    let dir_a = a.kind@ == "directory"@;
    let dir_b = b.kind@ == "directory"@;
    let low_a = encoding::lowercased(a.name@);
    let low_b = encoding::lowercased(b.name@);
    ||| dir_a && !dir_b
    ||| dir_a == dir_b && order::text_before(low_a, low_b)
    ||| dir_a == dir_b && low_a == low_b && !order::text_before(b.name@, a.name@)
}

/// A directory is looked at and then read. Where it is not there, is no directory,
/// or cannot be looked at or read, that is told.
pub proof fn directories_are_looked_at_first(
    path: Seq<char>,
    replies: Seq<FsReplyView>,
    r: FsStep<Vec<FileTreeEntry>>,
)
    requires
        r@ == directory::directory_step(path, replies),
    ensures
        replies.len() == 0 ==> (r matches FsStep::Do(FsAction::Probe { paths }) && paths@.len() == 1
            && paths@[0]@ == path),
        replies.len() > 0 && found_one(replies[0], ProbeView::Missing) ==> fails(
            r,
            "Directory does not exist: "@ + path,
        ),
        replies.len() > 0 ==> forall|e: Seq<char>| #[trigger]
            found_one(replies[0], ProbeView::Failed(e)) ==> fails(
                r,
                "Failed to inspect '"@ + path + "': "@ + e,
            ),
        replies.len() > 0 ==> forall|stat: FileStat| #[trigger]
            found_one(replies[0], ProbeView::Found(stat)) ==> {
                &&& !stat.is_dir ==> fails(r, "Path is not a directory: "@ + path)
                &&& stat.is_dir && replies.len() == 1 ==> (r matches FsStep::Do(
                    FsAction::ReadDir { path: p },
                ) && p@ == path)
                &&& stat.is_dir && replies.len() > 1 ==> (replies[1] matches FsReplyView::Failed(e)
                    ==> fails(r, "Failed to read directory '"@ + path + "': "@ + e))
            },
{
    if replies.len() == 0 {
        let asked = r->Do_0->Probe_paths;
        assert(asked.deep_view() == seq![path]);
        assert(asked.deep_view().len() == asked@.len());
        assert(asked.deep_view()[0] == asked@[0]@);
    }
}

/// What is written, once the directory is there.
pub open spec fn writes(
    path: Seq<char>,
    contents: Seq<char>,
    replies: Seq<FsReplyView>,
    at: int,
    r: FsStep<()>,
) -> bool {
    &&& replies.len() == at ==> (r matches FsStep::Do(FsAction::Write { path: p, contents: c })
        && p@ == path && c@ == contents)
    &&& replies.len() > at ==> {
        &&& replies[at] == FsReplyView::Finished ==> r == FsStep::<()>::Done(Ok(()))
        &&& replies[at] matches FsReplyView::Failed(e) ==> fails(
            r,
            "Failed to write file '"@ + path + "': "@ + e,
        )
    }
}

/// On Unix, before a file in a directory is written, the directory is looked for
/// and, where it is not there, made; where it cannot be made, that is told and
/// nothing is written. A file that is named alone, or stands in the root, is written
/// to where it is.
pub proof fn files_are_written_where_they_belong(
    dir: Seq<char>,
    name: Seq<char>,
    contents: Seq<char>,
    platform: Platform,
    replies: Seq<FsReplyView>,
    r: FsStep<()>,
)
    requires
        !(platform is Windows),
        state_laws::is_clean(dir),
        state_laws::is_name(name),
        r@ == directory::write_file_step(
            dir.push('/') + name,
            contents,
            platform,
            replies,
        ),
    ensures
        ({
            let path = dir.push('/') + name;
            &&& replies.len() == 0 ==> (r matches FsStep::Do(FsAction::Exists { path: p }) && p@
                == dir)
            &&& replies.len() > 0 && replies[0] == FsReplyView::Exists(true) ==> writes(
                path,
                contents,
                replies,
                1,
                r,
            )
            &&& replies.len() > 0 && replies[0] == FsReplyView::Exists(false) ==> {
                &&& replies.len() == 1 ==> (r matches FsStep::Do(FsAction::CreateDirs { path: p })
                    && p@ == dir)
                &&& replies.len() > 1 ==> (replies[1] matches FsReplyView::Failed(e) ==> fails(
                    r,
                    "Failed to create '"@ + dir + "': "@ + e,
                ))
                &&& replies.len() > 1 && replies[1] == FsReplyView::Finished ==> writes(
                    path,
                    contents,
                    replies,
                    2,
                    r,
                )
            }
        }),
{
    state_laws::lemma_unix_path(dir, name, platform);
}

/// The word for what a path leads to.
pub open spec fn kind_of(stat: FileStat) -> Seq<char> {
    if stat.is_dir {
        "directory"@
    } else {
        "file"@
    }
}

/// What is known of an attached path is the path itself, what it leads to, and for a
/// file the media type that its name suggests. Where nothing is there, or it cannot
/// be looked at, that is told.
pub proof fn attachments_are_told_as_they_are(
    path: Seq<char>,
    probe: ProbeView,
    platform: Platform,
    r: Result<AttachmentPathInfo, String>,
)
    requires
        match r {
            Ok(info) => attachments::inspected(path, probe, platform) == Ok::<
                AttachmentView,
                Seq<char>,
            >(info@),
            Err(e) => attachments::inspected(path, probe, platform) == Err::<
                AttachmentView,
                Seq<char>,
            >(e@),
        },
    ensures
        probe is Missing ==> (r matches Err(e) && e@ == "Attachment path does not exist: "@ + path),
        probe matches ProbeView::Failed(cause) ==> (r matches Err(e) && e@ == "Failed to inspect '"@
            + path + "': "@ + cause),
        probe matches ProbeView::Found(stat) ==> (r matches Ok(info) && {
            &&& info.path@ == path
            &&& info.kind@ == kind_of(stat)
            &&& info.mime_type.deep_view() == if stat.is_file {
                attachments::media_type(path, platform)
            } else {
                None
            }
            &&& info.name@ == match paths::file_name(path, platform) {
                Some(name) => name,
                None => path,
            }
        }),
{
}

/// On Unix the name of an attached path is what stands behind its last slash, and
/// the media type is that of what stands behind the last dot of the name. A name
/// without a dot, or with none but at its beginning, suggests none.
pub proof fn names_and_types_come_from_the_end(
    dir: Seq<char>,
    stem: Seq<char>,
    ext: Seq<char>,
    platform: Platform,
)
    requires
        !(platform is Windows),
        state_laws::is_clean(dir),
        stem.len() > 0 && !stem.contains('/'),
        !ext.contains('/') && !ext.contains('.'),
        ext.len() > 0,
    ensures
        ({
            let name = stem + seq!['.'] + ext;
            let hidden = seq!['.'] + ext;
            &&& paths::file_name(dir.push('/') + name, platform) == Some(name)
            &&& attachments::media_type(dir.push('/') + name, platform)
                == encoding::media_type_of_extension(ext)
            &&& paths::file_name(dir.push('/') + hidden, platform) == Some(hidden)
            &&& attachments::media_type(dir.push('/') + hidden, platform) is None
            &&& paths::file_name(dir.push('/') + ext, platform) == Some(ext)
            &&& attachments::media_type(dir.push('/') + ext, platform) is None
        }),
{
    let name = stem + seq!['.'] + ext;
    let hidden = seq!['.'] + ext;
    assert forall|i: int| 0 <= i < name.len() implies name[i] != '/' by {
        if i < stem.len() {
            assert(stem.contains(stem[i]));
        } else if i > stem.len() {
            assert(name[i] == ext[i - stem.len() - 1]);
            assert(ext.contains(ext[i - stem.len() - 1]));
        }
    }
    assert forall|i: int| 0 <= i < hidden.len() implies hidden[i] != '/' by {
        if i > 0 {
            assert(hidden[i] == ext[i - 1]);
            assert(ext.contains(ext[i - 1]));
        }
    }
    let last = ext[ext.len() - 1];
    assert(ext.contains(last));
    assert(name.last() == last && hidden.last() == last && ext.last() == last);
    assert(name != seq!['.'] && name != seq!['.', '.']);
    assert(hidden != seq!['.'] && hidden != seq!['.', '.']);
    assert(ext != seq!['.'] && ext != seq!['.', '.']);
    state_laws::lemma_unix_path(dir, name, platform);
    state_laws::lemma_unix_path(dir, hidden, platform);
    state_laws::lemma_unix_path(dir, ext, platform);
    lemma_dot_end(stem, ext);
    assert(name.skip(stem.len() as int + 1) =~= ext);
    lemma_dot_end(seq![], ext);
    assert(hidden =~= Seq::<char>::empty() + seq!['.'] + ext);
    lemma_no_dot(ext);
}

proof fn lemma_dot_end(stem: Seq<char>, ext: Seq<char>)
    requires
        !ext.contains('.'),
    ensures
        paths::dot_end(stem + seq!['.'] + ext) == stem.len() + 1,
    decreases ext.len(),
{
    let name = stem + seq!['.'] + ext;
    if ext.len() == 0 {
        assert(name.last() == '.');
    } else {
        let front = ext.drop_last();
        assert forall|i: int| 0 <= i < front.len() implies front[i] != '.' by {
            assert(ext.contains(ext[i]));
        }
        assert(ext.contains(ext[ext.len() - 1]));
        lemma_dot_end(stem, front);
        assert(name.drop_last() =~= stem + seq!['.'] + front);
        assert(name.last() == ext[ext.len() - 1]);
    }
}

proof fn lemma_no_dot(ext: Seq<char>)
    requires
        !ext.contains('.'),
    ensures
        paths::dot_end(ext) == 0,
    decreases ext.len(),
{
    if ext.len() > 0 {
        let front = ext.drop_last();
        assert forall|i: int| 0 <= i < front.len() implies front[i] != '.' by {
            assert(ext.contains(ext[i]));
        }
        assert(ext.contains(ext[ext.len() - 1]));
        lemma_no_dot(front);
    }
}

/// An attached path is looked at before it is read as an image. It is refused where
/// it is not there, cannot be looked at, or its name does not suggest an image.
pub proof fn images_are_told_by_their_names(
    path: Seq<char>,
    platform: Platform,
    replies: Seq<FsReplyView>,
    stat: FileStat,
    cause: Seq<char>,
    r: FsStep<ImageAttachmentPayload>,
)
    requires
        r@ == attachments::read_image_step(path, platform, replies),
    ensures
        replies.len() == 0 ==> (r matches FsStep::Do(FsAction::Probe { paths }) && paths@.len() == 1
            && paths@[0]@ == path),
        replies.len() > 0 && found_one(replies[0], ProbeView::Missing) ==> fails(
            r,
            "Attachment path does not exist: "@ + path,
        ),
        replies.len() > 0 && found_one(replies[0], ProbeView::Failed(cause)) ==> fails(
            r,
            "Failed to inspect '"@ + path + "': "@ + cause,
        ),
        replies.len() > 0 && found_one(replies[0], ProbeView::Found(stat)) ==> {
            &&& !stat.is_file || attachments::media_type(path, platform) is None ==> fails(
                r,
                "Unable to determine image type for '"@ + path + "'"@,
            )
            &&& stat.is_file ==> (attachments::media_type(path, platform) matches Some(mime) ==> (!(
            text_laws::stands_at(mime, "image/"@, 0)) ==> fails(
                r,
                "Attachment is not an image: "@ + path,
            )))
        },
{
    if replies.len() == 0 {
        let asked = r->Do_0->Probe_paths;
        assert(asked.deep_view() == seq![path]);
        assert(asked.deep_view().len() == asked@.len());
        assert(asked.deep_view()[0] == asked@[0]@);
    }
    if let Some(mime) = attachments::media_type(path, platform) {
        text_laws::found_texts_stand_in_the_text(mime, "image/"@);
    }
}

/// A file whose name suggests an image is measured and then read, unless it has more
/// than twenty mebibytes. What is given back is the media type and the bytes, in
/// base64, which stands for them. Where it cannot be measured or read, that is told.
pub proof fn images_are_read_up_to_their_limit(
    path: Seq<char>,
    platform: Platform,
    replies: Seq<FsReplyView>,
    stat: FileStat,
    mime: Seq<char>,
    r: FsStep<ImageAttachmentPayload>,
)
    requires
        r@ == attachments::read_image_step(path, platform, replies),
        replies.len() > 0,
        found_one(replies[0], ProbeView::Found(stat)) && stat.is_file,
        attachments::media_type(path, platform) == Some(mime),
        text_laws::stands_at(mime, "image/"@, 0),
    ensures
        replies.len() == 1 ==> (r matches FsStep::Do(FsAction::Stat { path: p }) && p@ == path),
        replies.len() > 1 ==> (replies[1] matches FsReplyView::Failed(e) ==> fails(
            r,
            "Failed to inspect image '"@ + path + "': "@ + e,
        )),
        replies.len() > 1 ==> (replies[1] matches FsReplyView::Stat(size) ==> {
            &&& size.len > 20971520 ==> fails(
                r,
                "Image attachment '"@ + path + "' exceeds the 20 MB limit"@,
            )
            &&& size.len <= 20971520 && replies.len() == 2 ==> (r matches FsStep::Do(
                FsAction::ReadBytes { path: p },
            ) && p@ == path)
            &&& size.len <= 20971520 && replies.len() > 2 ==> {
                &&& replies[2] matches FsReplyView::Failed(e) ==> fails(
                    r,
                    "Failed to read image '"@ + path + "': "@ + e,
                )
                &&& replies[2] matches FsReplyView::Bytes(bytes) ==> (r matches FsStep::Done(
                    Ok(image),
                ) && image.mime_type@ == mime && encoding::base64_bytes(image.base64@) == bytes)
            }
        }),
{
    text_laws::found_texts_stand_in_the_text(mime, "image/"@);
    if replies.len() > 2 {
        if let FsReplyView::Bytes(bytes) = replies[2] {
            encoding::base64_keeps_the_bytes(bytes);
        }
    }
}

/// What a path that leads nowhere is known by: itself, without regard to letter case
/// where the platform takes both cases for one.
pub open spec fn known_as(path: Seq<char>, platform: Platform) -> Seq<char> {
    if platform is Unix {
        path
    } else {
        encoding::lowercased(path)
    }
}

/// The path at `j` is the same as the one at `i`: they lead to the same, or the one
/// at `i` leads nowhere and the one at `j` leads to just what that is known by, or
/// both lead nowhere and are known by the same.
pub open spec fn is_same(
    given: Seq<Seq<char>>,
    canonical: Seq<Option<Seq<char>>>,
    platform: Platform,
    j: int,
    i: int,
) -> bool {
    match (canonical[i], canonical[j]) {
        (Some(a), Some(b)) => a == b,
        (Some(_), None) => false,
        (None, Some(b)) => known_as(given[i], platform) == b,
        (None, None) => known_as(given[i], platform) == known_as(given[j], platform),
    }
}

/// A path is the same as one before it.
pub open spec fn is_again(
    given: Seq<Seq<char>>,
    canonical: Seq<Option<Seq<char>>>,
    platform: Platform,
    i: int,
) -> bool {
    exists|j: int| 0 <= j < i && #[trigger] is_same(given, canonical, platform, j, i)
}

/// The texts that are left are just those of the given ones that are not the same as
/// one before, in their order.
pub open spec fn stay_once(
    left: Seq<String>,
    given: Seq<Seq<char>>,
    canonical: Seq<Option<Seq<char>>>,
    platform: Platform,
    places: Seq<int>,
) -> bool {
    &&& laws::ascending(places, given.len() as int)
    &&& places.len() == left.len()
    &&& forall|k: int|
        0 <= k < left.len() ==> left[k]@ == given[#[trigger] places[k]] && !is_again(
            given,
            canonical,
            platform,
            places[k],
        )
    &&& forall|i: int|
        0 <= i < given.len() && !#[trigger] is_again(given, canonical, platform, i)
            ==> places.contains(i)
}

/// Of some given texts, without the white space around them and without blank ones,
/// just those stay that are not the same as one before, in their order. The texts are
/// resolved first, in one go. `places` gives the place of each one that stays.
pub proof fn each_path_stays_once(
    list: Seq<Seq<char>>,
    platform: Platform,
    replies: Seq<FsReplyView>,
    r: FsStep<Vec<String>>,
) -> (places: Seq<int>)
    requires
        r@ == attachments::normalize_step(list, platform, replies),
    ensures
        ({
            let given = text::inked(list);
            &&& given.len() == 0 ==> (r matches FsStep::Done(Ok(left)) && left@.len() == 0)
            &&& given.len() > 0 && replies.len() == 0 ==> (r matches FsStep::Do(
                FsAction::Canonicalize { paths },
            ) && paths.deep_view() == given)
            &&& given.len() > 0 && replies.len() > 0 ==> (replies[0] matches FsReplyView::Canonical(
                canonical,
            ) ==> (canonical.len() == given.len() ==> (r matches FsStep::Done(Ok(left))
                && stay_once(left@, given, canonical, platform, places))))
        }),
{
    let given = text::inked(list);
    if given.len() == 0 {
        let left = r->Done_0->Ok_0;
        assert(left.deep_view().len() == left@.len());
        seq![]
    } else if replies.len() > 0 && replies[0] is Canonical && replies[0]->Canonical_0.len()
        == given.len() {
        let canonical = replies[0]->Canonical_0;
        let left = r->Done_0->Ok_0;
        let keys = attachments::path_keys(given, canonical, platform);
        let places = laws::first_paths_stay(given, canonical, platform);
        assert(left.deep_view() == attachments::distinct_paths(given, canonical, platform));
        assert(left.deep_view().len() == left@.len());
        assert forall|k: int| 0 <= k < left@.len() implies left@[k]@ == given[#[trigger] places[k]]
            && !is_again(given, canonical, platform, places[k]) by {
            assert(left.deep_view()[k] == left@[k]@);
            lemma_is_again(given, canonical, platform, places[k]);
        }
        assert forall|i: int|
            0 <= i < given.len() && !#[trigger] is_again(
                given,
                canonical,
                platform,
                i,
            ) implies places.contains(i) by {
            lemma_is_again(given, canonical, platform, i);
            assert(laws::is_represented(keys, places, i));
            let k = choose|k: int|
                0 <= k < places.len() && laws::stands_for(keys, #[trigger] places[k], i);
            assert(places[k] == i);
        }
        assert(stay_once(left@, given, canonical, platform, places));
        places
    } else {
        seq![]
    }
}

proof fn lemma_is_again(
    given: Seq<Seq<char>>,
    canonical: Seq<Option<Seq<char>>>,
    platform: Platform,
    i: int,
)
    requires
        0 <= i < given.len(),
        canonical.len() == given.len(),
    ensures
        is_again(given, canonical, platform, i) == !laws::is_first(
            attachments::path_keys(given, canonical, platform),
            i,
        ),
{
    let keys = attachments::path_keys(given, canonical, platform);
    assert forall|j: int| 0 <= j < i implies is_same(given, canonical, platform, j, i)
        == laws::stands_for(keys, j, i) by {}
    if is_again(given, canonical, platform, i) {
        let j = choose|j: int| 0 <= j < i && #[trigger] is_same(given, canonical, platform, j, i);
        assert(laws::stands_for(keys, j, i));
    }
    if !laws::is_first(keys, i) {
        let j = choose|j: int| 0 <= j < i && #[trigger] laws::stands_for(keys, j, i);
        assert(is_same(given, canonical, platform, j, i));
    }
}

} // verus!
