//! Paths that are attached to a message, and images among them.

use crate::encoding;
use crate::paths;
use crate::platform::Platform;
use crate::system_ops::exchange;
use crate::system_ops::exchange::{
    FileStat, FsAction, FsActionView, FsReply, FsReplyView, FsStep, FsStepView, Probe, ProbeView,
};
use crate::system_ops::types;
use crate::system_ops::types::{
    AttachmentPathInfo, AttachmentView, ImageAttachmentPayload, ImageView,
};
use crate::text;
use vstd::hash_set::StringHashSet;
use vstd::prelude::*;

verus! {

/// The largest image that is read, in bytes.
pub const MAX_IMAGE_ATTACHMENT_BYTES: u64 = 20971520;

/// The text by which paths that lead to one file are known as the same: the
/// path without links, or else the path as it is written, in lower case where
/// the platform takes both cases for one.
pub open spec fn path_key(
    canonical: Option<Seq<char>>,
    raw: Seq<char>,
    platform: Platform,
) -> Seq<char> {
    match canonical {
        Some(path) => path,
        None => match platform {
            Platform::Unix => raw,
            _ => encoding::lowercased(raw),
        },
    }
}

/// The text by which paths that lead to one file are known as the same.
pub fn normalized_path_key(canonical: Option<&str>, raw: &str, platform: Platform) -> (r: String)
    ensures
        r@ == path_key(canonical.deep_view(), raw@, platform),
{
    match canonical {
        Some(path) => path.to_string(),
        None => match platform {
            Platform::Unix => raw.to_string(),
            _ => encoding::to_lowercase(raw),
        },
    }
}

/// What a path is known by among others: whether it leads to something, and its
/// text.
pub open spec fn file_key(
    canonical: Option<Seq<char>>,
    raw: Seq<char>,
    platform: Platform,
) -> (bool, Seq<char>) {
    (canonical is Some, path_key(canonical, raw, platform))
}

/// What paths are known by.
pub open spec fn path_keys(
    list: Seq<Seq<char>>,
    canonical: Seq<Option<Seq<char>>>,
    platform: Platform,
) -> Seq<(bool, Seq<char>)> {
    Seq::new(list.len(), |i: int| file_key(canonical[i], list[i], platform))
}

/// The path at `i` is the same as one before. For a path that leads to something
/// that is one that leads there too, so that a path that leads nowhere never
/// takes its place; a path that leads nowhere is the same as any with its text.
pub open spec fn is_repeated(keys: Seq<(bool, Seq<char>)>, i: int) -> bool {
    let (leads, text) = keys[i];
    keys.take(i).contains((true, text)) || (!leads && keys.take(i).contains((false, text)))
}

/// The paths among the first `n` that are not the same as one before.
pub open spec fn first_of_each(
    list: Seq<Seq<char>>,
    keys: Seq<(bool, Seq<char>)>,
    n: int,
) -> Seq<Seq<char>>
    decreases n,
{
    if n <= 0 {
        seq![]
    } else if is_repeated(keys, n - 1) {
        first_of_each(list, keys, n - 1)
    } else {
        first_of_each(list, keys, n - 1).push(list[n - 1])
    }
}

/// The paths without those that are the same as one before.
pub open spec fn distinct_paths(
    list: Seq<Seq<char>>,
    canonical: Seq<Option<Seq<char>>>,
    platform: Platform,
) -> Seq<Seq<char>> {
    first_of_each(list, path_keys(list, canonical, platform), list.len() as int)
}

/// The texts of those keys among the first `n` that have a mark.
pub open spec fn marked(keys: Seq<(bool, Seq<char>)>, n: int, mark: bool) -> Set<Seq<char>> {
    Set::new(|key: Seq<char>| keys.take(n).contains((mark, key)))
}

proof fn lemma_marked(keys: Seq<(bool, Seq<char>)>, n: int)
    requires
        0 <= n < keys.len(),
    ensures
        marked(keys, n + 1, keys[n].0) == marked(keys, n, keys[n].0).insert(keys[n].1),
        marked(keys, n + 1, !keys[n].0) == marked(keys, n, !keys[n].0),
{
    let (mark, text) = keys[n];
    assert(keys.take(n + 1) =~= keys.take(n).push((mark, text)));
    assert forall|key: (bool, Seq<char>)| #[trigger] keys.take(n + 1).contains(key) == (
    keys.take(n).contains(key) || key == (mark, text)) by {
        if keys.take(n).contains(key) {
            let m = choose|m: int| 0 <= m < n && keys.take(n)[m] == key;
            assert(keys.take(n + 1)[m] == key);
        }
        if key == (mark, text) {
            assert(keys.take(n + 1)[n] == key);
        }
    }
    assert(marked(keys, n + 1, mark) =~= marked(keys, n, mark).insert(text));
    assert(marked(keys, n + 1, !mark) =~= marked(keys, n, !mark));
}

/// The paths without those that are the same as one before.
pub fn drop_repeated(
    list: &Vec<String>,
    canonical: &Vec<Option<String>>,
    platform: Platform,
) -> (r: Vec<String>)
    requires
        canonical@.len() == list@.len(),
    ensures
        r.deep_view() == distinct_paths(list.deep_view(), canonical.deep_view(), platform),
{
    let ghost all = list.deep_view();
    let ghost keys = path_keys(all, canonical.deep_view(), platform);
    let mut found = StringHashSet::new();
    let mut missing = StringHashSet::new();
    let mut out: Vec<String> = Vec::new();
    assert(marked(keys, 0, true) =~= Set::empty());
    assert(marked(keys, 0, false) =~= Set::empty());
    assert(out.deep_view() =~= first_of_each(all, keys, 0));
    for i in 0..list.len()
        invariant
            all == list.deep_view(),
            canonical@.len() == list@.len(),
            keys == path_keys(all, canonical.deep_view(), platform),
            found@ == marked(keys, i as int, true),
            missing@ == marked(keys, i as int, false),
            out.deep_view() == first_of_each(all, keys, i as int),
    {
        assert(all[i as int] == list@[i as int]@);
        assert(canonical.deep_view()[i as int] == canonical@[i as int].deep_view());
        proof {
            lemma_marked(keys, i as int);
        }
        let fresh = match &canonical[i] {
            Some(path) => {
                let key = normalized_path_key(Some(path.as_str()), list[i].as_str(), platform);
                assert((true, key@) == keys[i as int]);
                found.insert(key)
            },
            None => {
                let key = normalized_path_key(None, list[i].as_str(), platform);
                assert((false, key@) == keys[i as int]);
                let led = found.contains(key.as_str());
                missing.insert(key) && !led
            },
        };
        if fresh {
            let ghost before = out.deep_view();
            out.push(list[i].clone());
            assert(out.deep_view() =~= before.push(all[i as int]));
        }
    }
    out
}

/// The paths that are left of a list of texts: without white space around them,
/// and without empty ones and those that are the same as one before, by the
/// reply at place `at`; or the action that is wanted to tell.
pub open spec fn normalized(
    list: Seq<Seq<char>>,
    platform: Platform,
    replies: Seq<FsReplyView>,
    at: int,
) -> Result<Seq<Seq<char>>, FsActionView> {
    let given = text::inked(list);
    if given.len() == 0 {
        Ok(seq![])
    } else {
        match exchange::reply_at(replies, at) {
            Some(FsReplyView::Canonical(canonical)) if canonical.len() == given.len() => Ok(
                distinct_paths(given, canonical, platform),
            ),
            _ => Err(FsActionView::Canonicalize { paths: given }),
        }
    }
}

/// The step that gives back the paths that are left of a list of texts.
pub open spec fn normalize_step(
    list: Seq<Seq<char>>,
    platform: Platform,
    replies: Seq<FsReplyView>,
) -> FsStepView<Seq<Seq<char>>> {
    match normalized(list, platform, replies, 0) {
        Ok(left) => FsStepView::Done(Ok(left)),
        Err(action) => FsStepView::Do(action),
    }
}

/// The paths that are left of a list of texts, or the action that is wanted to
/// tell.
pub fn normalize_paths(
    list: &Vec<String>,
    platform: Platform,
    replies: &Vec<FsReply>,
    at: usize,
) -> (r: Result<Vec<String>, FsAction>)
    ensures
        match r {
            Ok(left) => normalized(list.deep_view(), platform, replies.deep_view(), at as int)
                == Ok::<Seq<Seq<char>>, FsActionView>(left.deep_view()),
            Err(action) => normalized(
                list.deep_view(),
                platform,
                replies.deep_view(),
                at as int,
            ) == Err::<Seq<Seq<char>>, FsActionView>(action@),
        },
{
    let given = text::trim_all(list);
    assert(given@.len() == given.deep_view().len());
    if given.len() == 0 {
        let none: Vec<String> = Vec::new();
        assert(none.deep_view() =~= seq![]);
        return Ok(none);
    }
    if let Some(FsReply::Canonical(canonical)) = exchange::get_reply(replies, at) {
        assert(canonical@.len() == canonical.deep_view().len());
        if canonical.len() == given.len() {
            return Ok(drop_repeated(&given, canonical, platform));
        }
    }
    Err(FsAction::Canonicalize { paths: given })
}

/// The attached paths, each once.
pub fn normalize_attachment_paths(
    list: &Vec<String>,
    platform: Platform,
    replies: &Vec<FsReply>,
) -> (r: FsStep<Vec<String>>)
    ensures
        r@ == normalize_step(list.deep_view(), platform, replies.deep_view()),
{
    match normalize_paths(list, platform, replies, 0) {
        Ok(left) => FsStep::Done(Ok(left)),
        Err(action) => FsStep::Do(action),
    }
}

/// The media type that the name of a file suggests.
pub open spec fn media_type(path: Seq<char>, platform: Platform) -> Option<Seq<char>> {
    match paths::extension(path, platform) {
        Some(ext) => encoding::media_type_of_extension(ext),
        None => None,
    }
}

/// The media type that the name of a file suggests.
pub fn guess_from_path(path: &str, platform: Platform) -> (r: Option<String>)
    ensures
        r.deep_view() == media_type(path@, platform),
{
    match paths::path_extension(path, platform) {
        Some(ext) => encoding::guess_media_type(ext.as_str()),
        None => None,
    }
}

/// What is known of an attached path that leads to something, with the media
/// type that its name suggests.
pub open spec fn attachment(
    path: Seq<char>,
    stat: FileStat,
    mime: Option<Seq<char>>,
    platform: Platform,
) -> AttachmentView {
    AttachmentView {
        name: match paths::file_name(path, platform) {
            Some(name) => name,
            None => path,
        },
        path,
        kind: types::kind_word(stat.is_dir),
        mime_type: if stat.is_file {
            mime
        } else {
            None
        },
    }
}

/// What is known of an attached path that leads to something, with the media
/// type that its name suggests.
pub fn describe_attachment(
    path: &str,
    stat: FileStat,
    mime: Option<String>,
    platform: Platform,
) -> (r: AttachmentPathInfo)
    ensures
        r@ == attachment(path@, stat, mime.deep_view(), platform),
{
    let name = match paths::path_file_name(path, platform) {
        Some(name) => name,
        None => path.to_string(),
    };
    AttachmentPathInfo {
        name,
        path: path.to_string(),
        kind: types::kind_text(stat.is_dir),
        mime_type: if stat.is_file {
            mime
        } else {
            None
        },
    }
}

/// What is known of an attached path.
pub open spec fn inspected(
    path: Seq<char>,
    probe: ProbeView,
    platform: Platform,
) -> Result<AttachmentView, Seq<char>> {
    match probe {
        ProbeView::Missing => Err("Attachment path does not exist: "@ + path),
        ProbeView::Failed(e) => Err(exchange::blamed("Failed to inspect '"@, path, "': "@, e)),
        ProbeView::Found(stat) => Ok(attachment(path, stat, media_type(path, platform), platform)),
    }
}

/// What is known of an attached path.
pub fn inspect_attachment_path(
    path: &str,
    probe: &Probe,
    platform: Platform,
) -> (r: Result<AttachmentPathInfo, String>)
    ensures
        match r {
            Ok(info) => inspected(path@, probe@, platform) == Ok::<AttachmentView, Seq<char>>(
                info@,
            ),
            Err(e) => inspected(path@, probe@, platform) == Err::<AttachmentView, Seq<char>>(e@),
        },
{
    match probe {
        Probe::Missing => {
            let mut message = "Attachment path does not exist: ".to_string();
            message.append(path);
            Err(message)
        },
        Probe::Failed(e) => Err(
            exchange::blame("Failed to inspect '", path, "': ", e.as_str()),
        ),
        Probe::Found(stat) => {
            let mime = guess_from_path(path, platform);
            Ok(describe_attachment(path, *stat, mime, platform))
        },
    }
}

/// What is known of those of the first `n` paths that lead to something.
pub open spec fn attachments(
    list: Seq<Seq<char>>,
    probes: Seq<ProbeView>,
    n: int,
    platform: Platform,
) -> Seq<AttachmentView>
    decreases n,
{
    if n <= 0 {
        seq![]
    } else {
        match inspected(list[n - 1], probes[n - 1], platform) {
            Ok(info) => attachments(list, probes, n - 1, platform).push(info),
            Err(_) => attachments(list, probes, n - 1, platform),
        }
    }
}

/// The steps of looking at attached paths.
pub open spec fn inspect_step(
    list: Seq<Seq<char>>,
    platform: Platform,
    replies: Seq<FsReplyView>,
) -> FsStepView<Seq<AttachmentView>> {
    match normalized(list, platform, replies, 0) {
        Err(action) => FsStepView::Do(action),
        Ok(left) => if left.len() == 0 {
            FsStepView::Done(Ok(seq![]))
        } else {
            match exchange::reply_at(replies, 1) {
                Some(FsReplyView::Probed(probes)) if probes.len() == left.len() => FsStepView::Done(
                    Ok(attachments(left, probes, left.len() as int, platform)),
                ),
                _ => FsStepView::Do(FsActionView::Probe { paths: left }),
            }
        },
    }
}

/// What is known of attached paths. Those that lead to nothing are left out.
pub fn inspect_attachment_paths(
    list: &Vec<String>,
    platform: Platform,
    replies: &Vec<FsReply>,
) -> (r: FsStep<Vec<AttachmentPathInfo>>)
    ensures
        r@ == inspect_step(list.deep_view(), platform, replies.deep_view()),
{
    let left = match normalize_paths(list, platform, replies, 0) {
        Ok(left) => left,
        Err(action) => {
            return FsStep::Do(action);
        },
    };
    assert(left@.len() == left.deep_view().len());
    if left.len() == 0 {
        let none: Vec<AttachmentPathInfo> = Vec::new();
        assert(none.deep_view() =~= seq![]);
        return FsStep::Done(Ok(none));
    }
    if let Some(FsReply::Probed(probes)) = exchange::get_reply(replies, 1) {
        assert(probes@.len() == probes.deep_view().len());
        if probes.len() == left.len() {
            let mut out: Vec<AttachmentPathInfo> = Vec::new();
            assert(out.deep_view() =~= attachments(
                left.deep_view(),
                probes.deep_view(),
                0,
                platform,
            ));
            for i in 0..left.len()
                invariant
                    probes@.len() == left@.len(),
                    out.deep_view() == attachments(
                        left.deep_view(),
                        probes.deep_view(),
                        i as int,
                        platform,
                    ),
            {
                assert(left.deep_view()[i as int] == left@[i as int]@);
                assert(probes.deep_view()[i as int] == probes@[i as int]@);
                if let Ok(info) = inspect_attachment_path(left[i].as_str(), &probes[i], platform) {
                    let ghost before = out.deep_view();
                    out.push(info);
                    assert(out.deep_view() =~= before.push(info@));
                }
            }
            return FsStep::Done(Ok(out));
        }
    }
    FsStep::Do(FsAction::Probe { paths: left })
}

/// An attachment whose media type is one of an image.
pub open spec fn image_type(info: AttachmentView) -> Result<Seq<char>, Seq<char>> {
    match info.mime_type {
        None => Err("Unable to determine image type for '"@ + info.path + "'"@),
        Some(mime) => if text::begins(mime, "image/"@) {
            Ok(mime)
        } else {
            Err("Attachment is not an image: "@ + info.path)
        },
    }
}

/// The media type of an attachment, which has to be one of an image.
pub fn require_image(info: AttachmentPathInfo) -> (r: Result<String, String>)
    ensures
        match r {
            Ok(mime) => image_type(info@) == Ok::<Seq<char>, Seq<char>>(mime@),
            Err(e) => image_type(info@) == Err::<Seq<char>, Seq<char>>(e@),
        },
{
    match info.mime_type {
        None => {
            let mut message = "Unable to determine image type for '".to_string();
            message.append(info.path.as_str());
            message.append("'");
            Err(message)
        },
        Some(mime) => if text::starts_with(mime.as_str(), "image/") {
            Ok(mime)
        } else {
            let mut message = "Attachment is not an image: ".to_string();
            message.append(info.path.as_str());
            Err(message)
        },
    }
}

/// The message that an image is too large.
pub open spec fn too_large(path: Seq<char>) -> Seq<char> {
    "Image attachment '"@ + path + "' exceeds the 20 MB limit"@
}

/// The steps of reading an image, once its media type is known.
pub open spec fn image_step(
    path: Seq<char>,
    mime: Seq<char>,
    replies: Seq<FsReplyView>,
) -> FsStepView<ImageView> {
    match exchange::reply_at(replies, 1) {
        Some(FsReplyView::Failed(e)) => FsStepView::Done(
            Err(exchange::blamed("Failed to inspect image '"@, path, "': "@, e)),
        ),
        Some(FsReplyView::Stat(stat)) => if stat.len > MAX_IMAGE_ATTACHMENT_BYTES {
            FsStepView::Done(Err(too_large(path)))
        } else {
            match exchange::reply_at(replies, 2) {
                Some(FsReplyView::Failed(e)) => FsStepView::Done(
                    Err(exchange::blamed("Failed to read image '"@, path, "': "@, e)),
                ),
                Some(FsReplyView::Bytes(bytes)) => FsStepView::Done(
                    Ok(ImageView { base64: encoding::base64_standard(bytes), mime_type: mime }),
                ),
                _ => FsStepView::Do(FsActionView::ReadBytes { path }),
            }
        },
        _ => FsStepView::Do(FsActionView::Stat { path }),
    }
}

/// The steps of reading an image.
pub open spec fn read_image_step(
    path: Seq<char>,
    platform: Platform,
    replies: Seq<FsReplyView>,
) -> FsStepView<ImageView> {
    match exchange::reply_at(replies, 0) {
        Some(FsReplyView::Probed(probes)) if probes.len() == 1 => match inspected(
            path,
            probes[0],
            platform,
        ) {
            Err(e) => FsStepView::Done(Err(e)),
            Ok(info) => match image_type(info) {
                Err(e) => FsStepView::Done(Err(e)),
                Ok(mime) => image_step(path, mime, replies),
            },
        },
        _ => FsStepView::Do(FsActionView::Probe { paths: seq![path] }),
    }
}

/// The bytes that were read fit into memory as base64.
pub open spec fn encodable(replies: Seq<FsReplyView>) -> bool {
    exchange::reply_at(replies, 2) matches Some(FsReplyView::Bytes(bytes)) ==> bytes.len()
        <= usize::MAX / 4
}

/// Reads an image, once its media type is known.
pub fn load_image(path: &str, mime: String, replies: &Vec<FsReply>) -> (r: FsStep<
    ImageAttachmentPayload,
>)
    requires
        encodable(replies.deep_view()),
    ensures
        r@ == image_step(path@, mime@, replies.deep_view()),
{
    match exchange::get_reply(replies, 1) {
        Some(FsReply::Failed(e)) => FsStep::Done(
            Err(exchange::blame("Failed to inspect image '", path, "': ", e.as_str())),
        ),
        Some(FsReply::Stat(stat)) => {
            if stat.len > MAX_IMAGE_ATTACHMENT_BYTES {
                let mut message = "Image attachment '".to_string();
                message.append(path);
                message.append("' exceeds the 20 MB limit");
                return FsStep::Done(Err(message));
            }
            match exchange::get_reply(replies, 2) {
                Some(FsReply::Failed(e)) => FsStep::Done(
                    Err(exchange::blame("Failed to read image '", path, "': ", e.as_str())),
                ),
                Some(FsReply::Bytes(bytes)) => FsStep::Done(
                    Ok(
                        ImageAttachmentPayload {
                            base64: encoding::base64_encode(bytes.as_slice()),
                            mime_type: mime,
                        },
                    ),
                ),
                _ => FsStep::Do(FsAction::ReadBytes { path: path.to_string() }),
            }
        },
        _ => FsStep::Do(FsAction::Stat { path: path.to_string() }),
    }
}

/// Reads an image as base64 text.
pub fn read_image_attachment(path: &str, platform: Platform, replies: &Vec<FsReply>) -> (r: FsStep<
    ImageAttachmentPayload,
>)
    requires
        encodable(replies.deep_view()),
    ensures
        r@ == read_image_step(path@, platform, replies.deep_view()),
{
    if let Some(FsReply::Probed(probes)) = exchange::get_reply(replies, 0) {
        assert(probes@.len() == probes.deep_view().len());
        if probes.len() == 1 {
            assert(probes.deep_view()[0] == probes@[0]@);
            let info = match inspect_attachment_path(path, &probes[0], platform) {
                Ok(info) => info,
                Err(e) => {
                    return FsStep::Done(Err(e));
                },
            };
            return match require_image(info) {
                Ok(mime) => load_image(path, mime, replies),
                Err(e) => FsStep::Done(Err(e)),
            };
        }
    }
    let paths = vec![path.to_string()];
    assert(paths.deep_view() =~= seq![path@]);
    FsStep::Do(FsAction::Probe { paths })
}

} // verus!
