//! The values that the file operations give back.

use vstd::prelude::*;

verus! {

/// A file or a directory in a listing.
#[derive(Debug, Clone, PartialEq, Eq)]
pub struct FileTreeEntry {
    pub name: String,
    pub path: String,
    pub kind: String,
}

/// A `FileTreeEntry` with its texts as sequences.
pub struct EntryView {
    pub name: Seq<char>,
    pub path: Seq<char>,
    pub kind: Seq<char>,
}

impl View for FileTreeEntry {
    type V = EntryView;

    open spec fn view(&self) -> EntryView {
        EntryView { name: self.name@, path: self.path@, kind: self.kind@ }
    }
}

impl DeepView for FileTreeEntry {
    type V = EntryView;

    open spec fn deep_view(&self) -> EntryView {
        self.view()
    }
}

/// What is known of an attached path.
#[derive(Debug, Clone, PartialEq, Eq)]
pub struct AttachmentPathInfo {
    pub name: String,
    pub path: String,
    pub kind: String,
    pub mime_type: Option<String>,
}

/// An `AttachmentPathInfo` with its texts as sequences.
pub struct AttachmentView {
    pub name: Seq<char>,
    pub path: Seq<char>,
    pub kind: Seq<char>,
    pub mime_type: Option<Seq<char>>,
}

impl View for AttachmentPathInfo {
    type V = AttachmentView;

    open spec fn view(&self) -> AttachmentView {
        AttachmentView {
            name: self.name@,
            path: self.path@,
            kind: self.kind@,
            mime_type: self.mime_type.deep_view(),
        }
    }
}

impl DeepView for AttachmentPathInfo {
    type V = AttachmentView;

    open spec fn deep_view(&self) -> AttachmentView {
        self.view()
    }
}

/// An image as base64 text, with its media type.
#[derive(Debug, Clone, PartialEq, Eq)]
pub struct ImageAttachmentPayload {
    pub base64: String,
    pub mime_type: String,
}

/// An `ImageAttachmentPayload` with its texts as sequences.
pub struct ImageView {
    pub base64: Seq<char>,
    pub mime_type: Seq<char>,
}

impl View for ImageAttachmentPayload {
    type V = ImageView;

    open spec fn view(&self) -> ImageView {
        ImageView { base64: self.base64@, mime_type: self.mime_type@ }
    }
}

impl DeepView for ImageAttachmentPayload {
    type V = ImageView;

    open spec fn deep_view(&self) -> ImageView {
        self.view()
    }
}

/// The word for a directory or for anything else.
pub open spec fn kind_word(is_dir: bool) -> Seq<char> {
    if is_dir {
        "directory"@
    } else {
        "file"@
    }
}

/// The word for a directory or for anything else.
pub fn kind_text(is_dir: bool) -> (r: String)
    ensures
        r@ == kind_word(is_dir),
{
    if is_dir {
        "directory".to_string()
    } else {
        "file".to_string()
    }
}

} // verus!
