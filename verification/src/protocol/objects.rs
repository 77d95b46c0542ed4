//! Objects that are sent reliably: announcements of files, and the clipboard.
use vstd::prelude::*;

verus! {

/// The group that a file belongs to.
#[derive(Debug, Clone, PartialEq, Eq)]
pub struct FileTransferGroup {
    pub group_id: u64,
    pub file_index: u32,
    pub file_count: u32,
    pub relative_path: String,
    pub group_total_size_bytes: u64,
    pub group_checksum_crc32: u32,
}

/// The announcement of a file.
#[derive(Debug, Clone, PartialEq, Eq)]
pub struct FileTransferManifest {
    pub transfer_id: u64,
    pub file_object_id: u64,
    pub name: String,
    pub group: Option<FileTransferGroup>,
    pub mime_type: Option<String>,
    pub size_bytes: u64,
    pub chunk_payload_len: u32,
    pub checksum_crc32: u32,
}

#[derive(Debug, Clone, Copy, PartialEq, Eq, Structural)]
pub enum FileTransferControl {
    CancelTransfer { transfer_id: u64, file_object_id: u64 },
    CancelGroup { group_id: u64 },
}

#[derive(Debug, Clone, PartialEq, Eq)]
pub struct ClipboardText {
    pub text: String,
}

#[derive(Debug, Clone, PartialEq, Eq)]
pub struct ClipboardImage {
    pub mime_type: String,
    pub width: Option<u32>,
    pub height: Option<u32>,
    pub bytes: Vec<u8>,
}

#[derive(Debug, Clone, PartialEq, Eq)]
pub struct ClipboardFile {
    pub name: String,
    pub mime_type: Option<String>,
    pub bytes: Vec<u8>,
}

#[derive(Debug, Clone, PartialEq, Eq)]
pub enum ClipboardItem {
    Text(ClipboardText),
    Image(ClipboardImage),
    File(ClipboardFile),
}

/// What one copy put on the clipboard.
#[derive(Debug, Clone, PartialEq, Eq)]
pub struct ClipboardBundle {
    pub bundle_id: u64,
    pub items: Vec<ClipboardItem>,
}

impl ClipboardBundle {
    pub fn new(bundle_id: u64, items: Vec<ClipboardItem>) -> (r: Self)
        ensures
            r.bundle_id == bundle_id,
            r.items == items,
    {
        Self { bundle_id, items }
    }

    /// A bundle of one text.
    pub fn text(bundle_id: u64, text: &str) -> (r: Self)
        ensures
            r.bundle_id == bundle_id,
            r.items@.len() == 1,
            r.items@[0] is Text,
            r.items@[0]->Text_0.text@ == text@,
    {
        let mut items: Vec<ClipboardItem> = Vec::new();
        items.push(ClipboardItem::Text(ClipboardText { text: text.to_owned() }));
        Self::new(bundle_id, items)
    }
}

} // verus!
