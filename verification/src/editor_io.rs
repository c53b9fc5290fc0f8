//! File I/O results of the bare-metal editor: the errors it reports, the
//! storage backends it can run on, and the messages and decoding around
//! reading and saving a document.

use vstd::prelude::*;
use crate::text::{owned, push_str, utf8_text};

verus! {

/// Editor I/O errors.
#[derive(Debug, Clone, PartialEq, Eq)]
pub enum EditorIoError {
    /// The file does not exist.
    NotFound,
    /// The storage failed, with its description.
    StorageError(String),
    /// The file's content is not UTF-8 text.
    InvalidUtf8,
}

/// The storage a boot can run on.
#[derive(Debug, Clone, Copy, PartialEq, Eq, Structural)]
pub enum StorageBackendKind {
    /// A disk in memory.
    RamDisk,
    /// A virtio block device over memory-mapped I/O.
    VirtioBlkMmio,
}

impl StorageBackendKind {
    /// The backend's display name.
    pub fn name(&self) -> (r: &'static str)
        ensures
            *self == StorageBackendKind::RamDisk ==> r@ == "ramdisk"@,
            *self == StorageBackendKind::VirtioBlkMmio ==> r@ == "virtio-blk-mmio"@,
    {
        match self {
            StorageBackendKind::RamDisk => "ramdisk",
            StorageBackendKind::VirtioBlkMmio => "virtio-blk-mmio",
        }
    }
}

/// The text of a document read from storage; an error when it is not
/// UTF-8.
pub fn decode_document(content: &[u8]) -> (r: Result<String, EditorIoError>)
    ensures
        vstd::utf8::valid_utf8(content@) ==> (r matches Ok(t) && t@ == vstd::utf8::decode_utf8(content@)),
        !vstd::utf8::valid_utf8(content@) ==> (r matches Err(EditorIoError::InvalidUtf8)),
{
    match utf8_text(content) {
        Some(t) => Ok(owned(t)),
        None => Err(EditorIoError::InvalidUtf8),
    }
}

/// The message for saving a document to its path; an error when it has
/// none.
pub fn save_message(path: Option<&str>) -> (r: Result<String, EditorIoError>)
    ensures
        path matches Some(p) ==> (r matches Ok(m) && m@ == "Saved to "@ + p@),
        path is None ==> (r matches Err(EditorIoError::StorageError(e)) && e@ == "No path specified"@),
{
    match path {
        Some(p) => {
            let mut m = String::new();
            push_str(&mut m, "Saved to ");
            push_str(&mut m, p);
            Ok(m)
        },
        None => Err(EditorIoError::StorageError(owned("No path specified"))),
    }
}

/// The message for saving a document under a new path.
pub fn save_as_message(path: &str) -> (r: String)
    ensures
        r@ == "Saved as "@ + path@,
{
    let mut m = String::new();
    push_str(&mut m, "Saved as ");
    push_str(&mut m, path);
    m
}

} // verus!
