//! The externally visible entities of the document manager: the document
//! itself, the uploaded file accompanying a write, the download response,
//! and the error taxonomy.

use vstd::prelude::*;

verus! {

/// The externally visible document entity, assembled from the blobs that
/// back it. `content` is the decoded text of the primary blob, absent when
/// the payload is binary; `attachment_ref` is the key of the companion
/// blob, absent when the document has none.
#[derive(Debug, Clone, PartialEq)]
pub struct Document {
    pub id: String,
    pub content: Option<String>,
    pub attachment_ref: Option<String>,
    pub is_binary: bool,
}

/// An uploaded file accompanying a create or update request: the filename
/// it was uploaded under, if any, and its raw bytes.
pub struct UploadedFile {
    pub name: Option<String>,
    pub bytes: Vec<u8>,
}

/// The filename used for an attachment whose upload carried no name.
pub open spec fn spec_default_name() -> Seq<char> {
    seq!['f', 'i', 'l', 'e']
}

impl UploadedFile {
    /// The filename under which this upload is stored: the carried name, or
    /// the fixed default token.
    pub open spec fn spec_name(&self) -> Seq<char> {
        match self.name {
            Some(n) => n@,
            None => spec_default_name(),
        }
    }
}

/// A download response: the raw stored bytes, a filename synthesized from
/// the document id and the classification, and the binary disposition flag.
#[derive(Debug, PartialEq)]
pub struct DownloadResponse {
    pub content: Vec<u8>,
    pub filename: String,
    pub is_binary: bool,
}

/// The error taxonomy of the repository. The in-memory store itself only
/// fails with `NotFound`; the remaining variants classify failures that a
/// remote backend or the startup configuration surface, and carry through
/// the boundary unchanged.
#[derive(Debug, Clone, PartialEq)]
pub enum DocError {
    /// The primary blob for the requested document id is absent.
    NotFound,
    /// A network or store-level failure, with the underlying message.
    Transport(String),
    /// Bytes required as text by the caller's context failed to decode.
    Encoding,
    /// A required startup setting is missing; fatal, no recovery attempted.
    Configuration(String),
}

} // verus!
