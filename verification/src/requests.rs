//! The request parameter types the endpoints take, and the attachment
//! descriptor the retrieval pipeline hands to the backend. Each descriptor
//! conversion pins exactly which request fields feed which descriptor
//! fields — the image endpoints deliberately leave the thumbnail empty.

use vstd::prelude::*;

verus! {

/// A message id, as a query parameter.
#[derive(Debug, Clone, Copy, PartialEq, Eq)]
pub struct Id {
    pub id: u64,
}

/// Identifies a message-borne binary attachment to the backend: the message
/// id, a thumbnail reference, and the backend's opaque locator.
#[derive(Debug, Clone, PartialEq, Eq)]
pub struct AttachmentDescriptor {
    pub id: u64,
    pub thumb: String,
    pub extra: String,
}

/// Body of a save-image request: which message, where to put the decrypted
/// file, and the attempt-counted timeout.
#[derive(Debug, Clone, PartialEq, Eq)]
pub struct Image {
    pub id: u64,
    pub extra: String,
    pub dir: String,
    pub timeout: u8,
}

/// Body of a save-file request: download only, no decryption.
#[derive(Debug, Clone, PartialEq, Eq)]
pub struct SaveFile {
    pub id: u64,
    pub extra: String,
    pub thumb: String,
}

/// Body of a SQL query request.
#[derive(Debug, Clone, PartialEq, Eq)]
pub struct RoomMemberQuery {
    pub sql: String,
}

/// Query parameters of the image streaming endpoint.
#[derive(Debug, Clone, PartialEq, Eq)]
pub struct DownloadImageParams {
    pub id: u64,
    pub extra: String,
    pub dir: String,
    pub timeout: u8,
}

/// Query parameters of the file streaming endpoint.
#[derive(Debug, Clone, PartialEq, Eq)]
pub struct DownloadFileParams {
    pub id: u64,
    pub extra: String,
    pub thumb: String,
}

impl Image {
    /// The descriptor for this image: no thumbnail, the message's locator.
    pub fn to_descriptor(&self) -> (d: AttachmentDescriptor)
        ensures
            d.id == self.id,
            d.thumb@ == Seq::<char>::empty(),
            d.extra == self.extra,
    {
        AttachmentDescriptor { id: self.id, thumb: String::new(), extra: self.extra.clone() }
    }
}

impl SaveFile {
    /// The descriptor for this file: the request's thumbnail and locator.
    pub fn to_descriptor(&self) -> (d: AttachmentDescriptor)
        ensures
            d.id == self.id,
            d.thumb == self.thumb,
            d.extra == self.extra,
    {
        AttachmentDescriptor {
            id: self.id,
            thumb: self.thumb.clone(),
            extra: self.extra.clone(),
        }
    }
}

impl DownloadImageParams {
    /// The descriptor for a streamed image: no thumbnail.
    pub fn to_descriptor(&self) -> (d: AttachmentDescriptor)
        ensures
            d.id == self.id,
            d.thumb@ == Seq::<char>::empty(),
            d.extra == self.extra,
    {
        AttachmentDescriptor { id: self.id, thumb: String::new(), extra: self.extra.clone() }
    }
}

impl DownloadFileParams {
    /// The descriptor for a streamed file: the request's thumbnail.
    pub fn to_descriptor(&self) -> (d: AttachmentDescriptor)
        ensures
            d.id == self.id,
            d.thumb == self.thumb,
            d.extra == self.extra,
    {
        AttachmentDescriptor {
            id: self.id,
            thumb: self.thumb.clone(),
            extra: self.extra.clone(),
        }
    }
}

} // verus!
