//! Plain request/response models that cross the service boundary.  Only the
//! fields made of plain values live here; the richer rows that carry
//! structured documents are modeled in the worker's own types.

use vstd::prelude::*;

verus! {

/// Fields a client may change on a stored capture.
pub struct UpdateCaptureRequest {
    pub tags: Option<Vec<String>>,
    pub category: Option<String>,
    pub notes: Option<String>,
}

/// Request for a presigned upload URL.
pub struct PresignedUrlRequest {
    pub filename: String,
    pub content_type: String,
}

/// Issued presigned upload URL and the key/public URL that go with it.
pub struct PresignedUrlResponse {
    pub upload_url: String,
    pub object_key: String,
    pub public_url: String,
    pub expires_in_seconds: i64,
}

/// One capture of a device sync batch that could not be stored.
pub struct SyncFailure {
    pub device_local_id: String,
    pub error: String,
}

/// Human-readable place metadata attached to a capture.
pub struct LocationInfo {
    pub name: Option<String>,
    pub city: Option<String>,
    pub country: Option<String>,
}

} // verus!
