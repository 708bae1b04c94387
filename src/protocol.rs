//! The wire texts of the v2 HTTP surface: locations, ranges, the error
//! envelope, and where the content store keeps bytes.
use vstd::prelude::*;
use crate::digest::is_digest_form;
use crate::error::{code_of, RegistryError};
use crate::number::{decimal_of, u64_to_decimal};

verus! {

/// `Location` of an upload: `/v2/<name>/blobs/uploads/<id>`.
pub fn upload_location(name: &str, id: &str) -> (r: String)
    ensures
        r@ == "/v2/"@ + name@ + "/blobs/uploads/"@ + id@,
{
    String::from_str("/v2/").concat(name).concat("/blobs/uploads/").concat(id)
}

/// `Location` of a committed blob: `/v2/<name>/blobs/<digest>`.
pub fn blob_location(name: &str, digest: &str) -> (r: String)
    ensures
        r@ == "/v2/"@ + name@ + "/blobs/"@ + digest@,
{
    String::from_str("/v2/").concat(name).concat("/blobs/").concat(digest)
}

/// `Location` of a stored manifest: `/v2/<name>/manifests/<digest>`.
pub fn manifest_location(name: &str, digest: &str) -> (r: String)
    ensures
        r@ == "/v2/"@ + name@ + "/manifests/"@ + digest@,
{
    String::from_str("/v2/").concat(name).concat("/manifests/").concat(digest)
}

/// The `Range` value of an upload holding `size` bytes: `0-<last byte>`,
/// or `0-0` while empty.
pub open spec fn upload_range_text(size: u64) -> Seq<char> {
    if size == 0 {
        "0-0"@
    } else {
        "0-"@ + decimal_of((size - 1) as nat)
    }
}

/// The `Range` header value of an upload holding `size` bytes.
pub fn upload_range(size: u64) -> (r: String)
    ensures
        r@ == upload_range_text(size),
{
    if size == 0 {
        String::from_str("0-0")
    } else {
        let last = u64_to_decimal(size - 1);
        String::from_str("0-").concat(last.as_str())
    }
}

/// Where the content store keeps a committed blob:
/// `blobs/sha256/<first two hex digits>/<all hex digits>`.
pub open spec fn blob_path_text(digest: Seq<char>) -> Seq<char> {
    "blobs/sha256/"@ + digest.subrange(7, 9) + "/"@ + digest.subrange(7, 71)
}

/// The canonical path of a committed blob.
pub fn blob_storage_path(digest: &str) -> (r: String)
    requires
        is_digest_form(digest@),
    ensures
        r@ == blob_path_text(digest@),
{
    let hex = digest.substring_char(7, 71);
    let fan = digest.substring_char(7, 9);
    String::from_str("blobs/sha256/").concat(fan).concat("/").concat(hex)
}

/// Where the content store keeps the bytes of upload `id`.
pub fn scratch_path(id: &str) -> (r: String)
    ensures
        r@ == "uploads/"@ + id@,
{
    String::from_str("uploads/").concat(id)
}

/// A short human text for each error.
pub open spec fn message_of(e: RegistryError) -> Seq<char> {
    match e {
        RegistryError::BlobUnknown => "blob unknown to registry"@,
        RegistryError::BlobUploadInvalid => "blob upload invalid"@,
        RegistryError::BlobUploadUnknown => "blob upload unknown to registry"@,
        RegistryError::DigestInvalid => "provided digest did not match uploaded content"@,
        RegistryError::ManifestBlobUnknown => "manifest references a blob unknown to registry"@,
        RegistryError::ManifestInvalid => "manifest invalid"@,
        RegistryError::ManifestUnknown => "manifest unknown"@,
        RegistryError::NameInvalid => "invalid repository name"@,
        RegistryError::NameUnknown => "repository name not known to registry"@,
        RegistryError::SizeInvalid => "provided length did not match content length"@,
        RegistryError::TagInvalid => "manifest tag did not match URI"@,
        RegistryError::Unauthorized => "authentication required"@,
        RegistryError::Denied => "requested access to the resource is denied"@,
        RegistryError::Unsupported => "the operation is unsupported"@,
        RegistryError::RangeInvalid => "invalid content range"@,
    }
}

impl RegistryError {
    /// A short human text for this error.
    pub fn message(&self) -> (r: &'static str)
        ensures
            r@ == message_of(*self),
    {
        match self {
            RegistryError::BlobUnknown => "blob unknown to registry",
            RegistryError::BlobUploadInvalid => "blob upload invalid",
            RegistryError::BlobUploadUnknown => "blob upload unknown to registry",
            RegistryError::DigestInvalid => "provided digest did not match uploaded content",
            RegistryError::ManifestBlobUnknown => "manifest references a blob unknown to registry",
            RegistryError::ManifestInvalid => "manifest invalid",
            RegistryError::ManifestUnknown => "manifest unknown",
            RegistryError::NameInvalid => "invalid repository name",
            RegistryError::NameUnknown => "repository name not known to registry",
            RegistryError::SizeInvalid => "provided length did not match content length",
            RegistryError::TagInvalid => "manifest tag did not match URI",
            RegistryError::Unauthorized => "authentication required",
            RegistryError::Denied => "requested access to the resource is denied",
            RegistryError::Unsupported => "the operation is unsupported",
            RegistryError::RangeInvalid => "invalid content range",
        }
    }

    /// The v2 error envelope of this error:
    /// `{"errors":[{"code":"<CODE>","message":"<text>","detail":null}]}`.
    pub fn envelope(&self) -> (r: String)
        ensures
            r@ == "{\"errors\":[{\"code\":\""@ + code_of(*self) + "\",\"message\":\""@ + message_of(
                *self,
            ) + "\",\"detail\":null}]}"@,
    {
        String::from_str("{\"errors\":[{\"code\":\"").concat(self.error_code()).concat(
            "\",\"message\":\"",
        ).concat(self.message()).concat("\",\"detail\":null}]}")
    }
}

} // verus!
