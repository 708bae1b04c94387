use vstd::prelude::*;

verus! {

/// The error codes of the v2 error envelope.
#[derive(Debug, Clone, Copy, PartialEq, Eq, Structural)]
pub enum RegistryError {
    BlobUnknown,
    BlobUploadInvalid,
    BlobUploadUnknown,
    DigestInvalid,
    ManifestBlobUnknown,
    ManifestInvalid,
    ManifestUnknown,
    NameInvalid,
    NameUnknown,
    SizeInvalid,
    TagInvalid,
    Unauthorized,
    Denied,
    Unsupported,
    RangeInvalid,
}

/// The HTTP status that carries each error code.
pub open spec fn status_of(e: RegistryError) -> u16 {
    match e {
        RegistryError::BlobUnknown => 404,
        RegistryError::BlobUploadInvalid => 400,
        RegistryError::BlobUploadUnknown => 404,
        RegistryError::DigestInvalid => 400,
        RegistryError::ManifestBlobUnknown => 400,
        RegistryError::ManifestInvalid => 400,
        RegistryError::ManifestUnknown => 404,
        RegistryError::NameInvalid => 400,
        RegistryError::NameUnknown => 404,
        RegistryError::SizeInvalid => 400,
        RegistryError::TagInvalid => 400,
        RegistryError::Unauthorized => 401,
        RegistryError::Denied => 403,
        RegistryError::Unsupported => 405,
        RegistryError::RangeInvalid => 416,
    }
}

impl RegistryError {
    /// HTTP status code of this error.
    pub fn status_code(&self) -> (r: u16)
        ensures
            r == status_of(*self),
    {
        match self {
            RegistryError::BlobUnknown => 404,
            RegistryError::BlobUploadInvalid => 400,
            RegistryError::BlobUploadUnknown => 404,
            RegistryError::DigestInvalid => 400,
            RegistryError::ManifestBlobUnknown => 400,
            RegistryError::ManifestInvalid => 400,
            RegistryError::ManifestUnknown => 404,
            RegistryError::NameInvalid => 400,
            RegistryError::NameUnknown => 404,
            RegistryError::SizeInvalid => 400,
            RegistryError::TagInvalid => 400,
            RegistryError::Unauthorized => 401,
            RegistryError::Denied => 403,
            RegistryError::Unsupported => 405,
            RegistryError::RangeInvalid => 416,
        }
    }

    /// The code string used in the error envelope.
    pub fn error_code(&self) -> (r: &'static str)
        ensures
            r@ == code_of(*self),
    {
        proof {
            reveal_strlit("BLOB_UNKNOWN");
            reveal_strlit("BLOB_UPLOAD_INVALID");
            reveal_strlit("BLOB_UPLOAD_UNKNOWN");
            reveal_strlit("DIGEST_INVALID");
            reveal_strlit("MANIFEST_BLOB_UNKNOWN");
            reveal_strlit("MANIFEST_INVALID");
            reveal_strlit("MANIFEST_UNKNOWN");
            reveal_strlit("NAME_INVALID");
            reveal_strlit("NAME_UNKNOWN");
            reveal_strlit("SIZE_INVALID");
            reveal_strlit("TAG_INVALID");
            reveal_strlit("UNAUTHORIZED");
            reveal_strlit("DENIED");
            reveal_strlit("UNSUPPORTED");
            reveal_strlit("RANGE_INVALID");
        }
        match self {
            RegistryError::BlobUnknown => "BLOB_UNKNOWN",
            RegistryError::BlobUploadInvalid => "BLOB_UPLOAD_INVALID",
            RegistryError::BlobUploadUnknown => "BLOB_UPLOAD_UNKNOWN",
            RegistryError::DigestInvalid => "DIGEST_INVALID",
            RegistryError::ManifestBlobUnknown => "MANIFEST_BLOB_UNKNOWN",
            RegistryError::ManifestInvalid => "MANIFEST_INVALID",
            RegistryError::ManifestUnknown => "MANIFEST_UNKNOWN",
            RegistryError::NameInvalid => "NAME_INVALID",
            RegistryError::NameUnknown => "NAME_UNKNOWN",
            RegistryError::SizeInvalid => "SIZE_INVALID",
            RegistryError::TagInvalid => "TAG_INVALID",
            RegistryError::Unauthorized => "UNAUTHORIZED",
            RegistryError::Denied => "DENIED",
            RegistryError::Unsupported => "UNSUPPORTED",
            RegistryError::RangeInvalid => "RANGE_INVALID",
        }
    }
}

/// The code string of each error, as characters.
pub open spec fn code_of(e: RegistryError) -> Seq<char> {
    match e {
        RegistryError::BlobUnknown => "BLOB_UNKNOWN"@,
        RegistryError::BlobUploadInvalid => "BLOB_UPLOAD_INVALID"@,
        RegistryError::BlobUploadUnknown => "BLOB_UPLOAD_UNKNOWN"@,
        RegistryError::DigestInvalid => "DIGEST_INVALID"@,
        RegistryError::ManifestBlobUnknown => "MANIFEST_BLOB_UNKNOWN"@,
        RegistryError::ManifestInvalid => "MANIFEST_INVALID"@,
        RegistryError::ManifestUnknown => "MANIFEST_UNKNOWN"@,
        RegistryError::NameInvalid => "NAME_INVALID"@,
        RegistryError::NameUnknown => "NAME_UNKNOWN"@,
        RegistryError::SizeInvalid => "SIZE_INVALID"@,
        RegistryError::TagInvalid => "TAG_INVALID"@,
        RegistryError::Unauthorized => "UNAUTHORIZED"@,
        RegistryError::Denied => "DENIED"@,
        RegistryError::Unsupported => "UNSUPPORTED"@,
        RegistryError::RangeInvalid => "RANGE_INVALID"@,
    }
}

} // verus!
