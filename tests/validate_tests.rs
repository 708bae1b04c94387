use ghostdock::digest::sha256_digest;
use ghostdock::error::RegistryError;
use ghostdock::validate::{
    is_digest, is_digest_reference, validate_digest, validate_repository_name, validate_tag_name,
};
use ghostdock::protocol::{blob_storage_path, scratch_path, upload_range};

const HELLO_DIGEST: &str = "sha256:5891b5b522d5df086d0ff0b110fbd9d21bb4fc7163af34d08286a2e846f6be03";
const EMPTY_DIGEST: &str = "sha256:e3b0c44298fc1c149afbf4c8996fb92427ae41e4649b934ca495991b7852b855";

#[test]
fn sha256_of_known_bodies() {
    assert_eq!(sha256_digest(b"hello\n"), HELLO_DIGEST);
    assert_eq!(sha256_digest(b""), EMPTY_DIGEST);
    assert!(validate_digest(&sha256_digest(b"anything")).is_ok());
}

#[test]
fn repository_names() {
    assert!(validate_repository_name("demo").is_ok());
    assert!(validate_repository_name("library/ubuntu").is_ok());
    assert!(validate_repository_name("a.b_c-d/e2").is_ok());
    assert_eq!(validate_repository_name(""), Err(RegistryError::NameInvalid));
    assert_eq!(validate_repository_name("Demo"), Err(RegistryError::NameInvalid));
    assert_eq!(validate_repository_name("a..b"), Err(RegistryError::NameInvalid));
    assert_eq!(validate_repository_name("a/"), Err(RegistryError::NameInvalid));
    assert_eq!(validate_repository_name("-a"), Err(RegistryError::NameInvalid));
    assert_eq!(validate_repository_name("a//b"), Err(RegistryError::NameInvalid));
    let long = "a".repeat(255);
    assert!(validate_repository_name(&long).is_ok());
    let too_long = "a".repeat(256);
    assert_eq!(validate_repository_name(&too_long), Err(RegistryError::NameInvalid));
}

#[test]
fn tag_names() {
    assert!(validate_tag_name("latest").is_ok());
    assert!(validate_tag_name("v1.2_3-RC").is_ok());
    assert_eq!(validate_tag_name(""), Err(RegistryError::TagInvalid));
    assert_eq!(validate_tag_name("a/b"), Err(RegistryError::TagInvalid));
    assert_eq!(validate_tag_name("sha256:abc"), Err(RegistryError::TagInvalid));
    assert!(validate_tag_name(&"t".repeat(128)).is_ok());
    assert_eq!(validate_tag_name(&"t".repeat(129)), Err(RegistryError::TagInvalid));
}

#[test]
fn digests() {
    assert!(validate_digest(HELLO_DIGEST).is_ok());
    assert_eq!(validate_digest("sha256:abc"), Err(RegistryError::DigestInvalid));
    assert_eq!(validate_digest(&HELLO_DIGEST.to_uppercase()), Err(RegistryError::DigestInvalid));
    assert_eq!(validate_digest(&HELLO_DIGEST.replace("sha256", "sha512")), Err(RegistryError::DigestInvalid));
    assert_eq!(validate_digest(&format!("{}0", HELLO_DIGEST)), Err(RegistryError::DigestInvalid));
    assert!(is_digest(HELLO_DIGEST));
    assert!(!is_digest("sha256:abc"));
    assert!(is_digest_reference("sha256:abc"));
    assert!(!is_digest_reference("latest"));
}

#[test]
fn wire_texts() {
    assert_eq!(upload_range(0), "0-0");
    assert_eq!(upload_range(6), "0-5");
    assert_eq!(upload_range(3), "0-2");
    assert_eq!(
        blob_storage_path(HELLO_DIGEST),
        "blobs/sha256/58/5891b5b522d5df086d0ff0b110fbd9d21bb4fc7163af34d08286a2e846f6be03"
    );
    assert_eq!(scratch_path("u1"), "uploads/u1");
    assert_eq!(RegistryError::DigestInvalid.status_code(), 400);
    assert_eq!(RegistryError::RangeInvalid.status_code(), 416);
    assert_eq!(RegistryError::ManifestUnknown.status_code(), 404);
    assert_eq!(RegistryError::Denied.status_code(), 403);
    assert_eq!(RegistryError::Unauthorized.status_code(), 401);
    assert_eq!(RegistryError::ManifestBlobUnknown.error_code(), "MANIFEST_BLOB_UNKNOWN");
    assert_eq!(
        RegistryError::DigestInvalid.envelope(),
        "{\"errors\":[{\"code\":\"DIGEST_INVALID\",\"message\":\"provided digest did not match uploaded content\",\"detail\":null}]}"
    );
}

#[test]
fn recognized_media_types() {
    for mt in [
        "application/vnd.docker.distribution.manifest.v1+json",
        "application/vnd.docker.distribution.manifest.v2+json",
        "application/vnd.docker.distribution.manifest.list.v2+json",
        "application/vnd.oci.image.manifest.v1+json",
        "application/vnd.oci.image.index.v1+json",
    ] {
        assert!(ghostdock::manifests::is_recognized_media_type(&mt.to_string()));
    }
    assert!(!ghostdock::manifests::is_recognized_media_type(&"text/plain".to_string()));
}
