use ghostdock::config::Config;
use ghostdock::digest::sha256_digest;
use ghostdock::error::RegistryError;
use ghostdock::manifests::{validate_manifest_structure, ManifestInfo};
use ghostdock::protocol::{blob_location, manifest_location, upload_location, upload_range};
use ghostdock::range::format_content_range;
use ghostdock::registry::Registry;
use ghostdock::types::{Descriptor, ManifestV2};

const HELLO_DIGEST: &str = "sha256:5891b5b522d5df086d0ff0b110fbd9d21bb4fc7163af34d08286a2e846f6be03";
const EMPTY_DIGEST: &str = "sha256:e3b0c44298fc1c149afbf4c8996fb92427ae41e4649b934ca495991b7852b855";
const ZERO_DIGEST: &str = "sha256:0000000000000000000000000000000000000000000000000000000000000000";
const V2: &str = "application/vnd.docker.distribution.manifest.v2+json";

fn registry() -> Registry {
    Registry::new(1024 * 1024, 1 << 30)
}

fn push_blob(r: &mut Registry, name: &str, id: &str, body: &[u8]) -> String {
    r.initiate_blob_upload(name, id, None, 0).unwrap();
    r.upload_blob_chunk(name, id, None, body, 0).unwrap();
    r.complete_blob_upload(name, id, &sha256_digest(body), b"", 0).unwrap()
}

fn image_info(config: &str, layers: &[&str]) -> ManifestInfo {
    ManifestInfo {
        media_type: Some(V2.to_string()),
        config_digest: Some(config.to_string()),
        layer_digests: Some(layers.iter().map(|s| s.to_string()).collect()),
        has_manifest_list: false,
    }
}

#[test]
fn tiny_push_pull() {
    let mut r = registry();
    r.initiate_blob_upload("demo", "u1", None, 100).unwrap();
    assert_eq!(upload_location("demo", "u1"), "/v2/demo/blobs/uploads/u1");
    assert_eq!(upload_range(0), "0-0");
    let size = r.upload_blob_chunk("demo", "u1", None, b"hello\n", 100).unwrap();
    assert_eq!(upload_range(size), "0-5");
    let d = r.complete_blob_upload("demo", "u1", HELLO_DIGEST, b"", 100).unwrap();
    assert_eq!(d, HELLO_DIGEST);
    assert_eq!(blob_location("demo", &d), format!("/v2/demo/blobs/{}", HELLO_DIGEST));
    assert_eq!(r.get_blob("demo", HELLO_DIGEST).unwrap(), b"hello\n");
    assert_eq!(r.head_blob("demo", HELLO_DIGEST), Ok(6));
    assert_eq!(r.get_upload_status("demo", "u1", 100), Err(RegistryError::BlobUploadUnknown));
}

#[test]
fn digest_mismatch_keeps_session() {
    let mut r = registry();
    r.initiate_blob_upload("demo", "u1", None, 0).unwrap();
    r.upload_blob_chunk("demo", "u1", None, b"hello\n", 0).unwrap();
    let e = r.complete_blob_upload("demo", "u1", ZERO_DIGEST, b"", 0).unwrap_err();
    assert_eq!(e, RegistryError::DigestInvalid);
    assert_eq!(e.status_code(), 400);
    assert_eq!(e.error_code(), "DIGEST_INVALID");
    let size = r.get_upload_status("demo", "u1", 0).unwrap();
    assert_eq!(upload_range(size), "0-5");
    assert_eq!(r.get_blob("demo", ZERO_DIGEST), Err(RegistryError::BlobUnknown));
    assert_eq!(r.complete_blob_upload("demo", "u1", HELLO_DIGEST, b"", 0), Ok(HELLO_DIGEST.to_string()));
}

#[test]
fn resume_after_disconnect() {
    let mut r = registry();
    r.initiate_blob_upload("demo", "u1", None, 0).unwrap();
    assert_eq!(r.upload_blob_chunk("demo", "u1", None, b"hel", 0), Ok(3));
    assert_eq!(upload_range(r.get_upload_status("demo", "u1", 0).unwrap()), "0-2");
    assert_eq!(r.upload_blob_chunk("demo", "u1", Some(2), b"lo\n", 0), Err(RegistryError::RangeInvalid));
    assert_eq!(RegistryError::RangeInvalid.status_code(), 416);
    assert_eq!(r.upload_blob_chunk("demo", "u1", Some(3), b"lo\n", 0), Ok(6));
    assert_eq!(upload_range(6), "0-5");
    assert!(r.complete_blob_upload("demo", "u1", HELLO_DIGEST, b"", 0).is_ok());
    assert_eq!(r.get_blob("demo", HELLO_DIGEST).unwrap(), b"hello\n");
}

#[test]
fn range_read_of_blob() {
    let mut r = registry();
    push_blob(&mut r, "demo", "u1", b"hello\n");
    let part = r.get_blob_range("demo", HELLO_DIGEST, "bytes=1-3").unwrap();
    assert_eq!(part.data, b"ell");
    assert_eq!(format_content_range(part.start as u64, part.end as u64, Some(6)), "bytes 1-3/6");
    let last = r.get_blob_range("demo", HELLO_DIGEST, "bytes=5-").unwrap();
    assert_eq!(last.data, b"\n");
    assert_eq!(r.get_blob_range("demo", HELLO_DIGEST, "bytes=6-").err(), Some(RegistryError::RangeInvalid));
}

#[test]
fn manifest_referential_integrity() {
    let mut r = registry();
    let config = format!("sha256:{}", "a".repeat(64));
    let body = format!("{{\"schemaVersion\":2,\"mediaType\":\"{}\",\"config\":{{\"digest\":\"{}\"}},\"layers\":[]}}", V2, config);
    let info = image_info(&config, &[]);
    assert_eq!(r.put_manifest("demo", "v1", body.as_bytes(), &info), Err(RegistryError::ManifestBlobUnknown));
    assert_eq!(RegistryError::ManifestBlobUnknown.status_code(), 400);
    assert_eq!(r.get_manifest("demo", "v1").err(), Some(RegistryError::NameUnknown));
    assert_eq!(r.get_catalog(None, None).len(), 0);

    let blob = b"config bytes";
    let d = push_blob(&mut r, "demo", "u1", blob);
    let info = image_info(&d, &[]);
    let md = r.put_manifest("demo", "v1", body.as_bytes(), &info).unwrap();
    assert_eq!(md, sha256_digest(body.as_bytes()));
    assert_eq!(manifest_location("demo", &md), format!("/v2/demo/manifests/{}", md));
    let m = r.get_manifest("demo", "v1").unwrap();
    assert_eq!(m.content, body.as_bytes());
    assert_eq!(m.media_type, V2);
    assert_eq!(m.digest, md);
    let m2 = r.get_manifest("demo", &md).unwrap();
    assert_eq!(m2.content, m.content);
    assert_eq!(r.head_manifest("demo", "v1"), Ok((V2.to_string(), md.clone(), body.len())));
}

#[test]
fn tag_delete_vs_manifest_delete() {
    let mut r = registry();
    let c = push_blob(&mut r, "demo", "u1", b"cfg");
    let l = push_blob(&mut r, "demo", "u2", b"layer");
    let body = b"{\"schemaVersion\":2}";
    let info = image_info(&c, &[&l]);
    let d = r.put_manifest("demo", "a", body, &info).unwrap();
    assert_eq!(r.put_manifest("demo", "b", body, &info), Ok(d.clone()));
    assert_eq!(r.delete_manifest("demo", "a"), Ok(()));
    assert_eq!(r.get_manifest("demo", "b").unwrap().digest, d);
    assert_eq!(r.get_manifest("demo", "a").err(), Some(RegistryError::ManifestUnknown));
    assert_eq!(r.delete_manifest("demo", &d), Ok(()));
    assert_eq!(r.get_manifest("demo", "a").err(), Some(RegistryError::ManifestUnknown));
    assert_eq!(r.get_manifest("demo", "b").err(), Some(RegistryError::ManifestUnknown));
    assert_eq!(r.get_manifest("demo", &d).err(), Some(RegistryError::ManifestUnknown));
    assert_eq!(RegistryError::ManifestUnknown.error_code(), "MANIFEST_UNKNOWN");
}

#[test]
fn empty_blob_upload() {
    let mut r = registry();
    r.initiate_blob_upload("demo", "u1", None, 0).unwrap();
    assert_eq!(r.complete_blob_upload("demo", "u1", EMPTY_DIGEST, b"", 0), Ok(EMPTY_DIGEST.to_string()));
    assert_eq!(r.get_blob("demo", EMPTY_DIGEST).unwrap(), Vec::<u8>::new());
}

#[test]
fn chunked_equals_single_shot() {
    let body = b"0123456789";
    for k in 0..=body.len() {
        let mut r = registry();
        r.initiate_blob_upload("demo", "u", None, 0).unwrap();
        r.upload_blob_chunk("demo", "u", None, &body[..k], 0).unwrap();
        r.upload_blob_chunk("demo", "u", Some(k as u64), &body[k..], 0).unwrap();
        let d = r.complete_blob_upload("demo", "u", &sha256_digest(body), b"", 0).unwrap();
        assert_eq!(r.get_blob("demo", &d).unwrap(), body);
    }
}

#[test]
fn trailing_bytes_on_finalize() {
    let mut r = registry();
    r.initiate_blob_upload("demo", "u", None, 0).unwrap();
    r.upload_blob_chunk("demo", "u", None, b"hel", 0).unwrap();
    assert_eq!(r.complete_blob_upload("demo", "u", HELLO_DIGEST, b"lo\n", 0), Ok(HELLO_DIGEST.to_string()));
    assert_eq!(r.get_blob("demo", HELLO_DIGEST).unwrap(), b"hello\n");
}

#[test]
fn identical_uploads_share_one_blob() {
    let mut r = registry();
    push_blob(&mut r, "demo", "u1", b"hello\n");
    push_blob(&mut r, "other", "u2", b"hello\n");
    assert_eq!(r.store.blobs.len(), 1);
    assert_eq!(r.index.blobs.len(), 1);
    assert_eq!(r.get_blob("other", HELLO_DIGEST).unwrap(), b"hello\n");
    assert_eq!(r.delete_blob("demo", HELLO_DIGEST), Ok(()));
    assert_eq!(r.get_blob("demo", HELLO_DIGEST), Err(RegistryError::BlobUnknown));
    assert_eq!(r.get_blob("other", HELLO_DIGEST).unwrap(), b"hello\n");
    assert_eq!(r.delete_blob("other", HELLO_DIGEST), Ok(()));
    assert_eq!(r.store.blobs.len(), 0);
    assert_eq!(r.index.blobs.len(), 0);
}

#[test]
fn repeated_manifest_and_tag_puts() {
    let mut r = registry();
    let c = push_blob(&mut r, "demo", "u1", b"cfg");
    let info = image_info(&c, &[]);
    let body = b"{\"m\":1}";
    let d1 = r.put_manifest("demo", "latest", body, &info).unwrap();
    let d2 = r.put_manifest("demo", "latest", body, &info).unwrap();
    assert_eq!(d1, d2);
    assert_eq!(r.index.manifests.len(), 1);
    assert_eq!(r.index.tags.len(), 1);
    assert_eq!(r.put_manifest("demo", &d1, body, &info), Ok(d1.clone()));
    assert_eq!(r.index.manifests.len(), 1);
}

#[test]
fn manifest_errors() {
    let mut r = registry();
    let c = push_blob(&mut r, "demo", "u1", b"cfg");
    let info = image_info(&c, &[]);
    assert_eq!(r.put_manifest("Demo", "v1", b"{}", &info), Err(RegistryError::NameInvalid));
    assert_eq!(r.put_manifest("demo", "bad/tag", b"{}", &info), Err(RegistryError::TagInvalid));
    assert_eq!(r.put_manifest("demo", "sha256:xyz", b"{}", &info), Err(RegistryError::DigestInvalid));
    let no_type = ManifestInfo { media_type: None, ..image_info(&c, &[]) };
    assert_eq!(r.put_manifest("demo", "v1", b"{}", &no_type), Err(RegistryError::ManifestInvalid));
    let no_layers = ManifestInfo { layer_digests: None, ..image_info(&c, &[]) };
    assert_eq!(r.put_manifest("demo", "v1", b"{}", &no_layers), Err(RegistryError::ManifestInvalid));
    let mut small = Registry::new(4, 1 << 20);
    let c2 = push_blob(&mut small, "demo", "u1", b"cfg");
    let info2 = image_info(&c2, &[]);
    assert_eq!(small.put_manifest("demo", "v1", b"{\"x\"}", &info2), Err(RegistryError::SizeInvalid));
    assert!(small.put_manifest("demo", "v1", b"{\"\"}", &info2).is_ok());
    assert_eq!(r.get_manifest("nope", "v1").err(), Some(RegistryError::NameUnknown));
    assert_eq!(r.delete_manifest("demo", "missing"), Err(RegistryError::ManifestUnknown));
}

#[test]
fn manifest_structure_rules() {
    let list = ManifestInfo {
        media_type: Some("application/vnd.oci.image.index.v1+json".to_string()),
        config_digest: None,
        layer_digests: None,
        has_manifest_list: false,
    };
    assert_eq!(validate_manifest_structure(&list), Err(RegistryError::ManifestInvalid));
    let list = ManifestInfo { has_manifest_list: true, ..list };
    assert_eq!(validate_manifest_structure(&list), Ok(()));
    let other = ManifestInfo {
        media_type: Some("application/x-custom".to_string()),
        config_digest: None,
        layer_digests: None,
        has_manifest_list: false,
    };
    assert_eq!(validate_manifest_structure(&other), Ok(()));
    let m = ManifestV2 {
        schema_version: 2,
        media_type: V2.to_string(),
        config: Descriptor { media_type: "c".to_string(), size: 1, digest: "sha256:c".to_string(), urls: None, platform: None },
        layers: vec![Descriptor { media_type: "l".to_string(), size: 2, digest: "sha256:l".to_string(), urls: None, platform: None }],
    };
    let info = ManifestInfo::of_image_manifest(&m);
    assert_eq!(info.config_digest.as_deref(), Some("sha256:c"));
    assert_eq!(info.layer_digests, Some(vec!["sha256:l".to_string()]));
}

#[test]
fn upload_errors_and_expiry() {
    let mut r = Registry::new(1024, 10);
    assert_eq!(r.initiate_blob_upload("BAD", "u", None, 0), Err(RegistryError::NameInvalid));
    r.initiate_blob_upload("demo", "u", Some(4), 0).unwrap();
    assert_eq!(r.initiate_blob_upload("demo", "u", None, 0), Err(RegistryError::BlobUploadInvalid));
    assert_eq!(r.upload_blob_chunk("demo", "u", None, b"hello", 0), Err(RegistryError::SizeInvalid));
    assert_eq!(r.upload_blob_chunk("other", "u", None, b"h", 0), Err(RegistryError::BlobUploadUnknown));
    assert_eq!(r.upload_blob_chunk("demo", "u", None, b"hell", 0), Ok(4));
    assert_eq!(r.complete_blob_upload("demo", "u", "sha256:nothex", b"", 0), Err(RegistryError::DigestInvalid));
    assert_eq!(r.get_upload_status("demo", "u", 86400), Ok(4));
    assert_eq!(r.get_upload_status("demo", "u", 86401), Err(RegistryError::BlobUploadUnknown));
    r.expire_uploads(86400);
    assert!(r.get_upload_status("demo", "u", 0).is_ok());
    r.expire_uploads(86401);
    assert_eq!(r.get_upload_status("demo", "u", 0), Err(RegistryError::BlobUploadUnknown));

    r.initiate_blob_upload("demo", "v", None, 0).unwrap();
    assert_eq!(r.upload_blob_chunk("demo", "v", None, b"0123456789a", 0), Err(RegistryError::SizeInvalid));
    assert_eq!(r.cancel_upload("other", "v"), Err(RegistryError::BlobUploadUnknown));
    assert_eq!(r.cancel_upload("demo", "v"), Ok(()));
    assert_eq!(r.cancel_upload("demo", "v"), Ok(()));
    assert_eq!(r.get_upload_status("demo", "v", 0), Err(RegistryError::BlobUploadUnknown));
    assert_eq!(r.complete_blob_upload("demo", "v", EMPTY_DIGEST, b"", 0), Err(RegistryError::BlobUploadUnknown));
}

#[test]
fn random_upload_ids() {
    let mut r = registry();
    let a = r.start_blob_upload("demo", None, 0).unwrap();
    let b = r.start_blob_upload("demo", None, 0).unwrap();
    assert_eq!(a.len(), 36);
    assert_ne!(a, b);
    assert_eq!(r.get_upload_status("demo", &a, 0), Ok(0));
}

#[test]
fn tag_and_catalog_pages() {
    let mut r = registry();
    let c = push_blob(&mut r, "demo", "u1", b"cfg");
    let info = image_info(&c, &[]);
    for t in ["v3", "v1", "latest", "v2"] {
        r.put_manifest("demo", t, b"{}", &info).unwrap();
    }
    push_blob(&mut r, "alpha", "u2", b"x");
    assert_eq!(r.list_tags("demo", None, None).unwrap(), vec!["latest", "v1", "v2", "v3"]);
    assert_eq!(r.list_tags("demo", Some(2), None).unwrap(), vec!["latest", "v1"]);
    assert_eq!(r.list_tags("demo", Some(2), Some("v1")).unwrap(), vec!["v2", "v3"]);
    assert_eq!(r.list_tags("demo", Some(2), Some("v3")).unwrap(), Vec::<String>::new());
    assert_eq!(r.list_tags("demo", Some(0), None).unwrap(), Vec::<String>::new());
    assert_eq!(r.list_tags("nope", None, None), Err(RegistryError::NameUnknown));
    assert_eq!(r.list_tags("NOPE", None, None), Err(RegistryError::NameInvalid));
    assert_eq!(r.get_catalog(None, None), vec!["alpha", "demo"]);
    assert_eq!(r.get_catalog(Some(1), Some("alpha")), vec!["demo"]);
}

#[test]
fn registry_from_default_config() {
    let cfg = Config::default();
    assert_eq!(cfg.server.port, 5000);
    assert_eq!(cfg.registry.max_manifest_size, 1024 * 1024);
    let r = Registry::from_config(&cfg);
    assert_eq!(r.max_manifest_size, 1024 * 1024);
    assert_eq!(r.max_upload_size, 5 * 1024 * 1024 * 1024);
}

#[test]
fn manifest_info_from_document_fields() {
    let info = ManifestInfo::from_document(
        None,
        Some(V2.to_string()),
        Some("sha256:c".to_string()),
        Some(vec![Some("sha256:a".to_string()), None, Some("sha256:b".to_string())]),
        false,
    );
    assert_eq!(info.media_type.as_deref(), Some(V2));
    assert_eq!(info.layer_digests, Some(vec!["sha256:a".to_string(), "sha256:b".to_string()]));
    let declared = ManifestInfo::from_document(Some("x/y".to_string()), Some(V2.to_string()), None, None, true);
    assert_eq!(declared.media_type.as_deref(), Some("x/y"));
    assert!(declared.layer_digests.is_none());
    assert!(declared.has_manifest_list);
}

#[test]
fn cancel_of_unknown_upload_changes_nothing() {
    let mut r = registry();
    push_blob(&mut r, "demo", "u1", b"x");
    r.initiate_blob_upload("demo", "u2", None, 0).unwrap();
    assert_eq!(r.cancel_upload("demo", "zz"), Ok(()));
    assert_eq!(r.get_upload_status("demo", "u2", 0), Ok(0));
    assert_eq!(r.get_catalog(None, None), vec!["demo"]);
}

#[test]
fn start_upload_name_errors() {
    let mut r = registry();
    assert_eq!(r.start_blob_upload("Bad Name", None, 0), Err(RegistryError::NameInvalid));
    assert!(r.start_blob_upload("demo", Some(10), 0).is_ok());
}
