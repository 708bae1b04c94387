//! Manifest documents and API responses, as plain values.
use vstd::prelude::*;
use crate::manifests::ManifestInfo;

verus! {

/// A content descriptor: media type, size and digest of referenced content.
pub struct Descriptor {
    pub media_type: String,
    pub size: u64,
    pub digest: String,
    pub urls: Option<Vec<String>>,
    pub platform: Option<Platform>,
}

/// The platform an image entry is built for.
pub struct Platform {
    pub architecture: String,
    pub os: String,
    pub os_version: Option<String>,
    pub os_features: Option<Vec<String>>,
    pub variant: Option<String>,
}

/// A Docker image manifest, schema 2.
pub struct ManifestV2 {
    pub schema_version: u32,
    pub media_type: String,
    pub config: Descriptor,
    pub layers: Vec<Descriptor>,
}

/// A Docker manifest list (multi-platform).
pub struct ManifestList {
    pub schema_version: u32,
    pub media_type: String,
    pub manifests: Vec<ManifestListEntry>,
}

/// One platform entry of a manifest list.
pub struct ManifestListEntry {
    pub media_type: String,
    pub size: u64,
    pub digest: String,
    pub platform: Option<Platform>,
}

/// An OCI image manifest.
pub struct OciManifest {
    pub schema_version: u32,
    pub media_type: String,
    pub config: Descriptor,
    pub layers: Vec<Descriptor>,
}

/// An OCI image index.
pub struct OciIndex {
    pub schema_version: u32,
    pub media_type: String,
    pub manifests: Vec<Descriptor>,
}

/// A history entry of a schema 1 manifest.
pub struct V1History {
    pub v1_compatibility: String,
}

/// A layer entry of a schema 1 manifest.
pub struct V1Layer {
    pub blob_sum: String,
}

/// The body of a tag listing.
pub struct TagsResponse {
    pub name: String,
    pub tags: Vec<String>,
}

/// The body of a health check.
pub struct HealthResponse {
    pub status: String,
    pub version: String,
    pub uptime: u64,
    pub database: String,
    pub storage: String,
}

/// The digests of a list of descriptors, in order.
pub fn descriptor_digests(ds: &Vec<Descriptor>) -> (r: Vec<String>)
    ensures
        r@.len() == ds@.len(),
        forall|i: int| 0 <= i < r@.len() ==> #[trigger] r@[i] == ds@[i].digest,
{
    let mut out: Vec<String> = Vec::new();
    let mut i: usize = 0;
    while i < ds.len()
        invariant
            i <= ds@.len(),
            out@.len() == i,
            forall|j: int| 0 <= j < i ==> #[trigger] out@[j] == ds@[j].digest,
        decreases ds@.len() - i,
    {
        out.push(ds[i].digest.clone());
        i = i + 1;
    }
    out
}

impl ManifestInfo {
    /// What the manifest checks read from a Docker image manifest.
    pub fn of_image_manifest(m: &ManifestV2) -> (r: ManifestInfo)
        ensures
            r.media_type == Some(m.media_type),
            r.config_digest == Some(m.config.digest),
            r.layer_digests is Some && r.layer_digests->0@.len() == m.layers@.len(),
            forall|i: int|
                0 <= i < m.layers@.len() ==> #[trigger] r.layer_digests->0@[i] == m.layers@[i].digest,
            !r.has_manifest_list,
    {
        ManifestInfo {
            media_type: Some(m.media_type.clone()),
            config_digest: Some(m.config.digest.clone()),
            layer_digests: Some(descriptor_digests(&m.layers)),
            has_manifest_list: false,
        }
    }

    /// What the manifest checks read from an OCI image manifest.
    pub fn of_oci_manifest(m: &OciManifest) -> (r: ManifestInfo)
        ensures
            r.media_type == Some(m.media_type),
            r.config_digest == Some(m.config.digest),
            r.layer_digests is Some && r.layer_digests->0@.len() == m.layers@.len(),
            forall|i: int|
                0 <= i < m.layers@.len() ==> #[trigger] r.layer_digests->0@[i] == m.layers@[i].digest,
            !r.has_manifest_list,
    {
        ManifestInfo {
            media_type: Some(m.media_type.clone()),
            config_digest: Some(m.config.digest.clone()),
            layer_digests: Some(descriptor_digests(&m.layers)),
            has_manifest_list: false,
        }
    }

    /// What the manifest checks read from a manifest list.
    pub fn of_manifest_list(m: &ManifestList) -> (r: ManifestInfo)
        ensures
            r.media_type == Some(m.media_type),
            r.config_digest is None,
            r.layer_digests is None,
            r.has_manifest_list,
    {
        ManifestInfo {
            media_type: Some(m.media_type.clone()),
            config_digest: None,
            layer_digests: None,
            has_manifest_list: true,
        }
    }

    /// What the manifest checks read from an OCI image index.
    pub fn of_oci_index(m: &OciIndex) -> (r: ManifestInfo)
        ensures
            r.media_type == Some(m.media_type),
            r.config_digest is None,
            r.layer_digests is None,
            r.has_manifest_list,
    {
        ManifestInfo {
            media_type: Some(m.media_type.clone()),
            config_digest: None,
            layer_digests: None,
            has_manifest_list: true,
        }
    }
}

} // verus!
