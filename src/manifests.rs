use vstd::prelude::*;
use vstd::slice::slice_to_vec;
use crate::digest::{digest_of, is_digest_form, sha256_digest};
use crate::error::RegistryError;
use crate::model::{
    find_link, find_manifest, find_tag, has_manifest, has_tag, lemma_manifest_at,
    lemma_manifest_push, lemma_manifest_remove, lemma_manifest_update, lemma_tag_at,
    lemma_tag_push, lemma_tag_remove, lemma_tag_update, manifest_of, tag_target, Manifest, Tag,
};
use crate::registry::{tag_well_placed, Registry};
use crate::validate::{
    has_digest_prefix, is_digest_reference, is_valid_repository_name, is_valid_tag_name,
    validate_digest, validate_repository_name, validate_tag_name,
};

verus! {

/// What the manifest endpoints read from a manifest document: its declared
/// media type, the digest of its `config`, the digests of its `layers`, and
/// whether it holds a `manifests` array.
pub struct ManifestInfo {
    pub media_type: Option<String>,
    pub config_digest: Option<String>,
    pub layer_digests: Option<Vec<String>>,
    pub has_manifest_list: bool,
}

pub open spec fn docker_manifest_v1() -> Seq<char> {
    "application/vnd.docker.distribution.manifest.v1+json"@
}

pub open spec fn docker_manifest_v2() -> Seq<char> {
    "application/vnd.docker.distribution.manifest.v2+json"@
}

pub open spec fn docker_manifest_list() -> Seq<char> {
    "application/vnd.docker.distribution.manifest.list.v2+json"@
}

pub open spec fn oci_image_manifest() -> Seq<char> {
    "application/vnd.oci.image.manifest.v1+json"@
}

pub open spec fn oci_image_index() -> Seq<char> {
    "application/vnd.oci.image.index.v1+json"@
}

/// A media type of an image manifest (config and layers).
pub open spec fn is_image_type(mt: Seq<char>) -> bool {
    mt == docker_manifest_v2() || mt == oci_image_manifest()
}

/// A media type of a manifest list or image index.
pub open spec fn is_index_type(mt: Seq<char>) -> bool {
    mt == docker_manifest_list() || mt == oci_image_index()
}

/// One of the recognised manifest media types.
pub open spec fn is_recognized_type(mt: Seq<char>) -> bool {
    mt == docker_manifest_v1() || is_image_type(mt) || is_index_type(mt)
}

/// The structural check of a manifest: a declared media type; config and
/// layers for an image manifest; a manifests array for a list or index.
/// Other media types pass through.
pub open spec fn structure_outcome(info: ManifestInfo) -> Result<(), RegistryError> {
    match info.media_type {
        None => Err(RegistryError::ManifestInvalid),
        Some(mt) => if is_image_type(mt@) && (info.config_digest is None || info.layer_digests is None) {
            Err(RegistryError::ManifestInvalid)
        } else if is_index_type(mt@) && !info.has_manifest_list {
            Err(RegistryError::ManifestInvalid)
        } else {
            Ok(())
        },
    }
}

/// The digests of the entries that carry one, in order.
pub open spec fn present_digests(layers: Seq<Option<String>>) -> Seq<String>
    decreases layers.len(),
{
    if layers.len() == 0 {
        Seq::empty()
    } else {
        let rest = present_digests(layers.drop_last());
        match layers.last() {
            Some(d) => rest.push(d),
            None => rest,
        }
    }
}

impl ManifestInfo {
    /// The manifest fields from what a document holds: its declared media
    /// type, else the request's `Content-Type`; its config digest; the
    /// digests of the layers that carry one; whether it has a manifests
    /// array.
    pub fn from_document(
        declared_type: Option<String>,
        content_type: Option<String>,
        config_digest: Option<String>,
        layers: Option<Vec<Option<String>>>,
        has_manifest_list: bool,
    ) -> (r: ManifestInfo)
        ensures
            r.media_type == (if declared_type is Some {
                declared_type
            } else {
                content_type
            }),
            r.config_digest == config_digest,
            r.has_manifest_list == has_manifest_list,
            layers is None ==> r.layer_digests is None,
            layers is Some ==> r.layer_digests is Some && r.layer_digests->0@ == present_digests(
                layers->0@,
            ),
    {
        let media_type = match declared_type {
            Some(t) => Some(t),
            None => content_type,
        };
        let layer_digests = match layers {
            None => None,
            Some(ls) => {
                let mut out: Vec<String> = Vec::new();
                let mut k: usize = 0;
                while k < ls.len()
                    invariant
                        k <= ls@.len(),
                        out@ == present_digests(ls@.subrange(0, k as int)),
                    decreases ls@.len() - k,
                {
                    assert(ls@.subrange(0, k + 1).drop_last() =~= ls@.subrange(0, k as int));
                    match &ls[k] {
                        Some(d) => out.push(d.clone()),
                        None => {},
                    }
                    k = k + 1;
                }
                assert(ls@.subrange(0, ls@.len() as int) =~= ls@);
                Some(out)
            },
        };
        ManifestInfo { media_type, config_digest, layer_digests, has_manifest_list }
    }
}

/// Whether `mt` is one of the recognised manifest media types.
pub fn is_recognized_media_type(mt: &String) -> (r: bool)
    ensures
        r == is_recognized_type(mt@),
{
    *mt == String::from_str("application/vnd.docker.distribution.manifest.v1+json") || *mt
        == String::from_str("application/vnd.docker.distribution.manifest.v2+json") || *mt
        == String::from_str("application/vnd.oci.image.manifest.v1+json") || *mt
        == String::from_str("application/vnd.docker.distribution.manifest.list.v2+json") || *mt
        == String::from_str("application/vnd.oci.image.index.v1+json")
}

/// Checks the structure of a manifest; `ManifestInvalid` where it fails.
pub fn validate_manifest_structure(info: &ManifestInfo) -> (r: Result<(), RegistryError>)
    ensures
        r == structure_outcome(*info),
{
    match &info.media_type {
        None => Err(RegistryError::ManifestInvalid),
        Some(mt) => {
            let image = *mt == String::from_str(
                "application/vnd.docker.distribution.manifest.v2+json",
            ) || *mt == String::from_str("application/vnd.oci.image.manifest.v1+json");
            let index = *mt == String::from_str(
                "application/vnd.docker.distribution.manifest.list.v2+json",
            ) || *mt == String::from_str("application/vnd.oci.image.index.v1+json");
            if image && (info.config_digest.is_none() || info.layer_digests.is_none()) {
                Err(RegistryError::ManifestInvalid)
            } else if index && !info.has_manifest_list {
                Err(RegistryError::ManifestInvalid)
            } else {
                Ok(())
            }
        },
    }
}

impl Registry {
    /// Every blob that the manifest refers to is linked to repository `name`.
    pub open spec fn refs_linked(self, name: Seq<char>, info: ManifestInfo) -> bool {
        &&& (info.config_digest is Some ==> self.is_linked(name, info.config_digest->0@))
        &&& (info.layer_digests is Some ==> forall|i: int|
            0 <= i < info.layer_digests->0@.len() ==> self.is_linked(
                name,
                #[trigger] info.layer_digests->0@[i]@,
            ))
    }

    /// The decision of `put_manifest`.
    pub open spec fn put_manifest_outcome(
        self,
        name: Seq<char>,
        reference: Seq<char>,
        size: nat,
        info: ManifestInfo,
    ) -> Result<(), RegistryError> {
        if !is_valid_repository_name(name) {
            Err(RegistryError::NameInvalid)
        } else if has_digest_prefix(reference) && !is_digest_form(reference) {
            Err(RegistryError::DigestInvalid)
        } else if !has_digest_prefix(reference) && !is_valid_tag_name(reference) {
            Err(RegistryError::TagInvalid)
        } else if size > self.max_manifest_size {
            Err(RegistryError::SizeInvalid)
        } else if structure_outcome(info) is Err {
            Err(RegistryError::ManifestInvalid)
        } else if !self.refs_linked(name, info) {
            Err(RegistryError::ManifestBlobUnknown)
        } else {
            Ok(())
        }
    }

    /// Whether every blob the manifest refers to is linked to `name`.
    fn references_linked(&self, name: &String, info: &ManifestInfo) -> (r: bool)
        ensures
            r == self.refs_linked(name@, *info),
    {
        if let Some(c) = &info.config_digest {
            if find_link(&self.index.links, name, c).is_none() {
                return false;
            }
        }
        if let Some(layers) = &info.layer_digests {
            let mut i: usize = 0;
            while i < layers.len()
                invariant
                    i <= layers@.len(),
                    info.layer_digests == Some(*layers),
                    forall|j: int| 0 <= j < i ==> self.is_linked(name@, #[trigger] layers@[j]@),
                decreases layers@.len() - i,
            {
                if find_link(&self.index.links, name, &layers[i]).is_none() {
                    assert(info.layer_digests->0@[i as int]@ == layers@[i as int]@);
                    return false;
                }
                i = i + 1;
            }
        }
        true
    }

    /// Stores the manifest `body` under `(r, d)`, replacing what was stored
    /// under that key.
    fn upsert_manifest(&mut self, r: String, d: String, mt: String, body: &[u8])
        requires
            old(self).wf(),
            d@ == digest_of(body@),
            is_digest_form(d@),
        ensures
            final(self).wf(),
            has_manifest(final(self).index.manifests@, r@, d@),
            manifest_of(final(self).index.manifests@, r@, d@).content@ == body@,
            manifest_of(final(self).index.manifests@, r@, d@).media_type@ == mt@,
            has_manifest(old(self).index.manifests@, r@, d@) ==> final(self).index.manifests@.len() == old(self).index.manifests@.len(),
            forall|q: Seq<char>, e: Seq<char>|
                !(q == r@ && e == d@) ==> (#[trigger] has_manifest(
                    final(self).index.manifests@,
                    q,
                    e,
                ) <==> has_manifest(old(self).index.manifests@, q, e)) && (has_manifest(
                    old(self).index.manifests@,
                    q,
                    e,
                ) ==> manifest_of(final(self).index.manifests@, q, e) == manifest_of(
                    old(self).index.manifests@,
                    q,
                    e,
                )),
            final(self).store == old(self).store,
            final(self).index.repositories == old(self).index.repositories,
            final(self).index.blobs == old(self).index.blobs,
            final(self).index.links == old(self).index.links,
            final(self).index.tags == old(self).index.tags,
            final(self).index.uploads == old(self).index.uploads,
            final(self).max_manifest_size == old(self).max_manifest_size,
            final(self).max_upload_size == old(self).max_upload_size,
    {
        let ghost a = *self;
        let m = Manifest { repository: r.clone(), digest: d.clone(), media_type: mt, content: slice_to_vec(body) };
        match find_manifest(&self.index.manifests, &r, &d) {
            Some(i) => {
                proof {
                    lemma_manifest_update(a.index.manifests@, i as int, m);
                }
                self.index.manifests.set(i, m);
            },
            None => {
                proof {
                    lemma_manifest_push(a.index.manifests@, m);
                }
                self.index.manifests.push(m);
            },
        }
        proof {
            let ms = self.index.manifests@;
            assert forall|k: int| 0 <= k < ms.len() implies #[trigger] ms[k].digest@ == digest_of(
                ms[k].content@,
            ) && is_digest_form(ms[k].digest@) by {
                if k < a.index.manifests@.len() && !(ms[k].repository@ == r@ && ms[k].digest@ == d@) {
                    assert(ms[k] == a.index.manifests@[k]);
                }
            }
            let ts = self.index.tags@;
            assert forall|k: int| 0 <= k < ts.len() implies has_manifest(
                ms,
                #[trigger] ts[k].repository@,
                ts[k].manifest_digest@,
            ) by {
                assert(has_manifest(a.index.manifests@, ts[k].repository@, ts[k].manifest_digest@));
            }
        }
    }

    /// Points tag `t` of repository `r` at manifest digest `d`.
    fn upsert_tag(&mut self, r: String, t: String, d: String)
        requires
            old(self).wf(),
            has_manifest(old(self).index.manifests@, r@, d@),
            old(self).has_repository(r@),
            is_valid_repository_name(r@),
            is_valid_tag_name(t@),
        ensures
            final(self).wf(),
            has_tag(final(self).index.tags@, r@, t@),
            tag_target(final(self).index.tags@, r@, t@) == d@,
            forall|q: Seq<char>, u: Seq<char>|
                !(q == r@ && u == t@) ==> (#[trigger] has_tag(final(self).index.tags@, q, u)
                    <==> has_tag(old(self).index.tags@, q, u)),
            forall|q: Seq<char>, u: Seq<char>|
                !(q == r@ && u == t@) && has_tag(old(self).index.tags@, q, u) ==> #[trigger] tag_target(
                    final(self).index.tags@,
                    q,
                    u,
                ) == tag_target(old(self).index.tags@, q, u),
            final(self).store == old(self).store,
            final(self).index.repositories == old(self).index.repositories,
            final(self).index.blobs == old(self).index.blobs,
            final(self).index.links == old(self).index.links,
            final(self).index.manifests == old(self).index.manifests,
            final(self).index.uploads == old(self).index.uploads,
            final(self).max_manifest_size == old(self).max_manifest_size,
            final(self).max_upload_size == old(self).max_upload_size,
    {
        let ghost a = *self;
        let x = Tag { repository: r.clone(), name: t.clone(), manifest_digest: d };
        match find_tag(&self.index.tags, &r, &t) {
            Some(i) => {
                proof {
                    lemma_tag_update(a.index.tags@, i as int, x);
                }
                self.index.tags.set(i, x);
            },
            None => {
                proof {
                    lemma_tag_push(a.index.tags@, x);
                }
                self.index.tags.push(x);
            },
        }
        proof {
            let ts = self.index.tags@;
            assert forall|k: int| 0 <= k < ts.len() implies has_manifest(
                self.index.manifests@,
                #[trigger] ts[k].repository@,
                ts[k].manifest_digest@,
            ) by {
                if k < a.index.tags@.len() && !(ts[k].repository@ == r@ && ts[k].name@ == t@) {
                    assert(ts[k] == a.index.tags@[k]);
                }
            }
            let rs = self.index.repositories@;
            assert forall|k: int| 0 <= k < ts.len() implies #[trigger] tag_well_placed(rs, ts[k]) by {
                if k < a.index.tags@.len() && !(ts[k].repository@ == r@ && ts[k].name@ == t@) {
                    assert(ts[k] == a.index.tags@[k]);
                } else {
                    let j = choose|j: int| 0 <= j < rs.len() && rs[j]@ == r@;
                }
            }
        }
    }

    /// Stores a manifest under repository `name`, creating the repository
    /// on first push. When `reference` is a tag, the tag is pointed at the
    /// manifest. Every blob the manifest refers to must be linked to the
    /// repository already. Returns the manifest's digest.
    pub fn put_manifest(&mut self, name: &str, reference: &str, body: &[u8], info: &ManifestInfo) -> (r:
        Result<String, RegistryError>)
        requires
            old(self).wf(),
        ensures
            final(self).wf(),
            r is Ok <==> old(self).put_manifest_outcome(name@, reference@, body@.len(), *info) is Ok,
            r is Err ==> *final(self) == *old(self) && r->Err_0 == old(self).put_manifest_outcome(
                name@,
                reference@,
                body@.len(),
                *info,
            )->Err_0,
            r is Ok ==> {
                let d = digest_of(body@);
                let ms = final(self).index.manifests@;
                let oms = old(self).index.manifests@;
                &&& r->Ok_0@ == d
                &&& old(self).refs_linked(name@, *info)
                &&& forall|n: Seq<char>| #[trigger]
                    final(self).has_repository(n) <==> old(self).has_repository(n) || n == name@
                &&& has_manifest(ms, name@, d)
                &&& manifest_of(ms, name@, d).content@ == body@
                &&& info.media_type is Some && manifest_of(ms, name@, d).media_type@
                    == info.media_type->0@
                &&& has_manifest(oms, name@, d) ==> ms.len() == oms.len()
                &&& forall|q: Seq<char>, e: Seq<char>|
                    !(q == name@ && e == d) ==> (#[trigger] has_manifest(ms, q, e) <==> has_manifest(
                        oms,
                        q,
                        e,
                    )) && (has_manifest(oms, q, e) ==> manifest_of(ms, q, e) == manifest_of(
                        oms,
                        q,
                        e,
                    ))
                &&& has_digest_prefix(reference@) ==> final(self).index.tags == old(self).index.tags
                &&& !has_digest_prefix(reference@) ==> has_tag(
                    final(self).index.tags@,
                    name@,
                    reference@,
                ) && tag_target(final(self).index.tags@, name@, reference@) == d
                &&& forall|q: Seq<char>, u: Seq<char>|
                    !(q == name@ && u == reference@) ==> (#[trigger] has_tag(
                        final(self).index.tags@,
                        q,
                        u,
                    ) <==> has_tag(old(self).index.tags@, q, u))
                &&& forall|q: Seq<char>, u: Seq<char>|
                    !(q == name@ && u == reference@) && has_tag(old(self).index.tags@, q, u)
                        ==> #[trigger] tag_target(final(self).index.tags@, q, u) == tag_target(
                        old(self).index.tags@,
                        q,
                        u,
                    )
                &&& final(self).store == old(self).store
                &&& final(self).index.blobs == old(self).index.blobs
                &&& final(self).index.links == old(self).index.links
                &&& final(self).index.uploads == old(self).index.uploads
                &&& final(self).max_manifest_size == old(self).max_manifest_size
                &&& final(self).max_upload_size == old(self).max_upload_size
            },
    {
        validate_repository_name(name)?;
        let is_dig = is_digest_reference(reference);
        if is_dig {
            validate_digest(reference)?;
        } else {
            validate_tag_name(reference)?;
        }
        if body.len() > self.max_manifest_size {
            return Err(RegistryError::SizeInvalid);
        }
        validate_manifest_structure(info)?;
        let names = String::from_str(name);
        if !self.references_linked(&names, info) {
            return Err(RegistryError::ManifestBlobUnknown);
        }
        let mt = match &info.media_type {
            Some(m) => m.clone(),
            None => return Err(RegistryError::ManifestInvalid),
        };
        let d = sha256_digest(body);
        let ghost a = *self;
        let created = self.get_or_create_repository(name);
        assert(created is Ok);
        let ghost a1 = *self;
        self.upsert_manifest(names.clone(), d.clone(), mt, body);
        let ghost a2 = *self;
        if !is_dig {
            proof {
                let ri = choose|ri: int|
                    0 <= ri < a1.index.repositories@.len() && a1.index.repositories@[ri]@ == name@;
                assert(self.index.repositories@[ri]@ == name@);
            }
            self.upsert_tag(names, String::from_str(reference), d.clone());
        }
        proof {
            assert(a1.index.manifests == a.index.manifests);
            assert(a2.index.repositories == a1.index.repositories);
            assert(self.index.repositories == a1.index.repositories);
            assert forall|m: Seq<char>| #[trigger]
                self.has_repository(m) <==> a.has_repository(m) || m == name@ by {
                assert(self.has_repository(m) == a1.has_repository(m));
            }
            assert(self.index.manifests == a2.index.manifests);
            assert(a1.index.links == a.index.links);
        }
        Ok(d)
    }

    /// The decision shared by the manifest reads of repository `name`.
    pub open spec fn manifest_read_outcome(self, name: Seq<char>, reference: Seq<char>) -> Result<
        (),
        RegistryError,
    > {
        if !is_valid_repository_name(name) {
            Err(RegistryError::NameInvalid)
        } else if !self.has_repository(name) {
            Err(RegistryError::NameUnknown)
        } else if has_digest_prefix(reference) {
            if !is_digest_form(reference) {
                Err(RegistryError::DigestInvalid)
            } else if !has_manifest(self.index.manifests@, name, reference) {
                Err(RegistryError::ManifestUnknown)
            } else {
                Ok(())
            }
        } else {
            if !is_valid_tag_name(reference) {
                Err(RegistryError::TagInvalid)
            } else if !has_tag(self.index.tags@, name, reference) {
                Err(RegistryError::ManifestUnknown)
            } else {
                Ok(())
            }
        }
    }

    /// The digest that a reference names: itself, or the tag's target.
    pub open spec fn resolve(self, name: Seq<char>, reference: Seq<char>) -> Seq<char> {
        if has_digest_prefix(reference) {
            reference
        } else {
            tag_target(self.index.tags@, name, reference)
        }
    }

    /// Position of the manifest that `reference` names in repository `name`.
    fn manifest_position(&self, name: &str, reference: &str) -> (r: Result<usize, RegistryError>)
        requires
            self.wf(),
        ensures
            match self.manifest_read_outcome(name@, reference@) {
                Err(e) => r == Err::<usize, RegistryError>(e),
                Ok(_) => r is Ok && r->Ok_0 < self.index.manifests@.len() && has_manifest(
                    self.index.manifests@,
                    name@,
                    self.resolve(name@, reference@),
                ) && self.index.manifests@[r->Ok_0 as int] == manifest_of(
                    self.index.manifests@,
                    name@,
                    self.resolve(name@, reference@),
                ) && self.index.manifests@[r->Ok_0 as int].digest@ == self.resolve(
                    name@,
                    reference@,
                ),
            },
    {
        validate_repository_name(name)?;
        let names = String::from_str(name);
        if !self.repository_exists(&names) {
            return Err(RegistryError::NameUnknown);
        }
        let d = if is_digest_reference(reference) {
            validate_digest(reference)?;
            String::from_str(reference)
        } else {
            validate_tag_name(reference)?;
            let t = String::from_str(reference);
            match find_tag(&self.index.tags, &names, &t) {
                Some(j) => {
                    proof {
                        lemma_tag_at(self.index.tags@, j as int);
                    }
                    self.index.tags[j].manifest_digest.clone()
                },
                None => return Err(RegistryError::ManifestUnknown),
            }
        };
        match find_manifest(&self.index.manifests, &names, &d) {
            Some(i) => {
                proof {
                    lemma_manifest_at(self.index.manifests@, i as int);
                }
                Ok(i)
            },
            None => Err(RegistryError::ManifestUnknown),
        }
    }

    /// The manifest that `reference` (a digest or a tag) names in
    /// repository `name`, as it was stored.
    pub fn get_manifest(&self, name: &str, reference: &str) -> (r: Result<Manifest, RegistryError>)
        requires
            self.wf(),
        ensures
            match self.manifest_read_outcome(name@, reference@) {
                Err(e) => r is Err && r->Err_0 == e,
                Ok(_) => {
                    let m = manifest_of(self.index.manifests@, name@, self.resolve(name@, reference@));
                    &&& r is Ok
                    &&& r->Ok_0.repository@ == name@
                    &&& r->Ok_0.digest@ == self.resolve(name@, reference@)
                    &&& r->Ok_0.media_type@ == m.media_type@
                    &&& r->Ok_0.content@ == m.content@
                    &&& r->Ok_0.digest@ == digest_of(r->Ok_0.content@)
                },
            },
    {
        let i = self.manifest_position(name, reference)?;
        let m = &self.index.manifests[i];
        Ok(
            Manifest {
                repository: m.repository.clone(),
                digest: m.digest.clone(),
                media_type: m.media_type.clone(),
                content: slice_to_vec(m.content.as_slice()),
            },
        )
    }

    /// Media type, digest and size of the manifest that `reference` names.
    pub fn head_manifest(&self, name: &str, reference: &str) -> (r: Result<
        (String, String, usize),
        RegistryError,
    >)
        requires
            self.wf(),
        ensures
            match self.manifest_read_outcome(name@, reference@) {
                Err(e) => r is Err && r->Err_0 == e,
                Ok(_) => {
                    let m = manifest_of(self.index.manifests@, name@, self.resolve(name@, reference@));
                    &&& r is Ok
                    &&& r->Ok_0.0@ == m.media_type@
                    &&& r->Ok_0.1@ == self.resolve(name@, reference@)
                    &&& r->Ok_0.2 == m.content@.len()
                },
            },
    {
        let i = self.manifest_position(name, reference)?;
        let m = &self.index.manifests[i];
        Ok((m.media_type.clone(), m.digest.clone(), m.content.len()))
    }

    /// Drops every tag of repository `name` that points at digest `d`.
    fn drop_tags_of(&mut self, name: &String, d: &String)
        requires
            old(self).wf(),
        ensures
            final(self).store == old(self).store,
            final(self).index.repositories == old(self).index.repositories,
            final(self).index.blobs == old(self).index.blobs,
            final(self).index.links == old(self).index.links,
            final(self).index.manifests == old(self).index.manifests,
            final(self).index.uploads == old(self).index.uploads,
            final(self).max_manifest_size == old(self).max_manifest_size,
            final(self).max_upload_size == old(self).max_upload_size,
            crate::model::tag_keys_unique(final(self).index.tags@),
            forall|q: Seq<char>, u: Seq<char>| #[trigger]
                has_tag(final(self).index.tags@, q, u) <==> has_tag(old(self).index.tags@, q, u)
                    && !(q == name@ && tag_target(old(self).index.tags@, q, u) == d@),
            forall|q: Seq<char>, u: Seq<char>| #[trigger]
                has_tag(final(self).index.tags@, q, u) ==> tag_target(final(self).index.tags@, q, u)
                    == tag_target(old(self).index.tags@, q, u),
    {
        let ghost a = *self;
        let mut k: usize = 0;
        while k < self.index.tags.len()
            invariant
                k <= self.index.tags@.len(),
                self.store == a.store,
                self.index.repositories == a.index.repositories,
                self.index.blobs == a.index.blobs,
                self.index.links == a.index.links,
                self.index.manifests == a.index.manifests,
                self.index.uploads == a.index.uploads,
                self.max_manifest_size == a.max_manifest_size,
                self.max_upload_size == a.max_upload_size,
                crate::model::tag_keys_unique(self.index.tags@),
                forall|j: int|
                    0 <= j < k ==> !(#[trigger] self.index.tags@[j].repository@ == name@
                        && self.index.tags@[j].manifest_digest@ == d@),
                forall|q: Seq<char>, u: Seq<char>| #[trigger]
                    has_tag(self.index.tags@, q, u) ==> has_tag(a.index.tags@, q, u) && tag_target(
                        self.index.tags@,
                        q,
                        u,
                    ) == tag_target(a.index.tags@, q, u),
                forall|q: Seq<char>, u: Seq<char>| #[trigger]
                    has_tag(a.index.tags@, q, u) && !(q == name@ && tag_target(a.index.tags@, q, u)
                        == d@) ==> has_tag(self.index.tags@, q, u),
            decreases self.index.tags@.len() - k,
        {
            if self.index.tags[k].repository == *name && self.index.tags[k].manifest_digest == *d {
                let ghost b = self.index.tags@;
                proof {
                    lemma_tag_remove(b, k as int);
                    lemma_tag_at(b, k as int);
                }
                self.index.tags.remove(k);
                proof {
                    let c = self.index.tags@;
                    assert forall|j: int|
                        0 <= j < k implies !(#[trigger] c[j].repository@ == name@
                        && c[j].manifest_digest@ == d@) by {
                        assert(c[j] == b[j]);
                    }
                    assert forall|q: Seq<char>, u: Seq<char>| #[trigger]
                        has_tag(a.index.tags@, q, u) && !(q == name@ && tag_target(
                            a.index.tags@,
                            q,
                            u,
                        ) == d@) implies has_tag(c, q, u) by {
                        assert(has_tag(b, q, u));
                        if q == b[k as int].repository@ && u == b[k as int].name@ {
                            assert(tag_target(b, q, u) == d@);
                        }
                    }
                }
            } else {
                k = k + 1;
            }
        }
        proof {
            let c = self.index.tags@;
            assert forall|q: Seq<char>, u: Seq<char>| #[trigger]
                has_tag(c, q, u) implies !(q == name@ && tag_target(a.index.tags@, q, u) == d@) by {
                let j = choose|j: int| 0 <= j < c.len() && c[j].repository@ == q && c[j].name@ == u;
                lemma_tag_at(c, j);
            }
        }
    }

    /// Deletes what `reference` names in repository `name`: a manifest by
    /// digest, with every tag that points at it, or a tag alone.
    pub fn delete_manifest(&mut self, name: &str, reference: &str) -> (r: Result<(), RegistryError>)
        requires
            old(self).wf(),
        ensures
            final(self).wf(),
            match old(self).manifest_read_outcome(name@, reference@) {
                Err(e) => r == Err::<(), RegistryError>(e) && *final(self) == *old(self),
                Ok(_) => r is Ok,
            },
            final(self).store == old(self).store,
            final(self).index.repositories == old(self).index.repositories,
            final(self).index.blobs == old(self).index.blobs,
            final(self).index.links == old(self).index.links,
            final(self).index.uploads == old(self).index.uploads,
            final(self).max_manifest_size == old(self).max_manifest_size,
            final(self).max_upload_size == old(self).max_upload_size,
            r is Ok && has_digest_prefix(reference@) ==> {
                let ms = final(self).index.manifests@;
                let oms = old(self).index.manifests@;
                let ts = final(self).index.tags@;
                let ots = old(self).index.tags@;
                &&& !has_manifest(ms, name@, reference@)
                &&& forall|q: Seq<char>, e: Seq<char>|
                    !(q == name@ && e == reference@) ==> (#[trigger] has_manifest(ms, q, e)
                        <==> has_manifest(oms, q, e)) && (has_manifest(oms, q, e) ==> manifest_of(
                        ms,
                        q,
                        e,
                    ) == manifest_of(oms, q, e))
                &&& forall|q: Seq<char>, u: Seq<char>| #[trigger]
                    has_tag(ts, q, u) <==> has_tag(ots, q, u) && !(q == name@ && tag_target(
                        ots,
                        q,
                        u,
                    ) == reference@)
                &&& forall|q: Seq<char>, u: Seq<char>| #[trigger]
                    has_tag(ts, q, u) ==> tag_target(ts, q, u) == tag_target(ots, q, u)
            },
            r is Ok && !has_digest_prefix(reference@) ==> {
                let ts = final(self).index.tags@;
                let ots = old(self).index.tags@;
                &&& final(self).index.manifests == old(self).index.manifests
                &&& !has_tag(ts, name@, reference@)
                &&& forall|q: Seq<char>, u: Seq<char>|
                    !(q == name@ && u == reference@) ==> (#[trigger] has_tag(ts, q, u) <==> has_tag(
                        ots,
                        q,
                        u,
                    ))
                &&& forall|q: Seq<char>, u: Seq<char>|
                    !(q == name@ && u == reference@) && has_tag(ots, q, u) ==> #[trigger] tag_target(
                        ts,
                        q,
                        u,
                    ) == tag_target(ots, q, u)
            },
    {
        let i = self.manifest_position(name, reference)?;
        let names = String::from_str(name);
        let ghost a = *self;
        if is_digest_reference(reference) {
            let d = String::from_str(reference);
            self.drop_tags_of(&names, &d);
            let ghost b = *self;
            proof {
                lemma_manifest_remove(b.index.manifests@, i as int);
            }
            self.index.manifests.remove(i);
            proof {
                let ms = self.index.manifests@;
                let oms = a.index.manifests@;
                assert forall|k: int| 0 <= k < ms.len() implies #[trigger] ms[k].digest@ == digest_of(
                    ms[k].content@,
                ) && is_digest_form(ms[k].digest@) by {
                    let kk = if k < i { k } else { k + 1 };
                    assert(ms[k] == oms[kk]);
                }
                let ts = self.index.tags@;
                assert forall|k: int| 0 <= k < ts.len() implies has_manifest(
                    ms,
                    #[trigger] ts[k].repository@,
                    ts[k].manifest_digest@,
                ) by {
                    let q = ts[k].repository@;
                    let u = ts[k].name@;
                    lemma_tag_at(ts, k);
                    assert(has_tag(ts, q, u));
                    assert(has_tag(a.index.tags@, q, u));
                    let p = choose|p: int|
                        0 <= p < a.index.tags@.len() && a.index.tags@[p].repository@ == q
                            && a.index.tags@[p].name@ == u;
                    lemma_tag_at(a.index.tags@, p);
                    assert(has_manifest(oms, q, ts[k].manifest_digest@));
                }
                let rs = self.index.repositories@;
                assert forall|k: int| 0 <= k < ts.len() implies #[trigger] tag_well_placed(rs, ts[k]) by {
                    let q = ts[k].repository@;
                    let u = ts[k].name@;
                    lemma_tag_at(ts, k);
                    assert(has_tag(a.index.tags@, q, u));
                    let p = choose|p: int|
                        0 <= p < a.index.tags@.len() && a.index.tags@[p].repository@ == q
                            && a.index.tags@[p].name@ == u;
                    assert(tag_well_placed(a.index.repositories@, a.index.tags@[p]));
                    let j = choose|j: int| 0 <= j < rs.len() && rs[j]@ == q;
                }
                assert(self.wf());
            }
        } else {
            let t = String::from_str(reference);
            match find_tag(&self.index.tags, &names, &t) {
                Some(j) => {
                    proof {
                        lemma_tag_remove(a.index.tags@, j as int);
                    }
                    self.index.tags.remove(j);
                    proof {
                        let ts = self.index.tags@;
                        assert forall|k: int| 0 <= k < ts.len() implies has_manifest(
                            self.index.manifests@,
                            #[trigger] ts[k].repository@,
                            ts[k].manifest_digest@,
                        ) by {
                            let kk = if k < j { k } else { k + 1 };
                            assert(ts[k] == a.index.tags@[kk]);
                            assert(has_manifest(
                                a.index.manifests@,
                                a.index.tags@[kk].repository@,
                                a.index.tags@[kk].manifest_digest@,
                            ));
                        }
                        assert(crate::model::tag_keys_unique(ts));
                        assert(self.wf());
                    }
                },
                None => {},
            }
        }
        Ok(())
    }
}

} // verus!
