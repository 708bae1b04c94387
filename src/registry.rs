use vstd::prelude::*;
use vstd::slice::slice_to_vec;
use crate::digest::{digest_of, is_digest_form, sha256_digest};
use crate::error::RegistryError;
use crate::model::{
    contains_string, find_upload, has_manifest, has_upload, is_linked, is_stored, links_unique,
    manifest_keys_unique, stored_bytes, stored_unique, tag_keys_unique, upload_ids_unique, BlobRecord,
    Manifest, RepositoryBlob, Scratch, StoredBlob, Tag, UploadSession,
};
use crate::validate::{
    is_valid_repository_name, is_valid_tag_name, validate_digest, validate_repository_name,
};

verus! {

/// How long an upload session lives, in seconds.
pub const UPLOAD_LIFETIME_SECS: u64 = 86400;

/// The content store: committed blob bytes keyed by digest, and the scratch
/// bytes of uploads in progress keyed by upload id.
pub struct ContentStore {
    pub blobs: Vec<StoredBlob>,
    pub scratch: Vec<Scratch>,
}

/// The metadata index: repositories, blob records and memberships,
/// manifests, tags and upload sessions.
pub struct MetadataIndex {
    pub repositories: Vec<String>,
    pub blobs: Vec<BlobRecord>,
    pub links: Vec<RepositoryBlob>,
    pub manifests: Vec<Manifest>,
    pub tags: Vec<Tag>,
    pub uploads: Vec<UploadSession>,
}

/// The registry engine: a content store and the index that describes it.
pub struct Registry {
    pub store: ContentStore,
    pub index: MetadataIndex,
    pub max_manifest_size: usize,
    pub max_upload_size: u64,
}

/// A tag has a valid name and belongs to a listed repository whose name is
/// valid.
pub open spec fn tag_well_placed(repos: Seq<String>, t: Tag) -> bool {
    &&& exists|j: int| 0 <= j < repos.len() && repos[j]@ == t.repository@
    &&& is_valid_repository_name(t.repository@)
    &&& is_valid_tag_name(t.name@)
}

/// The moment an upload created at `now` expires.
pub open spec fn expiry_of(now: u64) -> u64 {
    if now + UPLOAD_LIFETIME_SECS > u64::MAX {
        u64::MAX
    } else {
        (now + UPLOAD_LIFETIME_SECS) as u64
    }
}

impl Registry {
    /// The registry's invariant.
    pub open spec fn wf(self) -> bool {
        let sb = self.store.blobs@;
        let br = self.index.blobs@;
        let sc = self.store.scratch@;
        let up = self.index.uploads@;
        let ln = self.index.links@;
        let ms = self.index.manifests@;
        let ts = self.index.tags@;
        &&& sb.len() == br.len()
        &&& stored_unique(sb)
        &&& forall|i: int|
            0 <= i < sb.len() ==> {
                &&& #[trigger] br[i].digest@ == sb[i].digest@
                &&& br[i].size == sb[i].bytes@.len()
                &&& sb[i].digest@ == digest_of(sb[i].bytes@)
                &&& is_digest_form(sb[i].digest@)
            }
        &&& sc.len() == up.len()
        &&& upload_ids_unique(up)
        &&& forall|i: int|
            0 <= i < up.len() ==> #[trigger] up[i].id@ == sc[i].id@ && up[i].uploaded_size
                == sc[i].bytes@.len()
        &&& links_unique(ln)
        &&& forall|i: int| 0 <= i < ln.len() ==> is_stored(sb, #[trigger] ln[i].digest@)
        &&& manifest_keys_unique(ms)
        &&& forall|i: int|
            0 <= i < ms.len() ==> #[trigger] ms[i].digest@ == digest_of(ms[i].content@)
                && is_digest_form(ms[i].digest@)
        &&& tag_keys_unique(ts)
        &&& forall|i: int|
            0 <= i < ts.len() ==> has_manifest(
                ms,
                #[trigger] ts[i].repository@,
                ts[i].manifest_digest@,
            )
        &&& forall|i: int|
            0 <= i < ts.len() ==> #[trigger] tag_well_placed(self.index.repositories@, ts[i])
    }

    pub open spec fn has_repository(self, name: Seq<char>) -> bool {
        exists|i: int|
            0 <= i < self.index.repositories@.len() && self.index.repositories@[i]@ == name
    }

    /// Position of upload `id` in the index and the scratch area.
    pub open spec fn upload_slot(self, id: Seq<char>) -> int {
        choose|i: int| 0 <= i < self.index.uploads@.len() && self.index.uploads@[i].id@ == id
    }

    pub open spec fn has_session(self, id: Seq<char>) -> bool {
        has_upload(self.index.uploads@, id)
    }

    /// The session record of upload `id`.
    pub open spec fn session(self, id: Seq<char>) -> UploadSession {
        self.index.uploads@[self.upload_slot(id)]
    }

    /// The bytes received so far by upload `id`.
    pub open spec fn scratch_bytes(self, id: Seq<char>) -> Seq<u8> {
        self.store.scratch@[self.upload_slot(id)].bytes@
    }

    /// Upload `id` exists, belongs to repository `name` and has not expired.
    pub open spec fn is_live(self, name: Seq<char>, id: Seq<char>, now: u64) -> bool {
        &&& self.has_session(id)
        &&& self.session(id).repository@ == name
        &&& now <= self.session(id).expires_at
    }

    /// A committed blob with digest `d` is in the content store.
    pub open spec fn has_blob(self, d: Seq<char>) -> bool {
        is_stored(self.store.blobs@, d)
    }

    /// The bytes of the committed blob `d`.
    pub open spec fn blob_bytes(self, d: Seq<char>) -> Seq<u8> {
        stored_bytes(self.store.blobs@, d)
    }

    /// Blob `d` is addressable under repository `name`.
    pub open spec fn is_linked(self, name: Seq<char>, d: Seq<char>) -> bool {
        is_linked(self.index.links@, name, d)
    }

    pub proof fn lemma_slot(self, i: int)
        requires
            self.wf(),
            0 <= i < self.index.uploads@.len(),
        ensures
            self.has_session(self.index.uploads@[i].id@),
            self.upload_slot(self.index.uploads@[i].id@) == i,
    {
        let id = self.index.uploads@[i].id@;
        assert(0 <= i < self.index.uploads@.len() && self.index.uploads@[i].id@ == id);
        let j = self.upload_slot(id);
        assert(i == j);
    }

    /// An empty registry.
    pub fn new(max_manifest_size: usize, max_upload_size: u64) -> (r: Registry)
        ensures
            r.wf(),
            r.max_manifest_size == max_manifest_size,
            r.max_upload_size == max_upload_size,
            r.store.blobs@.len() == 0,
            r.store.scratch@.len() == 0,
            r.index.repositories@.len() == 0,
            r.index.links@.len() == 0,
            r.index.manifests@.len() == 0,
            r.index.tags@.len() == 0,
            r.index.uploads@.len() == 0,
    {
        Registry {
            store: ContentStore { blobs: Vec::new(), scratch: Vec::new() },
            index: MetadataIndex {
                repositories: Vec::new(),
                blobs: Vec::new(),
                links: Vec::new(),
                manifests: Vec::new(),
                tags: Vec::new(),
                uploads: Vec::new(),
            },
            max_manifest_size,
            max_upload_size,
        }
    }

    /// An empty registry with the size limits of `config`.
    pub fn from_config(config: &crate::config::Config) -> (r: Registry)
        ensures
            r.wf(),
            r.max_upload_size == config.storage.max_upload_size,
            r.max_manifest_size as u64 == (if config.registry.max_manifest_size > usize::MAX as u64 {
                usize::MAX as u64
            } else {
                config.registry.max_manifest_size
            }),
            r.store.blobs@.len() == 0,
            r.index.repositories@.len() == 0,
            r.index.manifests@.len() == 0,
            r.index.tags@.len() == 0,
            r.index.uploads@.len() == 0,
    {
        let m = config.registry.max_manifest_size;
        let limit: usize = if m > usize::MAX as u64 {
            usize::MAX
        } else {
            m as usize
        };
        Registry::new(limit, config.storage.max_upload_size)
    }

    /// Whether repository `name` exists.
    pub fn repository_exists(&self, name: &String) -> (r: bool)
        ensures
            r == self.has_repository(name@),
    {
        contains_string(&self.index.repositories, name)
    }

    /// Creates repository `name` unless it exists; `NameInvalid` for a name
    /// that breaks the rules.
    pub fn get_or_create_repository(&mut self, name: &str) -> (r: Result<(), RegistryError>)
        requires
            old(self).wf(),
        ensures
            final(self).wf(),
            r is Ok <==> is_valid_repository_name(name@),
            r is Err ==> r == Err::<(), RegistryError>(RegistryError::NameInvalid) && *final(self)
                == *old(self),
            r is Ok ==> final(self).has_repository(name@),
            forall|n: Seq<char>| #[trigger]
                final(self).has_repository(n) <==> old(self).has_repository(n) || (r is Ok && n
                    == name@),
            final(self).store == old(self).store,
            final(self).index.blobs == old(self).index.blobs,
            final(self).index.links == old(self).index.links,
            final(self).index.manifests == old(self).index.manifests,
            final(self).index.tags == old(self).index.tags,
            final(self).index.uploads == old(self).index.uploads,
            final(self).max_manifest_size == old(self).max_manifest_size,
            final(self).max_upload_size == old(self).max_upload_size,
    {
        validate_repository_name(name)?;
        let n = String::from_str(name);
        if !self.repository_exists(&n) {
            self.index.repositories.push(n);
            proof {
                let rs = self.index.repositories@;
                assert(rs[rs.len() - 1]@ == name@);
                let ors = old(self).index.repositories@;
                assert forall|i: int| 0 <= i < self.index.tags@.len() implies #[trigger] tag_well_placed(
                    rs,
                    self.index.tags@[i],
                ) by {
                    assert(tag_well_placed(ors, self.index.tags@[i]));
                    let j = choose|j: int|
                        0 <= j < ors.len() && ors[j]@ == self.index.tags@[i].repository@;
                    assert(rs[j] == ors[j]);
                }
                assert forall|m: Seq<char>| #[trigger]
                    self.has_repository(m) <==> old(self).has_repository(m) || m == name@ by {
                    if old(self).has_repository(m) {
                        let i = choose|i: int|
                            0 <= i < old(self).index.repositories@.len()
                                && old(self).index.repositories@[i]@ == m;
                        assert(rs[i] == old(self).index.repositories@[i]);
                    }
                    if self.has_repository(m) {
                        let i = choose|i: int| 0 <= i < rs.len() && rs[i]@ == m;
                        if i < rs.len() - 1 {
                            assert(rs[i] == old(self).index.repositories@[i]);
                        }
                    }
                }
            }
        }
        Ok(())
    }
}

/// Everything but the upload sessions, their scratch bytes and the list of
/// repositories is the same in `a` and `b`.
pub open spec fn same_content(a: Registry, b: Registry) -> bool {
    &&& a.store.blobs == b.store.blobs
    &&& a.index.blobs == b.index.blobs
    &&& a.index.links == b.index.links
    &&& a.index.manifests == b.index.manifests
    &&& a.index.tags == b.index.tags
    &&& a.max_manifest_size == b.max_manifest_size
    &&& a.max_upload_size == b.max_upload_size
}

/// Every upload other than `id` is the same in `a` and `b`.
pub open spec fn other_uploads_kept(a: Registry, b: Registry, id: Seq<char>) -> bool {
    forall|u: Seq<char>|
        u != id ==> (#[trigger] a.has_session(u) <==> b.has_session(u)) && (a.has_session(u)
            ==> a.session(u) == b.session(u) && a.scratch_bytes(u) == b.scratch_bytes(u))
}

/// A session record with the same identity, owner and limits.
pub open spec fn same_session_identity(s: UploadSession, t: UploadSession) -> bool {
    &&& s.id@ == t.id@
    &&& s.repository@ == t.repository@
    &&& s.expected_size == t.expected_size
    &&& s.created_at == t.created_at
    &&& s.expires_at == t.expires_at
}

/// `b` is `a` after upload `id` was opened for repository `name` at `now`.
pub open spec fn upload_created(
    a: Registry,
    b: Registry,
    name: Seq<char>,
    id: Seq<char>,
    expected: Option<u64>,
    now: u64,
) -> bool {
    &&& same_content(a, b)
    &&& other_uploads_kept(a, b, id)
    &&& forall|n: Seq<char>| #[trigger] b.has_repository(n) <==> a.has_repository(n) || n == name
    &&& b.has_session(id)
    &&& b.session(id).repository@ == name
    &&& b.session(id).uploaded_size == 0
    &&& b.session(id).expected_size == expected
    &&& b.session(id).created_at == now
    &&& b.session(id).expires_at == expiry_of(now)
    &&& b.scratch_bytes(id) == Seq::<u8>::empty()
}

/// `b` is `a` after `chunk` was appended to upload `id`.
pub open spec fn chunk_appended(a: Registry, b: Registry, id: Seq<char>, chunk: Seq<u8>) -> bool {
    &&& same_content(a, b)
    &&& a.index.repositories == b.index.repositories
    &&& other_uploads_kept(a, b, id)
    &&& a.has_session(id)
    &&& b.has_session(id)
    &&& same_session_identity(a.session(id), b.session(id))
    &&& b.session(id).uploaded_size == a.session(id).uploaded_size + chunk.len()
    &&& b.scratch_bytes(id) == a.scratch_bytes(id) + chunk
}

/// `b` is `a` after upload `id` was committed as blob `d` of repository
/// `name` holding `bytes`.
pub open spec fn upload_committed(
    a: Registry,
    b: Registry,
    name: Seq<char>,
    id: Seq<char>,
    d: Seq<char>,
    bytes: Seq<u8>,
) -> bool {
    &&& a.has_session(id)
    &&& !b.has_session(id)
    &&& other_uploads_kept(a, b, id)
    &&& a.max_manifest_size == b.max_manifest_size
    &&& a.max_upload_size == b.max_upload_size
    &&& a.index.repositories == b.index.repositories
    &&& a.index.manifests == b.index.manifests
    &&& a.index.tags == b.index.tags
    &&& b.has_blob(d)
    &&& b.blob_bytes(d) == bytes
    &&& b.is_linked(name, d)
    &&& forall|r: Seq<char>, e: Seq<char>| #[trigger]
        b.is_linked(r, e) ==> a.is_linked(r, e) || (r == name && e == d)
    &&& forall|e: Seq<char>| #[trigger] b.has_blob(e) ==> a.has_blob(e) || e == d
    &&& (a.has_blob(d) ==> b.store.blobs == a.store.blobs && b.index.blobs == a.index.blobs)
    &&& forall|r: Seq<char>, e: Seq<char>| #[trigger]
        a.is_linked(r, e) ==> b.is_linked(r, e)
    &&& forall|e: Seq<char>| #[trigger]
        a.has_blob(e) ==> b.has_blob(e) && b.blob_bytes(e) == a.blob_bytes(e)
}

impl Registry {
    /// The live upload `id` of repository `name`, by position.
    pub(crate) fn live_upload_index(&self, name: &String, id: &String, now: u64) -> (r: Option<usize>)
        requires
            self.wf(),
        ensures
            match r {
                Some(i) => self.is_live(name@, id@, now) && i < self.index.uploads@.len() && i
                    == self.upload_slot(id@),
                None => !self.is_live(name@, id@, now),
            },
    {
        match find_upload(&self.index.uploads, id) {
            Some(i) => {
                proof {
                    self.lemma_slot(i as int);
                }
                if self.index.uploads[i].repository == *name && now
                    <= self.index.uploads[i].expires_at {
                    Some(i)
                } else {
                    None
                }
            },
            None => None,
        }
    }

    /// Opens upload `id` for repository `name` at time `now`, creating the
    /// repository on first use. `NameInvalid` for a bad name,
    /// `BlobUploadInvalid` when the id is taken.
    pub fn initiate_blob_upload(
        &mut self,
        name: &str,
        id: &str,
        expected_size: Option<u64>,
        now: u64,
    ) -> (r: Result<(), RegistryError>)
        requires
            old(self).wf(),
        ensures
            final(self).wf(),
            !is_valid_repository_name(name@) ==> r == Err::<(), RegistryError>(
                RegistryError::NameInvalid,
            ),
            is_valid_repository_name(name@) && old(self).has_session(id@) ==> r == Err::<
                (),
                RegistryError,
            >(RegistryError::BlobUploadInvalid),
            is_valid_repository_name(name@) && !old(self).has_session(id@) ==> r is Ok,
            r is Err ==> *final(self) == *old(self),
            r is Ok ==> upload_created(*old(self), *final(self), name@, id@, expected_size, now),
    {
        validate_repository_name(name)?;
        let ids = String::from_str(id);
        if find_upload(&self.index.uploads, &ids).is_some() {
            return Err(RegistryError::BlobUploadInvalid);
        }
        let ghost a = *self;
        let created = self.get_or_create_repository(name);
        assert(created is Ok);
        let ghost a1 = *self;
        assert(a1.has_repository(name@));
        let expires_at = now.saturating_add(UPLOAD_LIFETIME_SECS);
        self.index.uploads.push(
            UploadSession {
                id: ids.clone(),
                repository: String::from_str(name),
                uploaded_size: 0,
                expected_size,
                created_at: now,
                expires_at,
            },
        );
        self.store.scratch.push(Scratch { id: ids, bytes: Vec::new() });
        proof {
            let up = self.index.uploads@;
            let n = up.len() - 1;
            assert(upload_ids_unique(up)) by {
                assert forall|i: int, j: int|
                    0 <= i < up.len() && 0 <= j < up.len() && i != j implies up[i].id@
                    != up[j].id@ by {
                    if i < n && j < n {
                        assert(up[i] == a1.index.uploads@[i]);
                        assert(up[j] == a1.index.uploads@[j]);
                    } else if i == n {
                        assert(up[j] == a1.index.uploads@[j]);
                    } else {
                        assert(up[i] == a1.index.uploads@[i]);
                    }
                }
            }
            assert(self.wf());
            self.lemma_slot(n);
            assert forall|u: Seq<char>| u != id@ implies (#[trigger] a.has_session(u)
                <==> self.has_session(u)) && (a.has_session(u) ==> a.session(u)
                == self.session(u) && a.scratch_bytes(u) == self.scratch_bytes(u)) by {
                if a.has_session(u) {
                    let j = choose|j: int|
                        0 <= j < a.index.uploads@.len() && a.index.uploads@[j].id@ == u;
                    a.lemma_slot(j);
                    assert(self.index.uploads@[j] == a.index.uploads@[j]);
                    self.lemma_slot(j);
                }
                if self.has_session(u) {
                    let j = choose|j: int| 0 <= j < up.len() && up[j].id@ == u;
                    assert(j != n);
                    assert(up[j] == a.index.uploads@[j]);
                }
            }
            assert(self.index.repositories == a1.index.repositories);
            assert forall|m: Seq<char>| #[trigger]
                self.has_repository(m) <==> a.has_repository(m) || m == name@ by {
                assert(self.has_repository(m) == a1.has_repository(m));
            }
        }
        Ok(())
    }

    /// Appends `chunk` to upload `id` of repository `name`. Where a start
    /// offset is given it must equal the bytes received so far. Returns the
    /// new size.
    pub fn upload_blob_chunk(
        &mut self,
        name: &str,
        id: &str,
        start: Option<u64>,
        chunk: &[u8],
        now: u64,
    ) -> (r: Result<u64, RegistryError>)
        requires
            old(self).wf(),
        ensures
            final(self).wf(),
            r == old(self).chunk_outcome(name@, id@, start, chunk@.len(), now),
            r is Err ==> *final(self) == *old(self),
            r is Ok ==> chunk_appended(*old(self), *final(self), id@, chunk@) && r->Ok_0
                == final(self).session(id@).uploaded_size,
    {
        validate_repository_name(name)?;
        let names = String::from_str(name);
        let ids = String::from_str(id);
        let i = match self.live_upload_index(&names, &ids, now) {
            Some(i) => i,
            None => return Err(RegistryError::BlobUploadUnknown),
        };
        let size = self.index.uploads[i].uploaded_size;
        if let Some(s) = start {
            if s != size {
                return Err(RegistryError::RangeInvalid);
            }
        }
        let new_size = match size.checked_add(chunk.len() as u64) {
            Some(v) => v,
            None => return Err(RegistryError::SizeInvalid),
        };
        if new_size > self.max_upload_size {
            return Err(RegistryError::SizeInvalid);
        }
        if let Some(e) = self.index.uploads[i].expected_size {
            if new_size > e {
                return Err(RegistryError::SizeInvalid);
            }
        }
        self.append_at(i, chunk, new_size);
        Ok(new_size)
    }

    /// The decision of `upload_blob_chunk`.
    pub open spec fn chunk_outcome(
        self,
        name: Seq<char>,
        id: Seq<char>,
        start: Option<u64>,
        n: nat,
        now: u64,
    ) -> Result<u64, RegistryError> {
        let size = self.session(id).uploaded_size;
        if !is_valid_repository_name(name) {
            Err(RegistryError::NameInvalid)
        } else if !self.is_live(name, id, now) {
            Err(RegistryError::BlobUploadUnknown)
        } else if start is Some && start->0 != size {
            Err(RegistryError::RangeInvalid)
        } else if size + n > u64::MAX || size + n > self.max_upload_size || (self.session(
            id,
        ).expected_size is Some && size + n > self.session(id).expected_size->0) {
            Err(RegistryError::SizeInvalid)
        } else {
            Ok((size + n) as u64)
        }
    }

    /// Appends `chunk` to the upload at position `i`.
    pub(crate) fn append_at(&mut self, i: usize, chunk: &[u8], new_size: u64)
        requires
            old(self).wf(),
            i < old(self).index.uploads@.len(),
            new_size == old(self).index.uploads@[i as int].uploaded_size + chunk@.len(),
        ensures
            final(self).wf(),
            chunk_appended(*old(self), *final(self), old(self).index.uploads@[i as int].id@, chunk@),
            final(self).session(old(self).index.uploads@[i as int].id@).uploaded_size == new_size,
    {
        let ghost a = *self;
        let ghost id = self.index.uploads@[i as int].id@;
        let mut bytes = slice_to_vec(self.store.scratch[i].bytes.as_slice());
        let mut k: usize = 0;
        while k < chunk.len()
            invariant
                k <= chunk@.len(),
                bytes@ == a.store.scratch@[i as int].bytes@ + chunk@.subrange(0, k as int),
            decreases chunk@.len() - k,
        {
            bytes.push(chunk[k]);
            k = k + 1;
            assert(bytes@ =~= a.store.scratch@[i as int].bytes@ + chunk@.subrange(0, k as int));
        }
        assert(chunk@.subrange(0, chunk@.len() as int) =~= chunk@);
        let sid = self.store.scratch[i].id.clone();
        self.store.scratch.set(i, Scratch { id: sid, bytes });
        let old_s = &self.index.uploads[i];
        let s = UploadSession {
            id: old_s.id.clone(),
            repository: old_s.repository.clone(),
            uploaded_size: new_size,
            expected_size: old_s.expected_size,
            created_at: old_s.created_at,
            expires_at: old_s.expires_at,
        };
        self.index.uploads.set(i, s);
        proof {
            let up = self.index.uploads@;
            assert(upload_ids_unique(up)) by {
                assert forall|p: int, q: int|
                    0 <= p < up.len() && 0 <= q < up.len() && p != q implies up[p].id@
                    != up[q].id@ by {
                    assert(up[p].id@ == a.index.uploads@[p].id@);
                    assert(up[q].id@ == a.index.uploads@[q].id@);
                }
            }
            assert(self.wf());
            a.lemma_slot(i as int);
            self.lemma_slot(i as int);
            assert forall|u: Seq<char>| u != id implies (#[trigger] a.has_session(u)
                <==> self.has_session(u)) && (a.has_session(u) ==> a.session(u)
                == self.session(u) && a.scratch_bytes(u) == self.scratch_bytes(u)) by {
                if a.has_session(u) {
                    let j = choose|j: int|
                        0 <= j < a.index.uploads@.len() && a.index.uploads@[j].id@ == u;
                    a.lemma_slot(j);
                    assert(up[j] == a.index.uploads@[j]);
                    self.lemma_slot(j);
                }
                if self.has_session(u) {
                    let j = choose|j: int| 0 <= j < up.len() && up[j].id@ == u;
                    assert(up[j].id@ == a.index.uploads@[j].id@);
                }
            }
        }
    }
}

} // verus!
