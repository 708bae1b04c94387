use vstd::prelude::*;
use vstd::slice::slice_to_vec;
use crate::digest::{digest_of, is_digest_form, sha256_digest};
use crate::error::RegistryError;
use crate::model::{
    find_link, find_stored, is_linked, is_stored, links_unique, stored_unique, upload_ids_unique,
    BlobRecord, RepositoryBlob, StoredBlob,
};
use crate::registry::{other_uploads_kept, same_content, upload_committed, Registry};
use crate::validate::{is_valid_repository_name, validate_digest, validate_repository_name};

verus! {

/// Whether two byte sequences are equal.
pub fn bytes_equal(a: &[u8], b: &[u8]) -> (r: bool)
    ensures
        r == (a@ == b@),
{
    if a.len() != b.len() {
        return false;
    }
    let mut i: usize = 0;
    while i < a.len()
        invariant
            a@.len() == b@.len(),
            i <= a@.len(),
            forall|j: int| 0 <= j < i ==> a@[j] == b@[j],
        decreases a@.len() - i,
    {
        if a[i] != b[i] {
            return false;
        }
        i = i + 1;
    }
    assert(a@ =~= b@);
    true
}

/// Relies on uuid::Uuid::new_v4 and the hyphenated text of a UUID: a fresh
/// random id of 36 characters.
#[verifier::external_body]
fn new_upload_id() -> (r: String)
    ensures
        r@.len() == 36,
{
    uuid::Uuid::new_v4().to_string()
}

impl Registry {
    /// Opens an upload with a fresh random id for repository `name` and
    /// returns the id. It fails with `NameInvalid` exactly for a bad name,
    /// and with `BlobUploadInvalid` only when the random id is already taken,
    /// which needs a session whose id has the same length.
    pub fn start_blob_upload(&mut self, name: &str, expected_size: Option<u64>, now: u64) -> (r:
        Result<String, RegistryError>)
        requires
            old(self).wf(),
        ensures
            final(self).wf(),
            !is_valid_repository_name(name@) ==> r == Err::<String, RegistryError>(
                RegistryError::NameInvalid,
            ),
            r is Err ==> *final(self) == *old(self) && (r->Err_0 == RegistryError::NameInvalid
                || r->Err_0 == RegistryError::BlobUploadInvalid),
            is_valid_repository_name(name@) && (forall|u: Seq<char>| #[trigger]
                old(self).has_session(u) ==> u.len() != 36) ==> r is Ok,
            r == Err::<String, RegistryError>(RegistryError::NameInvalid)
                ==> !is_valid_repository_name(name@),
            r == Err::<String, RegistryError>(RegistryError::BlobUploadInvalid) ==> exists|
                u: Seq<char>,
            | #[trigger] old(self).has_session(u) && u.len() == 36,
            r is Ok ==> r->Ok_0@.len() == 36 && crate::registry::upload_created(
                *old(self),
                *final(self),
                name@,
                r->Ok_0@,
                expected_size,
                now,
            ),
    {
        let id = new_upload_id();
        let ghost a = *self;
        let res = self.initiate_blob_upload(name, id.as_str(), expected_size, now);
        match res {
            Ok(()) => Ok(id),
            Err(e) => {
                proof {
                    if e == RegistryError::BlobUploadInvalid {
                        assert(a.has_session(id@) && id@.len() == 36);
                    }
                }
                Err(e)
            },
        }
    }

    /// Bytes received so far by upload `id` of repository `name`.
    pub fn get_upload_status(&self, name: &str, id: &str, now: u64) -> (r: Result<
        u64,
        RegistryError,
    >)
        requires
            self.wf(),
        ensures
            !is_valid_repository_name(name@) ==> r == Err::<u64, RegistryError>(
                RegistryError::NameInvalid,
            ),
            is_valid_repository_name(name@) && !self.is_live(name@, id@, now) ==> r == Err::<
                u64,
                RegistryError,
            >(RegistryError::BlobUploadUnknown),
            is_valid_repository_name(name@) && self.is_live(name@, id@, now) ==> r == Ok::<
                u64,
                RegistryError,
            >(self.session(id@).uploaded_size),
    {
        validate_repository_name(name)?;
        let names = String::from_str(name);
        let ids = String::from_str(id);
        match self.live_upload_index(&names, &ids, now) {
            Some(i) => Ok(self.index.uploads[i].uploaded_size),
            None => Err(RegistryError::BlobUploadUnknown),
        }
    }

    /// Drops the upload at position `i` with its scratch bytes.
    pub(crate) fn remove_upload_at(&mut self, i: usize)
        requires
            old(self).wf(),
            i < old(self).index.uploads@.len(),
        ensures
            final(self).wf(),
            final(self).index.uploads@ == old(self).index.uploads@.remove(i as int),
            !final(self).has_session(old(self).index.uploads@[i as int].id@),
            other_uploads_kept(*old(self), *final(self), old(self).index.uploads@[i as int].id@),
            same_content(*old(self), *final(self)),
            final(self).index.repositories == old(self).index.repositories,
    {
        let ghost a = *self;
        let ghost id = self.index.uploads@[i as int].id@;
        self.index.uploads.remove(i);
        self.store.scratch.remove(i);
        proof {
            let up = self.index.uploads@;
            let oup = a.index.uploads@;
            assert forall|k: int| 0 <= k < up.len() implies up[k] == oup[if k < i {
                k
            } else {
                k + 1
            }] && self.store.scratch@[k] == a.store.scratch@[if k < i {
                k
            } else {
                k + 1
            }] by {}
            assert(upload_ids_unique(up)) by {
                assert forall|p: int, q: int|
                    0 <= p < up.len() && 0 <= q < up.len() && p != q implies up[p].id@
                    != up[q].id@ by {
                    let pp = if p < i { p } else { p + 1 };
                    let qq = if q < i { q } else { q + 1 };
                    assert(up[p] == oup[pp] && up[q] == oup[qq]);
                }
            }
            assert(self.wf());
            a.lemma_slot(i as int);
            if self.has_session(id) {
                let k = choose|k: int| 0 <= k < up.len() && up[k].id@ == id;
                let kk = if k < i { k } else { k + 1 };
                assert(up[k] == oup[kk]);
            }
            assert forall|u: Seq<char>| u != id implies (#[trigger] a.has_session(u)
                <==> self.has_session(u)) && (a.has_session(u) ==> a.session(u)
                == self.session(u) && a.scratch_bytes(u) == self.scratch_bytes(u)) by {
                if a.has_session(u) {
                    let j = choose|j: int| 0 <= j < oup.len() && oup[j].id@ == u;
                    a.lemma_slot(j);
                    assert(j != i);
                    let jj = if j < i { j } else { j - 1 };
                    assert(up[jj] == oup[j]);
                    self.lemma_slot(jj);
                }
                if self.has_session(u) {
                    let k = choose|k: int| 0 <= k < up.len() && up[k].id@ == u;
                    let kk = if k < i { k } else { k + 1 };
                    assert(up[k] == oup[kk]);
                }
            }
        }
    }

    /// Cancels upload `id` of repository `name`, dropping its scratch bytes.
    /// Cancelling an upload that is gone succeeds; one that belongs to
    /// another repository is `BlobUploadUnknown`.
    pub fn cancel_upload(&mut self, name: &str, id: &str) -> (r: Result<(), RegistryError>)
        requires
            old(self).wf(),
        ensures
            final(self).wf(),
            !is_valid_repository_name(name@) ==> r == Err::<(), RegistryError>(
                RegistryError::NameInvalid,
            ),
            is_valid_repository_name(name@) && old(self).has_session(id@) && old(self).session(
                id@,
            ).repository@ != name@ ==> r == Err::<(), RegistryError>(
                RegistryError::BlobUploadUnknown,
            ),
            r is Err ==> *final(self) == *old(self),
            is_valid_repository_name(name@) && !(old(self).has_session(id@) && old(self).session(
                id@,
            ).repository@ != name@) ==> r is Ok,
            r is Ok ==> !final(self).has_session(id@) && other_uploads_kept(
                *old(self),
                *final(self),
                id@,
            ) && same_content(*old(self), *final(self)),
            r is Ok ==> final(self).index.repositories == old(self).index.repositories,
            r is Ok && !old(self).has_session(id@) ==> *final(self) == *old(self),
    {
        validate_repository_name(name)?;
        let names = String::from_str(name);
        let ids = String::from_str(id);
        match crate::model::find_upload(&self.index.uploads, &ids) {
            Some(i) => {
                proof {
                    self.lemma_slot(i as int);
                }
                if self.index.uploads[i].repository != names {
                    return Err(RegistryError::BlobUploadUnknown);
                }
                self.remove_upload_at(i);
                Ok(())
            },
            None => {
                proof {
                    assert(other_uploads_kept(*old(self), *self, id@));
                }
                Ok(())
            },
        }
    }

    /// Drops every upload whose expiry time lies before `now`.
    pub fn expire_uploads(&mut self, now: u64)
        requires
            old(self).wf(),
        ensures
            final(self).wf(),
            same_content(*old(self), *final(self)),
            final(self).index.repositories == old(self).index.repositories,
            forall|u: Seq<char>| #[trigger]
                final(self).has_session(u) <==> old(self).has_session(u) && old(self).session(
                    u,
                ).expires_at >= now,
            forall|u: Seq<char>| #[trigger]
                final(self).has_session(u) ==> final(self).session(u) == old(self).session(u)
                    && final(self).scratch_bytes(u) == old(self).scratch_bytes(u),
    {
        let ghost a = *self;
        let mut i: usize = 0;
        while i < self.index.uploads.len()
            invariant
                self.wf(),
                i <= self.index.uploads@.len(),
                same_content(a, *self),
                self.index.repositories == a.index.repositories,
                forall|j: int| 0 <= j < i ==> self.index.uploads@[j].expires_at >= now,
                forall|u: Seq<char>| #[trigger]
                    self.has_session(u) ==> a.has_session(u) && self.session(u) == a.session(u)
                        && self.scratch_bytes(u) == a.scratch_bytes(u),
                forall|u: Seq<char>| #[trigger]
                    a.has_session(u) && a.session(u).expires_at >= now ==> self.has_session(u),
            decreases self.index.uploads@.len() - i,
        {
            if self.index.uploads[i].expires_at < now {
                let ghost b = *self;
                let ghost id = self.index.uploads@[i as int].id@;
                proof {
                    b.lemma_slot(i as int);
                }
                self.remove_upload_at(i);
                proof {
                    assert forall|j: int| 0 <= j < i implies self.index.uploads@[j].expires_at
                        >= now by {
                        assert(self.index.uploads@[j] == b.index.uploads@[j]);
                    }
                    assert forall|u: Seq<char>| #[trigger]
                        self.has_session(u) implies a.has_session(u) && self.session(u)
                        == a.session(u) && self.scratch_bytes(u) == a.scratch_bytes(u) by {
                        assert(u != id);
                        assert(b.has_session(u));
                    }
                    assert forall|u: Seq<char>| #[trigger]
                        a.has_session(u) && a.session(u).expires_at >= now implies self.has_session(
                        u,
                    ) by {
                        assert(b.has_session(u));
                        if u == id {
                            assert(b.session(u).expires_at < now);
                        }
                    }
                }
            } else {
                i = i + 1;
            }
        }
        proof {
            assert forall|u: Seq<char>| #[trigger]
                self.has_session(u) implies a.session(u).expires_at >= now by {
                let k = choose|k: int|
                    0 <= k < self.index.uploads@.len() && self.index.uploads@[k].id@ == u;
                self.lemma_slot(k);
            }
        }
    }

    /// Puts `bytes` into the content store under digest `d`, with its index
    /// record, unless the same bytes are there already. Returns false, and
    /// changes nothing, where other bytes are stored under `d`.
    pub(crate) fn store_blob(&mut self, d: String, bytes: Vec<u8>) -> (ok: bool)
        requires
            old(self).wf(),
            d@ == digest_of(bytes@),
            is_digest_form(d@),
            bytes@.len() <= u64::MAX,
        ensures
            final(self).wf(),
            ok == (!old(self).has_blob(d@) || old(self).blob_bytes(d@) == bytes@),
            !ok ==> *final(self) == *old(self),
            ok ==> final(self).has_blob(d@) && final(self).blob_bytes(d@) == bytes@,
            old(self).has_blob(d@) ==> final(self).store.blobs == old(self).store.blobs
                && final(self).index.blobs == old(self).index.blobs,
            forall|e: Seq<char>| #[trigger]
                old(self).has_blob(e) ==> final(self).has_blob(e) && final(self).blob_bytes(e)
                    == old(self).blob_bytes(e),
            forall|e: Seq<char>| #[trigger] final(self).has_blob(e) ==> old(self).has_blob(e) || e == d@,
            final(self).store.scratch == old(self).store.scratch,
            final(self).index.repositories == old(self).index.repositories,
            final(self).index.links == old(self).index.links,
            final(self).index.manifests == old(self).index.manifests,
            final(self).index.tags == old(self).index.tags,
            final(self).index.uploads == old(self).index.uploads,
            final(self).max_manifest_size == old(self).max_manifest_size,
            final(self).max_upload_size == old(self).max_upload_size,
    {
        let ghost a = *self;
        match find_stored(&self.store.blobs, &d) {
            Some(i) => {
                proof {
                    crate::model::lemma_stored_at(self.store.blobs@, i as int);
                }
                bytes_equal(self.store.blobs[i].bytes.as_slice(), bytes.as_slice())
            },
            None => {
                let size = bytes.len() as u64;
                self.index.blobs.push(
                    BlobRecord {
                        digest: d.clone(),
                        size,
                        media_type: String::from_str("application/octet-stream"),
                    },
                );
                self.store.blobs.push(StoredBlob { digest: d, bytes });
                proof {
                    let sb = self.store.blobs@;
                    let osb = a.store.blobs@;
                    let n = osb.len() as int;
                    assert forall|k: int| 0 <= k < n implies sb[k] == osb[k] by {}
                    assert(stored_unique(sb)) by {
                        assert forall|p: int, q: int|
                            0 <= p < sb.len() && 0 <= q < sb.len() && p != q implies sb[p].digest@
                            != sb[q].digest@ by {
                            if p < n && q < n {
                                assert(sb[p] == osb[p] && sb[q] == osb[q]);
                            } else if p == n {
                                assert(sb[q] == osb[q]);
                            } else {
                                assert(sb[p] == osb[p]);
                            }
                        }
                    }
                    assert forall|k: int|
                        0 <= k < self.index.links@.len() implies is_stored(
                        sb,
                        #[trigger] self.index.links@[k].digest@,
                    ) by {
                        let e = self.index.links@[k].digest@;
                        assert(is_stored(osb, e));
                        let j = choose|j: int| 0 <= j < osb.len() && osb[j].digest@ == e;
                        assert(sb[j] == osb[j]);
                    }
                    assert(self.wf());
                    crate::model::lemma_stored_at(sb, n);
                    assert forall|e: Seq<char>| #[trigger]
                        self.has_blob(e) implies a.has_blob(e) || e == d@ by {
                        let j = choose|j: int| 0 <= j < sb.len() && sb[j].digest@ == e;
                        if j < n {
                            assert(sb[j] == osb[j]);
                        }
                    }
                    assert forall|e: Seq<char>| #[trigger]
                        a.has_blob(e) implies self.has_blob(e) && self.blob_bytes(e)
                        == a.blob_bytes(e) by {
                        let j = choose|j: int| 0 <= j < osb.len() && osb[j].digest@ == e;
                        crate::model::lemma_stored_at(osb, j);
                        assert(sb[j] == osb[j]);
                        crate::model::lemma_stored_at(sb, j);
                    }
                }
                true
            },
        }
    }

    /// Makes blob `d` addressable under repository `name`.
    pub(crate) fn link_blob(&mut self, name: String, d: String)
        requires
            old(self).wf(),
            old(self).has_blob(d@),
        ensures
            final(self).wf(),
            final(self).is_linked(name@, d@),
            forall|r: Seq<char>, e: Seq<char>| #[trigger]
                old(self).is_linked(r, e) ==> final(self).is_linked(r, e),
            forall|r: Seq<char>, e: Seq<char>| #[trigger]
                final(self).is_linked(r, e) ==> old(self).is_linked(r, e) || (r == name@ && e
                    == d@),
            final(self).store == old(self).store,
            final(self).index.repositories == old(self).index.repositories,
            final(self).index.blobs == old(self).index.blobs,
            final(self).index.manifests == old(self).index.manifests,
            final(self).index.tags == old(self).index.tags,
            final(self).index.uploads == old(self).index.uploads,
            final(self).max_manifest_size == old(self).max_manifest_size,
            final(self).max_upload_size == old(self).max_upload_size,
    {
        let ghost a = *self;
        if find_link(&self.index.links, &name, &d).is_some() {
            return;
        }
        self.index.links.push(RepositoryBlob { repository: name, digest: d });
        proof {
            let ln = self.index.links@;
            let oln = a.index.links@;
            let n = oln.len() as int;
            assert forall|k: int| 0 <= k < n implies ln[k] == oln[k] by {}
            assert(links_unique(ln)) by {
                assert forall|p: int, q: int|
                    0 <= p < ln.len() && 0 <= q < ln.len() && p != q implies !(
                    ln[p].repository@ == ln[q].repository@ && ln[p].digest@ == ln[q].digest@) by {
                    if p < n && q < n {
                    } else if p == n {
                        assert(ln[q] == oln[q]);
                    } else {
                        assert(ln[p] == oln[p]);
                    }
                }
            }
            assert(self.wf());
            assert(ln[n].repository@ == name@ && ln[n].digest@ == d@);
            assert forall|r: Seq<char>, e: Seq<char>| #[trigger]
                a.is_linked(r, e) implies self.is_linked(r, e) by {
                let j = choose|j: int| 0 <= j < oln.len() && oln[j].repository@ == r && oln[j].digest@ == e;
                assert(ln[j] == oln[j]);
            }
            assert forall|r: Seq<char>, e: Seq<char>| #[trigger]
                self.is_linked(r, e) implies a.is_linked(r, e) || (r == name@ && e == d@) by {
                let j = choose|j: int| 0 <= j < ln.len() && ln[j].repository@ == r && ln[j].digest@ == e;
                if j < n {
                    assert(ln[j] == oln[j]);
                }
            }
        }
    }

    /// The decision of `complete_blob_upload`.
    pub open spec fn finalize_outcome(
        self,
        name: Seq<char>,
        id: Seq<char>,
        digest: Seq<char>,
        trailing: Seq<u8>,
        now: u64,
    ) -> Result<(), RegistryError> {
        let size = self.session(id).uploaded_size;
        let n = trailing.len();
        let bytes = self.scratch_bytes(id) + trailing;
        if !is_valid_repository_name(name) {
            Err(RegistryError::NameInvalid)
        } else if !is_digest_form(digest) {
            Err(RegistryError::DigestInvalid)
        } else if !self.is_live(name, id, now) {
            Err(RegistryError::BlobUploadUnknown)
        } else if size + n > u64::MAX || size + n > self.max_upload_size || (self.session(
            id,
        ).expected_size is Some && size + n > self.session(id).expected_size->0) {
            Err(RegistryError::SizeInvalid)
        } else if digest_of(bytes) != digest || (self.has_blob(digest) && self.blob_bytes(digest)
            != bytes) {
            Err(RegistryError::DigestInvalid)
        } else {
            Ok(())
        }
    }

    /// Finishes upload `id` of repository `name`: appends `trailing`, checks
    /// that the bytes hash to `digest`, commits them as a blob (once per
    /// digest), links the blob to the repository and drops the session. On a
    /// digest mismatch nothing changes, so the client may retry.
    pub fn complete_blob_upload(
        &mut self,
        name: &str,
        id: &str,
        digest: &str,
        trailing: &[u8],
        now: u64,
    ) -> (r: Result<String, RegistryError>)
        requires
            old(self).wf(),
        ensures
            final(self).wf(),
            r is Ok <==> old(self).finalize_outcome(name@, id@, digest@, trailing@, now) is Ok,
            r is Err ==> *final(self) == *old(self) && r->Err_0 == old(self).finalize_outcome(
                name@,
                id@,
                digest@,
                trailing@,
                now,
            )->Err_0,
            r is Ok ==> r->Ok_0@ == digest@ && upload_committed(
                *old(self),
                *final(self),
                name@,
                id@,
                digest@,
                old(self).scratch_bytes(id@) + trailing@,
            ),
    {
        validate_repository_name(name)?;
        validate_digest(digest)?;
        let names = String::from_str(name);
        let ids = String::from_str(id);
        let i = match self.live_upload_index(&names, &ids, now) {
            Some(i) => i,
            None => return Err(RegistryError::BlobUploadUnknown),
        };
        let size = self.index.uploads[i].uploaded_size;
        let new_size = match size.checked_add(trailing.len() as u64) {
            Some(v) => v,
            None => return Err(RegistryError::SizeInvalid),
        };
        if new_size > self.max_upload_size {
            return Err(RegistryError::SizeInvalid);
        }
        if let Some(e) = self.index.uploads[i].expected_size {
            if new_size > e {
                return Err(RegistryError::SizeInvalid);
            }
        }
        let ghost a = *self;
        let mut bytes = slice_to_vec(self.store.scratch[i].bytes.as_slice());
        let mut k: usize = 0;
        while k < trailing.len()
            invariant
                k <= trailing@.len(),
                bytes@ == a.store.scratch@[i as int].bytes@ + trailing@.subrange(0, k as int),
            decreases trailing@.len() - k,
        {
            bytes.push(trailing[k]);
            k = k + 1;
            assert(bytes@ =~= a.store.scratch@[i as int].bytes@ + trailing@.subrange(0, k as int));
        }
        assert(trailing@.subrange(0, trailing@.len() as int) =~= trailing@);
        let computed = sha256_digest(bytes.as_slice());
        let ds = String::from_str(digest);
        if computed != ds {
            return Err(RegistryError::DigestInvalid);
        }
        let ok = self.store_blob(ds.clone(), bytes);
        if !ok {
            return Err(RegistryError::DigestInvalid);
        }
        let ghost b = *self;
        self.link_blob(names, ds.clone());
        let ghost c = *self;
        self.remove_upload_at(i);
        proof {
            assert(b.store.scratch == a.store.scratch);
            assert(c.store.scratch == a.store.scratch);
            assert(c.index.uploads == a.index.uploads);
            assert forall|u: Seq<char>| u != id@ implies (#[trigger] a.has_session(u)
                <==> self.has_session(u)) && (a.has_session(u) ==> a.session(u)
                == self.session(u) && a.scratch_bytes(u) == self.scratch_bytes(u)) by {
                assert(c.has_session(u) == a.has_session(u));
            }
            assert forall|r: Seq<char>, e: Seq<char>| #[trigger]
                a.is_linked(r, e) implies self.is_linked(r, e) by {
                assert(b.is_linked(r, e));
            }
            assert forall|e: Seq<char>| #[trigger]
                a.has_blob(e) implies self.has_blob(e) && self.blob_bytes(e) == a.blob_bytes(e) by {
                assert(b.has_blob(e));
            }
            assert forall|e: Seq<char>| #[trigger] self.has_blob(e) implies a.has_blob(e) || e == digest@ by {
                assert(b.has_blob(e));
            }
            assert forall|r: Seq<char>, e: Seq<char>| #[trigger]
                self.is_linked(r, e) implies a.is_linked(r, e) || (r == name@ && e == digest@) by {
                assert(c.is_linked(r, e));
                if b.is_linked(r, e) {
                    assert(a.is_linked(r, e));
                }
            }
        }
        Ok(ds)
    }
}

} // verus!
