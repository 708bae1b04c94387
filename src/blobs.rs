use vstd::prelude::*;
use vstd::slice::slice_to_vec;
use crate::digest::is_digest_form;
use crate::error::RegistryError;
use crate::model::{
    digest_in_use, digest_linked_anywhere, find_link, find_stored, is_stored, lemma_stored_at,
    links_unique, stored_unique,
};
use crate::range::{handle_range_request, selected_range, RangeData};
use crate::registry::Registry;
use crate::validate::{is_valid_repository_name, validate_digest, validate_repository_name};

verus! {

impl Registry {
    /// The decision shared by the blob reads of repository `name`.
    pub open spec fn blob_read_outcome(self, name: Seq<char>, d: Seq<char>) -> Result<
        (),
        RegistryError,
    > {
        if !is_valid_repository_name(name) {
            Err(RegistryError::NameInvalid)
        } else if !is_digest_form(d) {
            Err(RegistryError::DigestInvalid)
        } else if !self.is_linked(name, d) {
            Err(RegistryError::BlobUnknown)
        } else {
            Ok(())
        }
    }

    /// Position of the committed blob `digest` of repository `name`.
    fn blob_position(&self, name: &str, digest: &str) -> (r: Result<usize, RegistryError>)
        requires
            self.wf(),
        ensures
            match self.blob_read_outcome(name@, digest@) {
                Err(e) => r == Err::<usize, RegistryError>(e),
                Ok(_) => r is Ok && r->Ok_0 < self.store.blobs@.len() && self.has_blob(digest@)
                    && self.blob_bytes(digest@) == self.store.blobs@[r->Ok_0 as int].bytes@
                    && self.index.blobs@[r->Ok_0 as int].size == self.blob_bytes(digest@).len(),
            },
    {
        validate_repository_name(name)?;
        validate_digest(digest)?;
        let names = String::from_str(name);
        let ds = String::from_str(digest);
        match find_link(&self.index.links, &names, &ds) {
            Some(j) => {
                proof {
                    assert(is_stored(self.store.blobs@, self.index.links@[j as int].digest@));
                }
                match find_stored(&self.store.blobs, &ds) {
                    Some(i) => {
                        proof {
                            lemma_stored_at(self.store.blobs@, i as int);
                            assert(self.index.blobs@[i as int].digest@ == self.store.blobs@[i as int].digest@);
                        }
                        Ok(i)
                    },
                    None => {
                        assert(self.index.links@[j as int].digest@ == ds@);
                        Err(RegistryError::BlobUnknown)
                    },
                }
            },
            None => Err(RegistryError::BlobUnknown),
        }
    }

    /// The bytes of blob `digest` of repository `name`.
    pub fn get_blob(&self, name: &str, digest: &str) -> (r: Result<Vec<u8>, RegistryError>)
        requires
            self.wf(),
        ensures
            match self.blob_read_outcome(name@, digest@) {
                Err(e) => r == Err::<Vec<u8>, RegistryError>(e),
                Ok(_) => r is Ok && r->Ok_0@ == self.blob_bytes(digest@),
            },
    {
        let i = self.blob_position(name, digest)?;
        Ok(slice_to_vec(self.store.blobs[i].bytes.as_slice()))
    }

    /// The size of blob `digest` of repository `name`.
    pub fn head_blob(&self, name: &str, digest: &str) -> (r: Result<u64, RegistryError>)
        requires
            self.wf(),
        ensures
            match self.blob_read_outcome(name@, digest@) {
                Err(e) => r == Err::<u64, RegistryError>(e),
                Ok(_) => r is Ok && r->Ok_0 == self.blob_bytes(digest@).len(),
            },
    {
        let i = self.blob_position(name, digest)?;
        Ok(self.index.blobs[i].size)
    }

    /// The part of blob `digest` that a `Range` header selects;
    /// `RangeInvalid` where it selects nothing.
    pub fn get_blob_range(&self, name: &str, digest: &str, range_header: &str) -> (r: Result<
        RangeData,
        RegistryError,
    >)
        requires
            self.wf(),
        ensures
            match self.blob_read_outcome(name@, digest@) {
                Err(e) => r is Err && r->Err_0 == e,
                Ok(_) => match selected_range(self.blob_bytes(digest@).len(), range_header@) {
                    None => r is Err && r->Err_0 == RegistryError::RangeInvalid,
                    Some((s, e)) => r is Ok && r->Ok_0.start == s && r->Ok_0.end == e
                        && r->Ok_0.data@ == self.blob_bytes(digest@).subrange(s as int, (e + 1) as int),
                },
            },
    {
        let i = self.blob_position(name, digest)?;
        match handle_range_request(self.store.blobs[i].bytes.as_slice(), range_header) {
            Some(rd) => Ok(rd),
            None => Err(RegistryError::RangeInvalid),
        }
    }

    /// Unlinks blob `digest` from repository `name`; the bytes and the blob
    /// record go once no repository holds the blob any more.
    pub fn delete_blob(&mut self, name: &str, digest: &str) -> (r: Result<(), RegistryError>)
        requires
            old(self).wf(),
        ensures
            final(self).wf(),
            match old(self).blob_read_outcome(name@, digest@) {
                Err(e) => r == Err::<(), RegistryError>(e) && *final(self) == *old(self),
                Ok(_) => r is Ok,
            },
            r is Ok ==> {
                &&& !final(self).is_linked(name@, digest@)
                &&& forall|n: Seq<char>, e: Seq<char>|
                    !(n == name@ && e == digest@) ==> (#[trigger] final(self).is_linked(n, e)
                        <==> old(self).is_linked(n, e))
                &&& final(self).has_blob(digest@) <==> digest_in_use(
                    final(self).index.links@,
                    digest@,
                )
                &&& final(self).has_blob(digest@) ==> final(self).blob_bytes(digest@) == old(self).blob_bytes(digest@)
                &&& forall|e: Seq<char>|
                    e != digest@ ==> (#[trigger] final(self).has_blob(e) <==> old(self).has_blob(e))
                        && (old(self).has_blob(e) ==> final(self).blob_bytes(e) == old(self).blob_bytes(e))
                &&& final(self).index.manifests == old(self).index.manifests
                &&& final(self).index.tags == old(self).index.tags
                &&& final(self).index.uploads == old(self).index.uploads
                &&& final(self).store.scratch == old(self).store.scratch
                &&& final(self).index.repositories == old(self).index.repositories
                &&& final(self).max_manifest_size == old(self).max_manifest_size
                &&& final(self).max_upload_size == old(self).max_upload_size
            },
    {
        validate_repository_name(name)?;
        validate_digest(digest)?;
        let names = String::from_str(name);
        let ds = String::from_str(digest);
        let j = match find_link(&self.index.links, &names, &ds) {
            Some(j) => j,
            None => return Err(RegistryError::BlobUnknown),
        };
        let ghost a = *self;
        self.index.links.remove(j);
        proof {
            let ln = self.index.links@;
            let oln = a.index.links@;
            assert forall|k: int| 0 <= k < ln.len() implies ln[k] == oln[if k < j {
                k
            } else {
                k + 1
            }] by {}
            assert(links_unique(ln)) by {
                assert forall|p: int, q: int|
                    0 <= p < ln.len() && 0 <= q < ln.len() && p != q implies !(
                    ln[p].repository@ == ln[q].repository@ && ln[p].digest@ == ln[q].digest@) by {
                    let pp = if p < j { p } else { p + 1 };
                    let qq = if q < j { q } else { q + 1 };
                    assert(ln[p] == oln[pp] && ln[q] == oln[qq]);
                }
            }
            assert forall|k: int| 0 <= k < ln.len() implies is_stored(
                self.store.blobs@,
                #[trigger] ln[k].digest@,
            ) by {
                let kk = if k < j { k } else { k + 1 };
                assert(ln[k] == oln[kk]);
                assert(is_stored(a.store.blobs@, oln[kk].digest@));
            }
            assert(self.store == a.store);
            assert(self.wf());
            assert forall|n: Seq<char>, e: Seq<char>|
                !(n == name@ && e == digest@) implies (#[trigger] self.is_linked(n, e)
                <==> a.is_linked(n, e)) by {
                if a.is_linked(n, e) {
                    let p = choose|p: int|
                        0 <= p < oln.len() && oln[p].repository@ == n && oln[p].digest@ == e;
                    assert(p != j);
                    let pp = if p < j { p } else { p - 1 };
                    assert(ln[pp] == oln[p]);
                }
                if self.is_linked(n, e) {
                    let p = choose|p: int|
                        0 <= p < ln.len() && ln[p].repository@ == n && ln[p].digest@ == e;
                    let pp = if p < j { p } else { p + 1 };
                    assert(ln[p] == oln[pp]);
                }
            }
            if self.is_linked(name@, digest@) {
                let p = choose|p: int|
                    0 <= p < ln.len() && ln[p].repository@ == name@ && ln[p].digest@ == digest@;
                let pp = if p < j { p } else { p + 1 };
                assert(ln[p] == oln[pp]);
            }
        }
        let ghost l = *self;
        if !digest_linked_anywhere(&self.index.links, &ds) {
            let ghost b = *self;
            match find_stored(&self.store.blobs, &ds) {
                Some(i) => {
                    self.store.blobs.remove(i);
                    self.index.blobs.remove(i);
                    proof {
                        let sb = self.store.blobs@;
                        let osb = b.store.blobs@;
                        assert forall|k: int| 0 <= k < sb.len() implies sb[k] == osb[if k < i {
                            k
                        } else {
                            k + 1
                        }] && self.index.blobs@[k] == b.index.blobs@[if k < i {
                            k
                        } else {
                            k + 1
                        }] by {}
                        assert(stored_unique(sb)) by {
                            assert forall|p: int, q: int|
                                0 <= p < sb.len() && 0 <= q < sb.len() && p != q implies sb[p].digest@
                                != sb[q].digest@ by {
                                let pp = if p < i { p } else { p + 1 };
                                let qq = if q < i { q } else { q + 1 };
                                assert(sb[p] == osb[pp] && sb[q] == osb[qq]);
                            }
                        }
                        let ln = self.index.links@;
                        assert forall|k: int| 0 <= k < ln.len() implies is_stored(
                            sb,
                            #[trigger] ln[k].digest@,
                        ) by {
                            let e = ln[k].digest@;
                            assert(e != digest@);
                            let p = choose|p: int| 0 <= p < osb.len() && osb[p].digest@ == e;
                            assert(p != i);
                            let pp = if p < i { p } else { p - 1 };
                            assert(sb[pp] == osb[p]);
                        }
                        assert(self.wf());
                        if self.has_blob(digest@) {
                            let p = choose|p: int| 0 <= p < sb.len() && sb[p].digest@ == digest@;
                            let pp = if p < i { p } else { p + 1 };
                            assert(sb[p] == osb[pp]);
                        }
                        assert forall|e: Seq<char>|
                            e != digest@ implies (#[trigger] self.has_blob(e) <==> b.has_blob(e))
                            && (b.has_blob(e) ==> self.blob_bytes(e) == b.blob_bytes(e)) by {
                            if b.has_blob(e) {
                                let p = choose|p: int| 0 <= p < osb.len() && osb[p].digest@ == e;
                                lemma_stored_at(osb, p);
                                assert(p != i);
                                let pp = if p < i { p } else { p - 1 };
                                assert(sb[pp] == osb[p]);
                                lemma_stored_at(sb, pp);
                            }
                            if self.has_blob(e) {
                                let p = choose|p: int| 0 <= p < sb.len() && sb[p].digest@ == e;
                                let pp = if p < i { p } else { p + 1 };
                                assert(sb[p] == osb[pp]);
                            }
                        }
                    }
                },
                None => {},
            }
        } else {
            proof {
                let p = choose|p: int|
                    0 <= p < self.index.links@.len() && self.index.links@[p].digest@ == digest@;
                assert(is_stored(self.store.blobs@, self.index.links@[p].digest@));
            }
        }
        proof {
            assert(self.index.links == l.index.links);
            assert forall|n: Seq<char>, e: Seq<char>|
                !(n == name@ && e == digest@) implies (#[trigger] self.is_linked(n, e)
                <==> a.is_linked(n, e)) by {
                assert(self.is_linked(n, e) == l.is_linked(n, e));
            }
        }
        Ok(())
    }
}

} // verus!
