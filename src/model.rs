use vstd::prelude::*;

verus! {

/// Bytes of a committed blob, held by the content store under its digest.
pub struct StoredBlob {
    pub digest: String,
    pub bytes: Vec<u8>,
}

/// Bytes of an upload in progress, held by the content store under the
/// upload id.
pub struct Scratch {
    pub id: String,
    pub bytes: Vec<u8>,
}

/// The index record of a committed blob.
pub struct BlobRecord {
    pub digest: String,
    pub size: u64,
    pub media_type: String,
}

/// Membership of a blob in a repository.
pub struct RepositoryBlob {
    pub repository: String,
    pub digest: String,
}

/// A manifest stored in a repository, as received.
pub struct Manifest {
    pub repository: String,
    pub digest: String,
    pub media_type: String,
    pub content: Vec<u8>,
}

/// A tag: a mutable name for a manifest of a repository.
pub struct Tag {
    pub repository: String,
    pub name: String,
    pub manifest_digest: String,
}

/// The index record of an upload in progress.
pub struct UploadSession {
    pub id: String,
    pub repository: String,
    pub uploaded_size: u64,
    pub expected_size: Option<u64>,
    pub created_at: u64,
    pub expires_at: u64,
}

// ---- manifests, keyed by (repository, digest)
pub open spec fn manifest_keys_unique(s: Seq<Manifest>) -> bool {
    forall|i: int, j: int|
        0 <= i < s.len() && 0 <= j < s.len() && i != j ==> !(s[i].repository@ == s[j].repository@
            && s[i].digest@ == s[j].digest@)
}

pub open spec fn has_manifest(s: Seq<Manifest>, r: Seq<char>, d: Seq<char>) -> bool {
    exists|i: int| 0 <= i < s.len() && s[i].repository@ == r && s[i].digest@ == d
}

/// The manifest stored under `(r, d)`; meaningful where `has_manifest`.
pub open spec fn manifest_of(s: Seq<Manifest>, r: Seq<char>, d: Seq<char>) -> Manifest {
    s[choose|i: int| 0 <= i < s.len() && s[i].repository@ == r && s[i].digest@ == d]
}

pub proof fn lemma_manifest_at(s: Seq<Manifest>, i: int)
    requires
        manifest_keys_unique(s),
        0 <= i < s.len(),
    ensures
        has_manifest(s, s[i].repository@, s[i].digest@),
        manifest_of(s, s[i].repository@, s[i].digest@) == s[i],
{
    let r = s[i].repository@;
    let d = s[i].digest@;
    assert(0 <= i < s.len() && s[i].repository@ == r && s[i].digest@ == d);
    let j = choose|j: int| 0 <= j < s.len() && s[j].repository@ == r && s[j].digest@ == d;
    assert(i == j);
}

// ---- tags, keyed by (repository, name)
pub open spec fn tag_keys_unique(s: Seq<Tag>) -> bool {
    forall|i: int, j: int|
        0 <= i < s.len() && 0 <= j < s.len() && i != j ==> !(s[i].repository@ == s[j].repository@
            && s[i].name@ == s[j].name@)
}

pub open spec fn has_tag(s: Seq<Tag>, r: Seq<char>, t: Seq<char>) -> bool {
    exists|i: int| 0 <= i < s.len() && s[i].repository@ == r && s[i].name@ == t
}

/// The digest that tag `t` of repository `r` points at; meaningful where
/// `has_tag`.
pub open spec fn tag_target(s: Seq<Tag>, r: Seq<char>, t: Seq<char>) -> Seq<char> {
    s[choose|i: int| 0 <= i < s.len() && s[i].repository@ == r && s[i].name@ == t].manifest_digest@
}

/// How many tag rows carry the key `(r, t)`.
pub open spec fn tag_rows(s: Seq<Tag>, r: Seq<char>, t: Seq<char>) -> int
    decreases s.len(),
{
    if s.len() == 0 {
        0
    } else {
        tag_rows(s.drop_last(), r, t) + if s.last().repository@ == r && s.last().name@ == t {
            1int
        } else {
            0int
        }
    }
}

pub proof fn lemma_tag_at(s: Seq<Tag>, i: int)
    requires
        tag_keys_unique(s),
        0 <= i < s.len(),
    ensures
        has_tag(s, s[i].repository@, s[i].name@),
        tag_target(s, s[i].repository@, s[i].name@) == s[i].manifest_digest@,
{
    let r = s[i].repository@;
    let t = s[i].name@;
    assert(0 <= i < s.len() && s[i].repository@ == r && s[i].name@ == t);
    let j = choose|j: int| 0 <= j < s.len() && s[j].repository@ == r && s[j].name@ == t;
    assert(i == j);
}

/// With unique keys a key has at most one row.
pub proof fn lemma_tag_rows_unique(s: Seq<Tag>, r: Seq<char>, t: Seq<char>)
    requires
        tag_keys_unique(s),
    ensures
        tag_rows(s, r, t) == (if has_tag(s, r, t) { 1int } else { 0int }),
    decreases s.len(),
{
    if s.len() > 0 {
        let p = s.drop_last();
        assert(tag_keys_unique(p)) by {
            assert forall|i: int, j: int|
                0 <= i < p.len() && 0 <= j < p.len() && i != j implies !(
                p[i].repository@ == p[j].repository@ && p[i].name@ == p[j].name@) by {
                assert(p[i] == s[i] && p[j] == s[j]);
            }
        }
        lemma_tag_rows_unique(p, r, t);
        let l = s.len() - 1;
        if s[l].repository@ == r && s[l].name@ == t {
            if has_tag(p, r, t) {
                let i = choose|i: int| 0 <= i < p.len() && p[i].repository@ == r && p[i].name@ == t;
                assert(s[i] == p[i]);
            }
            assert(has_tag(s, r, t));
        } else {
            if has_tag(p, r, t) {
                let i = choose|i: int| 0 <= i < p.len() && p[i].repository@ == r && p[i].name@ == t;
                assert(s[i] == p[i]);
                assert(has_tag(s, r, t));
            }
            if has_tag(s, r, t) {
                let i = choose|i: int| 0 <= i < s.len() && s[i].repository@ == r && s[i].name@ == t;
                assert(i != l);
                assert(p[i] == s[i]);
                assert(has_tag(p, r, t));
            }
        }
    }
}


/// Pushing a manifest with a new key keeps every other key as it was.
pub proof fn lemma_manifest_push(s: Seq<Manifest>, x: Manifest)
    requires
        manifest_keys_unique(s),
        !has_manifest(s, x.repository@, x.digest@),
    ensures
        manifest_keys_unique(s.push(x)),
        has_manifest(s.push(x), x.repository@, x.digest@),
        manifest_of(s.push(x), x.repository@, x.digest@) == x,
        forall|r: Seq<char>, d: Seq<char>|
            !(r == x.repository@ && d == x.digest@) ==> (#[trigger] has_manifest(s.push(x), r, d)
                <==> has_manifest(s, r, d)) && (has_manifest(s, r, d) ==> manifest_of(
                s.push(x),
                r,
                d,
            ) == manifest_of(s, r, d)),
{
    let t = s.push(x);
    assert forall|i: int, j: int|
        0 <= i < t.len() && 0 <= j < t.len() && i != j implies !(t[i].repository@
        == t[j].repository@ && t[i].digest@ == t[j].digest@) by {
        if i < s.len() && j < s.len() {
            assert(t[i] == s[i] && t[j] == s[j]);
        } else if i == s.len() {
            assert(t[j] == s[j]);
        } else {
            assert(t[i] == s[i]);
        }
    }
    lemma_manifest_at(t, s.len() as int);
    assert forall|r: Seq<char>, d: Seq<char>|
        !(r == x.repository@ && d == x.digest@) implies (#[trigger] has_manifest(t, r, d)
        <==> has_manifest(s, r, d)) && (has_manifest(s, r, d) ==> manifest_of(t, r, d)
        == manifest_of(s, r, d)) by {
        if has_manifest(s, r, d) {
            let i = choose|i: int| 0 <= i < s.len() && s[i].repository@ == r && s[i].digest@ == d;
            lemma_manifest_at(s, i);
            assert(t[i] == s[i]);
            lemma_manifest_at(t, i);
        }
        if has_manifest(t, r, d) {
            let i = choose|i: int| 0 <= i < t.len() && t[i].repository@ == r && t[i].digest@ == d;
            assert(i < s.len());
            assert(t[i] == s[i]);
        }
    }
}

/// Replacing a manifest by one with the same key keeps every other key.
pub proof fn lemma_manifest_update(s: Seq<Manifest>, i: int, x: Manifest)
    requires
        manifest_keys_unique(s),
        0 <= i < s.len(),
        x.repository@ == s[i].repository@,
        x.digest@ == s[i].digest@,
    ensures
        manifest_keys_unique(s.update(i, x)),
        has_manifest(s.update(i, x), x.repository@, x.digest@),
        manifest_of(s.update(i, x), x.repository@, x.digest@) == x,
        forall|r: Seq<char>, d: Seq<char>|
            (#[trigger] has_manifest(s.update(i, x), r, d) <==> has_manifest(s, r, d)),
        forall|r: Seq<char>, d: Seq<char>|
            !(r == x.repository@ && d == x.digest@) && has_manifest(s, r, d) ==> #[trigger] manifest_of(
                s.update(i, x),
                r,
                d,
            ) == manifest_of(s, r, d),
{
    let t = s.update(i, x);
    assert forall|p: int, q: int|
        0 <= p < t.len() && 0 <= q < t.len() && p != q implies !(t[p].repository@
        == t[q].repository@ && t[p].digest@ == t[q].digest@) by {
        assert(t[p].repository@ == s[p].repository@ && t[p].digest@ == s[p].digest@);
        assert(t[q].repository@ == s[q].repository@ && t[q].digest@ == s[q].digest@);
    }
    lemma_manifest_at(t, i);
    assert forall|r: Seq<char>, d: Seq<char>|
        (#[trigger] has_manifest(t, r, d) <==> has_manifest(s, r, d)) by {
        if has_manifest(s, r, d) {
            let j = choose|j: int| 0 <= j < s.len() && s[j].repository@ == r && s[j].digest@ == d;
            assert(t[j].repository@ == r && t[j].digest@ == d);
        }
        if has_manifest(t, r, d) {
            let j = choose|j: int| 0 <= j < t.len() && t[j].repository@ == r && t[j].digest@ == d;
            assert(s[j].repository@ == r && s[j].digest@ == d);
        }
    }
    assert forall|r: Seq<char>, d: Seq<char>|
        !(r == x.repository@ && d == x.digest@) && has_manifest(s, r, d) implies #[trigger] manifest_of(
        t,
        r,
        d,
    ) == manifest_of(s, r, d) by {
        let j = choose|j: int| 0 <= j < s.len() && s[j].repository@ == r && s[j].digest@ == d;
        lemma_manifest_at(s, j);
        assert(j != i);
        assert(t[j] == s[j]);
        lemma_manifest_at(t, j);
    }
}

/// Removing a manifest drops its key and keeps every other key.
pub proof fn lemma_manifest_remove(s: Seq<Manifest>, i: int)
    requires
        manifest_keys_unique(s),
        0 <= i < s.len(),
    ensures
        manifest_keys_unique(s.remove(i)),
        !has_manifest(s.remove(i), s[i].repository@, s[i].digest@),
        forall|r: Seq<char>, d: Seq<char>|
            !(r == s[i].repository@ && d == s[i].digest@) ==> (#[trigger] has_manifest(
                s.remove(i),
                r,
                d,
            ) <==> has_manifest(s, r, d)) && (has_manifest(s, r, d) ==> manifest_of(
                s.remove(i),
                r,
                d,
            ) == manifest_of(s, r, d)),
{
    let t = s.remove(i);
    assert forall|k: int| 0 <= k < t.len() implies t[k] == s[if k < i {
        k
    } else {
        k + 1
    }] by {}
    assert forall|p: int, q: int|
        0 <= p < t.len() && 0 <= q < t.len() && p != q implies !(t[p].repository@
        == t[q].repository@ && t[p].digest@ == t[q].digest@) by {
        let pp = if p < i { p } else { p + 1 };
        let qq = if q < i { q } else { q + 1 };
        assert(t[p] == s[pp] && t[q] == s[qq]);
    }
    if has_manifest(t, s[i].repository@, s[i].digest@) {
        let k = choose|k: int|
            0 <= k < t.len() && t[k].repository@ == s[i].repository@ && t[k].digest@ == s[i].digest@;
        let kk = if k < i { k } else { k + 1 };
        assert(t[k] == s[kk]);
    }
    assert forall|r: Seq<char>, d: Seq<char>|
        !(r == s[i].repository@ && d == s[i].digest@) implies (#[trigger] has_manifest(t, r, d)
        <==> has_manifest(s, r, d)) && (has_manifest(s, r, d) ==> manifest_of(t, r, d)
        == manifest_of(s, r, d)) by {
        if has_manifest(s, r, d) {
            let j = choose|j: int| 0 <= j < s.len() && s[j].repository@ == r && s[j].digest@ == d;
            lemma_manifest_at(s, j);
            assert(j != i);
            let jj = if j < i { j } else { j - 1 };
            assert(t[jj] == s[j]);
            lemma_manifest_at(t, jj);
        }
        if has_manifest(t, r, d) {
            let k = choose|k: int| 0 <= k < t.len() && t[k].repository@ == r && t[k].digest@ == d;
            let kk = if k < i { k } else { k + 1 };
            assert(t[k] == s[kk]);
        }
    }
}

/// Pushing a tag with a new key keeps every other key as it was.
pub proof fn lemma_tag_push(s: Seq<Tag>, x: Tag)
    requires
        tag_keys_unique(s),
        !has_tag(s, x.repository@, x.name@),
    ensures
        tag_keys_unique(s.push(x)),
        has_tag(s.push(x), x.repository@, x.name@),
        tag_target(s.push(x), x.repository@, x.name@) == x.manifest_digest@,
        forall|r: Seq<char>, t: Seq<char>|
            !(r == x.repository@ && t == x.name@) ==> (#[trigger] has_tag(s.push(x), r, t)
                <==> has_tag(s, r, t)),
        forall|r: Seq<char>, t: Seq<char>|
            !(r == x.repository@ && t == x.name@) && has_tag(s, r, t) ==> #[trigger] tag_target(
                s.push(x),
                r,
                t,
            ) == tag_target(s, r, t),
{
    let u = s.push(x);
    assert forall|i: int, j: int|
        0 <= i < u.len() && 0 <= j < u.len() && i != j implies !(u[i].repository@
        == u[j].repository@ && u[i].name@ == u[j].name@) by {
        if i < s.len() && j < s.len() {
            assert(u[i] == s[i] && u[j] == s[j]);
        } else if i == s.len() {
            assert(u[j] == s[j]);
        } else {
            assert(u[i] == s[i]);
        }
    }
    lemma_tag_at(u, s.len() as int);
    assert forall|r: Seq<char>, t: Seq<char>|
        !(r == x.repository@ && t == x.name@) && has_tag(s, r, t) implies #[trigger] tag_target(
        u,
        r,
        t,
    ) == tag_target(s, r, t) by {
        let i = choose|i: int| 0 <= i < s.len() && s[i].repository@ == r && s[i].name@ == t;
        lemma_tag_at(s, i);
        assert(u[i] == s[i]);
        lemma_tag_at(u, i);
    }
    assert forall|r: Seq<char>, t: Seq<char>|
        !(r == x.repository@ && t == x.name@) implies (#[trigger] has_tag(u, r, t) <==> has_tag(
        s,
        r,
        t,
    )) by {
        if has_tag(s, r, t) {
            let i = choose|i: int| 0 <= i < s.len() && s[i].repository@ == r && s[i].name@ == t;
            assert(u[i] == s[i]);
        }
        if has_tag(u, r, t) {
            let i = choose|i: int| 0 <= i < u.len() && u[i].repository@ == r && u[i].name@ == t;
            assert(i < s.len());
            assert(u[i] == s[i]);
        }
    }
}

/// Replacing a tag by one with the same key keeps every other key.
pub proof fn lemma_tag_update(s: Seq<Tag>, i: int, x: Tag)
    requires
        tag_keys_unique(s),
        0 <= i < s.len(),
        x.repository@ == s[i].repository@,
        x.name@ == s[i].name@,
    ensures
        tag_keys_unique(s.update(i, x)),
        has_tag(s.update(i, x), x.repository@, x.name@),
        tag_target(s.update(i, x), x.repository@, x.name@) == x.manifest_digest@,
        forall|r: Seq<char>, t: Seq<char>|
            (#[trigger] has_tag(s.update(i, x), r, t) <==> has_tag(s, r, t)),
        forall|r: Seq<char>, t: Seq<char>|
            !(r == x.repository@ && t == x.name@) && has_tag(s, r, t) ==> #[trigger] tag_target(
                s.update(i, x),
                r,
                t,
            ) == tag_target(s, r, t),
{
    let u = s.update(i, x);
    assert forall|p: int, q: int|
        0 <= p < u.len() && 0 <= q < u.len() && p != q implies !(u[p].repository@
        == u[q].repository@ && u[p].name@ == u[q].name@) by {
        assert(u[p].repository@ == s[p].repository@ && u[p].name@ == s[p].name@);
        assert(u[q].repository@ == s[q].repository@ && u[q].name@ == s[q].name@);
    }
    lemma_tag_at(u, i);
    assert forall|r: Seq<char>, t: Seq<char>| (#[trigger] has_tag(u, r, t) <==> has_tag(s, r, t)) by {
        if has_tag(s, r, t) {
            let j = choose|j: int| 0 <= j < s.len() && s[j].repository@ == r && s[j].name@ == t;
            assert(u[j].repository@ == r && u[j].name@ == t);
        }
        if has_tag(u, r, t) {
            let j = choose|j: int| 0 <= j < u.len() && u[j].repository@ == r && u[j].name@ == t;
            assert(s[j].repository@ == r && s[j].name@ == t);
        }
    }
    assert forall|r: Seq<char>, t: Seq<char>|
        !(r == x.repository@ && t == x.name@) && has_tag(s, r, t) implies #[trigger] tag_target(
        u,
        r,
        t,
    ) == tag_target(s, r, t) by {
        let j = choose|j: int| 0 <= j < s.len() && s[j].repository@ == r && s[j].name@ == t;
        lemma_tag_at(s, j);
        assert(j != i);
        assert(u[j] == s[j]);
        lemma_tag_at(u, j);
    }
}

/// Removing a tag drops its key and keeps every other key.
pub proof fn lemma_tag_remove(s: Seq<Tag>, i: int)
    requires
        tag_keys_unique(s),
        0 <= i < s.len(),
    ensures
        tag_keys_unique(s.remove(i)),
        !has_tag(s.remove(i), s[i].repository@, s[i].name@),
        forall|r: Seq<char>, t: Seq<char>|
            !(r == s[i].repository@ && t == s[i].name@) ==> (#[trigger] has_tag(s.remove(i), r, t)
                <==> has_tag(s, r, t)),
        forall|r: Seq<char>, t: Seq<char>|
            !(r == s[i].repository@ && t == s[i].name@) && has_tag(s, r, t) ==> #[trigger] tag_target(
                s.remove(i),
                r,
                t,
            ) == tag_target(s, r, t),
{
    let u = s.remove(i);
    assert forall|k: int| 0 <= k < u.len() implies u[k] == s[if k < i {
        k
    } else {
        k + 1
    }] by {}
    assert forall|p: int, q: int|
        0 <= p < u.len() && 0 <= q < u.len() && p != q implies !(u[p].repository@
        == u[q].repository@ && u[p].name@ == u[q].name@) by {
        let pp = if p < i { p } else { p + 1 };
        let qq = if q < i { q } else { q + 1 };
        assert(u[p] == s[pp] && u[q] == s[qq]);
    }
    if has_tag(u, s[i].repository@, s[i].name@) {
        let k = choose|k: int|
            0 <= k < u.len() && u[k].repository@ == s[i].repository@ && u[k].name@ == s[i].name@;
        let kk = if k < i { k } else { k + 1 };
        assert(u[k] == s[kk]);
    }
    assert forall|r: Seq<char>, t: Seq<char>|
        !(r == s[i].repository@ && t == s[i].name@) && has_tag(s, r, t) implies #[trigger] tag_target(
        u,
        r,
        t,
    ) == tag_target(s, r, t) by {
        let j = choose|j: int| 0 <= j < s.len() && s[j].repository@ == r && s[j].name@ == t;
        lemma_tag_at(s, j);
        assert(j != i);
        let jj = if j < i { j } else { j - 1 };
        assert(u[jj] == s[j]);
        lemma_tag_at(u, jj);
    }
    assert forall|r: Seq<char>, t: Seq<char>|
        !(r == s[i].repository@ && t == s[i].name@) implies (#[trigger] has_tag(u, r, t)
        <==> has_tag(s, r, t)) by {
        if has_tag(s, r, t) {
            let j = choose|j: int| 0 <= j < s.len() && s[j].repository@ == r && s[j].name@ == t;
            assert(j != i);
            let jj = if j < i { j } else { j - 1 };
            assert(u[jj] == s[j]);
        }
        if has_tag(u, r, t) {
            let k = choose|k: int| 0 <= k < u.len() && u[k].repository@ == r && u[k].name@ == t;
            let kk = if k < i { k } else { k + 1 };
            assert(u[k] == s[kk]);
        }
    }
}

// ---- blob membership, keyed by (repository, digest)
pub open spec fn is_linked(s: Seq<RepositoryBlob>, r: Seq<char>, d: Seq<char>) -> bool {
    exists|i: int| 0 <= i < s.len() && s[i].repository@ == r && s[i].digest@ == d
}

pub open spec fn links_unique(s: Seq<RepositoryBlob>) -> bool {
    forall|i: int, j: int|
        0 <= i < s.len() && 0 <= j < s.len() && i != j ==> !(s[i].repository@ == s[j].repository@
            && s[i].digest@ == s[j].digest@)
}

/// Whether any repository still holds digest `d`.
pub open spec fn digest_in_use(s: Seq<RepositoryBlob>, d: Seq<char>) -> bool {
    exists|i: int| 0 <= i < s.len() && s[i].digest@ == d
}

// ---- committed blobs in the content store, keyed by digest
pub open spec fn stored_unique(s: Seq<StoredBlob>) -> bool {
    forall|i: int, j: int| 0 <= i < s.len() && 0 <= j < s.len() && i != j ==> s[i].digest@ != s[j].digest@
}

pub open spec fn is_stored(s: Seq<StoredBlob>, d: Seq<char>) -> bool {
    exists|i: int| 0 <= i < s.len() && s[i].digest@ == d
}

/// The bytes stored under digest `d`; meaningful where `is_stored`.
pub open spec fn stored_bytes(s: Seq<StoredBlob>, d: Seq<char>) -> Seq<u8> {
    s[choose|i: int| 0 <= i < s.len() && s[i].digest@ == d].bytes@
}

pub proof fn lemma_stored_at(s: Seq<StoredBlob>, i: int)
    requires
        stored_unique(s),
        0 <= i < s.len(),
    ensures
        is_stored(s, s[i].digest@),
        stored_bytes(s, s[i].digest@) == s[i].bytes@,
{
    let d = s[i].digest@;
    assert(0 <= i < s.len() && s[i].digest@ == d);
    let j = choose|j: int| 0 <= j < s.len() && s[j].digest@ == d;
    assert(i == j);
}

/// Blob records of the index, keyed by digest.
pub open spec fn has_blob_record(s: Seq<BlobRecord>, d: Seq<char>) -> bool {
    exists|i: int| 0 <= i < s.len() && s[i].digest@ == d
}

// ---- upload sessions, keyed by id
pub open spec fn upload_ids_unique(s: Seq<UploadSession>) -> bool {
    forall|i: int, j: int| 0 <= i < s.len() && 0 <= j < s.len() && i != j ==> s[i].id@ != s[j].id@
}

pub open spec fn has_upload(s: Seq<UploadSession>, id: Seq<char>) -> bool {
    exists|i: int| 0 <= i < s.len() && s[i].id@ == id
}

// ---- exec searches
pub fn find_manifest(s: &Vec<Manifest>, r: &String, d: &String) -> (res: Option<usize>)
    ensures
        match res {
            Some(i) => i < s@.len() && s@[i as int].repository@ == r@ && s@[i as int].digest@ == d@,
            None => !has_manifest(s@, r@, d@),
        },
{
    let mut i: usize = 0;
    while i < s.len()
        invariant
            i <= s@.len(),
            forall|j: int| 0 <= j < i ==> !(s@[j].repository@ == r@ && s@[j].digest@ == d@),
        decreases s@.len() - i,
    {
        if s[i].repository == *r && s[i].digest == *d {
            return Some(i);
        }
        i = i + 1;
    }
    None
}

pub fn find_tag(s: &Vec<Tag>, r: &String, t: &String) -> (res: Option<usize>)
    ensures
        match res {
            Some(i) => i < s@.len() && s@[i as int].repository@ == r@ && s@[i as int].name@ == t@,
            None => !has_tag(s@, r@, t@),
        },
{
    let mut i: usize = 0;
    while i < s.len()
        invariant
            i <= s@.len(),
            forall|j: int| 0 <= j < i ==> !(s@[j].repository@ == r@ && s@[j].name@ == t@),
        decreases s@.len() - i,
    {
        if s[i].repository == *r && s[i].name == *t {
            return Some(i);
        }
        i = i + 1;
    }
    None
}

pub fn find_link(s: &Vec<RepositoryBlob>, r: &String, d: &String) -> (res: Option<usize>)
    ensures
        match res {
            Some(i) => i < s@.len() && s@[i as int].repository@ == r@ && s@[i as int].digest@ == d@,
            None => !is_linked(s@, r@, d@),
        },
{
    let mut i: usize = 0;
    while i < s.len()
        invariant
            i <= s@.len(),
            forall|j: int| 0 <= j < i ==> !(s@[j].repository@ == r@ && s@[j].digest@ == d@),
        decreases s@.len() - i,
    {
        if s[i].repository == *r && s[i].digest == *d {
            return Some(i);
        }
        i = i + 1;
    }
    None
}

pub fn digest_linked_anywhere(s: &Vec<RepositoryBlob>, d: &String) -> (res: bool)
    ensures
        res == digest_in_use(s@, d@),
{
    let mut i: usize = 0;
    while i < s.len()
        invariant
            i <= s@.len(),
            forall|j: int| 0 <= j < i ==> s@[j].digest@ != d@,
        decreases s@.len() - i,
    {
        if s[i].digest == *d {
            return true;
        }
        i = i + 1;
    }
    false
}

pub fn find_stored(s: &Vec<StoredBlob>, d: &String) -> (res: Option<usize>)
    ensures
        match res {
            Some(i) => i < s@.len() && s@[i as int].digest@ == d@,
            None => !is_stored(s@, d@),
        },
{
    let mut i: usize = 0;
    while i < s.len()
        invariant
            i <= s@.len(),
            forall|j: int| 0 <= j < i ==> s@[j].digest@ != d@,
        decreases s@.len() - i,
    {
        if s[i].digest == *d {
            return Some(i);
        }
        i = i + 1;
    }
    None
}

pub fn find_upload(s: &Vec<UploadSession>, id: &String) -> (res: Option<usize>)
    ensures
        match res {
            Some(i) => i < s@.len() && s@[i as int].id@ == id@,
            None => !has_upload(s@, id@),
        },
{
    let mut i: usize = 0;
    while i < s.len()
        invariant
            i <= s@.len(),
            forall|j: int| 0 <= j < i ==> s@[j].id@ != id@,
        decreases s@.len() - i,
    {
        if s[i].id == *id {
            return Some(i);
        }
        i = i + 1;
    }
    None
}

pub fn contains_string(s: &Vec<String>, x: &String) -> (res: bool)
    ensures
        res == (exists|i: int| 0 <= i < s@.len() && s@[i]@ == x@),
{
    let mut i: usize = 0;
    while i < s.len()
        invariant
            i <= s@.len(),
            forall|j: int| 0 <= j < i ==> s@[j]@ != x@,
        decreases s@.len() - i,
    {
        if s[i] == *x {
            return true;
        }
        i = i + 1;
    }
    false
}

} // verus!
