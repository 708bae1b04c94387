//! Properties of the registry that span several operations, proved from
//! the operations' contracts and the registry's invariant.
use vstd::prelude::*;
use crate::digest::{digest_of, is_digest_form};
use crate::model::{has_blob_record, has_manifest, has_tag, manifest_of, tag_rows, tag_target};
use crate::registry::{chunk_appended, upload_committed, upload_created, Registry};
use crate::validate::{has_digest_prefix, is_valid_repository_name, lemma_digest_is_not_tag};

verus! {

/// A committed blob hashes to its digest, and its index record gives its
/// exact size.
pub proof fn law_committed_blob_integrity(r: Registry, d: Seq<char>)
    requires
        r.wf(),
        r.has_blob(d),
    ensures
        digest_of(r.blob_bytes(d)) == d,
        is_digest_form(d),
        exists|i: int|
            0 <= i < r.index.blobs@.len() && r.index.blobs@[i].digest@ == d && r.index.blobs@[i].size
                == r.blob_bytes(d).len(),
{
    let i = choose|i: int| 0 <= i < r.store.blobs@.len() && r.store.blobs@[i].digest@ == d;
    crate::model::lemma_stored_at(r.store.blobs@, i);
    assert(r.index.blobs@[i].digest@ == r.store.blobs@[i].digest@);
}

/// A blob's bytes are in the content store exactly when the index holds a
/// record for its digest: no orphan bytes and no dangling record.
pub proof fn law_store_matches_index(r: Registry, d: Seq<char>)
    requires
        r.wf(),
    ensures
        r.has_blob(d) <==> has_blob_record(r.index.blobs@, d),
{
    if r.has_blob(d) {
        let i = choose|i: int| 0 <= i < r.store.blobs@.len() && r.store.blobs@[i].digest@ == d;
        assert(r.index.blobs@[i].digest@ == r.store.blobs@[i].digest@);
    }
    if has_blob_record(r.index.blobs@, d) {
        let i = choose|i: int| 0 <= i < r.index.blobs@.len() && r.index.blobs@[i].digest@ == d;
        assert(r.index.blobs@[i].digest@ == r.store.blobs@[i].digest@);
    }
}

/// Reading a manifest through a tag succeeds and gives what reading it
/// through the tag's digest gives.
pub proof fn law_tag_read_matches_digest_read(r: Registry, name: Seq<char>, tag: Seq<char>)
    requires
        r.wf(),
        has_tag(r.index.tags@, name, tag),
    ensures
        ({
            let d = tag_target(r.index.tags@, name, tag);
            &&& has_digest_prefix(d)
            &&& r.manifest_read_outcome(name, tag) is Ok
            &&& r.manifest_read_outcome(name, tag) == r.manifest_read_outcome(name, d)
            &&& r.resolve(name, tag) == r.resolve(name, d)
        }),
{
    let d = tag_target(r.index.tags@, name, tag);
    let i = choose|i: int|
        0 <= i < r.index.tags@.len() && r.index.tags@[i].repository@ == name && r.index.tags@[i].name@
            == tag;
    crate::model::lemma_tag_at(r.index.tags@, i);
    assert(crate::registry::tag_well_placed(r.index.repositories@, r.index.tags@[i]));
    assert(has_manifest(r.index.manifests@, r.index.tags@[i].repository@, r.index.tags@[i].manifest_digest@));
    let j = choose|j: int|
        0 <= j < r.index.manifests@.len() && r.index.manifests@[j].repository@ == name
            && r.index.manifests@[j].digest@ == d;
    assert(is_digest_form(r.index.manifests@[j].digest@));
    if has_digest_prefix(tag) {
        lemma_digest_is_not_tag(tag);
    }
}

/// After a manifest is stored, reading it back by its digest gives the
/// stored bytes, and the digest is that of the bytes.
pub proof fn law_manifest_round_trip(r: Registry, name: Seq<char>, body: Seq<u8>)
    requires
        r.wf(),
        is_valid_repository_name(name),
        r.has_repository(name),
        has_manifest(r.index.manifests@, name, digest_of(body)),
        manifest_of(r.index.manifests@, name, digest_of(body)).content@ == body,
    ensures
        r.manifest_read_outcome(name, digest_of(body)) is Ok,
        r.resolve(name, digest_of(body)) == digest_of(body),
        manifest_of(r.index.manifests@, name, r.resolve(name, digest_of(body))).content@ == body,
{
    let d = digest_of(body);
    let j = choose|j: int|
        0 <= j < r.index.manifests@.len() && r.index.manifests@[j].repository@ == name
            && r.index.manifests@[j].digest@ == d;
    assert(is_digest_form(r.index.manifests@[j].digest@));
}

/// The bytes received by an upload only grow.
pub proof fn law_upload_size_monotone(a: Registry, b: Registry, id: Seq<char>, chunk: Seq<u8>)
    requires
        chunk_appended(a, b, id, chunk),
    ensures
        b.session(id).uploaded_size >= a.session(id).uploaded_size,
        b.scratch_bytes(id).subrange(0, a.scratch_bytes(id).len() as int) == a.scratch_bytes(id),
{
    assert(b.scratch_bytes(id).subrange(0, a.scratch_bytes(id).len() as int) =~= a.scratch_bytes(id));
}

/// Uploading bytes in two chunks, split anywhere, leaves the same bytes as
/// uploading them in one.
pub proof fn law_chunked_upload(
    a: Registry,
    b: Registry,
    c: Registry,
    id: Seq<char>,
    bytes: Seq<u8>,
    k: int,
)
    requires
        0 <= k <= bytes.len(),
        chunk_appended(a, b, id, bytes.subrange(0, k)),
        chunk_appended(b, c, id, bytes.subrange(k, bytes.len() as int)),
    ensures
        c.scratch_bytes(id) == a.scratch_bytes(id) + bytes,
        c.session(id).uploaded_size == a.session(id).uploaded_size + bytes.len(),
{
    assert(bytes.subrange(0, k) + bytes.subrange(k, bytes.len() as int) =~= bytes);
    assert(a.scratch_bytes(id) + bytes.subrange(0, k) + bytes.subrange(k, bytes.len() as int)
        =~= a.scratch_bytes(id) + bytes);
}

/// Opening an upload, sending the whole body and finishing with the body's
/// digest commits a blob whose bytes are the body, readable in the
/// repository.
pub proof fn law_upload_round_trip(
    r0: Registry,
    r1: Registry,
    r2: Registry,
    r3: Registry,
    name: Seq<char>,
    id: Seq<char>,
    expected: Option<u64>,
    now: u64,
    body: Seq<u8>,
)
    requires
        r3.wf(),
        is_valid_repository_name(name),
        upload_created(r0, r1, name, id, expected, now),
        chunk_appended(r1, r2, id, body),
        upload_committed(r2, r3, name, id, digest_of(body), r2.scratch_bytes(id)),
    ensures
        r3.blob_read_outcome(name, digest_of(body)) is Ok,
        r3.blob_bytes(digest_of(body)) == body,
{
    assert(Seq::<u8>::empty() + body =~= body);
    law_committed_blob_integrity(r3, digest_of(body));
}

/// Finishing a second upload of bytes already committed adds no blob: the
/// store and the blob records stay as the first left them.
pub proof fn law_second_commit_adds_no_blob(
    r1: Registry,
    r2: Registry,
    name: Seq<char>,
    id: Seq<char>,
    d: Seq<char>,
    bytes: Seq<u8>,
)
    requires
        r1.has_blob(d),
        upload_committed(r1, r2, name, id, d, bytes),
    ensures
        r2.store.blobs == r1.store.blobs,
        r2.index.blobs == r1.index.blobs,
{
}

/// A digest has at most one blob record.
pub proof fn law_blob_record_unique(r: Registry, i: int, j: int)
    requires
        r.wf(),
        0 <= i < r.index.blobs@.len(),
        0 <= j < r.index.blobs@.len(),
        r.index.blobs@[i].digest@ == r.index.blobs@[j].digest@,
    ensures
        i == j,
{
    assert(r.index.blobs@[i].digest@ == r.store.blobs@[i].digest@);
    assert(r.index.blobs@[j].digest@ == r.store.blobs@[j].digest@);
}

/// A tag that exists has exactly one row, however often it was set.
pub proof fn law_tag_single_row(r: Registry, name: Seq<char>, tag: Seq<char>)
    requires
        r.wf(),
        has_tag(r.index.tags@, name, tag),
    ensures
        tag_rows(r.index.tags@, name, tag) == 1,
{
    crate::model::lemma_tag_rows_unique(r.index.tags@, name, tag);
}

} // verus!
