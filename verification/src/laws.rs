//! The guarantees of the write protocol, stated and proved over the store
//! views that the orchestrators' contracts use.

use vstd::prelude::*;

use crate::engine::{spec_download, spec_location, spec_record};
use crate::error::AppError;
use crate::image_type::{spec_detect, ImageType, SIGNATURE_LEN};
use crate::store::RecordView;

verus! {

/// No dangling metadata: every visible record's location resolves in the
/// blob store. Uploads and deletions preserve this; the only inconsistency
/// either can leave is the reverse one, an unreferenced blob.
pub open spec fn no_dangling(
    meta: Map<Seq<char>, RecordView>,
    blobs: Map<Seq<char>, Seq<u8>>,
) -> bool {
    forall|id: Seq<char>|
        meta.contains_key(id) ==> blobs.contains_key((#[trigger] meta[id]).location)
}

/// Every record is keyed by its own identifier, of the generated length,
/// and points at the location derived from that identifier and its
/// declared type. Uploads only ever commit such records.
pub open spec fn canonical(meta: Map<Seq<char>, RecordView>, dir: Seq<char>) -> bool {
    forall|id: Seq<char>|
        meta.contains_key(id) ==> {
            let rec = #[trigger] meta[id];
            rec.id == id && rec.location == spec_location(dir, id, rec.declared_type) && id.len()
                == 36
        }
}

/// A buffer shorter than the signature window is rejected: it never
/// matches any format, so it is turned away rather than treated as a crash
/// or an ambiguous match.
pub proof fn lemma_short_input_rejected(b: Seq<u8>)
    requires
        b.len() < SIGNATURE_LEN,
    ensures
        spec_detect(b) is None,
{
}

/// Locations embed the identifier, so two identifiers of equal length that
/// differ give different locations, whatever the two formats are.
pub proof fn lemma_location_injective(
    dir: Seq<char>,
    id1: Seq<char>,
    id2: Seq<char>,
    t1: ImageType,
    t2: ImageType,
)
    requires
        id1.len() == id2.len(),
        id1 != id2,
    ensures
        spec_location(dir, id1, t1) != spec_location(dir, id2, t2),
{
    reveal_strlit("/");
    reveal_strlit(".");
    let l1 = spec_location(dir, id1, t1);
    let l2 = spec_location(dir, id2, t2);
    if l1 == l2 {
        assert forall|k: int| 0 <= k < id1.len() implies id1[k] == id2[k] by {
            assert(l1[dir.len() + 1 + k] == id1[k]);
            assert(l2[dir.len() + 1 + k] == id2[k]);
        }
        assert(id1 =~= id2);
    }
}

/// Round trip: after an upload of `bytes` under a fresh identifier
/// commits, retrieval by that identifier yields exactly `bytes` and the
/// format the detector assigned to them.
pub proof fn lemma_round_trip(
    blobs: Map<Seq<char>, Seq<u8>>,
    meta: Map<Seq<char>, RecordView>,
    dir: Seq<char>,
    owner: Seq<char>,
    id: Seq<char>,
    bytes: Seq<u8>,
)
    requires
        spec_detect(bytes) is Some,
    ensures
        ({
            let t = spec_detect(bytes)->Some_0;
            let blobs1 = blobs.insert(spec_location(dir, id, t), bytes);
            let meta1 = meta.insert(id, spec_record(dir, owner, id, t));
            spec_download(meta1, blobs1, id) == Ok::<(Seq<u8>, ImageType), AppError>((bytes, t))
        }),
{
}

/// Deletion completeness: once a record and its blob are removed,
/// retrieval by that identifier reports not-found, and the blob's location
/// no longer resolves.
pub proof fn lemma_delete_completeness(
    blobs: Map<Seq<char>, Seq<u8>>,
    meta: Map<Seq<char>, RecordView>,
    id: Seq<char>,
)
    requires
        meta.contains_key(id),
    ensures
        ({
            let loc = meta[id].location;
            let blobs1 = blobs.remove(loc);
            let meta1 = meta.remove(id);
            spec_download(meta1, blobs1, id) == Err::<(Seq<u8>, ImageType), AppError>(
                AppError::NotFound,
            ) && !blobs1.contains_key(loc)
        }),
{
}

/// Orphan safety: when a blob lands at a location the blob store did not
/// know and no record is added — the shape an upload leaves when the
/// metadata write fails after a successful blob write — no record of the
/// store references that blob, provided no record was dangling before.
pub proof fn lemma_orphan_unreferenced(
    meta: Map<Seq<char>, RecordView>,
    blobs: Map<Seq<char>, Seq<u8>>,
    loc: Seq<char>,
)
    requires
        no_dangling(meta, blobs),
        !blobs.contains_key(loc),
    ensures
        forall|id: Seq<char>| meta.contains_key(id) ==> (#[trigger] meta[id]).location != loc,
{
}

/// A committed upload preserves the no-dangling invariant: the new record
/// points at the blob just written, and every older record keeps its blob.
pub proof fn lemma_upload_preserves_no_dangling(
    meta: Map<Seq<char>, RecordView>,
    blobs: Map<Seq<char>, Seq<u8>>,
    dir: Seq<char>,
    owner: Seq<char>,
    id: Seq<char>,
    bytes: Seq<u8>,
    t: ImageType,
)
    requires
        no_dangling(meta, blobs),
    ensures
        no_dangling(
            meta.insert(id, spec_record(dir, owner, id, t)),
            blobs.insert(spec_location(dir, id, t), bytes),
        ),
        no_dangling(meta, blobs.insert(spec_location(dir, id, t), bytes)),
{
}

/// A deletion preserves the no-dangling invariant on a canonical store:
/// removing one record and the blob derived from its identifier cannot
/// strand another record, whose location embeds a different identifier.
pub proof fn lemma_delete_preserves_no_dangling(
    meta: Map<Seq<char>, RecordView>,
    blobs: Map<Seq<char>, Seq<u8>>,
    dir: Seq<char>,
    id: Seq<char>,
)
    requires
        no_dangling(meta, blobs),
        canonical(meta, dir),
        meta.contains_key(id),
    ensures
        no_dangling(meta.remove(id), blobs.remove(meta[id].location)),
        canonical(meta.remove(id), dir),
{
    let loc = meta[id].location;
    assert forall|id2: Seq<char>| meta.remove(id).contains_key(id2) implies blobs.remove(
        loc,
    ).contains_key((#[trigger] meta.remove(id)[id2]).location) by {
        lemma_location_injective(dir, id, id2, meta[id].declared_type, meta[id2].declared_type);
    }
}

/// Distinct uploads stay independent: two committed uploads under distinct
/// identifiers of the generated length are each retrievable afterwards,
/// yielding their own bytes and their own detected format.
pub proof fn lemma_distinct_uploads(
    blobs: Map<Seq<char>, Seq<u8>>,
    meta: Map<Seq<char>, RecordView>,
    dir: Seq<char>,
    owner1: Seq<char>,
    owner2: Seq<char>,
    id1: Seq<char>,
    id2: Seq<char>,
    bytes1: Seq<u8>,
    bytes2: Seq<u8>,
)
    requires
        spec_detect(bytes1) is Some,
        spec_detect(bytes2) is Some,
        id1 != id2,
        id1.len() == id2.len(),
    ensures
        ({
            let t1 = spec_detect(bytes1)->Some_0;
            let t2 = spec_detect(bytes2)->Some_0;
            let blobs2 = blobs.insert(spec_location(dir, id1, t1), bytes1).insert(
                spec_location(dir, id2, t2),
                bytes2,
            );
            let meta2 = meta.insert(id1, spec_record(dir, owner1, id1, t1)).insert(
                id2,
                spec_record(dir, owner2, id2, t2),
            );
            spec_download(meta2, blobs2, id1) == Ok::<(Seq<u8>, ImageType), AppError>((bytes1, t1))
                && spec_download(meta2, blobs2, id2) == Ok::<(Seq<u8>, ImageType), AppError>(
                (bytes2, t2),
            )
        }),
{
    lemma_location_injective(
        dir,
        id1,
        id2,
        spec_detect(bytes1)->Some_0,
        spec_detect(bytes2)->Some_0,
    );
}

/// The blob store after the first `n` commits of a batch of uploads, each
/// under its own identifier and detected format.
pub open spec fn batch_blobs(
    blobs: Map<Seq<char>, Seq<u8>>,
    dir: Seq<char>,
    ids: Seq<Seq<char>>,
    payloads: Seq<Seq<u8>>,
    n: int,
) -> Map<Seq<char>, Seq<u8>>
    decreases n,
{
    if n <= 0 {
        blobs
    } else {
        batch_blobs(blobs, dir, ids, payloads, n - 1).insert(
            spec_location(dir, ids[n - 1], spec_detect(payloads[n - 1])->Some_0),
            payloads[n - 1],
        )
    }
}

/// The metadata store after the first `n` commits of the same batch.
pub open spec fn batch_meta(
    meta: Map<Seq<char>, RecordView>,
    dir: Seq<char>,
    owners: Seq<Seq<char>>,
    ids: Seq<Seq<char>>,
    payloads: Seq<Seq<u8>>,
    n: int,
) -> Map<Seq<char>, RecordView>
    decreases n,
{
    if n <= 0 {
        meta
    } else {
        batch_meta(meta, dir, owners, ids, payloads, n - 1).insert(
            ids[n - 1],
            spec_record(dir, owners[n - 1], ids[n - 1], spec_detect(payloads[n - 1])->Some_0),
        )
    }
}

/// A batch entry survives every later commit of the batch: the later
/// identifiers differ, and through the generated length so do the later
/// locations.
proof fn lemma_batch_entry_survives(
    blobs: Map<Seq<char>, Seq<u8>>,
    meta: Map<Seq<char>, RecordView>,
    dir: Seq<char>,
    owners: Seq<Seq<char>>,
    ids: Seq<Seq<char>>,
    payloads: Seq<Seq<u8>>,
    j: int,
    n: int,
)
    requires
        ids.len() == payloads.len(),
        owners.len() == ids.len(),
        forall|a: int, b: int| 0 <= a < b < ids.len() ==> #[trigger] ids[a] != #[trigger] ids[b],
        forall|a: int| 0 <= a < ids.len() ==> (#[trigger] ids[a]).len() == 36,
        forall|a: int| 0 <= a < payloads.len() ==> spec_detect(#[trigger] payloads[a]) is Some,
        0 <= j < n <= ids.len(),
    ensures
        ({
            let t = spec_detect(payloads[j])->Some_0;
            let loc = spec_location(dir, ids[j], t);
            let bn = batch_blobs(blobs, dir, ids, payloads, n);
            let mn = batch_meta(meta, dir, owners, ids, payloads, n);
            mn.contains_key(ids[j]) && mn[ids[j]] == spec_record(dir, owners[j], ids[j], t)
                && bn.contains_key(loc) && bn[loc] == payloads[j]
        }),
    decreases n,
{
    if n > j + 1 {
        lemma_batch_entry_survives(blobs, meta, dir, owners, ids, payloads, j, n - 1);
        lemma_location_injective(
            dir,
            ids[n - 1],
            ids[j],
            spec_detect(payloads[n - 1])->Some_0,
            spec_detect(payloads[j])->Some_0,
        );
    }
}

/// A batch of uploads committed under pairwise-distinct identifiers of the
/// generated length stays independent: afterwards each identifier
/// retrieves its own payload with its own detected format, as if its
/// upload had run in isolation.
pub proof fn lemma_batch_uploads_round_trip(
    blobs: Map<Seq<char>, Seq<u8>>,
    meta: Map<Seq<char>, RecordView>,
    dir: Seq<char>,
    owners: Seq<Seq<char>>,
    ids: Seq<Seq<char>>,
    payloads: Seq<Seq<u8>>,
    j: int,
)
    requires
        ids.len() == payloads.len(),
        owners.len() == ids.len(),
        forall|a: int, b: int| 0 <= a < b < ids.len() ==> #[trigger] ids[a] != #[trigger] ids[b],
        forall|a: int| 0 <= a < ids.len() ==> (#[trigger] ids[a]).len() == 36,
        forall|a: int| 0 <= a < payloads.len() ==> spec_detect(#[trigger] payloads[a]) is Some,
        0 <= j < ids.len(),
    ensures
        ({
            let t = spec_detect(payloads[j])->Some_0;
            spec_download(
                batch_meta(meta, dir, owners, ids, payloads, ids.len() as int),
                batch_blobs(blobs, dir, ids, payloads, ids.len() as int),
                ids[j],
            ) == Ok::<(Seq<u8>, ImageType), AppError>((payloads[j], t))
        }),
{
    lemma_batch_entry_survives(blobs, meta, dir, owners, ids, payloads, j, ids.len() as int);
}

} // verus!
