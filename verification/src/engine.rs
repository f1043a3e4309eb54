//! The upload, retrieval, and deletion orchestrators.
//!
//! Upload follows a fixed order: detect the format from the content, write
//! the blob, and only after the blob write succeeded insert the metadata
//! record. If the metadata insert fails, the blob stays behind unreferenced
//! — the accepted direction of inconsistency — and the caller receives a
//! storage error. Deletion removes the metadata record first and the blob
//! second, so that a failure between the two steps likewise leaves only an
//! unreferenced blob, never a record whose bytes are gone.

use vstd::prelude::*;

use crate::encoding::{ascii_only, content_disposition, spec_content_disposition};
use crate::error::AppError;
use crate::image_type::{find_imagetype, spec_detect, spec_extension, spec_mime, ImageType};
use crate::store::{BlobStore, ImageRecord, MetadataStore, RecordView};

verus! {

/// The location a blob is stored at: the upload directory, the identifier,
/// and the detected format's extension.
pub open spec fn spec_location(dir: Seq<char>, id: Seq<char>, t: ImageType) -> Seq<char> {
    dir + "/"@ + id + "."@ + spec_extension(t)
}

/// The record the upload of `bytes` by `owner` under `id` commits.
pub open spec fn spec_record(dir: Seq<char>, owner: Seq<char>, id: Seq<char>, t: ImageType) -> RecordView {
    RecordView {
        id: id,
        owner_id: owner,
        location: spec_location(dir, id, t),
        declared_type: t,
    }
}

/// An identifier character: a lowercase hexadecimal digit or a hyphen.
pub open spec fn is_id_char(c: char) -> bool {
    (0x30 <= c as u32 && c as u32 <= 0x39) || (0x61 <= c as u32 && c as u32 <= 0x66)
        || c == '-'
}

/// Relies on uuid::Uuid::new_v4 and its display form: a fresh random
/// identifier rendered as 36 characters of lowercase hexadecimal digits and
/// hyphens. Nothing is assumed about which identifier comes back, only its
/// shape.
#[verifier::external_body]
fn fresh_id() -> (r: String)
    ensures
        r@.len() == 36,
        forall|i: int| 0 <= i < r@.len() ==> is_id_char(#[trigger] r@[i]),
        ascii_only(r@),
{
    uuid::Uuid::new_v4().to_string()
}

/// Build the blob location for an identifier and detected format.
pub fn blob_location(upload_dir: &str, id: &str, t: ImageType) -> (r: String)
    ensures
        r@ == spec_location(upload_dir@, id@, t),
{
    let mut r = String::from_str(upload_dir);
    r.append("/");
    r.append(id);
    r.append(".");
    r.append(t.extension());
    r
}

/// What an accepted upload will do, fixed before any write: the location
/// the blob goes to, and the record the metadata store receives once the
/// blob is durably in place.
pub struct UploadPlan {
    pub location: String,
    pub record: ImageRecord,
}

/// Classify the staged bytes and plan the two writes, or reject the upload.
/// No store is touched; a rejection here means no write will occur at all.
pub fn plan_upload(upload_dir: &str, owner_id: &str, id: &str, bytes: &[u8]) -> (r: Result<
    UploadPlan,
    AppError,
>)
    ensures
        match r {
            Ok(plan) => spec_detect(bytes@) matches Some(t) && plan.location@ == spec_location(
                upload_dir@,
                id@,
                t,
            ) && plan.record@ == spec_record(upload_dir@, owner_id@, id@, t),
            Err(e) => e == AppError::Validation && spec_detect(bytes@) is None,
        },
{
    let t = find_imagetype(bytes)?;
    let location = blob_location(upload_dir, id, t);
    let record = ImageRecord {
        id: String::from_str(id),
        owner_id: String::from_str(owner_id),
        location: location.clone(),
        declared_type: t,
    };
    Ok(UploadPlan { location, record })
}

/// Commit an upload under a caller-supplied identifier: detect the format,
/// write the blob, then insert the record. Succeeds exactly when detection
/// succeeds, neither store is failing, and the identifier and location are
/// unused. A storage error after detection leaves the metadata store
/// untouched in every case; the blob is left behind exactly when its write
/// succeeded and the record insert then failed.
pub fn upload_with_id(
    blobs: &mut BlobStore,
    meta: &mut MetadataStore,
    upload_dir: &str,
    owner_id: &str,
    id: String,
    bytes: &[u8],
) -> (r: Result<String, AppError>)
    requires
        old(blobs).wf(),
        old(meta).wf(),
    ensures
        final(blobs).wf(),
        final(meta).wf(),
        final(blobs).spec_fail() == old(blobs).spec_fail(),
        final(meta).spec_fail() == old(meta).spec_fail(),
        match r {
            Ok(rid) => {
                &&& rid@ == id@
                &&& spec_detect(bytes@) matches Some(t) && {
                    let loc = spec_location(upload_dir@, id@, t);
                    &&& !old(blobs).spec_fail() && !old(meta).spec_fail()
                    &&& !old(blobs)@.contains_key(loc)
                    &&& !old(meta)@.contains_key(id@)
                    &&& final(blobs)@ == old(blobs)@.insert(loc, bytes@)
                    &&& final(meta)@ == old(meta)@.insert(
                        id@,
                        spec_record(upload_dir@, owner_id@, id@, t),
                    )
                }
            },
            Err(AppError::Validation) => spec_detect(bytes@) is None && final(blobs)@ == old(blobs)@ && final(meta)@ == old(meta)@,
            Err(AppError::Storage) => {
                &&& final(meta)@ == old(meta)@
                &&& spec_detect(bytes@) matches Some(t) && {
                    let loc = spec_location(upload_dir@, id@, t);
                    if old(blobs).spec_fail() || old(blobs)@.contains_key(loc) {
                        final(blobs)@ == old(blobs)@
                    } else {
                        (old(meta).spec_fail() || old(meta)@.contains_key(id@)) && final(blobs)@ == old(blobs)@.insert(loc, bytes@)
                    }
                }
            },
            Err(AppError::NotFound) => false,
        },
{
    let plan = plan_upload(upload_dir, owner_id, id.as_str(), bytes)?;
    blobs.write_new(plan.location.as_str(), bytes)?;
    meta.insert(plan.record)?;
    Ok(id)
}

/// Commit an upload under a freshly generated identifier. A storage error
/// comes only when a store is failing or the generated identifier collided
/// with an existing record or blob: on healthy stores that contain nothing
/// under any identifier of the generated length, every outcome of the
/// generator leads to a commit. The collision case leaves the stores as the
/// matching case of `upload_with_id` describes.
pub fn upload(
    blobs: &mut BlobStore,
    meta: &mut MetadataStore,
    upload_dir: &str,
    owner_id: &str,
    bytes: &[u8],
) -> (r: Result<String, AppError>)
    requires
        old(blobs).wf(),
        old(meta).wf(),
    ensures
        final(blobs).wf(),
        final(meta).wf(),
        final(blobs).spec_fail() == old(blobs).spec_fail(),
        final(meta).spec_fail() == old(meta).spec_fail(),
        match r {
            Ok(rid) => {
                &&& rid@.len() == 36
                &&& ascii_only(rid@)
                &&& !old(blobs).spec_fail() && !old(meta).spec_fail()
                &&& spec_detect(bytes@) matches Some(t) && {
                    let loc = spec_location(upload_dir@, rid@, t);
                    &&& !old(blobs)@.contains_key(loc)
                    &&& !old(meta)@.contains_key(rid@)
                    &&& final(blobs)@ == old(blobs)@.insert(loc, bytes@)
                    &&& final(meta)@ == old(meta)@.insert(
                        rid@,
                        spec_record(upload_dir@, owner_id@, rid@, t),
                    )
                }
            },
            Err(AppError::Validation) => spec_detect(bytes@) is None && final(blobs)@ == old(blobs)@ && final(meta)@ == old(meta)@,
            Err(AppError::Storage) => {
                &&& spec_detect(bytes@) is Some
                &&& final(meta)@ == old(meta)@
                &&& (old(blobs).spec_fail() || old(meta).spec_fail() || exists|id: Seq<char>|
                    {
                        &&& id.len() == 36
                        &&& (old(meta)@.contains_key(id) || old(blobs)@.contains_key(
                            spec_location(upload_dir@, id, spec_detect(bytes@)->Some_0),
                        ))
                    })
                &&& (final(blobs)@ == old(blobs)@ || exists|id: Seq<char>|
                    {
                        &&& id.len() == 36
                        &&& spec_detect(bytes@) matches Some(t) && !old(blobs)@.contains_key(
                            spec_location(upload_dir@, id, t),
                        ) && final(blobs)@ == old(blobs)@.insert(
                            spec_location(upload_dir@, id, t),
                            bytes@,
                        )
                    })
            },
            Err(AppError::NotFound) => false,
        },
{
    let id = fresh_id();
    let ghost idq = id@;
    let r = upload_with_id(blobs, meta, upload_dir, owner_id, id, bytes);
    proof {
        if r matches Err(AppError::Storage) {
            if blobs@ != old(blobs)@ {
                assert(idq.len() == 36 && (spec_detect(bytes@) matches Some(t)
                    && !old(blobs)@.contains_key(spec_location(upload_dir@, idq, t))
                    && blobs@ == old(blobs)@.insert(spec_location(upload_dir@, idq, t), bytes@)));
            }
            if !old(blobs).spec_fail() && !old(meta).spec_fail() {
                let t = spec_detect(bytes@)->Some_0;
                assert(idq.len() == 36 && (old(meta)@.contains_key(idq)
                    || old(blobs)@.contains_key(spec_location(upload_dir@, idq, t))));
            }
        }
    }
    r
}

/// What retrieval yields on given store contents: the blob's bytes paired
/// with the record's declared format, a not-found for an absent identifier,
/// or a storage error for a record whose blob is unreadable — the latter
/// two deliberately distinguishable.
pub open spec fn spec_download(
    meta: Map<Seq<char>, RecordView>,
    blobs: Map<Seq<char>, Seq<u8>>,
    id: Seq<char>,
) -> Result<(Seq<u8>, ImageType), AppError> {
    if !meta.contains_key(id) {
        Err(AppError::NotFound)
    } else if !blobs.contains_key(meta[id].location) {
        Err(AppError::Storage)
    } else {
        Ok((blobs[meta[id].location], meta[id].declared_type))
    }
}

/// A served blob: its bytes, the media type recorded at upload time, and a
/// content-disposition suggesting download under the identifier.
#[derive(Debug, PartialEq, Eq)]
pub struct DownloadResponse {
    pub body: Vec<u8>,
    pub content_type: String,
    pub content_disposition: String,
}

/// Look up a record by identifier and resolve its blob. An absent
/// identifier is a not-found; a present record whose blob is missing is a
/// storage error, never a not-found. The identifier is expected to be
/// ASCII, as every identifier the system generates is.
pub fn download(blobs: &BlobStore, meta: &MetadataStore, id: &str) -> (r: Result<
    DownloadResponse,
    AppError,
>)
    requires
        blobs.wf(),
        meta.wf(),
        ascii_only(id@),
    ensures
        match r {
            Ok(resp) => spec_download(meta@, blobs@, id@) matches Ok(p) && resp.body@ == p.0
                && resp.content_type@ == spec_mime(p.1) && resp.content_disposition@
                == spec_content_disposition(id@),
            Err(e) => spec_download(meta@, blobs@, id@) == Err::<(Seq<u8>, ImageType), AppError>(e),
        },
{
    let rec = match meta.get(id) {
        Some(rec) => rec,
        None => {
            return Err(AppError::NotFound);
        },
    };
    let body = match blobs.read(rec.location.as_str()) {
        Some(body) => body,
        None => {
            return Err(AppError::Storage);
        },
    };
    let content_type = String::from_str(rec.declared_type.to_mime());
    let cd = content_disposition(id);
    Ok(DownloadResponse { body, content_type, content_disposition: cd })
}

/// Remove a record and its blob. The record goes first, so a failure
/// between the two steps leaves an unreferenced blob rather than a record
/// whose bytes are gone; a blob-delete failure after the record is gone is
/// still reported as a storage error.
pub fn delete_image(blobs: &mut BlobStore, meta: &mut MetadataStore, id: &str) -> (r: Result<
    (),
    AppError,
>)
    requires
        old(blobs).wf(),
        old(meta).wf(),
    ensures
        final(blobs).wf(),
        final(meta).wf(),
        final(blobs).spec_fail() == old(blobs).spec_fail(),
        final(meta).spec_fail() == old(meta).spec_fail(),
        match r {
            Ok(()) => {
                &&& old(meta)@.contains_key(id@)
                &&& !old(meta).spec_fail() && !old(blobs).spec_fail()
                &&& final(meta)@ == old(meta)@.remove(id@)
                &&& final(blobs)@ == old(blobs)@.remove(old(meta)@[id@].location)
            },
            Err(AppError::NotFound) => !old(meta)@.contains_key(id@) && final(meta)@ == old(
                meta,
            )@ && final(blobs)@ == old(blobs)@,
            Err(AppError::Storage) => {
                &&& old(meta)@.contains_key(id@)
                &&& (old(meta).spec_fail() && final(meta)@ == old(meta)@ && final(blobs)@ == old(blobs)@) || (!old(meta).spec_fail() && old(blobs).spec_fail() && final(meta)@ == old(meta)@.remove(id@) && final(blobs)@ == old(blobs)@)
            },
            Err(AppError::Validation) => false,
        },
{
    let rec = match meta.get(id) {
        Some(rec) => rec,
        None => {
            return Err(AppError::NotFound);
        },
    };
    meta.remove(id)?;
    blobs.delete(rec.location.as_str())?;
    Ok(())
}

} // verus!
