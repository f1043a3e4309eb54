use image_vault::engine::{blob_location, delete_image, download, upload, upload_with_id};
use image_vault::error::AppError;
use image_vault::image_type::ImageType;
use image_vault::store::{BlobStore, MetadataStore};

const DIR: &str = "./uploads";

fn png_payload(tail: u8) -> Vec<u8> {
    vec![0x89, 0x50, 0x4e, 0x47, 0x0d, 0x0a, 0x1a, 0x0a, 0x00, 0x00, 0x00, tail]
}

fn jpeg_payload() -> Vec<u8> {
    vec![0xff, 0xd8, 0xff, 0xe0, 0x00, 0x10, 0x4a, 0x46, 0x49, 0x46, 0x00, 0x01]
}

fn webp_payload() -> Vec<u8> {
    vec![0x52, 0x49, 0x46, 0x46, 0x24, 0x00, 0x00, 0x00, 0x57, 0x45, 0x42, 0x50]
}

fn expected_disposition(id: &str) -> String {
    format!("attachment; filename*=UTF-8''{}", id.replace('-', "%2D"))
}

fn round_trip(payload: Vec<u8>, mime: &str) {
    let mut blobs = BlobStore::new();
    let mut meta = MetadataStore::new();
    let id = upload(&mut blobs, &mut meta, DIR, "u1", &payload).expect("upload should commit");
    let resp = download(&blobs, &meta, &id).expect("download should find the record");
    assert_eq!(resp.body, payload);
    assert_eq!(resp.content_type, mime);
    assert_eq!(resp.content_disposition, expected_disposition(&id));
}

#[test]
fn round_trip_png() {
    round_trip(png_payload(1), "image/png");
}

#[test]
fn round_trip_jpeg() {
    round_trip(jpeg_payload(), "image/jpeg");
}

#[test]
fn round_trip_webp() {
    round_trip(webp_payload(), "image/webp");
}

#[test]
fn rejected_upload_reaches_no_store() {
    let mut blobs = BlobStore::new();
    let mut meta = MetadataStore::new();
    let r = upload_with_id(&mut blobs, &mut meta, DIR, "u1", "id-1".to_string(), &[0u8; 12]);
    assert_eq!(r, Err(AppError::Validation));
    assert!(!meta.contains("id-1"));
    assert!(!blobs.contains(&blob_location(DIR, "id-1", ImageType::Png)));
    assert_eq!(download(&blobs, &meta, "id-1"), Err(AppError::NotFound));
}

#[test]
fn deletion_completeness() {
    let mut blobs = BlobStore::new();
    let mut meta = MetadataStore::new();
    let payload = png_payload(2);
    let id = upload(&mut blobs, &mut meta, DIR, "u1", &payload).expect("upload should commit");
    let loc = blob_location(DIR, &id, ImageType::Png);
    assert!(blobs.contains(&loc));
    assert_eq!(delete_image(&mut blobs, &mut meta, &id), Ok(()));
    assert_eq!(download(&blobs, &meta, &id), Err(AppError::NotFound));
    assert!(!blobs.contains(&loc));
}

#[test]
fn deleting_unknown_id_is_not_found() {
    let mut blobs = BlobStore::new();
    let mut meta = MetadataStore::new();
    assert_eq!(
        delete_image(&mut blobs, &mut meta, "no-such-id"),
        Err(AppError::NotFound)
    );
}

#[test]
fn orphan_safety_on_metadata_failure() {
    let mut blobs = BlobStore::new();
    let mut meta = MetadataStore::new();
    meta.set_fail(true);
    let payload = png_payload(3);
    let r = upload_with_id(&mut blobs, &mut meta, DIR, "u1", "id-orphan".to_string(), &payload);
    assert_eq!(r, Err(AppError::Storage));
    // No metadata record references the blob, but the blob itself is present:
    // the accepted, one-directional inconsistency.
    assert!(meta.get("id-orphan").is_none());
    let loc = blob_location(DIR, "id-orphan", ImageType::Png);
    assert!(blobs.contains(&loc));
    assert_eq!(blobs.read(&loc).expect("blob should be present"), payload);
    assert_eq!(download(&blobs, &meta, "id-orphan"), Err(AppError::NotFound));
}

#[test]
fn blob_failure_leaves_both_stores_untouched() {
    let mut blobs = BlobStore::new();
    let mut meta = MetadataStore::new();
    blobs.set_fail(true);
    let payload = png_payload(4);
    let r = upload_with_id(&mut blobs, &mut meta, DIR, "u1", "id-blob".to_string(), &payload);
    assert_eq!(r, Err(AppError::Storage));
    assert!(meta.get("id-blob").is_none());
    assert!(!blobs.contains(&blob_location(DIR, "id-blob", ImageType::Png)));
}

#[test]
fn duplicate_identifier_is_a_storage_error() {
    let mut blobs = BlobStore::new();
    let mut meta = MetadataStore::new();
    let payload = png_payload(5);
    let r1 = upload_with_id(&mut blobs, &mut meta, DIR, "u1", "id-dup".to_string(), &payload);
    assert_eq!(r1, Ok("id-dup".to_string()));
    let r2 = upload_with_id(&mut blobs, &mut meta, DIR, "u2", "id-dup".to_string(), &payload);
    assert_eq!(r2, Err(AppError::Storage));
    // The first upload's record is untouched.
    let resp = download(&blobs, &meta, "id-dup").expect("first record should remain");
    assert_eq!(resp.body, payload);
}

#[test]
fn distinct_uploads_stay_independent() {
    let mut blobs = BlobStore::new();
    let mut meta = MetadataStore::new();
    let payloads = [png_payload(10), jpeg_payload(), webp_payload()];
    let mimes = ["image/png", "image/jpeg", "image/webp"];
    let mut ids: Vec<String> = Vec::new();
    for p in payloads.iter() {
        ids.push(upload(&mut blobs, &mut meta, DIR, "u1", p).expect("upload should commit"));
    }
    assert_ne!(ids[0], ids[1]);
    assert_ne!(ids[0], ids[2]);
    assert_ne!(ids[1], ids[2]);
    for ((id, p), mime) in ids.iter().zip(payloads.iter()).zip(mimes.iter()) {
        let resp = download(&blobs, &meta, id).expect("each upload should round-trip");
        assert_eq!(&resp.body, p);
        assert_eq!(&resp.content_type, mime);
    }
}

#[test]
fn missing_blob_behind_record_is_a_storage_error() {
    let mut blobs = BlobStore::new();
    let mut meta = MetadataStore::new();
    let payload = png_payload(6);
    let id = upload(&mut blobs, &mut meta, DIR, "u1", &payload).expect("upload should commit");
    let loc = blob_location(DIR, &id, ImageType::Png);
    blobs.delete(&loc).expect("direct blob removal should succeed");
    // The record is present but its bytes are gone: reported as a storage
    // error, distinguishable from never-existed.
    assert_eq!(download(&blobs, &meta, &id), Err(AppError::Storage));
}

#[test]
fn blob_delete_failure_still_reported_after_record_removal() {
    let mut blobs = BlobStore::new();
    let mut meta = MetadataStore::new();
    let payload = png_payload(7);
    let id = upload(&mut blobs, &mut meta, DIR, "u1", &payload).expect("upload should commit");
    let loc = blob_location(DIR, &id, ImageType::Png);
    blobs.set_fail(true);
    assert_eq!(delete_image(&mut blobs, &mut meta, &id), Err(AppError::Storage));
    // The user-visible record is gone; the blob stayed behind for the
    // operator to reconcile.
    assert_eq!(download(&blobs, &meta, &id), Err(AppError::NotFound));
    assert!(blobs.contains(&loc));
}

#[test]
fn example_scenario() {
    let mut blobs = BlobStore::new();
    let mut meta = MetadataStore::new();
    let payload = vec![
        0x89, 0x50, 0x4e, 0x47, 0x0d, 0x0a, 0x1a, 0x0a, 0x00, 0x00, 0x00, 0x0d, 0x49, 0x48,
    ];
    let id = upload(&mut blobs, &mut meta, DIR, "u1", &payload).expect("upload should commit");
    assert_eq!(id.len(), 36);
    let resp = download(&blobs, &meta, &id).expect("fresh id should resolve");
    assert_eq!(resp.content_type, "image/png");
    assert_eq!(resp.body, payload);
    assert_eq!(delete_image(&mut blobs, &mut meta, &id), Ok(()));
    let gone = download(&blobs, &meta, &id);
    assert_eq!(gone, Err(AppError::NotFound));
    assert_eq!(gone.unwrap_err().status_code(), 404);
}
