use image_vault::config::Config;
use image_vault::encoding::content_disposition;
use image_vault::engine::{blob_location, plan_upload};
use image_vault::error::AppError;
use image_vault::image_type::ImageType;

#[test]
fn status_codes_per_error_kind() {
    assert_eq!(AppError::Validation.status_code(), 400);
    assert_eq!(AppError::NotFound.status_code(), 404);
    assert_eq!(AppError::Storage.status_code(), 500);
}

#[test]
fn messages_per_error_kind() {
    assert_eq!(AppError::Validation.message(), "Invalid image file");
    assert_eq!(AppError::NotFound.message(), "File not found");
    assert_eq!(AppError::Storage.message(), "Internal server error");
}

#[test]
fn blob_location_joins_directory_id_and_extension() {
    assert_eq!(
        blob_location("./uploads", "abc-123", ImageType::Png),
        "./uploads/abc-123.png"
    );
    assert_eq!(blob_location("/srv/img", "x", ImageType::Jpeg), "/srv/img/x.jpg");
    assert_eq!(blob_location("d", "y", ImageType::Webp), "d/y.webp");
}

#[test]
fn content_disposition_keeps_alphanumerics() {
    assert_eq!(
        content_disposition("abc123XYZ"),
        "attachment; filename*=UTF-8''abc123XYZ"
    );
}

#[test]
fn content_disposition_escapes_everything_else() {
    assert_eq!(
        content_disposition("a-b c?"),
        "attachment; filename*=UTF-8''a%2Db%20c%3F"
    );
    assert_eq!(
        content_disposition("550e8400-e29b-41d4-a716-446655440000"),
        "attachment; filename*=UTF-8''550e8400%2De29b%2D41d4%2Da716%2D446655440000"
    );
}

#[test]
fn content_disposition_of_empty_id() {
    assert_eq!(content_disposition(""), "attachment; filename*=UTF-8''");
}

#[test]
fn config_holds_its_settings() {
    let c = Config::new("postgres://localhost/img".to_string(), "./uploads".to_string());
    assert_eq!(c.db_url, "postgres://localhost/img");
    assert_eq!(c.upload_dir, "./uploads");
}

#[test]
fn plan_upload_fixes_location_and_record() {
    let payload = [0xff, 0xd8, 0xff, 0xe0, 0, 0, 0, 0, 0, 0, 0, 0];
    let plan = plan_upload("./uploads", "u7", "some-id", &payload).expect("JFIF buffer is accepted");
    assert_eq!(plan.location, "./uploads/some-id.jpg");
    assert_eq!(plan.record.id, "some-id");
    assert_eq!(plan.record.owner_id, "u7");
    assert_eq!(plan.record.location, plan.location);
    assert_eq!(plan.record.declared_type, ImageType::Jpeg);
}

#[test]
fn plan_upload_rejects_undetectable_content() {
    assert!(plan_upload("./uploads", "u7", "some-id", &[0u8; 12]).is_err());
}
