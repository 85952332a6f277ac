use base64::Engine;
use unfold::attach::{
    delete_image, get_image, store_image_metadata, upload_image, BlobStore, UploadImageRequest,
};
use unfold::db::open_in_memory_database;
use unfold::migrate::apply_migrations;
use unfold::mime::get_extension_from_mime;

fn migrated_connection() -> rusqlite::Connection {
    let mut conn = open_in_memory_database().expect("open");
    apply_migrations(&mut conn, 0).expect("migrate");
    conn
}

fn png_request(bytes: &[u8]) -> UploadImageRequest {
    UploadImageRequest {
        note_id: "n1".to_string(),
        file_name: "picture.png".to_string(),
        base64_data: base64::engine::general_purpose::STANDARD.encode(bytes),
        mime_type: "image/png".to_string(),
        size: bytes.len() as u64,
    }
}

#[test]
fn extension_mapping_png() {
    assert_eq!(get_extension_from_mime("image/png"), "png");
}

#[test]
fn extension_mapping_unknown_defaults_to_jpg() {
    assert_eq!(get_extension_from_mime("application/x-foo"), "jpg");
}

#[test]
fn extension_mapping_table() {
    assert_eq!(get_extension_from_mime("image/jpeg"), "jpg");
    assert_eq!(get_extension_from_mime("image/jpg"), "jpg");
    assert_eq!(get_extension_from_mime("image/gif"), "gif");
    assert_eq!(get_extension_from_mime("image/webp"), "webp");
    assert_eq!(get_extension_from_mime("image/svg+xml"), "svg");
    assert_eq!(get_extension_from_mime("image/bmp"), "bmp");
    assert_eq!(get_extension_from_mime("image/tiff"), "tiff");
    assert_eq!(get_extension_from_mime(""), "jpg");
}

#[test]
fn upload_ten_kib_png_scenario() {
    let mut conn = migrated_connection();
    let mut blobs = BlobStore::new();
    let mut bytes: Vec<u8> = vec![0u8; 10240];
    bytes[0] = 0x89;
    bytes[1] = b'P';
    bytes[2] = b'N';
    bytes[3] = b'G';
    let request = png_request(&bytes);
    let response =
        upload_image(&mut conn, &mut blobs, "/data/images", &request).expect("upload");
    assert_eq!(response.size, 10240);
    assert!(response.path.starts_with("/data/images/"));
    assert!(response.path.ends_with(".png"));
    let fetched = get_image(&conn, response.id.as_str()).expect("fetch");
    assert_eq!(fetched, response.path);
    let stored = blobs.read(fetched.as_str()).expect("blob present");
    assert_eq!(stored.len(), 10240);
    assert_eq!(stored.as_slice(), bytes.as_slice());
}

#[test]
fn attachment_round_trip_delete_then_fetch_fails() {
    let mut conn = migrated_connection();
    let mut blobs = BlobStore::new();
    let bytes = b"round trip payload".to_vec();
    let request = png_request(&bytes);
    let response = upload_image(&mut conn, &mut blobs, "/imgdir", &request).expect("upload");
    assert_eq!(response.id.len(), 36, "attachment ids render as hyphenated identifiers");
    let path = get_image(&conn, response.id.as_str()).expect("fetch");
    assert_eq!(blobs.read(path.as_str()).expect("blob"), &bytes);
    delete_image(&mut conn, &mut blobs, response.id.as_str()).expect("delete");
    assert!(get_image(&conn, response.id.as_str()).is_err());
    assert!(blobs.read(path.as_str()).is_none());
}

#[test]
fn upload_rejects_malformed_base64() {
    let mut conn = migrated_connection();
    let mut blobs = BlobStore::new();
    let request = UploadImageRequest {
        note_id: "n1".to_string(),
        file_name: "x.png".to_string(),
        base64_data: "!!!not-base64!!!".to_string(),
        mime_type: "image/png".to_string(),
        size: 3,
    };
    let result = upload_image(&mut conn, &mut blobs, "/imgdir", &request);
    assert!(result.is_err());
    assert!(result.unwrap_err().contains("Failed to decode base64"));
}

#[test]
fn get_image_unknown_id_fails() {
    let conn = migrated_connection();
    let err = get_image(&conn, "no-such-id").unwrap_err();
    assert!(err.contains("Failed to get image"));
}

#[test]
fn delete_image_unknown_id_fails() {
    let mut conn = migrated_connection();
    let mut blobs = BlobStore::new();
    assert!(delete_image(&mut conn, &mut blobs, "no-such-id").is_err());
}

#[test]
fn unknown_mime_type_blob_gets_jpg_name() {
    let mut conn = migrated_connection();
    let mut blobs = BlobStore::new();
    let bytes = b"some bytes".to_vec();
    let request = UploadImageRequest {
        note_id: "n2".to_string(),
        file_name: "f.bin".to_string(),
        base64_data: base64::engine::general_purpose::STANDARD.encode(&bytes),
        mime_type: "application/x-foo".to_string(),
        size: bytes.len() as u64,
    };
    let response = upload_image(&mut conn, &mut blobs, "/d", &request).expect("upload");
    assert!(response.path.ends_with(".jpg"));
}

#[test]
fn blob_store_write_read_remove() {
    let mut blobs = BlobStore::new();
    blobs.write("/a/b.png".to_string(), vec![1, 2, 3]);
    assert_eq!(blobs.read("/a/b.png").expect("present"), &vec![1, 2, 3]);
    blobs.write("/a/b.png".to_string(), vec![9]);
    assert_eq!(blobs.read("/a/b.png").expect("present"), &vec![9]);
    blobs.remove("/a/b.png");
    assert!(blobs.read("/a/b.png").is_none());
    blobs.remove("/a/b.png");
    assert!(blobs.read("/a/b.png").is_none());
}

#[test]
fn uploaded_blob_and_row_agree_on_path() {
    let mut conn = migrated_connection();
    let mut blobs = BlobStore::new();
    let bytes = b"payload".to_vec();
    let request = png_request(&bytes);
    let first = upload_image(&mut conn, &mut blobs, "/dir", &request).expect("upload");
    let second = upload_image(&mut conn, &mut blobs, "/dir", &request).expect("upload");
    assert_ne!(first.id, second.id, "attachment ids are fresh per upload");
    assert_ne!(first.path, second.path, "blob names are fresh per upload");
    assert_eq!(get_image(&conn, first.id.as_str()).expect("fetch"), first.path);
    assert_eq!(get_image(&conn, second.id.as_str()).expect("fetch"), second.path);
}

#[test]
fn stored_row_carries_all_request_fields() {
    let mut conn = migrated_connection();
    let mut blobs = BlobStore::new();
    let bytes: Vec<u8> = vec![7u8; 10240];
    let request = png_request(&bytes);
    let response = upload_image(&mut conn, &mut blobs, "/data/images", &request).expect("upload");
    let (note_id, filename, size_text, mime): (String, String, String, String) = conn
        .query_row(
            "SELECT note_id, filename, size, mime_type FROM images WHERE id = ?1",
            [response.id.as_str()],
            |r| Ok((r.get(0)?, r.get(1)?, r.get(2)?, r.get(3)?)),
        )
        .expect("row");
    assert_eq!(note_id, "n1");
    assert_eq!(size_text, "10240", "size is stored as its decimal text");
    assert_eq!(mime, "image/png");
    assert!(response.path.ends_with(filename.as_str()));
    assert!(filename.ends_with(".png"));
    assert_eq!(filename.len(), 36 + ".png".len());
}

#[test]
fn inserting_a_taken_id_fails_and_changes_nothing() {
    let mut conn = migrated_connection();
    store_image_metadata(&mut conn, "id1", "n1", "f.png", "/p/f.png", 3, "image/png")
        .expect("first insert");
    let second = store_image_metadata(&mut conn, "id1", "n2", "g.png", "/p/g.png", 4, "image/png");
    assert!(second.is_err(), "a duplicate primary key is rejected");
    assert_eq!(get_image(&conn, "id1").expect("fetch"), "/p/f.png");
}
