use ksync::config::{CORSConfig, Config, DBConfig, JWTConfig};
use ksync::errors::ServiceError;
use ksync::extract::extract;
use ksync::filename::split_filename;
use ksync::hashing::digest;
use ksync::service::BookService;
use ksync::store::BlobStore;

fn test_config(root: &str) -> Config {
    Config {
        address: "127.0.0.1".to_string(),
        filepath: root.to_string(),
        port: 8080,
        jwt: JWTConfig {
            valid_for: 24,
            private_key: "private.pem".to_string(),
            public_key: "public.pem".to_string(),
        },
        cors: Some(CORSConfig { origins: vec!["http://localhost".to_string()] }),
        db: DBConfig { connection_string: "sqlite::memory:".to_string(), connections: 4 },
    }
}

fn service() -> BookService {
    BookService::new(&test_config("/tmp/store"))
}

#[test]
fn digest_known_answers() {
    let d = digest(&b"abc".to_vec());
    assert_eq!(d, "ba7816bf8f01cfea414140de5dae2223b00361a396177a9cb410ff61f20015ad");
    let empty = digest(&Vec::new());
    assert_eq!(empty, "e3b0c44298fc1c149afbf4c8996fb92427ae41e4649b934ca495991b7852b855");
}

#[test]
fn digest_matches_reference_computation() {
    let payload: Vec<u8> = (0u8..=255).collect();
    let expected = hex::encode(<sha2::Sha256 as sha2::Digest>::digest(&payload));
    assert_eq!(digest(&payload), expected);
}

#[test]
fn idempotent_storage() {
    let mut store = BlobStore::new("/tmp/store".to_string());
    let bytes: Vec<u8> = b"payload bytes".to_vec();
    let d = digest(&bytes);
    store.put(&d, &bytes);
    store.put(&d, &bytes);
    assert_eq!(store.blob_count(), 1);
    assert_eq!(store.get(&d), Some(&bytes));
    let path = store.blob_path(&d);
    assert_eq!(path, format!("/tmp/store/{}.bin", d));
}

#[test]
fn cover_storage_and_paths() {
    let mut store = BlobStore::new("/data".to_string());
    let cover: Vec<u8> = vec![1, 2, 3];
    let d = "00ff".to_string();
    store.put_cover(&d, &cover);
    store.put_cover(&d, &cover);
    assert_eq!(store.cover_count(), 1);
    assert_eq!(store.get_cover(&d), Some(&cover));
    assert_eq!(store.cover_path(&d), "/data/00ff-cover.bin");
    assert_eq!(store.get(&d), None);
}

#[test]
fn dedup_of_content() {
    let mut svc = service();
    let bytes: Vec<u8> = b"identical payload".to_vec();
    assert!(svc.can_ingest());
    let e1 = svc.ingest(1, "first.epub", bytes.clone());
    let e2 = svc.ingest(2, "second.epub", bytes.clone());
    assert_eq!(svc.entry_count(), 2);
    assert_eq!(svc.blob_count(), 1);
    assert!(svc.metadata_count() <= 1);
    assert_ne!(e1.id, e2.id);
    assert_eq!(e1.content_hash, e2.content_hash);
    assert_eq!(e1.owner_id, 1);
    assert_eq!(e2.owner_id, 2);
}

#[test]
fn extension_normalization() {
    let mut svc = service();
    let e1 = svc.ingest(1, "Foo.EPUB", b"first bytes".to_vec());
    let e2 = svc.ingest(1, "bar.epub", b"second bytes".to_vec());
    assert_ne!(e1.content_hash, e2.content_hash);
    assert_eq!(e1.file_type_id, e2.file_type_id);
    let d1 = svc.describe(e1.id, 1).unwrap();
    let d2 = svc.describe(e2.id, 1).unwrap();
    assert_eq!(d1.file_type.id, d2.file_type.id);
    assert_eq!(d1.file_type.name, "epub");
    assert_eq!(svc.type_count(), 1);
}

#[test]
fn missing_extension_uses_default() {
    let mut svc = service();
    let e = svc.ingest(1, "README", b"no extension".to_vec());
    let d = svc.describe(e.id, 1).unwrap();
    assert_eq!(d.file_type.name, "epub");
    assert_eq!(e.title, "README");
}

#[test]
fn novel_extension_is_registered_once() {
    let mut svc = service();
    let e1 = svc.ingest(1, "notes.TXT", b"one".to_vec());
    let e2 = svc.ingest(2, "more.txt", b"two".to_vec());
    assert_eq!(e1.file_type_id, e2.file_type_id);
    let d = svc.describe(e1.id, 1).unwrap();
    assert_eq!(d.file_type.name, "txt");
    assert_eq!(svc.type_count(), 1);
}

#[test]
fn ownership_isolation() {
    let mut svc = service();
    let e = svc.ingest(1, "mine.epub", b"owner one's bytes".to_vec());
    assert_eq!(svc.describe(e.id, 2).err(), Some(ServiceError::NotFound));
    assert!(svc.describe(e.id, 1).is_ok());
    assert_eq!(svc.fetch_blob_path(e.id, 2), Err(ServiceError::NotFound));
    assert_eq!(svc.fetch_cover_path(e.id, 2), Err(ServiceError::NotFound));
    assert!(svc.list(2).is_empty());
}

#[test]
fn extraction_fault_tolerance() {
    let garbage: Vec<u8> = b"this is not a zip container at all".to_vec();
    assert!(extract(&garbage).is_none());
    let mut svc = service();
    let e = svc.ingest(1, "broken.epub", garbage);
    assert_eq!(svc.entry_count(), 1);
    assert_eq!(svc.metadata_count(), 0);
    let d = svc.describe(e.id, 1).unwrap();
    assert!(d.meta.is_none());
    assert_eq!(svc.fetch_cover_path(e.id, 1), Ok(None));
}

#[test]
fn describe_absent_entry() {
    let svc = service();
    assert_eq!(svc.describe(42, 1).err(), Some(ServiceError::NotFound));
}

#[test]
fn list_is_per_owner_in_order() {
    let mut svc = service();
    let a1 = svc.ingest(1, "a.epub", b"aa".to_vec());
    let _b1 = svc.ingest(2, "b.epub", b"bb".to_vec());
    let a2 = svc.ingest(1, "c.epub", b"cc".to_vec());
    let own = svc.list(1);
    assert_eq!(own.len(), 2);
    assert_eq!(own[0].id, a1.id);
    assert_eq!(own[1].id, a2.id);
    assert!(own.iter().all(|e| e.owner_id == 1));
    assert_eq!(svc.list(2).len(), 1);
    assert_eq!(svc.list(3).len(), 0);
}

#[test]
fn remove_is_ownership_checked() {
    let mut svc = service();
    let e = svc.ingest(1, "mine.epub", b"bytes".to_vec());
    assert_eq!(svc.remove(e.id, 2), 0);
    assert_eq!(svc.entry_count(), 1);
    assert_eq!(svc.remove(e.id, 1), 1);
    assert_eq!(svc.entry_count(), 0);
    assert_eq!(svc.remove(e.id, 1), 0);
    assert!(svc.list(1).is_empty());
    assert_eq!(svc.blob_count(), 1);
}

#[test]
fn remove_keeps_shared_blob_and_metadata() {
    let mut svc = service();
    let bytes: Vec<u8> = b"shared".to_vec();
    let e1 = svc.ingest(1, "one.epub", bytes.clone());
    let e2 = svc.ingest(2, "two.epub", bytes.clone());
    assert_eq!(svc.remove(e1.id, 1), 1);
    assert_eq!(svc.blob_count(), 1);
    let d2 = svc.describe(e2.id, 2).unwrap();
    assert_eq!(d2.entry.content_hash, e2.content_hash);
}

#[test]
fn fetch_blob_path_frames_download() {
    let mut svc = service();
    let bytes: Vec<u8> = b"to download".to_vec();
    let d = digest(&bytes);
    let e = svc.ingest(7, "novel.epub", bytes);
    let (path, name) = svc.fetch_blob_path(e.id, 7).unwrap();
    assert_eq!(path, format!("/tmp/store/{}.bin", d));
    assert_eq!(name, "novel.epub");
    assert_eq!(svc.fetch_blob_path(e.id + 1, 7), Err(ServiceError::NotFound));
}

#[test]
fn blob_bytes_reads_back_stored_payload() {
    let mut svc = service();
    let bytes: Vec<u8> = b"stored payload".to_vec();
    let e = svc.ingest(1, "x.bin", bytes.clone());
    assert_eq!(svc.blob_bytes(&e.content_hash), Some(&bytes));
    assert_eq!(svc.blob_bytes(&"unknown".to_string()), None);
}

#[test]
fn filename_splitting() {
    assert_eq!(split_filename("book.epub"), ("book".to_string(), "epub".to_string()));
    assert_eq!(split_filename("a.b.c"), ("a.b".to_string(), "c".to_string()));
    assert_eq!(split_filename("README"), ("README".to_string(), "".to_string()));
    assert_eq!(split_filename(".bashrc"), (".bashrc".to_string(), "".to_string()));
    assert_eq!(split_filename("trailing."), ("trailing".to_string(), "".to_string()));
    assert_eq!(split_filename(""), ("".to_string(), "".to_string()));
}

#[test]
fn error_messages_and_envelope() {
    assert_eq!(ServiceError::NotFound.message(), "No such book found.");
    assert_eq!(ServiceError::StorageIo.message(), "storage failure");
    assert_eq!(ServiceError::Registry.message(), "registry failure");
    let env = ksync::errors::ErrorResponse::new("boom".to_string());
    assert_eq!(env.status, "error");
    assert_eq!(env.error, "boom");
    let unauthorized = ksync::errors::Unauthorized;
    assert_eq!(unauthorized.message(), "unauthorized");
    assert_eq!(unauthorized.status_code(), 401);
}

#[test]
fn token_envelope_shape() {
    let t = ksync::api_types::Tokens::new(
        "access".to_string(),
        "refresh".to_string(),
        1700000000,
    );
    assert_eq!(t.status, "ok");
    assert_eq!(t.token_type, "Bearer");
    assert_eq!(t.token, "access");
    assert_eq!(t.refresh_token, "refresh");
    assert_eq!(t.expiration, 1700000000);
}
