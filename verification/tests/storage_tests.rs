use dx_forge::blob::{decode_frame, detect_mime_type_from_path, encode_frame, Blob, BlobRepository};
use dx_forge::digest::{hmac_sha256, sha256_hex};
use dx_forge::r2::{blob_key, R2Config};

#[test]
fn test_r2_config() {
    let config = R2Config {
        account_id: "test-account".to_string(),
        bucket_name: "forge-blobs".to_string(),
        access_key_id: "test-key".to_string(),
        secret_access_key: "test-secret".to_string(),
        custom_domain: None,
    };

    assert!(config.endpoint_url().contains("test-account"));
    assert!(config.endpoint_url().contains("r2.cloudflarestorage.com"));
}

#[test]
fn custom_domain_overrides_default_endpoint() {
    let config = R2Config {
        account_id: "test-account".to_string(),
        bucket_name: "forge-blobs".to_string(),
        access_key_id: "test-key".to_string(),
        secret_access_key: "test-secret".to_string(),
        custom_domain: Some("blobs.example.net".to_string()),
    };
    assert_eq!(config.endpoint_url(), "https://blobs.example.net");
}

#[test]
fn test_blob_serialization() {
    let content = b"Hello, world!".to_vec();
    let blob = Blob::from_content("test.txt", content.clone());

    let meta_bytes = blob.metadata.hash.as_bytes().to_vec();
    let binary = encode_frame(&meta_bytes, &blob.content).unwrap();
    let (restored_meta, restored_content) = decode_frame(&binary).unwrap();

    assert_eq!(meta_bytes, restored_meta);
    assert_eq!(blob.content, restored_content);
    assert_eq!(blob.metadata.path, "test.txt".to_string());
}

#[test]
fn test_blob_compression() {
    let content = b"Hello, world! ".repeat(1000);
    let mut blob = Blob::from_content("test.txt", content.clone());

    let original_size = blob.metadata.size;
    blob.compress().unwrap();
    let compressed_size = blob.metadata.size;

    assert!(compressed_size < original_size);
    assert_eq!(blob.metadata.compression, Some("lz4".to_string()));

    blob.decompress().unwrap();
    assert_eq!(blob.content, content);
    assert_eq!(blob.metadata.compression, None);
}

#[test]
fn blob_hash_is_content_addressed() {
    // SHA-256 of the empty input, a published value
    assert_eq!(
        sha256_hex(b""),
        "e3b0c44298fc1c149afbf4c8996fb92427ae41e4649b934ca495991b7852b855"
    );
    let blob = Blob::from_content("x.bin", b"abc".to_vec());
    assert_eq!(
        blob.hash(),
        "ba7816bf8f01cfea414140de5dae2223b00361a396177a9cb410ff61f20015ad"
    );
}

#[test]
fn hmac_matches_published_vector() {
    // RFC 4231 test case 2
    let tag = hmac_sha256(b"Jefe", b"what do ya want for nothing?");
    assert_eq!(
        hex::encode(&tag),
        "5bdcc146bf60754e6a042426089575c75a003f089d2739839dec58b964ec3843"
    );
}

#[test]
fn truncated_frames_are_rejected() {
    assert!(decode_frame(b"ab").is_err());
    // prefix promises more metadata than the buffer holds
    let framed = encode_frame(b"meta", b"content").unwrap();
    assert!(decode_frame(&framed[..5]).is_err());
}

#[test]
fn mime_types_follow_extensions() {
    assert_eq!(detect_mime_type_from_path("src/lib.rs"), "text/x-rust");
    assert_eq!(detect_mime_type_from_path("INDEX.HTML"), "text/html");
    assert_eq!(detect_mime_type_from_path("conf.yml"), "application/yaml");
    assert_eq!(
        detect_mime_type_from_path("binary.dat"),
        "application/octet-stream"
    );
}

#[test]
fn blob_paths_and_keys_shard_by_hash_prefix() {
    let repo = BlobRepository::new("/work/.dx/forge");
    assert_eq!(
        repo.get_blob_path("abcdef"),
        "/work/.dx/forge/blobs/ab/cdef"
    );
    assert_eq!(blob_key("abcdef"), "blobs/ab/cdef");
}

#[test]
fn auth_header_is_deterministic_and_signed() {
    let config = R2Config {
        account_id: "acct".to_string(),
        bucket_name: "bkt".to_string(),
        access_key_id: "AKID".to_string(),
        secret_access_key: "SECRET-REDACTED".to_string(),
        custom_domain: None,
    };
    let h1 = config.create_auth_header("PUT", "blobs/ab/cd", b"body", "20240101T000000Z");
    let h2 = config.create_auth_header("PUT", "blobs/ab/cd", b"body", "20240101T000000Z");
    assert_eq!(h1, h2);
    assert!(h1.starts_with("AWS4-HMAC-SHA256 Credential=AKID/20240101/auto/s3/aws4_request"));
    let sig = h1.rsplit("Signature=").next().unwrap();
    assert_eq!(sig.len(), 64);
    assert!(sig.bytes().all(|b| b.is_ascii_hexdigit()));
}
