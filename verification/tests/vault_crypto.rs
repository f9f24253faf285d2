use base64::Engine as _;
use pnd::handle::{create_vault, open_vault, VaultHandle};
use pnd::index::{VaultEntry, VaultPart};
use pnd::vault_crypto::{
    decrypt_blob_with_key, decrypt_index, encrypt_blob_with_key, encrypt_index, generate_key_base64,
    generate_uuid, unsupported_version, VaultError,
};
use pnd::vault_file::{decrypt_parts, encrypt_file_to_vault, entry_blob_uuids, file_name_or_unknown, BLOCK_SIZE};

fn make_handle(password: &str) -> VaultHandle {
    create_vault("/tmp/vault", None, password, true, false).unwrap()
}

fn entry(name: &str, path: &str, size: u64, parts: Vec<VaultPart>) -> VaultEntry {
    VaultEntry {
        name: name.to_string(),
        path: path.to_string(),
        size,
        parts,
        thumbnail_uuid: None,
        thumbnail_key_base64: None,
    }
}

#[test]
fn key_base64_has_correct_length() {
    let k = generate_key_base64();
    assert_eq!(k.len(), 44, "expected 44-char base64 for 32 bytes, got: {k}");
}

#[test]
fn key_base64_is_unique_each_call() {
    let k1 = generate_key_base64();
    let k2 = generate_key_base64();
    assert_ne!(k1, k2, "two generated keys should differ");
}

#[test]
fn key_base64_is_valid_base64() {
    let k = generate_key_base64();
    let decoded = base64::engine::general_purpose::STANDARD.decode(&k).expect("should decode as valid base64");
    assert_eq!(decoded.len(), 32);
}

#[test]
fn blob_key_roundtrip() {
    let key = generate_key_base64();
    let plain = b"hello from vault blob";
    let enc = encrypt_blob_with_key(plain, &key).unwrap();
    let dec = decrypt_blob_with_key(&enc, &key).unwrap();
    assert_eq!(dec, plain);
}

#[test]
fn blob_key_roundtrip_empty_plaintext() {
    let key = generate_key_base64();
    let enc = encrypt_blob_with_key(&[], &key).unwrap();
    let dec = decrypt_blob_with_key(&enc, &key).unwrap();
    assert!(dec.is_empty());
}

#[test]
fn blob_key_wrong_key_returns_error() {
    let key1 = generate_key_base64();
    let key2 = generate_key_base64();
    let enc = encrypt_blob_with_key(b"secret", &key1).unwrap();
    assert!(matches!(decrypt_blob_with_key(&enc, &key2), Err(VaultError::WrongPassword)));
}

#[test]
fn blob_key_too_short_returns_error() {
    let key = generate_key_base64();
    let short = vec![0u8; 10];
    let result = decrypt_blob_with_key(&short, &key);
    assert!(matches!(result, Err(VaultError::InvalidFormat(_))));
}

#[test]
fn blob_key_bad_base64_returns_error() {
    let data = vec![0u8; 50];
    let result = decrypt_blob_with_key(&data, "not-valid-base64!!!");
    assert!(matches!(result, Err(VaultError::InvalidFormat(_))));
}

#[test]
fn blob_salt_field_is_zeroed() {
    let key = generate_key_base64();
    let enc = encrypt_blob_with_key(b"data", &key).unwrap();
    assert_eq!(&enc[..16], &[0u8; 16], "salt bytes should be zeroed for blob files");
}

#[test]
fn two_encryptions_produce_distinct_ciphertext() {
    let key = generate_key_base64();
    let e1 = encrypt_blob_with_key(b"same", &key).unwrap();
    let e2 = encrypt_blob_with_key(b"same", &key).unwrap();
    assert_ne!(e1, e2, "random IV must produce unique ciphertext each call");
}

#[test]
fn blob_error_messages() {
    let key = generate_key_base64();
    match decrypt_blob_with_key(&[0u8; 10], &key) {
        Err(VaultError::InvalidFormat(m)) => assert_eq!(m, "blob too short"),
        _ => panic!("expected a format error"),
    }
    match decrypt_blob_with_key(&[0u8; 50], "not-valid-base64!!!") {
        Err(VaultError::InvalidFormat(m)) => assert!(m.starts_with("bad key base64: ")),
        _ => panic!("expected a format error"),
    }
    // Valid Base64 of 3 bytes: not an AES-256 key.
    match decrypt_blob_with_key(&[0u8; 50], "AAAA") {
        Err(VaultError::InvalidFormat(m)) => assert_eq!(m, "bad key length: Invalid Length"),
        _ => panic!("expected a format error"),
    }
    match encrypt_blob_with_key(b"x", "AAAA") {
        Err(VaultError::InvalidFormat(m)) => assert_eq!(m, "bad key length: Invalid Length"),
        _ => panic!("expected a format error"),
    }
}

#[test]
fn blob_layout_is_salt_iv_ciphertext_tag() {
    let key = generate_key_base64();
    let enc = encrypt_blob_with_key(b"12345", &key).unwrap();
    assert_eq!(enc.len(), 16 + 12 + 5 + 16);
}

#[test]
fn error_messages_match_display_texts() {
    assert_eq!(VaultError::WrongPassword.message(), "wrong password or corrupted index");
    assert_eq!(VaultError::InvalidFormat("x".to_string()).message(), "invalid vault format: x");
    assert_eq!(VaultError::NotFound("u".to_string()).message(), "entry not found: u");
    assert_eq!(VaultError::DuplicateName.message(), "a file with that name already exists");
    assert_eq!(VaultError::Io("disk".to_string()).message(), "I/O error: disk");
}

#[test]
fn uuid_has_version_4_layout() {
    let u = generate_uuid();
    assert_eq!(u.len(), 36);
    let parts: Vec<&str> = u.split('-').collect();
    assert_eq!(parts.iter().map(|p| p.len()).collect::<Vec<_>>(), vec![8, 4, 4, 4, 12]);
    assert!(u.chars().all(|c| c == '-' || c.is_ascii_digit() || ('a'..='f').contains(&c)));
    assert_eq!(parts[2].chars().next(), Some('4'));
    assert!(matches!(parts[3].chars().next(), Some('8' | '9' | 'a' | 'b')));
    assert_ne!(generate_uuid(), u);
}

#[test]
fn index_roundtrip_and_wrong_password() {
    let json = br#"{"version":1,"entries":{}}"#;
    let sealed = encrypt_index(json, "correct-password");
    assert_eq!(sealed.len(), json.len() + 44);
    assert_eq!(decrypt_index(&sealed, "correct-password").unwrap(), json);
    assert!(matches!(decrypt_index(&sealed, "wrong"), Err(VaultError::WrongPassword)));
    match decrypt_index(&[1u8; 43], "pw") {
        Err(VaultError::InvalidFormat(m)) => assert_eq!(m, "index.lock too short"),
        _ => panic!("expected a format error"),
    }
}

#[test]
fn unsupported_version_message() {
    match unsupported_version(2) {
        VaultError::InvalidFormat(m) => assert_eq!(m, "unsupported vault version 2"),
        _ => panic!("expected a format error"),
    }
    match unsupported_version(4294967295) {
        VaultError::InvalidFormat(m) => assert_eq!(m, "unsupported vault version 4294967295"),
        _ => panic!("expected a format error"),
    }
}

#[test]
fn open_vault_checks_version() {
    let h = make_handle("pw");
    let mut index = h.index;
    index.version = 3;
    match open_vault("/v", "pw", index) {
        Err(VaultError::InvalidFormat(m)) => assert_eq!(m, "unsupported vault version 3"),
        _ => panic!("expected a format error"),
    }
}

#[test]
fn create_vault_checks_directory() {
    match create_vault("/v", None, "pw", false, false) {
        Err(VaultError::InvalidFormat(m)) => assert_eq!(m, "vault path must be an existing directory"),
        _ => panic!("expected a format error"),
    }
    match create_vault("/v", None, "pw", true, true) {
        Err(VaultError::InvalidFormat(m)) => assert_eq!(m, "index.lock already exists — this directory is already a vault"),
        _ => panic!("expected a format error"),
    }
    let h = create_vault("/v", Some("blobs"), "pw", true, false).unwrap();
    assert_eq!(h.blobs_dir, "/v/blobs");
    assert_eq!(h.index.version, 1);
    assert_eq!(h.index.len(), 0);
    let h2 = create_vault("/v/", None, "pw", true, false).unwrap();
    assert_eq!(h2.blobs_dir, "/v/");
    assert_eq!(h2.blob_path("abc"), "/v/abc");
}

/// The blob bytes of each part, looked up by UUID in what was stored.
fn read_blobs(store: &[(String, Vec<u8>)], parts: &[VaultPart]) -> Vec<Vec<u8>> {
    parts
        .iter()
        .map(|p| store.iter().find(|(u, _)| *u == p.uuid).unwrap().1.clone())
        .collect()
}

#[test]
fn decrypt_single_part_entry() {
    let plaintext = b"vault file contents";
    let key = generate_key_base64();
    let blob = encrypt_blob_with_key(plaintext, &key).unwrap();
    let blob_uuid = "test-blob-uuid";
    let store = vec![(blob_uuid.to_string(), blob)];

    let mut handle = make_handle("pw");
    handle.index.insert(
        "file-uuid".to_string(),
        entry("file.txt", "", plaintext.len() as u64, vec![VaultPart { uuid: blob_uuid.to_string(), key_base64: key }]),
    );

    let e = handle.index.get("file-uuid").unwrap();
    let blobs = read_blobs(&store, &e.parts);
    let recovered = decrypt_parts(&e.parts, &blobs).unwrap();
    assert_eq!(recovered, plaintext);
}

#[test]
fn decrypt_entry_not_found() {
    let handle = make_handle("pw");
    assert!(handle.index.get("nonexistent").is_none());
}

#[test]
fn decrypt_multi_part_entry() {
    let part1 = b"first chunk";
    let part2 = b"second chunk";
    let key1 = generate_key_base64();
    let key2 = generate_key_base64();

    let store = vec![
        ("blob-1".to_string(), encrypt_blob_with_key(part1, &key1).unwrap()),
        ("blob-2".to_string(), encrypt_blob_with_key(part2, &key2).unwrap()),
    ];

    let parts = vec![
        VaultPart { uuid: "blob-1".to_string(), key_base64: key1 },
        VaultPart { uuid: "blob-2".to_string(), key_base64: key2 },
    ];
    let blobs = read_blobs(&store, &parts);
    let recovered = decrypt_parts(&parts, &blobs).unwrap();
    let mut expected = part1.to_vec();
    expected.extend_from_slice(part2);
    assert_eq!(recovered, expected);
}

#[test]
fn stored_file_reads_back() {
    let data: Vec<u8> = (0..5000u32).map(|i| (i % 251) as u8).collect();
    let (uuid, e, blobs) = encrypt_file_to_vault("/home/me/notes/report.pdf", &data, "docs/2024");
    assert_eq!(uuid.len(), 36);
    assert_eq!(e.name, "report.pdf");
    assert_eq!(e.path, "docs/2024");
    assert_eq!(e.size, 5000);
    assert_eq!(e.parts.len(), 1);
    assert_eq!(blobs.len(), 1);
    assert_eq!(e.parts[0].uuid, blobs[0].0);
    let read = read_blobs(&blobs, &e.parts);
    assert_eq!(decrypt_parts(&e.parts, &read).unwrap(), data);
}

#[test]
fn empty_file_gets_one_empty_part() {
    let (_, e, blobs) = encrypt_file_to_vault("empty.txt", &[], "");
    assert_eq!(e.parts.len(), 1);
    assert_eq!(blobs[0].1.len(), 44);
    let read: Vec<Vec<u8>> = blobs.iter().map(|b| b.1.clone()).collect();
    assert_eq!(decrypt_parts(&e.parts, &read).unwrap(), Vec::<u8>::new());
}

#[test]
fn decrypt_parts_stops_at_bad_blob() {
    let key = generate_key_base64();
    let other = generate_key_base64();
    let good = encrypt_blob_with_key(b"a", &key).unwrap();
    let parts = vec![
        VaultPart { uuid: "1".to_string(), key_base64: key.clone() },
        VaultPart { uuid: "2".to_string(), key_base64: other },
    ];
    let blobs = vec![good.clone(), good];
    assert!(matches!(decrypt_parts(&parts, &blobs), Err(VaultError::WrongPassword)));
}

#[test]
fn file_names_for_storage() {
    assert_eq!(file_name_or_unknown("/a/b/c.txt"), "c.txt");
    assert_eq!(file_name_or_unknown("c.txt"), "c.txt");
    assert_eq!(file_name_or_unknown("/a/b/"), "b");
    assert_eq!(file_name_or_unknown("/"), "unknown");
    assert_eq!(file_name_or_unknown(".."), "unknown");
    assert_eq!(file_name_or_unknown(""), "unknown");
}

#[test]
fn blob_uuids_of_entry() {
    let mut e = entry("a", "", 0, vec![
        VaultPart { uuid: "p1".to_string(), key_base64: String::new() },
        VaultPart { uuid: "p2".to_string(), key_base64: String::new() },
    ]);
    assert_eq!(entry_blob_uuids(&e), vec!["p1".to_string(), "p2".to_string()]);
    e.thumbnail_uuid = Some("t".to_string());
    assert_eq!(entry_blob_uuids(&e), vec!["p1".to_string(), "p2".to_string(), "t".to_string()]);
}

#[test]
fn block_size_is_256_mib() {
    assert_eq!(BLOCK_SIZE, 256 * 1024 * 1024);
}
