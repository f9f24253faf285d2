use aes_gcm::aead::{Aead, KeyInit};
use pnd::frame::{frame_header, seal_frame, FrameHeader};
use pnd::cli::{Cli, OperationMode};
use pnd::enc_dec::{output_refused, plan_enc_dec, EncDecPlan};
use pnd::frame::{crypto_exit, decrypt_blob, decrypt_file, derive_key, encrypt_blob, encrypt_file, FrameError, FRAME_SIZE};

fn roundtrip(plaintext: &[u8], password: &str) -> Vec<u8> {
    let mut ciphertext = Vec::new();
    let mut progress = Vec::new();
    encrypt_file(plaintext, &mut ciphertext, password, &mut progress);

    let mut recovered = Vec::new();
    let mut progress2 = Vec::new();
    let ok = decrypt_file(&ciphertext, &mut recovered, password, &mut progress2).unwrap();
    assert!(ok, "decrypt_file should return true on success");
    recovered
}

#[test]
fn derive_key_is_deterministic() {
    let salt = [1u8; 16];
    let k1 = derive_key("password", &salt);
    let k2 = derive_key("password", &salt);
    assert_eq!(k1, k2);
}

#[test]
fn derive_key_differs_by_salt() {
    let k1 = derive_key("password", &[0u8; 16]);
    let k2 = derive_key("password", &[1u8; 16]);
    assert_ne!(k1, k2);
}

#[test]
fn derive_key_differs_by_password() {
    let salt = [42u8; 16];
    let k1 = derive_key("abc", &salt);
    let k2 = derive_key("xyz", &salt);
    assert_ne!(k1, k2);
}

#[test]
fn blob_roundtrip() {
    let plain = b"hello vault";
    let blob = encrypt_blob(plain, "s3cr3t");
    let recovered = decrypt_blob(&blob, "s3cr3t").expect("decryption should succeed");
    assert_eq!(recovered, plain);
}

#[test]
fn blob_wrong_password_returns_none() {
    let blob = encrypt_blob(b"data", "correct");
    assert!(decrypt_blob(&blob, "wrong").is_none());
}

#[test]
fn blob_too_short_returns_none() {
    let short = vec![0u8; 10];
    assert!(decrypt_blob(&short, "pw").is_none());
}

#[test]
fn blob_empty_plaintext_roundtrip() {
    let blob = encrypt_blob(&[], "pw");
    let recovered = decrypt_blob(&blob, "pw").expect("should handle empty plaintext");
    assert!(recovered.is_empty());
}

#[test]
fn blob_each_encrypt_produces_unique_ciphertext() {
    let b1 = encrypt_blob(b"same", "pw");
    let b2 = encrypt_blob(b"same", "pw");
    assert_ne!(b1, b2);
}

#[test]
fn file_roundtrip_small() {
    let plain = b"The quick brown fox";
    assert_eq!(roundtrip(plain, "pw"), plain);
}

#[test]
fn file_roundtrip_empty() {
    assert_eq!(roundtrip(&[], "pw"), &[] as &[u8]);
}

#[test]
fn file_roundtrip_binary() {
    let plain: Vec<u8> = (0u8..=255).collect();
    assert_eq!(roundtrip(&plain, "pw"), plain);
}

#[test]
fn file_wrong_password_returns_false() {
    let mut ciphertext = Vec::new();
    let mut progress = Vec::new();
    encrypt_file(b"secret", &mut ciphertext, "correct", &mut progress);

    let mut out = Vec::new();
    let mut progress2 = Vec::new();
    let ok = decrypt_file(&ciphertext, &mut out, "wrong", &mut progress2).unwrap();
    assert!(!ok);
}

#[test]
fn file_progress_callback_reports_bytes() {
    let plain = vec![42u8; 1024];
    let mut ciphertext = Vec::new();
    let mut enc_reports = Vec::new();
    encrypt_file(&plain, &mut ciphertext, "pw", &mut enc_reports);
    let total_enc: usize = enc_reports.iter().sum();
    assert_eq!(total_enc, plain.len());

    let mut dec_reports = Vec::new();
    let mut out = Vec::new();
    decrypt_file(&ciphertext, &mut out, "pw", &mut dec_reports).unwrap();
    let total_dec: usize = dec_reports.iter().sum();
    assert_eq!(total_dec, plain.len());
}

#[test]
fn empty_input_still_writes_one_frame() {
    let mut ciphertext = Vec::new();
    let mut progress = Vec::new();
    encrypt_file(&[], &mut ciphertext, "pw", &mut progress);
    // One frame: four length bytes, then a blob of salt, IV and tag.
    assert_eq!(ciphertext.len(), 4 + 44);
    assert_eq!(&ciphertext[..4], &[0, 0, 0, 44]);
    assert_eq!(progress, vec![0]);
}

#[test]
fn frame_length_prefix_is_big_endian_blob_length() {
    let mut ciphertext = Vec::new();
    let mut progress = Vec::new();
    encrypt_file(b"abc", &mut ciphertext, "pw", &mut progress);
    assert_eq!(ciphertext.len(), 4 + 3 + 44);
    assert_eq!(&ciphertext[..4], &[0, 0, 0, 47]);
    assert_eq!(progress, vec![3]);
}

#[test]
fn output_keeps_what_was_already_there() {
    let mut ciphertext = vec![9u8, 9, 9];
    let mut progress = vec![7usize];
    encrypt_file(b"xy", &mut ciphertext, "pw", &mut progress);
    assert_eq!(&ciphertext[..3], &[9, 9, 9]);
    assert_eq!(progress, vec![7, 2]);
}

#[test]
fn stray_bytes_after_frames_are_corruption() {
    let mut ciphertext = Vec::new();
    let mut progress = Vec::new();
    encrypt_file(b"hello", &mut ciphertext, "pw", &mut progress);
    ciphertext.extend_from_slice(&[0, 1]);
    let mut out = Vec::new();
    let mut p = Vec::new();
    assert_eq!(decrypt_file(&ciphertext, &mut out, "pw", &mut p), Ok(false));
    assert_eq!(out, b"hello");
    let mut out = Vec::new();
    let mut p = Vec::new();
    assert_eq!(decrypt_file(&[0, 1], &mut out, "pw", &mut p), Ok(false));
    assert!(out.is_empty());
    assert_eq!(decrypt_file(&[], &mut out, "pw", &mut p), Ok(true));
    assert!(out.is_empty());
}

#[test]
fn stream_ending_inside_blob_is_truncated() {
    let mut ciphertext = Vec::new();
    let mut progress = Vec::new();
    encrypt_file(b"hello", &mut ciphertext, "pw", &mut progress);
    ciphertext.truncate(ciphertext.len() - 1);
    let mut out = Vec::new();
    let mut p = Vec::new();
    assert_eq!(decrypt_file(&ciphertext, &mut out, "pw", &mut p), Err(FrameError::Truncated));
    assert!(out.is_empty());
}

#[test]
fn frame_size_is_64_mib() {
    assert_eq!(FRAME_SIZE, 64 * 1024 * 1024);
}

#[test]
fn command_line_exit_codes() {
    use_exit(&Ok(true), None, 0);
    use_exit(&Ok(false), Some("error: wrong password or corrupted file"), 1);
    use_exit(&Err(FrameError::Truncated), Some("error: failed to fill whole buffer"), 2);
    assert_eq!(FrameError::Truncated.message(), "failed to fill whole buffer");
}

fn use_exit(result: &Result<bool, FrameError>, message: Option<&str>, code: i32) {
    let (m, c) = crypto_exit(result);
    assert_eq!(m.as_deref(), message);
    assert_eq!(c, code);
}

fn plan(files: &[&str], mode: Option<OperationMode>, stdout: bool, output: Option<&str>, tty: bool) -> EncDecPlan {
    let files: Vec<String> = files.iter().map(|f| f.to_string()).collect();
    plan_enc_dec(&files, mode, stdout, &output.map(|o| o.to_string()), tty)
}

fn go(p: EncDecPlan) -> (bool, bool, bool, Option<String>, bool) {
    match p {
        EncDecPlan::Go { from_stdin, decrypt, to_stdout, out_path, warn_output_ignored } => {
            (from_stdin, decrypt, to_stdout, out_path, warn_output_ignored)
        },
        EncDecPlan::Refuse { message, code } => panic!("refused ({}): {}", code, message),
    }
}

#[test]
fn piped_input_without_mode_is_refused_with_a_hint() {
    let mut cli = Cli {
        vault_dir: None, tui: false, preview_mode: false, vault: None, vault_list: None,
        vault_preview: None, vault_add: vec![], vault_export: None, vault_rename: vec![],
        vault_move: vec![], vault_delete: vec![], vault_init: None, mode: None, output: None,
        force: false, stdout: false, json: false, path: None, blobs_dir: None, vault_path: None,
        dest: None, recursive: false, yes: false, name: None, files: vec![],
    };
    assert!(!cli.is_tui_mode(false));
    assert!(cli.is_enc_dec_mode(false));
    assert!(cli.is_tui_mode(true));
    assert!(!cli.is_enc_dec_mode(true));
    cli.vault_delete.push("a.txt".to_string());
    assert!(!cli.is_enc_dec_mode(false));
    match plan(&[], None, false, None, false) {
        EncDecPlan::Refuse { message, code } => {
            assert_eq!(code, 3);
            assert!(message.contains("-m"));
        },
        EncDecPlan::Go { .. } => panic!("piped input needs -m"),
    }
}

#[test]
fn piped_input_goes_to_standard_output() {
    assert_eq!(go(plan(&[], Some(OperationMode::Encrypt), false, None, false)), (true, false, true, None, false));
    assert_eq!(go(plan(&["-"], Some(OperationMode::Decrypt), false, None, true)), (true, true, true, None, false));
    assert_eq!(
        go(plan(&["-"], Some(OperationMode::Encrypt), false, Some("out.lock"), true)),
        (true, false, false, Some("out.lock".to_string()), false)
    );
}

#[test]
fn file_mode_follows_lock_extension() {
    assert_eq!(
        go(plan(&["dir/a.txt"], None, false, None, true)),
        (false, false, false, Some("dir/a.txt.lock".to_string()), false)
    );
    assert_eq!(go(plan(&["dir/a.LOCK"], None, false, None, true)), (false, true, false, Some("dir/a".to_string()), false));
    assert_eq!(
        go(plan(&["a.lock"], Some(OperationMode::Encrypt), false, None, true)),
        (false, false, false, Some("a.lock.lock".to_string()), false)
    );
    assert_eq!(go(plan(&["a.txt"], None, false, Some("b"), true)), (false, false, false, Some("b".to_string()), false));
}

#[test]
fn stdout_flag_wins_over_output_with_a_warning() {
    assert_eq!(go(plan(&["a.txt"], None, true, Some("b"), true)), (false, false, true, None, true));
    assert_eq!(go(plan(&["a.txt"], None, true, None, true)), (false, false, true, None, false));
}

#[test]
fn more_than_one_file_is_refused() {
    match plan(&["a", "b"], None, false, None, true) {
        EncDecPlan::Refuse { message, code } => {
            assert_eq!(code, 3);
            assert_eq!(message, "error: encrypt/decrypt takes exactly one file; got 2");
        },
        EncDecPlan::Go { .. } => panic!("two files"),
    }
}

#[test]
fn existing_output_is_refused_unless_forced() {
    assert_eq!(output_refused(true, false), Some(4));
    assert_eq!(output_refused(true, true), None);
    assert_eq!(output_refused(false, false), None);
}

#[test]
fn blob_is_salt_then_iv_then_gcm_sealing_under_derived_key() {
    let blob = encrypt_blob(b"layout", "pw");
    let key = derive_key("pw", &blob[..16]);
    let cipher = aes_gcm::Aes256Gcm::new(aes_gcm::Key::<aes_gcm::Aes256Gcm>::from_slice(&key));
    let plain = cipher.decrypt(aes_gcm::Nonce::from_slice(&blob[16..28]), &blob[28..]).unwrap();
    assert_eq!(plain, b"layout");
}

#[test]
fn frames_one_at_a_time() {
    let frame = seal_frame(b"abc", "pw");
    assert_eq!(frame.len(), 4 + 3 + 44);
    assert_eq!(frame_header(&frame[..4]), FrameHeader::Blob(47));
    assert_eq!(decrypt_blob(&frame[4..], "pw"), Some(b"abc".to_vec()));
    assert_eq!(frame_header(&[]), FrameHeader::End);
    assert_eq!(frame_header(&[0, 1, 2]), FrameHeader::Stray);
    let mut out = Vec::new();
    let mut p = Vec::new();
    assert_eq!(decrypt_file(&frame, &mut out, "pw", &mut p), Ok(true));
    assert_eq!(out, b"abc");
}
