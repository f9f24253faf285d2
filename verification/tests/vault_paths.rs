use pnd::download::download_outcome;
use pnd::cli::{check_blobs_dir_name, BlobsDirName};
use pnd::disposition::{extract_filename_from_disposition, percent_decode};
use pnd::folders::collect_all_folders;
use pnd::handle::{
    collect_folder_entries, create_vault, find_entry, find_entry_by_name, find_entry_uuid, index_lock_path,
    index_read_error, index_tmp_path, is_vault_folder, relative_out_path, VaultHandle,
};
use pnd::index::VaultEntry;
use pnd::ops::{move_entry, plan_delete, prepare_add, remove_entries, rename_entry, AddPlan, MoveOutcome, RenameOutcome};
use pnd::paths::{full_path, join_path, normalize_path, normalize_vault_path, parent_of, split_name};
use pnd::resolve::resolve_names;
use pnd::vault_crypto::VaultError;

fn entry(name: &str, path: &str) -> VaultEntry {
    VaultEntry {
        name: name.to_string(),
        path: path.to_string(),
        size: 0,
        parts: vec![],
        thumbnail_uuid: None,
        thumbnail_key_base64: None,
    }
}

fn make_vault_with_entries(entries: &[(&str, &str, &str)]) -> VaultHandle {
    let mut handle = create_vault("/vault", None, "pw", true, false).expect("create_vault");
    for (uuid, name, path) in entries {
        handle.index.insert(uuid.to_string(), entry(name, path));
    }
    handle
}

#[test]
fn vault_add_cli_normalize_strips_slashes() {
    assert_eq!(normalize_vault_path("/photos/"), "photos");
    assert_eq!(normalize_vault_path("photos/summer/"), "photos/summer");
    assert_eq!(normalize_vault_path(""), "");
    assert_eq!(normalize_vault_path("/"), "");
}

#[test]
fn vault_rmd_cli_normalize_strips_slashes() {
    assert_eq!(normalize_path("/photos/summer/"), "photos/summer");
    assert_eq!(normalize_path(""), "");
    assert_eq!(normalize_path("/"), "");
}

#[test]
fn normalize_is_idempotent() {
    for p in ["//a//b//", "a", "///", "x/"] {
        let once = normalize_vault_path(p);
        assert_eq!(normalize_vault_path(&once), once);
    }
}

#[test]
fn find_entry_by_name_found() {
    let handle = make_vault_with_entries(&[("uuid-1", "photo.jpg", "photos")]);
    assert_eq!(find_entry_by_name(&handle, "photos", "photo.jpg"), Some("uuid-1".to_string()));
}

#[test]
fn find_entry_by_name_not_found() {
    let handle = make_vault_with_entries(&[]);
    assert_eq!(find_entry_by_name(&handle, "", "missing.txt"), None);
}

#[test]
fn find_entry_by_name_wrong_path() {
    let handle = make_vault_with_entries(&[("uuid-1", "file.txt", "docs")]);
    assert_eq!(find_entry_by_name(&handle, "other", "file.txt"), None);
}

#[test]
fn find_entry_at_root() {
    let handle = make_vault_with_entries(&[("u1", "notes.txt", "")]);
    assert_eq!(find_entry_uuid(&handle, "notes.txt"), Some("u1".to_string()));
}

#[test]
fn find_entry_nested() {
    let handle = make_vault_with_entries(&[("u1", "beach.jpg", "photos/summer")]);
    assert_eq!(find_entry_uuid(&handle, "photos/summer/beach.jpg"), Some("u1".to_string()));
}

#[test]
fn find_entry_not_found() {
    let handle = make_vault_with_entries(&[]);
    assert!(find_entry_uuid(&handle, "missing.txt").is_none());
}

#[test]
fn find_entry_ignores_outer_slashes() {
    let handle = make_vault_with_entries(&[("u1", "beach.jpg", "photos")]);
    let (e, u) = find_entry(&handle, "/photos/beach.jpg/").unwrap();
    assert_eq!(u, "u1");
    assert_eq!(e.name, "beach.jpg");
}

#[test]
fn rename_collision_detected() {
    let mut handle = make_vault_with_entries(&[("u1", "a.txt", ""), ("u2", "b.txt", "")]);
    assert!(matches!(rename_entry(&mut handle, "a.txt", "b.txt"), RenameOutcome::Collision));
    assert_eq!(handle.index.get("u1").unwrap().name, "a.txt");
}

#[test]
fn rename_updates_name() {
    let mut handle = make_vault_with_entries(&[("u1", "old.txt", "docs")]);
    match rename_entry(&mut handle, "docs/old.txt", "new.txt") {
        RenameOutcome::Renamed { new_full, .. } => assert_eq!(new_full, "docs/new.txt"),
        _ => panic!("expected a rename"),
    }
    let e = handle.index.get("u1").unwrap();
    assert_eq!(e.name, "new.txt");
    assert_eq!(e.path, "docs");
    assert!(matches!(rename_entry(&mut handle, "docs/new.txt", "new.txt"), RenameOutcome::Unchanged));
    assert!(matches!(rename_entry(&mut handle, "nope", "x"), RenameOutcome::NotFound));
}

#[test]
fn move_updates_path_and_name() {
    let mut handle = make_vault_with_entries(&[("u1", "photo.jpg", "photos"), ("u2", "taken.jpg", "archive")]);
    match move_entry(&mut handle, "photos/photo.jpg", "archive", None) {
        MoveOutcome::Moved { old_full, new_full } => {
            assert_eq!(old_full, "photos/photo.jpg");
            assert_eq!(new_full, "archive/photo.jpg");
        },
        _ => panic!("expected a move"),
    }
    let e = handle.index.get("u1").unwrap();
    assert_eq!(e.path, "archive");
    assert_eq!(e.name, "photo.jpg");
    match move_entry(&mut handle, "archive/photo.jpg", "", Some("taken.jpg")) {
        MoveOutcome::Moved { new_full, .. } => assert_eq!(new_full, "taken.jpg"),
        _ => panic!("expected a move"),
    }
    match move_entry(&mut handle, "taken.jpg", "archive", None) {
        MoveOutcome::Collision { name } => assert_eq!(name, "taken.jpg"),
        _ => panic!("expected a collision"),
    }
    assert!(matches!(move_entry(&mut handle, "taken.jpg", "", None), MoveOutcome::Unchanged));
}

#[test]
fn add_collision_and_force() {
    let mut handle = make_vault_with_entries(&[("u1", "a.txt", "docs")]);
    assert!(matches!(prepare_add(&mut handle, "docs", "a.txt", false), AddPlan::Collision));
    assert_eq!(handle.index.len(), 1);
    match prepare_add(&mut handle, "docs", "a.txt", true) {
        AddPlan::Proceed { removed_blobs } => assert!(removed_blobs.is_empty()),
        _ => panic!("expected to proceed"),
    }
    assert_eq!(handle.index.len(), 0);
    assert!(matches!(prepare_add(&mut handle, "docs", "a.txt", false), AddPlan::Proceed { .. }));
}

#[test]
fn delete_plans_and_removes() {
    let mut handle = make_vault_with_entries(&[("u1", "file.txt", ""), ("u2", "other.txt", "d")]);
    let (targets, missing) = plan_delete(&handle, &["/file.txt".to_string(), "nope".to_string()]);
    assert!(missing);
    assert_eq!(targets, vec![("u1".to_string(), "file.txt".to_string())]);
    remove_entries(&mut handle.index, &["u1".to_string()]);
    assert!(handle.index.get("u1").is_none());
    assert!(handle.index.get("u2").is_some());
}

#[test]
fn split_name_cases() {
    assert_eq!(split_name("photo.jpg"), ("photo".to_string(), "jpg".to_string()));
    assert_eq!(split_name("archive.tar.gz"), ("archive.tar".to_string(), "gz".to_string()));
    assert_eq!(split_name(".gitignore"), (".gitignore".to_string(), String::new()));
    assert_eq!(split_name("README"), ("README".to_string(), String::new()));
    assert_eq!(split_name("a."), ("a".to_string(), String::new()));
}

#[test]
fn full_and_joined_paths() {
    assert_eq!(full_path("", "a.txt"), "a.txt");
    assert_eq!(full_path("x/y", "a.txt"), "x/y/a.txt");
    assert_eq!(join_path("/v", "blobs"), "/v/blobs");
    assert_eq!(join_path("/v/", "blobs"), "/v/blobs");
    assert_eq!(join_path("", "blobs"), "blobs");
    assert_eq!(join_path("/v", "/abs"), "/abs");
    assert_eq!(index_lock_path("/v"), "/v/index.lock");
    assert_eq!(index_tmp_path("."), "./index.lock.tmp");
    assert_eq!(parent_of("a/b/c"), "a/b");
    assert_eq!(parent_of("a"), "");
}

#[test]
fn index_read_errors() {
    match index_read_error(true, "gone".to_string()) {
        VaultError::InvalidFormat(m) => assert_eq!(m, "index.lock not found — not a vault directory"),
        _ => panic!("expected a format error"),
    }
    assert!(matches!(index_read_error(false, "denied".to_string()), VaultError::Io(m) if m == "denied"));
}

#[test]
fn resolve_names_avoids_clashes() {
    let handle = make_vault_with_entries(&[
        ("u1", "a.txt", "src"),
        ("u2", "a.txt", "dst"),
        ("u3", "a (1).txt", "dst"),
        ("u4", "b", "src"),
        ("u5", "b", "dst"),
    ]);
    let r = resolve_names(&["u1".to_string(), "u4".to_string(), "zz".to_string()], "dst", &handle);
    assert_eq!(r[0], ("u1".to_string(), "a (2).txt".to_string()));
    assert_eq!(r[1], ("u4".to_string(), "b (1)".to_string()));
    assert_eq!(r[2], ("zz".to_string(), String::new()));
    // A file keeps its own name where nothing else has it.
    let r2 = resolve_names(&["u2".to_string()], "dst", &handle);
    assert_eq!(r2[0].1, "a.txt");
}

#[test]
fn all_folders_include_root_and_parents() {
    let handle = make_vault_with_entries(&[("u1", "x", "a/b/c"), ("u2", "y", "a/d"), ("u3", "z", "")]);
    let folders = collect_all_folders(&handle);
    assert_eq!(folders, vec!["", "a", "a/b", "a/b/c", "a/d"]);
}

#[test]
fn subfolders_and_entries_in_path() {
    let handle = make_vault_with_entries(&[
        ("u1", "b.txt", "docs"),
        ("u2", "a.txt", "docs"),
        ("u3", "x", "docs/old/deep"),
        ("u4", "y", "pics"),
        ("u5", "a.txt", "docs"),
    ]);
    assert_eq!(handle.subfolders(""), vec!["docs", "pics"]);
    assert_eq!(handle.subfolders("docs"), vec!["old"]);
    assert_eq!(handle.subfolders("pics"), Vec::<String>::new());
    let files: Vec<&str> = handle.entries_in_path("docs").iter().map(|(u, _)| u.as_str()).collect();
    assert_eq!(files, vec!["u2", "u5", "u1"]);
}

#[test]
fn folder_entries_and_relative_paths() {
    let handle = make_vault_with_entries(&[
        ("u1", "beach.jpg", "photos/summer"),
        ("u2", "pic.jpg", "photos/summer/2023"),
        ("u3", "other.jpg", "photos/summerish"),
    ]);
    assert_eq!(collect_folder_entries(&handle, "photos/summer", false).len(), 1);
    assert_eq!(collect_folder_entries(&handle, "photos/summer", true).len(), 2);
    assert_eq!(collect_folder_entries(&handle, "", true).len(), 3);
    assert!(is_vault_folder(&handle, "photos"));
    assert!(!is_vault_folder(&handle, "phot"));
    let e1 = handle.index.get("u1").unwrap();
    let e2 = handle.index.get("u2").unwrap();
    assert_eq!(relative_out_path(e1, "photos/summer"), "beach.jpg");
    assert_eq!(relative_out_path(e2, "photos/summer"), "2023/pic.jpg");
    assert_eq!(relative_out_path(e2, ""), "photos/summer/2023/pic.jpg");
}

#[test]
fn blobs_dir_names() {
    assert_eq!(check_blobs_dir_name("blobs"), BlobsDirName::Valid);
    assert_eq!(check_blobs_dir_name("a/b"), BlobsDirName::NotSingleName);
    assert_eq!(check_blobs_dir_name("a\\b"), BlobsDirName::NotSingleName);
    assert_eq!(check_blobs_dir_name(".."), BlobsDirName::NotSingleName);
    assert_eq!(check_blobs_dir_name("."), BlobsDirName::NotSingleName);
    assert_eq!(check_blobs_dir_name(""), BlobsDirName::Empty);
}

#[test]
fn percent_decoding() {
    assert_eq!(percent_decode("a%20b"), "a b");
    assert_eq!(percent_decode("%41%6a"), "Aj");
    assert_eq!(percent_decode("100%"), "100");
    assert_eq!(percent_decode("%zzok"), "ok");
    assert_eq!(percent_decode("%e9"), "\u{e9}");
}

#[test]
fn disposition_file_names() {
    assert_eq!(extract_filename_from_disposition("attachment; filename=\"report.pdf\""), Some("report.pdf".to_string()));
    assert_eq!(
        extract_filename_from_disposition("attachment; filename=\"a.txt\"; filename*=UTF-8''na%C3%AFve.txt"),
        Some("naïve.txt".to_string())
    );
    assert_eq!(extract_filename_from_disposition("attachment; filename*=\"plain.bin\""), Some("plain.bin".to_string()));
    assert_eq!(extract_filename_from_disposition("inline"), None);
    assert_eq!(extract_filename_from_disposition("filename=a; filename=b"), Some("b".to_string()));
    assert_eq!(
        extract_filename_from_disposition("attachment; filename*=UTF-8''%C3%A9t%C3%A9.txt"),
        Some("été.txt".to_string())
    );
    assert_eq!(
        extract_filename_from_disposition(r#"attachment; filename="a.txt"; filename*=UTF-8''b%20c.txt"#),
        Some("b c.txt".to_string())
    );
    assert_eq!(percent_decode("%FF%41"), "\u{ff}A");
}

#[test]
fn download_outcome_reports_failures_and_names() {
    match download_outcome(false, 404, Some("Not Found"), None, b"") {
        Err(m) => assert_eq!(m, "HTTP 404 Not Found"),
        Ok(_) => panic!("expected an error"),
    }
    match download_outcome(false, 599, None, None, b"") {
        Err(m) => assert_eq!(m, "HTTP 599 Unknown"),
        Ok(_) => panic!("expected an error"),
    }
    let d = download_outcome(true, 200, Some("OK"), Some("attachment; filename*=UTF-8''a%20b.txt"), b"hi").unwrap();
    assert_eq!(d.data, "aGk=");
    assert_eq!(d.filename.as_deref(), Some("a b.txt"));
    let d = download_outcome(true, 200, Some("OK"), None, b"").unwrap();
    assert_eq!(d.data, "");
    assert_eq!(d.filename, None);
}
