use pnd::browse::{folder_depth, folder_display_name, BrowseState};
use pnd::cli::{vault_add_source, Cli, OperationMode};
use pnd::handle::{create_vault, VaultHandle};
use pnd::index::VaultEntry;
use pnd::pages::{percent, EncDecState, MenuItem, OpStatus, PreviewPhase, PreviewResult, PreviewState};
use pnd::sorting::{SortDir, SortKey};
use pnd::vault_state::{AddStep, AddWorkerMsg, ExportWorkerMsg, Phase, SaveReason, VaultState, WorkerMsg};
use pnd::vault_crypto::VaultError;

fn entry(name: &str, path: &str, size: u64) -> VaultEntry {
    VaultEntry {
        name: name.to_string(),
        path: path.to_string(),
        size,
        parts: vec![],
        thumbnail_uuid: None,
        thumbnail_key_base64: None,
    }
}

fn handle_with(entries: &[(&str, &str, &str, u64)]) -> VaultHandle {
    let mut h = create_vault("/vault", None, "pw", true, false).unwrap();
    for (u, n, p, s) in entries {
        h.index.insert(u.to_string(), entry(n, p, *s));
    }
    h
}

fn sample() -> VaultHandle {
    handle_with(&[
        ("u1", "b.txt", "", 30),
        ("u2", "a.jpg", "", 10),
        ("u3", "c.mp3", "", 20),
        ("u4", "deep.txt", "docs/old", 1),
    ])
}

fn empty_cli() -> Cli {
    Cli {
        vault_dir: None, tui: false, preview_mode: false, vault: None, vault_list: None,
        vault_preview: None, vault_add: vec![], vault_export: None, vault_rename: vec![],
        vault_move: vec![], vault_delete: vec![], vault_init: None, mode: None, output: None,
        force: false, stdout: false, json: false, path: None, blobs_dir: None, vault_path: None,
        dest: None, recursive: false, yes: false, name: None, files: vec![],
    }
}

#[test]
fn tui_mode_only_without_actions() {
    let mut cli = empty_cli();
    assert!(cli.is_tui_mode(true));
    cli.tui = true;
    cli.json = true;
    assert!(cli.is_tui_mode(true));
    cli.mode = Some(OperationMode::Decrypt);
    assert!(!cli.is_tui_mode(true));
    let mut cli = empty_cli();
    cli.files.push("x".to_string());
    assert!(!cli.is_tui_mode(true));
    let mut cli = empty_cli();
    cli.vault_init = Some(".".to_string());
    assert!(!cli.is_tui_mode(true));
}

#[test]
fn sort_key_cycles_and_direction_toggles() {
    assert_eq!(SortKey::Name.next(), SortKey::Size);
    assert_eq!(SortKey::Age.next(), SortKey::Name);
    assert_eq!(SortKey::Name.next().next().next().next(), SortKey::Name);
    assert_eq!(SortDir::Asc.toggle(), SortDir::Desc);
    assert_eq!(SortDir::Asc.toggle().toggle(), SortDir::Asc);
    assert_eq!(SortKey::Type.label(), "Type");
    assert_eq!(SortDir::Desc.arrow(), "↓");
}

#[test]
fn browser_lists_folders_then_sorted_files() {
    let mut b = BrowseState::new(sample());
    assert_eq!(b.folders, vec!["docs"]);
    assert_eq!(b.file_uuids, vec!["u2", "u1", "u3"]);
    assert_eq!(b.all_folders, vec!["", "docs", "docs/old"]);
    assert_eq!(b.list_count(), 4);
    b.sort_key = SortKey::Size;
    b.refresh();
    assert_eq!(b.file_uuids, vec!["u2", "u3", "u1"]);
    b.toggle_sort_dir();
    b.refresh();
    assert_eq!(b.file_uuids, vec!["u1", "u3", "u2"]);
    b.cycle_sort_key();
    assert_eq!(b.sort_key, SortKey::Type);
    assert_eq!(b.sort_dir, SortDir::Asc);
    b.refresh();
    // Categories: image 0, audio 2, text 5.
    assert_eq!(b.file_uuids, vec!["u2", "u3", "u1"]);
    b.cycle_sort_key();
    b.refresh();
    assert_eq!(b.file_uuids, vec!["u1", "u2", "u3"]);
    b.toggle_sort_dir();
    b.refresh();
    assert_eq!(b.file_uuids, vec!["u3", "u2", "u1"]);
}

#[test]
fn browser_navigation() {
    let mut b = BrowseState::new(sample());
    assert_eq!(b.cursor_folder().map(|s| s.as_str()), Some("docs"));
    assert_eq!(b.cursor_file_uuid(), None);
    b.move_list_down();
    assert_eq!(b.cursor_file_uuid().map(|s| s.as_str()), Some("u2"));
    b.move_list_down();
    b.move_list_down();
    b.move_list_down();
    assert_eq!(b.list_cursor, 3);
    b.move_list_up();
    assert_eq!(b.list_cursor, 2);
    b.navigate_into("docs");
    assert_eq!(b.current_path, "docs");
    assert_eq!(b.folders, vec!["old"]);
    assert!(b.file_uuids.is_empty());
    assert_eq!(b.tree_cursor, 1);
    b.navigate_into("old");
    assert_eq!(b.file_uuids, vec!["u4"]);
    assert!(b.navigate_up());
    assert_eq!(b.current_path, "docs");
    assert!(b.navigate_up());
    assert!(!b.navigate_up());
    b.move_tree_down();
    b.move_tree_down();
    b.move_tree_down();
    assert_eq!(b.tree_cursor, 2);
    b.navigate_tree_cursor();
    assert_eq!(b.current_path, "docs/old");
}

#[test]
fn selection_toggles() {
    let mut b = BrowseState::new(sample());
    b.move_list_down();
    b.toggle_selection();
    assert_eq!(b.selected_uuids, vec!["u2"]);
    b.move_list_down();
    b.toggle_selection();
    assert_eq!(b.selected_uuids, vec!["u1", "u2"]);
    assert_eq!(b.effective_selection(), vec!["u1", "u2"]);
    b.toggle_selection();
    assert_eq!(b.selected_uuids, vec!["u2"]);
}

#[test]
fn opening_a_folder_then_going_up_lists_the_same() {
    let mut b = BrowseState::new(handle_with(&[
        ("u1", "b.txt", "", 30),
        ("u2", "a.jpg", "docs", 10),
        ("u3", "c.mp3", "", 20),
        ("u4", "deep.txt", "docs/old", 1),
        ("u5", "x.txt", "pics", 2),
    ]));
    b.move_list_down();
    b.move_list_down();
    b.move_list_down();
    b.toggle_selection();
    let folders = b.folders.clone();
    let files = b.file_uuids.clone();
    let tree = b.all_folders.clone();
    b.list_cursor = 0;
    let name = b.cursor_folder().unwrap().clone();
    assert_eq!(name, "docs");
    b.navigate_into(name.as_str());
    assert_eq!(b.current_path, "docs");
    assert!(b.navigate_up());
    assert_eq!(b.current_path, "");
    assert_eq!(b.folders, folders);
    assert_eq!(b.file_uuids, files);
    assert_eq!(b.all_folders, tree);
    assert!(b.selected_uuids.is_empty());
    assert_eq!(b.list_cursor, 0);
}

#[test]
fn toggling_twice_gives_the_selection_back() {
    let mut b = BrowseState::new(sample());
    b.move_list_down();
    b.move_list_down();
    b.toggle_selection();
    let before = b.selected_uuids.clone();
    b.move_list_up();
    b.toggle_selection();
    b.toggle_selection();
    assert_eq!(b.selected_uuids, before);
    b.toggle_selection();
    assert_eq!(b.selected_uuids, vec!["u1", "u2"]);
    b.toggle_selection();
    assert_eq!(b.selected_uuids, before);
}

#[test]
fn status_messages_expire() {
    let mut b = BrowseState::new(sample());
    b.set_status("hi".to_string(), 1000);
    assert!(b.has_pending_status());
    b.tick_status(3999, 3);
    assert_eq!(b.status_msg.as_deref(), Some("hi"));
    b.tick_status(4000, 3);
    assert!(b.status_msg.is_none());
    assert!(!b.has_pending_status());
}

#[test]
fn folder_names_and_depths() {
    assert_eq!(folder_display_name(""), "/");
    assert_eq!(folder_display_name("photos/summer"), "summer");
    assert_eq!(folder_display_name("photos"), "photos");
    assert_eq!(folder_depth(""), 0);
    assert_eq!(folder_depth("photos"), 1);
    assert_eq!(folder_depth("photos/summer"), 2);
}

fn open_state() -> VaultState {
    let mut s = VaultState::new();
    s.menu_select();
    assert!(matches!(s.phase, Phase::Locked { .. }));
    assert!(s.on_worker_msg(WorkerMsg::Opened(sample())));
    assert!(matches!(s.phase, Phase::Browse));
    s
}

#[test]
fn unlock_form_checks_fields() {
    let mut s = VaultState::new();
    s.menu_down();
    s.menu_down();
    s.menu_up();
    s.menu_select();
    assert!(matches!(s.phase, Phase::Locked { .. }));
    assert!(s.start_unlock().is_none());
    match &s.phase {
        Phase::Locked { error: Some(e), .. } => assert_eq!(e, "Vault path cannot be empty."),
        _ => panic!("expected the open form"),
    }
    s.set_path("/v");
    assert!(s.start_unlock().is_none());
    match &s.phase {
        Phase::Locked { error: Some(e), focus, .. } => {
            assert_eq!(e, "Password cannot be empty.");
            assert_eq!(*focus, 1);
        },
        _ => panic!("expected the open form"),
    }
    if let Phase::Locked { password, .. } = &mut s.phase {
        *password = "pw".to_string();
    }
    let job = s.start_unlock().unwrap();
    assert_eq!(job.vault_path, "/v");
    assert!(s.is_opening());
    assert!(s.on_worker_msg(WorkerMsg::Failed("bad".to_string())) );
    match &s.phase {
        Phase::Locked { error: Some(e), vault_path, .. } => {
            assert_eq!(e, "bad");
            assert!(vault_path.is_empty());
        },
        _ => panic!("expected the open form"),
    }
}

#[test]
fn create_form_flow() {
    let mut s = VaultState::new();
    s.menu_down();
    s.menu_select();
    assert!(matches!(s.phase, Phase::Creating { .. }));
    s.set_create_path("/new");
    if let Phase::Creating { password, .. } = &mut s.phase {
        *password = "pw".to_string();
    }
    assert!(s.start_create(true, true).is_none());
    match &s.phase {
        Phase::Creating { error: Some(e), .. } => assert_eq!(e, "Path points to a file, not a directory."),
        _ => panic!("expected the create form"),
    }
    assert!(s.start_create(false, false).is_none());
    assert!(matches!(s.phase, Phase::ConfirmCreateDir { .. }));
    s.cancel_create_dir();
    assert!(matches!(s.phase, Phase::Creating { focus: 0, .. }));
    assert!(s.start_create(false, false).is_none());
    let job = s.confirm_create_dir().unwrap();
    assert_eq!(job.vault_path, "/new");
    assert!(job.blobs_dir.is_none());
    assert!(matches!(s.phase, Phase::Opening(0)));
}

#[test]
fn rename_in_browser() {
    let mut s = open_state();
    if let Some(b) = &mut s.browse {
        b.list_cursor = 1;
    }
    s.enter_rename();
    match &mut s.phase {
        Phase::Rename { uuid, input } => {
            assert_eq!(uuid, "u2");
            assert_eq!(input, "a.jpg");
            *input = "b.txt".to_string();
        },
        _ => panic!("expected the rename form"),
    }
    s.confirm_rename(5);
    let b = s.browse.as_ref().unwrap();
    assert_eq!(b.status_msg.as_deref(), Some("'b.txt' already exists in this folder"));
    s.enter_rename();
    if let Phase::Rename { input, .. } = &mut s.phase {
        *input = "z.jpg".to_string();
    }
    s.confirm_rename(6);
    let b = s.browse.as_ref().unwrap();
    assert!(b.dirty);
    assert_eq!(b.handle.index.get("u2").unwrap().name, "z.jpg");
    assert_eq!(b.file_uuids, vec!["u1", "u3", "u2"]);
}

#[test]
fn cut_paste_and_save_messages() {
    let mut s = open_state();
    assert_eq!(s.paste(1), None);
    assert_eq!(s.browse.as_ref().unwrap().status_msg.as_deref(), Some("Nothing in clipboard"));
    if let Some(b) = &mut s.browse {
        b.list_cursor = 1;
    }
    s.cut_selection(2);
    assert_eq!(s.browse.as_ref().unwrap().status_msg.as_deref(), Some("1 item(s) cut — press p to paste"));
    if let Some(b) = &mut s.browse {
        b.navigate_into("docs");
    }
    assert_eq!(s.paste(3), Some(1));
    s.finish_save(SaveReason::Moved(1), Ok(()), 4);
    let b = s.browse.as_ref().unwrap();
    assert_eq!(b.status_msg.as_deref(), Some("Moved 1 item(s) — saved"));
    assert_eq!(b.file_uuids, vec!["u2"]);
    assert_eq!(b.handle.index.get("u2").unwrap().path, "docs");
    s.finish_save(SaveReason::Explicit, Err(VaultError::Io("disk full".to_string())), 5);
    assert_eq!(s.browse.as_ref().unwrap().status_msg.as_deref(), Some("Save failed: I/O error: disk full"));
}

#[test]
fn delete_flow() {
    let mut s = open_state();
    if let Some(b) = &mut s.browse {
        b.list_cursor = 2;
    }
    s.enter_delete();
    assert!(matches!(&s.phase, Phase::ConfirmDelete { uuids } if uuids == &vec!["u1".to_string()]));
    let work = s.confirm_delete().unwrap();
    assert_eq!(work.count, 1);
    assert!(work.blob_paths.is_empty());
    s.finish_save(SaveReason::Deleted(1), Ok(()), 9);
    let b = s.browse.as_ref().unwrap();
    assert!(matches!(s.phase, Phase::Browse));
    assert_eq!(b.status_msg.as_deref(), Some("Deleted 1 item(s) — saved"));
    assert_eq!(b.file_uuids, vec!["u2", "u3"]);
}

#[test]
fn move_flow_and_new_folder() {
    let mut s = open_state();
    s.enter_new_folder();
    if let Phase::NewFolder { input, .. } = &mut s.phase {
        *input = "  inbox ".to_string();
    }
    s.confirm_new_folder(1);
    assert!(matches!(s.phase, Phase::Browse));
    let b = s.browse.as_ref().unwrap();
    assert_eq!(b.all_folders, vec!["", "docs", "docs/old", "inbox"]);
    assert_eq!(b.status_msg.as_deref(), Some("Folder 'inbox' created — move files here with m or x/p"));
    s.enter_new_folder();
    if let Phase::NewFolder { input, .. } = &mut s.phase {
        *input = "inbox".to_string();
    }
    s.confirm_new_folder(2);
    assert!(matches!(&s.phase, Phase::NewFolder { error: Some(e), .. } if e == "A folder named 'inbox' already exists here."));
    if let Phase::NewFolder { input, .. } = &mut s.phase {
        *input = "a/b".to_string();
    }
    s.confirm_new_folder(3);
    assert!(matches!(&s.phase, Phase::NewFolder { error: Some(e), .. } if e == "Folder name cannot contain '/'."));
    s.phase = Phase::Browse;
    if let Some(b) = &mut s.browse {
        b.list_cursor = 2;
    }
    s.enter_move();
    if let Phase::Move { tree_cursor, .. } = &mut s.phase {
        assert_eq!(*tree_cursor, 0);
        *tree_cursor = 3;
    }
    assert_eq!(s.confirm_move(), Some(1));
    s.finish_save(SaveReason::Moved(1), Err(VaultError::WrongPassword), 4);
    let b = s.browse.as_ref().unwrap();
    assert!(b.dirty);
    assert_eq!(b.handle.index.get("u2").unwrap().path, "inbox");
    assert_eq!(b.status_msg.as_deref(), Some("Moved 1 item(s) — save failed: wrong password or corrupted index"));
}

#[test]
fn add_and_export_messages() {
    let mut s = open_state();
    let job = s.start_add(2).unwrap();
    assert_eq!(job.virtual_path, "");
    assert!(s.is_adding());
    assert!(matches!(s.on_add_msg(AddWorkerMsg::Progress { done: 1, total: 2, filename: "x".to_string() }, 1), AddStep::Continue));
    let step = s.on_add_msg(AddWorkerMsg::Done(vec![("n1".to_string(), entry("new.txt", "", 3))]), 2);
    assert!(matches!(step, AddStep::Save(1)));
    s.finish_save(SaveReason::Added(1), Ok(()), 3);
    assert_eq!(s.browse.as_ref().unwrap().status_msg.as_deref(), Some("Added 1 file(s) — saved"));
    s.pending_export_uuids = vec!["u1".to_string(), "missing".to_string()];
    let job = s.start_export().unwrap();
    assert_eq!(job.entries.len(), 1);
    assert!(s.is_exporting());
    assert!(s.on_export_msg(ExportWorkerMsg::Done(1), 4));
    assert_eq!(s.browse.as_ref().unwrap().status_msg.as_deref(), Some("Exported 1 file(s)"));
}

#[test]
fn gallery_collects_images_in_list_order() {
    let mut s = VaultState::new();
    s.on_worker_msg(WorkerMsg::Opened(handle_with(&[
        ("u1", "b.png", "pics", 1),
        ("u2", "a.JPG", "pics/sub", 1),
        ("u3", "c.txt", "pics", 1),
    ])));
    let job = s.start_folder_gallery("pics", 1).unwrap();
    let names: Vec<&str> = job.items.iter().map(|(n, _)| n.as_str()).collect();
    assert_eq!(names, vec!["a.JPG", "b.png"]);
    assert!(s.is_loading_gallery());
    s.phase = Phase::Browse;
    assert!(s.start_folder_gallery("elsewhere", 2).is_none());
    assert_eq!(s.browse.as_ref().unwrap().status_msg.as_deref(), Some("No images found in folder"));
    s.lock();
    assert!(s.browse.is_none());
}

#[test]
fn enc_dec_page() {
    let mut p = EncDecState::new();
    assert!(p.start().is_none());
    assert!(matches!(&p.status, OpStatus::Failure(m) if m == "File path cannot be empty."));
    p.path = " secret.txt.lock ".to_string();
    assert!(p.is_decrypt());
    assert!(p.start().is_none());
    assert!(matches!(&p.status, OpStatus::Failure(m) if m == "Password cannot be empty."));
    p.password = "pw".to_string();
    let job = p.start().unwrap();
    assert!(job.decrypt);
    assert_eq!(job.path, "secret.txt.lock");
    assert_eq!(job.out, "secret.txt");
    p.path = "plain.txt".to_string();
    let job = p.start().unwrap();
    assert!(!job.decrypt);
    assert_eq!(job.out, "plain.txt.lock");
    p.advance_focus();
    assert_eq!(p.focus, 1);
    p.advance_focus();
    assert_eq!(p.focus, 0);
    assert_eq!(percent(50, 200), 25);
    assert_eq!(percent(300, 200), 100);
    assert_eq!(percent(5, 0), 100);
    assert_eq!(MenuItem::Vault.label(), "Vault");
}

#[test]
fn preview_page() {
    let mut p = PreviewState::new();
    p.path = "photo.PNG".to_string();
    p.password = "pw".to_string();
    assert!(p.start().is_none());
    assert!(matches!(&p.phase, PreviewPhase::Done(PreviewResult::IoError(m)) if m == "File must have a .lock extension."));
    p.path = "dir/photo.PNG.lock".to_string();
    let job = p.start().unwrap();
    assert_eq!(job.ext, "png");
    assert!(matches!(p.phase, PreviewPhase::Decrypting(0)));
}

#[test]
fn vault_add_from_stdin_needs_a_name_and_no_other_files() {
    assert_eq!(vault_add_source(&vec!["a.txt".to_string()], &None), Ok(None));
    assert_eq!(
        vault_add_source(&vec!["-".to_string()], &Some("n.txt".to_string())),
        Ok(Some("n.txt".to_string()))
    );
    let e = vault_add_source(&vec!["-".to_string()], &None).unwrap_err();
    assert!(e.contains("--name"));
    let e = vault_add_source(&vec!["-".to_string(), "f".to_string()], &Some("n".to_string())).unwrap_err();
    assert!(e.contains("cannot combine"));
}
