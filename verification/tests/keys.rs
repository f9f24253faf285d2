use std::io::Write;
use pnd::browse::PanelFocus;
use pnd::cli::FileBrowserTarget;
use pnd::file_browser::{BrowserEntry, FileBrowserEvent, FileBrowser};
use pnd::handle::{create_vault, list_entries, VaultHandle};
use pnd::index::VaultEntry;
use pnd::keys::{decide_form_step, menu_cursor_down, menu_cursor_up, FormStep, Key, Picker};
use pnd::pages::{handle_enc_dec, handle_preview, EncDecState, OpStatus, PreviewPhase, PreviewResult, PreviewState};
use pnd::text::pop_char;
use pnd::vault_keys::{VaultCommand, VaultEffect};
use pnd::vault_state::{Phase, SaveReason, VaultState, WorkerMsg};
use pnd::viewer::{
    clamp_scroll, extract_images, gallery_hint, gallery_key, preview_kind, text_key, text_title, GalleryOutcome,
    PreviewKind,
};

fn entry(name: &str, path: &str, size: u64) -> VaultEntry {
    VaultEntry {
        name: name.to_string(),
        path: path.to_string(),
        size,
        parts: vec![],
        thumbnail_uuid: None,
        thumbnail_key_base64: None,
    }
}

fn sample() -> VaultHandle {
    let mut h = create_vault("/vault", None, "pw", true, false).unwrap();
    for (u, n, p, s) in [
        ("u1", "b.txt", "", 30u64),
        ("u2", "a.jpg", "", 10),
        ("u3", "c.mp3", "", 20),
        ("u4", "deep.txt", "docs/old", 1),
    ] {
        h.index.insert(u.to_string(), entry(n, p, s));
    }
    h
}

fn open_state() -> VaultState {
    let mut s = VaultState::new();
    s.menu_select();
    assert!(s.on_worker_msg(WorkerMsg::Opened(sample())));
    s
}

fn type_text(s: &mut VaultState, text: &str) {
    for c in text.chars() {
        let (cmd, _) = s.handle_key(Key::Char(c), false, false, 0);
        assert_eq!(cmd, VaultCommand::Type(c));
    }
}

#[test]
fn pop_char_removes_last_character() {
    let mut s = "añb".to_string();
    pop_char(&mut s);
    assert_eq!(s, "añ");
    let mut e = String::new();
    pop_char(&mut e);
    assert_eq!(e, "");
}

#[test]
fn main_menu_cursor_wraps() {
    assert_eq!(menu_cursor_up(0, 3), 2);
    assert_eq!(menu_cursor_up(2, 3), 1);
    assert_eq!(menu_cursor_down(2, 3), 0);
    assert_eq!(menu_cursor_down(0, 3), 1);
}

#[test]
fn form_steps_follow_focus_and_edit_mode() {
    assert_eq!(decide_form_step(true, 0, false, Key::Esc, true), FormStep::Nothing);
    assert_eq!(decide_form_step(false, 0, false, Key::Esc, true), FormStep::ToMenu);
    assert_eq!(decide_form_step(false, 0, false, Key::Char('t'), true), FormStep::EditMode(true));
    assert_eq!(decide_form_step(false, 0, false, Key::Char('b'), true), FormStep::Pick(Picker::Builtin));
    assert_eq!(decide_form_step(false, 0, false, Key::Char('y'), true), FormStep::Pick(Picker::Yazi));
    assert_eq!(decide_form_step(false, 0, false, Key::Char('y'), false), FormStep::Nothing);
    assert_eq!(decide_form_step(false, 0, false, Key::Enter, false), FormStep::Pick(Picker::Builtin));
    assert_eq!(decide_form_step(false, 0, false, Key::Enter, true), FormStep::Pick(Picker::Yazi));
    assert_eq!(decide_form_step(false, 0, true, Key::Char('t'), true), FormStep::TypePath('t'));
    assert_eq!(decide_form_step(false, 0, true, Key::Tab, true), FormStep::LeaveEditAndAdvance);
    assert_eq!(decide_form_step(false, 1, false, Key::Enter, true), FormStep::Start);
    assert_eq!(decide_form_step(false, 1, false, Key::Char('x'), true), FormStep::TypePassword('x'));
}

#[test]
fn enc_dec_page_keys_edit_the_form() {
    let mut p = EncDecState::new();
    p.status = OpStatus::Failure("old".to_string());
    assert_eq!(handle_enc_dec(&mut p, Key::Char('t'), false), FormStep::EditMode(true));
    assert!(p.path_edit_mode);
    for c in "a.lock".chars() {
        handle_enc_dec(&mut p, Key::Char(c), false);
    }
    assert_eq!(p.path, "a.lock");
    assert!(matches!(p.status, OpStatus::Idle));
    handle_enc_dec(&mut p, Key::Backspace, false);
    assert_eq!(p.path, "a.loc");
    assert_eq!(handle_enc_dec(&mut p, Key::Tab, false), FormStep::LeaveEditAndAdvance);
    assert!(!p.path_edit_mode);
    assert_eq!(p.focus, 1);
    handle_enc_dec(&mut p, Key::Char('p'), false);
    handle_enc_dec(&mut p, Key::Char('w'), false);
    assert_eq!(p.password, "pw");
    assert_eq!(handle_enc_dec(&mut p, Key::Enter, false), FormStep::Start);
    assert_eq!(handle_enc_dec(&mut p, Key::Esc, false), FormStep::ToMenu);
    p.status = OpStatus::Running(5);
    assert_eq!(handle_enc_dec(&mut p, Key::Char('z'), false), FormStep::Nothing);
    assert_eq!(p.password, "pw");
}

#[test]
fn preview_page_keys_and_render_result() {
    let mut p = PreviewState::new();
    handle_preview(&mut p, Key::Char('t'), true);
    handle_preview(&mut p, Key::Char('x'), true);
    assert_eq!(p.path, "x");
    assert!(matches!(p.phase, PreviewPhase::Idle));
    p.phase = PreviewPhase::Decrypting(3);
    assert_eq!(handle_preview(&mut p, Key::Esc, true), FormStep::Nothing);
    p.phase = PreviewPhase::PendingRender { bytes: vec![1, 2], ext: "png".to_string() };
    let (bytes, ext) = p.take_render().unwrap();
    assert_eq!(bytes, vec![1, 2]);
    assert_eq!(ext, "png");
    assert!(matches!(p.phase, PreviewPhase::Idle));
    assert!(p.take_render().is_none());
    p.rendered(PreviewResult::NotSupported);
    assert!(matches!(p.phase, PreviewPhase::Done(PreviewResult::NotSupported)));
    assert_eq!(p.path, "");
    assert_eq!(p.focus, 0);
}

#[test]
fn vault_menu_and_forms_by_key() {
    let mut s = VaultState::new();
    assert_eq!(s.handle_key(Key::Char('j'), false, false, 0).0, VaultCommand::MenuDown);
    assert!(matches!(s.phase, Phase::VaultMenu { cursor: 1 }));
    assert_eq!(s.handle_key(Key::Enter, false, false, 0).0, VaultCommand::MenuSelect);
    assert!(matches!(s.phase, Phase::Creating { .. }));
    // Shown path: `t` starts editing, typing fills the path.
    assert_eq!(s.handle_key(Key::Char('t'), false, false, 0).0, VaultCommand::EditMode(true));
    type_text(&mut s, "/v");
    assert_eq!(s.handle_key(Key::Enter, false, false, 0).0, VaultCommand::EditMode(false));
    let (cmd, eff) = s.handle_key(Key::Enter, false, false, 0);
    assert_eq!(cmd, VaultCommand::Pick(Picker::Builtin, FileBrowserTarget::VaultCreateDir));
    match eff {
        VaultEffect::Pick { hint, target, .. } => {
            assert_eq!(hint, "/v");
            assert_eq!(target, FileBrowserTarget::VaultCreateDir);
        },
        _ => panic!("expected a picker"),
    }
    assert_eq!(s.handle_key(Key::Tab, false, false, 0).0, VaultCommand::AdvanceCreateFocus);
    type_text(&mut s, "bl");
    assert_eq!(s.handle_key(Key::Enter, false, false, 0).0, VaultCommand::AdvanceCreateFocus);
    type_text(&mut s, "pw");
    match &s.phase {
        Phase::Creating { vault_path, blobs_dir, password, focus, .. } => {
            assert_eq!(vault_path, "/v");
            assert_eq!(blobs_dir, "bl");
            assert_eq!(password, "pw");
            assert_eq!(*focus, 2);
        },
        _ => panic!("expected the create form"),
    }
    let (cmd, eff) = s.handle_key(Key::Enter, false, false, 0);
    assert_eq!(cmd, VaultCommand::StartCreate);
    match eff {
        VaultEffect::CheckCreatePath(p) => assert_eq!(p, "/v"),
        _ => panic!("expected the folder check"),
    }
    assert_eq!(s.handle_key(Key::Esc, false, false, 0).0, VaultCommand::ToVaultMenu(1));
    assert!(matches!(s.phase, Phase::VaultMenu { cursor: 1 }));
    assert_eq!(s.handle_key(Key::Char('q'), false, false, 0).0, VaultCommand::ToMainMenu);
}

#[test]
fn vault_unlock_form_by_key() {
    let mut s = VaultState::new();
    s.handle_key(Key::Enter, false, false, 0);
    assert!(matches!(s.phase, Phase::Locked { .. }));
    assert_eq!(s.handle_key(Key::Char('y'), true, false, 0).0, VaultCommand::Pick(Picker::Yazi, FileBrowserTarget::VaultDir));
    assert_eq!(s.handle_key(Key::Char('y'), false, false, 0).0, VaultCommand::Nothing);
    s.handle_key(Key::Char('t'), false, false, 0);
    type_text(&mut s, "/x");
    assert_eq!(s.handle_key(Key::Tab, false, false, 0).0, VaultCommand::LeaveEditAndAdvance);
    type_text(&mut s, "pw");
    let (cmd, eff) = s.handle_key(Key::Enter, false, false, 0);
    assert_eq!(cmd, VaultCommand::StartUnlock);
    match eff {
        VaultEffect::Unlock(job) => {
            assert_eq!(job.vault_path, "/x");
            assert_eq!(job.password, "pw");
        },
        _ => panic!("expected the unlock work"),
    }
    assert!(s.is_opening());
    assert_eq!(s.handle_key(Key::Esc, false, false, 0).0, VaultCommand::Nothing);
}

#[test]
fn vault_browser_by_key() {
    let mut s = open_state();
    // List: folder "docs", then a.jpg, b.txt, c.mp3.
    assert_eq!(s.handle_key(Key::Char('j'), false, false, 0).0, VaultCommand::ListDown);
    let (cmd, eff) = s.handle_key(Key::Enter, false, false, 0);
    assert_eq!(cmd, VaultCommand::PreviewFile);
    assert!(matches!(eff, VaultEffect::Preview(_)));
    assert!(s.is_previewing());
    s.phase = Phase::Browse;
    assert_eq!(s.handle_key(Key::Char('a'), false, false, 0).0, VaultCommand::SelectAll);
    assert_eq!(s.browse.as_ref().unwrap().selected_uuids.len(), 3);
    assert_eq!(s.handle_key(Key::Char('e'), false, false, 0).0, VaultCommand::Export);
    assert_eq!(s.pending_export_uuids.len(), 3);
    assert_eq!(s.handle_key(Key::Char('A'), false, false, 0).0, VaultCommand::ClearSelection);
    assert!(s.browse.as_ref().unwrap().selected_uuids.is_empty());
    let (cmd, eff) = s.handle_key(Key::Char('s'), false, false, 0);
    assert_eq!(cmd, VaultCommand::Save);
    assert!(matches!(eff, VaultEffect::Save(SaveReason::Explicit)));
    assert_eq!(s.handle_key(Key::Tab, false, false, 0).0, VaultCommand::FocusPanel(PanelFocus::Tree));
    assert_eq!(s.browse.as_ref().unwrap().panel_focus, PanelFocus::Tree);
    assert_eq!(s.handle_key(Key::Char('j'), false, false, 0).0, VaultCommand::TreeDown);
    assert_eq!(s.handle_key(Key::Enter, false, false, 0).0, VaultCommand::OpenTreeFolder);
    let b = s.browse.as_ref().unwrap();
    assert_eq!(b.current_path, "docs");
    assert_eq!(b.panel_focus, PanelFocus::List);
    assert_eq!(s.handle_key(Key::Esc, false, false, 0).0, VaultCommand::NavigateUp);
    assert_eq!(s.browse.as_ref().unwrap().current_path, "");
    assert_eq!(s.handle_key(Key::Esc, false, true, 0).0, VaultCommand::Quit);
    assert_eq!(s.handle_key(Key::Esc, false, false, 0).0, VaultCommand::Lock);
    assert!(s.browse.is_none());
}

#[test]
fn vault_overlays_by_key() {
    let mut s = open_state();
    s.handle_key(Key::Char('j'), false, false, 0);
    assert_eq!(s.handle_key(Key::Char('r'), false, false, 0).0, VaultCommand::Rename);
    assert!(matches!(s.phase, Phase::Rename { .. }));
    s.handle_key(Key::Backspace, false, false, 0);
    match &s.phase {
        Phase::Rename { input, .. } => assert_eq!(input, "a.jp"),
        _ => panic!("expected the rename form"),
    }
    assert_eq!(s.handle_key(Key::Esc, false, false, 0).0, VaultCommand::ToBrowse);
    assert!(matches!(s.phase, Phase::Browse));
    assert_eq!(s.handle_key(Key::Char('m'), false, false, 0).0, VaultCommand::Move);
    assert!(matches!(s.phase, Phase::Move { tree_cursor: 0, .. }));
    s.handle_key(Key::Down, false, false, 0);
    s.handle_key(Key::Down, false, false, 0);
    s.handle_key(Key::Down, false, false, 0);
    assert!(matches!(s.phase, Phase::Move { tree_cursor: 2, .. }));
    s.handle_key(Key::Char('k'), false, false, 0);
    assert!(matches!(s.phase, Phase::Move { tree_cursor: 1, .. }));
    let (cmd, eff) = s.handle_key(Key::Enter, false, false, 0);
    assert_eq!(cmd, VaultCommand::ConfirmMove);
    assert!(matches!(eff, VaultEffect::Save(SaveReason::Moved(1))));
    s.phase = Phase::Browse;
    assert_eq!(s.handle_key(Key::Char('n'), false, false, 0).0, VaultCommand::NewFolder);
    type_text(&mut s, "new");
    match &s.phase {
        Phase::NewFolder { input, error, .. } => {
            assert_eq!(input, "new");
            assert!(error.is_none());
        },
        _ => panic!("expected the new-folder form"),
    }
    assert_eq!(s.handle_key(Key::Char('q'), false, false, 0).0, VaultCommand::Type('q'));
}

#[test]
fn vault_delete_confirmation_by_key() {
    let mut s = open_state();
    s.handle_key(Key::Char('j'), false, false, 0);
    assert_eq!(s.handle_key(Key::Char('d'), false, false, 0).0, VaultCommand::Delete);
    assert!(matches!(s.phase, Phase::ConfirmDelete { .. }));
    assert_eq!(s.handle_key(Key::Char('x'), false, false, 0).0, VaultCommand::Nothing);
    let (cmd, eff) = s.handle_key(Key::Char('y'), false, false, 0);
    assert_eq!(cmd, VaultCommand::ConfirmDelete);
    match eff {
        VaultEffect::Delete(work) => assert_eq!(work.count, 1),
        _ => panic!("expected the delete work"),
    }
}

#[test]
fn vault_preview_and_gallery_results_set_status() {
    let mut s = open_state();
    s.phase = Phase::PreviewReady { bytes: vec![7], ext: "xyz".to_string() };
    let (b, e) = s.take_preview().unwrap();
    assert_eq!(b, vec![7]);
    assert_eq!(e, "xyz");
    assert!(matches!(s.phase, Phase::Browse));
    s.preview_shown(&PreviewResult::NotSupported, 5);
    assert_eq!(
        s.browse.as_ref().unwrap().status_msg.as_deref(),
        Some("Unsupported file type — no previewer available")
    );
    s.phase = Phase::GalleryReady { images: vec![("a.png".to_string(), vec![1])] };
    let images = s.take_gallery().unwrap();
    assert_eq!(images.len(), 1);
    s.gallery_shown(&Ok(GalleryOutcome::Shown(1)), 6);
    assert_eq!(s.browse.as_ref().unwrap().status_msg.as_deref(), Some("Gallery: 1 image(s) shown"));
    s.gallery_shown(&Err("boom".to_string()), 7);
    assert_eq!(s.browse.as_ref().unwrap().status_msg.as_deref(), Some("Gallery error: boom"));
}

fn be(name: &str, dir: bool) -> BrowserEntry {
    BrowserEntry { name: name.to_string(), path: format!("/d/{name}"), is_dir: dir }
}

#[test]
fn file_browser_rows_are_parent_folders_then_files() {
    let listing = vec![be("b.txt", false), be("Zeta", true), be("A.txt", false), be("alpha", true)];
    let fb = FileBrowser::open(FileBrowserTarget::EncDecPath, "/d".to_string(), Some("/".to_string()), Ok(listing));
    let names: Vec<&str> = fb.entries.iter().map(|e| e.name.as_str()).collect();
    assert_eq!(names, vec!["..", "alpha", "Zeta", "A.txt", "b.txt"]);
    assert_eq!(fb.selected, Some(0));
    assert!(fb.load_error.is_none());
    let failed = FileBrowser::open_for_dir(FileBrowserTarget::VaultDir, "/x".to_string(), None, Err("denied".to_string()));
    assert!(failed.entries.is_empty());
    assert_eq!(failed.selected, None);
    assert_eq!(failed.load_error.as_deref(), Some("Cannot read directory: denied"));
}

#[test]
fn file_browser_keys() {
    let listing = vec![be("sub", true), be("f1", false), be("f2", false)];
    let mut fb = FileBrowser::open(FileBrowserTarget::EncDecPath, "/d".to_string(), Some("/".to_string()), Ok(listing));
    assert!(matches!(fb.handle_key(Key::Char('G')), FileBrowserEvent::Pending));
    assert_eq!(fb.selected, Some(3));
    fb.handle_key(Key::PageUp);
    assert_eq!(fb.selected, Some(0));
    fb.handle_key(Key::PageDown);
    assert_eq!(fb.selected, Some(3));
    match fb.handle_key(Key::Enter) {
        FileBrowserEvent::Selected(p) => assert_eq!(p, "/d/f2"),
        _ => panic!("expected a chosen file"),
    }
    fb.handle_key(Key::Char('g'));
    match fb.handle_key(Key::Char('l')) {
        FileBrowserEvent::Open(p) => assert_eq!(p, "/"),
        _ => panic!("expected the parent to open"),
    }
    fb.handle_key(Key::Down);
    match fb.handle_key(Key::Right) {
        FileBrowserEvent::Open(p) => assert_eq!(p, "/d/sub"),
        _ => panic!("expected the folder to open"),
    }
    fb.select_dirs = true;
    match fb.handle_key(Key::Enter) {
        FileBrowserEvent::Selected(p) => assert_eq!(p, "/d/sub"),
        _ => panic!("expected the folder to be chosen"),
    }
    assert!(matches!(fb.handle_key(Key::Char('h')), FileBrowserEvent::Up));
    assert!(matches!(fb.handle_key(Key::Esc), FileBrowserEvent::Cancelled));
    assert!(matches!(fb.handle_key(Key::Char('z')), FileBrowserEvent::Pending));
}

#[test]
fn viewer_kinds_and_keys() {
    assert_eq!(preview_kind("png"), PreviewKind::Image);
    assert_eq!(preview_kind("mp4"), PreviewKind::Media);
    assert_eq!(preview_kind("zip"), PreviewKind::Archive);
    assert_eq!(preview_kind("rs"), PreviewKind::Text);
    assert_eq!(preview_kind("exe"), PreviewKind::Unsupported);
    assert_eq!(gallery_key(0, 3, Key::Char('h')), Some(0));
    assert_eq!(gallery_key(0, 3, Key::Right), Some(1));
    assert_eq!(gallery_key(2, 3, Key::Char('l')), Some(2));
    assert_eq!(gallery_key(1, 3, Key::Char('q')), None);
    assert_eq!(gallery_hint(0, 1, "a.png"), "\r\n\r\n  (1/1)  a.png    [Esc/q] exit\r\n");
    assert_eq!(
        gallery_hint(1, 12, "b.png"),
        "\r\n\r\n  (2/12)  b.png    [←/h] prev   [→/l] next   [Esc/q] exit\r\n"
    );
    assert_eq!(clamp_scroll(50, 60, 20), 40);
    assert_eq!(clamp_scroll(5, 60, 20), 5);
    assert_eq!(clamp_scroll(5, 10, 20), 0);
    assert_eq!(text_key(0, 60, 20, Key::Up), Some(0));
    assert_eq!(text_key(5, 60, 20, Key::PageDown), Some(25));
    assert_eq!(text_key(5, 60, 20, Key::End), Some(60));
    assert_eq!(text_key(5, 60, 20, Key::Char('g')), Some(0));
    assert_eq!(text_key(5, 60, 20, Key::Esc), None);
    assert_eq!(text_title("md", 0, 42), " .md  1/42 ");
}

#[test]
fn zip_images_are_extracted_by_name() {
    let mut buf = std::io::Cursor::new(Vec::new());
    {
        let mut w = zip::ZipWriter::new(&mut buf);
        let opts = zip::write::SimpleFileOptions::default();
        w.start_file("b.PNG", opts).unwrap();
        w.write_all(b"bb").unwrap();
        w.start_file("notes.txt", opts).unwrap();
        w.write_all(b"tt").unwrap();
        w.start_file("a.jpg", opts).unwrap();
        w.write_all(b"aa").unwrap();
        w.finish().unwrap();
    }
    let bytes = buf.into_inner();
    let images = extract_images(&bytes).unwrap();
    assert_eq!(images, vec![("a.jpg".to_string(), b"aa".to_vec()), ("b.PNG".to_string(), b"bb".to_vec())]);
    assert!(extract_images(b"not a zip").is_err());
}

#[test]
fn list_filter_keeps_folder_and_below() {
    let h = sample();
    let all = list_entries(&h, None);
    assert_eq!(all.len(), 4);
    let docs = list_entries(&h, Some("docs"));
    assert_eq!(docs.len(), 1);
    assert_eq!(docs[0].name, "deep.txt");
    assert_eq!(list_entries(&h, Some("doc")).len(), 0);
    assert_eq!(list_entries(&h, Some("")).len(), 3);
}
