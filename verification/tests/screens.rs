use pnd::keys::{main_menu_step, Key, MainMenuStep};
use pnd::pages::{enc_dec_outcome, EncDecState, OpStatus, PreviewPhase, PreviewResult, PreviewState};
use pnd::viewer::{is_kitty_terminal, kitty_sequence, preview_exit};

#[test]
fn main_menu_moves_round_and_opens() {
    assert_eq!(main_menu_step(0, 3, Key::Up), MainMenuStep::Highlight(2));
    assert_eq!(main_menu_step(2, 3, Key::Down), MainMenuStep::Highlight(0));
    assert_eq!(main_menu_step(1, 3, Key::Char('k')), MainMenuStep::Highlight(0));
    assert_eq!(main_menu_step(1, 3, Key::Char('j')), MainMenuStep::Highlight(2));
    assert_eq!(main_menu_step(1, 3, Key::Enter), MainMenuStep::Open(1));
    assert_eq!(main_menu_step(2, 3, Key::Char('l')), MainMenuStep::Open(2));
    assert_eq!(main_menu_step(0, 3, Key::Char('q')), MainMenuStep::Quit);
    assert_eq!(main_menu_step(0, 3, Key::Esc), MainMenuStep::Quit);
    assert_eq!(main_menu_step(0, 3, Key::Char('x')), MainMenuStep::Nothing);
    assert_eq!(main_menu_step(0, 3, Key::Tab), MainMenuStep::Nothing);
}

#[test]
fn preview_exit_codes_and_messages() {
    let (m, c) = preview_exit(&PreviewResult::WrongPassword, "png");
    assert_eq!(m.as_deref(), Some("error: wrong password or corrupted file"));
    assert_eq!(c, 1);
    let (m, c) = preview_exit(&PreviewResult::IoError("gone".to_string()), "png");
    assert_eq!(m.as_deref(), Some("error: gone"));
    assert_eq!(c, 2);
    let (m, c) = preview_exit(&PreviewResult::RenderFailed("bad".to_string()), "png");
    assert_eq!(m.as_deref(), Some("error: preview failed: bad"));
    assert_eq!(c, 2);
    let (m, c) = preview_exit(&PreviewResult::MpvNotInstalled, "mp4");
    assert_eq!(m.as_deref(), Some("error: mpv is not installed; install it to preview media files"));
    assert_eq!(c, 2);
    let (m, c) = preview_exit(&PreviewResult::NotSupported, "xyz");
    assert_eq!(m.as_deref(), Some("No previewer for .xyz files"));
    assert_eq!(c, 0);
    let (m, c) = preview_exit(&PreviewResult::NotSupported, "");
    assert_eq!(m.as_deref(), Some("No previewer for files with no extension"));
    assert_eq!(c, 0);
    let (m, c) = preview_exit(&PreviewResult::KittyShown, "png");
    assert!(m.is_none());
    assert_eq!(c, 0);
    let (m, c) = preview_exit(&PreviewResult::TextShown(4), "txt");
    assert!(m.is_none());
    assert_eq!(c, 0);
}

#[test]
fn kitty_terminal_detection() {
    assert!(is_kitty_terminal("xterm-kitty", ""));
    assert!(is_kitty_terminal("xterm-256color", "WezTerm"));
    assert!(is_kitty_terminal("", "kitty"));
    assert!(!is_kitty_terminal("xterm-256color", "iTerm.app"));
    assert!(!is_kitty_terminal("", ""));
}

#[test]
fn kitty_sequence_of_no_data_is_one_empty_packet() {
    assert_eq!(kitty_sequence(&[], 2, 3), "\x1b_Ga=T,f=32,s=2,v=3,m=0;\x1b\\");
}

#[test]
fn kitty_sequence_of_one_pixel() {
    assert_eq!(kitty_sequence(&[255, 0, 0, 255], 1, 1), "\x1b_Ga=T,f=32,s=1,v=1,m=0;/wAA/w==\x1b\\");
}

#[test]
fn kitty_sequence_splits_into_chunks() {
    let data = vec![0u8; 3073];
    let s = kitty_sequence(&data, 10, 20);
    let first_payload = "A".repeat(4096);
    let expected = format!("\x1b_Ga=T,f=32,s=10,v=20,m=1;{}\x1b\\\x1b_Gm=0;AA==\x1b\\", first_payload);
    assert_eq!(s, expected);
    let exact = kitty_sequence(&vec![0u8; 3072], 1, 1);
    assert_eq!(exact.matches("\x1b_G").count(), 1);
    assert!(exact.starts_with("\x1b_Ga=T,f=32,s=1,v=1,m=0;"));
}

#[test]
fn enc_dec_outcome_messages() {
    match enc_dec_outcome("/tmp/a.txt.lock", Ok(true)) {
        OpStatus::Success(m) => assert_eq!(m, "Saved → /tmp/a.txt.lock"),
        _ => panic!("expected success"),
    }
    match enc_dec_outcome("/tmp/a.txt", Ok(false)) {
        OpStatus::Failure(m) => assert_eq!(m, "Decryption failed — wrong password or corrupted file."),
        _ => panic!("expected failure"),
    }
    match enc_dec_outcome("/tmp/a.txt", Err("disk full".to_string())) {
        OpStatus::Failure(m) => assert_eq!(m, "Error: disk full"),
        _ => panic!("expected failure"),
    }
}

#[test]
fn picked_path_fills_the_form() {
    let mut s = EncDecState::new();
    s.password = "pw".to_string();
    s.status = OpStatus::Failure("old".to_string());
    s.path_chosen("/home/u/a.txt".to_string());
    assert_eq!(s.path, "/home/u/a.txt");
    assert_eq!(s.focus, 1);
    assert_eq!(s.password, "pw");
    assert!(matches!(s.status, OpStatus::Idle));

    let mut p = PreviewState::new();
    p.path_chosen("/home/u/a.png.lock".to_string());
    assert_eq!(p.path, "/home/u/a.png.lock");
    assert_eq!(p.focus, 1);
    assert!(matches!(p.phase, PreviewPhase::Idle));
}
