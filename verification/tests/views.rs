use pnd::pages::{OpStatus, PreviewPhase, PreviewResult};
use pnd::views::{
    creating_hint, delete_prompt, enc_dec_status_line, field_label, form_hint, front_ellipsis, list_title, masked,
    move_title, path_input_hint_spans, path_text, preview_status_line, share_percent, tail_fit, tree_row, with_cursor,
    browse_title, StatusLine,
};

#[test]
fn tail_fit_keeps_the_end() {
    assert_eq!(tail_fit("/home/user/file.txt", 8), "file.txt");
    assert_eq!(tail_fit("short", 10), "short");
    assert_eq!(tail_fit("abc", 0), "");
}

#[test]
fn fitting_counts_bytes() {
    assert_eq!(tail_fit("ééé", 2), "é");
    assert_eq!(tail_fit("ééé", 6), "ééé");
    assert_eq!(tail_fit("é", 1), "");
    assert_eq!(tail_fit("aéb", 2), "b");
    assert_eq!(front_ellipsis("aéé", 4), "…é");
    assert_eq!(front_ellipsis("ééé", 3), "…é");
    assert_eq!(front_ellipsis("ééé", 6), "ééé");
    assert_eq!(masked("é", false), "••");
}

#[test]
fn fields_show_cursor_mask_and_placeholder() {
    assert_eq!(masked("pw1", false), "•••");
    assert_eq!(masked("pw1", true), "•••|");
    assert_eq!(with_cursor("ab", true), "ab|");
    assert_eq!(field_label("File path", true), "File path  (editing)");
    assert_eq!(field_label("File path", false), "File path");
    assert_eq!(path_text("", true, false, 20), None);
    assert_eq!(path_text("", true, true, 20), Some("|".to_string()));
    assert_eq!(path_text("/a/long/path", true, true, 5), Some("path|".to_string()));
    assert_eq!(path_text("/a/long/path", false, false, 4), Some("path".to_string()));
}

#[test]
fn hints_follow_focus() {
    let pieces: Vec<String> = path_input_hint_spans(false, true).into_iter().map(|p| p.0).collect();
    assert_eq!(pieces.concat(), "  t type    b browser    y yazi    Enter auto-pick");
    let pieces: Vec<String> = path_input_hint_spans(false, false).into_iter().map(|p| p.0).collect();
    assert_eq!(pieces.concat(), "  t type    b browser    Enter auto-pick");
    let edit = path_input_hint_spans(true, true);
    assert_eq!(edit.len(), 6);
    assert!(edit[0].1);
    assert_eq!(form_hint(true, 0, false, "run"), "please wait…");
    assert_eq!(form_hint(false, 0, true, "run"), "Esc cancel edit    Tab next field");
    assert_eq!(form_hint(false, 1, false, "preview"), "Esc back    Tab previous field    Enter preview");
    assert_eq!(creating_hint(1, false), "Esc back    Tab next field    Enter skip to password");
    assert_eq!(creating_hint(0, true), "Enter confirm    Esc cancel edit    Tab next field");
}

#[test]
fn status_lines() {
    match enc_dec_status_line(&OpStatus::Running(40), true) {
        StatusLine::Working { label, percent } => {
            assert_eq!(label, "  Decrypting…");
            assert_eq!(percent, Some(40));
        },
        _ => panic!("expected progress"),
    }
    match enc_dec_status_line(&OpStatus::Failure("bad".to_string()), false) {
        StatusLine::Failed(t) => assert_eq!(t, "✗  bad"),
        _ => panic!("expected a failure"),
    }
    match preview_status_line(&PreviewPhase::Done(PreviewResult::GalleryShown(1))) {
        StatusLine::Done(t) => assert_eq!(t, "✓  Gallery closed (1 image)"),
        _ => panic!("expected a success"),
    }
    match preview_status_line(&PreviewPhase::Done(PreviewResult::TextShown(12))) {
        StatusLine::Done(t) => assert_eq!(t, "✓  Text viewer closed (12 lines)"),
        _ => panic!("expected a success"),
    }
    match preview_status_line(&PreviewPhase::Done(PreviewResult::TextShown(0))) {
        StatusLine::Done(t) => assert_eq!(t, "✓  bat viewer closed"),
        _ => panic!("expected a success"),
    }
    assert!(matches!(preview_status_line(&PreviewPhase::Idle), StatusLine::Blank));
}

#[test]
fn titles_and_rows() {
    assert_eq!(delete_prompt(1), "Delete 1 item? This removes them from the index.");
    assert_eq!(delete_prompt(3), "Delete 3 items? This removes them from the index.");
    assert_eq!(move_title(2), " Move 2 items — select destination ");
    assert_eq!(browse_title("photos", true), " Vault — photos  [unsaved] ");
    assert_eq!(browse_title("photos", false), " Vault — photos ");
    assert_eq!(list_title(""), " / ");
    assert_eq!(list_title("a/b"), " /a/b ");
    assert_eq!(tree_row("", false), "  /");
    assert_eq!(tree_row("docs/old", true), "    ▶ old");
    assert_eq!(front_ellipsis("abcdefgh", 4), "…fgh");
    assert_eq!(front_ellipsis("abc", 4), "abc");
    assert_eq!(share_percent(1, 3), 33);
    assert_eq!(share_percent(5, 0), 0);
    assert_eq!(share_percent(9, 3), 100);
}
