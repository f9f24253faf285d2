//! The text the interface shows: field contents and labels, key hints,
//! status lines and titles, worked out from the pages' state. Drawing them
//! is the caller's.

use vstd::prelude::*;
use vstd::string::*;

use crate::browse::{BrowseState, PanelFocus, folder_display_name};
use crate::paths::{folder_depth_spec, folder_display_name_spec};
use crate::fmt::{decimal, decimal_string, push_str};
use crate::pages::{OpStatus, PreviewPhase, PreviewResult};
use crate::text::{to_chars, copy_range, from_chars, push_char};

verus! {

/// The longest end of `s` whose UTF-8 encoding has at most `cols` bytes (all
/// of `s` when it fits), so the end being typed stays in view; a character
/// that would be cut is left out whole.
pub open spec fn tail_fit_spec(s: Seq<char>, cols: usize) -> Seq<char>
    decreases s.len(),
{
    if vstd::utf8::encode_utf8(s).len() <= cols || s.len() == 0 { s } else { tail_fit_spec(s.drop_first(), cols) }
}

/// The UTF-8 length of a character.
fn char_utf8_len(c: char) -> (r: usize)
    ensures
        r == vstd::utf8::encode_utf8(seq![c]).len(),
{
    let mut one = String::new();
    push_char(&mut one, c);
    assert(one@ =~= seq![c]);
    let t = one.as_str();
    let b = t.as_bytes();
    assert(t@ == one@);
    assert(b@ == vstd::utf8::encode_utf8(t@));
    b.len()
}

/// The UTF-8 length of `s` is that of its first character plus that of the rest.
proof fn lemma_utf8_len_first(s: Seq<char>)
    requires
        s.len() > 0,
    ensures
        vstd::utf8::encode_utf8(s).len() == vstd::utf8::encode_utf8(seq![s[0]]).len()
            + vstd::utf8::encode_utf8(s.drop_first()).len(),
{
    let one = seq![s[0]];
    assert(one.drop_first() =~= Seq::<char>::empty());
    assert(vstd::utf8::encode_utf8(one.drop_first()) =~= Seq::<u8>::empty());
    assert(vstd::utf8::encode_utf8(one) =~= vstd::utf8::encode_scalar(s[0] as u32) + vstd::utf8::encode_utf8(one.drop_first()));
    assert(vstd::utf8::encode_utf8(s) =~= vstd::utf8::encode_scalar(s[0] as u32) + vstd::utf8::encode_utf8(s.drop_first()));
}

/// Where the end of `v` that fits in `cols` bytes starts.
fn fit_start(v: &Vec<char>, bytes: usize, cols: usize) -> (k: usize)
    requires
        bytes == vstd::utf8::encode_utf8(v@).len(),
    ensures
        k <= v@.len(),
        v@.subrange(k as int, v@.len() as int) == tail_fit_spec(v@, cols),
{
    let mut k: usize = 0;
    let mut rem: usize = bytes;
    proof {
        assert(v@.subrange(0, v@.len() as int) =~= v@);
    }
    while rem > cols && k < v.len()
        invariant
            k <= v@.len(),
            rem == vstd::utf8::encode_utf8(v@.subrange(k as int, v@.len() as int)).len(),
            tail_fit_spec(v@, cols) == tail_fit_spec(v@.subrange(k as int, v@.len() as int), cols),
        decreases v@.len() - k,
    {
        let ghost t = v@.subrange(k as int, v@.len() as int);
        proof {
            lemma_utf8_len_first(t);
            assert(t[0] == v@[k as int]);
            assert(t.drop_first() =~= v@.subrange(k + 1, v@.len() as int));
        }
        let c = char_utf8_len(v[k]);
        rem = rem - c;
        k = k + 1;
    }
    proof {
        let t = v@.subrange(k as int, v@.len() as int);
        if k == v.len() {
            assert(t.len() == 0);
        }
    }
    k
}

/// The end of `s` that fits in `cols` bytes.
pub fn tail_fit(s: &str, cols: usize) -> (r: String)
    ensures
        r@ == tail_fit_spec(s@, cols),
{
    let n = s.as_bytes().len();
    let v = to_chars(s);
    let k = fit_start(&v, n, cols);
    let c = copy_range(v.as_slice(), k, v.len());
    from_chars(c.as_slice())
}

/// `n` copies of `c`.
pub open spec fn repeat_char(c: char, n: nat) -> Seq<char> {
    Seq::new(n, |i: int| c)
}

/// A password as shown: one `•` per byte, and the typing cursor `|` when focused.
pub open spec fn masked_spec(bytes: nat, focused: bool) -> Seq<char> {
    if focused { repeat_char('•', bytes).push('|') } else { repeat_char('•', bytes) }
}

/// The password field's text.
pub fn masked(password: &str, focused: bool) -> (r: String)
    ensures
        r@ == masked_spec(password.spec_bytes().len(), focused),
{
    let n = password.as_bytes().len();
    let mut r = String::new();
    let mut i: usize = 0;
    while i < n
        invariant
            i <= n,
            n == password.spec_bytes().len(),
            r@ == repeat_char('•', i as nat),
        decreases n - i,
    {
        push_char(&mut r, '•');
        assert(r@ =~= repeat_char('•', (i + 1) as nat));
        i = i + 1;
    }
    if focused {
        push_char(&mut r, '|');
    }
    r
}

/// A text field's content with the typing cursor `|` when focused.
pub fn with_cursor(s: &str, focused: bool) -> (r: String)
    ensures
        r@ == if focused { s@.push('|') } else { s@ },
{
    let mut r = s.to_owned();
    if focused {
        push_char(&mut r, '|');
    }
    r
}

/// A field's label, marked while its text is being edited.
pub fn field_label(label: &str, editing: bool) -> (r: String)
    ensures
        r@ == if editing { label@ + "  (editing)"@ } else { label@ },
{
    let mut r = label.to_owned();
    if editing {
        push_str(&mut r, "  (editing)");
    }
    r
}

/// What a path field shows in `width` columns: nothing typed and not editing
/// shows the placeholder (`None`); editing shows the typed path with the
/// cursor; else the path.
pub open spec fn path_text_spec(path: Seq<char>, focused: bool, edit: bool, width: usize) -> Option<Seq<char>> {
    if path.len() == 0 && !edit {
        None
    } else if focused && edit {
        Some(tail_fit_spec(path.push('|'), width))
    } else if path.len() == 0 {
        Some(Seq::empty())
    } else {
        Some(tail_fit_spec(path, width))
    }
}

/// The text of a path field.
pub fn path_text(path: &str, focused: bool, edit: bool, width: usize) -> (r: Option<String>)
    ensures
        match r {
            Some(t) => path_text_spec(path@, focused, edit, width) == Some(t@),
            None => path_text_spec(path@, focused, edit, width) is None,
        },
{
    let empty = path.unicode_len() == 0;
    if empty && !edit {
        None
    } else if focused && edit {
        let t = with_cursor(path, true);
        Some(tail_fit(t.as_str(), width))
    } else if empty {
        Some(String::new())
    } else {
        Some(tail_fit(path, width))
    }
}

/// The key hint under a focused path field, as pieces: (text, is a key). While
/// editing: confirm, cancel, next field; else type, built-in browser, `yazi`
/// when installed, and Enter to pick.
pub open spec fn path_hint_spec(edit: bool, yazi: bool) -> Seq<(Seq<char>, bool)> {
    if edit {
        seq![("  Enter"@, true), (" confirm    "@, false), ("Esc"@, true), (" cancel edit    "@, false),
            ("Tab"@, true), (" next field"@, false)]
    } else {
        let head = seq![("  t"@, true), (" type    "@, false), ("b"@, true), (" browser    "@, false)];
        let mid = if yazi { seq![("y"@, true), (" yazi    "@, false)] } else { Seq::empty() };
        head + mid + seq![("Enter"@, true), (" auto-pick"@, false)]
    }
}

fn hint_piece(t: &str, key: bool) -> (r: (String, bool))
    ensures
        r.0@ == t@,
        r.1 == key,
{
    (t.to_owned(), key)
}

/// The pieces of the hint under a path field.
pub fn path_input_hint_spans(edit: bool, yazi: bool) -> (r: Vec<(String, bool)>)
    ensures
        r@.len() == path_hint_spec(edit, yazi).len(),
        forall|k: int| 0 <= k < r@.len() ==> ((#[trigger] r@[k]).0@, r@[k].1) == path_hint_spec(edit, yazi)[k],
{
    let mut r: Vec<(String, bool)> = Vec::new();
    if edit {
        r.push(hint_piece("  Enter", true));
        r.push(hint_piece(" confirm    ", false));
        r.push(hint_piece("Esc", true));
        r.push(hint_piece(" cancel edit    ", false));
        r.push(hint_piece("Tab", true));
        r.push(hint_piece(" next field", false));
    } else {
        r.push(hint_piece("  t", true));
        r.push(hint_piece(" type    ", false));
        r.push(hint_piece("b", true));
        r.push(hint_piece(" browser    ", false));
        if yazi {
            r.push(hint_piece("y", true));
            r.push(hint_piece(" yazi    ", false));
        }
        r.push(hint_piece("Enter", true));
        r.push(hint_piece(" auto-pick", false));
    }
    proof {
        let s = path_hint_spec(edit, yazi);
        assert(r@.len() == s.len());
        assert forall|k: int| 0 <= k < r@.len() implies ((#[trigger] r@[k]).0@, r@[k].1) == s[k] by {
            if !edit && yazi {
                assert(s =~= seq![("  t"@, true), (" type    "@, false), ("b"@, true), (" browser    "@, false),
                    ("y"@, true), (" yazi    "@, false), ("Enter"@, true), (" auto-pick"@, false)]);
            } else if !edit {
                assert(s =~= seq![("  t"@, true), (" type    "@, false), ("b"@, true), (" browser    "@, false),
                    ("Enter"@, true), (" auto-pick"@, false)]);
            }
        }
    }
    r
}

/// The hint bar of a form page: wait while the operation runs; else what Esc,
/// Tab and (on the password) Enter do; `action` names what Enter starts.
pub open spec fn form_hint_spec(busy: bool, focus: usize, edit: bool, action: Seq<char>) -> Seq<char> {
    if busy {
        "please wait…"@
    } else if focus == 0 && edit {
        "Esc cancel edit    Tab next field"@
    } else if focus == 0 {
        "Esc back    Tab next field"@
    } else {
        "Esc back    Tab previous field    Enter "@ + action
    }
}

/// The hint bar of a form page.
pub fn form_hint(busy: bool, focus: usize, edit: bool, action: &str) -> (r: String)
    ensures
        r@ == form_hint_spec(busy, focus, edit, action@),
{
    if busy {
        "please wait…".to_owned()
    } else if focus == 0 && edit {
        "Esc cancel edit    Tab next field".to_owned()
    } else if focus == 0 {
        "Esc back    Tab next field".to_owned()
    } else {
        let mut r = "Esc back    Tab previous field    Enter ".to_owned();
        push_str(&mut r, action);
        r
    }
}

/// The hint bar of the new-vault form.
pub open spec fn creating_hint_spec(focus: usize, edit: bool) -> Seq<char> {
    if focus == 0 && edit {
        "Enter confirm    Esc cancel edit    Tab next field"@
    } else if focus == 0 {
        "Esc back    Tab next field"@
    } else if focus == 1 {
        "Esc back    Tab next field    Enter skip to password"@
    } else {
        "Esc back    Tab previous field    Enter create vault"@
    }
}

/// The hint bar of the new-vault form.
pub fn creating_hint(focus: usize, edit: bool) -> (r: &'static str)
    ensures
        r@ == creating_hint_spec(focus, edit),
{
    if focus == 0 && edit {
        "Enter confirm    Esc cancel edit    Tab next field"
    } else if focus == 0 {
        "Esc back    Tab next field"
    } else if focus == 1 {
        "Esc back    Tab next field    Enter skip to password"
    } else {
        "Esc back    Tab previous field    Enter create vault"
    }
}

/// The line showing how an operation stands.
pub enum StatusLine {
    Blank,
    /// Work in progress: a label, and the percentage when known.
    Working { label: String, percent: Option<u8> },
    /// A success.
    Done(String),
    /// A failure.
    Failed(String),
}

/// The mode line of the encrypt/decrypt page: the mode and why.
pub fn enc_dec_mode(decrypt: bool) -> (r: (&'static str, &'static str))
    ensures
        decrypt ==> r.0@ == "Decrypt"@ && r.1@ == "  (.lock suffix detected)"@,
        !decrypt ==> r.0@ == "Encrypt"@ && r.1@ == "  (no .lock suffix)"@,
{
    if decrypt { ("Decrypt", "  (.lock suffix detected)") } else { ("Encrypt", "  (no .lock suffix)") }
}

/// The status line of the encrypt/decrypt page.
pub fn enc_dec_status_line(status: &OpStatus, decrypt: bool) -> (r: StatusLine)
    ensures
        match *status {
            OpStatus::Idle => r is Blank,
            OpStatus::Running(p) => r matches StatusLine::Working { label, percent }
                && label@ == (if decrypt { "  Decrypting…"@ } else { "  Encrypting…"@ }) && percent == Some(p),
            OpStatus::Success(m) => r matches StatusLine::Done(t) && t@ == "✓  "@ + m@,
            OpStatus::Failure(m) => r matches StatusLine::Failed(t) && t@ == "✗  "@ + m@,
        },
{
    match status {
        OpStatus::Idle => StatusLine::Blank,
        OpStatus::Running(p) => StatusLine::Working {
            label: (if decrypt { "  Decrypting…" } else { "  Encrypting…" }).to_owned(),
            percent: Some(*p),
        },
        OpStatus::Success(m) => StatusLine::Done(crate::fmt::concat("✓  ", m.as_str())),
        OpStatus::Failure(m) => StatusLine::Failed(crate::fmt::concat("✗  ", m.as_str())),
    }
}

/// What the preview page says of a finished preview: true for a success.
pub open spec fn preview_result_line(r: PreviewResult) -> (Seq<char>, bool) {
    match r {
        PreviewResult::NotSupported => ("✗  Preview not available for this file type"@, false),
        PreviewResult::WrongPassword => ("✗  Wrong password or corrupted file"@, false),
        PreviewResult::IoError(m) => ("✗  Error: "@ + m@, false),
        PreviewResult::KittyShown => ("✓  Image displayed in terminal"@, true),
        PreviewResult::XdgOpened => ("✓  Opened in system image viewer"@, true),
        PreviewResult::RenderFailed(m) => ("✗  Render failed: "@ + m@, false),
        PreviewResult::MpvOpened => ("✓  Playback finished"@, true),
        PreviewResult::MpvNotInstalled => ("✗  mpv not found — install it to preview media files"@, false),
        PreviewResult::GalleryShown(n) => ("✓  Gallery closed ("@ + decimal(n as nat)
            + (if n == 1 { " image)"@ } else { " images)"@ }), true),
        PreviewResult::GalleryXdgOpened => ("✓  Opened ZIP in system viewer"@, true),
        PreviewResult::TextShown(n) => (if n > 0 {
            "✓  Text viewer closed ("@ + decimal(n as nat) + " lines)"@
        } else {
            "✓  bat viewer closed"@
        }, true),
    }
}

fn count_line(pre: &str, n: usize, post: &str) -> (r: String)
    ensures
        r@ == pre@ + decimal(n as nat) + post@,
{
    let mut r = pre.to_owned();
    let d = decimal_string(n as u64);
    push_str(&mut r, d.as_str());
    push_str(&mut r, post);
    r
}

/// The status line of the preview page.
pub fn preview_status_line(phase: &PreviewPhase) -> (r: StatusLine)
    ensures
        match *phase {
            PreviewPhase::Idle => r is Blank,
            PreviewPhase::Decrypting(p) => r matches StatusLine::Working { label, percent }
                && label@ == "  Decrypting…"@ && percent == Some(p),
            PreviewPhase::PendingRender { .. } => r matches StatusLine::Working { label, percent }
                && label@ == "  Rendering…"@ && percent is None,
            PreviewPhase::Done(res) => {
                let (t, ok) = preview_result_line(res);
                &&& ok ==> (r matches StatusLine::Done(x) && x@ == t)
                &&& !ok ==> (r matches StatusLine::Failed(x) && x@ == t)
            },
        },
{
    match phase {
        PreviewPhase::Idle => StatusLine::Blank,
        PreviewPhase::Decrypting(p) => StatusLine::Working { label: "  Decrypting…".to_owned(), percent: Some(*p) },
        PreviewPhase::PendingRender { .. } => StatusLine::Working { label: "  Rendering…".to_owned(), percent: None },
        PreviewPhase::Done(res) => match res {
            PreviewResult::NotSupported => StatusLine::Failed("✗  Preview not available for this file type".to_owned()),
            PreviewResult::WrongPassword => StatusLine::Failed("✗  Wrong password or corrupted file".to_owned()),
            PreviewResult::IoError(m) => StatusLine::Failed(crate::fmt::concat("✗  Error: ", m.as_str())),
            PreviewResult::KittyShown => StatusLine::Done("✓  Image displayed in terminal".to_owned()),
            PreviewResult::XdgOpened => StatusLine::Done("✓  Opened in system image viewer".to_owned()),
            PreviewResult::RenderFailed(m) => StatusLine::Failed(crate::fmt::concat("✗  Render failed: ", m.as_str())),
            PreviewResult::MpvOpened => StatusLine::Done("✓  Playback finished".to_owned()),
            PreviewResult::MpvNotInstalled => StatusLine::Failed("✗  mpv not found — install it to preview media files".to_owned()),
            PreviewResult::GalleryShown(n) => StatusLine::Done(
                if *n == 1 { count_line("✓  Gallery closed (", *n, " image)") } else { count_line("✓  Gallery closed (", *n, " images)") }),
            PreviewResult::GalleryXdgOpened => StatusLine::Done("✓  Opened ZIP in system viewer".to_owned()),
            PreviewResult::TextShown(n) => StatusLine::Done(
                if *n > 0 { count_line("✓  Text viewer closed (", *n, " lines)") } else { "✓  bat viewer closed".to_owned() }),
        },
    }
}

/// `item` or `items`.
pub open spec fn noun_spec(count: usize) -> Seq<char> {
    if count == 1 { "item"@ } else { "items"@ }
}

fn noun(count: usize) -> (r: &'static str)
    ensures
        r@ == noun_spec(count),
{
    if count == 1 { "item" } else { "items" }
}

/// The question before deleting `count` files.
pub fn delete_prompt(count: usize) -> (r: String)
    ensures
        r@ == "Delete "@ + decimal(count as nat) + " "@ + noun_spec(count) + "? This removes them from the index."@,
{
    let mut r = count_line("Delete ", count, " ");
    push_str(&mut r, noun(count));
    push_str(&mut r, "? This removes them from the index.");
    r
}

/// The title of the move-destination picker.
pub fn move_title(count: usize) -> (r: String)
    ensures
        r@ == " Move "@ + decimal(count as nat) + " "@ + noun_spec(count) + " — select destination "@,
{
    let mut r = count_line(" Move ", count, " ");
    push_str(&mut r, noun(count));
    push_str(&mut r, " — select destination ");
    r
}

/// The browser's title: the vault's folder name, marked when changes are unsaved.
pub fn browse_title(vault_name: &str, dirty: bool) -> (r: String)
    ensures
        r@ == " Vault — "@ + vault_name@ + (if dirty { "  [unsaved]"@ } else { ""@ }) + " "@,
{
    let mut r = " Vault — ".to_owned();
    push_str(&mut r, vault_name);
    if dirty {
        push_str(&mut r, "  [unsaved]");
    }
    push_str(&mut r, " ");
    proof {
        reveal_strlit("");
    }
    r
}

/// The file list's title: the folder being viewed.
pub fn list_title(current_path: &str) -> (r: String)
    ensures
        r@ == if current_path@.len() == 0 { " / "@ } else { " /"@ + current_path@ + " "@ },
{
    if current_path.unicode_len() == 0 {
        return " / ".to_owned();
    }
    let mut r = " /".to_owned();
    push_str(&mut r, current_path);
    push_str(&mut r, " ");
    r
}

/// A folder row of the tree: indented two spaces per level, marked at the
/// cursor, with the folder's name.
pub open spec fn tree_row_spec(path: Seq<char>, at_cursor: bool) -> Seq<char> {
    repeat_char(' ', 2 * folder_depth_spec(path)) + (if at_cursor { "▶ "@ } else { "  "@ }) + folder_display_name_spec(path)
}

/// A folder row of the tree.
pub fn tree_row(path: &str, at_cursor: bool) -> (r: String)
    requires
        path@.len() < usize::MAX,
    ensures
        r@ == tree_row_spec(path@, at_cursor),
{
    let depth = crate::browse::folder_depth(path);
    let mut r = String::new();
    let mut i: usize = 0;
    while i < depth
        invariant
            i <= depth,
            depth == folder_depth_spec(path@),
            r@ == repeat_char(' ', 2 * i as nat),
        decreases depth - i,
    {
        push_char(&mut r, ' ');
        push_char(&mut r, ' ');
        assert(r@ =~= repeat_char(' ', 2 * (i + 1) as nat));
        i = i + 1;
    }
    push_str(&mut r, if at_cursor { "▶ " } else { "  " });
    let name = folder_display_name(path);
    push_str(&mut r, name.as_str());
    r
}

/// The mark before a file row: cut, selected, or none.
#[derive(Clone, Copy, Debug, PartialEq, Eq, Structural)]
pub enum RowMark {
    Cut,
    Selected,
    Plain,
}

/// The mark of the file `uuid` in the browser: cut files first, then selected ones.
pub fn row_mark(b: &BrowseState, uuid: &str) -> (r: RowMark)
    ensures
        r == (if crate::order::views(b.clipboard@).contains(uuid@) {
            RowMark::Cut
        } else if crate::order::views(b.selected_uuids@).contains(uuid@) {
            RowMark::Selected
        } else {
            RowMark::Plain
        }),
{
    if crate::vault_state::contains_str(b.clipboard.as_slice(), uuid) {
        RowMark::Cut
    } else if crate::vault_state::contains_str(b.selected_uuids.as_slice(), uuid) {
        RowMark::Selected
    } else {
        RowMark::Plain
    }
}

/// The hint bar under the browser: the status message while there is one;
/// else the keys of the panel with the keyboard. True for a message.
pub fn browse_hint(b: &BrowseState) -> (r: (String, bool))
    ensures
        match b.status_msg {
            Some(m) => r.0@ == m@ && r.1,
            None => !r.1 && r.0@ == (if b.panel_focus == PanelFocus::Tree {
                "Tab list    ↑↓/jk navigate    Enter select folder    h/Esc up / back"@
            } else {
                "Tab tree    ↑↓/jk navigate    Enter open    Space select    i add    r rename    d delete    x cut    p paste    m move    s save    h/Esc up"@
            }),
        },
{
    match &b.status_msg {
        Some(m) => (m.clone(), true),
        None => if b.panel_focus == PanelFocus::Tree {
            ("Tab list    ↑↓/jk navigate    Enter select folder    h/Esc up / back".to_owned(), false)
        } else {
            ("Tab tree    ↑↓/jk navigate    Enter open    Space select    i add    r rename    d delete    x cut    p paste    m move    s save    h/Esc up".to_owned(), false)
        },
    }
}

/// A file name fitted into `width` bytes: when longer, `…` and the longest
/// end of it that fits in `width - 1` bytes.
pub open spec fn front_ellipsis_spec(name: Seq<char>, width: usize) -> Seq<char> {
    if vstd::utf8::encode_utf8(name).len() > width {
        let keep: usize = if width > 0 { (width - 1) as usize } else { 0 };
        seq!['…'] + tail_fit_spec(name, keep)
    } else {
        name
    }
}

/// The file name of a progress window, fitted into `width` bytes.
pub fn front_ellipsis(name: &str, width: usize) -> (r: String)
    ensures
        r@ == front_ellipsis_spec(name@, width),
{
    let n = name.as_bytes().len();
    if n <= width {
        return name.to_owned();
    }
    let keep = if width > 0 { width - 1 } else { 0 };
    let t = tail_fit(name, keep);
    let mut r = String::new();
    push_char(&mut r, '…');
    push_str(&mut r, t.as_str());
    assert(r@ =~= seq!['…'] + t@);
    r
}

/// The share of `done` out of `total`, in percent (0 when there is nothing to do).
pub fn share_percent(done: usize, total: usize) -> (r: u8)
    ensures
        total == 0 ==> r == 0,
        total > 0 ==> r as int == (if done < total { done as int } else { total as int }) * 100 / total as int,
{
    if total == 0 {
        return 0;
    }
    let d = if done < total { done } else { total };
    let q: u128 = (d as u128) * 100 / (total as u128);
    assert(q <= 100) by (nonlinear_arith)
        requires
            d <= total,
            total > 0,
            q == (d as int) * 100 / (total as int),
    ;
    q as u8
}

} // verus!
