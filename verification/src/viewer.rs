//! Showing a decrypted file: which viewer a file goes to, the keys of the
//! image gallery and of the text viewer, and the images of a ZIP archive.

use vstd::prelude::*;

use crate::browse::BrowseState;
use crate::filetype::{image_ext, media_ext, text_ext, is_image_ext, is_media_ext, is_text_ext, is_image_entry};
use crate::fmt::{decimal, decimal_string, push_str};
use crate::keys::Key;
use crate::sorting::{SortItem, SortKey, SortDir, sort_by_key, sort_items, items_view, lemma_sort_items_sorted};
use crate::text::str_eq;
use crate::fmt::concat;
use crate::pages::{PreviewPhase, PreviewResult, PreviewState};
use crate::vault_state::{Phase, VaultState, count_message, count_text};

verus! {

/// The viewer a file goes to.
#[derive(Clone, Copy, Debug, PartialEq, Eq, Structural)]
pub enum PreviewKind {
    /// Shown in the terminal, or in the system viewer.
    Image,
    /// Played by the media player.
    Media,
    /// A ZIP archive, shown as a gallery of its images.
    Archive,
    /// Paged as text.
    Text,
    /// No viewer.
    Unsupported,
}

/// The viewer for a (lower-case) extension; images first, then media, ZIP archives, text.
pub open spec fn preview_kind_spec(ext: Seq<char>) -> PreviewKind {
    if image_ext(ext) {
        PreviewKind::Image
    } else if media_ext(ext) {
        PreviewKind::Media
    } else if ext == "zip"@ {
        PreviewKind::Archive
    } else if text_ext(ext) {
        PreviewKind::Text
    } else {
        PreviewKind::Unsupported
    }
}

/// The image viewer opens exactly the image formats (JPEG, PNG, GIF, WebP,
/// BMP, TIFF), and ZIP archives open in the gallery.
pub proof fn lemma_preview_kind_of_images(ext: Seq<char>)
    ensures
        (preview_kind_spec(ext) == PreviewKind::Image) <==> (ext == "jpg"@ || ext == "jpeg"@ || ext == "png"@
            || ext == "gif"@ || ext == "webp"@ || ext == "bmp"@ || ext == "tiff"@ || ext == "tif"@),
        (preview_kind_spec(ext) == PreviewKind::Archive) <==> ext == "zip"@,
{
    reveal_strlit("zip");
    reveal_strlit("jpg");
    reveal_strlit("jpeg");
    reveal_strlit("png");
    reveal_strlit("gif");
    reveal_strlit("webp");
    reveal_strlit("bmp");
    reveal_strlit("tiff");
    reveal_strlit("tif");
    if ext == "zip"@ {
        reveal_strlit("mp4");
        reveal_strlit("mkv");
        reveal_strlit("avi");
        reveal_strlit("mov");
        reveal_strlit("webm");
        reveal_strlit("flv");
        reveal_strlit("wmv");
        reveal_strlit("m4v");
        reveal_strlit("ts");
        reveal_strlit("ogv");
        reveal_strlit("mp3");
        reveal_strlit("flac");
        reveal_strlit("wav");
        reveal_strlit("ogg");
        reveal_strlit("m4a");
        reveal_strlit("aac");
        reveal_strlit("opus");
        reveal_strlit("wma");
        assert(ext.len() == 3 && ext[0] == 'z');
        assert(!crate::filetype::image_ext(ext));
        assert(!crate::filetype::media_ext(ext));
    }
}

/// Video and audio files open in the media player.
pub proof fn lemma_preview_kind_of_media(ext: Seq<char>)
    ensures
        (preview_kind_spec(ext) == PreviewKind::Media) <==> (ext == "mp4"@ || ext == "mkv"@ || ext == "avi"@ || ext == "mov"@ || ext == "webm"@ || ext == "flv"@ || ext == "wmv"@ || ext == "m4v"@ || ext == "ts"@ || ext == "ogv"@ || ext == "mp3"@ || ext == "flac"@ || ext == "wav"@ || ext == "ogg"@ || ext == "m4a"@ || ext == "aac"@ || ext == "opus"@ || ext == "wma"@),
{
    reveal_strlit("mp4");
    reveal_strlit("mkv");
    reveal_strlit("avi");
    reveal_strlit("mov");
    reveal_strlit("webm");
    reveal_strlit("flv");
    reveal_strlit("wmv");
    reveal_strlit("m4v");
    reveal_strlit("ts");
    reveal_strlit("ogv");
    reveal_strlit("mp3");
    reveal_strlit("flac");
    reveal_strlit("wav");
    reveal_strlit("ogg");
    reveal_strlit("m4a");
    reveal_strlit("aac");
    reveal_strlit("opus");
    reveal_strlit("wma");
    reveal_strlit("jpg");
    reveal_strlit("jpeg");
    reveal_strlit("png");
    reveal_strlit("gif");
    reveal_strlit("webp");
    reveal_strlit("bmp");
    reveal_strlit("tiff");
    reveal_strlit("tif");
    if crate::filetype::media_ext(ext) {
        assert(ext.len() >= 2);
        assert(!crate::filetype::image_ext(ext)) by {
            if ext.len() == 3 {
                assert(ext[0] != 'j' || ext[1] != 'p');
                assert(ext[0] != 'p' || ext[1] != 'n');
                assert(ext[0] != 'g' || ext[1] != 'i');
                assert(ext[0] != 'b' || ext[1] != 'm');
                assert(ext[0] != 't' || ext[1] != 'i');
            }
            if ext.len() == 4 {
                assert(ext[0] != 'j' || ext[1] != 'p');
                assert(ext[0] != 'w' || ext[1] != 'e' || ext[2] != 'b' || ext[3] != 'p');
                assert(ext[0] != 't' || ext[1] != 'i');
            }
        }
    }
}

/// The viewer for a (lower-case) extension.
pub fn preview_kind(ext: &str) -> (r: PreviewKind)
    ensures
        r == preview_kind_spec(ext@),
{
    if is_image_ext(ext) {
        PreviewKind::Image
    } else if is_media_ext(ext) {
        PreviewKind::Media
    } else if str_eq(ext, "zip") {
        proof {
            reveal_strlit("zip");
        }
        PreviewKind::Archive
    } else if is_text_ext(ext) {
        PreviewKind::Text
    } else {
        proof {
            reveal_strlit("zip");
        }
        PreviewKind::Unsupported
    }
}

/// The gallery's image after a key among `count`: `Left`/`h` the previous,
/// `Right`/`l` the next (not past either end); `Esc`/`q` closes (`None`).
pub open spec fn gallery_key_spec(idx: usize, count: usize, key: Key) -> Option<usize> {
    let prev = if idx > 0 { (idx - 1) as usize } else { idx };
    let next = if idx + 1 < count { (idx + 1) as usize } else { idx };
    match key {
        Key::Left => Some(prev),
        Key::Right => Some(next),
        Key::Esc => None,
        Key::Char(c) => if c == 'h' {
            Some(prev)
        } else if c == 'l' {
            Some(next)
        } else if c == 'q' {
            None
        } else {
            Some(idx)
        },
        _ => Some(idx),
    }
}

/// Move through the gallery.
pub fn gallery_key(idx: usize, count: usize, key: Key) -> (r: Option<usize>)
    ensures
        r == gallery_key_spec(idx, count, key),
{
    let prev = if idx > 0 { idx - 1 } else { idx };
    let next = if idx < usize::MAX && idx + 1 < count { idx + 1 } else { idx };
    match key {
        Key::Left => Some(prev),
        Key::Right => Some(next),
        Key::Esc => None,
        Key::Char(c) => if c == 'h' {
            Some(prev)
        } else if c == 'l' {
            Some(next)
        } else if c == 'q' {
            None
        } else {
            Some(idx)
        },
        _ => Some(idx),
    }
}

/// The line under a gallery image: its number and name, and the keys.
pub open spec fn gallery_hint_spec(idx: usize, count: usize, name: Seq<char>) -> Seq<char> {
    if count == 1 {
        "\r\n\r\n  (1/1)  "@ + name + "    [Esc/q] exit\r\n"@
    } else {
        "\r\n\r\n  ("@ + decimal((idx + 1) as nat) + "/"@ + decimal(count as nat) + ")  "@ + name
            + "    [←/h] prev   [→/l] next   [Esc/q] exit\r\n"@
    }
}

/// The line under the gallery's image number `idx` of `count`.
pub fn gallery_hint(idx: usize, count: usize, name: &str) -> (r: String)
    requires
        idx < count,
    ensures
        r@ == gallery_hint_spec(idx, count, name@),
{
    let mut r = String::new();
    if count == 1 {
        push_str(&mut r, "\r\n\r\n  (1/1)  ");
        push_str(&mut r, name);
        push_str(&mut r, "    [Esc/q] exit\r\n");
        return r;
    }
    push_str(&mut r, "\r\n\r\n  (");
    let a = decimal_string((idx + 1) as u64);
    push_str(&mut r, a.as_str());
    push_str(&mut r, "/");
    let b = decimal_string(count as u64);
    push_str(&mut r, b.as_str());
    push_str(&mut r, ")  ");
    push_str(&mut r, name);
    push_str(&mut r, "    [←/h] prev   [→/l] next   [Esc/q] exit\r\n");
    r
}

/// The first line shown of `lines` lines, `visible` at a time: the last page
/// fills the view.
pub open spec fn clamp_scroll_spec(scroll: usize, lines: usize, visible: usize) -> usize {
    if lines > visible {
        if scroll < lines - visible { scroll } else { (lines - visible) as usize }
    } else {
        0
    }
}

/// Keep the text viewer's first line within range.
pub fn clamp_scroll(scroll: usize, lines: usize, visible: usize) -> (r: usize)
    ensures
        r == clamp_scroll_spec(scroll, lines, visible),
{
    if lines > visible {
        if scroll < lines - visible { scroll } else { lines - visible }
    } else {
        0
    }
}

/// `a + b`, at most `usize::MAX`.
pub open spec fn sat_add(a: usize, b: usize) -> usize {
    if a + b <= usize::MAX { (a + b) as usize } else { usize::MAX }
}

/// `a - b`, at least 0.
pub open spec fn sat_sub(a: usize, b: usize) -> usize {
    if a >= b { (a - b) as usize } else { 0 }
}

/// The text viewer's first line after a key (clamped when drawn): `Up`/`k`
/// and `Down`/`j` one line, page keys `step` lines, `g`/`Home` the top,
/// `G`/`End` the end; `Esc`/`q` closes (`None`).
pub open spec fn text_key_spec(scroll: usize, lines: usize, step: usize, key: Key) -> Option<usize> {
    match key {
        Key::Esc => None,
        Key::Up => Some(sat_sub(scroll, 1)),
        Key::Down => Some(sat_add(scroll, 1)),
        Key::PageUp => Some(sat_sub(scroll, step)),
        Key::PageDown => Some(sat_add(scroll, step)),
        Key::Home => Some(0),
        Key::End => Some(lines),
        Key::Char(c) => if c == 'q' {
            None
        } else if c == 'k' {
            Some(sat_sub(scroll, 1))
        } else if c == 'j' {
            Some(sat_add(scroll, 1))
        } else if c == 'g' {
            Some(0)
        } else if c == 'G' {
            Some(lines)
        } else {
            Some(scroll)
        },
        _ => Some(scroll),
    }
}

fn add_sat(a: usize, b: usize) -> (r: usize)
    ensures
        r == sat_add(a, b),
{
    if a <= usize::MAX - b { a + b } else { usize::MAX }
}

fn sub_sat(a: usize, b: usize) -> (r: usize)
    ensures
        r == sat_sub(a, b),
{
    if a >= b { a - b } else { 0 }
}

/// Scroll the text viewer.
pub fn text_key(scroll: usize, lines: usize, step: usize, key: Key) -> (r: Option<usize>)
    ensures
        r == text_key_spec(scroll, lines, step, key),
{
    match key {
        Key::Esc => None,
        Key::Up => Some(sub_sat(scroll, 1)),
        Key::Down => Some(add_sat(scroll, 1)),
        Key::PageUp => Some(sub_sat(scroll, step)),
        Key::PageDown => Some(add_sat(scroll, step)),
        Key::Home => Some(0),
        Key::End => Some(lines),
        Key::Char(c) => if c == 'q' {
            None
        } else if c == 'k' {
            Some(sub_sat(scroll, 1))
        } else if c == 'j' {
            Some(add_sat(scroll, 1))
        } else if c == 'g' {
            Some(0)
        } else if c == 'G' {
            Some(lines)
        } else {
            Some(scroll)
        },
        _ => Some(scroll),
    }
}

/// The text viewer's title: the extension, the first line shown and the number of lines.
pub fn text_title(ext: &str, scroll: usize, lines: usize) -> (r: String)
    requires
        scroll < usize::MAX,
    ensures
        r@ == " ."@ + ext@ + "  "@ + decimal((scroll + 1) as nat) + "/"@ + decimal(lines as nat) + " "@,
{
    let mut r = String::new();
    push_str(&mut r, " .");
    push_str(&mut r, ext);
    push_str(&mut r, "  ");
    let a = decimal_string((scroll + 1) as u64);
    push_str(&mut r, a.as_str());
    push_str(&mut r, "/");
    let b = decimal_string(lines as u64);
    push_str(&mut r, b.as_str());
    push_str(&mut r, " ");
    r
}

/// The number of members of the ZIP archive `bytes`, or none when it cannot be read.
pub uninterp spec fn zip_count(bytes: Seq<u8>) -> Option<nat>;

/// Member `i` of the ZIP archive `bytes`: its name, whether it is a file,
/// and its decompressed contents; none when it cannot be read.
pub uninterp spec fn zip_member(bytes: Seq<u8>, i: int) -> Option<(Seq<char>, bool, Seq<u8>)>;

/// `zip::ZipArchive::new` on the bytes, then `len`: how many members the
/// archive lists. An error (its message unstated) when the archive cannot be read.
#[verifier::external_body]
fn zip_len(bytes: &[u8]) -> (r: Result<usize, String>)
    ensures
        match r {
            Ok(n) => zip_count(bytes@) == Some(n as nat),
            Err(_) => zip_count(bytes@) is None,
        },
{
    match zip::ZipArchive::new(std::io::Cursor::new(bytes)) {
        Ok(a) => Ok(a.len()),
        Err(e) => Err(e.to_string()),
    }
}

/// `zip::ZipArchive::by_index(i)` on the archive of the bytes, then the
/// member's `name`, `is_file`, and contents (`Read::read_to_end`). An error
/// (its message unstated) when the member cannot be read.
#[verifier::external_body]
fn zip_read_member(bytes: &[u8], i: usize) -> (r: Result<(String, bool, Vec<u8>), String>)
    ensures
        match r {
            Ok(m) => zip_member(bytes@, i as int) == Some((m.0@, m.1, m.2@)),
            Err(_) => zip_member(bytes@, i as int) is None,
        },
{
    let mut a = match zip::ZipArchive::new(std::io::Cursor::new(bytes)) {
        Ok(a) => a,
        Err(e) => return Err(e.to_string()),
    };
    let mut f = match a.by_index(i) {
        Ok(f) => f,
        Err(e) => return Err(e.to_string()),
    };
    let mut data = Vec::new();
    match std::io::Read::read_to_end(&mut f, &mut data) {
        Ok(_) => Ok((f.name().to_owned(), f.is_file(), data)),
        Err(e) => Err(e.to_string()),
    }
}

/// The image files among the first `n` members, in archive order, as sort
/// items: member number and name.
pub open spec fn zip_image_items(bytes: Seq<u8>, n: nat) -> Seq<(int, Seq<char>, u64, u8)>
    decreases n,
{
    if n == 0 {
        Seq::empty()
    } else {
        let r = zip_image_items(bytes, (n - 1) as nat);
        match zip_member(bytes, n - 1) {
            Some(m) => if m.1 && crate::filetype::image_ext(crate::text::ext_or_empty(crate::text::lower_seq(m.0))) {
                r.push(((n - 1) as int, m.0, 0u64, 0u8))
            } else {
                r
            },
            None => r,
        }
    }
}

/// The first `n` members can all be read.
pub open spec fn zip_readable(bytes: Seq<u8>, n: nat) -> bool {
    forall|i: int| 0 <= i < n ==> #[trigger] zip_member(bytes, i) is Some
}

/// The images of a ZIP archive, by name (equal names in archive order): each
/// name with its contents.
pub open spec fn zip_images(bytes: Seq<u8>, n: nat) -> Seq<(Seq<char>, Seq<u8>)> {
    sort_items(zip_image_items(bytes, n), SortKey::Name, SortDir::Asc).map_values(
        |it: (int, Seq<char>, u64, u8)| (it.1, zip_member(bytes, it.0).unwrap().2))
}

proof fn lemma_zip_items(bytes: Seq<u8>, n: nat)
    ensures
        forall|j: int| 0 <= j < zip_image_items(bytes, n).len() ==> {
            let it = #[trigger] zip_image_items(bytes, n)[j];
            &&& 0 <= it.0 < n
            &&& zip_member(bytes, it.0) is Some
            &&& it.1 == zip_member(bytes, it.0).unwrap().0
        },
    decreases n,
{
    if n > 0 {
        lemma_zip_items(bytes, (n - 1) as nat);
        let r = zip_image_items(bytes, (n - 1) as nat);
        assert forall|j: int| 0 <= j < zip_image_items(bytes, n).len() implies {
            let it = #[trigger] zip_image_items(bytes, n)[j];
            &&& 0 <= it.0 < n
            &&& zip_member(bytes, it.0) is Some
            &&& it.1 == zip_member(bytes, it.0).unwrap().0
        } by {
            if j < r.len() {
                assert(zip_image_items(bytes, n)[j] == r[j]);
            }
        }
    }
}

/// The image files of the ZIP archive `bytes` (by extension, ASCII case
/// ignored), sorted by name, with their contents; an error when the archive
/// or one of its members cannot be read.
pub fn extract_images(bytes: &[u8]) -> (r: Result<Vec<(String, Vec<u8>)>, String>)
    ensures
        match r {
            Ok(v) => zip_count(bytes@) matches Some(n) && zip_readable(bytes@, n)
                && v@.len() == zip_images(bytes@, n).len()
                && forall|k: int| 0 <= k < v@.len() ==> ((#[trigger] v@[k]).0@, v@[k].1@) == zip_images(bytes@, n)[k],
            Err(_) => zip_count(bytes@) is None || (zip_count(bytes@) matches Some(n) && !zip_readable(bytes@, n)),
        },
{
    let n = zip_len(bytes)?;
    let mut members: Vec<(String, Vec<u8>)> = Vec::new();
    let mut items: Vec<SortItem> = Vec::new();
    let mut i: usize = 0;
    while i < n
        invariant
            zip_count(bytes@) == Some(n as nat),
            i <= n,
            zip_readable(bytes@, i as nat),
            members@.len() == i,
            forall|j: int| 0 <= j < i ==> (zip_member(bytes@, j) matches Some(m)
                && (#[trigger] members@[j]).0@ == m.0 && members@[j].1@ == m.2),
            items_view(items@) == zip_image_items(bytes@, i as nat),
        decreases n - i,
    {
        let m = match zip_read_member(bytes, i) {
            Ok(m) => m,
            Err(e) => {
                return Err(e);
            },
        };
        let (name, is_file, data) = m;
        if is_file && is_image_entry(name.as_str()) {
            let ghost before = items@;
            items.push(SortItem { pos: i, name: name.clone(), size: 0, cat: 0 });
            assert(items_view(items@) =~= items_view(before).push(crate::sorting::item_view(items@[items@.len() - 1])));
        }
        members.push((name, data));
        i = i + 1;
    }
    let sorted = sort_by_key(items, SortKey::Name, SortDir::Asc);
    let ghost s = items_view(sorted@);
    proof {
        let src = zip_image_items(bytes@, n as nat);
        lemma_sort_items_sorted(src, SortKey::Name, SortDir::Asc);
        lemma_zip_items(bytes@, n as nat);
        assert forall|j: int| 0 <= j < s.len() implies {
            let it = #[trigger] s[j];
            &&& 0 <= it.0 < n
            &&& zip_member(bytes@, it.0) is Some
            &&& it.1 == zip_member(bytes@, it.0).unwrap().0
        } by {
            broadcast use vstd::seq_lib::group_to_multiset_ensures;
            assert(s.contains(s[j]));
            assert(s.to_multiset().count(s[j]) > 0);
            assert(src.contains(s[j]));
        }
    }
    let mut out: Vec<(String, Vec<u8>)> = Vec::new();
    let mut k: usize = 0;
    while k < sorted.len()
        invariant
            s == items_view(sorted@),
            s == sort_items(zip_image_items(bytes@, n as nat), SortKey::Name, SortDir::Asc),
            members@.len() == n,
            forall|j: int| 0 <= j < n ==> (zip_member(bytes@, j) matches Some(m)
                && (#[trigger] members@[j]).0@ == m.0 && members@[j].1@ == m.2),
            forall|j: int| 0 <= j < s.len() ==> {
                let it = #[trigger] s[j];
                &&& 0 <= it.0 < n
                &&& zip_member(bytes@, it.0) is Some
                &&& it.1 == zip_member(bytes@, it.0).unwrap().0
            },
            k <= sorted@.len(),
            out@.len() == k,
            forall|j: int| 0 <= j < k ==> ((#[trigger] out@[j]).0@, out@[j].1@) == zip_images(bytes@, n as nat)[j],
        decreases sorted@.len() - k,
    {
        let pos = sorted[k].pos;
        assert(s[k as int].0 == pos);
        let ghost it = s[k as int];
        let name = members[pos].0.clone();
        let data = members[pos].1.clone();
        assert(zip_images(bytes@, n as nat)[k as int] == (it.1, zip_member(bytes@, it.0).unwrap().2));
        out.push((name, data));
        k = k + 1;
    }
    Ok(out)
}

/// How showing a gallery went.
pub enum GalleryOutcome {
    /// This many images were shown in the terminal.
    Shown(usize),
    /// The archive was opened in the system viewer.
    XdgOpened,
    /// There was no image to show.
    NoImages,
}

/// The status line after a vault file was shown: a failure, or nothing.
pub open spec fn preview_status(result: PreviewResult) -> Option<Seq<char>> {
    match result {
        PreviewResult::NotSupported => Some("Unsupported file type — no previewer available"@),
        PreviewResult::MpvNotInstalled => Some("Install mpv to preview media files"@),
        PreviewResult::RenderFailed(e) => Some("Preview failed: "@ + e@),
        PreviewResult::WrongPassword => Some("Decryption error (wrong key?)"@),
        PreviewResult::IoError(e) => Some("I/O error: "@ + e@),
        _ => None,
    }
}

/// The status line after a vault gallery was shown (or failed with a message).
pub open spec fn gallery_status(outcome: Result<GalleryOutcome, String>) -> Option<Seq<char>> {
    match outcome {
        Ok(GalleryOutcome::Shown(n)) => Some(count_text("Gallery: "@, n as nat, " image(s) shown"@)),
        Ok(GalleryOutcome::NoImages) => Some("No images to display"@),
        Ok(GalleryOutcome::XdgOpened) => None,
        Err(e) => Some("Gallery error: "@ + e@),
    }
}

fn preview_status_text(result: &PreviewResult) -> (r: Option<String>)
    ensures
        match r {
            Some(t) => preview_status(*result) == Some(t@),
            None => preview_status(*result) is None,
        },
{
    match result {
        PreviewResult::NotSupported => Some("Unsupported file type — no previewer available".to_owned()),
        PreviewResult::MpvNotInstalled => Some("Install mpv to preview media files".to_owned()),
        PreviewResult::RenderFailed(e) => Some(concat("Preview failed: ", e.as_str())),
        PreviewResult::WrongPassword => Some("Decryption error (wrong key?)".to_owned()),
        PreviewResult::IoError(e) => Some(concat("I/O error: ", e.as_str())),
        _ => None,
    }
}

fn gallery_status_text(outcome: &Result<GalleryOutcome, String>) -> (r: Option<String>)
    ensures
        match r {
            Some(t) => gallery_status(*outcome) == Some(t@),
            None => gallery_status(*outcome) is None,
        },
{
    match outcome {
        Ok(GalleryOutcome::Shown(n)) => Some(count_message("Gallery: ", *n, " image(s) shown")),
        Ok(GalleryOutcome::NoImages) => Some("No images to display".to_owned()),
        Ok(GalleryOutcome::XdgOpened) => None,
        Err(e) => Some(concat("Gallery error: ", e.as_str())),
    }
}

impl VaultState {
    /// Take the decrypted file out to be shown: the page is back to browsing.
    pub fn take_preview(&mut self) -> (r: Option<(Vec<u8>, String)>)
        requires
            old(self).wf(),
        ensures
            final(self).wf(),
            final(self).browse == old(self).browse,
            final(self).pending_export_uuids == old(self).pending_export_uuids,
            old(self).phase matches Phase::PreviewReady { bytes, ext } ==> (r matches Some(p)
                && p.0@ == bytes@ && p.1@ == ext@ && final(self).phase == Phase::Browse),
            !(old(self).phase is PreviewReady) ==> r is None && final(self).phase == old(self).phase,
    {
        if !matches!(self.phase, Phase::PreviewReady { .. }) {
            return None;
        }
        let mut phase = Phase::Browse;
        std::mem::swap(&mut phase, &mut self.phase);
        match phase {
            Phase::PreviewReady { bytes, ext } => Some((bytes, ext)),
            _ => None,
        }
    }

    /// A vault file was shown with `result` at time `now`: a failure goes to
    /// the status line.
    pub fn preview_shown(&mut self, result: &PreviewResult, now: u64)
        requires
            old(self).wf(),
        ensures
            final(self).wf(),
            final(self).phase == old(self).phase,
            final(self).pending_export_uuids == old(self).pending_export_uuids,
            preview_status(*result) is None || old(self).browse is None ==> final(self).browse == old(self).browse,
            preview_status(*result) matches Some(t) ==> (old(self).browse matches Some(b) ==>
                final(self).browse matches Some(b2)
                    && b2 == (BrowseState { status_msg: b2.status_msg, status_msg_at: Some(now), ..b })
                    && (b2.status_msg matches Some(m) && m@ == t)),
    {
        if let Some(t) = preview_status_text(result) {
            if let Some(b) = &mut self.browse {
                b.set_status(t, now);
            }
        }
    }

    /// Take the decrypted images out to be shown: the page is back to browsing.
    pub fn take_gallery(&mut self) -> (r: Option<Vec<(String, Vec<u8>)>>)
        requires
            old(self).wf(),
        ensures
            final(self).wf(),
            final(self).browse == old(self).browse,
            final(self).pending_export_uuids == old(self).pending_export_uuids,
            old(self).phase matches Phase::GalleryReady { images } ==> (r == Some(images) && final(self).phase == Phase::Browse),
            !(old(self).phase is GalleryReady) ==> r is None && final(self).phase == old(self).phase,
    {
        if !matches!(self.phase, Phase::GalleryReady { .. }) {
            return None;
        }
        let mut phase = Phase::Browse;
        std::mem::swap(&mut phase, &mut self.phase);
        match phase {
            Phase::GalleryReady { images } => Some(images),
            _ => None,
        }
    }

    /// A gallery was shown with `outcome` at time `now`: the status line says how it went.
    pub fn gallery_shown(&mut self, outcome: &Result<GalleryOutcome, String>, now: u64)
        requires
            old(self).wf(),
        ensures
            final(self).wf(),
            final(self).phase == old(self).phase,
            final(self).pending_export_uuids == old(self).pending_export_uuids,
            gallery_status(*outcome) is None || old(self).browse is None ==> final(self).browse == old(self).browse,
            gallery_status(*outcome) matches Some(t) ==> (old(self).browse matches Some(b) ==>
                final(self).browse matches Some(b2)
                    && b2 == (BrowseState { status_msg: b2.status_msg, status_msg_at: Some(now), ..b })
                    && (b2.status_msg matches Some(m) && m@ == t)),
    {
        if let Some(t) = gallery_status_text(outcome) {
            if let Some(b) = &mut self.browse {
                b.set_status(t, now);
            }
        }
    }
}

impl PreviewState {
    /// Take the decrypted file out to be shown.
    pub fn take_render(&mut self) -> (r: Option<(Vec<u8>, String)>)
        ensures
            final(self).path == old(self).path,
            final(self).password == old(self).password,
            final(self).focus == old(self).focus,
            final(self).path_edit_mode == old(self).path_edit_mode,
            old(self).phase matches PreviewPhase::PendingRender { bytes, ext } ==> (r matches Some(p)
                && p.0@ == bytes@ && p.1@ == ext@ && final(self).phase is Idle),
            !(old(self).phase is PendingRender) ==> r is None && final(self).phase == old(self).phase,
    {
        if !matches!(self.phase, PreviewPhase::PendingRender { .. }) {
            return None;
        }
        let mut phase = PreviewPhase::Idle;
        std::mem::swap(&mut phase, &mut self.phase);
        match phase {
            PreviewPhase::PendingRender { bytes, ext } => Some((bytes, ext)),
            _ => None,
        }
    }

    /// The file was shown with `result`: the page shows the outcome and its
    /// form is emptied.
    pub fn rendered(&mut self, result: PreviewResult)
        ensures
            final(self).phase == PreviewPhase::Done(result),
            final(self).path@.len() == 0,
            final(self).password@.len() == 0,
            final(self).focus == 0,
            final(self).path_edit_mode == old(self).path_edit_mode,
    {
        self.phase = PreviewPhase::Done(result);
        self.path = String::new();
        self.password = String::new();
        self.focus = 0;
    }
}

/// Bytes of RGBA data per Kitty graphics packet.
pub const KITTY_CHUNK: usize = 3072;

/// The terminal draws images itself (Kitty's graphics protocol): `TERM` is
/// `xterm-kitty`, or `TERM_PROGRAM` (ASCII case ignored) is `kitty` or `wezterm`.
pub open spec fn kitty_terminal_spec(term: Seq<char>, program: Seq<char>) -> bool {
    term == "xterm-kitty"@ || crate::text::lower_seq(program) == "kitty"@ || crate::text::lower_seq(program) == "wezterm"@
}

/// Whether the terminal named by `TERM` and `TERM_PROGRAM` speaks Kitty's graphics protocol.
pub fn is_kitty_terminal(term: &str, program: &str) -> (r: bool)
    ensures
        r == kitty_terminal_spec(term@, program@),
{
    let p = crate::text::to_ascii_lowercase(program);
    str_eq(term, "xterm-kitty") || str_eq(p.as_str(), "kitty") || str_eq(p.as_str(), "wezterm")
}

/// One Kitty graphics packet: its parameters and its base64 payload, in an APC sequence.
pub open spec fn kitty_packet(params: Seq<char>, payload: Seq<char>) -> Seq<char> {
    "\x1b_G"@ + params + ";"@ + payload + "\x1b\\"@
}

/// The first packet's parameters: transmit and show 32-bit RGBA of this size;
/// whether more packets follow.
pub open spec fn kitty_head(width: u32, height: u32, more: bool) -> Seq<char> {
    "a=T,f=32,s="@ + decimal(width as nat) + ",v="@ + decimal(height as nat) + ",m="@ + (if more { "1"@ } else { "0"@ })
}

/// How many packets `len` bytes take.
pub open spec fn kitty_count(len: nat) -> nat {
    ((len + KITTY_CHUNK - 1) / (KITTY_CHUNK as int)) as nat
}

/// Packet `i` of the RGBA data.
pub open spec fn kitty_packet_at(rgba: Seq<u8>, width: u32, height: u32, i: int) -> Seq<char> {
    let n = kitty_count(rgba.len());
    let start = i * KITTY_CHUNK;
    let end = if start + KITTY_CHUNK < rgba.len() { start + KITTY_CHUNK } else { rgba.len() as int };
    let more = i + 1 < n;
    let params = if i == 0 { kitty_head(width, height, more) } else { "m="@ + (if more { "1"@ } else { "0"@ }) };
    kitty_packet(params, crate::primitives::base64_encode_spec(rgba.subrange(start, end)))
}

/// The first `i` packets, in order.
pub open spec fn kitty_prefix(rgba: Seq<u8>, width: u32, height: u32, i: nat) -> Seq<char>
    decreases i,
{
    if i == 0 {
        Seq::empty()
    } else {
        kitty_prefix(rgba, width, height, (i - 1) as nat) + kitty_packet_at(rgba, width, height, i - 1)
    }
}

/// The escape sequence that shows an RGBA image of `width` by `height` with
/// Kitty's graphics protocol: the data in packets of `KITTY_CHUNK` bytes, each
/// base64-encoded; the first carries the format and size, each says whether
/// more follow. No data gives one empty packet.
pub open spec fn kitty_sequence_spec(rgba: Seq<u8>, width: u32, height: u32) -> Seq<char> {
    if rgba.len() == 0 {
        kitty_packet(kitty_head(width, height, false), Seq::empty())
    } else {
        kitty_prefix(rgba, width, height, kitty_count(rgba.len()))
    }
}

fn push_more(r: &mut String, more: bool)
    ensures
        final(r)@ == old(r)@ + (if more { "1"@ } else { "0"@ }),
{
    push_str(r, if more { "1" } else { "0" });
}

/// Packet `i` of the `n` packets of the RGBA data.
fn kitty_packet_text(rgba: &[u8], width: u32, height: u32, i: usize, n: usize) -> (r: String)
    requires
        n == kitty_count(rgba@.len()),
        i < n,
    ensures
        r@ == kitty_packet_at(rgba@, width, height, i as int),
{
    let len = rgba.len();
    assert(i * KITTY_CHUNK < len) by (nonlinear_arith)
        requires
            i < n,
            n == (len + 3071) / 3072,
            KITTY_CHUNK == 3072,
    ;
    let start = i * KITTY_CHUNK;
    let end = if len - start > KITTY_CHUNK { start + KITTY_CHUNK } else { len };
    let more = i + 1 < n;
    let chunk = vstd::slice::slice_subrange(rgba, start, end);
    let payload = crate::primitives::base64_encode(chunk);
    let mut params = String::new();
    if i == 0 {
        push_str(&mut params, "a=T,f=32,s=");
        push_str(&mut params, decimal_string(width as u64).as_str());
        push_str(&mut params, ",v=");
        push_str(&mut params, decimal_string(height as u64).as_str());
        push_str(&mut params, ",m=");
        push_more(&mut params, more);
    } else {
        push_str(&mut params, "m=");
        push_more(&mut params, more);
    }
    let mut r = String::new();
    push_str(&mut r, "\x1b_G");
    push_str(&mut r, params.as_str());
    push_str(&mut r, ";");
    push_str(&mut r, payload.as_str());
    push_str(&mut r, "\x1b\\");
    r
}

/// The Kitty escape sequence for an RGBA image.
pub fn kitty_sequence(rgba: &[u8], width: u32, height: u32) -> (r: String)
    ensures
        r@ == kitty_sequence_spec(rgba@, width, height),
{
    let len = rgba.len();
    let mut r = String::new();
    if len == 0 {
        push_str(&mut r, "\x1b_G");
        push_str(&mut r, "a=T,f=32,s=");
        push_str(&mut r, decimal_string(width as u64).as_str());
        push_str(&mut r, ",v=");
        push_str(&mut r, decimal_string(height as u64).as_str());
        push_str(&mut r, ",m=");
        push_more(&mut r, false);
        push_str(&mut r, ";");
        push_str(&mut r, "\x1b\\");
        proof {
            reveal_strlit("");
        }
        return r;
    }
    let n: usize = len / KITTY_CHUNK + if len % KITTY_CHUNK == 0 { 0 } else { 1 };
    assert(n == kitty_count(len as nat)) by (nonlinear_arith)
        requires
            n == len / 3072 + if len % 3072 == 0 { 0int } else { 1int },
            KITTY_CHUNK == 3072,
    ;
    let mut i: usize = 0;
    while i < n
        invariant
            n == kitty_count(rgba@.len()),
            len == rgba@.len(),
            len > 0,
            i <= n,
            r@ == kitty_prefix(rgba@, width, height, i as nat),
        decreases n - i,
    {
        let p = kitty_packet_text(rgba, width, height, i, n);
        push_str(&mut r, p.as_str());
        i = i + 1;
    }
    r
}

/// What a preview from the command line prints to the error stream, and its
/// exit code: 1 for a wrong password, 2 for other failures, 0 otherwise (an
/// unsupported type is said so).
pub open spec fn preview_exit_spec(result: PreviewResult, ext: Seq<char>) -> (Option<Seq<char>>, i32) {
    match result {
        PreviewResult::NotSupported => (Some(if ext.len() == 0 {
            "No previewer for files with no extension"@
        } else {
            "No previewer for ."@ + ext + " files"@
        }), 0),
        PreviewResult::WrongPassword => (Some("error: wrong password or corrupted file"@), 1),
        PreviewResult::IoError(m) => (Some("error: "@ + m@), 2),
        PreviewResult::MpvNotInstalled => (Some("error: mpv is not installed; install it to preview media files"@), 2),
        PreviewResult::RenderFailed(m) => (Some("error: preview failed: "@ + m@), 2),
        _ => (None, 0),
    }
}

/// The message and exit code of a preview from the command line.
pub fn preview_exit(result: &PreviewResult, ext: &str) -> (r: (Option<String>, i32))
    ensures
        r.1 == preview_exit_spec(*result, ext@).1,
        match r.0 {
            Some(t) => preview_exit_spec(*result, ext@).0 == Some(t@),
            None => preview_exit_spec(*result, ext@).0 is None,
        },
{
    match result {
        PreviewResult::NotSupported => {
            if ext.unicode_len() == 0 {
                (Some("No previewer for files with no extension".to_owned()), 0)
            } else {
                let mut t = "No previewer for .".to_owned();
                push_str(&mut t, ext);
                push_str(&mut t, " files");
                (Some(t), 0)
            }
        },
        PreviewResult::WrongPassword => (Some("error: wrong password or corrupted file".to_owned()), 1),
        PreviewResult::IoError(m) => (Some(concat("error: ", m.as_str())), 2),
        PreviewResult::MpvNotInstalled => (Some("error: mpv is not installed; install it to preview media files".to_owned()), 2),
        PreviewResult::RenderFailed(m) => (Some(concat("error: preview failed: ", m.as_str())), 2),
        _ => (None, 0),
    }
}

} // verus!
