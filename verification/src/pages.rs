//! The small pages of the interface: the main menu, the encrypt/decrypt page,
//! the preview page, and the choice of an image decoder by extension.

use vstd::prelude::*;
use vstd::string::*;

use crate::text::{ends_with, lower_extension, from_chars, seq_ends_with, str_eq};
use crate::text;
use crate::vault_state::{trim, trim_spaces, is_space, char_is_space};
use crate::fmt::concat;
use crate::keys::{Key, FormStep, form_step, decide_form_step};
use crate::text::{push_char, pop_char, drop_last_or_empty};

use image::ImageFormat;

verus! {

/// The entries of the main menu.
#[derive(Clone, Copy, Debug, PartialEq, Eq, Structural)]
pub enum MenuItem {
    EncryptDecrypt,
    Preview,
    Vault,
}

impl MenuItem {
    /// The text shown for this entry.
    pub fn label(self) -> (r: &'static str)
        ensures
            r@ == (match self {
                MenuItem::EncryptDecrypt => "Encrypt / Decrypt"@,
                MenuItem::Preview => "Preview"@,
                MenuItem::Vault => "Vault"@,
            }),
    {
        match self {
            MenuItem::EncryptDecrypt => "Encrypt / Decrypt",
            MenuItem::Preview => "Preview",
            MenuItem::Vault => "Vault",
        }
    }
}

/// Percentage of `total` that `done` is, at most 100 (`total` is at least 1).
pub open spec fn percent_spec(done: u64, total: u64) -> u8 {
    let p = (done * 100) / (if total == 0 { 1 } else { total } as int);
    if p > 100 { 100u8 } else { p as u8 }
}

/// Progress in percent of `done` bytes out of `total` (0 counts as 1).
pub fn percent(done: u64, total: u64) -> (r: u8)
    requires
        done <= u64::MAX / 100,
    ensures
        r == percent_spec(done, total),
{
    let t: u64 = if total == 0 { 1 } else { total };
    let p = (done * 100) / t;
    if p > 100 { 100 } else { p as u8 }
}

/// Where an encrypt/decrypt operation stands.
pub enum OpStatus {
    Idle,
    /// Running, with the percentage done.
    Running(u8),
    Success(String),
    Failure(String),
}

/// Messages of the encrypt/decrypt work.
pub enum EncDecMsg {
    Progress(u8),
    Done(OpStatus),
}

/// The page's outcome for an operation into `out`: saved, wrong password, or the error.
pub fn enc_dec_outcome(out: &str, outcome: Result<bool, String>) -> (r: OpStatus)
    ensures
        match outcome {
            Ok(true) => r matches OpStatus::Success(m) && m@ == "Saved → "@ + out@,
            Ok(false) => r matches OpStatus::Failure(m) && m@ == "Decryption failed — wrong password or corrupted file."@,
            Err(e) => r matches OpStatus::Failure(m) && m@ == "Error: "@ + e@,
        },
{
    match outcome {
        Ok(true) => OpStatus::Success(concat("Saved → ", out)),
        Ok(false) => OpStatus::Failure("Decryption failed — wrong password or corrupted file.".to_owned()),
        Err(e) => OpStatus::Failure(concat("Error: ", e.as_str())),
    }
}

/// Encrypt or decrypt the file `path` into `out`.
pub struct EncDecJob {
    pub path: String,
    pub password: String,
    pub decrypt: bool,
    /// `path` without `.lock` when decrypting, `path.lock` when encrypting.
    pub out: String,
}

/// The encrypt/decrypt page: file path (focus 0) and password (focus 1).
pub struct EncDecState {
    pub path: String,
    pub password: String,
    pub focus: usize,
    /// The path field takes typed text.
    pub path_edit_mode: bool,
    pub status: OpStatus,
}

/// `s` with trailing white space removed ends with `.lock`.
pub open spec fn names_lock_file(s: Seq<char>) -> bool {
    exists|b: int| 0 <= b <= s.len()
        && (forall|i: int| b <= i < s.len() ==> is_space(#[trigger] s[i]))
        && (b > 0 ==> !is_space(s[b - 1]))
        && seq_ends_with(s.subrange(0, b), ".lock"@)
}

/// Whether the path, trailing white space ignored, ends with `.lock`.
pub fn is_lock_path(path: &str) -> (r: bool)
    ensures
        r == names_lock_file(path@),
{
    let v = text::to_chars(path);
    let mut b: usize = v.len();
    while b > 0 && char_is_space(v[b - 1])
        invariant
            b <= v@.len(),
            v@ == path@,
            forall|i: int| b <= i < v@.len() ==> is_space(#[trigger] v@[i]),
        decreases b,
    {
        b = b - 1;
    }
    let t = text::copy_range(v.as_slice(), 0, b);
    let s = from_chars(t.as_slice());
    let r = ends_with(s.as_str(), ".lock");
    proof {
        if r {
            assert(names_lock_file(path@));
        } else if names_lock_file(path@) {
            let b2 = choose|b2: int| 0 <= b2 <= path@.len()
                && (forall|i: int| b2 <= i < path@.len() ==> is_space(#[trigger] path@[i]))
                && (b2 > 0 ==> !is_space(path@[b2 - 1]))
                && seq_ends_with(path@.subrange(0, b2), ".lock"@);
            assert(b2 == b) by {
                if b2 < b {
                    assert(is_space(path@[b - 1]) || b == 0);
                }
                if b2 > b {
                    assert(is_space(path@[b2 - 1]));
                }
            }
        }
    }
    r
}

/// The fields of a form page after the editing `step`: path, password,
/// focus and path editing go from the first four values to the last four.
pub open spec fn form_after(step: FormStep, path: Seq<char>, pw: Seq<char>, focus: usize, edit: bool,
    path2: Seq<char>, pw2: Seq<char>, focus2: usize, edit2: bool) -> bool {
    match step {
        FormStep::EditMode(on) => path2 == path && pw2 == pw && focus2 == focus && edit2 == on,
        FormStep::LeaveEditAndAdvance => path2 == path && pw2 == pw && focus2 == (focus + 1) % 2 && !edit2,
        FormStep::Advance => path2 == path && pw2 == pw && focus2 == (focus + 1) % 2 && edit2 == edit,
        FormStep::TypePath(c) => path2 == path.push(c) && pw2 == pw && focus2 == focus && edit2 == edit,
        FormStep::ErasePath => path2 == drop_last_or_empty(path) && pw2 == pw && focus2 == focus && edit2 == edit,
        FormStep::TypePassword(c) => path2 == path && pw2 == pw.push(c) && focus2 == focus && edit2 == edit,
        FormStep::ErasePassword => path2 == path && pw2 == drop_last_or_empty(pw) && focus2 == focus && edit2 == edit,
        _ => path2 == path && pw2 == pw && focus2 == focus && edit2 == edit,
    }
}

/// The steps a form page leaves to its caller: leaving, picking, starting, or nothing.
pub open spec fn is_caller_step(step: FormStep) -> bool {
    step is Nothing || step is ToMenu || step is Pick || step is Start
}

/// The steps that change the path, which clears the outcome shown.
pub open spec fn edits_path(step: FormStep) -> bool {
    step is TypePath || step is ErasePath
}

impl EncDecState {

    /// An empty page.
    pub fn new() -> (s: EncDecState)
        ensures
            s.path@.len() == 0,
            s.password@.len() == 0,
            s.focus == 0,
            !s.path_edit_mode,
            s.status is Idle,
    {
        EncDecState { path: String::new(), password: String::new(), focus: 0, path_edit_mode: false, status: OpStatus::Idle }
    }

    /// A file was picked: it fills the path, the outcome shown is cleared, and
    /// the focus moves to the password.
    pub fn path_chosen(&mut self, path: String)
        ensures
            final(self).path == path,
            final(self).status is Idle,
            final(self).focus == 1,
            final(self).password == old(self).password,
            final(self).path_edit_mode == old(self).path_edit_mode,
    {
        self.path = path;
        self.status = OpStatus::Idle;
        self.focus = 1;
    }

    /// The chosen file is a `.lock` file, so the operation decrypts.
    pub fn is_decrypt(&self) -> (r: bool)
        ensures
            r == names_lock_file(self.path@),
    {
        is_lock_path(self.path.as_str())
    }

    /// Move the focus between the two fields.
    pub fn advance_focus(&mut self)
        ensures
            final(self).focus == (old(self).focus + 1) % 2,
            final(self).path == old(self).path,
            final(self).password == old(self).password,
            final(self).path_edit_mode == old(self).path_edit_mode,
            final(self).status == old(self).status,
    {
        let f = self.focus;
        self.focus = (f % 2 + 1) % 2;
        assert((f % 2 + 1) % 2 == (f + 1) % 2) by (nonlinear_arith);
    }

    /// Take a message of the work: progress, or the outcome, which also clears the form.
    pub fn on_msg(&mut self, msg: EncDecMsg) -> (finished: bool)
        ensures
            final(self).path_edit_mode == old(self).path_edit_mode,
            match msg {
                EncDecMsg::Progress(p) => !finished && final(self).status == OpStatus::Running(p)
                    && final(self).path == old(self).path && final(self).password == old(self).password
                    && final(self).focus == old(self).focus,
                EncDecMsg::Done(st) => finished && final(self).status == st
                    && final(self).path@.len() == 0 && final(self).password@.len() == 0 && final(self).focus == 0,
            },
    {
        match msg {
            EncDecMsg::Progress(p) => {
                self.status = OpStatus::Running(p);
                false
            },
            EncDecMsg::Done(st) => {
                self.status = st;
                self.path = String::new();
                self.password = String::new();
                self.focus = 0;
                true
            },
        }
    }

    /// Check the form and start the operation: an empty path or password is a
    /// failure shown on the page; otherwise the work to do, running at 0 %.
    pub fn start(&mut self) -> (r: Option<EncDecJob>)
        ensures
            final(self).path_edit_mode == old(self).path_edit_mode,
            final(self).path == old(self).path,
            final(self).password == old(self).password,
            final(self).focus == old(self).focus,
            exists|a: int, z: int| {
                let p = #[trigger] old(self).path@.subrange(a, z);
                &&& trim_spaces(old(self).path@, a, z)
                &&& p.len() == 0 ==> r is None
                    && (final(self).status matches OpStatus::Failure(m) && m@ == "File path cannot be empty."@)
                &&& (p.len() > 0 && old(self).password@.len() == 0) ==> r is None
                    && (final(self).status matches OpStatus::Failure(m) && m@ == "Password cannot be empty."@)
                &&& (p.len() > 0 && old(self).password@.len() > 0) ==> (r matches Some(job)
                    && job.path@ == p && job.password == old(self).password
                    && job.decrypt == names_lock_file(old(self).path@)
                    && (job.decrypt ==> job.out@ == p.subrange(0, p.len() - 5))
                    && (!job.decrypt ==> job.out@ == p + ".lock"@)
                    && final(self).status == OpStatus::Running(0))
            },
    {
        let path = trim(self.path.as_str());
        let password = self.password.clone();
        if path.unicode_len() == 0 {
            self.status = OpStatus::Failure("File path cannot be empty.".to_owned());
            return None;
        }
        if password.unicode_len() == 0 {
            self.status = OpStatus::Failure("Password cannot be empty.".to_owned());
            return None;
        }
        let decrypt = self.is_decrypt();
        let out: String = if decrypt {
            // The trimmed path ends with `.lock` too.
            proof {
                let a = choose|a: int, z: int| trim_spaces(self.path@, a, z) && path@ == self.path@.subrange(a, z);
                lemma_trim_end_lock(self.path@, a.0, a.1);
            }
            let v = text::to_chars(path.as_str());
            let c = text::copy_range(v.as_slice(), 0, v.len() - 5);
            from_chars(c.as_slice())
        } else {
            concat(path.as_str(), ".lock")
        };
        self.status = OpStatus::Running(0);
        Some(EncDecJob { path, password, decrypt, out })
    }
}

/// When a path names a `.lock` file, so does its trimmed form.
proof fn lemma_trim_end_lock(s: Seq<char>, a: int, z: int)
    requires
        trim_spaces(s, a, z),
        names_lock_file(s),
        a < z,
    ensures
        seq_ends_with(s.subrange(a, z), ".lock"@),
        z - a >= 5,
{
    reveal_strlit(".lock");
    let b = choose|b: int| 0 <= b <= s.len()
        && (forall|i: int| b <= i < s.len() ==> is_space(#[trigger] s[i]))
        && (b > 0 ==> !is_space(s[b - 1]))
        && seq_ends_with(s.subrange(0, b), ".lock"@);
    assert(b == z) by {
        if b < z {
            assert(is_space(s[z - 1]));
        }
        if b > z {
            assert(is_space(s[b - 1]));
        }
    }
    assert(".lock"@ =~= seq!['.', 'l', 'o', 'c', 'k']);
    let t = s.subrange(0, b);
    assert(b >= 5);
    assert(t.subrange(b - 5, b as int) == ".lock"@);
    assert(t.subrange(b - 5, b as int)[4] == t[b - 1]);
    assert(t.subrange(b - 5, b as int)[0] == t[b - 5]);
    assert(!is_space(s[b - 1])) by {
        assert(t[b - 1] == 'k');
    }
    assert(a <= b - 5) by {
        if a > b - 5 {
            let j = b - 5;
            assert(t[j] == '.');
            assert(j < a ==> is_space(s[j]));
        }
    }
    assert(s.subrange(a, z).subrange(z - a - 5, z - a) =~= s.subrange(0, b).subrange(b - 5, b));
}


/// What a preview ended with.
pub enum PreviewResult {
    /// No previewer for this kind of file.
    NotSupported,
    WrongPassword,
    IoError(String),
    /// An image shown in the terminal.
    KittyShown,
    /// An image opened in the system viewer.
    XdgOpened,
    RenderFailed(String),
    /// A media file played.
    MpvOpened,
    /// The media player is not installed.
    MpvNotInstalled,
    /// A gallery of this many images shown in the terminal.
    GalleryShown(usize),
    /// A gallery opened in the system viewer.
    GalleryXdgOpened,
    /// A text shown, with its number of lines (0 when an outside viewer showed it).
    TextShown(usize),
}

/// Where the preview page stands.
pub enum PreviewPhase {
    Idle,
    /// Decrypting, with the percentage done.
    Decrypting(u8),
    /// The decrypted bytes and lower-cased extension, ready to be shown.
    PendingRender { bytes: Vec<u8>, ext: String },
    Done(PreviewResult),
}

/// Messages of the preview work.
pub enum PreviewMsg {
    Progress(u8),
    DecryptedBytes(Vec<u8>, String),
    WrongPassword,
    IoError(String),
}

/// Decrypt the `.lock` file `path`; `ext` is the lower-cased extension of the
/// file it holds.
pub struct PreviewJob {
    pub path: String,
    pub password: String,
    pub ext: String,
}

/// The preview page: file path (focus 0) and password (focus 1).
pub struct PreviewState {
    pub path: String,
    pub password: String,
    pub focus: usize,
    /// The path field takes typed text.
    pub path_edit_mode: bool,
    pub phase: PreviewPhase,
}

impl PreviewState {

    /// An empty page.
    pub fn new() -> (s: PreviewState)
        ensures
            s.path@.len() == 0,
            s.password@.len() == 0,
            s.focus == 0,
            !s.path_edit_mode,
            s.phase is Idle,
    {
        PreviewState { path: String::new(), password: String::new(), focus: 0, path_edit_mode: false, phase: PreviewPhase::Idle }
    }

    /// Move the focus between the two fields.
    pub fn advance_focus(&mut self)
        ensures
            final(self).focus == (old(self).focus + 1) % 2,
            final(self).path == old(self).path,
            final(self).password == old(self).password,
            final(self).path_edit_mode == old(self).path_edit_mode,
            final(self).phase == old(self).phase,
    {
        let f = self.focus;
        self.focus = (f % 2 + 1) % 2;
        assert((f % 2 + 1) % 2 == (f + 1) % 2) by (nonlinear_arith);
    }

    /// A file was picked: it fills the path and the focus moves to the password.
    pub fn path_chosen(&mut self, path: String)
        ensures
            final(self).path == path,
            final(self).focus == 1,
            final(self).password == old(self).password,
            final(self).path_edit_mode == old(self).path_edit_mode,
            final(self).phase == old(self).phase,
    {
        self.path = path;
        self.focus = 1;
    }

    /// Move the focus back between the two fields.
    pub fn retreat_focus(&mut self)
        ensures
            final(self).focus == (old(self).focus + 1) % 2,
            final(self).path == old(self).path,
            final(self).password == old(self).password,
    {
        self.advance_focus();
    }

    /// Take a message of the decrypt work; true when it is over.
    pub fn on_msg(&mut self, msg: PreviewMsg) -> (finished: bool)
        ensures
            final(self).path == old(self).path,
            final(self).password == old(self).password,
            final(self).focus == old(self).focus,
            final(self).path_edit_mode == old(self).path_edit_mode,
            match msg {
                PreviewMsg::Progress(p) => !finished && final(self).phase == PreviewPhase::Decrypting(p),
                PreviewMsg::DecryptedBytes(bytes, ext) => finished && (final(self).phase matches PreviewPhase::PendingRender { bytes: b, ext: e }
                    && b@ == bytes@ && e@ == ext@),
                PreviewMsg::WrongPassword => finished && final(self).phase == PreviewPhase::Done(PreviewResult::WrongPassword),
                PreviewMsg::IoError(m) => finished && (final(self).phase matches PreviewPhase::Done(PreviewResult::IoError(x)) && x@ == m@),
            },
    {
        match msg {
            PreviewMsg::Progress(p) => {
                self.phase = PreviewPhase::Decrypting(p);
                false
            },
            PreviewMsg::DecryptedBytes(bytes, ext) => {
                self.phase = PreviewPhase::PendingRender { bytes, ext };
                true
            },
            PreviewMsg::WrongPassword => {
                self.phase = PreviewPhase::Done(PreviewResult::WrongPassword);
                true
            },
            PreviewMsg::IoError(m) => {
                self.phase = PreviewPhase::Done(PreviewResult::IoError(m));
                true
            },
        }
    }

    /// Check the form and start decrypting: an empty path or password, or a
    /// path not ending in `.lock`, is an error shown on the page.
    pub fn start(&mut self) -> (r: Option<PreviewJob>)
        ensures
            final(self).path == old(self).path,
            final(self).password == old(self).password,
            final(self).focus == old(self).focus,
            final(self).path_edit_mode == old(self).path_edit_mode,
            exists|a: int, z: int| {
                let p = #[trigger] old(self).path@.subrange(a, z);
                &&& trim_spaces(old(self).path@, a, z)
                &&& p.len() == 0 ==> r is None && (final(self).phase matches PreviewPhase::Done(PreviewResult::IoError(m))
                    && m@ == "File path cannot be empty."@)
                &&& (p.len() > 0 && old(self).password@.len() == 0) ==> r is None
                    && (final(self).phase matches PreviewPhase::Done(PreviewResult::IoError(m)) && m@ == "Password cannot be empty."@)
                &&& (p.len() > 0 && old(self).password@.len() > 0 && !seq_ends_with(p, ".lock"@)) ==> r is None
                    && (final(self).phase matches PreviewPhase::Done(PreviewResult::IoError(m)) && m@ == "File must have a .lock extension."@)
                &&& (p.len() > 0 && old(self).password@.len() > 0 && seq_ends_with(p, ".lock"@)) ==> (r matches Some(job)
                    && job.path@ == p && job.password == old(self).password
                    && job.ext@ == text::lower_seq(text::ext_or_empty(p.subrange(0, p.len() - 5)))
                    && final(self).phase == PreviewPhase::Decrypting(0))
            },
    {
        let path = trim(self.path.as_str());
        let password = self.password.clone();
        if path.unicode_len() == 0 {
            self.phase = PreviewPhase::Done(PreviewResult::IoError("File path cannot be empty.".to_owned()));
            return None;
        }
        if password.unicode_len() == 0 {
            self.phase = PreviewPhase::Done(PreviewResult::IoError("Password cannot be empty.".to_owned()));
            return None;
        }
        if !ends_with(path.as_str(), ".lock") {
            self.phase = PreviewPhase::Done(PreviewResult::IoError("File must have a .lock extension.".to_owned()));
            return None;
        }
        proof {
            reveal_strlit(".lock");
        }
        let v = text::to_chars(path.as_str());
        let c = text::copy_range(v.as_slice(), 0, v.len() - 5);
        let unlocked = from_chars(c.as_slice());
        let e = lower_extension(unlocked.as_str());
        self.phase = PreviewPhase::Decrypting(0);
        Some(PreviewJob { path, password, ext: from_chars(e.as_slice()) })
    }
}

/// The image formats the previewer decodes.
#[derive(Clone, Copy, Debug, PartialEq, Eq, Structural)]
pub enum ImageKind {
    Jpeg,
    Png,
    Gif,
    WebP,
    Bmp,
    Tiff,
}

/// The image format of a (lower-case) extension.
pub open spec fn image_kind_spec(ext: Seq<char>) -> Option<ImageKind> {
    if ext == "jpg"@ || ext == "jpeg"@ { Some(ImageKind::Jpeg) }
    else if ext == "png"@ { Some(ImageKind::Png) }
    else if ext == "gif"@ { Some(ImageKind::Gif) }
    else if ext == "webp"@ { Some(ImageKind::WebP) }
    else if ext == "bmp"@ { Some(ImageKind::Bmp) }
    else if ext == "tiff"@ || ext == "tif"@ { Some(ImageKind::Tiff) }
    else { None }
}

/// The image format of an extension, or the error for an unsupported one.
pub fn image_kind(ext: &str) -> (r: Result<ImageKind, String>)
    ensures
        match image_kind_spec(ext@) {
            Some(k) => r == Ok::<ImageKind, String>(k),
            None => r matches Err(m) && m@ == "unsupported image format: "@ + ext@,
        },
{
    if str_eq(ext, "jpg") || str_eq(ext, "jpeg") {
        Ok(ImageKind::Jpeg)
    } else if str_eq(ext, "png") {
        Ok(ImageKind::Png)
    } else if str_eq(ext, "gif") {
        Ok(ImageKind::Gif)
    } else if str_eq(ext, "webp") {
        Ok(ImageKind::WebP)
    } else if str_eq(ext, "bmp") {
        Ok(ImageKind::Bmp)
    } else if str_eq(ext, "tiff") || str_eq(ext, "tif") {
        Ok(ImageKind::Tiff)
    } else {
        Err(concat("unsupported image format: ", ext))
    }
}

/// The number of an image format: 0 JPEG, 1 PNG, 2 GIF, 3 WebP, 4 BMP, 5 TIFF.
pub open spec fn kind_code(k: ImageKind) -> u8 {
    match k {
        ImageKind::Jpeg => 0,
        ImageKind::Png => 1,
        ImageKind::Gif => 2,
        ImageKind::WebP => 3,
        ImageKind::Bmp => 4,
        ImageKind::Tiff => 5,
    }
}

/// The RGBA pixels, width and height `image` decodes from `bytes` in the format
/// numbered `kind`, or `None` when they do not decode.
pub uninterp spec fn image_rgba(bytes: Seq<u8>, kind: u8) -> Option<(Seq<u8>, u32, u32)>;

/// `image::load_from_memory_with_format` then `to_rgba8`. Claims: success
/// exactly when the named decoding succeeds, with its pixels and size; nothing
/// is said of the error text.
#[verifier::external_body]
fn load_rgba(bytes: &[u8], kind: ImageKind) -> (r: Result<(Vec<u8>, u32, u32), String>)
    ensures
        match r {
            Ok((px, w, h)) => image_rgba(bytes@, kind_code(kind)) == Some((px@, w, h)) && px@.len() == 4 * w * h,
            Err(_) => image_rgba(bytes@, kind_code(kind)) is None,
        },
{
    let format = match kind {
        ImageKind::Jpeg => ImageFormat::Jpeg,
        ImageKind::Png => ImageFormat::Png,
        ImageKind::Gif => ImageFormat::Gif,
        ImageKind::WebP => ImageFormat::WebP,
        ImageKind::Bmp => ImageFormat::Bmp,
        ImageKind::Tiff => ImageFormat::Tiff,
    };
    let rgba = image::load_from_memory_with_format(bytes, format).map_err(|e| e.to_string())?.to_rgba8();
    let (w, h) = rgba.dimensions();
    Ok((rgba.into_raw(), w, h))
}

/// The widest image shown.
pub const PREVIEW_MAX_WIDTH: u32 = 1920;
/// The tallest image shown.
pub const PREVIEW_MAX_HEIGHT: u32 = 1080;

/// The RGBA pixels, width and height of the `w` by `h` RGBA image `px` resized
/// by `image` (Lanczos3, aspect ratio kept) to fit within `nw` by `nh`.
pub uninterp spec fn image_resized(px: Seq<u8>, w: u32, h: u32, nw: u32, nh: u32) -> (Seq<u8>, u32, u32);

/// `DynamicImage::resize` with the Lanczos3 filter on an RGBA image, then
/// `to_rgba8`. Claims: the named result, which fits within the bounds (as the
/// method's documentation says) and holds four bytes per pixel.
#[verifier::external_body]
fn resize_rgba(px: Vec<u8>, w: u32, h: u32, nw: u32, nh: u32) -> (r: (Vec<u8>, u32, u32))
    requires
        px@.len() == 4 * w * h,
        1 <= w,
        1 <= h,
        1 <= nw,
        1 <= nh,
    ensures
        (r.0@, r.1, r.2) == image_resized(px@, w, h, nw, nh),
        1 <= r.1 <= nw,
        1 <= r.2 <= nh,
        r.0@.len() == 4 * r.1 * r.2,
{
    match image::RgbaImage::from_raw(w, h, px) {
        Some(img) => {
            let out = image::DynamicImage::ImageRgba8(img).resize(nw, nh, image::imageops::FilterType::Lanczos3).to_rgba8();
            let (w2, h2) = out.dimensions();
            (out.into_raw(), w2, h2)
        },
        None => (Vec::new(), 0, 0),
    }
}

/// The bounds a `w` by `h` image is scaled into when it is larger than the
/// preview allows: the scale that fits the limiting side, applied to the
/// other side (rounded down, at least one pixel).
pub open spec fn fit_bounds(w: u32, h: u32) -> (u32, u32) {
    if PREVIEW_MAX_WIDTH * h <= PREVIEW_MAX_HEIGHT * w {
        let q = (h * PREVIEW_MAX_WIDTH) / (w as int);
        (PREVIEW_MAX_WIDTH, if q == 0 { 1u32 } else { q as u32 })
    } else {
        let q = (w * PREVIEW_MAX_HEIGHT) / (h as int);
        (if q == 0 { 1u32 } else { q as u32 }, PREVIEW_MAX_HEIGHT)
    }
}

/// What the preview shows of a decoded `w` by `h` image: the image itself when
/// it fits in the preview, else the image resized into `fit_bounds` (an image
/// with no pixels becomes the empty image).
pub open spec fn fitted_image(px: Seq<u8>, w: u32, h: u32) -> (Seq<u8>, u32, u32) {
    if w <= PREVIEW_MAX_WIDTH && h <= PREVIEW_MAX_HEIGHT {
        (px, w, h)
    } else if w == 0 || h == 0 {
        (Seq::empty(), 0, 0)
    } else {
        image_resized(px, w, h, fit_bounds(w, h).0, fit_bounds(w, h).1)
    }
}

/// Scale a decoded RGBA image down to fit the preview, keeping its aspect ratio.
pub fn fit_rgba(px: Vec<u8>, w: u32, h: u32) -> (r: (Vec<u8>, u32, u32))
    requires
        px@.len() == 4 * w * h,
    ensures
        (r.0@, r.1, r.2) == fitted_image(px@, w, h),
        r.1 <= PREVIEW_MAX_WIDTH,
        r.2 <= PREVIEW_MAX_HEIGHT,
        r.0@.len() == 4 * r.1 * r.2,
{
    if w <= PREVIEW_MAX_WIDTH && h <= PREVIEW_MAX_HEIGHT {
        return (px, w, h);
    }
    if w == 0 || h == 0 {
        return (Vec::new(), 0, 0);
    }
    let w64 = w as u64;
    let h64 = h as u64;
    let (nw, nh) = if 1920u64 * h64 <= 1080u64 * w64 {
        let q = (h64 * 1920) / w64;
        assert(q <= 1080) by (nonlinear_arith)
            requires
                q == (h64 * 1920) / (w64 as int),
                1920 * h64 <= 1080 * w64,
                w64 > 0,
        {
            assert(h64 * 1920 < (1080 + 1) * w64);
        }
        (PREVIEW_MAX_WIDTH, if q == 0 { 1u32 } else { q as u32 })
    } else {
        let q = (w64 * 1080) / h64;
        assert(q <= 1920) by (nonlinear_arith)
            requires
                q == (w64 * 1080) / (h64 as int),
                1920 * h64 > 1080 * w64,
                h64 > 0,
        {
            assert(w64 * 1080 < (1920 + 1) * h64);
        }
        (if q == 0 { 1u32 } else { q as u32 }, PREVIEW_MAX_HEIGHT)
    };
    resize_rgba(px, w, h, nw, nh)
}

/// Decode image bytes by their (lower-case) extension into RGBA pixels, width
/// and height, scaled down to fit within 1920 by 1080.
pub fn decode_rgba(bytes: &[u8], ext: &str) -> (r: Result<(Vec<u8>, u32, u32), String>)
    ensures
        match image_kind_spec(ext@) {
            None => r matches Err(m) && m@ == "unsupported image format: "@ + ext@,
            Some(k) => match image_rgba(bytes@, kind_code(k)) {
                Some((px, w, h)) => r matches Ok((p2, w2, h2)) && (p2@, w2, h2) == fitted_image(px, w, h),
                None => r is Err,
            },
        },
        r matches Ok((p, w, h)) ==> w <= PREVIEW_MAX_WIDTH && h <= PREVIEW_MAX_HEIGHT && p@.len() == 4 * w * h,
{
    let kind = match image_kind(ext) {
        Ok(k) => k,
        Err(e) => {
            return Err(e);
        },
    };
    match load_rgba(bytes, kind) {
        Ok((px, w, h)) => Ok(fit_rgba(px, w, h)),
        Err(e) => Err(e),
    }
}

/// Handle a key: the step it makes, applied here when it edits the form;
/// leaving, picking (starting near `path`) and starting (`start`) are the
/// caller's. Keys are ignored while the operation runs; editing the path
/// clears the outcome shown.
pub fn handle_enc_dec(state: &mut EncDecState, key: Key, yazi: bool) -> (r: FormStep)
    ensures
        r == form_step(old(state).status is Running, old(state).focus, old(state).path_edit_mode, key, yazi),
        form_after(r, old(state).path@, old(state).password@, old(state).focus, old(state).path_edit_mode,
            final(state).path@, final(state).password@, final(state).focus, final(state).path_edit_mode),
        edits_path(r) ==> final(state).status is Idle,
        !edits_path(r) ==> final(state).status == old(state).status,
        is_caller_step(r) ==> *final(state) == *old(state),
{
    let busy = match state.status {
        OpStatus::Running(_) => true,
        _ => false,
    };
    let step = decide_form_step(busy, state.focus, state.path_edit_mode, key, yazi);
    match step {
        FormStep::EditMode(on) => {
            state.path_edit_mode = on;
        },
        FormStep::LeaveEditAndAdvance => {
            state.path_edit_mode = false;
            state.advance_focus();
        },
        FormStep::Advance => {
            state.advance_focus();
        },
        FormStep::TypePath(c) => {
            push_char(&mut state.path, c);
            state.status = OpStatus::Idle;
        },
        FormStep::ErasePath => {
            pop_char(&mut state.path);
            state.status = OpStatus::Idle;
        },
        FormStep::TypePassword(c) => {
            push_char(&mut state.password, c);
        },
        FormStep::ErasePassword => {
            pop_char(&mut state.password);
        },
        _ => {},
    }
    step
}

/// Handle a key: the step it makes, applied here when it edits the form;
/// leaving, picking (starting near `path`) and starting (`start`) are the
/// caller's. Keys are ignored while decrypting; editing the path clears
/// the outcome shown.
pub fn handle_preview(state: &mut PreviewState, key: Key, yazi: bool) -> (r: FormStep)
    ensures
        r == form_step(old(state).phase is Decrypting, old(state).focus, old(state).path_edit_mode, key, yazi),
        form_after(r, old(state).path@, old(state).password@, old(state).focus, old(state).path_edit_mode,
            final(state).path@, final(state).password@, final(state).focus, final(state).path_edit_mode),
        edits_path(r) ==> final(state).phase is Idle,
        !edits_path(r) ==> final(state).phase == old(state).phase,
        is_caller_step(r) ==> *final(state) == *old(state),
{
    let busy = match state.phase {
        PreviewPhase::Decrypting(_) => true,
        _ => false,
    };
    let step = decide_form_step(busy, state.focus, state.path_edit_mode, key, yazi);
    match step {
        FormStep::EditMode(on) => {
            state.path_edit_mode = on;
        },
        FormStep::LeaveEditAndAdvance => {
            state.path_edit_mode = false;
            state.advance_focus();
        },
        FormStep::Advance => {
            state.advance_focus();
        },
        FormStep::TypePath(c) => {
            push_char(&mut state.path, c);
            state.phase = PreviewPhase::Idle;
        },
        FormStep::ErasePath => {
            pop_char(&mut state.path);
            state.phase = PreviewPhase::Idle;
        },
        FormStep::TypePassword(c) => {
            push_char(&mut state.password, c);
        },
        FormStep::ErasePassword => {
            pop_char(&mut state.password);
        },
        _ => {},
    }
    step
}

} // verus!
