//! Encrypting or decrypting one file from the command line: where the input
//! comes from, which way it goes, and where the output goes.
//!
//! - Input: a file path, `-` for standard input, or standard input when no
//!   file is given and it is not a terminal; reading standard input needs
//!   `-m`.
//! - Mode: `-m`, else decrypt exactly when the file's extension is `lock`
//!   (ASCII case ignored).
//! - Output: `--stdout` (which makes `-o` ignored, with a warning), else
//!   `-o PATH`, else standard output for standard input, else the file with
//!   `.lock` appended (encrypt) or its extension removed (decrypt).
//! - An existing output file is refused (exit 4) unless `-f` is given.

use vstd::prelude::*;
use vstd::string::*;

use crate::cli::OperationMode;
use crate::fmt::{decimal, decimal_string, push_str};
use crate::order::views;
use crate::text::{file_name_of, file_name_range, lower_seq, path_extension, path_extension_spec, str_eq, to_chars};

verus! {

/// `std::path::Path::with_extension`: the path with the extension of its file
/// name replaced by `ext` (removed when `ext` is empty).
pub uninterp spec fn path_with_extension(p: Seq<char>, ext: Seq<char>) -> Seq<char>;

/// `std::path::Path::with_file_name`: the path with its file name replaced by `name`.
pub uninterp spec fn path_with_file_name(p: Seq<char>, name: Seq<char>) -> Seq<char>;

/// `Path::with_extension` on a path given as text; the result, made from
/// text, is text again. Claims only that it is the named result.
#[verifier::external_body]
fn with_extension(p: &str, ext: &str) -> (r: String)
    ensures
        r@ == path_with_extension(p@, ext@),
{
    std::path::Path::new(p).with_extension(ext).to_string_lossy().into_owned()
}

/// `Path::with_file_name` on a path given as text; the result, made from
/// text, is text again. Claims only that it is the named result.
#[verifier::external_body]
fn with_file_name(p: &str, name: &str) -> (r: String)
    ensures
        r@ == path_with_file_name(p@, name@),
{
    std::path::Path::new(p).with_file_name(name).to_string_lossy().into_owned()
}

/// What the command line asks: refused with a message and exit code, or done.
pub enum EncDecPlan {
    Refuse { message: String, code: i32 },
    Go {
        /// Read standard input (else the first file).
        from_stdin: bool,
        decrypt: bool,
        /// Write to standard output.
        to_stdout: bool,
        /// The output file; none when writing to standard output, or when
        /// the input has no file name (a folder, which is refused before
        /// anything is written).
        out_path: Option<String>,
        /// `-o` was given with `--stdout` and is ignored.
        warn_output_ignored: bool,
    },
}

/// An `EncDecPlan` with its texts as character sequences.
pub enum EncDecPlanView {
    Refuse { message: Seq<char>, code: i32 },
    Go { from_stdin: bool, decrypt: bool, to_stdout: bool, out_path: Option<Seq<char>>, warn_output_ignored: bool },
}

impl View for EncDecPlan {
    type V = EncDecPlanView;

    open spec fn view(&self) -> EncDecPlanView {
        match self {
            EncDecPlan::Refuse { message, code } => EncDecPlanView::Refuse { message: message@, code: *code },
            EncDecPlan::Go { from_stdin, decrypt, to_stdout, out_path, warn_output_ignored } => EncDecPlanView::Go {
                from_stdin: *from_stdin,
                decrypt: *decrypt,
                to_stdout: *to_stdout,
                out_path: match out_path {
                    Some(p) => Some(p@),
                    None => None,
                },
                warn_output_ignored: *warn_output_ignored,
            },
        }
    }
}

/// The file's extension is `lock`, ASCII case ignored.
pub open spec fn has_lock_extension(p: Seq<char>) -> bool {
    path_extension_spec(p) matches Some(e) && lower_seq(e) == "lock"@
}

/// The output file when none is named: `.lock` appended to the file name
/// (encrypt), or the extension removed (decrypt).
pub open spec fn default_output(p: Seq<char>, decrypt: bool) -> Option<Seq<char>> {
    if decrypt {
        Some(path_with_extension(p, Seq::empty()))
    } else {
        match file_name_of(p) {
            Some(f) => Some(path_with_file_name(p, f + ".lock"@)),
            None => None,
        }
    }
}

/// The plan for the files `files`, the mode `-m`, `--stdout`, `-o` and
/// whether standard input is a terminal.
pub open spec fn enc_dec_plan_spec(files: Seq<Seq<char>>, mode: Option<OperationMode>, stdout: bool,
    output: Option<Seq<char>>, stdin_is_terminal: bool) -> EncDecPlanView {
    let explicit = files.len() > 0 && files[0] == "-"@;
    let from_stdin = explicit || (files.len() == 0 && !stdin_is_terminal);
    if !from_stdin && files.len() > 1 {
        EncDecPlanView::Refuse {
            message: "error: encrypt/decrypt takes exactly one file; got "@ + decimal(files.len()),
            code: 3,
        }
    } else if from_stdin && mode is None {
        EncDecPlanView::Refuse { message: "error: stdin is not a TTY; use -m to specify encrypt or decrypt"@, code: 3 }
    } else {
        let decrypt = match mode {
            Some(m) => m == OperationMode::Decrypt,
            None => has_lock_extension(files[0]),
        };
        let to_stdout = stdout || (from_stdin && output is None);
        EncDecPlanView::Go {
            from_stdin,
            decrypt,
            to_stdout,
            out_path: if to_stdout {
                None
            } else {
                match output {
                    Some(o) => Some(o),
                    None => default_output(files[0], decrypt),
                }
            },
            warn_output_ignored: stdout && output is Some,
        }
    }
}

/// The file's extension is `lock`.
fn is_lock_file(p: &str) -> (r: bool)
    ensures
        r == has_lock_extension(p@),
{
    match path_extension(p) {
        None => false,
        Some(e) => {
            let l = crate::text::lower_chars(e.as_slice());
            let s = crate::text::from_chars(l.as_slice());
            proof {
                reveal_strlit("lock");
            }
            str_eq(s.as_str(), "lock")
        },
    }
}

/// Plan an encryption or decryption from the command line (the caller reads
/// standard input only when it is not a terminal or `-` is given).
pub fn plan_enc_dec(files: &Vec<String>, mode: Option<OperationMode>, stdout: bool, output: &Option<String>,
    stdin_is_terminal: bool) -> (r: EncDecPlan)
    requires
        files@.len() > 0 || !stdin_is_terminal,
    ensures
        r@ == enc_dec_plan_spec(views(files@), mode, stdout, match output {
            Some(o) => Some(o@),
            None => None,
        }, stdin_is_terminal),
{
    proof {
        reveal_strlit("-");
        assert(views(files@).len() == files@.len());
        if files@.len() > 0 {
            assert(views(files@)[0] == files@[0]@);
        }
    }
    let explicit = files.len() > 0 && str_eq(files[0].as_str(), "-");
    let from_stdin = explicit || (files.len() == 0 && !stdin_is_terminal);
    if !from_stdin && files.len() > 1 {
        let mut m = "error: encrypt/decrypt takes exactly one file; got ".to_owned();
        push_str(&mut m, decimal_string(files.len() as u64).as_str());
        return EncDecPlan::Refuse { message: m, code: 3 };
    }
    if from_stdin && mode.is_none() {
        return EncDecPlan::Refuse {
            message: "error: stdin is not a TTY; use -m to specify encrypt or decrypt".to_owned(),
            code: 3,
        };
    }
    let decrypt = match mode {
        Some(m) => m == OperationMode::Decrypt,
        None => is_lock_file(files[0].as_str()),
    };
    let to_stdout = stdout || (from_stdin && output.is_none());
    let out_path = if to_stdout {
        None
    } else {
        match output {
            Some(o) => Some(o.clone()),
            None => {
                let p = files[0].as_str();
                if decrypt {
                    proof {
                        reveal_strlit("");
                    }
                    let q = with_extension(p, "");
                    assert(""@ =~= Seq::<char>::empty());
                    assert(q@ == path_with_extension(files@[0]@, Seq::empty()));
                    Some(q)
                } else {
                    let v = to_chars(p);
                    match file_name_range(v.as_slice()) {
                        None => None,
                        Some((a, b)) => {
                            let mut n = crate::text::from_chars(crate::text::copy_range(v.as_slice(), a, b).as_slice());
                            push_str(&mut n, ".lock");
                            let q = with_file_name(p, n.as_str());
                            assert(q@ == path_with_file_name(files@[0]@, v@.subrange(a as int, b as int) + ".lock"@));
                            Some(q)
                        },
                    }
                }
            },
        }
    };
    EncDecPlan::Go { from_stdin, decrypt, to_stdout, out_path, warn_output_ignored: stdout && output.is_some() }
}

/// Writing to an output file that exists is refused (exit 4) unless forced.
pub fn output_refused(exists: bool, force: bool) -> (r: Option<i32>)
    ensures
        r == (if exists && !force { Some(4i32) } else { None }),
{
    if exists && !force { Some(4) } else { None }
}

} // verus!
