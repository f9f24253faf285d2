//! The command line: what was asked for, and the checks on its arguments that
//! do not need the file system.

use vstd::prelude::*;
use vstd::string::*;

use crate::order::views;
use crate::text::{str_eq, to_chars};

verus! {

/// Explicit operation for reading from standard input.
#[derive(Clone, Copy, Debug, PartialEq, Eq, Structural)]
pub enum OperationMode {
    Encrypt,
    Decrypt,
}

/// The parsed command line. Paths are kept as the text given.
#[derive(Debug)]
pub struct Cli {
    /// Vault directory for all vault commands.
    pub vault_dir: Option<String>,
    /// Open the interactive interface with the file pre-loaded.
    pub tui: bool,
    /// Decrypt the file into memory and preview it.
    pub preview_mode: bool,
    /// Open the vault at this directory in the interactive browser.
    pub vault: Option<String>,
    /// List the vault at this directory.
    pub vault_list: Option<String>,
    /// Preview the vault entry at this virtual path.
    pub vault_preview: Option<String>,
    /// Files to add to the vault.
    pub vault_add: Vec<String>,
    /// Export the vault entry or folder at this virtual path.
    pub vault_export: Option<String>,
    /// Rename: virtual path, then new name.
    pub vault_rename: Vec<String>,
    /// Move: virtual path, then destination folder.
    pub vault_move: Vec<String>,
    /// Virtual paths of entries to delete.
    pub vault_delete: Vec<String>,
    /// Create a new vault in this directory.
    pub vault_init: Option<String>,
    /// Explicit operation, required when reading standard input.
    pub mode: Option<OperationMode>,
    /// Output path.
    pub output: Option<String>,
    /// Overwrite an existing output file.
    pub force: bool,
    /// Write the output to standard output.
    pub stdout: bool,
    /// List the vault as JSON.
    pub json: bool,
    /// Virtual folder to list.
    pub path: Option<String>,
    /// Name of the blobs subdirectory of a new vault.
    pub blobs_dir: Option<String>,
    /// Virtual folder that added files go to.
    pub vault_path: Option<String>,
    /// Destination directory of an export.
    pub dest: Option<String>,
    /// Export sub-folders too.
    pub recursive: bool,
    /// Do not ask for confirmation.
    pub yes: bool,
    /// New name for a moved entry.
    pub name: Option<String>,
    /// Files to encrypt, decrypt or preview.
    pub files: Vec<String>,
}

impl Cli {
    /// No action was asked for on the command line.
    pub open spec fn no_action_spec(&self) -> bool {
        &&& !self.stdout
        &&& self.mode is None
        &&& self.files@.len() == 0
        &&& !self.preview_mode
        &&& self.vault is None
        &&& self.vault_list is None
        &&& self.vault_preview is None
        &&& self.vault_export is None
        &&& self.vault_add@.len() == 0
        &&& self.vault_rename@.len() == 0
        &&& self.vault_move@.len() == 0
        &&& self.vault_delete@.len() == 0
        &&& self.vault_init is None
    }

    /// A vault command that takes precedence over encrypting the files given.
    pub open spec fn has_vault_cmd_spec(&self) -> bool {
        ||| self.vault is Some
        ||| self.vault_list is Some
        ||| self.vault_preview is Some
        ||| self.vault_export is Some
        ||| self.vault_add@.len() > 0
    }

    /// The interactive interface is started: no action was asked for and
    /// standard input is a terminal (piped data is something to encrypt or
    /// decrypt).
    pub open spec fn is_tui_mode_spec(&self, stdin_is_terminal: bool) -> bool {
        self.no_action_spec() && stdin_is_terminal
    }

    /// Single-file encryption or decryption is what was asked: files are
    /// given, or data is piped in, and no preview or vault command is asked.
    pub open spec fn is_enc_dec_mode_spec(&self, stdin_is_terminal: bool) -> bool {
        &&& !self.preview_mode
        &&& !self.has_vault_cmd_spec()
        &&& (self.files@.len() > 0 || (!stdin_is_terminal && self.vault_rename@.len() == 0
            && self.vault_move@.len() == 0 && self.vault_delete@.len() == 0 && self.vault_init is None))
    }

    /// Returns true when no action is requested and standard input is a
    /// terminal: the interactive interface is started.
    pub fn is_tui_mode(&self, stdin_is_terminal: bool) -> (r: bool)
        ensures
            r == self.is_tui_mode_spec(stdin_is_terminal),
    {
        stdin_is_terminal
            && !self.stdout
            && self.mode.is_none()
            && self.files.len() == 0
            && !self.preview_mode
            && self.vault.is_none()
            && self.vault_list.is_none()
            && self.vault_preview.is_none()
            && self.vault_export.is_none()
            && self.vault_add.len() == 0
            && self.vault_rename.len() == 0
            && self.vault_move.len() == 0
            && self.vault_delete.len() == 0
            && self.vault_init.is_none()
    }

    /// Returns true when the command line asks to encrypt or decrypt one file
    /// or the piped data.
    pub fn is_enc_dec_mode(&self, stdin_is_terminal: bool) -> (r: bool)
        ensures
            r == self.is_enc_dec_mode_spec(stdin_is_terminal),
            r ==> self.files@.len() > 0 || !stdin_is_terminal,
    {
        let has_vault_cmd = self.vault.is_some() || self.vault_list.is_some() || self.vault_preview.is_some()
            || self.vault_export.is_some() || self.vault_add.len() > 0;
        !self.preview_mode && !has_vault_cmd && (self.files.len() > 0 || (!stdin_is_terminal
            && self.vault_rename.len() == 0 && self.vault_move.len() == 0 && self.vault_delete.len() == 0
            && self.vault_init.is_none()))
    }
}

/// Which field the file browser fills when something is chosen.
#[derive(Clone, Copy, Debug, PartialEq, Eq, Structural)]
pub enum FileBrowserTarget {
    /// The file field of the encrypt/decrypt page.
    EncDecPath,
    /// The file field of the preview page.
    PreviewPath,
    /// The root directory of a vault to open.
    VaultDir,
    /// The root directory of a vault to create.
    VaultCreateDir,
    /// Files to add to the open vault.
    VaultAddFiles,
    /// The folder to export vault files to.
    VaultExportDir,
}

/// How a `--blobs-dir` name fares.
#[derive(Clone, Copy, Debug, PartialEq, Eq, Structural)]
pub enum BlobsDirName {
    /// A single directory name.
    Valid,
    /// A path, `.` or `..`.
    NotSingleName,
    /// The empty name.
    Empty,
}

/// A blobs directory name is a single, non-empty name: no `/` or `\`, and not `.` or `..`.
pub open spec fn blobs_dir_name_spec(name: Seq<char>) -> BlobsDirName {
    if name.contains('/') || name.contains('\\') || name == "."@ || name == ".."@ {
        BlobsDirName::NotSingleName
    } else if name.len() == 0 {
        BlobsDirName::Empty
    } else {
        BlobsDirName::Valid
    }
}

/// Check a `--blobs-dir` name.
pub fn check_blobs_dir_name(name: &str) -> (r: BlobsDirName)
    ensures
        r == blobs_dir_name_spec(name@),
{
    let v = to_chars(name);
    let mut i: usize = 0;
    let mut sep = false;
    while i < v.len()
        invariant
            i <= v@.len(),
            v@ == name@,
            sep == exists|j: int| 0 <= j < i && (v@[j] == '/' || v@[j] == '\\'),
        decreases v@.len() - i,
    {
        if v[i] == '/' || v[i] == '\\' {
            sep = true;
        }
        i = i + 1;
    }
    proof {
        if sep {
            let j = choose|j: int| 0 <= j < v@.len() && (v@[j] == '/' || v@[j] == '\\');
            if v@[j] == '/' {
                assert(name@.contains('/'));
            } else {
                assert(name@.contains('\\'));
            }
        } else {
            assert(!name@.contains('/'));
            assert(!name@.contains('\\'));
        }
    }
    if sep || str_eq(name, ".") || str_eq(name, "..") {
        BlobsDirName::NotSingleName
    } else if v.len() == 0 {
        BlobsDirName::Empty
    } else {
        BlobsDirName::Valid
    }
}

/// Where `--vault-add` takes its content from: the files named (`None`), or
/// standard input stored under `--name` when the only file given is `-`.
pub open spec fn vault_add_source_spec(files: Seq<Seq<char>>, name: Option<Seq<char>>) -> Result<Option<Seq<char>>, Seq<char>> {
    if !files.contains("-"@) {
        Ok(None)
    } else if files.len() > 1 {
        Err("error: cannot combine `-` (stdin) with other files in --vault-add"@)
    } else {
        match name {
            Some(n) => Ok(Some(n)),
            None => Err("error: --name is required when adding from stdin (`--vault-add -`)"@),
        }
    }
}

/// Check how `--vault-add` gets its content; an error (exit 3) when `-` is
/// mixed with files or comes without `--name`.
pub fn vault_add_source(files: &Vec<String>, name: &Option<String>) -> (r: Result<Option<String>, String>)
    ensures
        match (r, vault_add_source_spec(views(files@), match name {
            Some(n) => Some(n@),
            None => None,
        })) {
            (Ok(Some(a)), Ok(Some(b))) => a@ == b,
            (Ok(None), Ok(None)) => true,
            (Err(a), Err(b)) => a@ == b,
            _ => false,
        },
{
    proof {
        reveal_strlit("-");
    }
    let mut dash = false;
    let mut i: usize = 0;
    while i < files.len()
        invariant
            i <= files@.len(),
            dash == exists|j: int| 0 <= j < i && files@[j]@ == "-"@,
        decreases files@.len() - i,
    {
        if str_eq(files[i].as_str(), "-") {
            dash = true;
        }
        i = i + 1;
    }
    proof {
        let vs = views(files@);
        assert(vs.len() == files@.len());
        if dash {
            let j = choose|j: int| 0 <= j < files@.len() && files@[j]@ == "-"@;
            assert(vs[j] == "-"@);
            assert(vs.contains("-"@));
        } else {
            assert forall|j: int| 0 <= j < vs.len() implies vs[j] != "-"@ by {
                assert(vs[j] == files@[j]@);
            }
            assert(!vs.contains("-"@));
        }
    }
    if !dash {
        Ok(None)
    } else if files.len() > 1 {
        Err("error: cannot combine `-` (stdin) with other files in --vault-add".to_owned())
    } else {
        match name {
            Some(n) => Ok(Some(n.clone())),
            None => Err("error: --name is required when adding from stdin (`--vault-add -`)".to_owned()),
        }
    }
}

} // verus!
