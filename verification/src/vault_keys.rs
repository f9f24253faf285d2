//! Keys on the vault page: which command a key gives in each phase, and the
//! commands applied to the page. Edits of the forms, the panels and the
//! selection are made here; the rest is handed to the page's steps, and what
//! needs the outside (a picker, the disk, the work of a job) is handed back to
//! the caller as an effect.

use vstd::prelude::*;

use crate::browse::{
    list_moved_down, list_moved_up, opened_folder, refreshed, toggled, tree_moved_down, tree_moved_up, BrowseState,
    PanelFocus,
};
use crate::cli::FileBrowserTarget;
use crate::keys::{Key, Picker, default_picker, pick_default};
use crate::order::{insert_sorted_unique, strictly_sorted, views};
use crate::paths::{full_path, full_path_spec, parent_folder};
use crate::sorting::SortDir;
use crate::text::{push_char, pop_char, drop_last_or_empty};
use crate::vault_state::{
    create_dir_cancelled, create_dir_confirmed, delete_confirmed, delete_opened, gallery_started, locked_again,
    menu_moved_down, menu_moved_up, menu_selected, move_confirmed, move_opened, new_folder_confirmed, new_folder_opened,
    pasted, preview_started, rename_confirmed, rename_opened, selection_cut, unlock_started, CreateJob, DeleteWork,
    GalleryJob, Phase, PreviewJob, SaveReason, UnlockJob, VaultState,
};

verus! {

/// What a key asks of the vault page.
#[derive(Clone, Copy, Debug, PartialEq, Eq, Structural)]
pub enum VaultCommand {
    Nothing,
    /// Leave for the program's main menu.
    ToMainMenu,
    /// End the program (the vault was opened from the command line).
    Quit,
    /// Close the vault.
    Lock,
    /// Go up one folder.
    NavigateUp,
    MenuUp,
    MenuDown,
    MenuSelect,
    /// Back to the vault menu with this entry highlighted.
    ToVaultMenu(usize),
    /// Start or stop editing the path of a form.
    EditMode(bool),
    /// Stop editing the path of the open form and move to the password.
    LeaveEditAndAdvance,
    /// Next field of the open form.
    AdvanceFocus,
    /// Next field of the new-vault form.
    AdvanceCreateFocus,
    /// Pick a path for this field with this picker.
    Pick(Picker, FileBrowserTarget),
    /// Type a character into the focused field.
    Type(char),
    /// Erase the last character of the focused field.
    Erase,
    StartUnlock,
    StartCreate,
    ConfirmCreateDir,
    CancelCreateDir,
    FocusPanel(PanelFocus),
    TreeUp,
    TreeDown,
    /// Open the folder under the tree cursor and go to the list.
    OpenTreeFolder,
    /// Gallery of the folder under the tree cursor.
    TreeGallery,
    /// Gallery of the folder being viewed.
    PathGallery,
    /// Save the index.
    Save,
    ListUp,
    ListDown,
    /// Open the folder under the list cursor.
    OpenFolder,
    /// Preview the file under the list cursor.
    PreviewFile,
    ToggleSelection,
    SelectAll,
    ClearSelection,
    /// Choose files to add.
    PickFilesToAdd,
    /// Stage the selection for export and choose where to.
    Export,
    /// Gallery of the folder under the list cursor.
    FolderGallery,
    CycleSort,
    ToggleSortDir,
    NewFolder,
    Rename,
    Delete,
    Cut,
    Paste,
    Move,
    /// Back to browsing from a form.
    ToBrowse,
    ConfirmRename,
    ConfirmNewFolder,
    ConfirmDelete,
    ConfirmMove,
    MoveCursorUp,
    MoveCursorDown,
}

/// What the caller does after a command.
pub enum VaultEffect {
    Nothing,
    ToMainMenu,
    Quit,
    /// Open `picker` for `target`, starting near `hint`.
    Pick { picker: Picker, target: FileBrowserTarget, hint: String },
    /// Open the multi-file picker in the working folder, for `VaultAddFiles`.
    PickFilesToAdd,
    /// Open the folder picker for `VaultExportDir`; the files are staged.
    PickExportDir,
    /// Save the index, then `finish_save` with this reason.
    Save(SaveReason),
    /// Look at this folder on disk, then `start_create` with what was found.
    CheckCreatePath(String),
    Unlock(UnlockJob),
    Create(CreateJob),
    Preview(PreviewJob),
    Gallery(GalleryJob),
    Delete(DeleteWork),
}

/// Keys on the vault menu.
pub open spec fn menu_command(key: Key) -> VaultCommand {
    match key {
        Key::Esc => VaultCommand::ToMainMenu,
        Key::Up => VaultCommand::MenuUp,
        Key::Down => VaultCommand::MenuDown,
        Key::Enter => VaultCommand::MenuSelect,
        Key::Char(c) => if c == 'q' || c == 'h' {
            VaultCommand::ToMainMenu
        } else if c == 'k' {
            VaultCommand::MenuUp
        } else if c == 'j' {
            VaultCommand::MenuDown
        } else if c == 'l' {
            VaultCommand::MenuSelect
        } else {
            VaultCommand::Nothing
        },
        _ => VaultCommand::Nothing,
    }
}

/// Keys on the shown path of a form: Esc goes back, `t` edits, `b` and (with
/// `yazi`) `y` pick, Enter picks with the default picker, Tab moves on.
pub open spec fn shown_path_command(key: Key, yazi: bool, back: VaultCommand, target: FileBrowserTarget,
    next: VaultCommand) -> VaultCommand {
    match key {
        Key::Esc => back,
        Key::Char(c) => if c == 't' {
            VaultCommand::EditMode(true)
        } else if c == 'b' {
            VaultCommand::Pick(Picker::Builtin, target)
        } else if c == 'y' && yazi {
            VaultCommand::Pick(Picker::Yazi, target)
        } else {
            VaultCommand::Nothing
        },
        Key::Enter => VaultCommand::Pick(default_picker(yazi), target),
        Key::Tab | Key::BackTab => next,
        _ => VaultCommand::Nothing,
    }
}

/// Keys on the open-vault form.
pub open spec fn locked_command(focus: usize, edit: bool, key: Key, yazi: bool) -> VaultCommand {
    if focus == 0 && edit {
        match key {
            Key::Enter | Key::Esc => VaultCommand::EditMode(false),
            Key::Tab | Key::BackTab => VaultCommand::LeaveEditAndAdvance,
            Key::Char(c) => VaultCommand::Type(c),
            Key::Backspace => VaultCommand::Erase,
            _ => VaultCommand::Nothing,
        }
    } else if focus == 0 {
        shown_path_command(key, yazi, VaultCommand::ToVaultMenu(0), FileBrowserTarget::VaultDir, VaultCommand::AdvanceFocus)
    } else {
        match key {
            Key::Esc => VaultCommand::ToVaultMenu(0),
            Key::Tab | Key::BackTab => VaultCommand::AdvanceFocus,
            Key::Enter => VaultCommand::StartUnlock,
            Key::Char(c) => VaultCommand::Type(c),
            Key::Backspace => VaultCommand::Erase,
            _ => VaultCommand::Nothing,
        }
    }
}

/// Keys on the new-vault form: Esc stops editing the path, or goes back.
pub open spec fn creating_command(focus: usize, edit: bool, key: Key, yazi: bool) -> VaultCommand {
    if focus == 0 && edit {
        match key {
            Key::Esc | Key::Enter | Key::Tab | Key::BackTab => VaultCommand::EditMode(false),
            Key::Char(c) => VaultCommand::Type(c),
            Key::Backspace => VaultCommand::Erase,
            _ => VaultCommand::Nothing,
        }
    } else if focus == 0 {
        shown_path_command(key, yazi, VaultCommand::ToVaultMenu(1), FileBrowserTarget::VaultCreateDir,
            VaultCommand::AdvanceCreateFocus)
    } else {
        match key {
            Key::Esc => VaultCommand::ToVaultMenu(1),
            Key::Tab | Key::BackTab => VaultCommand::AdvanceCreateFocus,
            Key::Enter => if focus == 1 { VaultCommand::AdvanceCreateFocus } else { VaultCommand::StartCreate },
            Key::Char(c) => VaultCommand::Type(c),
            Key::Backspace => VaultCommand::Erase,
            _ => VaultCommand::Nothing,
        }
    }
}

/// Keys on the question whether to create the missing vault folder.
pub open spec fn confirm_create_command(key: Key) -> VaultCommand {
    match key {
        Key::Enter => VaultCommand::ConfirmCreateDir,
        Key::Esc => VaultCommand::CancelCreateDir,
        Key::Char(c) => if c == 'y' {
            VaultCommand::ConfirmCreateDir
        } else if c == 'n' {
            VaultCommand::CancelCreateDir
        } else {
            VaultCommand::Nothing
        },
        _ => VaultCommand::Nothing,
    }
}

/// Going back from the browser: up one folder, or at the root close the
/// vault (end the program when it was opened from the command line).
pub open spec fn up_or_lock(b: Option<BrowseState>, direct: bool) -> VaultCommand {
    let at_root = match b {
        Some(x) => x.current_path@.len() == 0,
        None => true,
    };
    if !at_root {
        VaultCommand::NavigateUp
    } else if direct {
        VaultCommand::Quit
    } else {
        VaultCommand::Lock
    }
}

/// The list cursor is on a folder row.
pub open spec fn on_folder(b: Option<BrowseState>) -> bool {
    b matches Some(x) && x.list_cursor < x.folders@.len()
}

/// The list cursor is on a file row.
pub open spec fn on_file(b: Option<BrowseState>) -> bool {
    b matches Some(x) && x.cursor_file_spec() is Some
}

/// Files are selected, or the cursor is on one.
pub open spec fn has_effective_selection(b: Option<BrowseState>) -> bool {
    b matches Some(x) && (x.selected_uuids@.len() > 0 || x.cursor_file_spec() is Some)
}

/// Keys on the folder tree.
pub open spec fn tree_command(b: Option<BrowseState>, key: Key, direct: bool) -> VaultCommand {
    match key {
        Key::Tab | Key::BackTab => VaultCommand::FocusPanel(PanelFocus::List),
        Key::Up => VaultCommand::TreeUp,
        Key::Down => VaultCommand::TreeDown,
        Key::Enter | Key::Right => VaultCommand::OpenTreeFolder,
        Key::Backspace | Key::Left | Key::Esc => up_or_lock(b, direct),
        Key::Char(c) => if c == 'k' {
            VaultCommand::TreeUp
        } else if c == 'j' {
            VaultCommand::TreeDown
        } else if c == 'l' {
            VaultCommand::OpenTreeFolder
        } else if c == 'h' || c == 'q' {
            up_or_lock(b, direct)
        } else if c == 'g' {
            VaultCommand::TreeGallery
        } else if c == 'G' {
            VaultCommand::PathGallery
        } else if c == 's' {
            VaultCommand::Save
        } else {
            VaultCommand::Nothing
        },
        _ => VaultCommand::Nothing,
    }
}

/// Enter on the list: open the folder, or preview the file, under the cursor.
pub open spec fn open_at_cursor(b: Option<BrowseState>) -> VaultCommand {
    if on_folder(b) {
        VaultCommand::OpenFolder
    } else if on_file(b) {
        VaultCommand::PreviewFile
    } else {
        VaultCommand::Nothing
    }
}

/// Letter keys on the file list that name an operation.
pub open spec fn list_letter_command(b: Option<BrowseState>, c: char) -> VaultCommand {
    if c == ' ' {
        VaultCommand::ToggleSelection
    } else if c == 'a' {
        VaultCommand::SelectAll
    } else if c == 'A' {
        VaultCommand::ClearSelection
    } else if c == 'i' {
        VaultCommand::PickFilesToAdd
    } else if c == 'e' {
        if has_effective_selection(b) { VaultCommand::Export } else { VaultCommand::Nothing }
    } else if c == 'g' {
        if on_folder(b) { VaultCommand::FolderGallery } else { VaultCommand::Nothing }
    } else if c == 'o' {
        VaultCommand::CycleSort
    } else if c == 'O' {
        VaultCommand::ToggleSortDir
    } else if c == 'G' {
        VaultCommand::PathGallery
    } else if c == 'n' {
        VaultCommand::NewFolder
    } else if c == 'r' {
        VaultCommand::Rename
    } else if c == 'd' {
        VaultCommand::Delete
    } else if c == 'x' {
        VaultCommand::Cut
    } else if c == 'p' {
        VaultCommand::Paste
    } else if c == 'm' {
        VaultCommand::Move
    } else if c == 's' {
        VaultCommand::Save
    } else {
        VaultCommand::Nothing
    }
}

/// Keys on the file list.
pub open spec fn list_command(b: Option<BrowseState>, key: Key, direct: bool) -> VaultCommand {
    match key {
        Key::Tab | Key::BackTab => VaultCommand::FocusPanel(PanelFocus::Tree),
        Key::Up => VaultCommand::ListUp,
        Key::Down => VaultCommand::ListDown,
        Key::Enter | Key::Right => open_at_cursor(b),
        Key::Backspace | Key::Left | Key::Esc => up_or_lock(b, direct),
        Key::Char(c) => if c == 'k' {
            VaultCommand::ListUp
        } else if c == 'j' {
            VaultCommand::ListDown
        } else if c == 'l' {
            open_at_cursor(b)
        } else if c == 'h' || c == 'q' {
            up_or_lock(b, direct)
        } else {
            list_letter_command(b, c)
        },
        _ => VaultCommand::Nothing,
    }
}

/// The panel with the keyboard (the list when no vault is open).
pub open spec fn panel_of(b: Option<BrowseState>) -> PanelFocus {
    match b {
        Some(x) => x.panel_focus,
        None => PanelFocus::List,
    }
}

/// Keys while browsing.
pub open spec fn browse_command(b: Option<BrowseState>, key: Key, direct: bool) -> VaultCommand {
    if panel_of(b) == PanelFocus::Tree { tree_command(b, key, direct) } else { list_command(b, key, direct) }
}

/// Keys on the rename and new-folder forms.
pub open spec fn name_form_command(key: Key, confirm: VaultCommand) -> VaultCommand {
    match key {
        Key::Esc => VaultCommand::ToBrowse,
        Key::Enter => confirm,
        Key::Char(c) => VaultCommand::Type(c),
        Key::Backspace => VaultCommand::Erase,
        _ => VaultCommand::Nothing,
    }
}

/// Keys on the delete confirmation.
pub open spec fn delete_command(key: Key) -> VaultCommand {
    match key {
        Key::Enter => VaultCommand::ConfirmDelete,
        Key::Esc => VaultCommand::ToBrowse,
        Key::Char(c) => if c == 'y' {
            VaultCommand::ConfirmDelete
        } else if c == 'n' {
            VaultCommand::ToBrowse
        } else {
            VaultCommand::Nothing
        },
        _ => VaultCommand::Nothing,
    }
}

/// Keys on the move-destination picker.
pub open spec fn move_command(key: Key) -> VaultCommand {
    match key {
        Key::Esc => VaultCommand::ToBrowse,
        Key::Enter => VaultCommand::ConfirmMove,
        Key::Up => VaultCommand::MoveCursorUp,
        Key::Down => VaultCommand::MoveCursorDown,
        Key::Char(c) => if c == 'q' {
            VaultCommand::ToBrowse
        } else if c == 'k' {
            VaultCommand::MoveCursorUp
        } else if c == 'j' {
            VaultCommand::MoveCursorDown
        } else {
            VaultCommand::Nothing
        },
        _ => VaultCommand::Nothing,
    }
}

/// The command a key gives on the vault page. Keys are ignored while work
/// runs or its result is shown. `yazi` says whether that picker is installed,
/// `direct` whether the vault was opened from the command line.
pub open spec fn vault_command_spec(s: VaultState, key: Key, yazi: bool, direct: bool) -> VaultCommand {
    match s.phase {
        Phase::VaultMenu { .. } => menu_command(key),
        Phase::Locked { focus, path_edit_mode, .. } => locked_command(focus, path_edit_mode, key, yazi),
        Phase::Creating { focus, path_edit_mode, .. } => creating_command(focus, path_edit_mode, key, yazi),
        Phase::ConfirmCreateDir { .. } => confirm_create_command(key),
        Phase::Browse => browse_command(s.browse, key, direct),
        Phase::Rename { .. } => name_form_command(key, VaultCommand::ConfirmRename),
        Phase::NewFolder { .. } => name_form_command(key, VaultCommand::ConfirmNewFolder),
        Phase::ConfirmDelete { .. } => delete_command(key),
        Phase::Move { .. } => move_command(key),
        _ => VaultCommand::Nothing,
    }
}

fn decide_menu(key: Key) -> (r: VaultCommand)
    ensures
        r == menu_command(key),
{
    match key {
        Key::Esc => VaultCommand::ToMainMenu,
        Key::Up => VaultCommand::MenuUp,
        Key::Down => VaultCommand::MenuDown,
        Key::Enter => VaultCommand::MenuSelect,
        Key::Char(c) => if c == 'q' || c == 'h' {
            VaultCommand::ToMainMenu
        } else if c == 'k' {
            VaultCommand::MenuUp
        } else if c == 'j' {
            VaultCommand::MenuDown
        } else if c == 'l' {
            VaultCommand::MenuSelect
        } else {
            VaultCommand::Nothing
        },
        _ => VaultCommand::Nothing,
    }
}

fn decide_shown_path(key: Key, yazi: bool, back: VaultCommand, target: FileBrowserTarget, next: VaultCommand) -> (r: VaultCommand)
    ensures
        r == shown_path_command(key, yazi, back, target, next),
{
    match key {
        Key::Esc => back,
        Key::Char(c) => if c == 't' {
            VaultCommand::EditMode(true)
        } else if c == 'b' {
            VaultCommand::Pick(Picker::Builtin, target)
        } else if c == 'y' && yazi {
            VaultCommand::Pick(Picker::Yazi, target)
        } else {
            VaultCommand::Nothing
        },
        Key::Enter => VaultCommand::Pick(pick_default(yazi), target),
        Key::Tab | Key::BackTab => next,
        _ => VaultCommand::Nothing,
    }
}

fn decide_locked(focus: usize, edit: bool, key: Key, yazi: bool) -> (r: VaultCommand)
    ensures
        r == locked_command(focus, edit, key, yazi),
{
    if focus == 0 && edit {
        match key {
            Key::Enter | Key::Esc => VaultCommand::EditMode(false),
            Key::Tab | Key::BackTab => VaultCommand::LeaveEditAndAdvance,
            Key::Char(c) => VaultCommand::Type(c),
            Key::Backspace => VaultCommand::Erase,
            _ => VaultCommand::Nothing,
        }
    } else if focus == 0 {
        decide_shown_path(key, yazi, VaultCommand::ToVaultMenu(0), FileBrowserTarget::VaultDir, VaultCommand::AdvanceFocus)
    } else {
        match key {
            Key::Esc => VaultCommand::ToVaultMenu(0),
            Key::Tab | Key::BackTab => VaultCommand::AdvanceFocus,
            Key::Enter => VaultCommand::StartUnlock,
            Key::Char(c) => VaultCommand::Type(c),
            Key::Backspace => VaultCommand::Erase,
            _ => VaultCommand::Nothing,
        }
    }
}

fn decide_creating(focus: usize, edit: bool, key: Key, yazi: bool) -> (r: VaultCommand)
    ensures
        r == creating_command(focus, edit, key, yazi),
{
    if focus == 0 && edit {
        match key {
            Key::Esc | Key::Enter | Key::Tab | Key::BackTab => VaultCommand::EditMode(false),
            Key::Char(c) => VaultCommand::Type(c),
            Key::Backspace => VaultCommand::Erase,
            _ => VaultCommand::Nothing,
        }
    } else if focus == 0 {
        decide_shown_path(key, yazi, VaultCommand::ToVaultMenu(1), FileBrowserTarget::VaultCreateDir,
            VaultCommand::AdvanceCreateFocus)
    } else {
        match key {
            Key::Esc => VaultCommand::ToVaultMenu(1),
            Key::Tab | Key::BackTab => VaultCommand::AdvanceCreateFocus,
            Key::Enter => if focus == 1 { VaultCommand::AdvanceCreateFocus } else { VaultCommand::StartCreate },
            Key::Char(c) => VaultCommand::Type(c),
            Key::Backspace => VaultCommand::Erase,
            _ => VaultCommand::Nothing,
        }
    }
}

fn decide_confirm_create(key: Key) -> (r: VaultCommand)
    ensures
        r == confirm_create_command(key),
{
    match key {
        Key::Enter => VaultCommand::ConfirmCreateDir,
        Key::Esc => VaultCommand::CancelCreateDir,
        Key::Char(c) => if c == 'y' {
            VaultCommand::ConfirmCreateDir
        } else if c == 'n' {
            VaultCommand::CancelCreateDir
        } else {
            VaultCommand::Nothing
        },
        _ => VaultCommand::Nothing,
    }
}

fn decide_up_or_lock(b: &Option<BrowseState>, direct: bool) -> (r: VaultCommand)
    ensures
        r == up_or_lock(*b, direct),
{
    let at_root = match b {
        Some(x) => x.current_path.unicode_len() == 0,
        None => true,
    };
    if !at_root {
        VaultCommand::NavigateUp
    } else if direct {
        VaultCommand::Quit
    } else {
        VaultCommand::Lock
    }
}

fn cursor_on_folder(b: &Option<BrowseState>) -> (r: bool)
    ensures
        r == on_folder(*b),
{
    match b {
        Some(x) => x.list_cursor < x.folders.len(),
        None => false,
    }
}

fn cursor_on_file(b: &Option<BrowseState>) -> (r: bool)
    ensures
        r == on_file(*b),
{
    match b {
        Some(x) => x.cursor_file_uuid().is_some(),
        None => false,
    }
}

fn decide_tree(b: &Option<BrowseState>, key: Key, direct: bool) -> (r: VaultCommand)
    ensures
        r == tree_command(*b, key, direct),
{
    match key {
        Key::Tab | Key::BackTab => VaultCommand::FocusPanel(PanelFocus::List),
        Key::Up => VaultCommand::TreeUp,
        Key::Down => VaultCommand::TreeDown,
        Key::Enter | Key::Right => VaultCommand::OpenTreeFolder,
        Key::Backspace | Key::Left | Key::Esc => decide_up_or_lock(b, direct),
        Key::Char(c) => if c == 'k' {
            VaultCommand::TreeUp
        } else if c == 'j' {
            VaultCommand::TreeDown
        } else if c == 'l' {
            VaultCommand::OpenTreeFolder
        } else if c == 'h' || c == 'q' {
            decide_up_or_lock(b, direct)
        } else if c == 'g' {
            VaultCommand::TreeGallery
        } else if c == 'G' {
            VaultCommand::PathGallery
        } else if c == 's' {
            VaultCommand::Save
        } else {
            VaultCommand::Nothing
        },
        _ => VaultCommand::Nothing,
    }
}

fn decide_open_at_cursor(b: &Option<BrowseState>) -> (r: VaultCommand)
    ensures
        r == open_at_cursor(*b),
{
    if cursor_on_folder(b) {
        VaultCommand::OpenFolder
    } else if cursor_on_file(b) {
        VaultCommand::PreviewFile
    } else {
        VaultCommand::Nothing
    }
}

fn decide_list_letter(b: &Option<BrowseState>, c: char) -> (r: VaultCommand)
    ensures
        r == list_letter_command(*b, c),
{
    if c == ' ' {
        VaultCommand::ToggleSelection
    } else if c == 'a' {
        VaultCommand::SelectAll
    } else if c == 'A' {
        VaultCommand::ClearSelection
    } else if c == 'i' {
        VaultCommand::PickFilesToAdd
    } else if c == 'e' {
        let some = match b {
            Some(x) => x.selected_uuids.len() > 0 || x.cursor_file_uuid().is_some(),
            None => false,
        };
        if some { VaultCommand::Export } else { VaultCommand::Nothing }
    } else if c == 'g' {
        if cursor_on_folder(b) { VaultCommand::FolderGallery } else { VaultCommand::Nothing }
    } else if c == 'o' {
        VaultCommand::CycleSort
    } else if c == 'O' {
        VaultCommand::ToggleSortDir
    } else if c == 'G' {
        VaultCommand::PathGallery
    } else if c == 'n' {
        VaultCommand::NewFolder
    } else if c == 'r' {
        VaultCommand::Rename
    } else if c == 'd' {
        VaultCommand::Delete
    } else if c == 'x' {
        VaultCommand::Cut
    } else if c == 'p' {
        VaultCommand::Paste
    } else if c == 'm' {
        VaultCommand::Move
    } else if c == 's' {
        VaultCommand::Save
    } else {
        VaultCommand::Nothing
    }
}

fn decide_list(b: &Option<BrowseState>, key: Key, direct: bool) -> (r: VaultCommand)
    ensures
        r == list_command(*b, key, direct),
{
    match key {
        Key::Tab | Key::BackTab => VaultCommand::FocusPanel(PanelFocus::Tree),
        Key::Up => VaultCommand::ListUp,
        Key::Down => VaultCommand::ListDown,
        Key::Enter | Key::Right => decide_open_at_cursor(b),
        Key::Backspace | Key::Left | Key::Esc => decide_up_or_lock(b, direct),
        Key::Char(c) => if c == 'k' {
            VaultCommand::ListUp
        } else if c == 'j' {
            VaultCommand::ListDown
        } else if c == 'l' {
            decide_open_at_cursor(b)
        } else if c == 'h' || c == 'q' {
            decide_up_or_lock(b, direct)
        } else {
            decide_list_letter(b, c)
        },
        _ => VaultCommand::Nothing,
    }
}

fn decide_name_form(key: Key, confirm: VaultCommand) -> (r: VaultCommand)
    ensures
        r == name_form_command(key, confirm),
{
    match key {
        Key::Esc => VaultCommand::ToBrowse,
        Key::Enter => confirm,
        Key::Char(c) => VaultCommand::Type(c),
        Key::Backspace => VaultCommand::Erase,
        _ => VaultCommand::Nothing,
    }
}

fn decide_delete(key: Key) -> (r: VaultCommand)
    ensures
        r == delete_command(key),
{
    match key {
        Key::Enter => VaultCommand::ConfirmDelete,
        Key::Esc => VaultCommand::ToBrowse,
        Key::Char(c) => if c == 'y' {
            VaultCommand::ConfirmDelete
        } else if c == 'n' {
            VaultCommand::ToBrowse
        } else {
            VaultCommand::Nothing
        },
        _ => VaultCommand::Nothing,
    }
}

fn decide_move(key: Key) -> (r: VaultCommand)
    ensures
        r == move_command(key),
{
    match key {
        Key::Esc => VaultCommand::ToBrowse,
        Key::Enter => VaultCommand::ConfirmMove,
        Key::Up => VaultCommand::MoveCursorUp,
        Key::Down => VaultCommand::MoveCursorDown,
        Key::Char(c) => if c == 'q' {
            VaultCommand::ToBrowse
        } else if c == 'k' {
            VaultCommand::MoveCursorUp
        } else if c == 'j' {
            VaultCommand::MoveCursorDown
        } else {
            VaultCommand::Nothing
        },
        _ => VaultCommand::Nothing,
    }
}

impl VaultState {
    /// The command `key` gives on the page (see `vault_command_spec`).
    pub fn key_command(&self, key: Key, yazi: bool, direct: bool) -> (r: VaultCommand)
        ensures
            r == vault_command_spec(*self, key, yazi, direct),
    {
        match &self.phase {
            Phase::VaultMenu { .. } => decide_menu(key),
            Phase::Locked { focus, path_edit_mode, .. } => decide_locked(*focus, *path_edit_mode, key, yazi),
            Phase::Creating { focus, path_edit_mode, .. } => decide_creating(*focus, *path_edit_mode, key, yazi),
            Phase::ConfirmCreateDir { .. } => decide_confirm_create(key),
            Phase::Browse => {
                let tree = match &self.browse {
                    Some(b) => b.panel_focus == PanelFocus::Tree,
                    None => false,
                };
                if tree {
                    decide_tree(&self.browse, key, direct)
                } else {
                    decide_list(&self.browse, key, direct)
                }
            },
            Phase::Rename { .. } => decide_name_form(key, VaultCommand::ConfirmRename),
            Phase::NewFolder { .. } => decide_name_form(key, VaultCommand::ConfirmNewFolder),
            Phase::ConfirmDelete { .. } => decide_delete(key),
            Phase::Move { .. } => decide_move(key),
            _ => VaultCommand::Nothing,
        }
    }
}

/// `p1` is the form `p0` with `edit` applied to its focused field; typing
/// into a form's path (or a new folder's name) clears the error shown.
pub open spec fn phase_edited(p0: Phase, p1: Phase, edit: spec_fn(Seq<char>) -> Seq<char>) -> bool {
    match p0 {
        Phase::Locked { vault_path, password, focus, path_edit_mode, error } => match p1 {
            Phase::Locked { vault_path: v, password: w, focus: f, path_edit_mode: m, error: e } =>
                f == focus && m == path_edit_mode && (if focus == 0 {
                    v@ == edit(vault_path@) && w == password && e is None
                } else {
                    v == vault_path && w@ == edit(password@) && e == error
                }),
            _ => false,
        },
        Phase::Creating { vault_path, blobs_dir, password, focus, path_edit_mode, error } => match p1 {
            Phase::Creating { vault_path: v, blobs_dir: d, password: w, focus: f, path_edit_mode: m, error: e } =>
                f == focus && m == path_edit_mode && (if focus == 0 {
                    v@ == edit(vault_path@) && d == blobs_dir && w == password && e is None
                } else if focus == 1 {
                    v == vault_path && d@ == edit(blobs_dir@) && w == password && e == error
                } else {
                    v == vault_path && d == blobs_dir && w@ == edit(password@) && e == error
                }),
            _ => false,
        },
        Phase::Rename { uuid, input } => match p1 {
            Phase::Rename { uuid: u, input: i } => u == uuid && i@ == edit(input@),
            _ => false,
        },
        Phase::NewFolder { parent, input, error } => match p1 {
            Phase::NewFolder { parent: q, input: i, error: e } => q == parent && i@ == edit(input@) && e is None,
            _ => false,
        },
        _ => p1 == p0,
    }
}

/// `p1` is the form `p0` with path editing set to `on`.
pub open spec fn phase_edit_mode(p0: Phase, p1: Phase, on: bool) -> bool {
    match p0 {
        Phase::Locked { vault_path, password, focus, error, .. } =>
            p1 == (Phase::Locked { vault_path, password, focus, path_edit_mode: on, error }),
        Phase::Creating { vault_path, blobs_dir, password, focus, error, .. } =>
            p1 == (Phase::Creating { vault_path, blobs_dir, password, focus, path_edit_mode: on, error }),
        _ => p1 == p0,
    }
}

/// `p1` is the form `p0` with the focus on its next field, path editing
/// stopped when `leave_edit`.
pub open spec fn phase_advanced(p0: Phase, p1: Phase, leave_edit: bool) -> bool {
    match p0 {
        Phase::Locked { vault_path, password, focus, path_edit_mode, error } =>
            p1 == (Phase::Locked { vault_path, password, focus: ((focus + 1) % 2) as usize,
                path_edit_mode: path_edit_mode && !leave_edit, error }),
        Phase::Creating { vault_path, blobs_dir, password, focus, path_edit_mode, error } =>
            p1 == (Phase::Creating { vault_path, blobs_dir, password, focus: ((focus + 1) % 3) as usize,
                path_edit_mode: path_edit_mode && !leave_edit, error }),
        _ => p1 == p0,
    }
}

/// `p1` is the move picker `p0` with its cursor a folder up (not past the
/// first) or down (not past the last of `n`).
pub open spec fn phase_move_cursor(p0: Phase, p1: Phase, up: bool, n: nat) -> bool {
    match p0 {
        Phase::Move { uuids, tree_cursor } => match p1 {
            Phase::Move { uuids: u, tree_cursor: t } => u == uuids && t == (if up {
                if tree_cursor > 0 { tree_cursor - 1 } else { 0 }
            } else {
                if n > 0 && tree_cursor < n - 1 { tree_cursor + 1 } else { tree_cursor as int }
            }),
            _ => false,
        },
        _ => p1 == p0,
    }
}

/// The number of folders in the tree (0 without an open vault).
pub open spec fn folder_count(b: Option<BrowseState>) -> nat {
    match b {
        Some(x) => x.all_folders@.len(),
        None => 0,
    }
}

/// `b1` is `b0` with only its selection changed, to `sel`'s views.
pub open spec fn selection_set_to(b0: Option<BrowseState>, b1: Option<BrowseState>, sel: spec_fn(BrowseState) -> Set<Seq<char>>) -> bool {
    match b0 {
        Some(x) => b1 matches Some(y) && y == (BrowseState { selected_uuids: y.selected_uuids, ..x })
            && strictly_sorted(views(y.selected_uuids@)) && views(y.selected_uuids@).to_set() == sel(x),
        None => b1 is None,
    }
}

/// The commands made here in full, with no effect for the caller.
pub open spec fn is_local(cmd: VaultCommand) -> bool {
    ||| cmd is ToVaultMenu
    ||| cmd is ToBrowse
    ||| cmd is EditMode
    ||| cmd is LeaveEditAndAdvance
    ||| cmd is AdvanceFocus
    ||| cmd is AdvanceCreateFocus
    ||| cmd is Type
    ||| cmd is Erase
    ||| cmd is FocusPanel
    ||| cmd is SelectAll
    ||| cmd is ClearSelection
    ||| cmd is MoveCursorUp
    ||| cmd is MoveCursorDown
}

/// What a local command makes of the page `s0`: `s1`.
pub open spec fn local_edit(s0: VaultState, s1: VaultState, cmd: VaultCommand) -> bool {
    &&& s1.pending_export_uuids == s0.pending_export_uuids
    &&& match cmd {
        VaultCommand::ToVaultMenu(n) => s1.phase == (Phase::VaultMenu { cursor: n }) && s1.browse == s0.browse,
        VaultCommand::ToBrowse => s1.phase == Phase::Browse && s1.browse == s0.browse,
        VaultCommand::EditMode(on) => phase_edit_mode(s0.phase, s1.phase, on) && s1.browse == s0.browse,
        VaultCommand::LeaveEditAndAdvance => phase_advanced(s0.phase, s1.phase, true) && s1.browse == s0.browse,
        VaultCommand::AdvanceFocus => phase_advanced(s0.phase, s1.phase, false) && s1.browse == s0.browse,
        VaultCommand::AdvanceCreateFocus => phase_advanced(s0.phase, s1.phase, false) && s1.browse == s0.browse,
        VaultCommand::Type(c) => phase_edited(s0.phase, s1.phase, |t: Seq<char>| t.push(c)) && s1.browse == s0.browse,
        VaultCommand::Erase => phase_edited(s0.phase, s1.phase, |t: Seq<char>| drop_last_or_empty(t)) && s1.browse == s0.browse,
        VaultCommand::FocusPanel(p) => s1.phase == s0.phase && match s0.browse {
            Some(x) => s1.browse == Some(BrowseState { panel_focus: p, ..x }),
            None => s1.browse is None,
        },
        VaultCommand::SelectAll => s1.phase == s0.phase && selection_set_to(s0.browse, s1.browse,
            |x: BrowseState| views(x.selected_uuids@).to_set() + views(x.file_uuids@).to_set()),
        VaultCommand::ClearSelection => s1.phase == s0.phase && selection_set_to(s0.browse, s1.browse,
            |x: BrowseState| Set::<Seq<char>>::empty()),
        VaultCommand::MoveCursorUp => s1.browse == s0.browse && phase_move_cursor(s0.phase, s1.phase, true, folder_count(s0.browse)),
        VaultCommand::MoveCursorDown => s1.browse == s0.browse && phase_move_cursor(s0.phase, s1.phase, false, folder_count(s0.browse)),
        _ => true,
    }
}

/// The path typed on the open or new-vault form (empty elsewhere).
pub open spec fn form_path(p: Phase) -> Seq<char> {
    match p {
        Phase::Locked { vault_path, .. } => vault_path@,
        Phase::Creating { vault_path, .. } => vault_path@,
        _ => Seq::empty(),
    }
}

/// The commands that leave the page as it is and only hand an effect back.
pub open spec fn is_handed_back(cmd: VaultCommand) -> bool {
    ||| cmd is Nothing
    ||| cmd is ToMainMenu
    ||| cmd is Quit
    ||| cmd is Pick
    ||| cmd is PickFilesToAdd
    ||| cmd is Save
    ||| cmd is StartCreate
}

/// The effect handed back for such a command on the page `s`.
pub open spec fn handed_back(s: VaultState, cmd: VaultCommand, e: VaultEffect) -> bool {
    match cmd {
        VaultCommand::ToMainMenu => e is ToMainMenu,
        VaultCommand::Quit => e is Quit,
        VaultCommand::Pick(p, t) => e matches VaultEffect::Pick { picker, target, hint }
            && picker == p && target == t && hint@ == form_path(s.phase),
        VaultCommand::PickFilesToAdd => e is PickFilesToAdd,
        VaultCommand::Save => e matches VaultEffect::Save(r) && r is Explicit,
        VaultCommand::StartCreate => if s.phase is Creating {
            e matches VaultEffect::CheckCreatePath(p) && p@ == form_path(s.phase)
        } else {
            e is Nothing
        },
        _ => e is Nothing,
    }
}

/// The files staged for export: the selection, else the file under the cursor.
pub open spec fn staged_export(b: BrowseState, staged: Seq<Seq<char>>) -> bool {
    staged == b.effective_spec()
}

/// The unlock job an effect carries, if any.
pub open spec fn unlock_job(e: VaultEffect) -> Option<UnlockJob> {
    match e {
        VaultEffect::Unlock(j) => Some(j),
        _ => None,
    }
}

/// The create job an effect carries, if any.
pub open spec fn create_job(e: VaultEffect) -> Option<CreateJob> {
    match e {
        VaultEffect::Create(j) => Some(j),
        _ => None,
    }
}

/// The preview job an effect carries, if any.
pub open spec fn preview_job(e: VaultEffect) -> Option<PreviewJob> {
    match e {
        VaultEffect::Preview(j) => Some(j),
        _ => None,
    }
}

/// The gallery job an effect carries, if any.
pub open spec fn gallery_job(e: VaultEffect) -> Option<GalleryJob> {
    match e {
        VaultEffect::Gallery(j) => Some(j),
        _ => None,
    }
}

/// The deletion an effect carries, if any.
pub open spec fn delete_work(e: VaultEffect) -> Option<DeleteWork> {
    match e {
        VaultEffect::Delete(w) => Some(w),
        _ => None,
    }
}

/// The count of moved files whose save an effect asks for, if any.
pub open spec fn moved_count(e: VaultEffect) -> Option<usize> {
    match e {
        VaultEffect::Save(SaveReason::Moved(n)) => Some(n),
        _ => None,
    }
}

/// A step on the open vault's browser: `step` relates the browser before and
/// after; the phase and the staged export are kept; nothing happens without
/// an open vault.
pub open spec fn browse_changed(s0: VaultState, s1: VaultState, step: spec_fn(BrowseState, BrowseState) -> bool) -> bool {
    &&& s1.phase == s0.phase
    &&& s1.pending_export_uuids == s0.pending_export_uuids
    &&& match s0.browse {
        Some(b0) => s1.browse matches Some(b1) && step(b0, b1),
        None => s1.browse is None,
    }
}

/// What the commands handed to the page's steps make of the page `s0` at time
/// `now`: `s1`, and the effect `e` carrying the step's job or result.
pub open spec fn delegated_step(s0: VaultState, s1: VaultState, cmd: VaultCommand, e: VaultEffect, now: u64) -> bool {
    match cmd {
        VaultCommand::Lock => locked_again(s0, s1) && e is Nothing,
        VaultCommand::MenuUp => menu_moved_up(s0, s1) && e is Nothing,
        VaultCommand::MenuDown => menu_moved_down(s0, s1) && e is Nothing,
        VaultCommand::MenuSelect => menu_selected(s0, s1) && e is Nothing,
        VaultCommand::StartUnlock => unlock_started(s0, s1, unlock_job(e)) && (e is Unlock || e is Nothing),
        VaultCommand::ConfirmCreateDir => create_dir_confirmed(s0, s1, create_job(e)) && (e is Create || e is Nothing),
        VaultCommand::CancelCreateDir => create_dir_cancelled(s0, s1) && e is Nothing,
        VaultCommand::NavigateUp => e is Nothing && browse_changed(s0, s1, |b0: BrowseState, b1: BrowseState|
            if b0.current_path@.len() > 0 { opened_folder(b0, b1, parent_folder(b0.current_path@)) } else { b1 == b0 }),
        VaultCommand::TreeUp => e is Nothing && browse_changed(s0, s1, |b0: BrowseState, b1: BrowseState| b1 == tree_moved_up(b0)),
        VaultCommand::TreeDown => e is Nothing && browse_changed(s0, s1, |b0: BrowseState, b1: BrowseState| b1 == tree_moved_down(b0)),
        VaultCommand::ListUp => e is Nothing && browse_changed(s0, s1, |b0: BrowseState, b1: BrowseState| b1 == list_moved_up(b0)),
        VaultCommand::ListDown => e is Nothing && browse_changed(s0, s1, |b0: BrowseState, b1: BrowseState| b1 == list_moved_down(b0)),
        VaultCommand::OpenTreeFolder => e is Nothing && browse_changed(s0, s1, |b0: BrowseState, b1: BrowseState|
            b1.panel_focus == PanelFocus::List
                && opened_folder(b0, BrowseState { panel_focus: b0.panel_focus, ..b1 }, b0.all_folders@[b0.tree_cursor as int]@)),
        VaultCommand::OpenFolder => e is Nothing && browse_changed(s0, s1, |b0: BrowseState, b1: BrowseState|
            if b0.list_cursor < b0.folders@.len() {
                opened_folder(b0, b1, full_path_spec(b0.current_path@, b0.folders@[b0.list_cursor as int]@))
            } else {
                b1 == b0
            }),
        VaultCommand::ToggleSelection => e is Nothing && browse_changed(s0, s1, |b0: BrowseState, b1: BrowseState| toggled(b0, b1)),
        VaultCommand::CycleSort => e is Nothing && browse_changed(s0, s1, |b0: BrowseState, b1: BrowseState|
            refreshed(BrowseState { sort_key: b0.sort_key.next_spec(), sort_dir: SortDir::Asc, ..b0 }, b1)),
        VaultCommand::ToggleSortDir => e is Nothing && browse_changed(s0, s1, |b0: BrowseState, b1: BrowseState|
            refreshed(BrowseState { sort_dir: b0.sort_dir.toggle_spec(), ..b0 }, b1)),
        VaultCommand::TreeGallery => (e is Gallery || e is Nothing) && match s0.browse {
            Some(b) => gallery_started(s0, s1, b.all_folders@[b.tree_cursor as int]@, now, gallery_job(e)),
            None => s1 == s0 && e is Nothing,
        },
        VaultCommand::PathGallery => (e is Gallery || e is Nothing) && match s0.browse {
            Some(b) => gallery_started(s0, s1, b.current_path@, now, gallery_job(e)),
            None => s1 == s0 && e is Nothing,
        },
        VaultCommand::FolderGallery => (e is Gallery || e is Nothing) && match s0.browse {
            Some(b) => if b.list_cursor < b.folders@.len() {
                gallery_started(s0, s1, full_path_spec(b.current_path@, b.folders@[b.list_cursor as int]@), now, gallery_job(e))
            } else {
                s1 == s0 && e is Nothing
            },
            None => s1 == s0 && e is Nothing,
        },
        VaultCommand::PreviewFile => (e is Preview || e is Nothing) && match s0.browse {
            Some(b) => match b.cursor_file_spec() {
                Some(u) => preview_started(s0, s1, u, preview_job(e)),
                None => s1 == s0 && e is Nothing,
            },
            None => s1 == s0 && e is Nothing,
        },
        VaultCommand::NewFolder => new_folder_opened(s0, s1) && e is Nothing,
        VaultCommand::Rename => rename_opened(s0, s1) && e is Nothing,
        VaultCommand::Delete => delete_opened(s0, s1) && e is Nothing,
        VaultCommand::Move => move_opened(s0, s1) && e is Nothing,
        VaultCommand::Cut => selection_cut(s0, s1, now) && e is Nothing,
        VaultCommand::Paste => pasted(s0, s1, now, moved_count(e)) && (moved_count(e) is Some || e is Nothing),
        VaultCommand::ConfirmRename => rename_confirmed(s0, s1, now) && e is Nothing,
        VaultCommand::ConfirmNewFolder => new_folder_confirmed(s0, s1, now) && e is Nothing,
        VaultCommand::ConfirmDelete => delete_confirmed(s0, s1, delete_work(e)) && (e is Delete || e is Nothing),
        VaultCommand::ConfirmMove => move_confirmed(s0, s1, moved_count(e)) && (moved_count(e) is Some || e is Nothing),
        _ => true,
    }
}

/// Export asked on `s0`: the files acted on are staged and the folder picker
/// asked for; with none, nothing happens.
pub open spec fn export_staged(s0: VaultState, s1: VaultState, e: VaultEffect) -> bool {
    &&& s1.phase == s0.phase
    &&& s1.browse == s0.browse
    &&& match s0.browse {
        Some(b) => if has_effective_selection(s0.browse) {
            e is PickExportDir && staged_export(b, views(s1.pending_export_uuids@))
        } else {
            e is Nothing && s1.pending_export_uuids == s0.pending_export_uuids
        },
        None => e is Nothing && s1.pending_export_uuids == s0.pending_export_uuids,
    }
}

/// The path of the folder `name` under `b`'s current folder.
fn child_path(b: &BrowseState, name: &str) -> (r: String)
    ensures
        r@ == crate::paths::full_path_spec(b.current_path@, name@),
{
    full_path(b.current_path.as_str(), name)
}

impl VaultState {
    /// The form's typed path, for a picker to start near.
    fn form_path_text(&self) -> (r: String)
        ensures
            r@ == form_path(self.phase),
    {
        match &self.phase {
            Phase::Locked { vault_path, .. } => vault_path.clone(),
            Phase::Creating { vault_path, .. } => vault_path.clone(),
            _ => String::new(),
        }
    }

    /// Apply `edit` to the focused field of the form.
    fn edit_field(&mut self, typed: Option<char>)
        ensures
            final(self).browse == old(self).browse,
            final(self).pending_export_uuids == old(self).pending_export_uuids,
            typed matches Some(c) ==> phase_edited(old(self).phase, final(self).phase, |t: Seq<char>| t.push(c)),
            typed is None ==> phase_edited(old(self).phase, final(self).phase, |t: Seq<char>| drop_last_or_empty(t)),
    {
        match &mut self.phase {
            Phase::Locked { vault_path, password, focus, error, .. } => {
                if *focus == 0 {
                    match typed {
                        Some(c) => push_char(vault_path, c),
                        None => pop_char(vault_path),
                    }
                    *error = None;
                } else {
                    match typed {
                        Some(c) => push_char(password, c),
                        None => pop_char(password),
                    }
                }
            },
            Phase::Creating { vault_path, blobs_dir, password, focus, error, .. } => {
                if *focus == 0 {
                    match typed {
                        Some(c) => push_char(vault_path, c),
                        None => pop_char(vault_path),
                    }
                    *error = None;
                } else if *focus == 1 {
                    match typed {
                        Some(c) => push_char(blobs_dir, c),
                        None => pop_char(blobs_dir),
                    }
                } else {
                    match typed {
                        Some(c) => push_char(password, c),
                        None => pop_char(password),
                    }
                }
            },
            Phase::Rename { input, .. } => {
                match typed {
                    Some(c) => push_char(input, c),
                    None => pop_char(input),
                }
            },
            Phase::NewFolder { input, error, .. } => {
                match typed {
                    Some(c) => push_char(input, c),
                    None => pop_char(input),
                }
                *error = None;
            },
            _ => {},
        }
    }

    /// Set path editing on the form.
    fn set_edit_mode(&mut self, on: bool)
        ensures
            final(self).browse == old(self).browse,
            final(self).pending_export_uuids == old(self).pending_export_uuids,
            phase_edit_mode(old(self).phase, final(self).phase, on),
    {
        match &mut self.phase {
            Phase::Locked { path_edit_mode, .. } => {
                *path_edit_mode = on;
            },
            Phase::Creating { path_edit_mode, .. } => {
                *path_edit_mode = on;
            },
            _ => {},
        }
    }

    /// Move the focus of the form to its next field, stopping path editing when `leave_edit`.
    fn advance_field(&mut self, leave_edit: bool)
        ensures
            final(self).browse == old(self).browse,
            final(self).pending_export_uuids == old(self).pending_export_uuids,
            phase_advanced(old(self).phase, final(self).phase, leave_edit),
    {
        match &mut self.phase {
            Phase::Locked { focus, path_edit_mode, .. } => {
                let f = *focus;
                *focus = (f % 2 + 1) % 2;
                assert((f % 2 + 1) % 2 == (f + 1) % 2) by (nonlinear_arith);
                if leave_edit {
                    *path_edit_mode = false;
                }
            },
            Phase::Creating { focus, path_edit_mode, .. } => {
                let f = *focus;
                *focus = (f % 3 + 1) % 3;
                assert((f % 3 + 1) % 3 == (f + 1) % 3) by (nonlinear_arith);
                if leave_edit {
                    *path_edit_mode = false;
                }
            },
            _ => {},
        }
    }

    /// Move the cursor of the move picker.
    fn move_picker_cursor(&mut self, up: bool)
        ensures
            final(self).browse == old(self).browse,
            final(self).pending_export_uuids == old(self).pending_export_uuids,
            phase_move_cursor(old(self).phase, final(self).phase, up, folder_count(old(self).browse)),
    {
        let n: usize = match &self.browse {
            Some(b) => b.all_folders.len(),
            None => 0,
        };
        if let Phase::Move { tree_cursor, .. } = &mut self.phase {
            if up {
                if *tree_cursor > 0 {
                    *tree_cursor = *tree_cursor - 1;
                }
            } else if n > 0 && *tree_cursor < n - 1 {
                *tree_cursor = *tree_cursor + 1;
            }
        }
    }

    /// Select every file listed (keeping what was selected), or clear the selection.
    fn set_selection_all(&mut self, all: bool)
        requires
            old(self).wf(),
        ensures
            final(self).wf(),
            final(self).phase == old(self).phase,
            final(self).pending_export_uuids == old(self).pending_export_uuids,
            all ==> selection_set_to(old(self).browse, final(self).browse,
                |x: BrowseState| views(x.selected_uuids@).to_set() + views(x.file_uuids@).to_set()),
            !all ==> selection_set_to(old(self).browse, final(self).browse, |x: BrowseState| Set::<Seq<char>>::empty()),
    {
        if let Some(b) = &mut self.browse {
            let ghost b0 = *b;
            if all {
                let mut i: usize = 0;
                while i < b.file_uuids.len()
                    invariant
                        b0.wf(),
                        i <= b.file_uuids@.len(),
                        *b == (BrowseState { selected_uuids: b.selected_uuids, ..b0 }),
                        strictly_sorted(views(b.selected_uuids@)),
                        views(b.selected_uuids@).to_set()
                            == views(b0.selected_uuids@).to_set() + views(b0.file_uuids@).subrange(0, i as int).to_set(),
                    decreases b.file_uuids@.len() - i,
                {
                    let u = b.file_uuids[i].clone();
                    insert_sorted_unique(&mut b.selected_uuids, u);
                    proof {
                        broadcast use vstd::seq_lib::group_seq_properties;
                        assert(views(b0.file_uuids@).subrange(0, i + 1) =~= views(b0.file_uuids@).subrange(0, i as int)
                            .push(b0.file_uuids@[i as int]@));
                        assert(views(b0.file_uuids@).subrange(0, i + 1).to_set()
                            =~= views(b0.file_uuids@).subrange(0, i as int).to_set().insert(b0.file_uuids@[i as int]@));
                    }
                    i = i + 1;
                }
                proof {
                    assert(views(b0.file_uuids@).subrange(0, b0.file_uuids@.len() as int) =~= views(b0.file_uuids@));
                }
            } else {
                b.selected_uuids = Vec::new();
                proof {
                    assert(views(b.selected_uuids@).to_set() =~= Set::<Seq<char>>::empty());
                }
            }
        }
    }
}

impl VaultState {
    /// Carry out `cmd` at time `now` (milliseconds): local commands edit the
    /// page here; leaving, picking, saving and creating are handed back as they
    /// are; the other commands go to the page's step of the same name, whose
    /// job, if any, is handed back. Staging an export needs files to export.
    pub fn run_command(&mut self, cmd: VaultCommand, now: u64) -> (e: VaultEffect)
        requires
            old(self).wf(),
        ensures
            final(self).wf(),
            is_local(cmd) ==> local_edit(*old(self), *final(self), cmd) && e is Nothing,
            is_handed_back(cmd) ==> *final(self) == *old(self) && handed_back(*old(self), cmd, e),
            cmd is Export ==> export_staged(*old(self), *final(self), e),
            delegated_step(*old(self), *final(self), cmd, e, now),
    {
        match cmd {
            VaultCommand::Nothing => VaultEffect::Nothing,
            VaultCommand::ToMainMenu => VaultEffect::ToMainMenu,
            VaultCommand::Quit => VaultEffect::Quit,
            VaultCommand::Lock => {
                self.lock();
                VaultEffect::Nothing
            },
            VaultCommand::NavigateUp => {
                if let Some(b) = &mut self.browse {
                    b.navigate_up();
                }
                VaultEffect::Nothing
            },
            VaultCommand::MenuUp => {
                self.menu_up();
                VaultEffect::Nothing
            },
            VaultCommand::MenuDown => {
                self.menu_down();
                VaultEffect::Nothing
            },
            VaultCommand::MenuSelect => {
                self.menu_select();
                VaultEffect::Nothing
            },
            VaultCommand::ToVaultMenu(n) => {
                self.phase = Phase::VaultMenu { cursor: n };
                VaultEffect::Nothing
            },
            VaultCommand::EditMode(on) => {
                self.set_edit_mode(on);
                VaultEffect::Nothing
            },
            VaultCommand::LeaveEditAndAdvance => {
                self.advance_field(true);
                VaultEffect::Nothing
            },
            VaultCommand::AdvanceFocus | VaultCommand::AdvanceCreateFocus => {
                self.advance_field(false);
                VaultEffect::Nothing
            },
            VaultCommand::Pick(picker, target) => {
                VaultEffect::Pick { picker, target, hint: self.form_path_text() }
            },
            VaultCommand::Type(c) => {
                self.edit_field(Some(c));
                VaultEffect::Nothing
            },
            VaultCommand::Erase => {
                self.edit_field(None);
                VaultEffect::Nothing
            },
            VaultCommand::StartUnlock => match self.start_unlock() {
                Some(job) => VaultEffect::Unlock(job),
                None => VaultEffect::Nothing,
            },
            VaultCommand::StartCreate => {
                if let Phase::Creating { vault_path, .. } = &self.phase {
                    VaultEffect::CheckCreatePath(vault_path.clone())
                } else {
                    VaultEffect::Nothing
                }
            },
            VaultCommand::ConfirmCreateDir => match self.confirm_create_dir() {
                Some(job) => VaultEffect::Create(job),
                None => VaultEffect::Nothing,
            },
            VaultCommand::CancelCreateDir => {
                self.cancel_create_dir();
                VaultEffect::Nothing
            },
            VaultCommand::FocusPanel(p) => {
                if let Some(b) = &mut self.browse {
                    b.panel_focus = p;
                }
                VaultEffect::Nothing
            },
            VaultCommand::TreeUp => {
                if let Some(b) = &mut self.browse {
                    b.move_tree_up();
                }
                VaultEffect::Nothing
            },
            VaultCommand::TreeDown => {
                if let Some(b) = &mut self.browse {
                    b.move_tree_down();
                }
                VaultEffect::Nothing
            },
            VaultCommand::OpenTreeFolder => {
                if let Some(b) = &mut self.browse {
                    b.navigate_tree_cursor();
                    b.panel_focus = PanelFocus::List;
                }
                VaultEffect::Nothing
            },
            VaultCommand::TreeGallery => match self.start_gallery_for_tree_cursor(now) {
                Some(job) => VaultEffect::Gallery(job),
                None => VaultEffect::Nothing,
            },
            VaultCommand::PathGallery => match self.start_gallery_for_current_path(now) {
                Some(job) => VaultEffect::Gallery(job),
                None => VaultEffect::Nothing,
            },
            VaultCommand::FolderGallery => {
                let path = match &self.browse {
                    Some(b) => match b.cursor_folder() {
                        Some(name) => child_path(b, name.as_str()),
                        None => {
                            return VaultEffect::Nothing;
                        },
                    },
                    None => {
                        return VaultEffect::Nothing;
                    },
                };
                match self.start_folder_gallery(path.as_str(), now) {
                    Some(job) => VaultEffect::Gallery(job),
                    None => VaultEffect::Nothing,
                }
            },
            VaultCommand::Save => VaultEffect::Save(SaveReason::Explicit),
            VaultCommand::ListUp => {
                if let Some(b) = &mut self.browse {
                    b.move_list_up();
                }
                VaultEffect::Nothing
            },
            VaultCommand::ListDown => {
                if let Some(b) = &mut self.browse {
                    b.move_list_down();
                }
                VaultEffect::Nothing
            },
            VaultCommand::OpenFolder => {
                if let Some(b) = &mut self.browse {
                    let name = match b.cursor_folder() {
                        Some(n) => n.clone(),
                        None => {
                            return VaultEffect::Nothing;
                        },
                    };
                    b.navigate_into(name.as_str());
                }
                VaultEffect::Nothing
            },
            VaultCommand::PreviewFile => {
                let uuid = match &self.browse {
                    Some(b) => match b.cursor_file_uuid() {
                        Some(u) => u.clone(),
                        None => {
                            return VaultEffect::Nothing;
                        },
                    },
                    None => {
                        return VaultEffect::Nothing;
                    },
                };
                match self.start_preview(uuid.as_str()) {
                    Some(job) => VaultEffect::Preview(job),
                    None => VaultEffect::Nothing,
                }
            },
            VaultCommand::ToggleSelection => {
                if let Some(b) = &mut self.browse {
                    b.toggle_selection();
                }
                VaultEffect::Nothing
            },
            VaultCommand::SelectAll => {
                self.set_selection_all(true);
                VaultEffect::Nothing
            },
            VaultCommand::ClearSelection => {
                self.set_selection_all(false);
                VaultEffect::Nothing
            },
            VaultCommand::PickFilesToAdd => VaultEffect::PickFilesToAdd,
            VaultCommand::Export => {
                let uuids = match &self.browse {
                    Some(b) => b.effective_selection(),
                    None => {
                        return VaultEffect::Nothing;
                    },
                };
                if uuids.len() == 0 {
                    proof {
                        assert(views(uuids@).len() == 0);
                    }
                    return VaultEffect::Nothing;
                }
                proof {
                    assert(views(uuids@).len() > 0);
                }
                self.pending_export_uuids = uuids;
                VaultEffect::PickExportDir
            },
            VaultCommand::CycleSort => {
                if let Some(b) = &mut self.browse {
                    b.cycle_sort_key();
                    b.refresh();
                }
                VaultEffect::Nothing
            },
            VaultCommand::ToggleSortDir => {
                if let Some(b) = &mut self.browse {
                    b.toggle_sort_dir();
                    b.refresh();
                }
                VaultEffect::Nothing
            },
            VaultCommand::NewFolder => {
                self.enter_new_folder();
                VaultEffect::Nothing
            },
            VaultCommand::Rename => {
                self.enter_rename();
                VaultEffect::Nothing
            },
            VaultCommand::Delete => {
                self.enter_delete();
                VaultEffect::Nothing
            },
            VaultCommand::Cut => {
                self.cut_selection(now);
                VaultEffect::Nothing
            },
            VaultCommand::Paste => match self.paste(now) {
                Some(n) => VaultEffect::Save(SaveReason::Moved(n)),
                None => VaultEffect::Nothing,
            },
            VaultCommand::Move => {
                self.enter_move();
                VaultEffect::Nothing
            },
            VaultCommand::ToBrowse => {
                self.phase = Phase::Browse;
                VaultEffect::Nothing
            },
            VaultCommand::ConfirmRename => {
                self.confirm_rename(now);
                VaultEffect::Nothing
            },
            VaultCommand::ConfirmNewFolder => {
                self.confirm_new_folder(now);
                VaultEffect::Nothing
            },
            VaultCommand::ConfirmDelete => match self.confirm_delete() {
                Some(work) => VaultEffect::Delete(work),
                None => VaultEffect::Nothing,
            },
            VaultCommand::ConfirmMove => match self.confirm_move() {
                Some(n) => VaultEffect::Save(SaveReason::Moved(n)),
                None => VaultEffect::Nothing,
            },
            VaultCommand::MoveCursorUp => {
                self.move_picker_cursor(true);
                VaultEffect::Nothing
            },
            VaultCommand::MoveCursorDown => {
                self.move_picker_cursor(false);
                VaultEffect::Nothing
            },
        }
    }

    /// Handle a key at time `now`: the command it gives (`vault_command_spec`),
    /// carried out as `run_command` says, and the effect left to the caller.
    pub fn handle_key(&mut self, key: Key, yazi: bool, direct: bool, now: u64) -> (r: (VaultCommand, VaultEffect))
        requires
            old(self).wf(),
        ensures
            final(self).wf(),
            r.0 == vault_command_spec(*old(self), key, yazi, direct),
            is_local(r.0) ==> local_edit(*old(self), *final(self), r.0) && r.1 is Nothing,
            is_handed_back(r.0) ==> *final(self) == *old(self) && handed_back(*old(self), r.0, r.1),
            delegated_step(*old(self), *final(self), r.0, r.1, now),
            r.0 is Export ==> export_staged(*old(self), *final(self), r.1),
    {
        let cmd = self.key_command(key, yazi, direct);
        let e = self.run_command(cmd, now);
        (cmd, e)
    }
}

} // verus!
