//! Keys as the pages tell them apart, and the key handling shared by the two
//! form pages (encrypt/decrypt and preview): a path field (focus 0), which is
//! either shown or edited, and a password field (focus 1).

use vstd::prelude::*;

verus! {

/// A key press.
#[derive(Clone, Copy, Debug, PartialEq, Eq, Structural)]
pub enum Key {
    Char(char),
    Enter,
    Esc,
    Tab,
    BackTab,
    Backspace,
    Up,
    Down,
    Left,
    Right,
    PageUp,
    PageDown,
    Home,
    End,
    /// Any key the pages ignore.
    Other,
}

/// Which picker chooses a path.
#[derive(Clone, Copy, Debug, PartialEq, Eq, Structural)]
pub enum Picker {
    /// The picker built into the interface.
    Builtin,
    /// The outside `yazi` file manager.
    Yazi,
}

/// The picker that Enter opens: `yazi` when it is installed.
pub open spec fn default_picker(yazi: bool) -> Picker {
    if yazi { Picker::Yazi } else { Picker::Builtin }
}

/// What a key does on a form page.
#[derive(Clone, Copy, Debug, PartialEq, Eq, Structural)]
pub enum FormStep {
    Nothing,
    /// Leave the page for the main menu.
    ToMenu,
    /// Choose the path with a picker, starting near the typed path.
    Pick(Picker),
    /// Start the page's operation.
    Start,
    /// Start or stop editing the path field.
    EditMode(bool),
    /// Stop editing the path and move to the password.
    LeaveEditAndAdvance,
    /// Move to the other field.
    Advance,
    TypePath(char),
    ErasePath,
    TypePassword(char),
    ErasePassword,
}

/// The step a key makes on a form page. A running operation takes no keys.
/// On the shown path: Esc leaves, `t` edits, `b` and (with `yazi`) `y` pick,
/// Enter picks with the default picker, Tab moves on. While editing the path,
/// characters are typed, Enter or Esc stop editing, Tab stops and moves on.
/// On the password: Esc leaves, Tab moves, Enter starts, characters are typed.
pub open spec fn form_step(busy: bool, focus: usize, edit: bool, key: Key, yazi: bool) -> FormStep {
    if busy {
        FormStep::Nothing
    } else if focus == 0 {
        if edit {
            match key {
                Key::Enter | Key::Esc => FormStep::EditMode(false),
                Key::Tab | Key::BackTab => FormStep::LeaveEditAndAdvance,
                Key::Char(c) => FormStep::TypePath(c),
                Key::Backspace => FormStep::ErasePath,
                _ => FormStep::Nothing,
            }
        } else {
            match key {
                Key::Esc => FormStep::ToMenu,
                Key::Char(c) => if c == 't' {
                    FormStep::EditMode(true)
                } else if c == 'b' {
                    FormStep::Pick(Picker::Builtin)
                } else if c == 'y' && yazi {
                    FormStep::Pick(Picker::Yazi)
                } else {
                    FormStep::Nothing
                },
                Key::Enter => FormStep::Pick(default_picker(yazi)),
                Key::Tab | Key::BackTab => FormStep::Advance,
                _ => FormStep::Nothing,
            }
        }
    } else {
        match key {
            Key::Esc => FormStep::ToMenu,
            Key::Tab | Key::BackTab => FormStep::Advance,
            Key::Enter => FormStep::Start,
            Key::Char(c) => FormStep::TypePassword(c),
            Key::Backspace => FormStep::ErasePassword,
            _ => FormStep::Nothing,
        }
    }
}

/// The default picker.
pub fn pick_default(yazi: bool) -> (r: Picker)
    ensures
        r == default_picker(yazi),
{
    if yazi { Picker::Yazi } else { Picker::Builtin }
}

/// Decide the step a key makes on a form page.
pub fn decide_form_step(busy: bool, focus: usize, edit: bool, key: Key, yazi: bool) -> (r: FormStep)
    ensures
        r == form_step(busy, focus, edit, key, yazi),
{
    if busy {
        return FormStep::Nothing;
    }
    if focus == 0 {
        if edit {
            match key {
                Key::Enter | Key::Esc => FormStep::EditMode(false),
                Key::Tab | Key::BackTab => FormStep::LeaveEditAndAdvance,
                Key::Char(c) => FormStep::TypePath(c),
                Key::Backspace => FormStep::ErasePath,
                _ => FormStep::Nothing,
            }
        } else {
            match key {
                Key::Esc => FormStep::ToMenu,
                Key::Char(c) => if c == 't' {
                    FormStep::EditMode(true)
                } else if c == 'b' {
                    FormStep::Pick(Picker::Builtin)
                } else if c == 'y' && yazi {
                    FormStep::Pick(Picker::Yazi)
                } else {
                    FormStep::Nothing
                },
                Key::Enter => FormStep::Pick(pick_default(yazi)),
                Key::Tab | Key::BackTab => FormStep::Advance,
                _ => FormStep::Nothing,
            }
        }
    } else {
        match key {
            Key::Esc => FormStep::ToMenu,
            Key::Tab | Key::BackTab => FormStep::Advance,
            Key::Enter => FormStep::Start,
            Key::Char(c) => FormStep::TypePassword(c),
            Key::Backspace => FormStep::ErasePassword,
            _ => FormStep::Nothing,
        }
    }
}

/// The main menu's cursor one entry up, wrapping from the first to the last of `n`.
pub fn menu_cursor_up(i: usize, n: usize) -> (r: usize)
    requires
        0 < n,
    ensures
        r == if i == 0 { n - 1 } else { i - 1 },
{
    if i == 0 { n - 1 } else { i - 1 }
}

/// The main menu's cursor one entry down, wrapping from the last of `n` to the first.
pub fn menu_cursor_down(i: usize, n: usize) -> (r: usize)
    requires
        0 < n,
        i < usize::MAX,
    ensures
        r == (i + 1) % (n as int),
{
    (i + 1) % n
}

/// What a key does on the main menu of `n` entries.
#[derive(Clone, Copy, Debug, PartialEq, Eq, Structural)]
pub enum MainMenuStep {
    Nothing,
    /// End the program.
    Quit,
    /// Highlight this entry.
    Highlight(usize),
    /// Open the page of this entry.
    Open(usize),
}

/// Keys on the main menu: `q`/Esc quit, `Up`/`k` and `Down`/`j` move the
/// highlight round the entries, Enter/`l` opens the highlighted page.
pub open spec fn main_menu_spec(cursor: usize, n: usize, key: Key) -> MainMenuStep {
    let up = if cursor == 0 { (n - 1) as usize } else { (cursor - 1) as usize };
    let down = ((cursor + 1) % (n as int)) as usize;
    match key {
        Key::Esc => MainMenuStep::Quit,
        Key::Up => MainMenuStep::Highlight(up),
        Key::Down => MainMenuStep::Highlight(down),
        Key::Enter => MainMenuStep::Open(cursor),
        Key::Char(c) => if c == 'q' {
            MainMenuStep::Quit
        } else if c == 'k' {
            MainMenuStep::Highlight(up)
        } else if c == 'j' {
            MainMenuStep::Highlight(down)
        } else if c == 'l' {
            MainMenuStep::Open(cursor)
        } else {
            MainMenuStep::Nothing
        },
        _ => MainMenuStep::Nothing,
    }
}

/// The step a key makes on the main menu.
pub fn main_menu_step(cursor: usize, n: usize, key: Key) -> (r: MainMenuStep)
    requires
        0 < n,
        cursor < n,
    ensures
        r == main_menu_spec(cursor, n, key),
{
    match key {
        Key::Esc => MainMenuStep::Quit,
        Key::Up => MainMenuStep::Highlight(menu_cursor_up(cursor, n)),
        Key::Down => MainMenuStep::Highlight(menu_cursor_down(cursor, n)),
        Key::Enter => MainMenuStep::Open(cursor),
        Key::Char(c) => if c == 'q' {
            MainMenuStep::Quit
        } else if c == 'k' {
            MainMenuStep::Highlight(menu_cursor_up(cursor, n))
        } else if c == 'j' {
            MainMenuStep::Highlight(menu_cursor_down(cursor, n))
        } else if c == 'l' {
            MainMenuStep::Open(cursor)
        } else {
            MainMenuStep::Nothing
        },
        _ => MainMenuStep::Nothing,
    }
}

} // verus!
