//! Keyboard input: what each key does, in normal and in editing mode.

use vstd::prelude::*;
use crate::tui::app::Screen;

verus! {

/// A key, as the terminal reports it.
#[derive(Debug, Clone, Copy, PartialEq, Eq, Structural)]
pub enum KeyCode {
    Char(char),
    Esc,
    Enter,
    Backspace,
    Up,
    Down,
    Left,
    Right,
    PageUp,
    PageDown,
    Home,
    End,
    Tab,
    BackTab,
    /// Any other key (function keys, insert, delete, ...).
    Other,
}

/// No modifier held.
pub const MOD_NONE: u8 = 0;

/// The shift modifier bit.
pub const MOD_SHIFT: u8 = 1;

/// The control modifier bit.
pub const MOD_CONTROL: u8 = 2;

/// A key press: the key and the bits of the modifiers held (shift 1,
/// control 2, alt 4, super 8, hyper 16, meta 32).
#[derive(Debug, Clone, Copy, PartialEq, Eq, Structural)]
pub struct KeyInput {
    pub code: KeyCode,
    pub modifiers: u8,
}

/// Key action result.
#[derive(Debug, Clone, Copy, PartialEq, Eq, Structural)]
pub enum KeyAction {
    /// No action
    NoOp,
    /// Quit the application
    Quit,
    /// Switch to screen
    SwitchScreen(Screen),
    /// Move selection up
    Up,
    /// Move selection down
    Down,
    /// Select / Enter
    Select,
    /// Go back / Cancel
    Back,
    /// Start text input (add channel)
    StartInput,
    /// Start message input (send message)
    StartMessageInput,
    /// Submit text input
    SubmitInput,
    /// Cancel text input
    CancelInput,
    /// Character input
    Char(char),
    /// Backspace
    Backspace,
    /// Refresh data
    Refresh,
    /// Toggle item
    Toggle,
    /// Delete item
    Delete,
    /// Page up
    PageUp,
    /// Page down
    PageDown,
    /// Home
    Home,
    /// End
    End,
    /// Move to previous tab
    TabLeft,
    /// Move to next tab
    TabRight,
    /// Start browse mode for channel selection
    StartBrowse,
}

/// What a plain (unmodified) character does outside editing mode.
pub open spec fn plain_char_action(c: char) -> KeyAction {
    if c == 'q' {
        KeyAction::Quit
    } else if c == '1' {
        KeyAction::SwitchScreen(Screen::Dashboard)
    } else if c == '2' {
        KeyAction::SwitchScreen(Screen::Channels)
    } else if c == '3' {
        KeyAction::SwitchScreen(Screen::Stats)
    } else if c == '4' {
        KeyAction::SwitchScreen(Screen::Users)
    } else if c == '5' {
        KeyAction::SwitchScreen(Screen::Settings)
    } else if c == '6' {
        KeyAction::SwitchScreen(Screen::Errors)
    } else if c == '?' {
        KeyAction::SwitchScreen(Screen::Help)
    } else if c == 'k' {
        KeyAction::Up
    } else if c == 'j' {
        KeyAction::Down
    } else if c == ' ' {
        KeyAction::Select
    } else if c == 'b' {
        KeyAction::StartBrowse
    } else if c == 'i' || c == '/' {
        KeyAction::StartInput
    } else if c == 'm' {
        KeyAction::StartMessageInput
    } else if c == 'r' {
        KeyAction::Refresh
    } else if c == 't' {
        KeyAction::Toggle
    } else if c == 'd' {
        KeyAction::Delete
    } else if c == 'g' {
        KeyAction::Home
    } else if c == 'h' {
        KeyAction::TabLeft
    } else if c == 'l' {
        KeyAction::TabRight
    } else {
        KeyAction::NoOp
    }
}

/// The action bound to a key press.
pub open spec fn key_action(key: KeyInput, in_edit_mode: bool) -> KeyAction {
    if in_edit_mode {
        match key.code {
            KeyCode::Esc => KeyAction::CancelInput,
            KeyCode::Enter => KeyAction::SubmitInput,
            KeyCode::Backspace => KeyAction::Backspace,
            KeyCode::Char(c) => KeyAction::Char(c),
            _ => KeyAction::NoOp,
        }
    } else {
        match key.code {
            KeyCode::Char(c) => if key.modifiers == MOD_NONE {
                plain_char_action(c)
            } else if c == 'c' && key.modifiers == MOD_CONTROL {
                KeyAction::Quit
            } else if c == 'G' && key.modifiers == MOD_SHIFT {
                KeyAction::End
            } else {
                KeyAction::NoOp
            },
            KeyCode::Up => KeyAction::Up,
            KeyCode::Down => KeyAction::Down,
            KeyCode::Enter => KeyAction::Select,
            KeyCode::Esc => KeyAction::Back,
            KeyCode::PageUp => KeyAction::PageUp,
            KeyCode::PageDown => KeyAction::PageDown,
            KeyCode::Home => KeyAction::Home,
            KeyCode::End => KeyAction::End,
            KeyCode::Left => if key.modifiers == MOD_NONE {
                KeyAction::TabLeft
            } else {
                KeyAction::NoOp
            },
            KeyCode::Right | KeyCode::Tab => if key.modifiers == MOD_NONE {
                KeyAction::TabRight
            } else {
                KeyAction::NoOp
            },
            KeyCode::BackTab => KeyAction::TabLeft,
            _ => KeyAction::NoOp,
        }
    }
}

fn plain_char(c: char) -> (a: KeyAction)
    ensures
        a == plain_char_action(c),
{
    match c {
        'q' => KeyAction::Quit,
        '1' => KeyAction::SwitchScreen(Screen::Dashboard),
        '2' => KeyAction::SwitchScreen(Screen::Channels),
        '3' => KeyAction::SwitchScreen(Screen::Stats),
        '4' => KeyAction::SwitchScreen(Screen::Users),
        '5' => KeyAction::SwitchScreen(Screen::Settings),
        '6' => KeyAction::SwitchScreen(Screen::Errors),
        '?' => KeyAction::SwitchScreen(Screen::Help),
        'k' => KeyAction::Up,
        'j' => KeyAction::Down,
        ' ' => KeyAction::Select,
        'b' => KeyAction::StartBrowse,
        'i' | '/' => KeyAction::StartInput,
        'm' => KeyAction::StartMessageInput,
        'r' => KeyAction::Refresh,
        't' => KeyAction::Toggle,
        'd' => KeyAction::Delete,
        'g' => KeyAction::Home,
        'h' => KeyAction::TabLeft,
        'l' => KeyAction::TabRight,
        _ => KeyAction::NoOp,
    }
}

/// Map a key event to an action.
pub fn map_key_event(key: KeyInput, in_edit_mode: bool) -> (a: KeyAction)
    ensures
        a == key_action(key, in_edit_mode),
{
    if in_edit_mode {
        match key.code {
            KeyCode::Esc => KeyAction::CancelInput,
            KeyCode::Enter => KeyAction::SubmitInput,
            KeyCode::Backspace => KeyAction::Backspace,
            KeyCode::Char(c) => KeyAction::Char(c),
            _ => KeyAction::NoOp,
        }
    } else {
        match key.code {
            KeyCode::Char(c) => {
                if key.modifiers == MOD_NONE {
                    plain_char(c)
                } else if c == 'c' && key.modifiers == MOD_CONTROL {
                    KeyAction::Quit
                } else if c == 'G' && key.modifiers == MOD_SHIFT {
                    KeyAction::End
                } else {
                    KeyAction::NoOp
                }
            },
            KeyCode::Up => KeyAction::Up,
            KeyCode::Down => KeyAction::Down,
            KeyCode::Enter => KeyAction::Select,
            KeyCode::Esc => KeyAction::Back,
            KeyCode::PageUp => KeyAction::PageUp,
            KeyCode::PageDown => KeyAction::PageDown,
            KeyCode::Home => KeyAction::Home,
            KeyCode::End => KeyAction::End,
            KeyCode::Left => {
                if key.modifiers == MOD_NONE {
                    KeyAction::TabLeft
                } else {
                    KeyAction::NoOp
                }
            },
            KeyCode::Right | KeyCode::Tab => {
                if key.modifiers == MOD_NONE {
                    KeyAction::TabRight
                } else {
                    KeyAction::NoOp
                }
            },
            KeyCode::BackTab => KeyAction::TabLeft,
            _ => KeyAction::NoOp,
        }
    }
}

/// Law: every screen's key switches to that screen outside editing mode.
pub proof fn lemma_screen_keys_switch(s: Screen)
    ensures
        key_action(KeyInput { code: KeyCode::Char(s.key_char()), modifiers: MOD_NONE }, false)
            == KeyAction::SwitchScreen(s),
{
}

/// Law: in editing mode every character is typed, whatever modifiers are held.
pub proof fn lemma_editing_types_chars(c: char, modifiers: u8)
    ensures
        key_action(KeyInput { code: KeyCode::Char(c), modifiers }, true) == KeyAction::Char(c),
{
}

} // verus!
