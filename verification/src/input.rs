//! Keys and the commands they stand for.

use crate::app::App;
use crate::model::{Command, ViewMode};
use vstd::prelude::*;

verus! {

/// A key press, as far as the viewer tells keys apart.
#[derive(Clone, Copy, Debug, PartialEq, Eq, Structural)]
pub enum Key {
    Char(char),
    Enter,
    Esc,
    Backspace,
    Tab,
    BackTab,
    Up,
    Down,
    PageUp,
    PageDown,
    Other,
}

/// The command of a character key outside the filter view. `ctrl` says
/// whether the control key was held.
pub open spec fn char_command(c: char, ctrl: bool) -> Option<Command> {
    if c == 'q' {
        Some(Command::Quit)
    } else if c == 'f' {
        Some(Command::ToggleFollow)
    } else if c == 't' {
        Some(Command::ToggleTimestamps)
    } else if c == 'n' {
        Some(Command::ToggleLineNumbers)
    } else if c == '/' {
        Some(Command::EnterFilterEdit)
    } else if c == 'c' && ctrl {
        Some(Command::ClearFilter)
    } else {
        None
    }
}

/// The command that a key stands for in a view, if any.
///
/// In the filter view characters go into the filter text, and only the
/// keys that edit, confirm or cancel it have a meaning. In the other views
/// characters are shortcuts, and the remaining keys scroll and switch tabs.
pub open spec fn key_command(mode: ViewMode, key: Key, ctrl: bool) -> Option<Command> {
    if mode == ViewMode::FilterView {
        match key {
            Key::Enter => Some(Command::ConfirmFilter),
            Key::Esc => Some(Command::CancelFilter),
            Key::Char(c) => Some(Command::FilterChar(c)),
            Key::Backspace => Some(Command::FilterBackspace),
            _ => None,
        }
    } else {
        match key {
            Key::Char(c) => char_command(c, ctrl),
            Key::Tab => Some(Command::NextTab),
            Key::BackTab => Some(Command::PrevTab),
            Key::Up => Some(Command::ScrollUp),
            Key::Down => Some(Command::ScrollDown),
            Key::PageUp => Some(Command::PageUp),
            Key::PageDown => Some(Command::PageDown),
            _ => None,
        }
    }
}

/// Decodes a key press in a view.
pub fn command_for(mode: ViewMode, key: Key, ctrl: bool) -> (command: Option<Command>)
    ensures
        command == key_command(mode, key, ctrl),
{
    if mode == ViewMode::FilterView {
        match key {
            Key::Enter => Some(Command::ConfirmFilter),
            Key::Esc => Some(Command::CancelFilter),
            Key::Char(c) => Some(Command::FilterChar(c)),
            Key::Backspace => Some(Command::FilterBackspace),
            _ => None,
        }
    } else {
        match key {
            Key::Char(c) => {
                if c == 'q' {
                    Some(Command::Quit)
                } else if c == 'f' {
                    Some(Command::ToggleFollow)
                } else if c == 't' {
                    Some(Command::ToggleTimestamps)
                } else if c == 'n' {
                    Some(Command::ToggleLineNumbers)
                } else if c == '/' {
                    Some(Command::EnterFilterEdit)
                } else if c == 'c' && ctrl {
                    Some(Command::ClearFilter)
                } else {
                    None
                }
            },
            Key::Tab => Some(Command::NextTab),
            Key::BackTab => Some(Command::PrevTab),
            Key::Up => Some(Command::ScrollUp),
            Key::Down => Some(Command::ScrollDown),
            Key::PageUp => Some(Command::PageUp),
            Key::PageDown => Some(Command::PageDown),
            _ => None,
        }
    }
}

impl App {
    /// Handles a key press: carries out the command that the key stands for
    /// in the current view, if any, and says whether the caller is to stop.
    pub fn handle_key(&mut self, key: Key, ctrl: bool) -> (quit: bool)
        requires
            old(self).wf(),
        ensures
            final(self).wf(),
            final(self)@ == match key_command(old(self)@.view_mode, key, ctrl) {
                Some(command) => old(self)@.apply(command),
                None => old(self)@,
            },
            quit == (key_command(old(self)@.view_mode, key, ctrl) == Some(Command::Quit)),
    {
        match command_for(self.view_mode(), key, ctrl) {
            Some(command) => self.apply(command),
            None => false,
        }
    }
}

} // verus!
