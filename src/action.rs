//! Input events, the actions they stand for, and the key bindings between them.
use vstd::prelude::*;

verus! {

/// Whether keys are typed into a text field or stand for commands.
#[derive(Clone, Copy, Debug, PartialEq, Eq, Structural)]
pub enum Mode {
    Input,
    Normal,
}

/// The keys the client tells apart.
#[derive(Clone, Copy, Debug, PartialEq, Eq, Structural)]
pub enum KeyCode {
    Tab,
    Up,
    Down,
    Enter,
    Char(char),
    Other,
}

/// A key press, with whether Control was held and nothing else.
#[derive(Clone, Copy, Debug, PartialEq, Eq, Structural)]
pub struct KeyPress {
    pub code: KeyCode,
    pub control_only: bool,
}

/// What the terminal reports.
#[derive(Clone, Copy, Debug, PartialEq, Eq, Structural)]
pub enum Event {
    Error,
    Render,
    Key(KeyPress),
}

#[derive(Clone, Copy, Debug, PartialEq, Eq, Structural)]
pub enum Action {
    Quit,
    ForceQuit,
    Render,
    Up,
    Down,
    VoteUp,
    VoteDown,
    Confirm,
    ShowHelp,
    SwitchToInputMode,
    SwitchToNormalMode,
    ChangeFocus,
    ChangeSort,
    ChangeTab(u8),
    ChangeSubTab(u8),
    Input(KeyPress),
}

impl Action {
    pub fn is_render(&self) -> (r: bool)
        ensures
            r == (*self == Action::Render),
    {
        match self {
            Action::Render => true,
            _ => false,
        }
    }
}

impl KeyPress {
    /// Control-C, in either case: the request to quit at once.
    pub fn is_ctrl_c(&self) -> (r: bool)
        ensures
            r == (self.control_only && (self.code == KeyCode::Char('c') || self.code
                == KeyCode::Char('C'))),
    {
        self.control_only && match self.code {
            KeyCode::Char(c) => c == 'c' || c == 'C',
            _ => false,
        }
    }
}

/// The command that a key stands for in normal mode.
pub open spec fn key_action(code: KeyCode) -> Option<Action> {
    match code {
        KeyCode::Tab => Some(Action::ChangeFocus),
        KeyCode::Down => Some(Action::Down),
        KeyCode::Up => Some(Action::Up),
        KeyCode::Enter => Some(Action::Confirm),
        KeyCode::Char(c) => if c == 'j' {
            Some(Action::Down)
        } else if c == 'k' {
            Some(Action::Up)
        } else if c == 'J' {
            Some(Action::VoteDown)
        } else if c == 'K' {
            Some(Action::VoteUp)
        } else if c == 'q' {
            Some(Action::Quit)
        } else if c == '?' {
            Some(Action::ShowHelp)
        } else if '1' <= c && c <= '3' {
            Some(Action::ChangeTab((c as u32 - '0' as u32) as u8))
        } else if c == '!' {
            Some(Action::ChangeSubTab(1))
        } else if c == '@' {
            Some(Action::ChangeSubTab(2))
        } else if c == '#' {
            Some(Action::ChangeSubTab(3))
        } else if c == '4' {
            Some(Action::ChangeSort)
        } else {
            None
        },
        KeyCode::Other => None,
    }
}

/// The command that a key stands for in normal mode, if any.
pub fn keycode_to_action(key: KeyPress) -> (r: Option<Action>)
    ensures
        r == key_action(key.code),
{
    match key.code {
        KeyCode::Tab => Some(Action::ChangeFocus),
        KeyCode::Down => Some(Action::Down),
        KeyCode::Up => Some(Action::Up),
        KeyCode::Enter => Some(Action::Confirm),
        KeyCode::Char(c) => {
            if c == 'j' {
                Some(Action::Down)
            } else if c == 'k' {
                Some(Action::Up)
            } else if c == 'J' {
                Some(Action::VoteDown)
            } else if c == 'K' {
                Some(Action::VoteUp)
            } else if c == 'q' {
                Some(Action::Quit)
            } else if c == '?' {
                Some(Action::ShowHelp)
            } else if '1' <= c && c <= '3' {
                Some(Action::ChangeTab((c as u32 - '0' as u32) as u8))
            } else if c == '!' {
                Some(Action::ChangeSubTab(1))
            } else if c == '@' {
                Some(Action::ChangeSubTab(2))
            } else if c == '#' {
                Some(Action::ChangeSubTab(3))
            } else if c == '4' {
                Some(Action::ChangeSort)
            } else {
                None
            }
        },
        KeyCode::Other => None,
    }
}

/// The action an event stands for: a redraw, the key itself in input mode,
/// its binding in normal mode. An error report stands for none.
pub fn event_to_action(mode: Mode, event: Event) -> (r: Option<Action>)
    ensures
        r == match event {
            Event::Error => None,
            Event::Render => Some(Action::Render),
            Event::Key(k) => if mode == Mode::Input {
                Some(Action::Input(k))
            } else {
                key_action(k.code)
            },
        },
{
    match event {
        Event::Error => None,
        Event::Render => Some(Action::Render),
        Event::Key(k) => match mode {
            Mode::Input => Some(Action::Input(k)),
            Mode::Normal => keycode_to_action(k),
        },
    }
}

} // verus!
