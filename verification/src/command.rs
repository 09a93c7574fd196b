//! Player commands and their key bindings.

use vstd::prelude::*;

verus! {

/// One input event handed to the game.
#[derive(Debug, Clone, Copy, PartialEq, Eq, Structural)]
pub enum Command {
    /// Turn the active piece one step clockwise.
    Rotate,
    /// Hard-drop intent; currently leaves the state untouched.
    Immd,
    /// Shift the active piece one column to the right.
    MoveRight,
    /// Shift the active piece one column to the left.
    MoveLeft,
    /// Soft-drop the active piece by one row.
    Down,
    /// Swap the active piece with the held one.
    Reserve,
    /// Nothing to do.
    NoOp,
    /// The player wants to leave; the driver handles it, not the game.
    Quit,
}

impl Command {
    /// Whether the command shifts the pivot by one cell.
    pub open spec fn is_move(self) -> bool {
        self == Command::Down || self == Command::MoveLeft || self == Command::MoveRight
    }

    /// The command bound to a key code: `w`, `s`, `d`, `a`, `q`, `j`, `k`
    /// have a meaning of their own, every other byte means "nothing".
    pub open spec fn of_key(key: u8) -> Command {
        if key == 119 {
            Command::Immd
        } else if key == 115 {
            Command::Down
        } else if key == 100 {
            Command::MoveRight
        } else if key == 97 {
            Command::MoveLeft
        } else if key == 113 {
            Command::Quit
        } else if key == 106 {
            Command::Rotate
        } else if key == 107 {
            Command::Reserve
        } else {
            Command::NoOp
        }
    }

    /// Decodes one byte of keyboard input.  Every byte decodes to a command.
    pub fn parse_command(buffer: u8) -> (command: Option<Command>)
        ensures
            command == Some(Command::of_key(buffer)),
    {
        match buffer {
            119 => Some(Command::Immd),
            115 => Some(Command::Down),
            100 => Some(Command::MoveRight),
            97 => Some(Command::MoveLeft),
            113 => Some(Command::Quit),
            106 => Some(Command::Rotate),
            107 => Some(Command::Reserve),
            _ => Some(Command::NoOp),
        }
    }
}

} // verus!
