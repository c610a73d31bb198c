use vstd::prelude::*;

use crate::selection::{SelectionState, SelectionView};

verus! {

/// The key that an input event names.
#[derive(Debug, Clone, Copy, PartialEq, Eq, Structural)]
pub enum KeyCode {
    Up,
    Down,
    Enter,
    Char(char),
    /// Any key that the selector does not read.
    Other,
}

/// Whether a key went down, repeated while held, or came up.
#[derive(Debug, Clone, Copy, PartialEq, Eq, Structural)]
pub enum KeyKind {
    Press,
    Repeat,
    Release,
}

/// One key event: the key, how it moved, and whether control was held.
#[derive(Debug, Clone, Copy, PartialEq, Eq, Structural)]
pub struct KeyInput {
    pub code: KeyCode,
    pub kind: KeyKind,
    pub control: bool,
}

/// One event of the terminal: a key, or anything else (a resize, the mouse).
#[derive(Debug, Clone, Copy, PartialEq, Eq, Structural)]
pub enum InputEvent {
    Key(KeyInput),
    Other,
}

/// What an event asks of the selection.
#[derive(Debug, Clone, Copy, PartialEq, Eq, Structural)]
pub enum Command {
    MoveUp,
    MoveDown,
    Confirm,
    Cancel,
}

/// How a session ends: with the identifier of the chosen entry, or cancelled.
#[derive(Debug, PartialEq, Eq)]
pub enum Outcome {
    Selected(String),
    Cancelled,
}

/// The command that an event stands for. Only presses count; "q" and
/// control+"c" cancel, up and "k" move up, down and "j" move down, enter
/// confirms, and everything else stands for nothing.
pub open spec fn command_of(e: InputEvent) -> Option<Command> {
    match e {
        InputEvent::Key(k) => if k.kind != KeyKind::Press {
            None
        } else {
            match k.code {
                KeyCode::Char('q') => Some(Command::Cancel),
                KeyCode::Char('c') => if k.control {
                    Some(Command::Cancel)
                } else {
                    None
                },
                KeyCode::Up | KeyCode::Char('k') => Some(Command::MoveUp),
                KeyCode::Down | KeyCode::Char('j') => Some(Command::MoveDown),
                KeyCode::Enter => Some(Command::Confirm),
                _ => None,
            }
        },
        InputEvent::Other => None,
    }
}

/// The selection after `c`, for a command that keeps the session going.
pub open spec fn after_command(v: SelectionView, c: Command) -> SelectionView {
    match c {
        Command::MoveUp => v.moved_up(),
        Command::MoveDown => v.moved_down(),
        _ => v,
    }
}

/// Whether `r` is how a session over `v` ends on the command `c`: with the
/// identifier under the cursor on confirm, cancelled on cancel, and not at all
/// on a move.
pub open spec fn ends_as(v: SelectionView, c: Command, r: Option<Outcome>) -> bool {
    match c {
        Command::Confirm => r matches Some(Outcome::Selected(id)) && id@
            == v.entries[v.highlight].identifier@,
        Command::Cancel => r == Some(Outcome::Cancelled),
        _ => r is None,
    }
}

/// Maps an event to the command it stands for.
pub fn command_for(e: &InputEvent) -> (r: Option<Command>)
    ensures
        r == command_of(*e),
{
    match e {
        InputEvent::Key(k) => {
            if k.kind != KeyKind::Press {
                return None;
            }
            match k.code {
                KeyCode::Char('q') => Some(Command::Cancel),
                KeyCode::Char('c') => {
                    if k.control {
                        Some(Command::Cancel)
                    } else {
                        None
                    }
                },
                KeyCode::Up | KeyCode::Char('k') => Some(Command::MoveUp),
                KeyCode::Down | KeyCode::Char('j') => Some(Command::MoveDown),
                KeyCode::Enter => Some(Command::Confirm),
                _ => None,
            }
        },
        InputEvent::Other => None,
    }
}

/// Carries out `c` on the selection. A move changes the cursor and keeps
/// the session going (`None`); confirm and cancel end it.
pub fn apply_command(state: &mut SelectionState, c: Command) -> (r: Option<Outcome>)
    requires
        old(state).wf(),
    ensures
        final(state).wf(),
        final(state).view() == after_command(old(state).view(), c),
        ends_as(old(state).view(), c, r),
{
    match c {
        Command::MoveUp => {
            state.move_up();
            None
        },
        Command::MoveDown => {
            state.move_down();
            None
        },
        Command::Confirm => Some(Outcome::Selected(state.current_highlight().identifier.clone())),
        Command::Cancel => Some(Outcome::Cancelled),
    }
}

/// Handles one event of the session: an event that stands for no command
/// changes nothing and keeps the session going.
pub fn handle_event(state: &mut SelectionState, e: &InputEvent) -> (r: Option<Outcome>)
    requires
        old(state).wf(),
    ensures
        final(state).wf(),
        match command_of(*e) {
            Some(c) => {
                &&& final(state).view() == after_command(old(state).view(), c)
                &&& ends_as(old(state).view(), c, r)
            },
            None => final(state).view() == old(state).view() && r is None,
        },
{
    match command_for(e) {
        Some(c) => apply_command(state, c),
        None => None,
    }
}

/// Every command keeps the selection well formed and leaves the entries and
/// the configured entry as they were.
pub proof fn lemma_command_keeps_configured(v: SelectionView, c: Command)
    requires
        v.wf(),
    ensures
        after_command(v, c).wf(),
        after_command(v, c).entries == v.entries,
        after_command(v, c).current == v.current,
{
}

} // verus!
