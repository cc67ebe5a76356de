//! What the game makes of what the terminal reports: keys, resizes and the
//! ticks of the clock go in, and what to do with the screen comes out.

use super::{Action, Direction, Game};
use crate::fatal::Fatal;
use crate::helper::SizeUsize;
use crate::view::View;
use vstd::prelude::*;

verus! {

/// A key of the keyboard, as far as the game tells keys apart.
#[derive(Clone, Copy, Debug, PartialEq, Eq, Structural)]
pub enum Key {
    Left,
    Right,
    Down,
    Up,
    Char(char),
    Other,
}

/// A report of a key.
#[derive(Clone, Copy, Debug, PartialEq, Eq, Structural)]
pub struct KeyEvent {
    pub key: Key,
    /// Whether the control key was held.
    pub control: bool,
    /// Whether no modifier key at all was held.
    pub unmodified: bool,
    /// Whether the key went down, rather than up or into repeat.
    pub pressed: bool,
}

/// What the terminal and the clock report.
#[derive(Clone, Copy, Debug, PartialEq, Eq, Structural)]
pub enum IoEvent {
    Key(KeyEvent),
    Resize(SizeUsize),
    Second,
    Panic(Fatal),
}

/// What to do with the screen after a report.
#[derive(Clone, Copy, Debug, PartialEq, Eq, Structural)]
pub enum IoStep {
    /// Draw the game again.
    Render,
    /// Wipe the screen, then draw the game again.
    ClearAndRender,
    /// Leave the screen and end.
    Quit,
    /// Leave the screen, tell the player why, and end.
    QuitWith(Fatal),
}

/// Whether a key asks to quit: `c` with the control key.
pub open spec fn asks_to_quit(key: KeyEvent) -> bool {
    key.key == Key::Char('c') && key.control
}

/// The action that a key stands for. Only a key pressed without modifiers
/// stands for one: the arrows move the cursor, the space bar reveals, `a`
/// reveals the neighbours, `f` flags and `r` starts over.
pub open spec fn action_of(key: KeyEvent) -> Option<Action> {
    if !key.unmodified || !key.pressed {
        None
    } else {
        match key.key {
            Key::Left => Some(Action::MoveCursor(Direction::Left)),
            Key::Right => Some(Action::MoveCursor(Direction::Right)),
            Key::Down => Some(Action::MoveCursor(Direction::Down)),
            Key::Up => Some(Action::MoveCursor(Direction::Up)),
            Key::Char(c) => if c == ' ' {
                Some(Action::Reveal)
            } else if c == 'a' {
                Some(Action::RevealAdjacent)
            } else if c == 'f' {
                Some(Action::Flag)
            } else if c == 'r' {
                Some(Action::Reset)
            } else {
                None
            },
            Key::Other => None,
        }
    }
}

/// The action that a report stands for, if any.
pub open spec fn action_for(event: IoEvent) -> Option<Action> {
    match event {
        IoEvent::Key(key) => if asks_to_quit(key) {
            None
        } else {
            action_of(key)
        },
        IoEvent::Resize(window_size) => Some(Action::Resize(window_size)),
        _ => None,
    }
}

/// The action that a key stands for.
pub fn parse_key(key: KeyEvent) -> (action: Option<Action>)
    ensures
        action == action_of(key),
{
    if !key.unmodified || !key.pressed {
        return None;
    }
    let action = match key.key {
        Key::Left => Action::MoveCursor(Direction::Left),
        Key::Right => Action::MoveCursor(Direction::Right),
        Key::Down => Action::MoveCursor(Direction::Down),
        Key::Up => Action::MoveCursor(Direction::Up),
        Key::Char(c) => {
            if c == ' ' {
                Action::Reveal
            } else if c == 'a' {
                Action::RevealAdjacent
            } else if c == 'f' {
                Action::Flag
            } else if c == 'r' {
                Action::Reset
            } else {
                return None;
            }
        },
        Key::Other => {
            return None;
        },
    };
    Some(action)
}

/// Takes one report: the game takes the action that it stands for, if it
/// stands for one, and the result says what to do with the screen.
///
/// A key that asks to quit ends the loop, and so does a failure, whether it
/// is reported or the action's own. A resize wipes the screen. Everything
/// else draws the game again.
pub fn step(game: &mut Game, event: IoEvent) -> (next: IoStep)
    requires
        old(game).wf(),
        old(game).model().in_world(),
        event matches IoEvent::Resize(window_size) ==> View::is_window(window_size),
    ensures
        final(game).wf(),
        match action_for(event) {
            Some(action) => {
                let (after, gave_up) = old(game).model().after(action);
                &&& final(game).model() == after
                &&& next == if gave_up {
                    IoStep::QuitWith(Fatal::TooManyClearCells)
                } else if event is Resize {
                    IoStep::ClearAndRender
                } else {
                    IoStep::Render
                }
            },
            None => {
                &&& final(game).model() == old(game).model()
                &&& next == match event {
                    IoEvent::Key(key) => if asks_to_quit(key) {
                        IoStep::Quit
                    } else {
                        IoStep::Render
                    },
                    IoEvent::Panic(fatal) => IoStep::QuitWith(fatal),
                    _ => IoStep::Render,
                }
            },
        },
{
    match event {
        IoEvent::Key(key) => {
            if key.control && matches!(key.key, Key::Char('c')) {
                return IoStep::Quit;
            }
            match parse_key(key) {
                Some(action) => match game.action(action) {
                    Ok(()) => IoStep::Render,
                    Err(fatal) => IoStep::QuitWith(fatal),
                },
                None => IoStep::Render,
            }
        },
        IoEvent::Resize(new_size) => match game.action(Action::Resize(new_size)) {
            Ok(()) => IoStep::ClearAndRender,
            Err(fatal) => IoStep::QuitWith(fatal),
        },
        IoEvent::Second => IoStep::Render,
        IoEvent::Panic(fatal) => IoStep::QuitWith(fatal),
    }
}

} // verus!
