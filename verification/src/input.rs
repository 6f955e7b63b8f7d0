use vstd::prelude::*;
use crate::game::Direction;

verus! {

/// One discrete key event, as the driver reads it from the terminal.
#[derive(Clone, Copy, PartialEq, Eq, Structural, Debug)]
pub enum Key {
    Up,
    Down,
    Left,
    Right,
    Char(char),
    Other,
}

/// What the engine is asked to do with a key.
#[derive(Clone, Copy, PartialEq, Eq, Structural, Debug)]
pub enum Action {
    Turn(Direction),
    Quit,
    Ignore,
}

/// The stateless mapping from keys to actions: the arrow keys steer, the
/// letter q quits, every other key is ignored.
pub open spec fn action_for(k: Key) -> Action {
    match k {
        Key::Up => Action::Turn(Direction::Up),
        Key::Down => Action::Turn(Direction::Down),
        Key::Left => Action::Turn(Direction::Left),
        Key::Right => Action::Turn(Direction::Right),
        Key::Char(c) => if c == 'q' {
            Action::Quit
        } else {
            Action::Ignore
        },
        Key::Other => Action::Ignore,
    }
}

/// Translates one key event into a direction change, a quit signal, or
/// nothing, exactly as `action_for` says.
pub fn map_key(k: Key) -> (a: Action)
    ensures
        a == action_for(k),
{
    match k {
        Key::Up => Action::Turn(Direction::Up),
        Key::Down => Action::Turn(Direction::Down),
        Key::Left => Action::Turn(Direction::Left),
        Key::Right => Action::Turn(Direction::Right),
        Key::Char(c) => if c == 'q' {
            Action::Quit
        } else {
            Action::Ignore
        },
        Key::Other => Action::Ignore,
    }
}

} // verus!
