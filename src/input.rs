use vstd::prelude::*;
use crate::geometry::SnakeDirection;

verus! {

/// The keys that the game tells apart; every other key is `Other`.
#[derive(Clone, Copy, Debug, PartialEq, Eq, Structural)]
pub enum InputKey {
    W,
    A,
    S,
    D,
    Up,
    Down,
    Left,
    Right,
    Escape,
    Other,
}

#[derive(Clone, Copy, Debug, PartialEq, Eq, Structural)]
pub enum KeyAction {
    Press,
    Release,
    Repeat,
}

/// What a key press asks of the game.
#[derive(Clone, Copy, Debug, PartialEq, Eq, Structural)]
pub enum GameKey {
    Up,
    Right,
    Down,
    Left,
    Exit,
}

/// The game key of one key event: presses of WASD, the arrows and Escape.
pub open spec fn key_meaning(key: InputKey, action: KeyAction) -> Option<GameKey> {
    if action != KeyAction::Press {
        None
    } else {
        match key {
            InputKey::W | InputKey::Up => Some(GameKey::Up),
            InputKey::D | InputKey::Right => Some(GameKey::Right),
            InputKey::S | InputKey::Down => Some(GameKey::Down),
            InputKey::A | InputKey::Left => Some(GameKey::Left),
            InputKey::Escape => Some(GameKey::Exit),
            InputKey::Other => None,
        }
    }
}

/// The game key of the last event in `events` that has one.
pub open spec fn last_meaning(events: Seq<(InputKey, KeyAction)>) -> Option<GameKey>
    decreases events.len(),
{
    if events.len() == 0 {
        None
    } else {
        match key_meaning(events.last().0, events.last().1) {
            Some(k) => Some(k),
            None => last_meaning(events.drop_last()),
        }
    }
}

/// The direction that a game key asks for, if any.
pub open spec fn key_direction(k: GameKey) -> Option<SnakeDirection> {
    match k {
        GameKey::Up => Some(SnakeDirection::Up),
        GameKey::Right => Some(SnakeDirection::Right),
        GameKey::Down => Some(SnakeDirection::Down),
        GameKey::Left => Some(SnakeDirection::Left),
        GameKey::Exit => None,
    }
}

/// Maps one key event to a game key.
pub fn handle_input(key: InputKey, action: KeyAction) -> (r: Option<GameKey>)
    ensures
        r == key_meaning(key, action),
{
    if action != KeyAction::Press {
        return None;
    }
    match key {
        InputKey::W | InputKey::Up => Some(GameKey::Up),
        InputKey::D | InputKey::Right => Some(GameKey::Right),
        InputKey::S | InputKey::Down => Some(GameKey::Down),
        InputKey::A | InputKey::Left => Some(GameKey::Left),
        InputKey::Escape => Some(GameKey::Exit),
        InputKey::Other => None,
    }
}

/// Resolves the key events of one poll to at most one game key: the last
/// one observed wins.
pub fn last_game_key(events: &Vec<(InputKey, KeyAction)>) -> (r: Option<GameKey>)
    ensures
        r == last_meaning(events@),
{
    let mut pressed: Option<GameKey> = None;
    let mut i: usize = 0;
    while i < events.len()
        invariant
            i <= events@.len(),
            pressed == last_meaning(events@.subrange(0, i as int)),
        decreases events@.len() - i,
    {
        let (key, action) = events[i];
        let meaning = handle_input(key, action);
        proof {
            let prefix = events@.subrange(0, i as int + 1);
            assert(prefix.drop_last() =~= events@.subrange(0, i as int));
            assert(prefix.last() == events@[i as int]);
        }
        if meaning.is_some() {
            pressed = meaning;
        }
        i += 1;
    }
    proof {
        assert(events@.subrange(0, events@.len() as int) =~= events@);
    }
    pressed
}

impl GameKey {
    /// The direction this key asks for; `None` for `Exit`.
    pub fn direction(self) -> (r: Option<SnakeDirection>)
        ensures
            r == key_direction(self),
    {
        match self {
            GameKey::Up => Some(SnakeDirection::Up),
            GameKey::Right => Some(SnakeDirection::Right),
            GameKey::Down => Some(SnakeDirection::Down),
            GameKey::Left => Some(SnakeDirection::Left),
            GameKey::Exit => None,
        }
    }
}

} // verus!
