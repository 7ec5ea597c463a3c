//! The decisions of an interactive session: what a key means while the game
//! runs, what it means while the game is paused, and how long a frame lasts.
//!
//! Reading keys, sleeping and drawing are left to the caller, which feeds
//! each input to [`decide`] and carries out the command that comes back.

use vstd::prelude::*;

verus! {

/// A key, as far as a session tells keys apart.
#[derive(Clone, Copy, Debug, PartialEq, Eq, Structural)]
pub enum Key {
    Char(char),
    Esc,
    Other,
}

/// What a key asks of a running game.
#[derive(Clone, Copy, Debug, PartialEq, Eq, Structural)]
pub enum Action {
    Ignore,
    Quit,
    Pause,
    Restart,
}

/// What the caller has to hand over: a key press, with whether control alone
/// was held, or nothing.
#[derive(Clone, Copy, Debug, PartialEq, Eq, Structural)]
pub enum Input {
    Nothing,
    Press { control: bool, key: Key },
}

/// Whether generations follow each other by themselves.
#[derive(Clone, Copy, Debug, PartialEq, Eq, Structural)]
pub enum Mode {
    Running,
    Paused,
}

/// What the caller does next.
#[derive(Clone, Copy, Debug, PartialEq, Eq, Structural)]
pub enum Command {
    /// Wait one frame.
    Sleep,
    /// Start over on a new random board, draw it, and wait one frame.
    Restart,
    /// Advance one generation and draw it.
    Step,
    /// Do nothing but read the next input.
    Wait,
    /// End the session.
    Quit,
}

/// The mode to go on in, and what to do first.
#[derive(Clone, Copy, Debug, PartialEq, Eq, Structural)]
pub struct Decision {
    pub mode: Mode,
    pub command: Command,
}

/// What a key asks of a running game: `r` restarts, space pauses, and `q`,
/// escape or control with `c` quit.
pub open spec fn action_of(control: bool, key: Key) -> Action {
    if key == Key::Char('r') {
        Action::Restart
    } else if key == Key::Char(' ') {
        Action::Pause
    } else if key == Key::Char('q') || key == Key::Esc || (control && key == Key::Char('c')) {
        Action::Quit
    } else {
        Action::Ignore
    }
}

/// The decision on an input in a mode. A running game sleeps, restarts,
/// pauses or quits as the key asks. A paused game steps on `n`, quits on
/// `q`, resumes on any other key, and waits on when no key came.
pub open spec fn decision_of(mode: Mode, input: Input) -> Decision {
    match (mode, input) {
        (Mode::Running, Input::Nothing) => Decision { mode: Mode::Running, command: Command::Sleep },
        (Mode::Running, Input::Press { control, key }) => match action_of(control, key) {
            Action::Ignore => Decision { mode: Mode::Running, command: Command::Sleep },
            Action::Restart => Decision { mode: Mode::Running, command: Command::Restart },
            Action::Pause => Decision { mode: Mode::Paused, command: Command::Wait },
            Action::Quit => Decision { mode: Mode::Running, command: Command::Quit },
        },
        (Mode::Paused, Input::Nothing) => Decision { mode: Mode::Paused, command: Command::Wait },
        (Mode::Paused, Input::Press { control, key }) => if key == Key::Char('n') {
            Decision { mode: Mode::Paused, command: Command::Step }
        } else if key == Key::Char('q') {
            Decision { mode: Mode::Paused, command: Command::Quit }
        } else {
            Decision { mode: Mode::Running, command: Command::Sleep }
        },
    }
}

/// What a key asks of a running game.
pub fn handle_keypress(control: bool, key: Key) -> (action: Action)
    ensures
        action == action_of(control, key),
{
    match key {
        Key::Char('r') => Action::Restart,
        Key::Char(' ') => Action::Pause,
        Key::Char('q') => Action::Quit,
        Key::Esc => Action::Quit,
        Key::Char('c') => if control {
            Action::Quit
        } else {
            Action::Ignore
        },
        _ => Action::Ignore,
    }
}

/// Decides what a session does on `input` while in `mode`.
pub fn decide(mode: Mode, input: Input) -> (decision: Decision)
    ensures
        decision == decision_of(mode, input),
{
    match mode {
        Mode::Running => match input {
            Input::Nothing => Decision { mode: Mode::Running, command: Command::Sleep },
            Input::Press { control, key } => match handle_keypress(control, key) {
                Action::Ignore => Decision { mode: Mode::Running, command: Command::Sleep },
                Action::Restart => Decision { mode: Mode::Running, command: Command::Restart },
                Action::Pause => Decision { mode: Mode::Paused, command: Command::Wait },
                Action::Quit => Decision { mode: Mode::Running, command: Command::Quit },
            },
        },
        Mode::Paused => match input {
            Input::Nothing => Decision { mode: Mode::Paused, command: Command::Wait },
            Input::Press { control, key } => match key {
                Key::Char('n') => Decision { mode: Mode::Paused, command: Command::Step },
                Key::Char('q') => Decision { mode: Mode::Paused, command: Command::Quit },
                _ => Decision { mode: Mode::Running, command: Command::Sleep },
            },
        },
    }
}

/// The length of one frame in microseconds at `fps` frames per second.
pub fn frame_delay_micros(fps: u32) -> (micros: u64)
    requires
        fps >= 1,
    ensures
        micros == 1_000_000int / (fps as int),
{
    1_000_000u64 / (fps as u64)
}

} // verus!
