use gol::control::{
    decide, frame_delay_micros, handle_keypress, Action, Command, Decision, Input, Key, Mode,
};

fn press(key: Key) -> Input {
    Input::Press { control: false, key }
}

#[test]
fn keys_of_a_running_game() {
    assert_eq!(handle_keypress(false, Key::Char('r')), Action::Restart);
    assert_eq!(handle_keypress(true, Key::Char('r')), Action::Restart);
    assert_eq!(handle_keypress(false, Key::Char(' ')), Action::Pause);
    assert_eq!(handle_keypress(false, Key::Char('q')), Action::Quit);
    assert_eq!(handle_keypress(false, Key::Esc), Action::Quit);
    assert_eq!(handle_keypress(true, Key::Char('c')), Action::Quit);
    assert_eq!(handle_keypress(false, Key::Char('c')), Action::Ignore);
    assert_eq!(handle_keypress(false, Key::Char('n')), Action::Ignore);
    assert_eq!(handle_keypress(true, Key::Other), Action::Ignore);
}

#[test]
fn running_game_decisions() {
    let run = |command| Decision { mode: Mode::Running, command };
    assert_eq!(decide(Mode::Running, Input::Nothing), run(Command::Sleep));
    assert_eq!(decide(Mode::Running, press(Key::Char('x'))), run(Command::Sleep));
    assert_eq!(decide(Mode::Running, press(Key::Char('r'))), run(Command::Restart));
    assert_eq!(decide(Mode::Running, press(Key::Esc)), run(Command::Quit));
    assert_eq!(
        decide(Mode::Running, Input::Press { control: true, key: Key::Char('c') }),
        run(Command::Quit)
    );
    assert_eq!(
        decide(Mode::Running, press(Key::Char(' '))),
        Decision { mode: Mode::Paused, command: Command::Wait }
    );
}

#[test]
fn paused_game_decisions() {
    let paused = |command| Decision { mode: Mode::Paused, command };
    assert_eq!(decide(Mode::Paused, Input::Nothing), paused(Command::Wait));
    assert_eq!(decide(Mode::Paused, press(Key::Char('n'))), paused(Command::Step));
    assert_eq!(decide(Mode::Paused, press(Key::Char('q'))), paused(Command::Quit));
    let resume = Decision { mode: Mode::Running, command: Command::Sleep };
    assert_eq!(decide(Mode::Paused, press(Key::Char(' '))), resume);
    assert_eq!(decide(Mode::Paused, press(Key::Esc)), resume);
    assert_eq!(decide(Mode::Paused, press(Key::Char('r'))), resume);
    assert_eq!(decide(Mode::Paused, press(Key::Other)), resume);
}

#[test]
fn frame_delay_values() {
    assert_eq!(frame_delay_micros(30), 33_333);
    assert_eq!(frame_delay_micros(1), 1_000_000);
    assert_eq!(frame_delay_micros(60), 16_666);
    assert_eq!(frame_delay_micros(2_000_000), 0);
}
