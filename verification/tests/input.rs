use rextedi::editor::Direction;
use rextedi::input::{decide_command, Command, Key};
use rextedi::log::{Log, Window};

#[test]
fn ctrl_keys_quit_and_save() {
    assert_eq!(decide_command(Key::Char('q'), true), Command::Quit);
    assert_eq!(decide_command(Key::Char('w'), true), Command::Save);
    assert_eq!(decide_command(Key::Char('x'), true), Command::Ignore);
}

#[test]
fn plain_keys_type() {
    assert_eq!(decide_command(Key::Char('q'), false), Command::Write('q'));
    assert_eq!(decide_command(Key::Char('w'), false), Command::Write('w'));
    assert_eq!(decide_command(Key::Char('ß'), false), Command::Write('ß'));
}

#[test]
fn editing_and_moving_keys() {
    assert_eq!(decide_command(Key::Backspace, false), Command::Delete);
    assert_eq!(decide_command(Key::Enter, true), Command::Newline);
    assert_eq!(decide_command(Key::Left, true), Command::Scroll(Direction::Left));
    assert_eq!(decide_command(Key::Right, true), Command::Scroll(Direction::Right));
    assert_eq!(decide_command(Key::Left, false), Command::Move(Direction::Left));
    assert_eq!(decide_command(Key::Right, false), Command::Move(Direction::Right));
    assert_eq!(decide_command(Key::Up, true), Command::Move(Direction::Up));
    assert_eq!(decide_command(Key::Down, false), Command::Move(Direction::Down));
    assert_eq!(decide_command(Key::Other, false), Command::Ignore);
}

#[test]
fn new_log_is_empty() {
    let window = Window { width: 80, height: 24 };
    let mut log = Log::new(&window);
    assert_eq!(log.contents, (String::new(), String::new()));
    assert_eq!(log.add_info_lifetime, 0);
    assert_eq!(log.update(), (23, "|  |".to_string(), String::new()));
}

#[test]
fn log_shows_info_while_it_lives() {
    let window = Window { width: 80, height: 24 };
    let mut log = Log::new(&window);
    log.contents.0 = "Ln 1, Col 1".to_string();
    log.contents.1 = "File saved".to_string();
    log.add_info_lifetime = 2;
    assert_eq!(log.update(), (23, "| Ln 1, Col 1 |".to_string(), " File saved".to_string()));
    assert_eq!(log.add_info_lifetime, 1);
    assert_eq!(log.update().2, " File saved");
    assert_eq!(log.add_info_lifetime, 0);
    assert_eq!(log.update().2, "");
    assert_eq!(log.add_info_lifetime, 0);
    assert_eq!(log.contents.1, "");
}

#[test]
fn lifetime_zero_keeps_info() {
    let window = Window { width: 80, height: 10 };
    let mut log = Log::new(&window);
    log.contents.1 = "note".to_string();
    for _ in 0..3 {
        assert_eq!(log.update(), (9, "|  |".to_string(), " note".to_string()));
        assert_eq!(log.add_info_lifetime, 0);
    }
}

#[test]
fn saved_notice_lasts_five_updates() {
    let window = Window { width: 80, height: 24 };
    let mut log = Log::new(&window);
    log.contents.1 = "File saved".to_string();
    log.add_info_lifetime = 5;
    for _ in 0..5 {
        assert_eq!(log.update().2, " File saved");
    }
    assert_eq!(log.update().2, "");
}

#[test]
fn positive_lifetime_shows_space_even_without_info() {
    let window = Window { width: 80, height: 10 };
    let mut log = Log::new(&window);
    log.add_info_lifetime = 2;
    assert_eq!(log.update().2, " ");
    assert_eq!(log.add_info_lifetime, 1);
}

#[test]
fn note_saved_shows_file_saved_five_times() {
    let window = Window { width: 80, height: 10 };
    let mut log = Log::new(&window);
    log.note_saved();
    assert_eq!(log.contents.1, "File saved");
    assert_eq!(log.add_info_lifetime, 5);
    for _ in 0..5 {
        assert_eq!(log.update().2, " File saved");
    }
    assert_eq!(log.update().2, "");
}
