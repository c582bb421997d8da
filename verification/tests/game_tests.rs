use conways::{
    Action, Board, Cell, Color, Config, Game, InputEvent, Key, KeyKind, PointerAction,
    PointerButton,
};

fn plain_config() -> Config {
    Config { debug: false, wide: false, scoreboard: false }
}

fn press(code: Key) -> InputEvent {
    InputEvent::Key { code, kind: KeyKind::Press }
}

fn board_cells(b: &Board) -> Vec<Vec<Cell>> {
    let mut rows = Vec::new();
    for y in 0..b.height {
        let mut row = Vec::new();
        for x in 0..b.width {
            row.push(b.get(x, y));
        }
        rows.push(row);
    }
    rows
}

#[test]
fn config_reads_each_flag() {
    let args: Vec<String> = vec![
        "prog".to_string(),
        "-wide".to_string(),
        "extra".to_string(),
        "-score".to_string(),
    ];
    let c = Config::new(&args);
    assert!(!c.debug);
    assert!(c.wide);
    assert!(c.scoreboard);
}

#[test]
fn config_without_flags_is_all_off() {
    let args: Vec<String> = vec!["prog".to_string(), "--debug".to_string()];
    let c = Config::new(&args);
    assert!(!c.debug && !c.wide && !c.scoreboard);
}

#[test]
fn new_game_starts_paused_on_a_dead_board() {
    let g = Game::new(plain_config(), 10, 6);
    assert_eq!(g.board.width, 10);
    assert_eq!(g.board.height, 6);
    assert_eq!(g.speed, 100);
    assert!(g.pause);
    assert_eq!(g.color, Color::White);
    assert_eq!(g.population, vec![]);
    for y in 0..6 {
        for x in 0..10 {
            assert_eq!(g.board.get(x, y), Cell::Dead);
        }
    }
}

#[test]
fn new_game_halves_the_width_under_wide_cells() {
    let config = Config { debug: false, wide: true, scoreboard: false };
    let g = Game::new(config, 9, 5);
    assert_eq!(g.board.width, 4);
    assert_eq!(g.board.height, 5);
}

#[test]
fn resize_keeps_the_overlap_and_exposes_dead_cells() {
    let mut g = Game::new(plain_config(), 4, 4);
    g.board.set(0, 0, Cell::Alive(Color::Red));
    g.board.set(3, 1, Cell::Alive(Color::Blue));
    g.board.set(1, 3, Cell::Alive(Color::Green));
    g.resize_board(6, 2);
    assert_eq!(g.board.width, 6);
    assert_eq!(g.board.height, 2);
    assert_eq!(g.board.get(0, 0), Cell::Alive(Color::Red));
    assert_eq!(g.board.get(3, 1), Cell::Alive(Color::Blue));
    for y in 0..2 {
        for x in 4..6 {
            assert_eq!(g.board.get(x, y), Cell::Dead);
        }
    }
    g.resize_board(5, 4);
    assert_eq!(g.board.width, 5);
    assert_eq!(g.board.height, 4);
    assert_eq!(g.board.get(0, 0), Cell::Alive(Color::Red));
    assert_eq!(g.board.get(3, 1), Cell::Alive(Color::Blue));
    for y in 2..4 {
        for x in 0..5 {
            assert_eq!(g.board.get(x, y), Cell::Dead);
        }
    }
}

#[test]
fn resize_event_halves_the_width_under_wide_cells() {
    let config = Config { debug: false, wide: true, scoreboard: false };
    let mut g = Game::new(config, 8, 3);
    let a = g.handle_event(InputEvent::Resize(11, 7));
    assert_eq!(a, Action::Continue);
    assert_eq!(g.board.width, 5);
    assert_eq!(g.board.height, 7);
}

#[test]
fn primary_pointer_paints_the_active_color() {
    let mut g = Game::new(plain_config(), 8, 8);
    let a = g.handle_event(press(Key::Char('5')));
    assert_eq!(a, Action::Continue);
    assert_eq!(g.color, Color::Blue);
    let a = g.handle_event(InputEvent::Pointer {
        action: PointerAction::Press(PointerButton::Primary),
        column: 3,
        row: 2,
    });
    assert_eq!(a, Action::Continue);
    assert_eq!(g.board.get(3, 2), Cell::Alive(Color::Blue));
}

#[test]
fn secondary_pointer_erases() {
    let mut g = Game::new(plain_config(), 8, 8);
    g.board.set(4, 4, Cell::Alive(Color::Red));
    let a = g.handle_event(InputEvent::Pointer {
        action: PointerAction::Drag(PointerButton::Secondary),
        column: 4,
        row: 4,
    });
    assert_eq!(a, Action::Continue);
    assert_eq!(g.board.get(4, 4), Cell::Dead);
}

#[test]
fn pointer_column_is_halved_under_wide_cells() {
    let config = Config { debug: false, wide: true, scoreboard: false };
    let mut g = Game::new(config, 16, 8);
    let a = g.handle_event(InputEvent::Pointer {
        action: PointerAction::Press(PointerButton::Primary),
        column: 5,
        row: 1,
    });
    assert_eq!(a, Action::Continue);
    assert_eq!(g.board.get(2, 1), Cell::Alive(Color::White));
}

#[test]
fn pointer_off_the_grid_is_ignored() {
    let mut g = Game::new(plain_config(), 4, 4);
    let before = board_cells(&g.board);
    let a = g.handle_event(InputEvent::Pointer {
        action: PointerAction::Press(PointerButton::Primary),
        column: 9,
        row: 1,
    });
    assert_eq!(a, Action::Continue);
    assert_eq!(board_cells(&g.board), before);
}

#[test]
fn middle_pointer_button_is_ignored() {
    let mut g = Game::new(plain_config(), 4, 4);
    let before = board_cells(&g.board);
    let a = g.handle_event(InputEvent::Pointer {
        action: PointerAction::Press(PointerButton::Other),
        column: 1,
        row: 1,
    });
    assert_eq!(a, Action::Continue);
    assert_eq!(board_cells(&g.board), before);
}

#[test]
fn each_digit_key_selects_its_palette_color() {
    let mut g = Game::new(plain_config(), 4, 4);
    let expected = [
        ('1', Color::White),
        ('2', Color::Red),
        ('3', Color::Yellow),
        ('4', Color::Green),
        ('5', Color::Blue),
        ('6', Color::Cyan),
        ('7', Color::Magenta),
        ('8', Color::DarkGrey),
    ];
    for (ch, color) in expected {
        let a = g.handle_event(press(Key::Char(ch)));
        assert_eq!(a, Action::Continue);
        assert_eq!(g.color, color);
    }
}

#[test]
fn space_toggles_pause_and_resets_the_timer() {
    let mut g = Game::new(plain_config(), 4, 4);
    assert!(g.pause);
    let a = g.handle_event(press(Key::Char(' ')));
    assert_eq!(a, Action::ResetTimer);
    assert!(!g.pause);
    let a = g.handle_event(press(Key::Char(' ')));
    assert_eq!(a, Action::ResetTimer);
    assert!(g.pause);
}

#[test]
fn key_release_and_repeat_do_nothing() {
    let mut g = Game::new(plain_config(), 4, 4);
    let a = g.handle_event(InputEvent::Key { code: Key::Char(' '), kind: KeyKind::Release });
    assert_eq!(a, Action::Continue);
    assert!(g.pause);
    let a = g.handle_event(InputEvent::Key { code: Key::Esc, kind: KeyKind::Repeat });
    assert_eq!(a, Action::Continue);
}

#[test]
fn unhandled_characters_do_nothing() {
    let mut g = Game::new(plain_config(), 4, 4);
    let before = board_cells(&g.board);
    let a = g.handle_event(press(Key::Char('x')));
    assert_eq!(a, Action::Continue);
    assert_eq!(board_cells(&g.board), before);
    assert_eq!(g.color, Color::White);
    assert_eq!(g.speed, 100);
}

#[test]
fn escape_requests_exit() {
    let mut g = Game::new(plain_config(), 4, 4);
    assert_eq!(g.handle_event(press(Key::Esc)), Action::Exit);
}

#[test]
fn backspace_and_delete_clear_the_board() {
    let mut g = Game::new(plain_config(), 4, 4);
    g.board.set(2, 2, Cell::Alive(Color::Red));
    assert_eq!(g.handle_event(press(Key::Backspace)), Action::Continue);
    assert_eq!(g.board.get(2, 2), Cell::Dead);
    g.board.set(1, 1, Cell::Alive(Color::Blue));
    assert_eq!(g.handle_event(press(Key::Delete)), Action::Continue);
    assert_eq!(g.board.get(1, 1), Cell::Dead);
}

#[test]
fn up_and_down_step_the_interval_within_its_bounds() {
    let mut g = Game::new(plain_config(), 4, 4);
    assert_eq!(g.speed, 100);
    g.handle_event(press(Key::Up));
    assert_eq!(g.speed, 200);
    g.handle_event(press(Key::Down));
    g.handle_event(press(Key::Down));
    assert_eq!(g.speed, 0);
    g.handle_event(press(Key::Down));
    assert_eq!(g.speed, 0);
    g.speed = 10000;
    g.handle_event(press(Key::Up));
    assert_eq!(g.speed, 10000);
    g.speed = 9900;
    g.handle_event(press(Key::Up));
    assert_eq!(g.speed, 10000);
}

#[test]
fn tab_toggles_the_scoreboard_and_restarts_the_frame() {
    let mut g = Game::new(plain_config(), 4, 4);
    assert!(!g.config.scoreboard);
    assert_eq!(g.handle_event(press(Key::Tab)), Action::NextFrame);
    assert!(g.config.scoreboard);
    assert_eq!(g.handle_event(press(Key::Tab)), Action::NextFrame);
    assert!(!g.config.scoreboard);
}

#[test]
fn debug_key_toggles_the_debug_overlay() {
    let mut g = Game::new(plain_config(), 4, 4);
    assert!(!g.config.debug);
    assert_eq!(g.handle_event(press(Key::Char('d'))), Action::Continue);
    assert!(g.config.debug);
}

#[test]
fn randomize_key_keeps_the_dimensions() {
    let mut g = Game::new(plain_config(), 12, 9);
    assert_eq!(g.handle_event(press(Key::Char('r'))), Action::Continue);
    assert_eq!(g.board.width, 12);
    assert_eq!(g.board.height, 9);
}

#[test]
fn refresh_population_mirrors_the_board() {
    let mut g = Game::new(plain_config(), 5, 5);
    g.board.set(0, 0, Cell::Alive(Color::Red));
    g.board.set(1, 0, Cell::Alive(Color::Red));
    g.board.set(2, 0, Cell::Alive(Color::Grey));
    assert_eq!(g.population, vec![]);
    g.refresh_population();
    assert_eq!(g.population, vec![(Color::Red, 2), (Color::Grey, 1)]);
}

#[test]
fn should_step_waits_for_the_interval_while_unpaused() {
    let mut g = Game::new(plain_config(), 4, 4);
    assert!(!g.should_step(1000));
    g.pause = false;
    assert!(!g.should_step(99));
    assert!(g.should_step(100));
    assert!(g.should_step(5000));
    g.speed = 0;
    assert!(g.should_step(0));
}

#[test]
fn frame_wait_fills_the_frame_budget() {
    assert_eq!(Game::frame_wait(0), 15);
    assert_eq!(Game::frame_wait(10), 5);
    assert_eq!(Game::frame_wait(15), 0);
    assert_eq!(Game::frame_wait(100), 0);
}
