use conways::{Cell, Color, Config, DrawOp, Game};
use conways::text::{decimal_string, fraction_text, pad_left, pad_right};

fn is_print(op: &DrawOp, s: &str) -> bool {
    matches!(op, DrawOp::Print(t) if t == s)
}

fn printed(ops: &[DrawOp]) -> String {
    let mut out = String::new();
    for op in ops {
        if let DrawOp::Print(s) = op {
            out.push_str(s);
        }
    }
    out
}

#[test]
fn decimal_string_writes_exact_digits() {
    assert_eq!(decimal_string(0), "0");
    assert_eq!(decimal_string(7), "7");
    assert_eq!(decimal_string(10), "10");
    assert_eq!(decimal_string(10500), "10500");
    assert_eq!(decimal_string(18446744073709551615), "18446744073709551615");
}

#[test]
fn padding_fills_to_the_width() {
    assert_eq!(pad_left("42".to_string(), 7, "0"), "0000042");
    assert_eq!(pad_left("1234567".to_string(), 7, "0"), "1234567");
    assert_eq!(pad_left("12345678".to_string(), 7, "0"), "12345678");
    assert_eq!(pad_right("300".to_string(), 6, " "), "300   ");
    assert_eq!(pad_right("123456".to_string(), 6, " "), "123456");
}

#[test]
fn fraction_text_writes_exact_fixed_point_shares() {
    assert_eq!(fraction_text(1, 100), "00.0100%");
    assert_eq!(fraction_text(1, 3), "00.3333%");
    assert_eq!(fraction_text(5, 2), "02.5000%");
    assert_eq!(fraction_text(0, 25), "00.0000%");
    assert_eq!(fraction_text(200, 2), "100.0000%");
}

#[test]
fn render_of_a_tiny_dead_board_is_the_exact_sequence() {
    let config = Config { debug: false, wide: false, scoreboard: false };
    let g = Game::new(config, 2, 1);
    let ops = g.render();
    assert_eq!(ops.len(), 16);
    assert!(matches!(ops[0], DrawOp::MoveTo(0, 0)));
    assert!(matches!(ops[1], DrawOp::Reset));
    assert!(matches!(ops[2], DrawOp::SetFg(Color::Black)));
    assert!(is_print(&ops[3], "."));
    assert!(matches!(ops[4], DrawOp::Reset));
    assert!(matches!(ops[5], DrawOp::SetFg(Color::Black)));
    assert!(is_print(&ops[6], "."));
    assert!(matches!(ops[7], DrawOp::Reset));
    assert!(matches!(ops[8], DrawOp::MoveTo(0, 1)));
    assert!(matches!(ops[9], DrawOp::MoveTo(0, 0)));
    assert!(matches!(ops[10], DrawOp::SetBg(Color::White)));
    assert!(matches!(ops[11], DrawOp::SetFg(Color::White)));
    assert!(is_print(&ops[12], "#"));
    assert!(matches!(ops[13], DrawOp::Reset));
    assert!(is_print(&ops[14], " Speed: "));
    assert!(is_print(&ops[15], "PAUSE "));
}

#[test]
fn render_draws_live_cells_as_solid_blocks_of_their_color() {
    let config = Config { debug: false, wide: false, scoreboard: false };
    let mut g = Game::new(config, 1, 1);
    g.board.set(0, 0, Cell::Alive(Color::Cyan));
    let ops = g.render();
    assert!(matches!(ops[1], DrawOp::Reset));
    assert!(matches!(ops[2], DrawOp::SetFg(Color::Cyan)));
    assert!(matches!(ops[3], DrawOp::SetBg(Color::Cyan)));
    assert!(is_print(&ops[4], "@"));
}

#[test]
fn render_doubles_the_glyphs_under_wide_cells() {
    let config = Config { debug: false, wide: true, scoreboard: false };
    let mut g = Game::new(config, 4, 1);
    g.board.set(0, 0, Cell::Alive(Color::Red));
    let ops = g.render();
    let text = printed(&ops);
    assert!(text.starts_with("%%::"));
}

#[test]
fn render_shows_the_interval_once_unpaused() {
    let config = Config { debug: false, wide: false, scoreboard: false };
    let mut g = Game::new(config, 2, 1);
    g.pause = false;
    g.speed = 300;
    let ops = g.render();
    assert!(is_print(&ops[ops.len() - 1], "300   "));
    g.speed = 0;
    let ops = g.render();
    assert!(is_print(&ops[ops.len() - 1], "ASAP  "));
}

#[test]
fn debug_render_previews_the_next_generation() {
    let config = Config { debug: true, wide: false, scoreboard: false };
    let mut g = Game::new(config, 3, 1);
    // A lone live cell dies next generation: its preview foreground is
    // black, its background its current color.
    g.board.set(1, 0, Cell::Alive(Color::Green));
    let ops = g.render();
    assert!(matches!(ops[1], DrawOp::Reset));
    assert!(matches!(ops[2], DrawOp::SetFg(Color::Black)));
    assert!(is_print(&ops[3], "+"));
    assert!(matches!(ops[4], DrawOp::Reset));
    assert!(matches!(ops[5], DrawOp::SetFg(Color::Black)));
    assert!(matches!(ops[6], DrawOp::SetBg(Color::Green)));
    assert!(is_print(&ops[7], "+"));
}

#[test]
fn scoreboard_lists_shares_in_descending_count_order() {
    let config = Config { debug: false, wide: false, scoreboard: true };
    let mut g = Game::new(config, 40, 2);
    g.board.set(0, 0, Cell::Alive(Color::Red));
    g.board.set(1, 0, Cell::Alive(Color::Blue));
    g.board.set(2, 0, Cell::Alive(Color::Blue));
    g.board.set(3, 0, Cell::Alive(Color::Blue));
    g.refresh_population();
    assert_eq!(g.population, vec![(Color::Red, 1), (Color::Blue, 3)]);
    let ops = g.render();
    let mut swatches = Vec::new();
    for (i, op) in ops.iter().enumerate() {
        if let DrawOp::Print(s) = op {
            if s.ends_with('%') {
                if let DrawOp::SetBg(c) = ops[i - 2] {
                    swatches.push((c, s.clone()));
                }
            }
        }
    }
    assert_eq!(swatches.len(), 2);
    assert_eq!(swatches[0].0, Color::Blue);
    assert_eq!(swatches[0].1, "00.0375%");
    assert_eq!(swatches[1].0, Color::Red);
    assert_eq!(swatches[1].1, "00.0125%");
}

#[test]
fn scoreboard_labels_contrast_with_their_swatch() {
    let config = Config { debug: false, wide: false, scoreboard: true };
    let mut g = Game::new(config, 40, 2);
    g.board.set(0, 0, Cell::Alive(Color::DarkGrey));
    g.board.set(1, 0, Cell::Alive(Color::DarkGrey));
    g.board.set(2, 0, Cell::Alive(Color::Red));
    g.refresh_population();
    let ops = g.render();
    let mut labels = Vec::new();
    for (i, op) in ops.iter().enumerate() {
        if let DrawOp::Print(s) = op {
            if s.ends_with('%') {
                if let (DrawOp::SetBg(bg), DrawOp::SetFg(fg)) = (&ops[i - 2], &ops[i - 1]) {
                    labels.push((*bg, *fg));
                }
            }
        }
    }
    assert_eq!(labels, vec![(Color::DarkGrey, Color::White), (Color::Red, Color::Black)]);
}

#[test]
fn debug_render_doubles_the_glyph_under_wide_cells() {
    let config = Config { debug: true, wide: true, scoreboard: false };
    let g = Game::new(config, 2, 1);
    let ops = g.render();
    assert!(is_print(&ops[3], "[]"));
}

#[test]
fn scoreboard_truncates_when_the_line_is_full() {
    let config = Config { debug: false, wide: false, scoreboard: true };
    // 27 columns leave space for exactly one nine-column segment.
    let mut g = Game::new(config, 27, 2);
    g.board.set(0, 0, Cell::Alive(Color::Red));
    g.board.set(1, 0, Cell::Alive(Color::Blue));
    g.board.set(2, 0, Cell::Alive(Color::Blue));
    g.refresh_population();
    let ops = g.render();
    let segments = ops
        .iter()
        .filter(|op| matches!(op, DrawOp::Print(s) if s.ends_with('%')))
        .count();
    assert_eq!(segments, 1);
}

#[test]
fn scoreboard_off_prints_no_shares() {
    let config = Config { debug: false, wide: false, scoreboard: false };
    let mut g = Game::new(config, 40, 2);
    g.board.set(0, 0, Cell::Alive(Color::Red));
    g.refresh_population();
    let ops = g.render();
    assert!(!printed(&ops).contains('%'));
}
