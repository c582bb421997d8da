use conways::{Board, Cell, Color};

fn live_cells(b: &Board) -> Vec<(u16, u16)> {
    let mut out = Vec::new();
    for y in 0..b.height {
        for x in 0..b.width {
            if let Cell::Alive(_) = b.get(x, y) {
                out.push((x, y));
            }
        }
    }
    out
}

#[test]
fn new_board_is_all_dead() {
    let b = Board::new(7, 4);
    assert_eq!(b.width, 7);
    assert_eq!(b.height, 4);
    for y in 0..4 {
        for x in 0..7 {
            assert_eq!(b.get(x, y), Cell::Dead);
        }
    }
}

#[test]
fn update_on_all_dead_board_stays_all_dead() {
    let mut b = Board::new(6, 5);
    b.update();
    assert_eq!(b.width, 6);
    assert_eq!(b.height, 5);
    for y in 0..5 {
        for x in 0..6 {
            assert_eq!(b.get(x, y), Cell::Dead);
        }
    }
}

#[test]
fn live_cell_with_two_neighbors_keeps_its_color() {
    let mut b = Board::new(3, 3);
    b.set(1, 1, Cell::Alive(Color::Red));
    b.set(0, 0, Cell::Alive(Color::Blue));
    b.set(2, 2, Cell::Alive(Color::Green));
    b.update();
    assert_eq!(b.get(1, 1), Cell::Alive(Color::Red));
}

#[test]
fn live_cell_with_three_neighbors_keeps_its_color() {
    let mut b = Board::new(3, 3);
    b.set(1, 1, Cell::Alive(Color::Magenta));
    b.set(0, 0, Cell::Alive(Color::Blue));
    b.set(2, 0, Cell::Alive(Color::Cyan));
    b.set(1, 2, Cell::Alive(Color::White));
    b.update();
    assert_eq!(b.get(1, 1), Cell::Alive(Color::Magenta));
}

#[test]
fn live_cell_with_one_neighbor_dies() {
    let mut b = Board::new(3, 3);
    b.set(1, 1, Cell::Alive(Color::Red));
    b.set(0, 0, Cell::Alive(Color::Red));
    b.update();
    assert_eq!(b.get(1, 1), Cell::Dead);
}

#[test]
fn live_cell_with_four_neighbors_dies() {
    let mut b = Board::new(3, 3);
    b.set(1, 1, Cell::Alive(Color::Red));
    b.set(0, 0, Cell::Alive(Color::Red));
    b.set(2, 0, Cell::Alive(Color::Red));
    b.set(0, 2, Cell::Alive(Color::Red));
    b.set(2, 2, Cell::Alive(Color::Red));
    b.update();
    assert_eq!(b.get(1, 1), Cell::Dead);
}

#[test]
fn birth_from_three_neighbors_of_one_color() {
    let mut b = Board::new(3, 3);
    b.set(0, 0, Cell::Alive(Color::Green));
    b.set(2, 0, Cell::Alive(Color::Green));
    b.set(1, 2, Cell::Alive(Color::Green));
    b.update();
    assert_eq!(b.get(1, 1), Cell::Alive(Color::Green));
}

#[test]
fn birth_from_two_and_one_takes_the_majority_color() {
    let mut b = Board::new(3, 3);
    b.set(0, 0, Cell::Alive(Color::Red));
    b.set(2, 0, Cell::Alive(Color::Red));
    b.set(1, 2, Cell::Alive(Color::Blue));
    b.update();
    assert_eq!(b.get(1, 1), Cell::Alive(Color::Red));
}

#[test]
fn birth_from_two_and_one_is_reproducible() {
    for _ in 0..32 {
        let mut b = Board::new(3, 3);
        b.set(0, 0, Cell::Alive(Color::Cyan));
        b.set(1, 0, Cell::Alive(Color::Yellow));
        b.set(2, 0, Cell::Alive(Color::Cyan));
        b.update();
        assert_eq!(b.get(1, 1), Cell::Alive(Color::Cyan));
    }
}

#[test]
fn birth_from_three_distinct_colors_is_one_of_them() {
    for _ in 0..32 {
        let mut b = Board::new(3, 3);
        b.set(0, 0, Cell::Alive(Color::Red));
        b.set(2, 0, Cell::Alive(Color::Blue));
        b.set(1, 2, Cell::Alive(Color::Green));
        b.update();
        let born = b.get(1, 1);
        assert!(
            born == Cell::Alive(Color::Red) || born == Cell::Alive(Color::Blue)
                || born == Cell::Alive(Color::Green),
            "born cell must take a contributing color",
        );
    }
}

#[test]
fn dead_cell_with_two_neighbors_stays_dead() {
    let mut b = Board::new(3, 3);
    b.set(0, 0, Cell::Alive(Color::Red));
    b.set(2, 0, Cell::Alive(Color::Red));
    b.update();
    assert_eq!(b.get(1, 1), Cell::Dead);
}

#[test]
fn set_out_of_range_is_a_no_op() {
    let mut b = Board::new(3, 2);
    b.set(1, 1, Cell::Alive(Color::Red));
    b.set(3, 0, Cell::Alive(Color::Blue));
    b.set(0, 2, Cell::Alive(Color::Blue));
    b.set(9, 9, Cell::Alive(Color::Blue));
    assert_eq!(b.width, 3);
    assert_eq!(b.height, 2);
    for y in 0..2 {
        for x in 0..3 {
            if (x, y) == (1, 1) {
                assert_eq!(b.get(x, y), Cell::Alive(Color::Red));
            } else {
                assert_eq!(b.get(x, y), Cell::Dead);
            }
        }
    }
}

#[test]
fn clear_kills_every_cell() {
    let mut b = Board::new(4, 4);
    b.set(0, 0, Cell::Alive(Color::Red));
    b.set(3, 3, Cell::Alive(Color::Blue));
    b.clear();
    for y in 0..4 {
        for x in 0..4 {
            assert_eq!(b.get(x, y), Cell::Dead);
        }
    }
}

#[test]
fn count_population_lists_each_live_color_once_and_omits_dead() {
    let mut b = Board::new(5, 5);
    b.set(0, 0, Cell::Alive(Color::Red));
    b.set(3, 2, Cell::Alive(Color::Blue));
    let pop = b.count_population();
    assert_eq!(pop, vec![(Color::Red, 1), (Color::Blue, 1)]);
}

#[test]
fn count_population_counts_per_color() {
    let mut b = Board::new(4, 4);
    b.set(0, 0, Cell::Alive(Color::White));
    b.set(1, 0, Cell::Alive(Color::Yellow));
    b.set(2, 0, Cell::Alive(Color::Yellow));
    b.set(3, 3, Cell::Alive(Color::Yellow));
    let pop = b.count_population();
    assert_eq!(pop, vec![(Color::White, 1), (Color::Yellow, 3)]);
}

#[test]
fn count_population_of_empty_board_is_empty() {
    let b = Board::new(6, 3);
    assert_eq!(b.count_population(), vec![]);
}

#[test]
fn randomize_keeps_dimensions() {
    let mut b = Board::new(8, 6);
    b.randomize();
    assert_eq!(b.width, 8);
    assert_eq!(b.height, 6);
    for y in 0..6 {
        for x in 0..8 {
            let _ = b.get(x, y);
        }
    }
}

#[test]
fn random_cell_draws_only_palette_colors() {
    for _ in 0..256 {
        match Board::random_cell(2) {
            Cell::Dead => {},
            Cell::Alive(c) => {
                assert!(c != Color::Black && c != Color::Grey);
            },
        }
    }
}

#[test]
fn zero_sized_board_is_inert() {
    let mut b = Board::new(0, 0);
    b.set(0, 0, Cell::Alive(Color::Red));
    b.update();
    b.clear();
    b.randomize();
    assert_eq!(b.width, 0);
    assert_eq!(b.height, 0);
    assert_eq!(b.count_population(), vec![]);
}

#[test]
fn glider_advances_one_generation() {
    let mut b = Board::new(5, 5);
    b.set(1, 0, Cell::Alive(Color::White));
    b.set(2, 1, Cell::Alive(Color::White));
    b.set(0, 2, Cell::Alive(Color::White));
    b.set(1, 2, Cell::Alive(Color::White));
    b.set(2, 2, Cell::Alive(Color::White));
    b.update();
    let mut expected = vec![(0u16, 1u16), (2, 1), (1, 2), (2, 2), (1, 3)];
    expected.sort();
    let mut got = live_cells(&b);
    got.sort();
    assert_eq!(got, expected);
    for (x, y) in got {
        assert_eq!(b.get(x, y), Cell::Alive(Color::White));
    }
}
