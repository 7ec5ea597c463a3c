use gol::game::{survives, Density, Game, GameError};
use gol::grid::{ALIVE_GLYPH, DEAD_GLYPH};

fn board(width: u32, height: u32, alive: &[(u32, u32)]) -> Game {
    let mut game = Game::blank(width, height).unwrap();
    for &(row, col) in alive {
        game.toggle(row, col).unwrap();
    }
    game
}

fn live_cells(game: &Game) -> Vec<(u32, u32)> {
    let mut cells = Vec::new();
    for row in 0..game.height() {
        for col in 0..game.width() {
            if game.get(row, col).unwrap() {
                cells.push((row, col));
            }
        }
    }
    cells
}

fn half() -> Density {
    Density { numerator: 1, denominator: 2 }
}

#[test]
fn blank_board_is_dead() {
    let game = Game::blank(7, 4).unwrap();
    assert_eq!(game.width(), 7);
    assert_eq!(game.height(), 4);
    assert_eq!(live_cells(&game), vec![]);
}

#[test]
fn blank_refuses_zero_sides() {
    assert_eq!(Game::blank(0, 4).err(), Some(GameError::InvalidDimension));
    assert_eq!(Game::blank(4, 0).err(), Some(GameError::InvalidDimension));
    assert_eq!(Game::blank(0, 0).err(), Some(GameError::InvalidDimension));
}

#[test]
fn blank_refuses_too_many_cells() {
    assert_eq!(Game::blank(65536, 65536).err(), Some(GameError::InvalidDimension));
    assert_eq!(Game::blank(u32::MAX, 2).err(), Some(GameError::InvalidDimension));
}

#[test]
fn one_cell_board_is_accepted() {
    let game = Game::blank(1, 1).unwrap();
    assert_eq!(game.get(0, 0), Ok(false));
}

#[test]
fn density_zero_gives_dead_board() {
    let game = Game::new(9, 6, Density { numerator: 0, denominator: 1 }).unwrap();
    assert_eq!(game.width(), 9);
    assert_eq!(game.height(), 6);
    assert_eq!(live_cells(&game), vec![]);
}

#[test]
fn density_one_gives_live_board() {
    let game = Game::new(9, 6, Density { numerator: 5, denominator: 5 }).unwrap();
    assert_eq!(live_cells(&game).len(), 54);
}

#[test]
fn density_between_keeps_the_size() {
    let game = Game::new(12, 3, half()).unwrap();
    assert_eq!(game.width(), 12);
    assert_eq!(game.height(), 3);
    assert!(live_cells(&game).len() <= 36);
}

#[test]
fn new_refuses_density_above_one() {
    let r = Game::new(3, 3, Density { numerator: 3, denominator: 2 });
    assert_eq!(r.err(), Some(GameError::InvalidDensity));
}

#[test]
fn new_refuses_zero_denominator() {
    let r = Game::new(3, 3, Density { numerator: 0, denominator: 0 });
    assert_eq!(r.err(), Some(GameError::InvalidDensity));
}

#[test]
fn new_reports_dimension_before_density() {
    let r = Game::new(0, 3, Density { numerator: 3, denominator: 2 });
    assert_eq!(r.err(), Some(GameError::InvalidDimension));
    let r = Game::new(3, 0, half());
    assert_eq!(r.err(), Some(GameError::InvalidDimension));
}

#[test]
fn from_cells_reads_row_after_row() {
    let cells = vec![true, false, false, false, true, true];
    let game = Game::from_cells(3, 2, &cells).unwrap();
    assert_eq!(live_cells(&game), vec![(0, 0), (1, 1), (1, 2)]);
}

#[test]
fn from_cells_refuses_wrong_length() {
    let cells = vec![true, false, false];
    assert_eq!(Game::from_cells(2, 2, &cells).err(), Some(GameError::InvalidDimension));
    assert_eq!(Game::from_cells(0, 2, &Vec::new()).err(), Some(GameError::InvalidDimension));
}

#[test]
fn get_reports_positions_outside() {
    let game = Game::blank(3, 2).unwrap();
    assert_eq!(game.get(2, 0), Err(GameError::OutOfRange));
    assert_eq!(game.get(0, 3), Err(GameError::OutOfRange));
    assert_eq!(game.get(1, 2), Ok(false));
}

#[test]
fn toggle_flips_one_cell() {
    let mut game = Game::blank(4, 3).unwrap();
    assert_eq!(game.toggle(2, 3), Ok(()));
    assert_eq!(live_cells(&game), vec![(2, 3)]);
    assert_eq!(game.get(2, 3), Ok(true));
}

#[test]
fn toggle_twice_restores_the_board() {
    let mut game = board(4, 3, &[(0, 0), (1, 2)]);
    let before = game.render();
    game.toggle(1, 1).unwrap();
    assert_ne!(game.render(), before);
    game.toggle(1, 1).unwrap();
    assert_eq!(game.render(), before);
    game.toggle(1, 2).unwrap();
    game.toggle(1, 2).unwrap();
    assert_eq!(game.render(), before);
}

#[test]
fn toggle_outside_changes_nothing() {
    let mut game = board(4, 3, &[(0, 0), (1, 2)]);
    let before = game.render();
    assert_eq!(game.toggle(3, 0), Err(GameError::OutOfRange));
    assert_eq!(game.toggle(0, 4), Err(GameError::OutOfRange));
    assert_eq!(game.toggle(u32::MAX, u32::MAX), Err(GameError::OutOfRange));
    assert_eq!(game.render(), before);
}

#[test]
fn corner_counts_the_opposite_corner() {
    let game = board(6, 5, &[(4, 5)]);
    assert_eq!(game.live_neighbour_count(0, 0), 1);
    assert_eq!(game.live_neighbour_count(4, 5), 0);
    assert_eq!(game.live_neighbour_count(3, 4), 1);
}

#[test]
fn edges_wrap_around() {
    let game = board(5, 4, &[(0, 2), (3, 0), (1, 4)]);
    assert_eq!(game.live_neighbour_count(3, 2), 1);
    assert_eq!(game.live_neighbour_count(3, 4), 1);
    assert_eq!(game.live_neighbour_count(0, 0), 2);
    assert_eq!(game.live_neighbour_count(2, 0), 2);
}

#[test]
fn neighbour_count_leaves_out_the_cell_itself() {
    let game = Game::new(5, 5, Density { numerator: 1, denominator: 1 }).unwrap();
    assert_eq!(game.live_neighbour_count(2, 2), 8);
    assert_eq!(game.live_neighbour_count(0, 0), 8);
}

#[test]
fn rule_on_every_count() {
    let alive: Vec<bool> = (0..=8).map(|n| survives(true, n)).collect();
    let dead: Vec<bool> = (0..=8).map(|n| survives(false, n)).collect();
    assert_eq!(alive, vec![false, false, true, true, false, false, false, false, false]);
    assert_eq!(dead, vec![false, false, false, true, false, false, false, false, false]);
}

#[test]
fn block_is_a_still_life() {
    let mut game = board(4, 4, &[(1, 1), (1, 2), (2, 1), (2, 2)]);
    let before = game.render();
    for _ in 0..10 {
        game.tick();
        assert_eq!(game.render(), before);
    }
}

#[test]
fn block_on_the_smallest_board_is_a_still_life() {
    let mut game = board(3, 3, &[(0, 0), (0, 1), (1, 0), (1, 1)]);
    let before = game.render();
    for _ in 0..6 {
        game.tick();
        assert_eq!(game.render(), before);
    }
    let mut across = board(3, 3, &[(2, 2), (2, 0), (0, 2), (0, 0)]);
    let before = across.render();
    across.tick();
    assert_eq!(across.render(), before);
}

#[test]
fn random_board_shows_its_draws() {
    let game = Game::new(40, 25, half()).unwrap();
    let alive = live_cells(&game).len();
    let glyphs = game.render().chars().filter(|c| *c == ALIVE_GLYPH).count();
    assert_eq!(alive, glyphs);
    assert!(alive > 0 && alive < 1000);
}

#[test]
fn block_across_the_edge_is_a_still_life() {
    let mut game = board(6, 5, &[(4, 5), (4, 0), (0, 5), (0, 0)]);
    let before = game.render();
    for _ in 0..5 {
        game.tick();
        assert_eq!(game.render(), before);
    }
}

#[test]
fn blinker_has_period_two() {
    let mut game = board(5, 5, &[(2, 1), (2, 2), (2, 3)]);
    game.tick();
    assert_eq!(live_cells(&game), vec![(1, 2), (2, 2), (3, 2)]);
    game.tick();
    assert_eq!(live_cells(&game), vec![(2, 1), (2, 2), (2, 3)]);
    game.tick();
    assert_eq!(live_cells(&game), vec![(1, 2), (2, 2), (3, 2)]);
}

#[test]
fn blinker_on_the_edge_has_period_two() {
    let mut game = board(6, 5, &[(0, 5), (0, 0), (0, 1)]);
    game.tick();
    assert_eq!(live_cells(&game), vec![(0, 0), (1, 0), (4, 0)]);
    game.tick();
    assert_eq!(live_cells(&game), vec![(0, 0), (0, 1), (0, 5)]);
}

#[test]
fn lonely_cell_dies() {
    let mut game = board(5, 5, &[(2, 2)]);
    game.tick();
    assert_eq!(live_cells(&game), vec![]);
}

#[test]
fn three_neighbours_give_birth() {
    let mut game = board(5, 5, &[(1, 1), (1, 2), (2, 1)]);
    game.tick();
    assert_eq!(live_cells(&game), vec![(1, 1), (1, 2), (2, 1), (2, 2)]);
}

#[test]
fn full_small_torus_dies() {
    let mut game = Game::new(2, 2, Density { numerator: 1, denominator: 1 }).unwrap();
    game.tick();
    assert_eq!(live_cells(&game), vec![]);
    let mut single = Game::new(1, 1, Density { numerator: 1, denominator: 1 }).unwrap();
    assert_eq!(single.live_neighbour_count(0, 0), 8);
    single.tick();
    assert_eq!(single.get(0, 0), Ok(false));
}

#[test]
fn tick_reads_the_old_generation_only() {
    // A glider: a scan that wrote into the board it reads would miss the
    // births in rows below cells that have just died.
    let mut game = board(6, 6, &[(0, 1), (1, 2), (2, 0), (2, 1), (2, 2)]);
    game.tick();
    assert_eq!(live_cells(&game), vec![(1, 0), (1, 2), (2, 1), (2, 2), (3, 1)]);
}

#[test]
fn equal_boards_have_equal_next_generations() {
    let cells = [(0, 1), (1, 2), (2, 0), (2, 1), (2, 2), (5, 5), (4, 5)];
    let mut a = board(7, 6, &cells);
    let mut b = a.clone();
    let mut c = Game::from_cells(
        7,
        6,
        &(0..42u32).map(|i| cells.contains(&(i / 7, i % 7))).collect::<Vec<bool>>(),
    )
    .unwrap();
    for _ in 0..8 {
        a.tick();
        b.tick();
        c.tick();
        assert_eq!(a.render(), b.render());
        assert_eq!(a.render(), c.render());
    }
}

#[test]
fn tick_keeps_the_size() {
    let mut game = Game::new(11, 3, half()).unwrap();
    game.tick();
    assert_eq!(game.width(), 11);
    assert_eq!(game.height(), 3);
}

#[test]
fn render_exact_text() {
    let game = board(3, 2, &[(0, 1), (1, 0), (1, 2)]);
    let expected = format!(
        "{d}{a}{d}\r\n{a}{d}{a}\r",
        a = ALIVE_GLYPH,
        d = DEAD_GLYPH
    );
    assert_eq!(game.render(), expected);
    assert_eq!(game.render(), "\u{2B1B}\u{2B1C}\u{2B1B}\r\n\u{2B1C}\u{2B1B}\u{2B1C}\r");
}

#[test]
fn render_single_cell() {
    let game = Game::blank(1, 1).unwrap();
    assert_eq!(game.render(), "\u{2B1B}\r");
}

#[test]
fn render_has_a_glyph_per_cell() {
    for (width, height) in [(1u32, 1u32), (1, 5), (5, 1), (4, 3), (20, 15)] {
        let game = Game::new(width, height, half()).unwrap();
        let text = game.render();
        let rows: Vec<&str> = text.split('\n').collect();
        assert_eq!(rows.len(), height as usize);
        for (r, row) in rows.iter().enumerate() {
            let symbols: Vec<char> = row.chars().collect();
            assert_eq!(symbols.len(), width as usize + 1);
            assert_eq!(symbols[width as usize], '\r');
            for (c, symbol) in symbols[..width as usize].iter().enumerate() {
                let alive = game.get(r as u32, c as u32).unwrap();
                assert_eq!(*symbol, if alive { ALIVE_GLYPH } else { DEAD_GLYPH });
            }
        }
    }
}

#[test]
fn render_leaves_the_board_alone() {
    let game = board(4, 4, &[(1, 1), (3, 0)]);
    let first = game.render();
    let second = game.render();
    assert_eq!(first, second);
    assert_eq!(live_cells(&game), vec![(1, 1), (3, 0)]);
}
