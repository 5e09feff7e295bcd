use tetris::clamp::add_in_range;
use tetris::game::{direction_of, Direction, GameState, Msg};
use tetris::grid::{cell_kind, clear_table, collision_detection, stamp_piece, CellKind};
use tetris::piece::{default_shapes, generate_new_piece, Piece, Point};

fn count_tag(s: &GameState, tag: u8) -> usize {
    s.table.iter().map(|row| row.iter().filter(|v| **v == tag).count()).sum()
}

fn square() -> [[u8; 4]; 4] {
    [[0, 0, 0, 0], [0, 0, 0, 0], [2, 2, 0, 0], [2, 2, 0, 0]]
}

#[test]
fn new_game_is_empty_with_piece_at_top() {
    let s = GameState::new(20, 40);
    assert_eq!(s.table.len(), 40);
    assert!(s.table.iter().all(|row| row.len() == 20 && row.iter().all(|v| *v == 0)));
    assert_eq!(s.piece.position, Point { x: 4, y: 0 });
    assert_eq!(s.piece.shape, square());
    assert!(!s.end);
}

#[test]
fn default_shape_table_holds_the_square() {
    let shapes = default_shapes();
    assert_eq!(shapes.len(), 1);
    assert_eq!(shapes[0], square());
    let p = generate_new_piece(&shapes);
    assert_eq!(p.position, Point { x: 4, y: 0 });
}

#[test]
fn add_in_range_values() {
    assert_eq!(add_in_range(5, 1, 0, 18), 6);
    assert_eq!(add_in_range(5, -1, 0, 18), 4);
    assert_eq!(add_in_range(0, -1, 0, 18), 0);
    assert_eq!(add_in_range(18, 1, 0, 18), 18);
    assert_eq!(add_in_range(10, 100, 0, 18), 18);
    assert_eq!(add_in_range(3, -7, 2, 9), 2);
}

#[test]
fn first_tick_draws_four_active_cells() {
    let mut s = GameState::new(20, 40);
    s.advance();
    assert_eq!(s.piece.position, Point { x: 5, y: 0 });
    assert_eq!(count_tag(&s, 2), 4);
    assert_eq!(s.table[3][0], 2);
    assert_eq!(s.table[3][1], 2);
    assert_eq!(s.table[4][0], 2);
    assert_eq!(s.table[4][1], 2);
}

#[test]
fn active_count_stays_four_while_running() {
    let mut s = GameState::new(20, 40);
    for _ in 0..120 {
        s.advance();
        if s.end {
            break;
        }
        assert_eq!(count_tag(&s, 2), 4);
    }
}

#[test]
fn piece_lands_after_thirty_six_ticks() {
    let mut s = GameState::new(20, 40);
    for _ in 0..35 {
        s.advance();
    }
    assert_eq!(s.piece.position, Point { x: 39, y: 0 });
    assert_eq!(count_tag(&s, 1), 0);
    assert_eq!(s.table[37][0], 2);
    assert_eq!(s.table[38][1], 2);
    s.advance();
    assert!(!s.end);
    for r in [37usize, 38] {
        for c in [0usize, 1] {
            assert_eq!(s.table[r][c], 1);
        }
    }
    assert_eq!(count_tag(&s, 1), 4);
    assert!(s.table[39].iter().all(|v| *v == 0));
    // the fresh piece spawned at row offset 4, column 0, and fell one row
    assert_eq!(s.piece.position, Point { x: 5, y: 0 });
    assert_eq!(count_tag(&s, 2), 4);
}

#[test]
fn settled_block_below_freezes_the_piece() {
    let mut s = GameState::new(20, 40);
    s.table[38][0] = 1;
    s.piece.position.x = 38;
    s.advance();
    assert_eq!(s.table[36][0], 1);
    assert_eq!(s.table[36][1], 1);
    assert_eq!(s.table[37][0], 1);
    assert_eq!(s.table[37][1], 1);
    assert_eq!(s.piece.position, Point { x: 5, y: 0 });
    assert!(!s.end);
}

#[test]
fn same_position_without_block_keeps_falling() {
    let mut s = GameState::new(20, 40);
    s.piece.position.x = 38;
    s.advance();
    assert_eq!(s.piece.position, Point { x: 39, y: 0 });
    assert_eq!(count_tag(&s, 1), 0);
    assert_eq!(s.table[37][0], 2);
    assert_eq!(s.table[38][0], 2);
}

#[test]
fn floor_rule_checks_one_row_early() {
    let s = GameState::new(20, 40);
    let mut p = s.piece;
    p.position.x = 39;
    assert!(collision_detection(&s.table, &p, 20));
    p.position.x = 38;
    assert!(!collision_detection(&s.table, &p, 20));
}

#[test]
fn shift_left_at_zero_stays_zero() {
    let mut s = GameState::new(20, 40);
    assert_eq!(s.piece.position.y, 0);
    s.shift(Direction::Left);
    assert_eq!(s.piece.position.y, 0);
}

#[test]
fn left_then_right_returns() {
    let mut s = GameState::new(20, 40);
    s.piece.position.y = 5;
    s.shift(Direction::Left);
    assert_eq!(s.piece.position.y, 4);
    s.shift(Direction::Right);
    assert_eq!(s.piece.position.y, 5);
    s.piece.position.y = 18;
    s.shift(Direction::Left);
    s.shift(Direction::Right);
    assert_eq!(s.piece.position.y, 18);
}

#[test]
fn clamped_bounds_do_not_invert() {
    let mut s = GameState::new(20, 40);
    s.shift(Direction::Left);
    s.shift(Direction::Right);
    assert_eq!(s.piece.position.y, 1);
    s.piece.position.y = 18;
    s.shift(Direction::Right);
    assert_eq!(s.piece.position.y, 18);
    s.shift(Direction::Left);
    assert_eq!(s.piece.position.y, 17);
}

#[test]
fn shift_down_pins_at_height() {
    let mut s = GameState::new(20, 40);
    s.shift(Direction::Down);
    assert_eq!(s.piece.position, Point { x: 5, y: 0 });
    s.piece.position.x = 40;
    s.shift(Direction::Down);
    assert_eq!(s.piece.position.x, 40);
    assert_eq!(count_tag(&s, 2), 0);
}

#[test]
fn blocked_spawn_ends_the_game() {
    let mut s = GameState::new(20, 40);
    for r in 4..8 {
        for c in 0..20 {
            s.table[r][c] = 1;
        }
    }
    let mut expected = s.table.clone();
    expected[2][0] = 1;
    expected[2][1] = 1;
    expected[3][0] = 1;
    expected[3][1] = 1;
    s.advance();
    assert!(s.end);
    assert_eq!(s.table, expected);
    assert_eq!(s.piece.position, Point { x: 4, y: 0 });
    assert_eq!(count_tag(&s, 2), 0);
}

#[test]
fn lost_game_ignores_ticks() {
    let mut s = GameState::new(20, 40);
    for r in 4..8 {
        for c in 0..20 {
            s.table[r][c] = 1;
        }
    }
    s.advance();
    assert!(s.end);
    let table = s.table.clone();
    let position = s.piece.position;
    for _ in 0..5 {
        s.advance();
    }
    assert!(s.end);
    assert_eq!(s.table, table);
    assert_eq!(s.piece.position, position);
    assert!(!s.update(Msg::Tick));
    assert_eq!(s.table, table);
}

#[test]
fn update_redraws_on_running_tick_and_keys() {
    let mut s = GameState::new(20, 40);
    assert!(s.update(Msg::Tick));
    assert_eq!(s.piece.position.x, 5);
    assert!(s.update(Msg::Key(Direction::Right)));
    assert_eq!(s.piece.position.y, 1);
}

#[test]
fn clear_table_resets_only_active_tags() {
    let mut t = vec![vec![0u8, 1, 2], vec![2, 2, 1]];
    clear_table(&mut t);
    assert_eq!(t, vec![vec![0u8, 1, 0], vec![0, 0, 1]]);
}

#[test]
fn stamp_drops_cells_above_the_grid() {
    let mut t = vec![vec![0u8; 4]; 3];
    let p = Piece { position: Point { x: 1, y: 2 }, shape: square() };
    stamp_piece(&mut t, &p, 4, false);
    assert_eq!(t, vec![vec![0u8, 0, 2, 2], vec![0; 4], vec![0; 4]]);
    stamp_piece(&mut t, &p, 4, true);
    assert_eq!(t, vec![vec![0u8, 0, 1, 1], vec![0; 4], vec![0; 4]]);
}

#[test]
fn stamp_drops_cells_past_the_right_edge() {
    let mut t = vec![vec![0u8; 3]; 2];
    let p = Piece { position: Point { x: 2, y: 2 }, shape: square() };
    stamp_piece(&mut t, &p, 3, false);
    assert_eq!(t, vec![vec![0u8, 0, 2], vec![0, 0, 2]]);
}

#[test]
fn cell_kinds_follow_tags() {
    assert_eq!(cell_kind(0), CellKind::Empty);
    assert_eq!(cell_kind(1), CellKind::Inactive);
    assert_eq!(cell_kind(2), CellKind::Active);
    assert_eq!(cell_kind(7), CellKind::Active);
}

#[test]
fn key_codes_map_to_moves() {
    assert_eq!(direction_of("ArrowLeft"), Some(Direction::Left));
    assert_eq!(direction_of("ArrowRight"), Some(Direction::Right));
    assert_eq!(direction_of("ArrowDown"), Some(Direction::Down));
    assert_eq!(direction_of("ArrowUp"), None);
    assert_eq!(direction_of("Arrow"), None);
    assert_eq!(direction_of(""), None);
}
