use std::collections::HashSet;

use robot_server::board::{position, MAX_ATTEMPTS};
use robot_server::model::NUM_ROBOTS;
use robot_server::Direction::{Down, Left, Right, Up};
use robot_server::{Board, Direction, GameError, Tile, Wall};

fn t(x: usize, y: usize) -> Tile {
    Tile::new(x, y)
}

/// The fixed maze, written down once more, wall by wall.
fn expected_maze() -> Vec<(usize, usize, Direction)> {
    vec![
        // round the centre box
        (6, 7, Right),
        (8, 7, Right),
        (6, 8, Right),
        (8, 8, Right),
        (7, 6, Down),
        (7, 8, Down),
        (8, 6, Down),
        (8, 8, Down),
        // top
        (4, 0, Right),
        (12, 0, Left),
        // bottom
        (6, 15, Right),
        (11, 15, Left),
        // left
        (0, 6, Down),
        (0, 12, Up),
        // right
        (15, 4, Down),
        (15, 11, Up),
        // corners
        (1, 2, Up),
        (1, 2, Left),
        (12, 8, Up),
        (12, 8, Left),
        (2, 9, Up),
        (2, 9, Left),
        (13, 14, Up),
        (13, 14, Left),
        (13, 1, Up),
        (13, 1, Left),
        (6, 5, Up),
        (6, 5, Right),
        (4, 13, Up),
        (4, 13, Right),
        (14, 12, Up),
        (14, 12, Right),
        (11, 6, Up),
        (11, 6, Right),
        (6, 1, Down),
        (6, 1, Right),
        (9, 2, Down),
        (9, 2, Right),
        (9, 11, Down),
        (9, 11, Right),
        (1, 14, Down),
        (1, 14, Right),
        (3, 6, Down),
        (3, 6, Left),
        (14, 5, Down),
        (14, 5, Left),
        (10, 9, Down),
        (10, 9, Left),
        (5, 8, Down),
        (5, 8, Left),
    ]
}

fn step(x: usize, y: usize, direction: Direction) -> Option<(usize, usize)> {
    match direction {
        Direction::Up if y > 0 => Some((x, y - 1)),
        Direction::Down if y < 15 => Some((x, y + 1)),
        Direction::Left if x > 0 => Some((x - 1, y)),
        Direction::Right if x < 15 => Some((x + 1, y)),
        _ => None,
    }
}

fn default_board() -> Board {
    let mut board = Board::new();
    board.init_default();
    board
}

fn board_with_robots(robots: &[(usize, usize)]) -> Board {
    let mut board = default_board();
    let tiles: Vec<Tile> = robots.iter().map(|(x, y)| t(*x, *y)).collect();
    assert_eq!(board.place_robots(&tiles), Ok(()));
    board
}

#[test]
fn new_board_is_empty() {
    let board = Board::new();
    assert!(board.robots().is_empty());
    assert!(board.robots_backup_positions().is_empty());
    assert_eq!(board.target(), t(0, 0));
    for x in 0..16 {
        for y in 0..16 {
            for direction in Direction::all() {
                let rim = step(x, y, direction).is_none();
                assert_eq!(board.has_wall(t(x, y), direction), rim);
            }
        }
    }
}

#[test]
fn default_maze_matches_the_fixture_exactly() {
    let board = default_board();
    let mut walled: HashSet<((usize, usize), (usize, usize))> = HashSet::new();
    for (x, y, direction) in expected_maze() {
        let other = step(x, y, direction).unwrap();
        walled.insert(((x, y), other));
        walled.insert((other, (x, y)));
    }
    assert_eq!(walled.len(), 100);
    let mut found = 0;
    for x in 0..16 {
        for y in 0..16 {
            for direction in Direction::all() {
                let expected = match step(x, y, direction) {
                    None => true,
                    Some(other) => walled.contains(&((x, y), other)),
                };
                assert_eq!(
                    board.has_wall(t(x, y), direction),
                    expected,
                    "wall at ({x}, {y}) towards {direction:?}"
                );
                if step(x, y, direction).is_some() && expected {
                    found += 1;
                }
            }
        }
    }
    assert_eq!(found, 100);
}

#[test]
fn default_maze_leaves_robots_and_target_alone() {
    let mut board = board_with_robots(&[(0, 3), (5, 3), (10, 10), (15, 15)]);
    assert!(board.select_target(3));
    let robots = board.robots().clone();
    board.init_default();
    assert_eq!(board.robots(), &robots);
    assert_eq!(board.robots_backup_positions(), &robots);
    assert_eq!(board.target(), t(13, 14));
}

#[test]
fn centre_box_is_closed_on_all_eight_sides() {
    let board = default_board();
    assert!(board.has_wall(t(6, 7), Direction::Right));
    assert!(board.has_wall(t(6, 8), Direction::Right));
    assert!(board.has_wall(t(9, 7), Direction::Left));
    assert!(board.has_wall(t(9, 8), Direction::Left));
    assert!(board.has_wall(t(7, 6), Direction::Down));
    assert!(board.has_wall(t(8, 6), Direction::Down));
    assert!(board.has_wall(t(7, 9), Direction::Up));
    assert!(board.has_wall(t(8, 9), Direction::Up));
    assert!(!board.has_wall(t(7, 7), Direction::Right));
    assert!(!board.has_wall(t(7, 7), Direction::Down));
}

#[test]
fn rim_is_blocked_whatever_walls_are_recorded() {
    for board in [Board::new(), default_board()] {
        for k in 0..16 {
            assert!(board.has_wall(t(k, 0), Direction::Up));
            assert!(board.has_wall(t(k, 15), Direction::Down));
            assert!(board.has_wall(t(0, k), Direction::Left));
            assert!(board.has_wall(t(15, k), Direction::Right));
        }
    }
}

#[test]
fn wall_lookup_is_the_same_from_both_sides() {
    let board = default_board();
    for x in 0..16 {
        for y in 0..16 {
            for (direction, back) in [
                (Direction::Up, Direction::Down),
                (Direction::Down, Direction::Up),
                (Direction::Left, Direction::Right),
                (Direction::Right, Direction::Left),
            ] {
                if let Some(other) = t(x, y).towards(direction) {
                    assert_eq!(board.has_wall(t(x, y), direction), board.has_wall(other, back));
                }
            }
        }
    }
}

#[test]
fn added_wall_is_found_from_both_sides() {
    let mut board = Board::new();
    assert!(!board.has_wall(t(1, 2), Direction::Right));
    assert!(!board.has_wall(t(2, 2), Direction::Left));
    board.add_wall(Wall::new(t(1, 2), t(2, 2)));
    assert!(board.has_wall(t(1, 2), Direction::Right));
    assert!(board.has_wall(t(2, 2), Direction::Left));
    assert!(!board.has_wall(t(1, 2), Direction::Left));
    assert!(!board.has_wall(t(1, 2), Direction::Up));
    assert!(!board.has_wall(t(1, 2), Direction::Down));
    assert!(!board.has_wall(t(2, 2), Direction::Right));

    let mut board = Board::new();
    board.add_wall(Wall::new(t(2, 2), t(1, 2)));
    assert!(board.has_wall(t(1, 2), Direction::Right));
    assert!(board.has_wall(t(2, 2), Direction::Left));

    let mut board = Board::new();
    board.add_wall(t(9, 9).wall_on(Direction::Up));
    assert!(board.has_wall(t(9, 9), Direction::Up));
    assert!(board.has_wall(t(9, 8), Direction::Down));
    assert!(!board.has_wall(t(9, 8), Direction::Up));
}

#[test]
fn adding_a_wall_twice_changes_nothing() {
    let mut board = Board::new();
    board.add_wall(Wall::new(t(1, 2), t(2, 2)));
    board.add_wall(Wall::new(t(2, 2), t(1, 2)));
    let mut count = 0;
    for x in 0..16 {
        for y in 0..16 {
            for direction in Direction::all() {
                if step(x, y, direction).is_some() && board.has_wall(t(x, y), direction) {
                    count += 1;
                }
            }
        }
    }
    assert_eq!(count, 2);
}

#[test]
fn has_wall_outside_the_grid_reports_only_the_rim() {
    let board = default_board();
    assert!(board.has_wall(t(40, 40), Direction::Down));
    assert!(board.has_wall(t(40, 40), Direction::Right));
    assert!(!board.has_wall(t(40, 40), Direction::Up));
    assert!(!board.has_wall(t(40, 40), Direction::Left));
    assert!(!board.has_wall(t(16, 0), Direction::Left));
}

#[test]
fn in_middle_box_is_the_two_by_two_centre() {
    let board = Board::new();
    for x in 0..16 {
        for y in 0..16 {
            let expected = (x == 7 || x == 8) && (y == 7 || y == 8);
            assert_eq!(board.in_middle_box(t(x, y)), expected);
        }
    }
}

#[test]
fn position_finds_the_first_of_equal_tiles() {
    let tiles = vec![t(1, 1), t(2, 2), t(1, 1), t(3, 3)];
    assert_eq!(position(&tiles, t(1, 1)), Some(0));
    assert_eq!(position(&tiles, t(2, 2)), Some(1));
    assert_eq!(position(&tiles, t(3, 3)), Some(3));
    assert_eq!(position(&tiles, t(4, 4)), None);
    assert_eq!(position(&Vec::new(), t(0, 0)), None);
}

#[test]
fn has_robot_gives_the_index_of_the_robot() {
    let board = board_with_robots(&[(0, 3), (5, 3), (10, 10), (15, 15)]);
    assert_eq!(board.has_robot(t(0, 3)), Some(0));
    assert_eq!(board.has_robot(t(5, 3)), Some(1));
    assert_eq!(board.has_robot(t(10, 10)), Some(2));
    assert_eq!(board.has_robot(t(15, 15)), Some(3));
    assert_eq!(board.has_robot(t(3, 0)), None);
    assert_eq!(Board::new().has_robot(t(0, 0)), None);
}

#[test]
fn offer_robot_takes_free_tiles_outside_the_box() {
    let mut placed = Vec::new();
    assert!(Board::offer_robot(&mut placed, t(3, 4)));
    assert_eq!(placed, vec![t(3, 4)]);
    // the same tile again
    assert!(!Board::offer_robot(&mut placed, t(3, 4)));
    assert_eq!(placed, vec![t(3, 4)]);
    // the centre box
    for (x, y) in [(7, 7), (7, 8), (8, 7), (8, 8)] {
        assert!(!Board::offer_robot(&mut placed, t(x, y)));
    }
    assert_eq!(placed, vec![t(3, 4)]);
    // outside the grid
    assert!(!Board::offer_robot(&mut placed, t(16, 4)));
    assert!(!Board::offer_robot(&mut placed, t(4, 16)));
    assert_eq!(placed, vec![t(3, 4)]);
    // next to the box
    assert!(Board::offer_robot(&mut placed, t(6, 7)));
    assert!(Board::offer_robot(&mut placed, t(9, 8)));
    assert_eq!(placed, vec![t(3, 4), t(6, 7), t(9, 8)]);
}

#[test]
fn place_robots_keeps_the_order_and_takes_the_snapshot() {
    let board = board_with_robots(&[(15, 15), (0, 3), (10, 10), (5, 3)]);
    assert_eq!(board.robots(), &vec![t(15, 15), t(0, 3), t(10, 10), t(5, 3)]);
    assert_eq!(board.robots_backup_positions(), board.robots());
}

#[test]
fn place_robots_refuses_what_breaks_the_invariant() {
    let mut board = board_with_robots(&[(0, 3), (5, 3), (10, 10), (15, 15)]);
    let before = board.robots().clone();
    let refused: Vec<Vec<Tile>> = vec![
        vec![],
        vec![t(1, 1), t(2, 2), t(3, 3)],
        vec![t(1, 1), t(2, 2), t(3, 3), t(4, 4), t(5, 5)],
        vec![t(1, 1), t(2, 2), t(3, 3), t(1, 1)],
        vec![t(1, 1), t(2, 2), t(7, 8), t(4, 4)],
        vec![t(1, 1), t(2, 2), t(3, 16), t(4, 4)],
        vec![t(16, 1), t(2, 2), t(3, 3), t(4, 4)],
    ];
    for tiles in refused {
        assert_eq!(board.place_robots(&tiles), Err(GameError::InternalInvariant));
        assert_eq!(board.robots(), &before);
        assert_eq!(board.robots_backup_positions(), &before);
    }
}

#[test]
fn init_robots_places_four_distinct_robots_outside_the_box() {
    assert_eq!(NUM_ROBOTS, 4);
    for _ in 0..300 {
        let mut board = default_board();
        assert_eq!(board.init_robots(), Ok(()));
        let robots = board.robots().clone();
        assert_eq!(robots.len(), 4);
        for (i, a) in robots.iter().enumerate() {
            assert!(a.x < 16 && a.y < 16);
            assert!(!((a.x == 7 || a.x == 8) && (a.y == 7 || a.y == 8)));
            for b in robots.iter().skip(i + 1) {
                assert_ne!(a, b);
            }
        }
        assert_eq!(board.robots_backup_positions(), &robots);
    }
}

#[test]
fn init_robots_replaces_robots_and_snapshot() {
    let mut board = board_with_robots(&[(0, 3), (5, 3), (10, 10), (15, 15)]);
    assert_eq!(board.move_robot(0, t(4, 3)), Ok(false));
    let mut changed = false;
    for _ in 0..20 {
        assert_eq!(board.init_robots(), Ok(()));
        assert_eq!(board.robots().len(), 4);
        assert_eq!(board.robots_backup_positions(), board.robots());
        if board.robots() != &vec![t(0, 3), t(5, 3), t(10, 10), t(15, 15)] {
            changed = true;
        }
    }
    assert!(changed);
}

#[test]
fn clear_removes_robots_and_snapshot() {
    let mut board = board_with_robots(&[(0, 3), (5, 3), (10, 10), (15, 15)]);
    assert!(board.select_target(0));
    board.clear();
    assert!(board.robots().is_empty());
    assert!(board.robots_backup_positions().is_empty());
    assert_eq!(board.target(), t(1, 2));
    assert!(board.has_wall(t(4, 0), Direction::Right));
}

#[test]
fn slide_runs_to_the_rim_when_nothing_is_in_the_way() {
    let board = default_board();
    assert_eq!(board.slide(t(0, 3), Direction::Right), t(15, 3));
    assert_eq!(board.slide(t(15, 3), Direction::Left), t(0, 3));
    assert_eq!(board.slide(t(2, 0), Direction::Down), t(2, 8));
    let empty = Board::new();
    for k in 0..16 {
        if k == 7 || k == 8 {
            continue;
        }
        assert_eq!(empty.slide(t(0, k), Direction::Right), t(15, k));
        assert_eq!(empty.slide(t(15, k), Direction::Left), t(0, k));
        assert_eq!(empty.slide(t(k, 0), Direction::Down), t(k, 15));
        assert_eq!(empty.slide(t(k, 15), Direction::Up), t(k, 0));
    }
}

#[test]
fn slide_stops_before_a_wall() {
    let board = default_board();
    // a wall right in front: no movement
    assert_eq!(board.slide(t(4, 0), Direction::Right), t(4, 0));
    assert_eq!(board.slide(t(5, 0), Direction::Left), t(5, 0));
    // a wall further on: the robot stops on the tile before the walled side
    assert_eq!(board.slide(t(0, 0), Direction::Right), t(4, 0));
    assert_eq!(board.slide(t(15, 0), Direction::Left), t(12, 0));
    assert_eq!(board.slide(t(0, 3), Direction::Down), t(0, 6));
    assert_eq!(board.slide(t(15, 15), Direction::Up), t(15, 11));
    assert_eq!(board.slide(t(7, 3), Direction::Down), t(7, 6));
}

#[test]
fn slide_stops_before_the_centre_box() {
    let board = Board::new();
    assert_eq!(board.slide(t(7, 3), Direction::Down), t(7, 6));
    assert_eq!(board.slide(t(8, 12), Direction::Up), t(8, 9));
    assert_eq!(board.slide(t(3, 7), Direction::Right), t(6, 7));
    assert_eq!(board.slide(t(12, 8), Direction::Left), t(9, 8));
    assert_eq!(board.slide(t(6, 7), Direction::Right), t(6, 7));
}

#[test]
fn slide_stops_before_another_robot() {
    let mut board = Board::new();
    assert_eq!(board.place_robots(&vec![t(0, 3), t(5, 3), t(5, 10), t(15, 15)]), Ok(()));
    assert_eq!(board.slide(t(0, 3), Direction::Right), t(4, 3));
    assert_eq!(board.slide(t(5, 3), Direction::Left), t(1, 3));
    assert_eq!(board.slide(t(5, 3), Direction::Down), t(5, 9));
    assert_eq!(board.slide(t(5, 10), Direction::Up), t(5, 4));
    assert_eq!(board.slide(t(4, 3), Direction::Right), t(4, 3));
}

#[test]
fn slide_at_the_rim_does_not_move() {
    let board = default_board();
    assert_eq!(board.slide(t(3, 0), Direction::Up), t(3, 0));
    assert_eq!(board.slide(t(3, 15), Direction::Down), t(3, 15));
    assert_eq!(board.slide(t(0, 3), Direction::Left), t(0, 3));
    assert_eq!(board.slide(t(15, 3), Direction::Right), t(15, 3));
}

#[test]
fn can_move_robot_lists_one_destination_for_each_direction_that_moves() {
    let board = board_with_robots(&[(0, 3), (5, 3), (10, 10), (15, 15)]);
    assert_eq!(board.can_move_robot(0), Ok(vec![t(0, 0), t(0, 6), t(4, 3)]));
    assert_eq!(board.can_move_robot(1), Ok(vec![t(5, 0), t(5, 8), t(1, 3), t(15, 3)]));
    assert_eq!(board.can_move_robot(2), Ok(vec![t(10, 15), t(0, 10), t(15, 10)]));
    assert_eq!(board.can_move_robot(3), Ok(vec![t(15, 11), t(11, 15)]));
}

#[test]
fn robot_far_from_walls_slides_right_to_the_last_column() {
    let board = board_with_robots(&[(2, 3), (1, 1), (10, 10), (15, 15)]);
    let moves = board.can_move_robot(0).unwrap();
    assert!(moves.contains(&t(15, 3)));
    assert_eq!(moves.iter().filter(|tile| tile.y == 3 && tile.x > 2).count(), 1);
}

#[test]
fn robot_facing_a_wall_on_its_right_has_no_destination_that_way() {
    let board = board_with_robots(&[(4, 0), (1, 1), (10, 10), (15, 15)]);
    assert!(board.has_wall(t(4, 0), Direction::Right));
    let moves = board.can_move_robot(0).unwrap();
    assert_eq!(moves, vec![t(4, 12), t(0, 0)]);
    assert!(moves.iter().all(|tile| !(tile.y == 0 && tile.x > 4)));
}

#[test]
fn can_move_robot_refuses_an_index_without_a_robot() {
    let board = board_with_robots(&[(0, 3), (5, 3), (10, 10), (15, 15)]);
    assert_eq!(board.can_move_robot(4), Err(GameError::RobotNotFound));
    assert_eq!(board.can_move_robot(usize::MAX), Err(GameError::RobotNotFound));
    assert_eq!(default_board().can_move_robot(0), Err(GameError::RobotNotFound));
}

#[test]
fn move_robot_moves_to_a_legal_destination() {
    let mut board = board_with_robots(&[(0, 3), (5, 3), (10, 10), (15, 15)]);
    assert_eq!(board.move_robot(0, t(4, 3)), Ok(false));
    assert_eq!(board.robots(), &vec![t(4, 3), t(5, 3), t(10, 10), t(15, 15)]);
    assert_eq!(
        board.robots_backup_positions(),
        &vec![t(0, 3), t(5, 3), t(10, 10), t(15, 15)]
    );
    // the robot that moved now blocks its neighbour
    assert_eq!(board.can_move_robot(1), Ok(vec![t(5, 0), t(5, 8), t(15, 3)]));
    assert_eq!(board.move_robot(3, t(11, 15)), Ok(false));
    assert_eq!(board.robots(), &vec![t(4, 3), t(5, 3), t(10, 10), t(11, 15)]);
}

#[test]
fn move_robot_onto_the_target_still_returns_false() {
    let mut board = board_with_robots(&[(1, 5), (5, 3), (10, 10), (15, 15)]);
    assert!(board.select_target(0));
    assert_eq!(board.target(), t(1, 2));
    assert_eq!(board.can_move_robot(0).unwrap()[0], t(1, 2));
    assert_eq!(board.move_robot(0, t(1, 2)), Ok(false));
    assert_eq!(board.robots()[0], board.target());
}

#[test]
fn move_robot_refuses_other_tiles_and_changes_nothing() {
    let mut board = board_with_robots(&[(0, 3), (5, 3), (10, 10), (15, 15)]);
    let before = board.robots().clone();
    let legal = board.can_move_robot(0).unwrap();
    for x in 0..16 {
        for y in 0..16 {
            if legal.contains(&t(x, y)) {
                continue;
            }
            assert_eq!(board.move_robot(0, t(x, y)), Err(GameError::InvalidMove));
            assert_eq!(board.robots(), &before);
            assert_eq!(board.robots_backup_positions(), &before);
        }
    }
    // staying in place is no move
    assert_eq!(board.move_robot(0, t(0, 3)), Err(GameError::InvalidMove));
    // a tile on the way, short of the resting tile, is no destination
    assert_eq!(board.move_robot(0, t(2, 3)), Err(GameError::InvalidMove));
    assert_eq!(board.robots(), &before);
}

#[test]
fn move_robot_refuses_an_index_without_a_robot() {
    let mut board = board_with_robots(&[(0, 3), (5, 3), (10, 10), (15, 15)]);
    let before = board.robots().clone();
    assert_eq!(board.move_robot(4, t(0, 0)), Err(GameError::RobotNotFound));
    assert_eq!(board.move_robot(usize::MAX, t(0, 0)), Err(GameError::RobotNotFound));
    assert_eq!(board.robots(), &before);
    assert_eq!(default_board().move_robot(0, t(0, 0)), Err(GameError::RobotNotFound));
}

#[test]
fn legal_moves_keep_robots_apart_and_out_of_the_box() {
    let mut board = default_board();
    assert_eq!(board.init_robots(), Ok(()));
    let mut turn = 0;
    for _ in 0..200 {
        let robot = turn % 4;
        let moves = board.can_move_robot(robot).unwrap();
        assert!(moves.len() <= 4);
        if let Some(tile) = moves.get(turn % moves.len().max(1)) {
            assert_eq!(board.move_robot(robot, *tile), Ok(false));
        }
        turn += 1;
        let robots = board.robots();
        for (i, a) in robots.iter().enumerate() {
            assert!(a.x < 16 && a.y < 16);
            assert!(!((a.x == 7 || a.x == 8) && (a.y == 7 || a.y == 8)));
            for b in robots.iter().skip(i + 1) {
                assert_ne!(a, b);
            }
        }
    }
}

#[test]
fn reset_restores_the_snapshot_after_moves() {
    let mut board = board_with_robots(&[(0, 3), (5, 3), (10, 10), (15, 15)]);
    let start = board.robots().clone();
    assert_eq!(board.move_robot(0, t(4, 3)), Ok(false));
    assert_eq!(board.move_robot(3, t(11, 15)), Ok(false));
    assert_eq!(board.move_robot(2, t(10, 15)), Ok(false));
    assert_ne!(board.robots(), &start);
    board.reset();
    assert_eq!(board.robots(), &start);
    assert_eq!(board.robots_backup_positions(), &start);
}

#[test]
fn reset_twice_is_reset_once() {
    let mut board = board_with_robots(&[(0, 3), (5, 3), (10, 10), (15, 15)]);
    assert!(board.select_target(5));
    assert_eq!(board.move_robot(1, t(15, 3)), Ok(false));
    board.reset();
    let robots = board.robots().clone();
    let backup = board.robots_backup_positions().clone();
    let target = board.target();
    board.reset();
    assert_eq!(board.robots(), &robots);
    assert_eq!(board.robots_backup_positions(), &backup);
    assert_eq!(board.target(), target);
}

#[test]
fn select_target_picks_the_entry_the_draw_names() {
    let tiles = [
        (1, 2),
        (12, 8),
        (2, 9),
        (13, 14),
        (13, 1),
        (6, 5),
        (4, 13),
        (14, 12),
        (11, 6),
        (6, 1),
        (9, 2),
        (9, 11),
        (1, 14),
        (3, 6),
        (14, 5),
        (10, 9),
        (5, 8),
    ];
    let mut board = default_board();
    for (i, (x, y)) in tiles.iter().enumerate() {
        assert!(board.select_target(i));
        assert_eq!(board.target(), t(*x, *y));
        assert!(board.select_target(i + 17 * 3));
        assert_eq!(board.target(), t(*x, *y));
    }
    assert!(board.select_target(usize::MAX));
    let (x, y) = tiles[usize::MAX % 17];
    assert_eq!(board.target(), t(x, y));
}

#[test]
fn select_target_skips_a_tile_that_holds_a_robot() {
    let mut board = board_with_robots(&[(12, 8), (5, 3), (10, 10), (15, 15)]);
    assert!(board.select_target(0));
    assert_eq!(board.target(), t(1, 2));
    assert!(!board.select_target(1));
    assert_eq!(board.target(), t(1, 2));
    assert_eq!(board.robots(), &vec![t(12, 8), t(5, 3), t(10, 10), t(15, 15)]);
    assert!(board.select_target(2));
    assert_eq!(board.target(), t(2, 9));
}

#[test]
fn attempts_are_bounded() {
    assert_eq!(MAX_ATTEMPTS, 1000);
}

#[test]
fn laying_out_the_maze_twice_changes_nothing() {
    let once = default_board();
    let mut twice = default_board();
    twice.init_default();
    for x in 0..16 {
        for y in 0..16 {
            for direction in Direction::all() {
                assert_eq!(
                    once.has_wall(t(x, y), direction),
                    twice.has_wall(t(x, y), direction)
                );
            }
        }
    }
}
