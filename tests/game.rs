use std::sync::Mutex;

use snake::{ConfigError, Coord, Game, GameState, Input, TermUpdate, TermUpdateType, Tile};

fn c(x: isize, y: isize) -> Coord {
    Coord { x, y }
}

fn in_board(g: &Game, p: &Coord) -> bool {
    p.x >= 0 && p.x < g.width() as isize && p.y >= 0 && p.y < g.height() as isize
}

#[test]
fn construction_yields_one_segment_and_separate_food() {
    for h in 2u8..8 {
        for w in 2u8..8 {
            let g = Game::create(h, w);
            assert_eq!(g.snake().len(), 1);
            assert_eq!(g.snake()[0], c(0, 0));
            let f = g.food().unwrap();
            assert_ne!(f, c(0, 0));
            assert!(in_board(&g, &f));
            assert_eq!(g.state, GameState::RUNNING);
            assert_eq!(g.cur_input, Input::DOWN);
            assert_eq!(g.height(), h);
            assert_eq!(g.width(), w);
        }
    }
}

#[test]
fn construction_on_largest_board() {
    let g = Game::create(255, 255);
    assert_eq!(g.snake().len(), 1);
    assert!(in_board(&g, &g.food().unwrap()));
}

#[test]
fn too_small_board_is_a_configuration_error() {
    assert!(matches!(Game::try_create(1, 5), Err(ConfigError::BoardTooSmall)));
    assert!(matches!(Game::try_create(5, 1), Err(ConfigError::BoardTooSmall)));
    assert!(matches!(Game::try_create(0, 0), Err(ConfigError::BoardTooSmall)));
    let g = Game::try_create(2, 2).unwrap();
    assert_eq!(g.snake().len(), 1);
}

#[test]
fn random_food_lands_on_free_cell() {
    for _ in 0..200 {
        let g = Game::create(2, 2);
        let f = g.food().unwrap();
        assert!(f == c(1, 0) || f == c(0, 1) || f == c(1, 1));
    }
}

#[test]
fn picked_food_follows_row_major_order() {
    // free cells of a 3x3 board with the snake at the origin, row by row
    let free = [c(1, 0), c(2, 0), c(0, 1), c(1, 1), c(2, 1), c(0, 2), c(1, 2), c(2, 2)];
    for pick in 0usize..20 {
        let g = Game::create_with_pick(3, 3, pick);
        assert_eq!(g.food(), Some(free[pick % 8]));
    }
}

#[test]
fn without_input_snake_moves_down_until_wall_then_stays_dead() {
    // food at (1, 0), out of the way of column 0
    let mut g = Game::create_with_pick(4, 3, 0);
    assert_eq!(g.food(), Some(c(1, 0)));
    for y in 1..4 {
        let updates = g.tick();
        assert_eq!(g.state, GameState::RUNNING);
        assert_eq!(g.snake().clone(), vec![c(0, y)]);
        assert_eq!(
            updates,
            vec![
                TermUpdate { type_: TermUpdateType::Snake, coord: c(0, y) },
                TermUpdate { type_: TermUpdateType::Clear, coord: c(0, y - 1) },
            ]
        );
    }
    let updates = g.tick();
    assert_eq!(g.state, GameState::DEAD);
    assert_eq!(updates, vec![TermUpdate { type_: TermUpdateType::Snake, coord: c(0, 4) }]);
    let snake_after_death = g.snake().clone();
    for _ in 0..5 {
        let updates = g.tick();
        assert!(updates.is_empty());
        assert_eq!(g.state, GameState::DEAD);
        assert_eq!(g.snake().clone(), snake_after_death);
        assert_eq!(g.food(), Some(c(1, 0)));
    }
}

#[test]
fn food_stays_off_the_snake_after_every_tick() {
    let dirs = [Input::RIGHT, Input::DOWN, Input::LEFT, Input::DOWN, Input::RIGHT, Input::UP];
    let mut seed: u64 = 12345;
    for round in 0..50 {
        let mut g = Game::create(6, 7);
        let mut steps = 0;
        while g.is_running() && steps < 200 {
            seed = seed.wrapping_mul(6364136223846793005).wrapping_add(1442695040888963407);
            if (seed >> 33) % 3 == 0 {
                g.set_input(dirs[((seed >> 40) as usize + round) % dirs.len()]);
            }
            g.tick();
            if g.state == GameState::RUNNING {
                let f = g.food().unwrap();
                assert!(!g.snake().contains(&f));
                assert!(in_board(&g, &f));
            }
            steps += 1;
        }
    }
}

/// Builds the snake [(2,2), (2,1), (2,0)] on a 5x5 board, travelling down.
fn snake_in_column_two() -> Game {
    let mut g = Game::create_with_pick(5, 5, 0);
    assert_eq!(g.food(), Some(c(1, 0)));
    g.set_input(Input::RIGHT);
    g.tick_with_pick(0);
    assert_eq!(g.food(), Some(c(2, 0)));
    g.tick_with_pick(21);
    assert_eq!(g.food(), Some(c(4, 4)));
    g.set_input(Input::DOWN);
    g.tick();
    g.tick();
    assert_eq!(g.snake().clone(), vec![c(2, 2), c(2, 1), c(2, 0)]);
    assert_eq!(g.state, GameState::RUNNING);
    g
}

#[test]
fn reversing_direction_keeps_course() {
    let mut g = snake_in_column_two();
    g.set_input(Input::UP);
    assert_eq!(g.get_new_head(), c(2, 3));
    g.tick();
    assert_eq!(g.state, GameState::RUNNING);
    assert_eq!(g.snake().clone(), vec![c(2, 3), c(2, 2), c(2, 1)]);
}

#[test]
fn pressing_current_direction_moves_ahead() {
    let mut g = snake_in_column_two();
    g.set_input(Input::DOWN);
    assert_eq!(g.get_new_head(), c(2, 3));
    g.set_input(Input::LEFT);
    assert_eq!(g.get_new_head(), c(1, 2));
}

/// Grows the snake along the top row of a 5x5 board to `eaten + 1` segments,
/// with the last food put on the free cell at `last_pick`.
fn snake_along_top_row(eaten: usize, last_pick: usize) -> Game {
    let mut g = Game::create_with_pick(5, 5, 0);
    g.set_input(Input::RIGHT);
    for k in 0..eaten {
        let pick = if k + 1 == eaten { last_pick } else { 0 };
        g.tick_with_pick(pick);
    }
    assert_eq!(g.snake().len(), eaten + 1);
    g
}

#[test]
fn head_may_enter_the_cell_the_tail_leaves() {
    let mut g = snake_along_top_row(3, 9);
    assert_eq!(g.snake().clone(), vec![c(3, 0), c(2, 0), c(1, 0), c(0, 0)]);
    assert_eq!(g.food(), Some(c(3, 2)));
    g.set_input(Input::DOWN);
    g.tick();
    g.set_input(Input::LEFT);
    g.tick();
    assert_eq!(g.snake().clone(), vec![c(2, 1), c(3, 1), c(3, 0), c(2, 0)]);
    g.set_input(Input::UP);
    let updates = g.tick();
    assert_eq!(g.state, GameState::RUNNING);
    assert_eq!(g.snake().clone(), vec![c(2, 0), c(2, 1), c(3, 1), c(3, 0)]);
    assert_eq!(
        updates,
        vec![
            TermUpdate { type_: TermUpdateType::Clear, coord: c(2, 0) },
            TermUpdate { type_: TermUpdateType::Snake, coord: c(2, 0) },
        ]
    );
}

#[test]
fn running_into_the_body_is_fatal() {
    let mut g = snake_along_top_row(4, 9);
    assert_eq!(g.snake().clone(), vec![c(4, 0), c(3, 0), c(2, 0), c(1, 0), c(0, 0)]);
    assert_eq!(g.food(), Some(c(4, 2)));
    g.set_input(Input::DOWN);
    g.tick();
    g.set_input(Input::LEFT);
    g.tick();
    g.set_input(Input::UP);
    let before = g.snake().clone();
    assert_eq!(before, vec![c(3, 1), c(4, 1), c(4, 0), c(3, 0), c(2, 0)]);
    let updates = g.tick();
    assert_eq!(g.state, GameState::DEAD);
    assert!(updates.is_empty());
    assert_eq!(g.snake().clone(), before);
    assert_eq!(g.food(), Some(c(4, 2)));
}

#[test]
fn eating_grows_by_exactly_one() {
    let mut g = Game::create_with_pick(3, 3, 2);
    assert_eq!(g.food(), Some(c(0, 1)));
    let updates = g.tick_with_pick(0);
    assert_eq!(g.snake().len(), 2);
    assert_eq!(
        updates,
        vec![
            TermUpdate { type_: TermUpdateType::Snake, coord: c(0, 1) },
            TermUpdate { type_: TermUpdateType::Food, coord: c(1, 0) },
        ]
    );
    g.set_input(Input::RIGHT);
    g.tick();
    assert_eq!(g.snake().len(), 2);
}

#[test]
fn filling_the_board_wins() {
    let mut g = Game::create_with_pick(2, 2, 1);
    g.tick_with_pick(1);
    g.set_input(Input::RIGHT);
    g.tick_with_pick(0);
    g.set_input(Input::UP);
    let updates = g.tick_with_pick(0);
    assert_eq!(g.state, GameState::WON);
    assert_eq!(g.food(), None);
    assert_eq!(g.snake().clone(), vec![c(1, 0), c(1, 1), c(0, 1), c(0, 0)]);
    assert_eq!(updates, vec![TermUpdate { type_: TermUpdateType::Snake, coord: c(1, 0) }]);
    assert!(g.tick().is_empty());
    assert_eq!(g.state, GameState::WON);
}

#[test]
fn leaving_the_board_is_fatal_on_each_side() {
    let mut g = Game::create(3, 3);
    g.set_input(Input::LEFT);
    g.tick();
    assert_eq!(g.state, GameState::DEAD);
    assert_eq!(g.snake()[0], c(-1, 0));

    let mut g = Game::create(3, 3);
    g.set_input(Input::UP);
    g.tick();
    assert_eq!(g.state, GameState::DEAD);
    assert_eq!(g.snake()[0], c(0, -1));

    let mut g = Game::create_with_pick(3, 4, 0);
    g.set_input(Input::RIGHT);
    for _ in 0..4 {
        g.tick();
    }
    assert_eq!(g.state, GameState::DEAD);
    assert_eq!(g.snake()[0], c(4, 0));

    let mut g = Game::create_with_pick(3, 3, 0);
    for _ in 0..3 {
        g.tick();
    }
    assert_eq!(g.state, GameState::DEAD);
    assert_eq!(g.snake()[0], c(0, 3));
}

#[test]
fn three_by_three_first_tick_eats_forced_food() {
    let mut g = Game::create_with_pick(3, 3, 2);
    assert_eq!(g.food(), Some(c(0, 1)));
    g.tick();
    assert_eq!(g.state, GameState::RUNNING);
    assert_eq!(g.snake().clone(), vec![c(0, 1), c(0, 0)]);
    let f = g.food().unwrap();
    assert!(f != c(0, 0) && f != c(0, 1));
    assert!(in_board(&g, &f));
}

#[test]
fn interleaved_direction_writes_apply_whole_values() {
    let dirs = [Input::UP, Input::DOWN, Input::LEFT, Input::RIGHT];
    let mut seed: u64 = 99;
    for _ in 0..100 {
        let shared = Mutex::new(Game::create(20, 20));
        for _ in 0..40 {
            seed = seed.wrapping_mul(6364136223846793005).wrapping_add(1);
            let writes = (seed >> 35) % 3;
            let mut last = None;
            for k in 0..writes {
                let d = dirs[((seed >> (40 + 2 * k)) % 4) as usize];
                shared.lock().unwrap().set_input(d);
                last = Some(d);
            }
            let mut g = shared.lock().unwrap();
            if !g.is_running() {
                break;
            }
            if let Some(d) = last {
                assert_eq!(g.cur_input, d);
            }
            let head = g.snake()[0];
            let expected = g.get_new_head();
            let moved = [c(head.x, head.y - 1), c(head.x, head.y + 1), c(head.x - 1, head.y), c(head.x + 1, head.y)];
            assert!(moved.contains(&expected));
            g.tick();
            if g.state == GameState::RUNNING {
                assert_eq!(g.snake()[0], expected);
            }
        }
    }
}

#[test]
fn keys_map_to_directions_in_either_case() {
    assert_eq!(Input::from_key("w"), Some(Input::UP));
    assert_eq!(Input::from_key("W"), Some(Input::UP));
    assert_eq!(Input::from_key("a"), Some(Input::LEFT));
    assert_eq!(Input::from_key("A"), Some(Input::LEFT));
    assert_eq!(Input::from_key("s"), Some(Input::DOWN));
    assert_eq!(Input::from_key("S"), Some(Input::DOWN));
    assert_eq!(Input::from_key("d"), Some(Input::RIGHT));
    assert_eq!(Input::from_key("D"), Some(Input::RIGHT));
    assert_eq!(Input::from_key("x"), None);
    assert_eq!(Input::from_key(""), None);
    assert_eq!(Input::from_key("ww"), None);
    assert_eq!(Input::from_char('q'), None);
    assert_eq!(Input::from_char('d'), Some(Input::RIGHT));
}

#[test]
fn directions_reverse_and_offset() {
    assert_eq!(Input::UP.rev(), Input::DOWN);
    assert_eq!(Input::LEFT.rev(), Input::RIGHT);
    assert_eq!(Input::DOWN.offset(), c(0, 1));
    assert_eq!(Input::UP.offset(), c(0, -1));
    assert_eq!(Input::LEFT.offset(), c(-1, 0));
    assert_eq!(Input::RIGHT.offset(), c(1, 0));
    assert_eq!(c(3, 4).move_by(&Input::LEFT), c(2, 4));
}

#[test]
fn tiles_draw_walls_snake_and_food() {
    let g = Game::create_with_pick(2, 3, 0);
    let t = g.tiles();
    assert_eq!(t.len(), 4);
    for row in &t {
        assert_eq!(row.len(), 5);
    }
    for col in 0..5 {
        assert_eq!(t[0][col], Tile::WALL);
        assert_eq!(t[3][col], Tile::WALL);
    }
    for row in 0..4 {
        assert_eq!(t[row][0], Tile::WALL);
        assert_eq!(t[row][4], Tile::WALL);
    }
    assert_eq!(t[1][1], Tile::SNAKE);
    assert_eq!(t[1][2], Tile::FOOD);
    assert_eq!(t[1][3], Tile::AIR);
    assert_eq!(t[2][1], Tile::AIR);
    assert_eq!(g.tile(1, 2), Tile::FOOD);
}

#[test]
fn state_and_direction_read_back_through_accessors() {
    let mut g = Game::create(4, 4);
    assert_eq!(g.current_state(), GameState::RUNNING);
    assert_eq!(g.current_input(), Input::DOWN);
    g.set_input(Input::LEFT);
    assert_eq!(g.current_input(), Input::LEFT);
    g.tick();
    assert_eq!(g.current_state(), GameState::DEAD);
    assert_eq!(g.current_state(), g.state);
}

#[test]
fn move_by_round_trips_at_the_edge_of_the_coordinate_range() {
    let p = c(isize::MAX - 1, isize::MIN + 1);
    let right = p.move_by(&Input::RIGHT);
    assert_eq!(right, c(isize::MAX, isize::MIN + 1));
    assert_eq!(right.move_by(&Input::RIGHT.rev()), p);
    let up = p.move_by(&Input::UP);
    assert_eq!(up, c(isize::MAX - 1, isize::MIN));
    assert_eq!(up.move_by(&Input::UP.rev()), p);
}

#[test]
fn food_placement_on_a_long_snake_of_a_large_board() {
    // grow along the top row of a 255x255 board, each food put just ahead
    let mut g = Game::create_with_pick(255, 255, 0);
    g.set_input(Input::RIGHT);
    for k in 1..200 {
        g.tick_with_pick(0);
        assert_eq!(g.snake().len(), k + 1);
        assert_eq!(g.food(), Some(c(k as isize + 1, 0)));
    }
    let updates = g.tick_with_pick(0);
    assert_eq!(updates[0], TermUpdate { type_: TermUpdateType::Snake, coord: c(200, 0) });
    assert_eq!(g.state, GameState::RUNNING);
}
