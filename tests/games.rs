use tetris_lib::common::{Dot, Prng, BLACK_IDX, GREEN_IDX};
use tetris_lib::life::{LifeGame, LifeInput, LifeState};
use tetris_lib::menu::{game_title, Menu};
use tetris_lib::races::RacesGame;
use tetris_lib::snake::{SnakeGame, Tick};
use tetris_lib::tanks::{Missile, Tank, TanksGame};
use tetris_lib::tetris::{tetramino_color, TetrisGame};

#[test]
fn tetris_scenario_piece_falls_one_row_in_ten_ticks() {
    let mut game = TetrisGame::new(Prng::new(12345));
    game.start();
    game.spawn_piece(0);
    assert_eq!((game.x, game.y), (3, 6));
    for _ in 0..10 {
        assert!(game.update(0, false));
        game.pace(0);
    }
    assert_eq!(game.y, 7);
    assert_eq!(game.x, 3);
    assert_eq!(game.score, 0);
}

#[test]
fn tetris_start_draws_pieces_from_prng() {
    let mut game = TetrisGame::new(Prng::new(12345));
    assert_eq!(game.screen.get(0, 0), 0);
    game.start();
    assert_eq!(game.curr_idx, 220 % 7);
    assert_eq!(game.next_idx, 4 % 7);
}

#[test]
fn tetris_single_line_clear() {
    let mut game = TetrisGame::new(Prng::new(1));
    for x in 0..8 {
        game.concrete.set(x, 30, 1);
    }
    game.concrete.set(2, 29, 4);
    game.concrete.set(5, 28, 6);
    game.concrete.set(0, 31, 2);
    let row = game.reduce_concrete();
    assert_eq!(row, Some(30));
    game.shift_concrete(30);
    assert_eq!(game.concrete.get(2, 30), 4);
    assert_eq!(game.concrete.get(5, 29), 6);
    assert_eq!(game.concrete.get(0, 31), 2);
    for x in 0..8 {
        assert_eq!(game.concrete.get(x, 6), 0);
        if x != 2 {
            assert_eq!(game.concrete.get(x, 30), 0);
        }
    }
    assert!(!game.concrete.row_is_full(30));
    assert_eq!(game.reduce_concrete(), None);
}

#[test]
fn tetris_line_clear_scores_on_even_ticks() {
    let mut game = TetrisGame::new(Prng::new(1));
    for x in 0..8 {
        game.concrete.set(x, 31, 1);
    }
    game.mpass = 1;
    game.clear_lines();
    assert_eq!(game.score, 0);
    assert!(game.concrete.row_is_full(31));
    game.mpass = 2;
    game.clear_lines();
    assert_eq!(game.score, 1);
    assert!(game.concrete.row_is_empty(31));
}

#[test]
fn tetris_score_wraps_at_hundred() {
    let mut game = TetrisGame::new(Prng::new(1));
    game.score = 99;
    for x in 0..8 {
        game.concrete.set(x, 31, 1);
    }
    game.mpass = 0;
    game.clear_lines();
    assert_eq!(game.score, 0);
}

#[test]
fn tetris_piece_settles_on_floor() {
    let mut game = TetrisGame::new(Prng::new(7));
    game.spawn_piece(1);
    game.y = 30;
    assert!(game.settle());
    assert_eq!(game.concrete.get(3, 30), 0);
    game.y = 31;
    let color = tetramino_color(1);
    assert!(game.settle());
    assert_eq!(game.concrete.get(3, 30), color);
    assert_eq!(game.concrete.get(4, 31), color);
    assert_eq!((game.x, game.y), (3, 7));
}

#[test]
fn tetris_game_over_when_spawn_blocked() {
    let mut game = TetrisGame::new(Prng::new(7));
    game.spawn_piece(1);
    for y in 7..32 {
        game.concrete.set(3, y, 1);
    }
    game.y = 7;
    assert!(!game.update(0, false));
    assert_eq!((game.x, game.y), (3, 7));
}

#[test]
fn tetris_horizontal_move_on_odd_ticks_only() {
    let mut game = TetrisGame::new(Prng::new(7));
    game.spawn_piece(1);
    game.mpass = 0;
    game.move_horizontal(1);
    assert_eq!(game.x, 3);
    game.move_horizontal(1);
    assert_eq!(game.x, 4);
    game.mpass = 1;
    game.x = 6;
    game.move_horizontal(1);
    assert_eq!(game.x, 6);
}

#[test]
fn tetris_rotation_needs_room() {
    let mut game = TetrisGame::new(Prng::new(7));
    game.spawn_piece(0);
    game.try_rotate();
    assert_eq!((game.curr.width(), game.curr.height()), (1, 4));
    game.x = 7;
    game.y = 10;
    game.try_rotate();
    assert_eq!((game.curr.width(), game.curr.height()), (1, 4));
    assert_eq!(game.x, 7);
    game.x = 2;
    game.try_rotate();
    assert_eq!((game.curr.width(), game.curr.height()), (4, 1));
    assert_eq!(game.x, 2);
}

#[test]
fn tetris_pace_with_down_held() {
    let mut game = TetrisGame::new(Prng::new(7));
    game.pace(1);
    assert_eq!(game.y, 7);
    assert_eq!(game.ipass, 0);
}

fn snake_with_body(cells: &[(i8, i8)]) -> SnakeGame {
    let mut game = SnakeGame::new(Prng::new(3));
    for (i, &(x, y)) in cells.iter().enumerate() {
        game.body[i] = Dot::new(x, y);
    }
    game.body_len = cells.len();
    game
}

#[test]
fn snake_grows_on_apple() {
    let mut game = SnakeGame::new(Prng::new(3));
    game.apple = Dot::new(4, 15);
    assert!(game.move_forward());
    assert_eq!(game.body_len, 4);
    assert_eq!(game.body[0], Dot::new(4, 15));
    assert_eq!(game.score, 1);
    for i in 0..game.body_len {
        assert_ne!(game.body[i], game.apple);
    }
    assert!(game.apple.y >= 6);
}

#[test]
fn snake_grows_past_thirty_two() {
    let cells: Vec<(i8, i8)> = (0..32).map(|i| ((i % 8) as i8, 6 + (i / 8) as i8 * 2)).collect();
    let mut game = snake_with_body(&cells);
    game.direction = Dot::new(0, -1);
    game.next_direction = Dot::new(0, -1);
    game.apple = Dot::new(0, 5);
    assert!(game.move_forward());
    assert_eq!(game.body_len, 33);
    for i in 0..game.body_len {
        assert_ne!(game.body[i], game.apple);
    }
    assert!(game.apple.y >= 6);
}

#[test]
fn snake_self_collision_leaves_body() {
    let mut game = snake_with_body(&[(3, 15), (3, 16), (4, 16), (4, 15), (5, 15)]);
    let before = game.body;
    let apple = game.apple;
    assert!(!game.move_forward());
    assert_eq!(game.body, before);
    assert_eq!(game.body_len, 5);
    assert_eq!(game.score, 0);
    assert_eq!(game.apple, apple);
}

#[test]
fn snake_wraps_at_edges() {
    let mut game = snake_with_body(&[(7, 20), (6, 20)]);
    game.apple = Dot::new(0, 6);
    assert!(game.move_forward());
    assert_eq!(game.body[0], Dot::new(0, 20));
    assert_eq!(game.body[1], Dot::new(7, 20));
}

#[test]
fn snake_cannot_reverse() {
    let mut game = SnakeGame::new(Prng::new(3));
    game.apple = Dot::new(0, 6);
    game.next_direction = Dot::new(-1, 0);
    assert!(game.move_forward());
    assert_eq!(game.direction, Dot::new(1, 0));
    assert_eq!(game.body[0], Dot::new(4, 15));
}

#[test]
fn snake_tick_moves_after_pace() {
    let mut game = SnakeGame::new(Prng::new(3));
    game.apple = Dot::new(0, 6);
    assert!(matches!(game.tick(0, 0), Tick::Moved));
    assert!(matches!(game.tick(0, 0), Tick::Idle));
}

fn life_with(cells: &[(usize, usize)]) -> LifeGame {
    let mut game = LifeGame::new(Prng::new(9));
    for y in 6..32 {
        for x in 0..8 {
            game.screen.set(x, y, BLACK_IDX);
        }
    }
    for &(x, y) in cells {
        game.screen.set(x, y, GREEN_IDX);
    }
    game
}

fn live_cells(game: &LifeGame) -> Vec<(usize, usize)> {
    let mut v = Vec::new();
    for y in 6..32 {
        for x in 0..8 {
            if game.screen.get(x, y) != BLACK_IDX {
                v.push((x, y));
            }
        }
    }
    v
}

#[test]
fn life_blinker_period_two() {
    let start = vec![(3, 10), (3, 11), (3, 12)];
    let mut game = life_with(&start);
    game.next_generation();
    assert_eq!(live_cells(&game), vec![(2, 11), (3, 11), (4, 11)]);
    game.next_generation();
    assert_eq!(live_cells(&game), start);
}

#[test]
fn life_block_is_stable() {
    let block = vec![(3, 15), (4, 15), (3, 16), (4, 16)];
    let mut game = life_with(&block);
    for _ in 0..5 {
        game.next_generation();
        assert_eq!(live_cells(&game), block);
    }
}

#[test]
fn life_birth_with_three_neighbors() {
    let mut game = life_with(&[(1, 10), (2, 10), (3, 10)]);
    assert_eq!(game.count_neighbors(2, 11), 3);
    assert_eq!(game.screen.get(2, 11), BLACK_IDX);
    game.next_generation();
    assert_ne!(game.screen.get(2, 11), BLACK_IDX);
}

#[test]
fn life_neighbors_wrap_horizontally_not_vertically() {
    let game = life_with(&[(7, 10), (0, 31)]);
    assert_eq!(game.count_neighbors(0, 10), 1);
    assert_eq!(game.count_neighbors(0, 6), 0);
    assert_eq!(game.count_neighbors(0, 30), 1);
}

#[test]
fn life_modes() {
    let mut game = LifeGame::new(Prng::new(9));
    let none = LifeInput { x: 0, y: 0, joystick: false, a: false, b: false };
    game.frame(LifeInput { joystick: true, ..none });
    assert_eq!(game.state, LifeState::Paused);
    game.frame(LifeInput { b: true, ..none });
    assert_eq!(game.speed, 2);
    game.frame(LifeInput { a: true, ..none });
    assert_eq!(game.speed, 1);
    game.frame(LifeInput { joystick: true, ..none });
    assert_eq!(game.state, LifeState::Running);
    game.frame(LifeInput { b: true, ..none });
    assert_eq!(game.state, LifeState::DrawMode);
    let (cx, cy) = (game.cursor_x, game.cursor_y);
    let before = game.screen.get(cx, cy);
    game.frame(LifeInput { joystick: true, ..none });
    assert_ne!(game.screen.get(cx, cy), before);
    game.frame(LifeInput { a: true, ..none });
    assert_eq!(game.state, LifeState::Running);
}

#[test]
fn life_next_pattern_seeds_glider() {
    let mut game = LifeGame::new(Prng::new(9));
    game.next_pattern();
    assert_eq!(game.pattern_index, 1);
    assert_eq!(live_cells(&game), vec![(1, 8), (2, 9), (0, 10), (1, 10), (2, 10)]);
}

#[test]
fn tank_fire_uses_first_free_slot() {
    let mut tank = Tank::new(Dot::new(3, 16), -1);
    tank.fire();
    assert_eq!((tank.missiles[0].x, tank.missiles[0].y), (5, 17));
    assert_eq!((tank.missiles[0].dx, tank.missiles[0].dy), (1, 0));
    assert!(!tank.missiles[1].visible());
    tank.move_missiles();
    assert_eq!(tank.missiles[0].x, 6);
    for _ in 0..2 {
        tank.move_missiles();
    }
    assert!(!tank.missiles[0].visible());
}

#[test]
fn tank_fires_from_leading_edge_when_facing_left() {
    let mut tank = Tank::new(Dot::new(3, 16), -1);
    tank.rotate(&Dot::new(-1, 0));
    tank.fire();
    assert_eq!((tank.missiles[0].x, tank.missiles[0].y), (2, 17));
    tank.rotate(&Dot::new(0, -1));
    tank.fire();
    assert_eq!((tank.missiles[1].x, tank.missiles[1].y), (4, 15));
}

#[test]
fn tank_rotates_before_moving() {
    let mut game = TanksGame::new(Prng::new(5));
    let fig = game.tank.figure;
    let screen = tetris_lib::common::FrameBuffer::new();
    game.tank.move_(&Dot::new(0, 1), &screen, &fig, false);
    assert_eq!(game.tank.pos, Dot::new(3, 16));
    assert_eq!(game.tank.direction(), Dot::new(0, 1));
    let fig = game.tank.figure;
    game.tank.move_(&Dot::new(0, 1), &screen, &fig, false);
    assert_eq!(game.tank.pos, Dot::new(3, 17));
}

#[test]
fn tank_hit_box_and_lives() {
    let mut tank = Tank::new(Dot::new(2, 10), 0);
    assert!(tank.collides(Dot::new(3, 11)));
    assert!(!tank.collides(Dot::new(4, 11)));
    assert!(!tank.is_dead());
    tank.hit();
    assert!(tank.is_dead());
    assert!(!tank.is_dying());
    tank.hit();
    assert!(tank.is_dying());
}

#[test]
fn tanks_spawn_and_collisions() {
    let mut game = TanksGame::new(Prng::new(5));
    game.update_enemies();
    assert_eq!(game.enemy_count, 1);
    assert_eq!(game.enemies[0].origin, 1);
    game.tank.missiles[0] = Missile::new(game.enemies[0].pos.x, game.enemies[0].pos.y, 1, 0);
    game.check_collisions();
    assert_eq!(game.score, 100);
    assert!(!game.tank.missiles[0].visible());
    game.remove_dead();
    assert_eq!(game.enemy_count, 0);
}

#[test]
fn tanks_player_hit_ends_game() {
    let mut game = TanksGame::new(Prng::new(5));
    game.update_enemies();
    let p = game.tank.pos;
    game.enemies[0].missiles[0] = Missile::new(p.x + 1, p.y, 0, 1);
    game.check_collisions();
    assert!(game.tank.is_dead());
    assert!(!game.tick(false, 0, 0));
}

#[test]
fn tanks_can_hit_player_on_a_line() {
    let game = TanksGame::new(Prng::new(5));
    let enemy = Tank::new(Dot::new(0, 16), 0);
    assert!(game.can_hit_player(&enemy));
    let enemy = Tank::new(Dot::new(0, 6), 0);
    assert!(!game.can_hit_player(&enemy));
    assert!(game.has_line_of_sight(&Tank::new(Dot::new(0, 16), 0), game.tank.pos));
    assert!(!game.has_line_of_sight(&Tank::new(Dot::new(0, 6), 0), game.tank.pos));
}

#[test]
fn races_start_and_tick() {
    let mut game = RacesGame::new(Prng::new(11));
    assert_eq!(game.car_pos, Dot::new(3, 28));
    assert!(game.tick(true, 0, 0));
    assert_eq!(game.bullet_count, 1);
    assert_eq!(game.max_bullets, 4);
}

#[test]
fn races_crash_costs_a_life() {
    let mut game = RacesGame::new(Prng::new(11));
    game.obstacles[0] = Dot::new(3, 27);
    game.obstacle_count = 1;
    game.check_collisions();
    assert_eq!(game.lives, 2);
    assert_eq!(game.invulnerable_time, 20);
    game.check_collisions();
    assert_eq!(game.lives, 2);
    assert_eq!(game.invulnerable_time, 19);
}

#[test]
fn races_bullet_removes_obstacle() {
    let mut game = RacesGame::new(Prng::new(11));
    game.obstacles[0] = Dot::new(2, 10);
    game.obstacle_count = 1;
    game.bullets[0] = Dot::new(3, 11);
    game.bullet_count = 1;
    game.check_collisions();
    assert_eq!(game.obstacle_count, 0);
    assert_eq!(game.bullet_count, 0);
}

#[test]
fn races_powerup_adds_bullet() {
    let mut game = RacesGame::new(Prng::new(11));
    game.max_bullets = 2;
    game.bullet_powerup = Some(Dot::new(3, 26));
    game.update_bullet_powerup();
    assert_eq!(game.max_bullets, 3);
    assert_eq!(game.bullet_powerup, None);
}

#[test]
fn menu_cycles_through_four_games() {
    let mut menu = Menu::new();
    menu.navigate(-1);
    assert_eq!(menu.game_idx, 3);
    menu.navigate(1);
    assert_eq!(menu.game_idx, 0);
    menu.navigate(0);
    assert_eq!(menu.game_idx, 0);
    menu.navigate(1);
    menu.navigate(1);
    assert_eq!(menu.game_idx, 2);
}

#[test]
fn menu_title_screen_from_columns() {
    let menu = Menu::new();
    let fb = menu.title_screen();
    let rows = game_title(0);
    for x in 0..8usize {
        for y in 0..32usize {
            let bit = (rows[x] >> (31 - y)) & 1 == 1;
            assert_eq!(fb.get(7 - x, y) == GREEN_IDX, bit);
        }
    }
}

#[test]
fn tanks_should_fire_when_lined_up() {
    let mut game = TanksGame::new(Prng::new(5));
    let enemy = Tank::new(Dot::new(0, 16), 0);
    assert!(game.should_fire(&enemy));
}

#[test]
fn tanks_smart_move_heads_for_player() {
    let game = TanksGame::new(Prng::new(5));
    let mut enemy = Tank::new(Dot::new(3, 6), 0);
    game.smart_move(&mut enemy);
    // the player is straight below: the enemy turns to face down first
    assert_eq!(enemy.pos, Dot::new(3, 6));
    assert_eq!(enemy.direction(), Dot::new(0, 1));
    game.smart_move(&mut enemy);
    assert_eq!(enemy.pos, Dot::new(3, 7));
}

#[test]
fn frame_buffer_default_is_blank() {
    let fb = tetris_lib::common::FrameBuffer::default();
    for y in 0..32 {
        for x in 0..8 {
            assert_eq!(fb.get(x, y), 0);
        }
    }
}

#[test]
fn races_obstacles_fall_and_leave() {
    let mut game = RacesGame::new(Prng::new(11));
    game.obstacles[0] = Dot::new(1, 31);
    game.obstacles[1] = Dot::new(4, 10);
    game.obstacle_count = 2;
    game.update_obstacles();
    assert_eq!(game.obstacle_count, 1);
    assert_eq!(game.obstacles[0], Dot::new(4, 11));
}

#[test]
fn races_bullets_climb_and_leave() {
    let mut game = RacesGame::new(Prng::new(11));
    game.bullets[0] = Dot::new(3, 0);
    game.bullets[1] = Dot::new(2, 5);
    game.bullet_count = 2;
    game.update_bullets();
    assert_eq!(game.bullet_count, 1);
    assert_eq!(game.bullets[0], Dot::new(2, 4));
}

#[test]
fn life_random_fill_uses_one_draw_per_cell() {
    let game = LifeGame::new(Prng::new(9));
    let mut p = Prng::new(9);
    for x in 0..8usize {
        for y in 6..32usize {
            let alive = p.next_range(4) == 0;
            assert_eq!(game.screen.get(x, y) == GREEN_IDX, alive);
        }
    }
    for y in 0..6 {
        for x in 0..8 {
            assert_eq!(game.screen.get(x, y), 0);
        }
    }
}

#[test]
fn tanks_update_enemies_spawns_at_first_free_point() {
    let mut game = TanksGame::new(Prng::new(5));
    game.update_enemies();
    game.update_enemies();
    assert_eq!(game.enemy_count, 2);
    assert_eq!(game.enemies[1].origin, 2);
    assert_eq!(game.enemies[1].pos, Dot::new(0, 29));
}
