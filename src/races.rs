use crate::common::{
    lcg_output, lcg_step, drawn, cell_index, lemma_cell_index, in_screen, SCREEN_SIZE, Dot, FrameBuffer, Prng, BLACK_IDX, BLUE_IDX, BRICK_IDX, DARK_GREEN_IDX, GREEN_IDX, PINK_IDX,
    RED_IDX, SCREEN_HEIGHT, SCREEN_WIDTH, YELLOW_IDX,
};
use crate::digits::Digits;
use crate::tetris::digit_figure;
use vstd::prelude::*;

verus! {

/// Frames between road (and obstacle) steps.
pub const ROAD_UPDATE_STEP_SIZE: u8 = 10;

/// Frames in one full update cycle.
pub const UPDATE_STEP_SIZE: u8 = ROAD_UPDATE_STEP_SIZE * 2;

/// Obstacle slots.
pub const MAX_OBSTACLES: usize = 2;

/// Bullet slots.
pub const MAX_BULLETS: usize = 4;

/// Frames of invulnerability after a crash.
pub const INVULNERABLE_FRAMES: u8 = 20;

/// Random draws for a free column before the columns are tried in order.
pub const RESPAWN_TRIES: u32 = 64;

/// Whether `p` is on the player's car drawn at `car`: a base row three
/// wide, two cells up the middle, a row three wide at the top of those,
/// and one more cell above the middle (the top row's sides are on
/// `car.y - 2`).
pub open spec fn on_car(car: Dot, p: Dot) -> bool {
    ||| ((p.x == car.x - 1 || p.x == car.x || p.x == car.x + 1) && p.y == car.y)
    ||| (p.x == car.x && (p.y == car.y - 1 || p.y == car.y - 2))
    ||| ((p.x == car.x - 1 || p.x == car.x + 1) && p.y == car.y - 2)
    ||| (p.x == car.x && p.y == car.y - 3)
}

/// Whether `p` lies on the two-by-two obstacle at `obs`.
pub open spec fn on_obstacle(obs: Dot, p: Dot) -> bool {
    (p.x == obs.x || p.x == obs.x + 1) && (p.y == obs.y || p.y == obs.y + 1)
}

/// Whether column `x` (and `x + 1`) is blocked at rows 0 and 1 by one of
/// the first `n` obstacles.
pub open spec fn top_blocked(obstacles: Seq<Dot>, n: int, x: int) -> bool {
    exists|j: int|
        0 <= j < n && (obstacles[j].x == x || obstacles[j].x == x + 1) && (obstacles[j].y == 0
            || obstacles[j].y == 1)
}

/// Whether the car shape based at (`x`, `y`) covers the grid cell
/// (`cx`, `cy`): the base row and the row two up are drawn only when both
/// of their ends fit across the grid.
pub open spec fn car_cell(x: int, y: int, cx: int, cy: int) -> bool {
    &&& in_screen(cx, cy)
    &&& {
        ||| (0 < x < SCREEN_WIDTH - 1 && (cy == y || cy == y - 2) && x - 1 <= cx <= x + 1)
        ||| (cx == x && (cy == y - 1 || cy == y - 3))
    }
}

/// Paints a dark green two-by-two block at each of the first `count`
/// obstacles, clipped at the grid's edges.
fn paint_blocks(screen: &mut FrameBuffer, obstacles: &[Dot; 2], count: usize)
    requires
        count <= 2,
        forall|k: int| 0 <= k < 2 ==> 0 <= (#[trigger] obstacles@[k]).x <= 5 && 0 <= obstacles@[k].y <= SCREEN_HEIGHT,
    ensures
        final(screen)@.len() == SCREEN_SIZE,
        forall|c: int|
            0 <= c < SCREEN_SIZE ==> #[trigger] final(screen)@[c] == if exists|k: int|
                0 <= k < count && on_obstacle(
                    obstacles@[k],
                    Dot { x: (c % 8) as i8, y: (c / 8) as i8 },
                ) {
                DARK_GREEN_IDX
            } else {
                old(screen)@[c]
            },
{
    proof {
        screen.lemma_len();
    }
    let ghost s0 = screen@;
    let mut i: usize = 0;
    while i < count
        invariant
            i <= count <= 2,
            forall|k: int| 0 <= k < 2 ==> 0 <= (#[trigger] obstacles@[k]).x <= 5 && 0 <= obstacles@[k].y <= SCREEN_HEIGHT,
            s0 == old(screen)@,
            s0.len() == SCREEN_SIZE,
            screen@.len() == SCREEN_SIZE,
            forall|c: int|
                0 <= c < SCREEN_SIZE ==> #[trigger] screen@[c] == if exists|k: int|
                    0 <= k < i && on_obstacle(obstacles@[k], Dot { x: (c % 8) as i8, y: (c / 8) as i8 }) {
                    DARK_GREEN_IDX
                } else {
                    s0[c]
                },
        decreases count - i,
    {
        let obs = obstacles[i];
        let x = obs.x as usize;
        let y = obs.y as usize;
        screen.set(x, y, DARK_GREEN_IDX);
        screen.set(x + 1, y, DARK_GREEN_IDX);
        screen.set(x, y + 1, DARK_GREEN_IDX);
        screen.set(x + 1, y + 1, DARK_GREEN_IDX);
        proof {
            assert forall|c: int| 0 <= c < SCREEN_SIZE implies #[trigger] screen@[c] == if exists|k: int|
                0 <= k < i + 1 && on_obstacle(obstacles@[k], Dot { x: (c % 8) as i8, y: (c / 8) as i8 }) {
                DARK_GREEN_IDX
            } else {
                s0[c]
            } by {
                let d = Dot { x: (c % 8) as i8, y: (c / 8) as i8 };
                lemma_cell_index(c, x as int, y as int);
                if x + 1 < 8 {
                    lemma_cell_index(c, x + 1, y as int);
                }
                lemma_cell_index(c, x as int, y + 1);
                if x + 1 < 8 {
                    lemma_cell_index(c, x + 1, y + 1);
                }
                if on_obstacle(obs, d) {
                    assert(obstacles@[i as int] == obs);
                } else if exists|k: int| 0 <= k < i + 1 && on_obstacle(obstacles@[k], d) {
                    let k = choose|k: int| 0 <= k < i + 1 && on_obstacle(obstacles@[k], d);
                    assert(k != i);
                }
            }
        }
        i = i + 1;
    }
}

/// Paints the first `count` dots that are on the grid in `color`.
fn paint_dots(screen: &mut FrameBuffer, dots: &[Dot; 4], count: usize, color: u8)
    requires
        count <= 4,
    ensures
        final(screen)@.len() == SCREEN_SIZE,
        forall|c: int|
            0 <= c < SCREEN_SIZE ==> #[trigger] final(screen)@[c] == if exists|k: int|
                0 <= k < count && dot_on_grid_at(dots@[k], c) {
                color
            } else {
                old(screen)@[c]
            },
{
    proof {
        screen.lemma_len();
    }
    let ghost s0 = screen@;
    let mut i: usize = 0;
    while i < count
        invariant
            i <= count <= 4,
            s0 == old(screen)@,
            s0.len() == SCREEN_SIZE,
            screen@.len() == SCREEN_SIZE,
            forall|c: int|
                0 <= c < SCREEN_SIZE ==> #[trigger] screen@[c] == if exists|k: int|
                    0 <= k < i && dot_on_grid_at(dots@[k], c) {
                    color
                } else {
                    s0[c]
                },
        decreases count - i,
    {
        let d = dots[i];
        if d.x >= 0 && d.x < SCREEN_WIDTH as i8 && d.y >= 0 && d.y < SCREEN_HEIGHT as i8 {
            screen.set(d.x as usize, d.y as usize, color);
        }
        proof {
            assert forall|c: int| 0 <= c < SCREEN_SIZE implies #[trigger] screen@[c] == if exists|
                k: int,
            | 0 <= k < i + 1 && dot_on_grid_at(dots@[k], c) {
                color
            } else {
                s0[c]
            } by {
                if dot_on_grid_at(d, c) {
                    assert(dots@[i as int] == d);
                } else if exists|k: int| 0 <= k < i + 1 && dot_on_grid_at(dots@[k], c) {
                    let k = choose|k: int| 0 <= k < i + 1 && dot_on_grid_at(dots@[k], c);
                    assert(k != i);
                }
            }
        }
        i = i + 1;
    }
}

/// The road edge's colour `k` rows into its pattern: bricks for four
/// rows, then a gap of four.
pub open spec fn road_color(k: int) -> u8 {
    if (k / 4) % 2 == 0 {
        BRICK_IDX
    } else {
        BLACK_IDX
    }
}

/// `s1` is `s0` with both road edges (columns 0 and 7) painted, the
/// pattern scrolled down by `anim` rows.
pub open spec fn road_painted(s0: Seq<u8>, s1: Seq<u8>, anim: int) -> bool {
    &&& s1.len() == SCREEN_SIZE
    &&& forall|c: int|
        0 <= c < SCREEN_SIZE ==> #[trigger] s1[c] == if c % 8 == 0 || c % 8 == 7 {
            road_color((c / 8 + SCREEN_HEIGHT - anim) % (SCREEN_HEIGHT as int))
        } else {
            s0[c]
        }
}

fn paint_road(screen: &mut FrameBuffer, anim: u8)
    requires
        anim < SCREEN_HEIGHT,
    ensures
        road_painted(old(screen)@, final(screen)@, anim as int),
{
    proof {
        screen.lemma_len();
    }
    let ghost s0 = screen@;
    let mut bricks: i8 = 0;
    let mut part = true;
    let mut y: usize = 0;
    while y < SCREEN_HEIGHT
        invariant
            y <= SCREEN_HEIGHT,
            anim < SCREEN_HEIGHT,
            s0 == old(screen)@,
            s0.len() == SCREEN_SIZE,
            screen@.len() == SCREEN_SIZE,
            y == 0 ==> bricks == 0 && part,
            y > 0 ==> bricks == (y - 1) % 4 + 1 && part == (((y - 1) / 4) % 2 == 0),
            forall|c: int|
                0 <= c < SCREEN_SIZE ==> #[trigger] screen@[c] == if (c % 8 == 0 || c % 8 == 7)
                    && (c / 8 + SCREEN_HEIGHT - anim) % (SCREEN_HEIGHT as int) < y {
                    road_color((c / 8 + SCREEN_HEIGHT - anim) % (SCREEN_HEIGHT as int))
                } else {
                    s0[c]
                },
        decreases SCREEN_HEIGHT - y,
    {
        if bricks == 4 {
            bricks = 0;
            part = !part;
        }
        bricks = bricks + 1;
        let color = if part {
            BRICK_IDX
        } else {
            BLACK_IDX
        };
        assert(color == road_color(y as int));
        let row = (y + anim as usize) % SCREEN_HEIGHT;
        screen.set(0, row, color);
        screen.set(7, row, color);
        proof {
            assert forall|c: int| 0 <= c < SCREEN_SIZE implies #[trigger] screen@[c] == if (c % 8
                == 0 || c % 8 == 7) && (c / 8 + SCREEN_HEIGHT - anim) % (SCREEN_HEIGHT as int) < y
                + 1 {
                road_color((c / 8 + SCREEN_HEIGHT - anim) % (SCREEN_HEIGHT as int))
            } else {
                s0[c]
            } by {
                lemma_cell_index(c, 0, row as int);
                lemma_cell_index(c, 7, row as int);
                let k = (c / 8 + SCREEN_HEIGHT - anim) % (SCREEN_HEIGHT as int);
                assert((c / 8 == row) == (k == y));
            }
        }
        y = y + 1;
    }
}

/// `v` with the top `n` cells of column `x` in `color`.
pub open spec fn column_painted(v: Seq<u8>, x: int, n: int, color: u8) -> Seq<u8> {
    Seq::new(
        SCREEN_SIZE as nat,
        |c: int|
            if c % 8 == x && c / 8 < n {
                color
            } else {
                v[c]
            },
    )
}

fn paint_column(screen: &mut FrameBuffer, x: usize, n: u8, color: u8)
    requires
        x < SCREEN_WIDTH,
        n <= SCREEN_HEIGHT,
    ensures
        final(screen)@ == column_painted(old(screen)@, x as int, n as int, color),
{
    proof {
        screen.lemma_len();
    }
    let ghost s0 = screen@;
    let mut y: u8 = 0;
    while y < n
        invariant
            y <= n <= SCREEN_HEIGHT,
            x < SCREEN_WIDTH,
            s0 == old(screen)@,
            s0.len() == SCREEN_SIZE,
            screen@.len() == SCREEN_SIZE,
            forall|c: int|
                0 <= c < SCREEN_SIZE ==> #[trigger] screen@[c] == if c % 8 == x && c / 8 < y {
                    color
                } else {
                    s0[c]
                },
        decreases n - y,
    {
        screen.set(x, y as usize, color);
        proof {
            assert forall|c: int| 0 <= c < SCREEN_SIZE implies #[trigger] screen@[c] == if c % 8
                == x && c / 8 < y + 1 {
                color
            } else {
                s0[c]
            } by {
                lemma_cell_index(c, x as int, y as int);
            }
        }
        y = y + 1;
    }
    assert(screen@ =~= column_painted(s0, x as int, n as int, color));
}

/// `d` moved `dy` rows.
pub open spec fn fell(d: Dot, dy: int) -> Dot {
    Dot { x: d.x, y: (d.y + dy) as i8 }
}

/// `d` stays on the grid's rows after moving `dy`.
pub open spec fn stays(d: Dot, dy: int) -> bool {
    0 <= d.y + dy < SCREEN_HEIGHT
}

/// `d` is one of `s[lo..hi]`.
pub open spec fn dot_among(s: Seq<Dot>, lo: int, hi: int, d: Dot) -> bool {
    exists|k: int| lo <= k < hi && s[k] == d
}

/// The first `n` dots of `s` moved `dy` rows, in order, leaving out those
/// that leave the grid's rows.
pub open spec fn fallen(s: Seq<Dot>, n: int, dy: int) -> Seq<Dot>
    decreases n,
{
    if n <= 0 {
        Seq::empty()
    } else if stays(s[n - 1], dy) {
        fallen(s, n - 1, dy).push(fell(s[n - 1], dy))
    } else {
        fallen(s, n - 1, dy)
    }
}

/// `d` is one of the first `n0` dots of `s0` that stay on the grid's rows,
/// moved `dy` rows.
pub open spec fn fall_of(s0: Seq<Dot>, n0: int, d: Dot, dy: int) -> bool {
    exists|j: int| 0 <= j < n0 && stays(s0[j], dy) && d == fell(s0[j], dy)
}

/// The first `n1` dots of `s1` are the first `n0` of `s0` moved `dy` rows,
/// those that left the rows dropped, in some order.
pub open spec fn advanced(s0: Seq<Dot>, n0: int, s1: Seq<Dot>, n1: int, dy: int) -> bool {
    &&& 0 <= n1 <= n0
    &&& forall|k: int| 0 <= k < n1 ==> #[trigger] fall_of(s0, n0, s1[k], dy)
    &&& forall|j: int|
        0 <= j < n0 && stays(s0[j], dy) ==> #[trigger] dot_among(s1, 0, n1, fell(s0[j], dy))
}

/// Moves the first `count` dots `dy` rows, removing (by swapping in the
/// last) those that leave the grid's rows; returns how many remain.
fn advance_dots<const N: usize>(dots: &mut [Dot; N], count: usize, dy: i8) -> (n: usize)
    requires
        count <= N,
        dy == 1 || dy == -1,
        forall|k: int| 0 <= k < count ==> -1 <= (#[trigger] old(dots)@[k]).y < SCREEN_HEIGHT,
    ensures
        advanced(old(dots)@, count as int, final(dots)@, n as int, dy as int),
        forall|k: int|
            0 <= k < N ==> dot_among(old(dots)@, 0, N as int, #[trigger] final(dots)@[k])
                || exists|j: int| 0 <= j < count && final(dots)@[k] == fell(old(dots)@[j], dy as int),
{
    let ghost s0 = dots@;
    let mut n: usize = count;
    let mut i: usize = 0;
    while i < n
        invariant
            i <= n <= count <= N,
            dy == 1 || dy == -1,
            s0 == old(dots)@,
            dots@.len() == N,
            forall|k: int| 0 <= k < count ==> -1 <= (#[trigger] s0[k]).y < SCREEN_HEIGHT,
            forall|k: int| 0 <= k < i ==> #[trigger] fall_of(s0, count as int, dots@[k], dy as int),
            forall|k: int| i <= k < n ==> #[trigger] dot_among(s0, 0, count as int, dots@[k]),
            forall|j: int|
                0 <= j < count && stays(s0[j], dy as int) ==> #[trigger] dot_among(
                    dots@,
                    0,
                    i as int,
                    fell(s0[j], dy as int),
                ) || dot_among(dots@, i as int, n as int, s0[j]),
            forall|k: int|
                0 <= k < N ==> dot_among(s0, 0, N as int, #[trigger] dots@[k]) || exists|j: int|
                    0 <= j < count && dots@[k] == fell(s0[j], dy as int),
        decreases n + n - i,
    {
        let ghost before = dots@;
        let d = dots[i];
        proof {
            assert(dot_among(s0, 0, count as int, d));
        }
        let ghost jd = choose|j: int| 0 <= j < count && s0[j] == d;
        let moved = Dot::new(d.x, d.y + dy);
        dots[i] = moved;
        if moved.y < 0 || moved.y >= SCREEN_HEIGHT as i8 {
            n = n - 1;
            if i < n {
                dots[i] = dots[n];
            }
            proof {
                assert forall|k: int| 0 <= k < i implies #[trigger] fall_of(
                    s0,
                    count as int,
                    dots@[k],
                    dy as int,
                ) by {
                    assert(dots@[k] == before[k]);
                }
                assert forall|j: int|
                    0 <= j < count && stays(s0[j], dy as int) implies #[trigger] dot_among(
                    dots@,
                    0,
                    i as int,
                    fell(s0[j], dy as int),
                ) || dot_among(dots@, i as int, n as int, s0[j]) by {
                    if dot_among(before, 0, i as int, fell(s0[j], dy as int)) {
                        let k = choose|k: int| 0 <= k < i && before[k] == fell(s0[j], dy as int);
                        assert(dots@[k] == before[k]);
                    } else {
                        let k = choose|k: int| i <= k < n + 1 && before[k] == s0[j];
                        assert(k != i);
                        if k == n {
                            assert(dots@[i as int] == s0[j]);
                        } else {
                            assert(dots@[k] == s0[j]);
                        }
                    }
                }
                assert forall|k: int| i <= k < n implies #[trigger] dot_among(
                    s0,
                    0,
                    count as int,
                    dots@[k],
                ) by {
                    if k == i {
                        assert(dots@[k] == before[n as int]);
                    } else {
                        assert(dots@[k] == before[k]);
                    }
                }
                assert forall|k: int| 0 <= k < N implies dot_among(
                    s0,
                    0,
                    N as int,
                    #[trigger] dots@[k],
                ) || exists|j: int| 0 <= j < count && dots@[k] == fell(s0[j], dy as int) by {
                    if k == i && i < n {
                        assert(dots@[k] == before[n as int]);
                    } else if k == i {
                        assert(dots@[k] == fell(s0[jd], dy as int));
                    } else {
                        assert(dots@[k] == before[k]);
                    }
                }
            }
        } else {
            proof {
                assert(dots@[i as int] == fell(s0[jd], dy as int));
                assert(stays(s0[jd], dy as int));
                assert forall|k: int| 0 <= k < i + 1 implies #[trigger] fall_of(
                    s0,
                    count as int,
                    dots@[k],
                    dy as int,
                ) by {
                    if k == i {
                        assert(dots@[k] == fell(s0[jd], dy as int));
                    } else {
                        assert(dots@[k] == before[k]);
                    }
                }
                assert forall|j: int|
                    0 <= j < count && stays(s0[j], dy as int) implies #[trigger] dot_among(
                    dots@,
                    0,
                    i + 1,
                    fell(s0[j], dy as int),
                ) || dot_among(dots@, i + 1, n as int, s0[j]) by {
                    if dot_among(before, 0, i as int, fell(s0[j], dy as int)) {
                        let k = choose|k: int| 0 <= k < i && before[k] == fell(s0[j], dy as int);
                        assert(dots@[k] == before[k]);
                    } else {
                        let k = choose|k: int| i <= k < n && before[k] == s0[j];
                        if k == i {
                            assert(dots@[i as int] == fell(s0[j], dy as int));
                        } else {
                            assert(dots@[k] == s0[j]);
                        }
                    }
                }
                assert forall|k: int| 0 <= k < N implies dot_among(
                    s0,
                    0,
                    N as int,
                    #[trigger] dots@[k],
                ) || exists|j: int| 0 <= j < count && dots@[k] == fell(s0[j], dy as int) by {
                    if k == i {
                        assert(dots@[k] == fell(s0[jd], dy as int));
                    } else {
                        assert(dots@[k] == before[k]);
                    }
                }
            }
            i = i + 1;
        }
    }
    assert forall|j: int| 0 <= j < count && stays(s0[j], dy as int) implies #[trigger] dot_among(
        dots@,
        0,
        n as int,
        fell(s0[j], dy as int),
    ) by {
        if !dot_among(dots@, 0, i as int, fell(s0[j], dy as int)) {
            assert(dot_among(dots@, i as int, n as int, s0[j]));
        }
    }
    n
}

/// Whether `d` is on the grid, at cell index `c`.
pub open spec fn dot_on_grid_at(d: Dot, c: int) -> bool {
    in_screen(d.x as int, d.y as int) && cell_index(d.x as int, d.y as int) == c
}

/// An obstacle spawn, from `s0` to `s1` (see `spawn_obstacles`).
pub open spec fn obstacles_spawned(s0: RacesGame, s1: RacesGame) -> bool {
    &&& (({
        let g1 = lcg_step(s0.prng@);
        if s0.obstacle_count >= MAX_OBSTACLES {
            &&& s1.obstacles == s0.obstacles
            &&& s1.obstacle_count == s0.obstacle_count
            &&& s1.prng == s0.prng
        } else if lcg_output(g1) % 30 != 0 {
            &&& s1.obstacles == s0.obstacles
            &&& s1.obstacle_count == s0.obstacle_count
            &&& s1.prng@ == g1
        } else {
            &&& s1.obstacle_count == s0.obstacle_count + 1
            &&& s1.obstacles@ == s0.obstacles@.update(
                s0.obstacle_count as int,
                Dot { x: (lcg_output(lcg_step(g1)) % 6) as i8, y: 0 },
            )
            &&& s1.prng@ == lcg_step(g1)
        }
    }))
    &&& (s1.bullets == s0.bullets)
    &&& (s1.bullet_count == s0.bullet_count)
    &&& (s1.bullet_powerup == s0.bullet_powerup)
    &&& (s1.racing_cars == s0.racing_cars)
    &&& (s1.update_step == s0.update_step)
    &&& (s1.car_pos == s0.car_pos)
    &&& (s1.lives == s0.lives)
    &&& s1.racing_car_health == s0.racing_car_health
    &&& s1.cars_destroyed == s0.cars_destroyed
    &&& s1.invulnerable_time == s0.invulnerable_time
    &&& s1.max_bullets == s0.max_bullets
}

/// A power-up spawn, from `s0` to `s1` (see `spawn_bullet_powerup`).
pub open spec fn powerup_spawned(s0: RacesGame, s1: RacesGame) -> bool {
    &&& (({
        let g1 = lcg_step(s0.prng@);
        if s0.bullet_powerup is Some {
            s1.bullet_powerup == s0.bullet_powerup && s1.prng
                == s0.prng
        } else if lcg_output(g1) % 50 != 0 {
            s1.bullet_powerup is None && s1.prng@ == g1
        } else {
            &&& s1.bullet_powerup == Some(
                Dot { x: (lcg_output(lcg_step(g1)) % 5 + 1) as i8, y: 0 },
            )
            &&& s1.prng@ == lcg_step(g1)
        }
    }))
    &&& (s1.obstacles == s0.obstacles)
    &&& (s1.obstacle_count == s0.obstacle_count)
    &&& (s1.bullets == s0.bullets)
    &&& (s1.bullet_count == s0.bullet_count)
    &&& (s1.racing_cars == s0.racing_cars)
    &&& (s1.update_step == s0.update_step)
    &&& (s1.car_pos == s0.car_pos)
    &&& (s1.lives == s0.lives)
    &&& s1.racing_car_health == s0.racing_car_health
    &&& s1.cars_destroyed == s0.cars_destroyed
    &&& s1.invulnerable_time == s0.invulnerable_time
    &&& s1.max_bullets == s0.max_bullets
}

/// Collisions resolved, from `s0` to `s1` (see `check_collisions`).
pub open spec fn races_collided(s0: RacesGame, s1: RacesGame) -> bool {
    &&& (s1.car_pos == s0.car_pos)
    &&& (s0.invulnerable_time > 0 ==> s1.invulnerable_time == s0.invulnerable_time - 1 && s1.lives == s0.lives && s1.obstacles
        == s0.obstacles && s1.obstacle_count == s0.obstacle_count
        && s1.bullets == s0.bullets && s1.bullet_count == s0.bullet_count && s1.racing_car_health == s0.racing_car_health)
    &&& (s0.invulnerable_time == 0 && (exists|i: int|
        0 <= i < s0.obstacle_count && on_car(
            s0.car_pos,
            #[trigger] s0.obstacles@[i],
        )) ==> s1.lives == s0.lives - 1 && s1.invulnerable_time
        == INVULNERABLE_FRAMES && s1.obstacles == s0.obstacles && s1.obstacle_count == s0.obstacle_count && s1.bullets == s0.bullets && s1.bullet_count == s0.bullet_count && s1.racing_car_health == s0.racing_car_health)
    &&& (s0.invulnerable_time == 0 && !(exists|i: int|
        0 <= i < s0.obstacle_count && on_car(
            s0.car_pos,
            #[trigger] s0.obstacles@[i],
        )) ==> {
        &&& s1.lives == s0.lives
        &&& s1.invulnerable_time == 0
        &&& forall|k: int, o: int|
            0 <= k < s1.bullet_count && 0 <= o < s1.obstacle_count
                ==> !on_obstacle(
                #[trigger] s1.obstacles@[o],
                #[trigger] s1.bullets@[k],
            )
    })
    &&& (s1.obstacle_count <= s0.obstacle_count)
    &&& (s1.bullet_count <= s0.bullet_count)
    &&& (forall|k: int|
        0 <= k < s1.obstacle_count ==> dot_among(
            s0.obstacles@,
            0,
            s0.obstacle_count as int,
            #[trigger] s1.obstacles@[k],
        ))
    &&& (forall|k: int|
        0 <= k < s1.bullet_count ==> dot_among(
            s0.bullets@,
            0,
            s0.bullet_count as int,
            #[trigger] s1.bullets@[k],
        ))
}

/// One frame of play from `s0` to `fin`: the shot fired into `s1`, the
/// obstacle and power-up spawns (`s2`, `s3`), the road step with the falling
/// obstacles, the climbing bullets (`s4`), and the collisions (`s5`) (see
/// `RacesGame::tick`).
pub open spec fn race_tick(
    s0: RacesGame,
    s1: RacesGame,
    s2: RacesGame,
    s3: RacesGame,
    s4: RacesGame,
    s5: RacesGame,
    fin: RacesGame,
    pressed: bool,
) -> bool {
    let fire = pressed && s0.bullet_count < MAX_BULLETS && s0.max_bullets > 0;
    let road = (s3.update_step + 1) % 20 % 10 == 0;
    &&& if fire {
        &&& s1.bullets@ == s0.bullets@.update(
            s0.bullet_count as int,
            Dot { x: s0.car_pos.x, y: (s0.car_pos.y - 4) as i8 },
        )
        &&& s1.bullet_count == s0.bullet_count + 1
        &&& s1.max_bullets == s0.max_bullets - 1
    } else {
        &&& s1.bullets == s0.bullets
        &&& s1.bullet_count == s0.bullet_count
        &&& s1.max_bullets == s0.max_bullets
    }
    &&& s1.obstacles == s0.obstacles && s1.obstacle_count == s0.obstacle_count
    &&& s1.prng == s0.prng && s1.bullet_powerup == s0.bullet_powerup
    &&& s1.racing_cars == s0.racing_cars && s1.car_pos == s0.car_pos && s1.lives == s0.lives
    &&& s1.update_step == s0.update_step && s1.invulnerable_time == s0.invulnerable_time
    &&& s1.racing_car_health == s0.racing_car_health && s1.cars_destroyed == s0.cars_destroyed
    &&& obstacles_spawned(s1, s2)
    &&& powerup_spawned(s2, s3)
    &&& if road {
        s4.obstacles@.subrange(0, s4.obstacle_count as int) == fallen(
            s3.obstacles@,
            s3.obstacle_count as int,
            1,
        )
    } else {
        s4.obstacles == s3.obstacles && s4.obstacle_count == s3.obstacle_count
    }
    &&& advanced(s3.bullets@, s3.bullet_count as int, s4.bullets@, s4.bullet_count as int, -1)
    &&& s4.lives == s0.lives
    &&& s4.invulnerable_time == s0.invulnerable_time
    &&& races_collided(s4, s5)
    &&& fin.lives == s5.lives
    &&& fin.car_pos == s5.car_pos
}

/// `b` lies on none of the first `n` obstacles of `obs`.
pub open spec fn harmless(b: Dot, obs: Seq<Dot>, n: int) -> bool {
    forall|o: int| 0 <= o < n ==> !#[trigger] on_obstacle(obs[o], b)
}

/// None of the first `n` bullets of `bs` lies on the obstacle `o`.
pub open spec fn untouched(o: Dot, bs: Seq<Dot>, n: int) -> bool {
    forall|k: int| 0 <= k < n ==> !#[trigger] on_obstacle(o, bs[k])
}

/// None of the first `n` bullets of `bs` reaches the rival car at `car`
/// while it has health.
pub open spec fn car_clear(bs: Seq<Dot>, n: int, car: Dot, health: u8) -> bool {
    forall|k: int| 0 <= k < n ==> !(health > 0 && #[trigger] on_car(car, bs[k]))
}

/// The fields of play other than the counters, the generator, the rival
/// car and the power-up agree.
pub open spec fn same_play(a: RacesGame, b: RacesGame) -> bool {
    &&& a.obstacles == b.obstacles
    &&& a.obstacle_count == b.obstacle_count
    &&& a.bullets == b.bullets
    &&& a.bullet_count == b.bullet_count
    &&& a.racing_car_health == b.racing_car_health
    &&& a.cars_destroyed == b.cars_destroyed
    &&& a.invulnerable_time == b.invulnerable_time
    &&& a.lives == b.lives
    &&& a.car_pos == b.car_pos
}

/// The racing game: the player's car, falling obstacles, bullets, a rival
/// car to shoot, and a bullet power-up.
pub struct RacesGame {
    pub screen: FrameBuffer,
    pub update_step: u8,
    pub cars_destroyed: u8,
    pub car_pos: Dot,
    pub obstacles: [Dot; 2],
    pub obstacle_count: usize,
    pub bullets: [Dot; 4],
    pub bullet_count: usize,
    pub max_bullets: u8,
    pub lives: u8,
    pub invulnerable_time: u8,
    pub racing_cars: [Dot; 1],
    pub racing_speeds: [i8; 1],
    pub racing_car_health: u8,
    pub update_road: u8,
    pub road_animation: u8,
    pub bullet_powerup: Option<Dot>,
    pub prng: Prng,
}

/// Whether `obs` lies on a car shape based at `car`: the player's car or
/// the rival's.
fn hits_car(car: Dot, obs: &Dot) -> (r: bool)
    requires
        -100 <= car.x <= 100,
        -100 <= car.y <= 100,
    ensures
        r == on_car(car, *obs),
{
    if (obs.x == car.x - 1 || obs.x == car.x || obs.x == car.x + 1) && obs.y == car.y {
        return true;
    }
    if obs.x == car.x && (obs.y == car.y - 1 || obs.y == car.y - 2) {
        return true;
    }
    if (obs.x == car.x - 1 || obs.x == car.x + 1) && obs.y == car.y - 2 {
        return true;
    }
    if obs.x == car.x && obs.y == car.y - 3 {
        return true;
    }
    false
}

/// Whether `bullet` lies on the obstacle at `obs`.
fn hits_obstacle(bullet: &Dot, obs: &Dot) -> (r: bool)
    requires
        -100 <= obs.x <= 100,
        -100 <= obs.y <= 100,
    ensures
        r == on_obstacle(*obs, *bullet),
{
    (bullet.x == obs.x || bullet.x == obs.x + 1) && (bullet.y == obs.y || bullet.y == obs.y + 1)
}

impl RacesGame {
    pub open spec fn wf(&self) -> bool {
        &&& self.obstacle_count <= MAX_OBSTACLES
        &&& self.bullet_count <= MAX_BULLETS
        &&& self.lives <= 3
        &&& self.max_bullets <= 5
        &&& self.invulnerable_time <= INVULNERABLE_FRAMES
        &&& self.update_step < UPDATE_STEP_SIZE
        &&& self.update_road < 4
        &&& self.road_animation < SCREEN_HEIGHT
        &&& self.racing_car_health <= 3
        &&& 1 <= self.car_pos.x <= 6
        &&& 3 <= self.car_pos.y < SCREEN_HEIGHT
        &&& forall|i: int|
            0 <= i < MAX_OBSTACLES ==> 0 <= (#[trigger] self.obstacles@[i]).x <= 5 && 0
                <= self.obstacles@[i].y <= SCREEN_HEIGHT
        &&& forall|i: int|
            0 <= i < MAX_BULLETS ==> 1 <= (#[trigger] self.bullets@[i]).x <= 6 && -2
                <= self.bullets@[i].y < SCREEN_HEIGHT
        &&& forall|i: int|
            0 <= i < self.obstacle_count ==> (#[trigger] self.obstacles@[i]).y < SCREEN_HEIGHT
        &&& forall|i: int| 0 <= i < self.bullet_count ==> (#[trigger] self.bullets@[i]).y >= -1
        &&& 1 <= self.racing_cars@[0].x <= 5
        &&& 0 <= self.racing_cars@[0].y < SCREEN_HEIGHT
        &&& self.racing_speeds@[0] == 1
        &&& (self.bullet_powerup matches Some(p) ==> 1 <= p.x <= 5 && 0 <= p.y < SCREEN_HEIGHT)
    }

    /// The car at (3, 28) with three lives and five bullets, the rival car
    /// at (3, 10).
    pub fn new(prng: Prng) -> (g: RacesGame)
        ensures
            g.wf(),
            g.car_pos == (Dot { x: 3, y: 28 }),
            g.lives == 3,
            g.max_bullets == 5,
            g.obstacle_count == 0,
            g.bullet_count == 0,
            g.racing_cars@[0] == (Dot { x: 3, y: 10 }),
            g.racing_car_health == 3,
            g.cars_destroyed == 0,
            g.bullet_powerup is None,
    {
        let mut game = RacesGame {
            screen: FrameBuffer::new(),
            update_step: 0,
            cars_destroyed: 0,
            car_pos: Dot::new(3, 28),
            obstacles: [Dot::new(0, 0);2],
            obstacle_count: 0,
            bullets: [Dot::new(1, 0);4],
            bullet_count: 0,
            max_bullets: 5,
            lives: 3,
            invulnerable_time: 0,
            racing_cars: [Dot::new(3, 0);1],
            racing_speeds: [1i8;1],
            racing_car_health: 3,
            update_road: 0,
            road_animation: 0,
            bullet_powerup: None,
            prng,
        };
        game.racing_cars[0] = Dot::new(3, 10);
        game
    }

    /// With one chance in 30 (and a free slot), a new obstacle appears on
    /// row 0 at a random column in `[0, 6)`.
    pub fn spawn_obstacles(&mut self)
        requires
            old(self).wf(),
        ensures
            final(self).wf(),
            obstacles_spawned(*old(self), *final(self)),

    {
        if self.obstacle_count < MAX_OBSTACLES && self.prng.next_range(30) == 0 {
            let x = self.prng.next_range(6) as i8;
            self.obstacles[self.obstacle_count] = Dot::new(x, 0);
            self.obstacle_count = self.obstacle_count + 1;
        }
    }

    /// With one chance in 50, when none is out, a power-up appears on row 0
    /// at a random column in `[1, 6)`.
    pub fn spawn_bullet_powerup(&mut self)
        requires
            old(self).wf(),
        ensures
            final(self).wf(),
            powerup_spawned(*old(self), *final(self)),

    {
        if self.bullet_powerup.is_none() && self.prng.next_range(50) == 0 {
            let x = self.prng.next_range(5) as i8 + 1;
            self.bullet_powerup = Some(Dot::new(x, 0));
        }
    }

    /// The power-up falls a row; reaching the car (its column or a
    /// neighbour, up to three rows above its base) adds a bullet (up to
    /// five) and uses it up; past the bottom it is gone.
    pub fn update_bullet_powerup(&mut self)
        requires
            old(self).wf(),
        ensures
            final(self).wf(),
            final(self).car_pos == old(self).car_pos,
            same_play(*old(self), *final(self)),
            final(self).prng == old(self).prng,
            final(self).racing_cars == old(self).racing_cars,
            final(self).update_step == old(self).update_step,
            final(self).lives == old(self).lives,
            match old(self).bullet_powerup {
                None => final(self).bullet_powerup is None && final(self).max_bullets == old(self).max_bullets,
                Some(p) => {
                    let c = old(self).car_pos;
                    let q = Dot { x: p.x, y: (p.y + 1) as i8 };
                    if (q.x == c.x || q.x == c.x - 1 || q.x == c.x + 1) && c.y - 3 <= q.y <= c.y {
                        &&& final(self).bullet_powerup is None
                        &&& final(self).max_bullets == if old(self).max_bullets < 5 {
                            old(self).max_bullets + 1
                        } else {
                            5
                        }
                    } else {
                        &&& final(self).max_bullets == old(self).max_bullets
                        &&& final(self).bullet_powerup == if q.y < SCREEN_HEIGHT {
                            Some(q)
                        } else {
                            None
                        }
                    }
                },
            },
    {
        match self.bullet_powerup {
            None => {},
            Some(p) => {
                let powerup = Dot::new(p.x, p.y + 1);
                self.bullet_powerup = None;
                if (powerup.x == self.car_pos.x || powerup.x == self.car_pos.x - 1 || powerup.x
                    == self.car_pos.x + 1) && (powerup.y >= self.car_pos.y - 3 && powerup.y
                    <= self.car_pos.y) {
                    if self.max_bullets < 5 {
                        self.max_bullets = self.max_bullets + 1;
                    }
                } else if powerup.y < SCREEN_HEIGHT as i8 {
                    self.bullet_powerup = Some(powerup);
                }
            },
        }
    }

    fn obstacle_in_way(&self, car: Dot, new_y: i8) -> (r: bool)
        requires
            self.wf(),
            -100 <= car.x <= 100,
            -100 <= new_y <= 100,
        ensures
            r == exists|j: int|
                0 <= j < self.obstacle_count && (self.obstacles@[j].x == car.x
                    || self.obstacles@[j].x == car.x + 1) && (self.obstacles@[j].y == new_y
                    || self.obstacles@[j].y == new_y + 1),
    {
        let mut j: usize = 0;
        while j < self.obstacle_count
            invariant
                j <= self.obstacle_count <= MAX_OBSTACLES,
                -100 <= car.x <= 100,
                -100 <= new_y <= 100,
                forall|k: int|
                    0 <= k < j ==> !((self.obstacles@[k].x == car.x || self.obstacles@[k].x
                        == car.x + 1) && (self.obstacles@[k].y == new_y || self.obstacles@[k].y
                        == new_y + 1)),
            decreases self.obstacle_count - j,
        {
            let obs = self.obstacles[j];
            if (obs.x == car.x || obs.x == car.x + 1) && (obs.y == new_y || obs.y == new_y + 1) {
                return true;
            }
            j = j + 1;
        }
        false
    }

    /// A column in `[1, 6)` for the rival car to re-enter at the top:
    /// random draws first, then the columns in order; one clear of the
    /// obstacles on rows 0 and 1 unless every one is blocked.
    fn respawn_column(&mut self) -> (x: i8)
        requires
            old(self).wf(),
        ensures
            final(self).wf(),
            1 <= x <= 5,
            !top_blocked(final(self).obstacles@, final(self).obstacle_count as int, x as int)
                || forall|c: int|
                1 <= c <= 5 ==> #[trigger] top_blocked(
                    final(self).obstacles@,
                    final(self).obstacle_count as int,
                    c,
                ),
            final(self).obstacles == old(self).obstacles,
            final(self).obstacle_count == old(self).obstacle_count,
            final(self).racing_cars == old(self).racing_cars,
            final(self).car_pos == old(self).car_pos,
            final(self).lives == old(self).lives,
            final(self).bullets == old(self).bullets,
            final(self).bullet_count == old(self).bullet_count,
            final(self).racing_car_health == old(self).racing_car_health,
            final(self).cars_destroyed == old(self).cars_destroyed,
            final(self).invulnerable_time == old(self).invulnerable_time,
            final(self).max_bullets == old(self).max_bullets,
            final(self).bullet_powerup == old(self).bullet_powerup,
    {
        let mut tries: u32 = 0;
        while tries < RESPAWN_TRIES
            invariant
                self.wf(),
                self.obstacles == old(self).obstacles,
                self.obstacle_count == old(self).obstacle_count,
                self.racing_cars == old(self).racing_cars,
                self.car_pos == old(self).car_pos,
                self.lives == old(self).lives,
                self.bullets == old(self).bullets,
                self.bullet_count == old(self).bullet_count,
                self.racing_car_health == old(self).racing_car_health,
                self.cars_destroyed == old(self).cars_destroyed,
                self.invulnerable_time == old(self).invulnerable_time,
                self.max_bullets == old(self).max_bullets,
                self.bullet_powerup == old(self).bullet_powerup,
            decreases RESPAWN_TRIES - tries,
        {
            let new_x = self.prng.next_range(5) as i8 + 1;
            if !self.obstacle_in_way(Dot::new(new_x, 0), 0) {
                return new_x;
            }
            tries = tries + 1;
        }
        let mut x: i8 = 1;
        while x <= 5
            invariant
                1 <= x <= 6,
                self.wf(),
                self.obstacles == old(self).obstacles,
                self.obstacle_count == old(self).obstacle_count,
                self.racing_cars == old(self).racing_cars,
                self.car_pos == old(self).car_pos,
                self.lives == old(self).lives,
                self.bullets == old(self).bullets,
                self.bullet_count == old(self).bullet_count,
                self.racing_car_health == old(self).racing_car_health,
                self.cars_destroyed == old(self).cars_destroyed,
                self.invulnerable_time == old(self).invulnerable_time,
                self.max_bullets == old(self).max_bullets,
                self.bullet_powerup == old(self).bullet_powerup,
                forall|c: int|
                    1 <= c < x ==> #[trigger] top_blocked(
                        self.obstacles@,
                        self.obstacle_count as int,
                        c,
                    ),
            decreases 6 - x,
        {
            if !self.obstacle_in_way(Dot::new(x, 0), 0) {
                return x;
            }
            x = x + 1;
        }
        1
    }

    /// The rival car moves down a row with one chance in four, unless an
    /// obstacle is in its way; past the bottom it re-enters at the top.
    pub fn update_racing_cars(&mut self)
        requires
            old(self).wf(),
        ensures
            final(self).wf(),
            final(self).car_pos == old(self).car_pos,
            final(self).lives == old(self).lives,
            final(self).obstacles == old(self).obstacles,
            final(self).obstacle_count == old(self).obstacle_count,
            final(self).bullets == old(self).bullets,
            final(self).bullet_count == old(self).bullet_count,
            final(self).racing_car_health == old(self).racing_car_health,
            final(self).cars_destroyed == old(self).cars_destroyed,
            final(self).invulnerable_time == old(self).invulnerable_time,
            final(self).max_bullets == old(self).max_bullets,
            ({
                let s1 = lcg_step(old(self).prng@);
                let car = old(self).racing_cars@[0];
                let blocked = exists|j: int|
                    0 <= j < old(self).obstacle_count && (old(self).obstacles@[j].x == car.x
                        || old(self).obstacles@[j].x == car.x + 1) && (old(self).obstacles@[j].y
                        == car.y + 1 || old(self).obstacles@[j].y == car.y + 2);
                let y1 = if lcg_output(s1) % 4 == 0 && !blocked {
                    car.y + 1
                } else {
                    car.y as int
                };
                if y1 < SCREEN_HEIGHT {
                    &&& final(self).racing_cars@[0] == (Dot { x: car.x, y: y1 as i8 })
                    &&& final(self).prng@ == s1
                } else {
                    let x = final(self).racing_cars@[0].x as int;
                    &&& final(self).racing_cars@[0].y == 0
                    &&& 1 <= x <= 5
                    &&& !top_blocked(old(self).obstacles@, old(self).obstacle_count as int, x)
                        || forall|c: int|
                        1 <= c <= 5 ==> #[trigger] top_blocked(
                            old(self).obstacles@,
                            old(self).obstacle_count as int,
                            c,
                        )
                }
            }),
    {
        if self.prng.next_range(4) == 0 {
            let car = self.racing_cars[0];
            let new_y = car.y + self.racing_speeds[0];
            if !self.obstacle_in_way(car, new_y) {
                self.racing_cars[0] = Dot::new(car.x, new_y);
            }
        }
        if self.racing_cars[0].y >= SCREEN_HEIGHT as i8 {
            self.racing_cars[0] = Dot::new(self.racing_cars[0].x, 0);
            let x = self.respawn_column();
            self.racing_cars[0] = Dot::new(x, 0);
        }
    }

    pub fn update_road(&mut self)
        requires
            old(self).wf(),
        ensures
            final(self).wf(),
            final(self).update_road == (old(self).update_road + 1) % 4,
            final(self).road_animation == (old(self).road_animation + 1) % 32,
            final(self).car_pos == old(self).car_pos,
            same_play(*old(self), *final(self)),
            final(self).prng == old(self).prng,
            final(self).racing_cars == old(self).racing_cars,
            final(self).bullet_powerup == old(self).bullet_powerup,
            final(self).max_bullets == old(self).max_bullets,
            final(self).update_step == old(self).update_step,
            final(self).lives == old(self).lives,
    {
        self.update_road = (self.update_road + 1) % 4;
        self.road_animation = (self.road_animation + 1) % SCREEN_HEIGHT as u8;
    }

    /// Obstacles fall a row; those past the bottom are removed (each
    /// replaced by the last, which with two slots keeps their order).
    pub fn update_obstacles(&mut self)
        requires
            old(self).wf(),
        ensures
            final(self).wf(),
            final(self).obstacles@.subrange(0, final(self).obstacle_count as int) == fallen(
                old(self).obstacles@,
                old(self).obstacle_count as int,
                1,
            ),
            advanced(
                old(self).obstacles@,
                old(self).obstacle_count as int,
                final(self).obstacles@,
                final(self).obstacle_count as int,
                1,
            ),
            final(self).car_pos == old(self).car_pos,
            final(self).lives == old(self).lives,
            final(self).bullets == old(self).bullets,
            final(self).bullet_count == old(self).bullet_count,
            final(self).racing_cars == old(self).racing_cars,
            final(self).prng == old(self).prng,
            final(self).racing_car_health == old(self).racing_car_health,
            final(self).cars_destroyed == old(self).cars_destroyed,
            final(self).invulnerable_time == old(self).invulnerable_time,
            final(self).max_bullets == old(self).max_bullets,
            final(self).update_step == old(self).update_step,
    {
        let n0 = self.obstacle_count;
        let ghost s0 = self.obstacles@;
        if n0 >= 1 {
            let o = self.obstacles[0];
            self.obstacles[0] = Dot::new(o.x, o.y + 1);
        }
        if n0 == 2 {
            let o = self.obstacles[1];
            self.obstacles[1] = Dot::new(o.x, o.y + 1);
        }
        let h = SCREEN_HEIGHT as i8;
        if n0 == 2 {
            if self.obstacles[0].y >= h {
                if self.obstacles[1].y >= h {
                    self.obstacle_count = 0;
                } else {
                    self.obstacles[0] = self.obstacles[1];
                    self.obstacle_count = 1;
                }
            } else if self.obstacles[1].y >= h {
                self.obstacle_count = 1;
            }
        } else if n0 == 1 {
            if self.obstacles[0].y >= h {
                self.obstacle_count = 0;
            }
        }
        proof {
            let f = fallen(s0, n0 as int, 1);
            let f0 = fallen(s0, 0, 1);
            assert(f0 =~= Seq::<Dot>::empty());
            let f1 = fallen(s0, 1, 1);
            assert(f1 == if stays(s0[0], 1) { f0.push(fell(s0[0], 1)) } else { f0 });
            let f2 = fallen(s0, 2, 1);
            assert(f2 == if stays(s0[1], 1) { f1.push(fell(s0[1], 1)) } else { f1 });
            if n0 == 0 {
                assert(self.obstacles@.subrange(0, self.obstacle_count as int) =~= f);
            } else if n0 == 1 {
                assert(self.obstacles@.subrange(0, self.obstacle_count as int) =~= f);
            } else {
                assert(self.obstacles@.subrange(0, self.obstacle_count as int) =~= f);
            }
            assert forall|j: int|
                0 <= j < n0 && stays(s0[j], 1) implies #[trigger] dot_among(
                self.obstacles@,
                0,
                self.obstacle_count as int,
                fell(s0[j], 1),
            ) by {
                if j == 0 && n0 == 2 && !stays(s0[1], 1) {
                    assert(self.obstacles@[0] == fell(s0[0], 1));
                } else if j == 0 {
                    assert(self.obstacles@[0] == fell(s0[0], 1));
                } else if stays(s0[0], 1) {
                    assert(self.obstacles@[1] == fell(s0[1], 1));
                } else {
                    assert(self.obstacles@[0] == fell(s0[1], 1));
                }
            }
            assert forall|k: int| 0 <= k < self.obstacle_count implies #[trigger] fall_of(
                s0,
                n0 as int,
                self.obstacles@[k],
                1,
            ) by {
                if k == 0 && stays(s0[0], 1) {
                    assert(self.obstacles@[0] == fell(s0[0], 1));
                } else if k == 0 {
                    assert(self.obstacles@[0] == fell(s0[1], 1));
                } else {
                    assert(self.obstacles@[1] == fell(s0[1], 1));
                }
            }
        }
    }

    /// Bullets climb a row; those past the top are removed (each replaced
    /// by the last).
    pub fn update_bullets(&mut self)
        requires
            old(self).wf(),
        ensures
            final(self).wf(),
            advanced(
                old(self).bullets@,
                old(self).bullet_count as int,
                final(self).bullets@,
                final(self).bullet_count as int,
                -1,
            ),
            final(self).car_pos == old(self).car_pos,
            final(self).lives == old(self).lives,
            final(self).obstacles == old(self).obstacles,
            final(self).obstacle_count == old(self).obstacle_count,
            final(self).racing_cars == old(self).racing_cars,
            final(self).prng == old(self).prng,
            final(self).racing_car_health == old(self).racing_car_health,
            final(self).cars_destroyed == old(self).cars_destroyed,
            final(self).invulnerable_time == old(self).invulnerable_time,
            final(self).max_bullets == old(self).max_bullets,
            final(self).update_step == old(self).update_step,
    {
        let n = advance_dots(&mut self.bullets, self.bullet_count, -1);
        self.bullet_count = n;
        proof {
            assert forall|k: int| 0 <= k < MAX_BULLETS implies 1 <= (
            #[trigger] self.bullets@[k]).x <= 6 && -2 <= self.bullets@[k].y < SCREEN_HEIGHT by {
                if !dot_among(old(self).bullets@, 0, MAX_BULLETS as int, self.bullets@[k]) {
                    let j = choose|j: int|
                        0 <= j < old(self).bullet_count && self.bullets@[k] == fell(
                            old(self).bullets@[j],
                            -1,
                        );
                    assert(old(self).bullets@[j].y >= -1);
                }
            }
            assert forall|k: int| 0 <= k < self.bullet_count implies (
            #[trigger] self.bullets@[k]).y >= -1 by {
                assert(fall_of(old(self).bullets@, old(self).bullet_count as int, self.bullets@[k], -1));
                let j = choose|j: int|
                    0 <= j < old(self).bullet_count && stays(old(self).bullets@[j], -1)
                        && self.bullets@[k] == fell(old(self).bullets@[j], -1);
            }
        }
    }

    /// While invulnerable, only counts down. Otherwise a crash into an
    /// obstacle takes a life and starts the invulnerability; else each
    /// bullet removes the first obstacle it hits, or else damages the rival
    /// car, whose third hit scores and sends it back to the top with full
    /// health. Bullets that hit are removed.
    pub fn check_collisions(&mut self)
        requires
            old(self).wf(),
            old(self).lives > 0,
        ensures
            final(self).wf(),
            races_collided(*old(self), *final(self)),

    {
        if self.invulnerable_time > 0 {
            self.invulnerable_time = self.invulnerable_time - 1;
            return;
        }
        let mut i: usize = 0;
        while i < self.obstacle_count
            invariant
                i <= self.obstacle_count,
                *self == *old(self),
                old(self).wf(),
                old(self).invulnerable_time == 0,
                old(self).lives > 0,
                forall|k: int| 0 <= k < i ==> !on_car(self.car_pos, #[trigger] self.obstacles@[k]),
            decreases self.obstacle_count - i,
        {
            let obs = self.obstacles[i];
            if hits_car(self.car_pos, &obs) {
                self.lives = self.lives - 1;
                self.invulnerable_time = INVULNERABLE_FRAMES;
                return;
            }
            i = i + 1;
        }
        let mut i: usize = 0;
        while i < self.bullet_count
            invariant
                i <= self.bullet_count <= old(self).bullet_count,
                self.obstacle_count <= old(self).obstacle_count,
                self.wf(),
                self.lives == old(self).lives,
                self.car_pos == old(self).car_pos,
                self.invulnerable_time == old(self).invulnerable_time,
                forall|k: int|
                    0 <= k < self.obstacle_count ==> dot_among(
                        old(self).obstacles@,
                        0,
                        old(self).obstacle_count as int,
                        #[trigger] self.obstacles@[k],
                    ),
                forall|k: int|
                    0 <= k < self.bullet_count ==> dot_among(
                        old(self).bullets@,
                        0,
                        old(self).bullet_count as int,
                        #[trigger] self.bullets@[k],
                    ),
                forall|k: int, o: int|
                    0 <= k < i && 0 <= o < self.obstacle_count ==> !on_obstacle(
                        #[trigger] self.obstacles@[o],
                        #[trigger] self.bullets@[k],
                    ),
                forall|o: int|
                    0 <= o < old(self).obstacle_count && untouched(
                        old(self).obstacles@[o],
                        old(self).bullets@,
                        old(self).bullet_count as int,
                    ) ==> #[trigger] dot_among(
                        self.obstacles@,
                        0,
                        self.obstacle_count as int,
                        old(self).obstacles@[o],
                    ),
                car_clear(
                    old(self).bullets@,
                    old(self).bullet_count as int,
                    old(self).racing_cars@[0],
                    old(self).racing_car_health,
                ) ==> {
                    &&& self.racing_car_health == old(self).racing_car_health
                    &&& self.racing_cars == old(self).racing_cars
                    &&& self.cars_destroyed == old(self).cars_destroyed
                    &&& forall|k: int|
                        0 <= k < old(self).bullet_count && harmless(
                            old(self).bullets@[k],
                            old(self).obstacles@,
                            old(self).obstacle_count as int,
                        ) ==> #[trigger] dot_among(
                            self.bullets@,
                            0,
                            self.bullet_count as int,
                            old(self).bullets@[k],
                        )
                },
            decreases self.bullet_count + self.bullet_count - i,
        {
            let bullet = self.bullets[i];
            let mut hit = false;
            let bc = self.bullet_count;
            let ghost bullets0 = self.bullets;
            let ghost obs0 = self.obstacles@;
            let ghost n0 = self.obstacle_count as int;
            let ghost rch0 = self.racing_car_health;
            let ghost rc0 = self.racing_cars;
            let ghost cd0 = self.cars_destroyed;
            let mut j: usize = 0;
            while j < self.obstacle_count
                invariant_except_break
                    !hit,
                invariant
                    j <= self.obstacle_count <= n0,
                    n0 <= old(self).obstacle_count,
                    i < self.bullet_count,
                    self.wf(),
                    self.car_pos == old(self).car_pos,
                    self.lives == old(self).lives,
                    self.invulnerable_time == old(self).invulnerable_time,
                    self.bullet_count == bc,
                    bc <= old(self).bullet_count,
                    self.bullets == bullets0,
                    bullet == self.bullets@[i as int],
                    self.racing_car_health == rch0,
                    self.racing_cars == rc0,
                    self.cars_destroyed == cd0,
                    forall|o: int|
                        0 <= o < old(self).obstacle_count && untouched(
                            old(self).obstacles@[o],
                            old(self).bullets@,
                            old(self).bullet_count as int,
                        ) ==> #[trigger] dot_among(
                            self.obstacles@,
                            0,
                            self.obstacle_count as int,
                            old(self).obstacles@[o],
                        ),
                    dot_among(old(self).bullets@, 0, old(self).bullet_count as int, bullet),
                    forall|jj: int| 0 <= jj < j ==> !on_obstacle(#[trigger] self.obstacles@[jj], bullet),
                    forall|k: int|
                        0 <= k < self.obstacle_count ==> dot_among(obs0, 0, n0, #[trigger] self.obstacles@[k]),
                    n0 <= obs0.len(),
                    obs0.len() == MAX_OBSTACLES,
                    forall|k: int|
                        0 <= k < n0 ==> dot_among(
                            old(self).obstacles@,
                            0,
                            old(self).obstacle_count as int,
                            #[trigger] obs0[k],
                        ),
                ensures
                    !hit ==> j == self.obstacle_count,
                    hit ==> !harmless(bullet, old(self).obstacles@, old(self).obstacle_count as int),
                decreases self.obstacle_count - j,
            {
                let obs = self.obstacles[j];
                if hits_obstacle(&bullet, &obs) {
                    let ghost before = self.obstacles@;
                    proof {
                        assert(dot_among(obs0, 0, n0, obs));
                        let kk = choose|kk: int| 0 <= kk < n0 && obs0[kk] == obs;
                        assert(dot_among(old(self).obstacles@, 0, old(self).obstacle_count as int, obs0[kk]));
                        let oo = choose|oo: int|
                            0 <= oo < old(self).obstacle_count && old(self).obstacles@[oo] == obs;
                        assert(on_obstacle(old(self).obstacles@[oo], bullet));
                        let kb = choose|kb: int|
                            0 <= kb < old(self).bullet_count && old(self).bullets@[kb] == bullet;
                        assert(!untouched(obs, old(self).bullets@, old(self).bullet_count as int)) by {
                            assert(on_obstacle(obs, old(self).bullets@[kb]));
                        }
                    }
                    self.obstacle_count = self.obstacle_count - 1;
                    if j < self.obstacle_count {
                        self.obstacles[j] = self.obstacles[self.obstacle_count];
                    }
                    proof {
                        assert forall|o: int|
                            0 <= o < old(self).obstacle_count && untouched(
                                old(self).obstacles@[o],
                                old(self).bullets@,
                                old(self).bullet_count as int,
                            ) implies #[trigger] dot_among(
                            self.obstacles@,
                            0,
                            self.obstacle_count as int,
                            old(self).obstacles@[o],
                        ) by {
                            let t = old(self).obstacles@[o];
                            assert(dot_among(before, 0, self.obstacle_count + 1, t));
                            let q = choose|q: int| 0 <= q < self.obstacle_count + 1 && before[q] == t;
                            if q == j {
                                assert(t == obs);
                                assert(false);
                            } else if q == self.obstacle_count {
                                assert(j < self.obstacle_count);
                                assert(self.obstacles@[j as int] == t);
                            } else {
                                assert(self.obstacles@[q] == t);
                            }
                        }
                        assert forall|k: int| 0 <= k < self.obstacle_count implies dot_among(
                            obs0,
                            0,
                            n0,
                            #[trigger] self.obstacles@[k],
                        ) by {
                            if k == j {
                                assert(self.obstacles@[k] == before[self.obstacle_count as int]);
                            } else {
                                assert(self.obstacles@[k] == before[k]);
                            }
                        }
                    }
                    hit = true;
                    break;
                }
                j = j + 1;
            }
            proof {
                assert forall|k: int| 0 <= k < self.obstacle_count implies dot_among(
                    old(self).obstacles@,
                    0,
                    old(self).obstacle_count as int,
                    #[trigger] self.obstacles@[k],
                ) by {
                    let kk = choose|kk: int| 0 <= kk < n0 && obs0[kk] == self.obstacles@[k];
                    assert(dot_among(old(self).obstacles@, 0, old(self).obstacle_count as int, obs0[kk]));
                }
            }
            if !hit && self.racing_car_health > 0 {
                let racing_car = self.racing_cars[0];
                if hits_car(racing_car, &bullet) {
                    proof {
                        if car_clear(
                            old(self).bullets@,
                            old(self).bullet_count as int,
                            old(self).racing_cars@[0],
                            old(self).racing_car_health,
                        ) {
                            let kb = choose|kb: int|
                                0 <= kb < old(self).bullet_count && old(self).bullets@[kb] == bullet;
                            assert(on_car(old(self).racing_cars@[0], old(self).bullets@[kb]));
                            assert(false);
                        }
                    }
                    self.racing_car_health = self.racing_car_health - 1;
                    hit = true;
                    if self.racing_car_health == 0 {
                        self.cars_destroyed = self.cars_destroyed.wrapping_add(1);
                        let x = self.prng.next_range(5) as i8 + 1;
                        self.racing_cars[0] = Dot::new(x, 0);
                        self.racing_car_health = 3;
                    }
                }
            }
            let ghost bl = self.bullets@;
            if hit {
                self.bullet_count = self.bullet_count - 1;
                if i < self.bullet_count {
                    self.bullets[i] = self.bullets[self.bullet_count];
                }
                proof {
                    if car_clear(
                        old(self).bullets@,
                        old(self).bullet_count as int,
                        old(self).racing_cars@[0],
                        old(self).racing_car_health,
                    ) {
                        assert(!harmless(bullet, old(self).obstacles@, old(self).obstacle_count as int));
                        assert forall|k: int|
                            0 <= k < old(self).bullet_count && harmless(
                                old(self).bullets@[k],
                                old(self).obstacles@,
                                old(self).obstacle_count as int,
                            ) implies #[trigger] dot_among(
                            self.bullets@,
                            0,
                            self.bullet_count as int,
                            old(self).bullets@[k],
                        ) by {
                            let t = old(self).bullets@[k];
                            assert(dot_among(bl, 0, self.bullet_count + 1, t));
                            let q = choose|q: int| 0 <= q < self.bullet_count + 1 && bl[q] == t;
                            if q == i {
                                assert(t == bullet);
                                assert(false);
                            } else if q == self.bullet_count {
                                assert(i < self.bullet_count);
                                assert(self.bullets@[i as int] == t);
                            } else {
                                assert(self.bullets@[q] == t);
                            }
                        }
                    }
                    assert forall|k: int| 0 <= k < self.bullet_count implies dot_among(
                        old(self).bullets@,
                        0,
                        old(self).bullet_count as int,
                        #[trigger] self.bullets@[k],
                    ) by {
                        if k == i {
                            assert(self.bullets@[k] == bl[self.bullet_count as int]);
                        } else {
                            assert(self.bullets@[k] == bl[k]);
                        }
                    }
                    assert forall|k: int, o: int|
                        0 <= k < i && 0 <= o < self.obstacle_count implies !on_obstacle(
                        #[trigger] self.obstacles@[o],
                        #[trigger] self.bullets@[k],
                    ) by {
                        assert(self.bullets@[k] == bl[k]);
                        let oo = choose|oo: int| 0 <= oo < n0 && obs0[oo] == self.obstacles@[o];
                        assert(bullets0@[k] == bl[k]);
                    }
                }
            } else {
                proof {
                    assert forall|k: int, o: int|
                        0 <= k < i + 1 && 0 <= o < self.obstacle_count implies !on_obstacle(
                        #[trigger] self.obstacles@[o],
                        #[trigger] self.bullets@[k],
                    ) by {
                        if k < i {
                            let oo = choose|oo: int| 0 <= oo < n0 && obs0[oo] == self.obstacles@[o];
                        } else {
                            assert(self.bullets@[k] == bullet);
                            assert(!on_obstacle(self.obstacles@[o], bullet));
                        }
                    }
                }
                i = i + 1;
            }
        }
    }

    /// Draws the power-up as two pink cells, one above the other.
    pub fn draw_bullet_powerup(&mut self)
        requires
            old(self).wf(),
        ensures
            final(self).wf(),
            final(self).lives == old(self).lives,
            final(self).car_pos == old(self).car_pos,
            final(self).screen@.len() == SCREEN_SIZE,
            forall|c: int|
                0 <= c < SCREEN_SIZE ==> #[trigger] final(self).screen@[c] == if old(self).bullet_powerup matches Some(p) && (c == cell_index(p.x as int, p.y as int) || c
                    == cell_index(p.x as int, p.y + 1)) {
                    PINK_IDX
                } else {
                    old(self).screen@[c]
                },
    {
        proof {
            self.screen.lemma_len();
        }
        match self.bullet_powerup {
            Some(p) => {
                if p.y >= 0 && p.y < SCREEN_HEIGHT as i8 {
                    self.screen.set(p.x as usize, p.y as usize, PINK_IDX);
                    self.screen.set(p.x as usize, (p.y + 1) as usize, PINK_IDX);
                }
            },
            None => {},
        }
    }

    /// Draws the rival car in blue while it has health.
    pub fn draw_racing_cars(&mut self)
        requires
            old(self).wf(),
        ensures
            final(self).wf(),
            final(self).lives == old(self).lives,
            final(self).car_pos == old(self).car_pos,
            forall|i: int|
                0 <= i < SCREEN_SIZE ==> #[trigger] final(self).screen@[i] == if old(self).racing_car_health > 0 && car_cell(
                    old(self).racing_cars@[0].x as int,
                    old(self).racing_cars@[0].y as int,
                    i % 8,
                    i / 8,
                ) {
                    BLUE_IDX
                } else {
                    old(self).screen@[i]
                },
    {
        let car = self.racing_cars[0];
        if car.y >= 0 && car.y < SCREEN_HEIGHT as i8 && self.racing_car_health > 0 {
            paint_car(&mut self.screen, car.x as usize, car.y as usize, BLUE_IDX);
        }
    }

    /// Draws the road's edges: bricks in runs of four, alternating with
    /// gaps, scrolled down by the road animation.
    pub fn draw_road(&mut self)
        requires
            old(self).wf(),
        ensures
            final(self).wf(),
            final(self).lives == old(self).lives,
            final(self).car_pos == old(self).car_pos,
            road_painted(old(self).screen@, final(self).screen@, old(self).road_animation as int),
    {
        paint_road(&mut self.screen, self.road_animation);
    }

    /// Draws the player's car in green; while invulnerable it blinks (hidden
    /// in the frames where `invulnerable_time / 4` is even).
    pub fn draw_car(&mut self)
        requires
            old(self).wf(),
        ensures
            final(self).wf(),
            final(self).lives == old(self).lives,
            final(self).car_pos == old(self).car_pos,
            forall|i: int|
                0 <= i < SCREEN_SIZE ==> #[trigger] final(self).screen@[i] == if !(old(self).invulnerable_time > 0 && (old(self).invulnerable_time / 4) % 2 == 0) && car_cell(
                    old(self).car_pos.x as int,
                    old(self).car_pos.y as int,
                    i % 8,
                    i / 8,
                ) {
                    GREEN_IDX
                } else {
                    old(self).screen@[i]
                },
    {
        if self.invulnerable_time > 0 && (self.invulnerable_time / 4) % 2 == 0 {
            return;
        }
        paint_car(&mut self.screen, self.car_pos.x as usize, self.car_pos.y as usize, GREEN_IDX);
    }

    /// Draws each obstacle as a dark green two-by-two block.
    pub fn draw_obstacles(&mut self)
        requires
            old(self).wf(),
        ensures
            final(self).wf(),
            final(self).lives == old(self).lives,
            final(self).car_pos == old(self).car_pos,
            forall|c: int|
                0 <= c < SCREEN_SIZE ==> #[trigger] final(self).screen@[c] == if exists|k: int|
                    0 <= k < old(self).obstacle_count && on_obstacle(
                        old(self).obstacles@[k],
                        Dot { x: (c % 8) as i8, y: (c / 8) as i8 },
                    ) {
                    DARK_GREEN_IDX
                } else {
                    old(self).screen@[c]
                },
    {
        paint_blocks(&mut self.screen, &self.obstacles, self.obstacle_count);
    }

    /// Draws each bullet on the screen in red.
    pub fn draw_bullets(&mut self)
        requires
            old(self).wf(),
        ensures
            final(self).wf(),
            final(self).lives == old(self).lives,
            final(self).car_pos == old(self).car_pos,
            forall|c: int|
                0 <= c < SCREEN_SIZE ==> #[trigger] final(self).screen@[c] == if exists|k: int|
                    0 <= k < old(self).bullet_count && dot_on_grid_at(old(self).bullets@[k], c) {
                    RED_IDX
                } else {
                    old(self).screen@[c]
                },
    {
        paint_dots(&mut self.screen, &self.bullets, self.bullet_count, RED_IDX);
    }

    /// Draws the destroyed-car count in yellow (a `1` moved one column in),
    /// a green column of lives and a pink column of bullets between them.
    pub fn draw_score(&mut self)
        requires
            old(self).wf(),
        ensures
            final(self).wf(),
            final(self).lives == old(self).lives,
            final(self).car_pos == old(self).car_pos,
            ({
                let score = old(self).cars_destroyed as int;
                let tens = score / 10;
                let ones = score % 10;
                let base = drawn(
                    drawn(
                        old(self).screen@,
                        if tens == 1 {
                            1
                        } else {
                            0
                        },
                        0,
                        digit_figure(tens % 10),
                        YELLOW_IDX,
                    ),
                    if ones == 1 {
                        6
                    } else {
                        5
                    },
                    0,
                    digit_figure(ones),
                    YELLOW_IDX,
                );
                column_painted(
                    column_painted(base, 3, old(self).lives as int, GREEN_IDX),
                    4,
                    old(self).max_bullets as int,
                    PINK_IDX,
                ) == final(self).screen@
            }),
    {
        let score = self.cars_destroyed;
        let digits = Digits::standard();
        let tens = score / 10;
        let tens_x: i8 = if tens == 1 {
            1
        } else {
            0
        };
        self.screen.draw_figure(tens_x, 0, &digits.wrapping_at(tens), YELLOW_IDX);
        let ones = score % 10;
        let ones_x: i8 = if ones == 1 {
            6
        } else {
            5
        };
        self.screen.draw_figure(ones_x, 0, &digits.wrapping_at(ones), YELLOW_IDX);
        paint_column(&mut self.screen, 3, self.lives, GREEN_IDX);
        paint_column(&mut self.screen, 4, self.max_bullets, PINK_IDX);
    }

    /// Advances the frame counter; the road steps every tenth frame.
    pub fn road_should_update(&mut self) -> (r: bool)
        requires
            old(self).wf(),
        ensures
            final(self).wf(),
            final(self).update_step == (old(self).update_step + 1) % 20,
            r == (final(self).update_step % 10 == 0),
            final(self).car_pos == old(self).car_pos,
            same_play(*old(self), *final(self)),
            final(self).prng == old(self).prng,
            final(self).racing_cars == old(self).racing_cars,
            final(self).bullet_powerup == old(self).bullet_powerup,
            final(self).max_bullets == old(self).max_bullets,
            final(self).lives == old(self).lives,
    {
        self.update_step = (self.update_step + 1) % UPDATE_STEP_SIZE;
        self.update_step % ROAD_UPDATE_STEP_SIZE == 0
    }

    /// The car may move sideways on even frames.
    pub fn can_move_car_horizontally(&self) -> (r: bool)
        ensures
            r == (self.update_step % 2 == 0),
    {
        self.update_step % (ROAD_UPDATE_STEP_SIZE / 4) == 0
    }

    /// The rival car and the power-up move on the first frame of a cycle.
    pub fn should_update(&self) -> (r: bool)
        ensures
            r == (self.update_step == 0),
    {
        self.update_step == 0
    }

    /// One frame: firing (one bullet spent, four in flight at most),
    /// spawns, steering (sideways on even frames, up and down with the
    /// road), the road, obstacles, rival and power-up, bullets and
    /// collisions, then the picture. Returns `false` when no life is left.
    pub fn tick(&mut self, pressed: bool, x_input: i8, y_input: i8) -> (alive: bool)
        requires
            old(self).wf(),
            old(self).lives > 0,
        ensures
            final(self).wf(),
            alive == (final(self).lives > 0),
            final(self).lives <= old(self).lives,
            final(self).car_pos.x == if old(self).update_step % 2 == 0 && x_input != 0 && 1
                <= old(self).car_pos.x + x_input <= 6 {
                old(self).car_pos.x + x_input
            } else {
                old(self).car_pos.x as int
            },
            final(self).car_pos.y == if (old(self).update_step + 1) % 20 % 10 == 0 && y_input
                != 0 && 3 <= old(self).car_pos.y + y_input < SCREEN_HEIGHT {
                old(self).car_pos.y + y_input
            } else {
                old(self).car_pos.y as int
            },
            exists|s1: RacesGame, s2: RacesGame, s3: RacesGame, s4: RacesGame, s5: RacesGame|
                #[trigger] race_tick(*old(self), s1, s2, s3, s4, s5, *final(self), pressed),
    {
        if pressed && self.bullet_count < MAX_BULLETS && self.max_bullets > 0 {
            self.bullets[self.bullet_count] = Dot::new(self.car_pos.x, self.car_pos.y - 4);
            self.bullet_count = self.bullet_count + 1;
            self.max_bullets = self.max_bullets - 1;
        }
        let ghost s1 = *self;
        self.spawn_obstacles();
        let ghost s2 = *self;
        self.spawn_bullet_powerup();
        let ghost s3 = *self;
        if self.can_move_car_horizontally() {
            if x_input != 0 {
                let new_x: i16 = self.car_pos.x as i16 + x_input as i16;
                if new_x >= 1 && new_x <= SCREEN_WIDTH as i16 - 2 {
                    self.car_pos = Dot::new(new_x as i8, self.car_pos.y);
                }
            }
        }
        if self.road_should_update() {
            if y_input != 0 {
                let new_y: i16 = self.car_pos.y as i16 + y_input as i16;
                if new_y >= 3 && new_y < SCREEN_HEIGHT as i16 {
                    self.car_pos = Dot::new(self.car_pos.x, new_y as i8);
                }
            }
            self.update_obstacles();
            self.update_road();
        }
        if self.should_update() {
            self.update_bullet_powerup();
            self.update_racing_cars();
        }
        let ghost pre_b = *self;
        self.update_bullets();
        let ghost s4 = *self;
        self.check_collisions();
        let ghost s5 = *self;
        proof {
            assert(pre_b.bullets == s3.bullets && pre_b.bullet_count == s3.bullet_count);
        }
        if self.lives == 0 {
            assert(race_tick(*old(self), s1, s2, s3, s4, s5, *self, pressed));
            return false;
        }
        self.screen.clear();
        self.draw_road();
        self.draw_obstacles();
        self.draw_bullet_powerup();
        self.draw_bullets();
        self.draw_racing_cars();
        self.draw_car();
        self.draw_score();
        assert(race_tick(*old(self), s1, s2, s3, s4, s5, *self, pressed));
        true
    }

    /// A game-over frame: the score alone when `visible`, else blank.
    pub fn game_over_frame(&mut self, visible: bool)
        requires
            old(self).wf(),
        ensures
            final(self).wf(),
            final(self).lives == old(self).lives,
            final(self).car_pos == old(self).car_pos,
    {
        self.screen.clear();
        if visible {
            self.draw_score();
        }
    }
}

/// Draws a car shape in `color` with its base centred on (`x`, `y`),
/// leaving out the parts that would fall off the grid.
fn paint_car(screen: &mut FrameBuffer, x: usize, y: usize, color: u8)
    requires
        x < 100,
        y < 100,
    ensures
        final(screen)@.len() == SCREEN_SIZE,
        forall|i: int|
            0 <= i < SCREEN_SIZE ==> #[trigger] final(screen)@[i] == if car_cell(
                x as int,
                y as int,
                i % 8,
                i / 8,
            ) {
                color
            } else {
                old(screen)@[i]
            },
{
    proof {
        screen.lemma_len();
    }
    let ghost s0 = screen@;
    if x > 0 && x < SCREEN_WIDTH - 1 && y < SCREEN_HEIGHT {
        screen.set(x - 1, y, color);
        screen.set(x, y, color);
        screen.set(x + 1, y, color);
    }
    if y > 0 && x < SCREEN_WIDTH {
        screen.set(x, y - 1, color);
    }
    if y > 1 && x > 0 && x < SCREEN_WIDTH - 1 {
        screen.set(x, y - 2, color);
        screen.set(x - 1, y - 2, color);
        screen.set(x + 1, y - 2, color);
    }
    if y > 2 && x < SCREEN_WIDTH {
        screen.set(x, y - 3, color);
    }
    assert forall|i: int| 0 <= i < SCREEN_SIZE implies #[trigger] screen@[i] == if car_cell(
        x as int,
        y as int,
        i % 8,
        i / 8,
    ) {
        color
    } else {
        s0[i]
    } by {}
}

} // verus!
