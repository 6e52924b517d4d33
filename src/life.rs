use crate::common::{
    lcg_output, lcg_step,
    cell_index, in_screen, palette, strip_index, FrameBuffer, Prng, Rgb, get_pixel, set_pixel, BLACK_IDX, BRICK_IDX, GREEN_IDX,
    PINK_IDX, SCREEN_HEIGHT, SCREEN_SIZE, SCREEN_WIDTH, YELLOW_IDX,
};
use vstd::prelude::*;

verus! {

/// First row of the play field; the rows above show the state.
pub const FIELD_TOP: usize = 6;

/// Number of seed patterns; pattern 0 is a random fill.
pub const PATTERN_COUNT: usize = 31;

/// Frames per generation at speed 1; speed `s` divides it.
pub const ROUND: u8 = 20;

/// The cells of seed pattern `index`, as (column, row); empty for the
/// random fill.
pub open spec fn pattern_spec(index: int) -> Seq<(i8, i8)> {
    if index == 1 {
        seq![(1, 8), (2, 9), (0, 10), (1, 10), (2, 10)]
    } else if index == 2 {
        seq![(3, 10), (3, 11), (3, 12)]
    } else if index == 3 {
        seq![(2, 10), (3, 10), (4, 10), (1, 11), (2, 11), (3, 11)]
    } else if index == 4 {
        seq![(1, 8), (2, 8), (1, 9), (4, 10), (3, 11), (4, 11)]
    } else if index == 5 {
        seq![(1, 10), (4, 10), (0, 11), (0, 12), (0, 13), (4, 13), (3, 14), (2, 14), (1, 14), (0, 14)]
    } else if index == 6 {
        seq![(2, 8), (3, 8), (4, 8), (2, 13), (3, 13), (4, 13)]
    } else if index == 7 {
        seq![(3, 10), (4, 10), (2, 11), (3, 11), (3, 12)]
    } else if index == 8 {
        seq![(1, 10), (3, 11), (0, 12), (1, 12), (4, 12), (5, 12), (6, 12)]
    } else if index == 9 {
        seq![(6, 10), (0, 11), (1, 11), (1, 12), (5, 12), (6, 12), (7, 12)]
    } else if index == 10 {
        seq![(2, 10), (3, 10), (1, 11), (4, 11), (2, 12), (3, 12)]
    } else if index == 11 {
        seq![(3, 8), (3, 9), (2, 10), (4, 10), (3, 11), (3, 12), (3, 13), (3, 14), (2, 15), (4, 15), (3, 16), (3, 17)]
    } else if index == 12 {
        seq![(0, 10), (1, 10), (0, 11), (1, 11), (2, 12), (3, 12), (4, 12), (5, 13), (6, 14), (7, 14)]
    } else if index == 13 {
        seq![(1, 10), (3, 10), (0, 11), (4, 11), (0, 12), (4, 12), (1, 13), (3, 13)]
    } else if index == 14 {
        seq![(1, 10), (2, 10), (3, 10), (0, 11), (3, 11), (0, 12), (3, 12), (1, 13), (2, 13), (3, 13)]
    } else if index == 15 {
        seq![(2, 10), (3, 10), (1, 11), (4, 11), (2, 12), (3, 12)]
    } else if index == 16 {
        seq![(1, 9), (2, 9), (1, 10), (4, 11), (5, 11), (4, 12)]
    } else if index == 17 {
        seq![(2, 8), (3, 8), (1, 9), (4, 9), (0, 10), (5, 10), (1, 11), (4, 11), (2, 12), (3, 12)]
    } else if index == 18 {
        seq![(2, 10), (3, 10), (1, 11), (2, 11), (2, 12), (3, 12), (4, 12)]
    } else if index == 19 {
        seq![(1, 10), (2, 10), (3, 10), (1, 11), (3, 11), (1, 12), (3, 12)]
    } else if index == 20 {
        seq![(1, 8), (2, 8), (1, 9), (2, 9), (1, 10), (2, 10), (5, 11), (6, 11), (5, 12), (6, 12), (5, 13), (6, 13)]
    } else if index == 21 {
        seq![(1, 10), (2, 10), (1, 11), (3, 11), (2, 12)]
    } else if index == 22 {
        seq![(2, 9), (3, 9), (1, 10), (4, 10), (2, 11), (4, 11), (3, 12)]
    } else if index == 23 {
        seq![(1, 10), (3, 10), (2, 11), (1, 12), (3, 12)]
    } else if index == 24 {
        seq![(3, 9), (2, 10), (3, 10), (4, 10), (3, 11)]
    } else if index == 25 {
        seq![(2, 9), (3, 9), (1, 10), (4, 10), (1, 11), (4, 11), (2, 12), (3, 12)]
    } else if index == 26 {
        seq![(0, 10), (2, 10), (3, 11), (0, 12), (1, 12), (3, 12), (4, 12)]
    } else if index == 27 {
        seq![(1, 10), (3, 10), (4, 11), (1, 12), (5, 12), (1, 13), (2, 13), (3, 13)]
    } else if index == 28 {
        seq![(1, 10), (3, 10), (0, 11), (4, 11), (0, 12), (1, 12), (2, 12), (3, 12)]
    } else if index == 29 {
        seq![(2, 8), (3, 8), (1, 9), (4, 9), (0, 10), (5, 10), (0, 11), (5, 11), (1, 12), (4, 12), (2, 13), (3, 13)]
    } else if index == 30 {
        seq![(1, 10), (2, 10), (3, 10), (2, 11), (2, 12), (2, 13)]
    } else {
        Seq::empty()
    }
}

/// The seed pattern `index`: live cells as (column, row), or `None` for a
/// random fill.
pub fn pattern_cells(index: usize) -> (r: Option<Vec<(i8, i8)>>)
    ensures
        (index == 0 || index >= PATTERN_COUNT) <==> r is None,
        r matches Some(v) ==> v@ == pattern_spec(index as int),
{
    match index {
        0 => None,
        1 => Some(vec![(1, 8), (2, 9), (0, 10), (1, 10), (2, 10)]),
        2 => Some(vec![(3, 10), (3, 11), (3, 12)]),
        3 => Some(vec![(2, 10), (3, 10), (4, 10), (1, 11), (2, 11), (3, 11)]),
        4 => Some(vec![(1, 8), (2, 8), (1, 9), (4, 10), (3, 11), (4, 11)]),
        5 => Some(vec![(1, 10), (4, 10), (0, 11), (0, 12), (0, 13), (4, 13), (3, 14), (2, 14), (1, 14), (0, 14)]),
        6 => Some(vec![(2, 8), (3, 8), (4, 8), (2, 13), (3, 13), (4, 13)]),
        7 => Some(vec![(3, 10), (4, 10), (2, 11), (3, 11), (3, 12)]),
        8 => Some(vec![(1, 10), (3, 11), (0, 12), (1, 12), (4, 12), (5, 12), (6, 12)]),
        9 => Some(vec![(6, 10), (0, 11), (1, 11), (1, 12), (5, 12), (6, 12), (7, 12)]),
        10 => Some(vec![(2, 10), (3, 10), (1, 11), (4, 11), (2, 12), (3, 12)]),
        11 => Some(vec![(3, 8), (3, 9), (2, 10), (4, 10), (3, 11), (3, 12), (3, 13), (3, 14), (2, 15), (4, 15), (3, 16), (3, 17)]),
        12 => Some(vec![(0, 10), (1, 10), (0, 11), (1, 11), (2, 12), (3, 12), (4, 12), (5, 13), (6, 14), (7, 14)]),
        13 => Some(vec![(1, 10), (3, 10), (0, 11), (4, 11), (0, 12), (4, 12), (1, 13), (3, 13)]),
        14 => Some(vec![(1, 10), (2, 10), (3, 10), (0, 11), (3, 11), (0, 12), (3, 12), (1, 13), (2, 13), (3, 13)]),
        15 => Some(vec![(2, 10), (3, 10), (1, 11), (4, 11), (2, 12), (3, 12)]),
        16 => Some(vec![(1, 9), (2, 9), (1, 10), (4, 11), (5, 11), (4, 12)]),
        17 => Some(vec![(2, 8), (3, 8), (1, 9), (4, 9), (0, 10), (5, 10), (1, 11), (4, 11), (2, 12), (3, 12)]),
        18 => Some(vec![(2, 10), (3, 10), (1, 11), (2, 11), (2, 12), (3, 12), (4, 12)]),
        19 => Some(vec![(1, 10), (2, 10), (3, 10), (1, 11), (3, 11), (1, 12), (3, 12)]),
        20 => Some(vec![(1, 8), (2, 8), (1, 9), (2, 9), (1, 10), (2, 10), (5, 11), (6, 11), (5, 12), (6, 12), (5, 13), (6, 13)]),
        21 => Some(vec![(1, 10), (2, 10), (1, 11), (3, 11), (2, 12)]),
        22 => Some(vec![(2, 9), (3, 9), (1, 10), (4, 10), (2, 11), (4, 11), (3, 12)]),
        23 => Some(vec![(1, 10), (3, 10), (2, 11), (1, 12), (3, 12)]),
        24 => Some(vec![(3, 9), (2, 10), (3, 10), (4, 10), (3, 11)]),
        25 => Some(vec![(2, 9), (3, 9), (1, 10), (4, 10), (1, 11), (4, 11), (2, 12), (3, 12)]),
        26 => Some(vec![(0, 10), (2, 10), (3, 11), (0, 12), (1, 12), (3, 12), (4, 12)]),
        27 => Some(vec![(1, 10), (3, 10), (4, 11), (1, 12), (5, 12), (1, 13), (2, 13), (3, 13)]),
        28 => Some(vec![(1, 10), (3, 10), (0, 11), (4, 11), (0, 12), (1, 12), (2, 12), (3, 12)]),
        29 => Some(vec![(2, 8), (3, 8), (1, 9), (4, 9), (0, 10), (5, 10), (0, 11), (5, 11), (1, 12), (4, 12), (2, 13), (3, 13)]),
        30 => Some(vec![(1, 10), (2, 10), (3, 10), (2, 11), (2, 12), (2, 13)]),
        _ => None,
    }
}

pub open spec fn alive(v: Seq<u8>, x: int, y: int) -> bool {
    v[cell_index(x, y)] != BLACK_IDX
}

/// A column moved by `dx` (at most one), wrapping around the screen's width.
pub open spec fn wrap_x(x: int) -> int {
    if x < 0 {
        SCREEN_WIDTH - 1
    } else if x >= SCREEN_WIDTH {
        0
    } else {
        x
    }
}

/// 1 if the neighbour at offset (`dx`, `dy`) of (`x`, `y`) is alive: columns
/// wrap around, rows outside the play field do not count.
pub open spec fn neighbor(v: Seq<u8>, x: int, y: int, dx: int, dy: int) -> int {
    if FIELD_TOP <= y + dy < SCREEN_HEIGHT && alive(v, wrap_x(x + dx), y + dy) {
        1
    } else {
        0
    }
}

/// Live neighbours of (`x`, `y`) among its eight surrounding cells.
pub open spec fn neighbor_count(v: Seq<u8>, x: int, y: int) -> int {
    neighbor(v, x, y, -1, -1) + neighbor(v, x, y, -1, 0) + neighbor(v, x, y, -1, 1) + neighbor(
        v,
        x,
        y,
        0,
        -1,
    ) + neighbor(v, x, y, 0, 1) + neighbor(v, x, y, 1, -1) + neighbor(v, x, y, 1, 0) + neighbor(
        v,
        x,
        y,
        1,
        1,
    )
}

/// Conway's rule: a live cell with two or three live neighbours lives on,
/// a dead cell with exactly three comes alive, every other cell is dead.
pub open spec fn lives_next(v: Seq<u8>, x: int, y: int) -> bool {
    let n = neighbor_count(v, x, y);
    if alive(v, x, y) {
        n == 2 || n == 3
    } else {
        n == 3
    }
}

/// The next generation of `v`: the rows above the field kept, each field
/// cell green or background by Conway's rule.
pub open spec fn next_gen(v: Seq<u8>) -> Seq<u8> {
    Seq::new(
        SCREEN_SIZE as nat,
        |i: int|
            if (i / SCREEN_WIDTH as int) < FIELD_TOP {
                v[i]
            } else if lives_next(v, i % SCREEN_WIDTH as int, i / SCREEN_WIDTH as int) {
                GREEN_IDX
            } else {
                BLACK_IDX
            },
    )
}

/// In the next generation a field cell lives exactly when Conway's rule
/// says so: a dead cell with three live neighbours is born, a live one
/// with two or three survives; the status rows are kept.
pub proof fn lemma_conway_rule(v: Seq<u8>, x: int, y: int)
    requires
        v.len() == SCREEN_SIZE,
        0 <= x < SCREEN_WIDTH,
        0 <= y < SCREEN_HEIGHT,
    ensures
        y >= FIELD_TOP ==> (next_gen(v)[cell_index(x, y)] != BLACK_IDX) == if alive(v, x, y) {
            neighbor_count(v, x, y) == 2 || neighbor_count(v, x, y) == 3
        } else {
            neighbor_count(v, x, y) == 3
        },
        y < FIELD_TOP ==> next_gen(v)[cell_index(x, y)] == v[cell_index(x, y)],
{
    let i = cell_index(x, y);
    vstd::arithmetic::div_mod::lemma_fundamental_div_mod_converse(i, SCREEN_WIDTH as int, y, x);
}

/// Whether (`x`, `y`) is among the cells of a seed pattern.
pub open spec fn in_pattern(cells: Seq<(i8, i8)>, x: int, y: int) -> bool {
    exists|k: int| 0 <= k < cells.len() && cells[k].0 == x && cells[k].1 == y
}

/// Cells of the play field.
pub const FIELD_CELLS: usize = 208;

/// `n` steps of the generator from state `s`.
pub open spec fn lcg_iter(s: u32, n: nat) -> u32
    decreases n,
{
    if n == 0 {
        s
    } else {
        lcg_step(lcg_iter(s, (n - 1) as nat))
    }
}

/// The position of field cell (`x`, `y`) in the random fill's order:
/// column by column, each from the top of the field down.
pub open spec fn fill_index(x: int, y: int) -> int {
    x * 26 + (y - FIELD_TOP)
}

/// Whether the random fill from state `s` makes field cell (`x`, `y`) alive.
pub open spec fn random_alive(s: u32, x: int, y: int) -> bool {
    lcg_output(lcg_iter(s, (fill_index(x, y) + 1) as nat)) % 4 == 0
}

/// `v` is the screen seeded with pattern `idx` (the random fill from
/// generator state `s` when `idx` is 0): status rows clear, each field
/// cell green or background.
pub open spec fn seeded(v: Seq<u8>, idx: int, s: u32) -> bool {
    &&& v.len() == SCREEN_SIZE
    &&& forall|c: int|
        0 <= c < SCREEN_SIZE ==> #[trigger] v[c] == if c / 8 >= FIELD_TOP && if idx == 0 {
            random_alive(s, c % 8, c / 8)
        } else {
            in_pattern(pattern_spec(idx), c % 8, c / 8)
        } {
            GREEN_IDX
        } else {
            0u8
        }
}

fn seed_cells(screen: &mut FrameBuffer, cells: &Vec<(i8, i8)>)
    requires
        old(screen)@ == Seq::new(SCREEN_SIZE as nat, |i: int| 0u8),
    ensures
        final(screen)@.len() == SCREEN_SIZE,
        forall|c: int|
            0 <= c < SCREEN_SIZE ==> #[trigger] final(screen)@[c] == if c / 8 >= FIELD_TOP
                && in_pattern(cells@, c % 8, c / 8) {
                GREEN_IDX
            } else {
                0u8
            },
{
    let mut k: usize = 0;
    while k < cells.len()
        invariant
            k <= cells@.len(),
            screen@.len() == SCREEN_SIZE,
            forall|c: int|
                0 <= c < SCREEN_SIZE ==> #[trigger] screen@[c] == if c / 8 >= FIELD_TOP
                    && in_pattern(cells@.subrange(0, k as int), c % 8, c / 8) {
                    GREEN_IDX
                } else {
                    0u8
                },
        decreases cells@.len() - k,
    {
        let (x, y) = cells[k];
        if x >= 0 && x < SCREEN_WIDTH as i8 && y >= FIELD_TOP as i8 && y < SCREEN_HEIGHT as i8 {
            screen.set(x as usize, y as usize, GREEN_IDX);
        }
        proof {
            let sub = cells@.subrange(0, k + 1);
            assert forall|c: int| 0 <= c < SCREEN_SIZE implies #[trigger] screen@[c] == if c / 8
                >= FIELD_TOP && in_pattern(sub, c % 8, c / 8) {
                GREEN_IDX
            } else {
                0u8
            } by {
                if 0 <= x < 8 {
                    crate::common::lemma_cell_index(c, x as int, y as int);
                }
                if in_pattern(sub, c % 8, c / 8) {
                    let j = choose|j: int|
                        0 <= j < sub.len() && sub[j].0 == c % 8 && sub[j].1 == c / 8;
                    if j < k {
                        assert(cells@.subrange(0, k as int)[j] == sub[j]);
                    }
                }
                if in_pattern(cells@.subrange(0, k as int), c % 8, c / 8) {
                    let j = choose|j: int|
                        0 <= j < k && cells@.subrange(0, k as int)[j].0 == c % 8 && cells@.subrange(
                            0,
                            k as int,
                        )[j].1 == c / 8;
                    assert(sub[j] == cells@.subrange(0, k as int)[j]);
                }
                if c % 8 == x && c / 8 == y {
                    assert(sub[k as int] == (x, y));
                }
            }
        }
        k = k + 1;
    }
    assert(cells@.subrange(0, cells@.len() as int) =~= cells@);
}

fn seed_random(screen: &mut FrameBuffer, prng: &mut Prng)
    requires
        old(screen)@ == Seq::new(SCREEN_SIZE as nat, |i: int| 0u8),
    ensures
        final(screen)@.len() == SCREEN_SIZE,
        final(prng)@ == lcg_iter(old(prng)@, FIELD_CELLS as nat),
        forall|c: int|
            0 <= c < SCREEN_SIZE ==> #[trigger] final(screen)@[c] == if c / 8 >= FIELD_TOP
                && random_alive(old(prng)@, c % 8, c / 8) {
                GREEN_IDX
            } else {
                0u8
            },
{
    let ghost s0 = prng@;
    let mut x: usize = 0;
    while x < SCREEN_WIDTH
        invariant
            x <= SCREEN_WIDTH,
            s0 == old(prng)@,
            prng@ == lcg_iter(s0, (x * 26) as nat),
            screen@.len() == SCREEN_SIZE,
            forall|c: int|
                0 <= c < SCREEN_SIZE ==> #[trigger] screen@[c] == if c / 8 >= FIELD_TOP && c % 8
                    < x && random_alive(s0, c % 8, c / 8) {
                    GREEN_IDX
                } else {
                    0u8
                },
        decreases SCREEN_WIDTH - x,
    {
        let mut y: usize = FIELD_TOP;
        while y < SCREEN_HEIGHT
            invariant
                x < SCREEN_WIDTH,
                FIELD_TOP <= y <= SCREEN_HEIGHT,
                s0 == old(prng)@,
                prng@ == lcg_iter(s0, fill_index(x as int, y as int) as nat),
                screen@.len() == SCREEN_SIZE,
                forall|c: int|
                    0 <= c < SCREEN_SIZE ==> #[trigger] screen@[c] == if c / 8 >= FIELD_TOP && (c
                        % 8 < x || (c % 8 == x && c / 8 < y)) && random_alive(s0, c % 8, c / 8) {
                        GREEN_IDX
                    } else {
                        0u8
                    },
            decreases SCREEN_HEIGHT - y,
        {
            let ghost n = fill_index(x as int, y as int);
            let r = prng.next_range(4);
            assert(prng@ == lcg_iter(s0, (n + 1) as nat));
            if r == 0 {
                screen.set(x, y, GREEN_IDX);
            }
            proof {
                assert forall|c: int| 0 <= c < SCREEN_SIZE implies #[trigger] screen@[c] == if c / 8
                    >= FIELD_TOP && (c % 8 < x || (c % 8 == x && c / 8 < y + 1)) && random_alive(
                    s0,
                    c % 8,
                    c / 8,
                ) {
                    GREEN_IDX
                } else {
                    0u8
                } by {
                    crate::common::lemma_cell_index(c, x as int, y as int);
                }
            }
            y = y + 1;
        }
        x = x + 1;
    }
}

/// What the game is doing.
#[derive(Clone, Copy, Debug, PartialEq, Eq, Structural)]
pub enum LifeState {
    Running,
    Paused,
    DrawMode,
}

/// The controls read for one frame.
#[derive(Clone, Copy, Debug)]
pub struct LifeInput {
    pub x: i8,
    pub y: i8,
    pub joystick: bool,
    pub a: bool,
    pub b: bool,
}

/// Conway's game of life on the play field, with seed patterns, a pause
/// mode with speed control, and a mode for drawing cells by hand.
pub struct LifeGame {
    pub screen: FrameBuffer,
    pub next_screen: FrameBuffer,
    pub prng: Prng,
    pub generation: u32,
    pub state: LifeState,
    pub pattern_index: usize,
    pub cursor_x: usize,
    pub cursor_y: usize,
    pub blink_counter: u8,
    pub step: u8,
    pub speed: u8,
    pub last_x_input: i8,
    pub last_y_input: i8,
    pub cursor_move_counter: u8,
}

fn neighbor_exec(screen: &FrameBuffer, x: usize, y: usize, dx: i8, dy: i8) -> (r: u8)
    requires
        x < SCREEN_WIDTH,
        FIELD_TOP <= y < SCREEN_HEIGHT,
        -1 <= dx <= 1,
        -1 <= dy <= 1,
    ensures
        r == neighbor(screen@, x as int, y as int, dx as int, dy as int),
{
    let nx: i8 = x as i8 + dx;
    let ny: i8 = y as i8 + dy;
    let nx: i8 = if nx < 0 {
        SCREEN_WIDTH as i8 - 1
    } else if nx >= SCREEN_WIDTH as i8 {
        0
    } else {
        nx
    };
    if ny < FIELD_TOP as i8 || ny >= SCREEN_HEIGHT as i8 {
        return 0;
    }
    if screen.get(nx as usize, ny as usize) != BLACK_IDX {
        1
    } else {
        0
    }
}

impl LifeGame {
    pub open spec fn wf(&self) -> bool {
        &&& self.pattern_index < PATTERN_COUNT
        &&& self.cursor_x < SCREEN_WIDTH
        &&& FIELD_TOP <= self.cursor_y < SCREEN_HEIGHT
        &&& 1 <= self.speed <= 4
        &&& self.blink_counter < 20
    }

    /// A running game seeded with the random pattern, cursor in the middle
    /// of the field.
    pub fn new(prng: Prng) -> (g: LifeGame)
        ensures
            g.wf(),
            g.state == LifeState::Running,
            g.pattern_index == 0,
            g.generation == 0,
    {
        let mut game = LifeGame {
            screen: FrameBuffer::new(),
            next_screen: FrameBuffer::new(),
            prng,
            generation: 0,
            state: LifeState::Running,
            pattern_index: 0,
            cursor_x: SCREEN_WIDTH / 2,
            cursor_y: (SCREEN_HEIGHT + FIELD_TOP) / 2,
            blink_counter: 0,
            step: 0,
            speed: 1,
            last_x_input: 0,
            last_y_input: 0,
            cursor_move_counter: 0,
        };
        game.set_pattern();
        game
    }

    /// Clears the screen and seeds the field with the current pattern; the
    /// random pattern makes each field cell alive when a draw from
    /// `[0, 4)` gives 0, column by column, top to bottom. The generation
    /// count restarts.
    pub fn set_pattern(&mut self)
        requires
            old(self).wf(),
        ensures
            final(self).wf(),
            final(self).generation == 0,
            final(self).state == old(self).state,
            final(self).pattern_index == old(self).pattern_index,
            final(self).speed == old(self).speed,
            final(self).step == old(self).step,
            final(self).blink_counter == old(self).blink_counter,
            final(self).screen@.len() == SCREEN_SIZE,
            seeded(final(self).screen@, old(self).pattern_index as int, old(self).prng@),
            final(self).prng@ == if old(self).pattern_index == 0 {
                lcg_iter(old(self).prng@, FIELD_CELLS as nat)
            } else {
                old(self).prng@
            },
            forall|i: int|
                0 <= i < FIELD_TOP * SCREEN_WIDTH ==> #[trigger] final(self).screen@[i] == 0,
            forall|i: int|
                0 <= i < SCREEN_SIZE ==> #[trigger] final(self).screen@[i] == 0
                    || final(self).screen@[i] == GREEN_IDX,
    {
        self.screen.clear();
        self.generation = 0;
        match pattern_cells(self.pattern_index) {
            Some(cells) => {
                seed_cells(&mut self.screen, &cells);
            },
            None => {
                seed_random(&mut self.screen, &mut self.prng);
            },
        }
    }

    /// Moves on to the next seed pattern (cyclically) and seeds it.
    pub fn next_pattern(&mut self)
        requires
            old(self).wf(),
        ensures
            final(self).wf(),
            final(self).pattern_index == (old(self).pattern_index + 1) % PATTERN_COUNT as int,
            final(self).generation == 0,
            final(self).state == old(self).state,
            final(self).speed == old(self).speed,
            final(self).step == old(self).step,
            final(self).blink_counter == old(self).blink_counter,
    {
        self.pattern_index = (self.pattern_index + 1) % PATTERN_COUNT;
        self.set_pattern();
    }

    /// Live neighbours of the field cell (`x`, `y`): columns wrap around,
    /// rows outside the field do not count.
    pub fn count_neighbors(&self, x: usize, y: usize) -> (n: u8)
        requires
            x < SCREEN_WIDTH,
            FIELD_TOP <= y < SCREEN_HEIGHT,
        ensures
            n == neighbor_count(self.screen@, x as int, y as int),
    {
        neighbor_exec(&self.screen, x, y, -1, -1) + neighbor_exec(&self.screen, x, y, -1, 0)
            + neighbor_exec(&self.screen, x, y, -1, 1) + neighbor_exec(&self.screen, x, y, 0, -1)
            + neighbor_exec(&self.screen, x, y, 0, 1) + neighbor_exec(&self.screen, x, y, 1, -1)
            + neighbor_exec(&self.screen, x, y, 1, 0) + neighbor_exec(&self.screen, x, y, 1, 1)
    }

    /// Replaces the screen by its next generation and counts it.
    pub fn next_generation(&mut self)
        requires
            old(self).wf(),
        ensures
            final(self).wf(),
            final(self).screen@ == next_gen(old(self).screen@),
            final(self).generation == (old(self).generation + 1) % 0x1_0000_0000,
            final(self).state == old(self).state,
            final(self).pattern_index == old(self).pattern_index,
            final(self).speed == old(self).speed,
            final(self).step == old(self).step,
            final(self).blink_counter == old(self).blink_counter,
            final(self).cursor_x == old(self).cursor_x,
            final(self).cursor_y == old(self).cursor_y,
            final(self).cursor_move_counter == old(self).cursor_move_counter,
            final(self).last_x_input == old(self).last_x_input,
            final(self).last_y_input == old(self).last_y_input,
    {
        let ghost v = self.screen@;
        proof {
            self.screen.lemma_len();
        }
        self.next_screen.clear();
        let mut x: usize = 0;
        while x < SCREEN_WIDTH
            invariant
                x <= SCREEN_WIDTH,
                v == self.screen@,
                v.len() == SCREEN_SIZE,
                old(self).wf(),
                self.wf(),
                self.generation == old(self).generation,
                self.state == old(self).state,
                self.pattern_index == old(self).pattern_index,
                self.speed == old(self).speed,
                self.step == old(self).step,
                self.blink_counter == old(self).blink_counter,
                self.cursor_x == old(self).cursor_x,
                self.cursor_y == old(self).cursor_y,
                self.cursor_move_counter == old(self).cursor_move_counter,
                self.last_x_input == old(self).last_x_input,
                self.last_y_input == old(self).last_y_input,
                self.next_screen@.len() == SCREEN_SIZE,
                forall|i: int|
                    0 <= i < SCREEN_SIZE ==> #[trigger] self.next_screen@[i] == if i % 8 < x {
                        next_gen(v)[i]
                    } else {
                        0u8
                    },
            decreases SCREEN_WIDTH - x,
        {
            let mut y: usize = 0;
            while y < SCREEN_HEIGHT
                invariant
                    x < SCREEN_WIDTH,
                    y <= SCREEN_HEIGHT,
                    v == self.screen@,
                    v.len() == SCREEN_SIZE,
                    self.wf(),
                    self.generation == old(self).generation,
                    self.state == old(self).state,
                    self.pattern_index == old(self).pattern_index,
                    self.speed == old(self).speed,
                    self.step == old(self).step,
                    self.blink_counter == old(self).blink_counter,
                    self.cursor_x == old(self).cursor_x,
                    self.cursor_y == old(self).cursor_y,
                    self.cursor_move_counter == old(self).cursor_move_counter,
                    self.last_x_input == old(self).last_x_input,
                    self.last_y_input == old(self).last_y_input,
                self.cursor_x == old(self).cursor_x,
                self.cursor_y == old(self).cursor_y,
                self.cursor_move_counter == old(self).cursor_move_counter,
                self.last_x_input == old(self).last_x_input,
                self.last_y_input == old(self).last_y_input,
                    self.next_screen@.len() == SCREEN_SIZE,
                    forall|i: int|
                        0 <= i < SCREEN_SIZE ==> #[trigger] self.next_screen@[i] == if i % 8 < x
                            || (i % 8 == x && i / 8 < y) {
                            next_gen(v)[i]
                        } else {
                            0u8
                        },
                decreases SCREEN_HEIGHT - y,
            {
                if y < FIELD_TOP {
                    let color = self.screen.get(x, y);
                    self.next_screen.set(x, y, color);
                } else {
                    let neighbors = self.count_neighbors(x, y);
                    let is_alive = self.screen.get(x, y) != BLACK_IDX;
                    let stays_alive = is_alive && (neighbors == 2 || neighbors == 3);
                    let reborns = !is_alive && neighbors == 3;
                    if stays_alive || reborns {
                        self.next_screen.set(x, y, GREEN_IDX);
                    } else {
                        self.next_screen.set(x, y, BLACK_IDX);
                    }
                }
                y = y + 1;
            }
            x = x + 1;
        }
        assert(self.next_screen@ =~= next_gen(v));
        core::mem::swap(&mut self.screen, &mut self.next_screen);
        self.generation = self.generation.wrapping_add(1);
    }

    /// The state after this frame's input, from `state`.
    pub open spec fn next_state(state: LifeState, input: LifeInput) -> LifeState {
        match state {
            LifeState::Running => {
                if input.b {
                    LifeState::DrawMode
                } else if input.joystick {
                    LifeState::Paused
                } else {
                    LifeState::Running
                }
            },
            LifeState::Paused => {
                if input.joystick {
                    LifeState::Running
                } else {
                    LifeState::Paused
                }
            },
            LifeState::DrawMode => {
                if input.a || input.b {
                    LifeState::Running
                } else {
                    LifeState::DrawMode
                }
            },
        }
    }

    /// One frame: the input for the current mode, a new generation when
    /// running and enough frames have passed (`ROUND / speed`), and the
    /// status rows. While paused, A lowers `speed` and B raises it (1 to
    /// 4); a generation comes every `ROUND / speed` frames.
    /// In draw mode the stick moves the cursor (at once when it changes,
    /// every eighth frame while held), the stick button toggles the cell
    /// under it, and A or B go back to running.
    pub fn frame(&mut self, input: LifeInput)
        requires
            old(self).wf(),
        ensures
            final(self).wf(),
            final(self).state == Self::next_state(old(self).state, input),
            old(self).state == LifeState::Paused && input.a ==> final(self).speed == if old(
                self,
            ).speed > 1 {
                old(self).speed - 1
            } else {
                1
            },
            old(self).state == LifeState::Paused && !input.a && input.b ==> final(self).speed
                == if old(self).speed < 4 {
                old(self).speed + 1
            } else {
                4
            },
            old(self).state != LifeState::Paused ==> final(self).speed == old(self).speed,
            old(self).state == LifeState::Running && !input.a && !input.b && !input.joystick
                && old(self).step >= ROUND / old(self).speed ==> final(self).generation == (old(
                self,
            ).generation + 1) % 0x1_0000_0000 && forall|i: int|
                FIELD_TOP * SCREEN_WIDTH <= i < SCREEN_SIZE ==> #[trigger] final(self).screen@[i]
                    == next_gen(old(self).screen@)[i],
            final(self).blink_counter == (old(self).blink_counter + 1) % 20,
            final(self).pattern_index == if old(self).state == LifeState::Running && input.a {
                (old(self).pattern_index + 1) % PATTERN_COUNT as int
            } else {
                old(self).pattern_index as int
            },
            old(self).state == LifeState::DrawMode ==> {
                let c = (old(self).cursor_move_counter + 1) % 256;
                let mv = input.x != old(self).last_x_input || input.y != old(self).last_y_input || c
                    % 8 == 0;
                let nx = old(self).cursor_x + input.x;
                let ny = old(self).cursor_y + input.y;
                &&& final(self).cursor_move_counter == c
                &&& final(self).last_x_input == input.x
                &&& final(self).last_y_input == input.y
                &&& final(self).cursor_x == if mv && input.x != 0 {
                    if nx < 0 {
                        0
                    } else if nx > SCREEN_WIDTH - 1 {
                        SCREEN_WIDTH - 1
                    } else {
                        nx
                    }
                } else {
                    old(self).cursor_x as int
                }
                &&& final(self).cursor_y == if mv && input.y != 0 {
                    if ny < FIELD_TOP {
                        FIELD_TOP as int
                    } else if ny > SCREEN_HEIGHT - 1 {
                        SCREEN_HEIGHT - 1
                    } else {
                        ny
                    }
                } else {
                    old(self).cursor_y as int
                }
                &&& !input.a && !input.b ==> {
                    let cell = cell_index(final(self).cursor_x as int, final(self).cursor_y as int);
                    final(self).screen@[cell] == if !input.joystick {
                        old(self).screen@[cell]
                    } else if old(self).screen@[cell] == BLACK_IDX {
                        GREEN_IDX
                    } else {
                        BLACK_IDX
                    }
                }
            },
    {
        proof {
            self.screen.lemma_len();
        }
        match self.state {
            LifeState::Running => {
                if input.joystick {
                    self.state = LifeState::Paused;
                }
                if input.b {
                    self.state = LifeState::DrawMode;
                }
                if input.a {
                    self.next_pattern();
                }
            },
            LifeState::Paused => {
                if input.joystick {
                    self.state = LifeState::Running;
                }
                if input.a {
                    self.speed = if self.speed > 1 {
                        self.speed - 1
                    } else {
                        1
                    };
                } else if input.b {
                    self.speed = if self.speed < 4 {
                        self.speed + 1
                    } else {
                        4
                    };
                }
            },
            LifeState::DrawMode => {
                self.cursor_move_counter = self.cursor_move_counter.wrapping_add(1);
                let input_changed = input.x != self.last_x_input || input.y != self.last_y_input;
                let should_move = input_changed || self.cursor_move_counter % 8 == 0;
                if should_move {
                    if input.x != 0 {
                        let nx: i16 = self.cursor_x as i16 + input.x as i16;
                        self.cursor_x = if nx < 0 {
                            0
                        } else if nx > SCREEN_WIDTH as i16 - 1 {
                            SCREEN_WIDTH - 1
                        } else {
                            nx as usize
                        };
                    }
                    if input.y != 0 {
                        let ny: i16 = self.cursor_y as i16 + input.y as i16;
                        self.cursor_y = if ny < FIELD_TOP as i16 {
                            FIELD_TOP
                        } else if ny > SCREEN_HEIGHT as i16 - 1 {
                            SCREEN_HEIGHT - 1
                        } else {
                            ny as usize
                        };
                    }
                }
                self.last_x_input = input.x;
                self.last_y_input = input.y;
                if input.joystick {
                    let current = self.screen.get(self.cursor_x, self.cursor_y);
                    if current == BLACK_IDX {
                        self.screen.set(self.cursor_x, self.cursor_y, GREEN_IDX);
                    } else {
                        self.screen.set(self.cursor_x, self.cursor_y, BLACK_IDX);
                    }
                }
                if input.a || input.b {
                    self.state = LifeState::Running;
                }
            },
        }
        if self.state == LifeState::Running && self.step >= ROUND / self.speed {
            self.next_generation();
            self.step = 0;
        }
        self.blink_counter = (self.blink_counter + 1) % 20;
        paint_ui(
            &mut self.screen,
            self.state,
            self.pattern_index,
            self.generation,
            self.speed,
        );
        self.step = self.step.saturating_add(1);
    }

    /// Writes the screen to the LED strip and, in draw mode, the cursor:
    /// pink during the second half of its blink cycle, else unchanged.
    pub fn render(&self, leds: &mut [Rgb; 256])
        requires
            self.wf(),
        ensures
            forall|x: int, y: int|
                in_screen(x, y) && !(self.state == LifeState::DrawMode && x == self.cursor_x && y
                    == self.cursor_y) ==> final(leds)@[#[trigger] strip_index(x, y)] == palette(
                    self.screen@[cell_index(x, y)] as int % 10,
                ),
            self.state == LifeState::DrawMode && self.blink_counter / 2 > 5 ==> final(leds)@[strip_index(
                self.cursor_x as int,
                self.cursor_y as int,
            )] == palette(PINK_IDX as int),
    {
        self.screen.render(leds);
        if self.state == LifeState::DrawMode {
            proof {
                let b = self.blink_counter;
                assert(b >> 1u8 == b / 2) by (bit_vector);
            }
            let color = if self.blink_counter >> 1u8 > 5 {
                PINK_IDX
            } else {
                get_pixel(leds, self.cursor_x, self.cursor_y)
            };
            set_pixel(leds, self.cursor_x, self.cursor_y, color);
        }
    }
}

/// Draws the status rows: rows 0 to 4 show a pause sign, a pencil, or the
/// pattern number and generation progress; row 5 is a pink line with
/// brick marks at the even columns below `2 * speed`.
fn paint_ui(screen: &mut FrameBuffer, state: LifeState, pattern_index: usize, generation: u32, speed: u8)
    requires
        pattern_index < PATTERN_COUNT,
        1 <= speed <= 4,
    ensures
        final(screen)@.len() == SCREEN_SIZE,
        forall|i: int|
            FIELD_TOP * SCREEN_WIDTH <= i < SCREEN_SIZE ==> #[trigger] final(screen)@[i] == old(
                screen,
            )@[i],
        forall|x: int|
            0 <= x < SCREEN_WIDTH ==> #[trigger] final(screen)@[cell_index(x, 5)] == if x % 2 == 0
                && x < 2 * speed {
                BRICK_IDX
            } else {
                PINK_IDX
            },
{
    proof {
        screen.lemma_len();
    }
    let mut x: usize = 0;
    while x < SCREEN_WIDTH
        invariant
            x <= SCREEN_WIDTH,
            screen@.len() == SCREEN_SIZE,
            forall|i: int|
                FIELD_TOP * SCREEN_WIDTH <= i < SCREEN_SIZE ==> #[trigger] screen@[i] == old(
                    screen,
                )@[i],
        decreases SCREEN_WIDTH - x,
    {
        let mut y: usize = 0;
        while y < 5
            invariant
                x < SCREEN_WIDTH,
                y <= 5,
                screen@.len() == SCREEN_SIZE,
                forall|i: int|
                    FIELD_TOP * SCREEN_WIDTH <= i < SCREEN_SIZE ==> #[trigger] screen@[i] == old(
                        screen,
                    )@[i],
            decreases 5 - y,
        {
            screen.set(x, y, BLACK_IDX);
            y = y + 1;
        }
        x = x + 1;
    }
    match state {
        LifeState::Paused => {
            let mut y: usize = 1;
            while y <= 3
                invariant
                    1 <= y <= 4,
                    screen@.len() == SCREEN_SIZE,
                    forall|i: int|
                        FIELD_TOP * SCREEN_WIDTH <= i < SCREEN_SIZE ==> #[trigger] screen@[i]
                            == old(screen)@[i],
                decreases 4 - y,
            {
                screen.set(2, y, YELLOW_IDX);
                screen.set(4, y, YELLOW_IDX);
                y = y + 1;
            }
        },
        LifeState::DrawMode => {
            screen.set(1, 1, PINK_IDX);
            screen.set(2, 2, PINK_IDX);
            screen.set(3, 3, PINK_IDX);
            screen.set(4, 4, PINK_IDX);
        },
        LifeState::Running => {
            let mut i: usize = 0;
            while i < pattern_index
                invariant
                    i <= pattern_index < PATTERN_COUNT,
                    screen@.len() == SCREEN_SIZE,
                    forall|k: int|
                        FIELD_TOP * SCREEN_WIDTH <= k < SCREEN_SIZE ==> #[trigger] screen@[k]
                            == old(screen)@[k],
                decreases pattern_index - i,
            {
                screen.set(i % SCREEN_WIDTH, i / SCREEN_WIDTH, GREEN_IDX);
                i = i + 1;
            }
            let mut available_row = pattern_index / SCREEN_WIDTH;
            if pattern_index % SCREEN_WIDTH > 0 {
                available_row = available_row + 1;
            }
            if available_row < 5 {
                let progress = ((generation / 10) % SCREEN_WIDTH as u32) as usize;
                let mut k: usize = 0;
                while k < progress
                    invariant
                        k <= progress < SCREEN_WIDTH,
                        available_row < 5,
                        screen@.len() == SCREEN_SIZE,
                        forall|j: int|
                            FIELD_TOP * SCREEN_WIDTH <= j < SCREEN_SIZE ==> #[trigger] screen@[j]
                                == old(screen)@[j],
                    decreases progress - k,
                {
                    screen.set(k, available_row, YELLOW_IDX);
                    k = k + 1;
                }
            }
        },
    }
    let ghost before = screen@;
    let mut x: usize = 0;
    while x < SCREEN_WIDTH
        invariant
            x <= SCREEN_WIDTH,
            1 <= speed <= 4,
            screen@.len() == SCREEN_SIZE,
            forall|i: int|
                FIELD_TOP * SCREEN_WIDTH <= i < SCREEN_SIZE ==> #[trigger] screen@[i] == old(
                    screen,
                )@[i],
            forall|k: int|
                0 <= k < x ==> #[trigger] screen@[cell_index(k, 5)] == if k % 2 == 0 && k < 2
                    * speed {
                    BRICK_IDX
                } else {
                    PINK_IDX
                },
        decreases SCREEN_WIDTH - x,
    {
        if x % 2 == 0 && x < 2 * speed as usize {
            screen.set(x, 5, BRICK_IDX);
        } else {
            screen.set(x, 5, PINK_IDX);
        }
        x = x + 1;
    }
}

} // verus!
