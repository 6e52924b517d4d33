use crate::common::{
    lcg_output, lcg_step, sign,
    cell_index, in_screen, wrap_axis, Dot, FrameBuffer, Prng, DARK_GREEN_IDX, GREEN_IDX,
    LIGHT_GREEN_IDX, PINK_IDX, RED_IDX, SCREEN_HEIGHT, SCREEN_WIDTH,
};
use crate::common::{drawn, SCREEN_SIZE};
use crate::tetris::{digit_figure, paint_score, with_line, DIVIDER_ROW};
use vstd::prelude::*;
use vstd::seq_lib::seq_to_set_is_finite;
use vstd::set_lib::{lemma_int_range, lemma_len_subset, set_int_range};

verus! {

/// Slots of the body array.
pub const BODY_SLOTS: usize = 256;

/// Longest the snake grows: the capacity of the body array.
pub const MAX_LEN: usize = BODY_SLOTS;

/// Cells of the field, where the apple may lie (rows 6 to 31).
pub const FIELD_CELLS: usize = 208;

/// The snake moves once this many pace points have accumulated.
pub const STEP_THRESHOLD: u8 = 30;

/// First row the apple may appear on (rows above hold the score).
pub const APPLE_TOP: u8 = 6;

/// How many random cells are tried for the apple before the field is
/// searched in order.
pub const APPLE_TRIES: u32 = 1024;

/// A unit step along one axis.
pub open spec fn is_unit(d: Dot) -> bool {
    (d.x == 0 && (d.y == 1 || d.y == -1)) || (d.y == 0 && (d.x == 1 || d.x == -1))
}

pub open spec fn on_screen(d: Dot) -> bool {
    in_screen(d.x as int, d.y as int)
}

/// Whether `d` is one of the first `len` cells of `body`.
pub open spec fn on_body(body: Seq<Dot>, len: int, d: Dot) -> bool {
    exists|i: int| 0 <= i < len && body[i] == d
}

/// Every cell where the apple may lie is covered by the body.
pub open spec fn field_covered(body: Seq<Dot>, len: int) -> bool {
    forall|x: int, y: int|
        0 <= x < SCREEN_WIDTH && APPLE_TOP <= y < SCREEN_HEIGHT ==> #[trigger] on_body(
            body,
            len,
            Dot { x: x as i8, y: y as i8 },
        )
}

/// Moves each of the first `len` cells of `body` one slot back, dropping
/// the last; slot 0 keeps its cell.
fn shift_body(body: &mut [Dot; 256], len: usize)
    requires
        1 <= len <= BODY_SLOTS,
    ensures
        forall|k: int|
            0 <= k < BODY_SLOTS ==> #[trigger] final(body)@[k] == if 1 <= k < len {
                old(body)@[k - 1]
            } else {
                old(body)@[k]
            },
{
    let ghost b0 = body@;
    let mut i: usize = len - 1;
    while i > 0
        invariant
            0 <= i < len <= BODY_SLOTS,
            b0 == old(body)@,
            body@.len() == BODY_SLOTS,
            forall|k: int|
                0 <= k < BODY_SLOTS ==> #[trigger] body@[k] == if i < k < len {
                    b0[k - 1]
                } else {
                    b0[k]
                },
        decreases i,
    {
        body[i] = body[i - 1];
        i = i - 1;
    }
}

/// The colour of body cell `i` of a body of `len` cells: the head light
/// green, the tail dark green, the rest green.
pub open spec fn segment_color(i: int, len: int) -> u8 {
    if i == 0 {
        LIGHT_GREEN_IDX
    } else if i == len - 1 {
        DARK_GREEN_IDX
    } else {
        GREEN_IDX
    }
}

pub open spec fn dot_cell(d: Dot) -> int {
    cell_index(d.x as int, d.y as int)
}

/// `s1` is `s0` with the first `len` cells of `body` painted in order.
pub open spec fn body_painted(s0: Seq<u8>, s1: Seq<u8>, body: Seq<Dot>, len: int) -> bool {
    &&& s1.len() == s0.len()
    &&& forall|i: int|
        0 <= i < len && (forall|j: int| i < j < len ==> body[j] != body[i]) ==> s1[#[trigger] dot_cell(
            body[i],
        )] == segment_color(i, len)
    &&& forall|c: int|
        0 <= c < SCREEN_SIZE && (forall|j: int| 0 <= j < len ==> dot_cell(body[j]) != c)
            ==> #[trigger] s1[c] == s0[c]
}

#[verifier::rlimit(80)]
fn paint_body(screen: &mut FrameBuffer, body: &[Dot; 256], len: usize)
    requires
        1 <= len <= MAX_LEN,
        forall|i: int| 0 <= i < BODY_SLOTS ==> on_screen(#[trigger] body@[i]),
    ensures
        body_painted(old(screen)@, final(screen)@, body@, len as int),
{
    let ghost s0 = screen@;
    proof {
        screen.lemma_len();
    }
    let mut i: usize = 0;
    while i < len
        invariant
            i <= len <= MAX_LEN,
            forall|i: int| 0 <= i < BODY_SLOTS ==> on_screen(#[trigger] body@[i]),
            s0 == old(screen)@,
            s0.len() == SCREEN_SIZE,
            screen@.len() == SCREEN_SIZE,
            forall|k: int|
                0 <= k < i && (forall|j: int| k < j < i ==> body@[j] != body@[k]) ==> screen@[
                #[trigger] dot_cell(body@[k])] == segment_color(k, len as int),
            forall|c: int|
                0 <= c < SCREEN_SIZE && (forall|j: int| 0 <= j < i ==> dot_cell(body@[j]) != c)
                    ==> #[trigger] screen@[c] == s0[c],
        decreases len - i,
    {
        let dot = body[i];
        let color = if i == 0 {
            LIGHT_GREEN_IDX
        } else if i == len - 1 {
            DARK_GREEN_IDX
        } else {
            GREEN_IDX
        };
        assert(on_screen(body@[i as int]));
        screen.set(dot.x as usize, dot.y as usize, color);
        proof {
            assert forall|k: int|
                0 <= k < i + 1 && (forall|j: int| k < j < i + 1 ==> body@[j] != body@[k]) implies screen@[
            #[trigger] dot_cell(body@[k])] == segment_color(k, len as int) by {
                if k < i {
                    assert(body@[i as int] != body@[k]);
                }
            }
        }
        i = i + 1;
    }
}

/// The header over `v`: `score` (below 100) as two digits, the tens at
/// column 0 and the ones at column `ones_x`, then the pink divider.
pub open spec fn with_score_at(v: Seq<u8>, score: int, ones_x: int) -> Seq<u8> {
    with_line(
        drawn(
            drawn(v, 0, 0, digit_figure(score / 10), GREEN_IDX),
            ones_x,
            0,
            digit_figure(score % 10),
            GREEN_IDX,
        ),
        DIVIDER_ROW as int,
        PINK_IDX,
    )
}

/// A body of fewer than 208 cells cannot cover the 208 cells of the field.
pub proof fn lemma_field_not_covered(body: Seq<Dot>, len: int)
    requires
        0 <= len < FIELD_CELLS,
        len <= body.len(),
    ensures
        !field_covered(body, len),
{
    let cells = body.subrange(0, len).map_values(|d: Dot| dot_cell(d));
    cells.lemma_cardinality_of_set();
    seq_to_set_is_finite(cells);
    lemma_int_range(48, 256);
    if field_covered(body, len) {
        assert forall|c: int| #[trigger] set_int_range(48, 256).contains(c) implies cells.to_set().contains(c) by {
            let x = c % 8;
            let y = c / 8;
            assert(on_body(body, len, Dot { x: x as i8, y: y as i8 }));
            let i = choose|i: int| 0 <= i < len && body[i] == Dot { x: x as i8, y: y as i8 };
            assert(cells[i] == c);
        }
        lemma_len_subset(set_int_range(48, 256), cells.to_set());
    }
}

/// The cell that one apple draw from generator state `s` gives: the column
/// from the first byte modulo 8, the row from the second modulo 32, raised
/// to the field.
pub open spec fn apple_candidate(s: u32) -> Dot {
    let s1 = lcg_step(s);
    let s2 = lcg_step(s1);
    let raw_y = lcg_output(s2) as int % 32;
    Dot {
        x: (lcg_output(s1) as int % 8) as i8,
        y: (if raw_y < APPLE_TOP {
            APPLE_TOP as int
        } else {
            raw_y
        }) as i8,
    }
}

/// Up to `tries` apple draws from state `s`: the first cell off the body,
/// if any, and the generator state after the draws made.
#[verifier::opaque]
pub open spec fn apple_draw(body: Seq<Dot>, len: int, s: u32, tries: nat) -> (Option<Dot>, u32)
    decreases tries,
{
    if tries == 0 {
        (None, s)
    } else {
        let c = apple_candidate(s);
        let next = lcg_step(lcg_step(s));
        if !on_body(body, len, c) {
            (Some(c), next)
        } else {
            apple_draw(body, len, next, (tries - 1) as nat)
        }
    }
}

fn on_body_exec(body: &[Dot; 256], len: usize, d: Dot) -> (r: bool)
    requires
        len <= BODY_SLOTS,
    ensures
        r == on_body(body@, len as int, d),
{
    let mut i: usize = 0;
    while i < len
        invariant
            i <= len <= BODY_SLOTS,
            forall|k: int| 0 <= k < i ==> body@[k] != d,
        decreases len - i,
    {
        if body[i] == d {
            return true;
        }
        i = i + 1;
    }
    false
}

/// Up to `APPLE_TRIES` random apple cells, stopping at the first one off
/// the body.
fn draw_apple(prng: &mut Prng, body: &[Dot; 256], len: usize) -> (r: Option<Dot>)
    requires
        len <= BODY_SLOTS,
    ensures
        (r, final(prng)@) == apple_draw(body@, len as int, old(prng)@, APPLE_TRIES as nat),
        r matches Some(a) ==> on_screen(a) && APPLE_TOP <= a.y && !on_body(body@, len as int, a),
{
    let mut tries: u32 = 0;
    while tries < APPLE_TRIES
        invariant
            len <= BODY_SLOTS,
            tries <= APPLE_TRIES,
            apple_draw(body@, len as int, old(prng)@, APPLE_TRIES as nat) == apple_draw(
                body@,
                len as int,
                prng@,
                (APPLE_TRIES - tries) as nat,
            ),
        decreases APPLE_TRIES - tries,
    {
        proof {
            reveal(apple_draw);
        }
        let ghost s_before = prng@;
        let x = prng.next_range(SCREEN_WIDTH as u8) as i8;
        let raw_y = prng.next_range(SCREEN_HEIGHT as u8);
        let y = if raw_y < APPLE_TOP {
            APPLE_TOP
        } else {
            raw_y
        } as i8;
        let candidate = Dot::new(x, y);
        assert(candidate == apple_candidate(s_before));
        if !on_body_exec(body, len, candidate) {
            return Some(candidate);
        }
        tries = tries + 1;
    }
    proof {
        reveal(apple_draw);
    }
    None
}

/// The first field cell, row by row, that the body does not cover; the
/// field's first cell when it covers them all.
fn first_free_cell(body: &[Dot; 256], len: usize) -> (d: Dot)
    requires
        len <= BODY_SLOTS,
    ensures
        on_screen(d),
        APPLE_TOP <= d.y,
        !on_body(body@, len as int, d) || field_covered(body@, len as int),
{
    let mut y: i8 = APPLE_TOP as i8;
    while y < SCREEN_HEIGHT as i8
        invariant
            APPLE_TOP <= y <= SCREEN_HEIGHT,
            len <= BODY_SLOTS,
            forall|xx: int, yy: int|
                0 <= xx < SCREEN_WIDTH && APPLE_TOP <= yy < y ==> #[trigger] on_body(
                    body@,
                    len as int,
                    Dot { x: xx as i8, y: yy as i8 },
                ),
        decreases SCREEN_HEIGHT - y,
    {
        let mut x: i8 = 0;
        while x < SCREEN_WIDTH as i8
            invariant
                APPLE_TOP <= y < SCREEN_HEIGHT,
                0 <= x <= SCREEN_WIDTH,
                len <= BODY_SLOTS,
                forall|xx: int, yy: int|
                    0 <= xx < SCREEN_WIDTH && APPLE_TOP <= yy < y ==> #[trigger] on_body(
                        body@,
                        len as int,
                        Dot { x: xx as i8, y: yy as i8 },
                    ),
                forall|xx: int|
                    0 <= xx < x ==> #[trigger] on_body(body@, len as int, Dot { x: xx as i8, y: y }),
            decreases SCREEN_WIDTH - x,
        {
            let candidate = Dot::new(x, y);
            if !on_body_exec(body, len, candidate) {
                return candidate;
            }
            x = x + 1;
        }
        y = y + 1;
    }
    assert(field_covered(body@, len as int));
    Dot::new(0, APPLE_TOP as i8)
}

/// One move of the snake from `s0` to `s1` (see `move_forward`); the
/// screen and the pace counter are not part of it.
pub open spec fn snake_moved(s0: SnakeGame, s1: SnakeGame, alive: bool) -> bool {
    let head = head_after(s0.body@[0], heading_of(s0.direction, s0.next_direction));
    &&& s1.direction == heading_of(s0.direction, s0.next_direction)
    &&& s1.next_direction == s0.next_direction
    &&& alive == !on_body(s0.body@, s0.body_len as int, head)
    &&& !alive ==> {
        &&& s1.body == s0.body
        &&& s1.body_len == s0.body_len
        &&& s1.apple == s0.apple
        &&& s1.score == s0.score
        &&& s1.prng == s0.prng
    }
    &&& alive ==> {
        &&& s1.body@[0] == head
        &&& forall|i: int| 1 <= i < s0.body_len ==> #[trigger] s1.body@[i] == s0.body@[i - 1]
    }
    &&& alive && head == s0.apple ==> {
        &&& s1.body_len == if s0.body_len < MAX_LEN {
            s0.body_len + 1
        } else {
            s0.body_len as int
        }
        &&& s1.score == (s0.score + 1) % 256
        &&& APPLE_TOP <= s1.apple.y
        &&& ({
            let (drawn_apple, state) = apple_draw(s1.body@, s1.body_len as int, s0.prng@, APPLE_TRIES as nat);
            &&& s1.prng@ == state
            &&& drawn_apple matches Some(a) ==> s1.apple == a
        })
        &&& !on_body(s1.body@, s1.body_len as int, s1.apple) || field_covered(
            s1.body@,
            s1.body_len as int,
        )
        &&& s1.body_len < FIELD_CELLS ==> !on_body(s1.body@, s1.body_len as int, s1.apple)
    }
    &&& alive && head != s0.apple ==> {
        &&& s1.body_len == s0.body_len
        &&& s1.score == s0.score
        &&& s1.apple == s0.apple
        &&& s1.prng == s0.prng
    }
}

/// Moving onto the apple with a body shorter than the field grows the snake
/// by one cell (up to the body's capacity), scores, and puts the new apple
/// on the field off every body cell; moving onto the body ends the game and
/// leaves body, apple and score as they were.
pub proof fn lemma_snake_move_law(s0: SnakeGame, s1: SnakeGame, alive: bool)
    requires
        s0.wf(),
        s1.wf(),
        snake_moved(s0, s1, alive),
    ensures
        ({
            let head = head_after(s0.body@[0], heading_of(s0.direction, s0.next_direction));
            &&& on_body(s0.body@, s0.body_len as int, head) ==> {
                &&& !alive
                &&& s1.body == s0.body
                &&& s1.body_len == s0.body_len
                &&& s1.apple == s0.apple
                &&& s1.score == s0.score
            }
            &&& !on_body(s0.body@, s0.body_len as int, head) && head == s0.apple
                && s0.body_len + 1 < FIELD_CELLS ==> {
                &&& alive
                &&& s1.body_len == if s0.body_len < MAX_LEN {
                    s0.body_len + 1
                } else {
                    s0.body_len as int
                }
                &&& s1.body@[0] == head
                &&& forall|i: int| 1 <= i < s0.body_len ==> #[trigger] s1.body@[i] == s0.body@[i - 1]
                &&& s1.score == (s0.score + 1) % 256
                &&& !on_body(s1.body@, s1.body_len as int, s1.apple)
                &&& APPLE_TOP <= s1.apple.y < SCREEN_HEIGHT
                &&& 0 <= s1.apple.x < SCREEN_WIDTH
            }
        }),
{
}

/// The heading taken from `direction` when `requested` is asked for: the
/// request, unless it is the exact reverse.
pub open spec fn heading_of(direction: Dot, requested: Dot) -> Dot {
    if direction.x + requested.x == 0 && direction.y + requested.y == 0 {
        direction
    } else {
        requested
    }
}

/// The cell after `head` along `d`, wrapping at every edge.
pub open spec fn head_after(head: Dot, d: Dot) -> Dot {
    Dot {
        x: wrap_axis(head.x + d.x, SCREEN_WIDTH as int) as i8,
        y: wrap_axis(head.y + d.y, SCREEN_HEIGHT as int) as i8,
    }
}

/// The unit step that a stick reading asks for (see `Dot::to_direction`).
pub open spec fn stick_direction(x: i8, y: i8) -> Dot {
    Dot {
        x: (if x != 0 && y != 0 {
            0
        } else {
            sign(x as int)
        }) as i8,
        y: sign(y as int) as i8,
    }
}

/// What the snake does on one move.
pub enum Tick {
    /// Not yet time to move.
    Idle,
    /// The snake moved; the frame should be redrawn.
    Moved,
    /// The snake ran into itself.
    Over,
}

/// The snake game: a body of cells with the head first, a heading, the
/// heading asked for next, and an apple.
pub struct SnakeGame {
    pub screen: FrameBuffer,
    pub body: [Dot; 256],
    pub body_len: usize,
    pub direction: Dot,
    pub next_direction: Dot,
    pub apple: Dot,
    pub prng: Prng,
    pub score: u8,
    pub step: u8,
}

impl SnakeGame {
    pub open spec fn wf(&self) -> bool {
        &&& 1 <= self.body_len <= MAX_LEN
        &&& forall|i: int| 0 <= i < BODY_SLOTS ==> on_screen(#[trigger] self.body@[i])
        &&& is_unit(self.direction)
        &&& is_unit(self.next_direction)
        &&& on_screen(self.apple)
        &&& APPLE_TOP <= self.apple.y
        &&& self.step < 64
    }

    /// A snake of three cells on row 15, heading right, and an apple off it.
    pub fn new(prng: Prng) -> (g: SnakeGame)
        ensures
            g.wf(),
            g.body_len == 3,
            g.body@[0] == (Dot { x: 3, y: 15 }),
            g.body@[1] == (Dot { x: 2, y: 15 }),
            g.body@[2] == (Dot { x: 1, y: 15 }),
            g.direction == (Dot { x: 1, y: 0 }),
            g.score == 0,
            !on_body(g.body@, 3, g.apple),
    {
        let mut game = SnakeGame {
            screen: FrameBuffer::new(),
            body: [Dot::new(0, 0); 256],
            body_len: 3,
            direction: Dot::new(1, 0),
            next_direction: Dot::new(1, 0),
            apple: Dot::new(0, 0),
            prng,
            score: 0,
            step: STEP_THRESHOLD,
        };
        game.body[0] = Dot::new(3, 15);
        game.body[1] = Dot::new(2, 15);
        game.body[2] = Dot::new(1, 15);
        game.respawn_apple();
        proof {
            let b = game.body@;
            assert(!on_body(b, 3, Dot { x: 0int as i8, y: 6int as i8 }));
        }
        game
    }

    /// Moves the apple to a random cell of the field that the body does not
    /// cover; the column is drawn first, then the row (raised to the field).
    /// After a long run of covered draws the field is searched in order.
    pub fn respawn_apple(&mut self)
        requires
            1 <= old(self).body_len <= MAX_LEN,
            forall|i: int| 0 <= i < BODY_SLOTS ==> on_screen(#[trigger] old(self).body@[i]),
        ensures
            final(self).body == old(self).body,
            final(self).body_len == old(self).body_len,
            final(self).direction == old(self).direction,
            final(self).next_direction == old(self).next_direction,
            final(self).score == old(self).score,
            final(self).step == old(self).step,
            on_screen(final(self).apple),
            APPLE_TOP <= final(self).apple.y,
            ({
                let (drawn_apple, state) = apple_draw(
                    old(self).body@,
                    old(self).body_len as int,
                    old(self).prng@,
                    APPLE_TRIES as nat,
                );
                &&& final(self).prng@ == state
                &&& drawn_apple matches Some(a) ==> final(self).apple == a
            }),
            !on_body(final(self).body@, final(self).body_len as int, final(self).apple)
                || field_covered(final(self).body@, final(self).body_len as int),
    {
        match draw_apple(&mut self.prng, &self.body, self.body_len) {
            Some(a) => {
                self.apple = a;
            },
            None => {
                self.apple = first_free_cell(&self.body, self.body_len);
            },
        }
    }

    /// The heading the snake takes on its next move: the requested one,
    /// unless it would reverse the snake.
    pub open spec fn heading(&self) -> Dot {
        heading_of(self.direction, self.next_direction)
    }

    /// Where the head goes on the next move, wrapping at every edge.
    pub open spec fn next_head(&self) -> Dot {
        head_after(self.body@[0], self.heading())
    }

    /// Moves the snake one cell. Running into its own body ends the game
    /// (`false`) and leaves the body as it was. Eating the apple grows the
    /// body by one cell (up to the body's capacity), scores (the score
    /// wraps past 255), and draws a new apple off the body.
    pub fn move_forward(&mut self) -> (alive: bool)
        requires
            old(self).wf(),
        ensures
            final(self).wf(),
            final(self).step == old(self).step,
            snake_moved(*old(self), *final(self), alive),
        {
        if !self.direction.is_opposite(&self.next_direction) {
            self.direction = self.next_direction;
        }
        let head = self.body[0];
        let new_head = head.move_wrap(self.direction);
        if on_body_exec(&self.body, self.body_len, new_head) {
            return false;
        }
        shift_body(&mut self.body, self.body_len);
        self.body[0] = new_head;
        if new_head == self.apple {
            if self.body_len < MAX_LEN {
                self.body_len = self.body_len + 1;
                self.body[self.body_len - 1] = self.body[self.body_len - 2];
            }
            self.score = self.score.wrapping_add(1);
            self.respawn_apple();
            proof {
                if self.body_len < FIELD_CELLS {
                    lemma_field_not_covered(self.body@, self.body_len as int);
                }
            }
        }
        true
    }

    /// Reads the joystick each frame and moves the snake once enough pace
    /// points have accumulated: 5 per frame while the stick points the way
    /// the snake heads, 1 otherwise, plus a tenth of the score.
    pub fn tick(&mut self, x_input: i8, y_input: i8) -> (t: Tick)
        requires
            old(self).wf(),
        ensures
            final(self).wf(),
            ({
                let d = stick_direction(x_input, y_input);
                let requested = if d.x == 0 && d.y == 0 {
                    old(self).next_direction
                } else {
                    d
                };
                let speed = (if old(self).direction == d {
                    5int
                } else {
                    1int
                }) + old(self).score / 10;
                let heading = heading_of(old(self).direction, requested);
                let head = head_after(old(self).body@[0], heading);
                &&& final(self).next_direction == requested
                &&& old(self).step < STEP_THRESHOLD ==> {
                    &&& t is Idle
                    &&& final(self).step == old(self).step + speed
                    &&& final(self).body == old(self).body
                    &&& final(self).body_len == old(self).body_len
                    &&& final(self).apple == old(self).apple
                    &&& final(self).direction == old(self).direction
                    &&& final(self).score == if old(self).score > 99 {
                        0
                    } else {
                        old(self).score as int
                    }
                }
                &&& old(self).step >= STEP_THRESHOLD ==> {
                    &&& !(t is Idle)
                    &&& (t is Over) == on_body(old(self).body@, old(self).body_len as int, head)
                    &&& exists|mid: SnakeGame|
                        {
                            &&& mid.body == old(self).body
                            &&& mid.body_len == old(self).body_len
                            &&& mid.apple == old(self).apple
                            &&& mid.direction == old(self).direction
                            &&& mid.next_direction == requested
                            &&& mid.prng == old(self).prng
                            &&& mid.score == if old(self).score > 99 {
                                0
                            } else {
                                old(self).score
                            }
                            &&& snake_moved(mid, *final(self), t is Moved)
                        }
                    &&& t is Moved ==> {
                        &&& final(self).step == speed
                        &&& final(self).screen@[cell_index(
                            final(self).apple.x as int,
                            final(self).apple.y as int,
                        )] == RED_IDX
                    }
                }
            }),
    {
        let direction = Dot::new(x_input, y_input).to_direction();
        if !direction.is_zero() {
            self.next_direction = direction;
        }
        let mut speedup: u8 = if self.direction == direction {
            5
        } else {
            1
        };
        speedup = speedup + self.score / 10;
        if self.score > 99 {
            self.score = 0;
        }
        let mut result = Tick::Idle;
        if self.step >= STEP_THRESHOLD {
            self.step = 0;
            let ghost mid = *self;
            if !self.move_forward() {
                return Tick::Over;
            }
            let ghost moved = *self;
            self.draw_frame();
            assert(snake_moved(mid, *self, true)) by {
                assert(snake_moved(mid, moved, true));
            }
            result = Tick::Moved;
        }
        self.step = self.step + speedup;
        result
    }

    /// Paints the body; where cells repeat, the one nearer the tail wins.
    pub fn draw_snake(&mut self)
        requires
            old(self).wf(),
        ensures
            final(self).body == old(self).body,
            final(self).body_len == old(self).body_len,
            body_painted(old(self).screen@, final(self).screen@, old(self).body@, old(self).body_len as int),
            final(self).score == old(self).score,
            final(self).apple == old(self).apple,
            final(self).direction == old(self).direction,
            final(self).next_direction == old(self).next_direction,
            final(self).step == old(self).step,
            final(self).prng == old(self).prng,
    {
        paint_body(&mut self.screen, &self.body, self.body_len);
    }

    /// The score as two digits at columns 0 and 4, and the divider line.
    pub fn draw_score(&mut self)
        ensures
            final(self).screen@ == with_score_at(old(self).screen@, old(self).score as int % 100, 4),
            final(self).body == old(self).body,
            final(self).body_len == old(self).body_len,
            final(self).score == old(self).score,
            final(self).apple == old(self).apple,
            final(self).direction == old(self).direction,
            final(self).next_direction == old(self).next_direction,
            final(self).step == old(self).step,
            final(self).prng == old(self).prng,
    {
        paint_score(&mut self.screen, self.score % 100, 4, true);
    }

    /// A fresh frame: the score, the snake and the apple.
    pub fn draw_frame(&mut self)
        requires
            old(self).wf(),
        ensures
            final(self).body == old(self).body,
            final(self).body_len == old(self).body_len,
            final(self).score == old(self).score,
            final(self).apple == old(self).apple,
            final(self).direction == old(self).direction,
            final(self).next_direction == old(self).next_direction,
            final(self).step == old(self).step,
            final(self).prng == old(self).prng,
            final(self).screen@[cell_index(old(self).apple.x as int, old(self).apple.y as int)]
                == RED_IDX,
    {
        self.screen.clear();
        self.draw_score();
        self.draw_snake();
        self.screen.set(self.apple.x as usize, self.apple.y as usize, RED_IDX);
    }
}

} // verus!
