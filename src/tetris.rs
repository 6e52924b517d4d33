use crate::common::{
    cell_index, collides_at, drawn, lcg_output, lcg_step, row_full, FrameBuffer, Prng,
    BLACK_IDX, BLUE_IDX, BRICK_IDX, GREEN_IDX, LIGHT_BLUE_IDX, PINK_IDX, RED_IDX, SCREEN_HEIGHT,
    SCREEN_SIZE, SCREEN_WIDTH, YELLOW_IDX,
};
use crate::digits::{digit_data, Digits, DIGIT_WH};
use crate::figure::{lemma_pixels_determine, tetramino_data, Figure, Tetramino};
use vstd::prelude::*;

verus! {

/// Spawn column of a new piece.
pub const INIT_X: i8 = 3;

/// Spawn row of a new piece: the first row of the play field.
pub const INIT_Y: i8 = 6;

/// Once the falling piece is below this row, the next piece is previewed at
/// the spawn point.
pub const RESPAWN_THRESHOLD: i8 = 11;

/// Gravity moves the piece one row down each time this many pace points
/// have accumulated.
pub const GRAVITY_INTERVAL: i8 = 10;

/// Pace points added per tick while the player holds "down".
pub const DOWN_BONUS: i8 = 10;

/// First row of the play field; rows above hold the score and a divider.
pub const FIELD_TOP: usize = 6;

/// Row of the divider line under the score.
pub const DIVIDER_ROW: usize = 5;

/// The palette colour of tetromino `idx`.
pub open spec fn tetramino_color_spec(idx: u8) -> u8 {
    if idx == 0 {
        LIGHT_BLUE_IDX
    } else if idx == 1 {
        YELLOW_IDX
    } else if idx == 2 {
        PINK_IDX
    } else if idx == 3 {
        GREEN_IDX
    } else if idx == 4 {
        RED_IDX
    } else if idx == 5 {
        BLUE_IDX
    } else if idx == 6 {
        BRICK_IDX
    } else {
        RED_IDX
    }
}

pub fn tetramino_color(idx: u8) -> (c: u8)
    ensures
        c == tetramino_color_spec(idx),
{
    match idx {
        0 => LIGHT_BLUE_IDX,
        1 => YELLOW_IDX,
        2 => PINK_IDX,
        3 => GREEN_IDX,
        4 => RED_IDX,
        5 => BLUE_IDX,
        6 => BRICK_IDX,
        _ => RED_IDX,
    }
}

/// The figure of the decimal digit `d`.
pub open spec fn digit_figure(d: int) -> Figure {
    Figure { data: digit_data(d), wh: DIGIT_WH }
}

/// The figure of tetromino `i`.
pub open spec fn tetramino_figure(i: int) -> Figure {
    Figure { data: tetramino_data(i).0, wh: tetramino_data(i).1 }
}

/// The cells `v` with a full-width line in `color` on row `row`.
pub open spec fn with_line(v: Seq<u8>, row: int, color: u8) -> Seq<u8> {
    Seq::new(
        SCREEN_SIZE as nat,
        |i: int|
            if i / SCREEN_WIDTH as int == row {
                color
            } else {
                v[i]
            },
    )
}

/// The header drawn over `v` for a score below 100: the tens digit at
/// column 0, the ones digit at column 5, and the pink divider.
pub open spec fn with_score(v: Seq<u8>, score: int) -> Seq<u8> {
    with_line(
        drawn(
            drawn(v, 0, 0, digit_figure(score / 10), GREEN_IDX),
            5,
            0,
            digit_figure(score % 10),
            GREEN_IDX,
        ),
        DIVIDER_ROW as int,
        PINK_IDX,
    )
}

/// `v` with row `row` set to background.
pub open spec fn cleared_row(v: Seq<u8>, row: int) -> Seq<u8> {
    Seq::new(
        SCREEN_SIZE as nat,
        |i: int|
            if i / SCREEN_WIDTH as int == row {
                0u8
            } else {
                v[i]
            },
    )
}

/// `v` with the play-field rows above `row` moved one row down onto it and
/// the top field row set to background; the other rows are unchanged.
pub open spec fn shifted_down(v: Seq<u8>, row: int) -> Seq<u8> {
    Seq::new(
        SCREEN_SIZE as nat,
        |i: int|
            if FIELD_TOP < i / SCREEN_WIDTH as int <= row {
                v[i - SCREEN_WIDTH as int]
            } else if i / SCREEN_WIDTH as int == FIELD_TOP {
                0u8
            } else {
                v[i]
            },
    )
}

/// The lowest full row of the play field in `v`, if there is one, is `r`.
pub open spec fn lowest_full_row(v: Seq<u8>, r: int) -> bool {
    &&& FIELD_TOP <= r < SCREEN_HEIGHT
    &&& row_full(v, r)
    &&& forall|k: int| r < k < SCREEN_HEIGHT ==> !#[trigger] row_full(v, k)
}

pub open spec fn no_full_row(v: Seq<u8>) -> bool {
    forall|k: int| FIELD_TOP <= k < SCREEN_HEIGHT ==> !#[trigger] row_full(v, k)
}

/// One tick's horizontal move, from `s0` to `s1` (see `move_horizontal`).
pub open spec fn moved_horizontally(s0: TetrisGame, s1: TetrisGame, x_input: i8) -> bool {
    &&& s1.x == if s0.mpass % 2 == 1 && 0 <= s0.x + x_input < SCREEN_WIDTH && !collides_at(
        s0.concrete@,
        s0.x + x_input,
        s0.y as int,
        s0.curr,
    ) {
        s0.x + x_input
    } else {
        s0.x as int
    }
    &&& s1.mpass == (s0.mpass + 1) % 256
    &&& s1.curr == s0.curr
    &&& s1.y == s0.y
    &&& s1.concrete == s0.concrete
    &&& s1.screen == s0.screen
    &&& s1.score == s0.score
    &&& s1.prng == s0.prng
    &&& s1.next == s0.next
    &&& s1.curr_idx == s0.curr_idx
    &&& s1.next_idx == s0.next_idx
    &&& s1.ipass == s0.ipass
}

/// A rotation attempt, from `s0` to `s1` (see `try_rotate`).
pub open spec fn rotated_if_fits(s0: TetrisGame, s1: TetrisGame) -> bool {
    &&& ({
        let c = s0.curr;
        let shift: int = if c.w() > c.h() && s0.x + c.h() >= SCREEN_WIDTH {
            c.w() - c.h()
        } else {
            0
        };
        let fits = forall|r: Figure|
            #[trigger] r.is_rotation_of(c) ==> !collides_at(
                s0.concrete@,
                s0.x - shift,
                s0.y as int,
                r,
            );
        if fits {
            s1.curr.is_rotation_of(c) && s1.x == s0.x - shift
        } else {
            s1.curr == c && s1.x == s0.x
        }
    })
    &&& s1.y == s0.y
    &&& s1.mpass == s0.mpass
    &&& s1.concrete == s0.concrete
    &&& s1.screen == s0.screen
    &&& s1.score == s0.score
    &&& s1.prng == s0.prng
    &&& s1.next == s0.next
    &&& s1.curr_idx == s0.curr_idx
    &&& s1.next_idx == s0.next_idx
    &&& s1.ipass == s0.ipass
}

/// Settling, from `s0` to `s1`, over the screen `screen_in` (see `settle`).
pub open spec fn settled(s0: TetrisGame, s1: TetrisGame, alive: bool, screen_in: Seq<u8>) -> bool {
    &&& s1.score == s0.score
    &&& s1.ipass == s0.ipass
    &&& s1.mpass == s0.mpass
    &&& ({
        let c = s0.curr;
        let color = tetramino_color_spec(s0.curr_idx);
        let (x, y) = (s0.x as int, s0.y as int);
        if !collides_at(s0.concrete@, x, y, c) {
            &&& alive
            &&& s1.screen@ == drawn(screen_in, x, y, c, color)
            &&& s1.concrete == s0.concrete
            &&& s1.x == s0.x
            &&& s1.y == s0.y
            &&& s1.curr == c
            &&& s1.curr_idx == s0.curr_idx
            &&& s1.next == s0.next
            &&& s1.next_idx == s0.next_idx
            &&& s1.prng == s0.prng
        } else {
            &&& s1.screen@ == drawn(screen_in, x, y - 1, c, color)
            &&& s1.concrete@ == drawn(s0.concrete@, x, y - 1, c, color)
            &&& s1.x == INIT_X
            &&& s1.y == INIT_Y + 1
            &&& alive == !collides_at(s1.concrete@, INIT_X as int, INIT_Y + 1, c)
            &&& alive ==> {
                &&& s1.curr_idx == s0.next_idx
                &&& s1.curr == tetramino_figure(s0.next_idx as int)
                &&& s1.prng@ == lcg_step(s0.prng@)
                &&& s1.next_idx as int == lcg_output(lcg_step(s0.prng@))
                    as int % 7
                &&& s1.next == tetramino_figure(s1.next_idx as int)
            }
            &&& !alive ==> {
                &&& s1.curr == c
                &&& s1.curr_idx == s0.curr_idx
                &&& s1.next == s0.next
                &&& s1.next_idx == s0.next_idx
                &&& s1.prng == s0.prng
            }
        }
    })
}

/// Line clearing, from `s0` to `s1` (see `clear_lines`).
pub open spec fn lines_cleared(s0: TetrisGame, s1: TetrisGame) -> bool {
    &&& ({
        let v = s0.concrete@;
        if s0.mpass % 2 == 0 && !no_full_row(v) {
            exists|r: int|
                lowest_full_row(v, r) && s1.concrete@ == shifted_down(
                    cleared_row(v, r),
                    r,
                )
        } else {
            s1.concrete@ == s0.concrete@
        }
    })
    &&& s1.score == if s0.mpass % 2 == 0 && !no_full_row(s0.concrete@) {
        (s0.score + 1) % 100
    } else {
        s0.score as int
    }
    &&& s1.screen == s0.screen
    &&& s1.prng == s0.prng
    &&& s1.curr == s0.curr
    &&& s1.next == s0.next
    &&& s1.curr_idx == s0.curr_idx
    &&& s1.next_idx == s0.next_idx
    &&& s1.x == s0.x
    &&& s1.y == s0.y
    &&& s1.ipass == s0.ipass
    &&& s1.mpass == s0.mpass
}

/// The screen that a tick builds before settling: the settled layer with
/// the score header, and the next piece at the spawn point once the
/// falling piece is below `RESPAWN_THRESHOLD`.
pub open spec fn frame_base(s: TetrisGame) -> Seq<u8> {
    let base = with_score(s.concrete@, s.score as int % 100);
    if s.y > RESPAWN_THRESHOLD {
        drawn(base, INIT_X as int, INIT_Y as int, s.next, tetramino_color_spec(s.next_idx))
    } else {
        base
    }
}

/// The falling-block game: a settled layer (`concrete`), the falling piece
/// and the preview of the next one, and the score.
pub struct TetrisGame {
    pub screen: FrameBuffer,
    pub concrete: FrameBuffer,
    pub score: u8,
    pub prng: Prng,
    pub x: i8,
    pub y: i8,
    pub ipass: i8,
    pub mpass: u8,
    pub curr_idx: u8,
    pub next_idx: u8,
    pub curr: Figure,
    pub next: Figure,
}

impl TetrisGame {
    /// The state's bounds: a well-formed piece of at most four by four,
    /// a position on the board and counters in range.
    pub open spec fn wf(&self) -> bool {
        &&& self.curr.wf()
        &&& self.next.wf()
        &&& self.curr.w() <= 4
        &&& self.curr.h() <= 4
        &&& 0 <= self.x < SCREEN_WIDTH
        &&& INIT_Y <= self.y <= SCREEN_HEIGHT
        &&& 0 <= self.ipass < GRAVITY_INTERVAL
        &&& self.score <= 99
        &&& self.next_idx < 7
    }

    /// A new game: empty screen and board, score 0, the generator kept as
    /// given; the I piece stands at the spawn point and previews itself
    /// until `start` draws the pieces.
    pub fn new(prng: Prng) -> (g: TetrisGame)
        ensures
            g.wf(),
            g.score == 0,
            g.x == INIT_X && g.y == INIT_Y,
            g.ipass == 0 && g.mpass == 0,
            g.screen@ == Seq::new(SCREEN_SIZE as nat, |i: int| 0u8),
            g.concrete@ == Seq::new(SCREEN_SIZE as nat, |i: int| 0u8),
            g.prng@ == prng@,
            g.curr_idx == 0 && g.next_idx == 0,
            g.curr == tetramino_figure(0),
            g.next == tetramino_figure(0),
    {
        let pieces = Tetramino::standard();
        let first = pieces.wrapping_at(0);
        TetrisGame {
            screen: FrameBuffer::new(),
            concrete: FrameBuffer::new(),
            score: 0,
            prng,
            x: INIT_X,
            y: INIT_Y,
            ipass: 0,
            mpass: 0,
            curr_idx: 0,
            next_idx: 0,
            curr: first,
            next: first,
        }
    }

    /// Starts play: draws the current and then the next piece from the
    /// generator and puts the current one at the spawn point.
    pub fn start(&mut self)
        requires
            old(self).wf(),
        ensures
            final(self).wf(),
            final(self).curr_idx as int == lcg_output(lcg_step(old(self).prng@)) as int % 7,
            final(self).next_idx as int == lcg_output(lcg_step(lcg_step(old(self).prng@))) as int
                % 7,
            final(self).prng@ == lcg_step(lcg_step(old(self).prng@)),
            final(self).curr == tetramino_figure(final(self).curr_idx as int),
            final(self).next == tetramino_figure(final(self).next_idx as int),
            final(self).x == INIT_X && final(self).y == INIT_Y,
            final(self).score == old(self).score,
            final(self).screen == old(self).screen,
            final(self).concrete == old(self).concrete,
            final(self).ipass == old(self).ipass,
            final(self).mpass == old(self).mpass,
    {
        let pieces = Tetramino::standard();
        self.curr_idx = self.prng.next_range(7);
        self.next_idx = self.prng.next_range(7);
        self.curr = pieces.wrapping_at(self.curr_idx);
        self.next = pieces.wrapping_at(self.next_idx);
        self.x = INIT_X;
        self.y = INIT_Y;
    }

    /// Replaces the falling piece by tetromino `idx` (modulo seven) at the
    /// spawn point.
    pub fn spawn_piece(&mut self, idx: u8)
        requires
            old(self).wf(),
        ensures
            final(self).wf(),
            final(self).curr_idx == idx % 7,
            final(self).curr == tetramino_figure(idx as int % 7),
            final(self).x == INIT_X && final(self).y == INIT_Y,
            final(self).score == old(self).score,
            final(self).concrete@ == old(self).concrete@,
            final(self).next == old(self).next,
            final(self).ipass == old(self).ipass,
            final(self).mpass == old(self).mpass,
    {
        let pieces = Tetramino::standard();
        self.curr_idx = idx % 7;
        self.curr = pieces.wrapping_at(idx);
        self.x = INIT_X;
        self.y = INIT_Y;
    }

    /// Draws the score (modulo 100) and the divider over the screen.
    pub fn draw_score(&mut self)
        ensures
            final(self).score == old(self).score % 100,
            final(self).screen@ == with_score(old(self).screen@, old(self).score as int % 100),
            final(self).concrete == old(self).concrete,
            final(self).prng == old(self).prng,
            final(self).curr == old(self).curr,
            final(self).next == old(self).next,
            final(self).curr_idx == old(self).curr_idx,
            final(self).next_idx == old(self).next_idx,
            final(self).x == old(self).x,
            final(self).y == old(self).y,
            final(self).ipass == old(self).ipass,
            final(self).mpass == old(self).mpass,
    {
        self.score = self.score % 100;
        draw_header(&mut self.screen, self.score);
    }

    /// Applies the horizontal input: on every other tick (odd `mpass`) the
    /// piece moves by `x_input` if it stays on the board without colliding.
    pub fn move_horizontal(&mut self, x_input: i8)
        requires
            old(self).wf(),
        ensures
            final(self).wf(),
            moved_horizontally(*old(self), *final(self), x_input),

    {
        let mut new_x: i16 = self.x as i16 + x_input as i16;
        if self.mpass % 2 == 0 {
            new_x = self.x as i16;
        }
        self.mpass = self.mpass.wrapping_add(1);
        if new_x >= 0 && new_x < SCREEN_WIDTH as i16 && !self.concrete.collides(
            new_x as i8,
            self.y,
            &self.curr,
        ) {
            self.x = new_x as i8;
        }
    }

    /// Turns the piece a quarter clockwise if the turned piece fits; a piece
    /// that becomes taller than wide and would stick out on the right is
    /// first moved left by the difference.
    pub fn try_rotate(&mut self)
        requires
            old(self).wf(),
        ensures
            final(self).wf(),
            rotated_if_fits(*old(self), *final(self)),

    {
        let rotated = self.curr.rotate();
        proof {
            lemma_rotation_unique(rotated, self.curr);
        }
        let rw = rotated.width();
        let rh = rotated.height();
        let shift: i8 = if rh > rw && self.x + rw as i8 >= SCREEN_WIDTH as i8 {
            (rh - rw) as i8
        } else {
            0
        };
        if !self.concrete.collides(self.x - shift, self.y, &rotated) {
            self.curr = rotated;
            self.x = self.x - shift;
        }
    }

    /// Draws the falling piece at its place on the screen; if it collides
    /// there, it settles one row higher into the settled layer and the next
    /// piece spawns. Returns `false` (game over) when the spawn point is
    /// blocked for the settled piece, leaving it at the spawn point.
    pub fn settle(&mut self) -> (alive: bool)
        requires
            old(self).wf(),
        ensures
            final(self).wf(),
            settled(*old(self), *final(self), alive, old(self).screen@),

    {
        let curr_color = tetramino_color(self.curr_idx);
        if !self.concrete.collides(self.x, self.y, &self.curr) {
            self.screen.draw_figure(self.x, self.y, &self.curr, curr_color);
            return true;
        }
        self.screen.draw_figure(self.x, self.y - 1, &self.curr, curr_color);
        self.concrete.draw_figure(self.x, self.y - 1, &self.curr, curr_color);
        self.x = INIT_X;
        self.y = INIT_Y + 1;
        if self.concrete.collides(self.x, self.y, &self.curr) {
            return false;
        }
        let pieces = Tetramino::standard();
        self.curr_idx = self.next_idx;
        self.next_idx = self.prng.next_range(7);
        self.curr = pieces.wrapping_at(self.curr_idx);
        self.next = pieces.wrapping_at(self.next_idx);
        true
    }

    /// On every other tick (even `mpass`), removes the lowest full row of
    /// the play field, moves the rows above it down, and scores a point;
    /// the score wraps from 99 to 0.
    pub fn clear_lines(&mut self)
        requires
            old(self).wf(),
        ensures
            final(self).wf(),
            lines_cleared(*old(self), *final(self)),

    {
        let ghost v = self.concrete@;
        if self.mpass % 2 == 0 {
            match self.reduce_concrete() {
                Some(row) => {
                    self.score = self.score + 1;
                    self.shift_concrete(row);
                    assert(lowest_full_row(v, row as int));
                    if self.score > 99 {
                        self.score = 0;
                    }
                },
                None => {},
            }
        }
    }

    /// Accumulates pace points after a frame: at least 1, more as the score
    /// grows, and `DOWN_BONUS` more while "down" is held; each time they
    /// reach `GRAVITY_INTERVAL` the piece falls one row.
    pub fn pace(&mut self, y_input: i8)
        requires
            old(self).wf(),
        ensures
            final(self).wf(),
            ({
                let speed = if old(self).score / 20 > 1 {
                    old(self).score / 20
                } else {
                    1
                };
                let down = if y_input > 0 {
                    DOWN_BONUS
                } else {
                    0
                };
                let total = old(self).ipass + speed + down;
                if total >= GRAVITY_INTERVAL {
                    &&& final(self).ipass == 0
                    &&& final(self).y == if old(self).y < SCREEN_HEIGHT {
                        old(self).y + 1
                    } else {
                        old(self).y as int
                    }
                } else {
                    final(self).ipass == total && final(self).y == old(self).y
                }
            }),
            final(self).x == old(self).x,
            final(self).score == old(self).score,
            final(self).screen == old(self).screen,
            final(self).concrete == old(self).concrete,
            final(self).prng == old(self).prng,
            final(self).curr == old(self).curr,
            final(self).next == old(self).next,
            final(self).curr_idx == old(self).curr_idx,
            final(self).next_idx == old(self).next_idx,
            final(self).mpass == old(self).mpass,
    {
        let quot = self.score / 2 / 10;
        let speed_bonus: i8 = if quot > 1 {
            quot as i8
        } else {
            1
        };
        let down_bonus: i8 = if y_input > 0 {
            DOWN_BONUS
        } else {
            0
        };
        self.ipass = self.ipass + speed_bonus + down_bonus;
        if self.ipass >= GRAVITY_INTERVAL {
            self.ipass = 0;
            if self.y < SCREEN_HEIGHT as i8 {
                self.y = self.y + 1;
            }
        }
    }

    /// One frame of play before it is shown: the horizontal input, a
    /// rotation if `pressed`, the screen rebuilt from the settled layer
    /// with the score (and the next piece once the falling one is below
    /// `RESPAWN_THRESHOLD`), settling, and line clearing. Returns `false`
    /// when the game is over.
    pub fn update(&mut self, x_input: i8, pressed: bool) -> (alive: bool)
        requires
            old(self).wf(),
        ensures
            final(self).wf(),
            exists|s1: TetrisGame, s2: TetrisGame, s3: TetrisGame|
                {
                    &&& moved_horizontally(*old(self), s1, x_input)
                    &&& if pressed {
                        rotated_if_fits(s1, s2)
                    } else {
                        s2 == s1
                    }
                    &&& settled(s2, s3, alive, frame_base(s2))
                    &&& if alive {
                        lines_cleared(s3, *final(self))
                    } else {
                        *final(self) == s3
                    }
                },
            !alive ==> final(self).x == INIT_X && final(self).y == INIT_Y + 1 && collides_at(
                final(self).concrete@,
                INIT_X as int,
                INIT_Y + 1,
                final(self).curr,
            ),
    {
        self.move_horizontal(x_input);
        let ghost s1 = *self;
        if pressed {
            self.try_rotate();
        }
        let ghost s2 = *self;
        self.screen.copy_from(&self.concrete);
        self.draw_score();
        if self.y > RESPAWN_THRESHOLD {
            let next_color = tetramino_color(self.next_idx);
            self.screen.draw_figure(INIT_X, INIT_Y, &self.next, next_color);
        }
        assert(self.screen@ == frame_base(s2));
        let alive = self.settle();
        let ghost s3 = *self;
        assert(settled(s2, s3, alive, frame_base(s2)));
        if !alive {
            return false;
        }
        self.clear_lines();
        true
    }

    /// The game-over screen: the settled layer and the score, with the last
    /// piece at the spawn point shown in its colour or blanked out.
    #[verifier::rlimit(50)]
    pub fn game_over_frame(&mut self, visible: bool)
        requires
            old(self).wf(),
            old(self).y >= 1,
        ensures
            final(self).wf(),
            final(self).screen@ == drawn(
                with_score(old(self).concrete@, old(self).score as int),
                old(self).x as int,
                old(self).y - 1,
                old(self).curr,
                if visible {
                    tetramino_color_spec(old(self).curr_idx)
                } else {
                    BLACK_IDX
                },
            ),
            final(self).concrete == old(self).concrete,
            final(self).score == old(self).score,
    {
        self.screen.copy_from(&self.concrete);
        self.draw_score();
        let color = if visible {
            tetramino_color(self.curr_idx)
        } else {
            BLACK_IDX
        };
        self.screen.draw_figure(self.x, self.y - 1, &self.curr, color);
    }

    /// Clears the lowest full row of the play field and returns it; `None`
    /// when no play-field row is full.
    pub fn reduce_concrete(&mut self) -> (r: Option<usize>)
        ensures
            final(self).screen == old(self).screen,
            final(self).score == old(self).score,
            final(self).prng == old(self).prng,
            final(self).curr == old(self).curr,
            final(self).next == old(self).next,
            final(self).curr_idx == old(self).curr_idx,
            final(self).next_idx == old(self).next_idx,
            final(self).x == old(self).x,
            final(self).y == old(self).y,
            final(self).ipass == old(self).ipass,
            final(self).mpass == old(self).mpass,
            reduce_result(old(self).concrete@, final(self).concrete@, r),
    {
        let mut row: usize = SCREEN_HEIGHT;
        let mut found = false;
        while row > FIELD_TOP && !found
            invariant
                FIELD_TOP <= row <= SCREEN_HEIGHT,
                found ==> row_full(self.concrete@, row as int) && row < SCREEN_HEIGHT,
                forall|k: int|
                    row < k < SCREEN_HEIGHT ==> !#[trigger] row_full(self.concrete@, k),
                !found ==> !row_full(self.concrete@, row as int),
            decreases row,
        {
            row = row - 1;
            found = self.concrete.row_is_full(row);
        }
        if found {
            let ghost before = self.concrete@;
            self.concrete.clear_range(row * SCREEN_WIDTH, (row + 1) * SCREEN_WIDTH);
            assert(self.concrete@ =~= cleared_row(before, row as int));
            Some(row)
        } else {
            None
        }
    }

    /// Moves the play-field rows above `cleared_row` one row down, onto it,
    /// and clears the top row of the play field.
    pub fn shift_concrete(&mut self, cleared_row: usize)
        requires
            FIELD_TOP <= cleared_row < SCREEN_HEIGHT,
        ensures
            final(self).concrete@ == shifted_down(old(self).concrete@, cleared_row as int),
            final(self).screen == old(self).screen,
            final(self).score == old(self).score,
            final(self).prng == old(self).prng,
            final(self).curr == old(self).curr,
            final(self).next == old(self).next,
            final(self).curr_idx == old(self).curr_idx,
            final(self).next_idx == old(self).next_idx,
            final(self).x == old(self).x,
            final(self).y == old(self).y,
            final(self).ipass == old(self).ipass,
            final(self).mpass == old(self).mpass,
    {
        let ghost v0 = self.concrete@;
        proof {
            self.concrete.lemma_len();
        }
        let mut to_row: usize = cleared_row;
        while to_row > FIELD_TOP
            invariant
                FIELD_TOP <= to_row <= cleared_row < SCREEN_HEIGHT,
                v0.len() == SCREEN_SIZE,
                self.concrete@.len() == SCREEN_SIZE,
                self.screen == old(self).screen,
                self.score == old(self).score,
                self.prng == old(self).prng,
                self.curr == old(self).curr,
                self.next == old(self).next,
                self.curr_idx == old(self).curr_idx,
                self.next_idx == old(self).next_idx,
                self.x == old(self).x,
                self.y == old(self).y,
                self.ipass == old(self).ipass,
                self.mpass == old(self).mpass,
                forall|i: int|
                    0 <= i < SCREEN_SIZE ==> #[trigger] self.concrete@[i] == if to_row < i / 8
                        <= cleared_row {
                        v0[i - 8]
                    } else {
                        v0[i]
                    },
            decreases to_row,
        {
            let from_row = to_row - 1;
            if !(self.concrete.row_is_empty(from_row) && self.concrete.row_is_empty(to_row)) {
                let ghost before = self.concrete@;
                let mut x: usize = 0;
                while x < SCREEN_WIDTH
                    invariant
                        FIELD_TOP < to_row <= cleared_row < SCREEN_HEIGHT,
                        from_row == to_row - 1,
                        x <= SCREEN_WIDTH,
                        before.len() == SCREEN_SIZE,
                        self.concrete@.len() == SCREEN_SIZE,
                        self.screen == old(self).screen,
                        self.score == old(self).score,
                        self.prng == old(self).prng,
                        self.curr == old(self).curr,
                        self.next == old(self).next,
                        self.curr_idx == old(self).curr_idx,
                        self.next_idx == old(self).next_idx,
                        self.x == old(self).x,
                        self.y == old(self).y,
                        self.ipass == old(self).ipass,
                        self.mpass == old(self).mpass,
                        forall|i: int|
                            0 <= i < SCREEN_SIZE ==> #[trigger] self.concrete@[i] == if i / 8
                                == to_row && i % 8 < x {
                                before[i - 8]
                            } else {
                                before[i]
                            },
                    decreases SCREEN_WIDTH - x,
                {
                    let color = self.concrete.get(x, from_row);
                    self.concrete.set(x, to_row, color);
                    x = x + 1;
                }
            } else {
                proof {
                    assert forall|i: int|
                        0 <= i < SCREEN_SIZE && i / 8 == to_row implies #[trigger] self.concrete@[i]
                        == self.concrete@[i - 8] by {
                        assert(self.concrete@[cell_index(i % 8, to_row as int)] == 0);
                        assert(self.concrete@[cell_index(i % 8, from_row as int)] == 0);
                    }
                }
            }
            to_row = from_row;
        }
        let ghost before = self.concrete@;
        self.concrete.clear_range(FIELD_TOP * SCREEN_WIDTH, (FIELD_TOP + 1) * SCREEN_WIDTH);
        assert(self.concrete@ =~= shifted_down(v0, cleared_row as int));
    }
}

/// Draws `score` (below 100) as two digits and the divider line under them.
fn draw_header(screen: &mut FrameBuffer, score: u8)
    requires
        score < 100,
    ensures
        final(screen)@ == with_score(old(screen)@, score as int),
{
    paint_score(screen, score, 5, true);
}

/// Draws `score` (below 100) as two digits, the tens at column 0 and the
/// ones at column `ones_x`, and, if `divider`, the pink line under them.
pub fn paint_score(screen: &mut FrameBuffer, score: u8, ones_x: i8, divider: bool)
    requires
        score < 100,
    ensures
        ({
            let digits = drawn(
                drawn(old(screen)@, 0, 0, digit_figure(score as int / 10), GREEN_IDX),
                ones_x as int,
                0,
                digit_figure(score as int % 10),
                GREEN_IDX,
            );
            final(screen)@ == if divider {
                with_line(digits, DIVIDER_ROW as int, PINK_IDX)
            } else {
                digits
            }
        }),
{
    let speed = score / 10;
    let score_digit = score % 10;
    let digits = Digits::standard();
    let speed_fig = digits.wrapping_at(speed);
    let score_fig = digits.wrapping_at(score_digit);
    screen.draw_figure(0, 0, &speed_fig, GREEN_IDX);
    screen.draw_figure(ones_x, 0, &score_fig, GREEN_IDX);
    if !divider {
        return;
    }
    let ghost before_line = screen@;
    proof {
        screen.lemma_len();
    }
    let mut x: usize = 0;
    while x < SCREEN_WIDTH
        invariant
            x <= SCREEN_WIDTH,
            before_line.len() == SCREEN_SIZE,
            screen@.len() == SCREEN_SIZE,
            forall|i: int|
                0 <= i < SCREEN_SIZE ==> #[trigger] screen@[i] == if i / 8 == 5 && i % 8 < x {
                    PINK_IDX
                } else {
                    before_line[i]
                },
        decreases SCREEN_WIDTH - x,
    {
        screen.set(x, DIVIDER_ROW, PINK_IDX);
        x = x + 1;
    }
    assert(screen@ =~= with_line(before_line, DIVIDER_ROW as int, PINK_IDX));
}

/// Two quarter turns of the same figure are the same figure.
proof fn lemma_rotation_unique(r: Figure, f: Figure)
    requires
        f.wf(),
        r.is_rotation_of(f),
    ensures
        forall|q: Figure| #[trigger] q.is_rotation_of(f) ==> q == r,
{
    assert forall|q: Figure| #[trigger] q.is_rotation_of(f) implies q == r by {
        assert forall|c: int, rr: int| #[trigger] q.pixel(c, rr) == r.pixel(c, rr) by {
            if 0 <= c < f.h() && 0 <= rr < f.w() {
                assert(q.pixel(c, rr) == f.pixel(rr, f.h() - 1 - c));
            }
        }
        assert(q.wh == r.wh);
        lemma_pixels_determine(q, r);
    }
}

/// With exactly one full play-field row, `reduce_concrete` finds that row,
/// and `shift_concrete` on it leaves that row's contents removed, every
/// play-field row above it one row lower, the top field row cleared, and
/// the rest of the grid as it was.
pub proof fn lemma_single_line_clear(
    v0: Seq<u8>,
    v1: Seq<u8>,
    v2: Seq<u8>,
    full: int,
    r: Option<usize>,
)
    requires
        v0.len() == SCREEN_SIZE,
        FIELD_TOP <= full < SCREEN_HEIGHT,
        row_full(v0, full),
        forall|k: int| FIELD_TOP <= k < SCREEN_HEIGHT && k != full ==> !#[trigger] row_full(v0, k),
        reduce_result(v0, v1, r),
        r is Some ==> v2 == shifted_down(v1, r->0 as int),
    ensures
        r == Some(full as usize),
        forall|x: int, y: int|
            0 <= x < SCREEN_WIDTH && 0 <= y < SCREEN_HEIGHT ==> #[trigger] v2[cell_index(x, y)]
                == if FIELD_TOP < y <= full {
                v0[cell_index(x, y - 1)]
            } else if y == FIELD_TOP {
                0u8
            } else {
                v0[cell_index(x, y)]
            },
{
    assert(!no_full_row(v0));
    let row = r->0 as int;
    assert(row == full);
}

/// What `reduce_concrete` does to the settled layer `v0`, giving `v1`.
pub open spec fn reduce_result(v0: Seq<u8>, v1: Seq<u8>, r: Option<usize>) -> bool {
    match r {
        Some(row) => lowest_full_row(v0, row as int) && v1 == cleared_row(v0, row as int),
        None => no_full_row(v0) && v1 == v0,
    }
}

} // verus!
