use crate::figure::Figure;
use vstd::prelude::*;

verus! {

pub const SCREEN_WIDTH: usize = 8;

pub const SCREEN_HEIGHT: usize = 32;

pub const SCREEN_SIZE: usize = SCREEN_WIDTH * SCREEN_HEIGHT;

pub const BLACK_IDX: u8 = 0;

pub const BRICK_IDX: u8 = 1;

pub const RED_IDX: u8 = 2;

pub const GREEN_IDX: u8 = 3;

pub const BLUE_IDX: u8 = 4;

pub const LIGHT_BLUE_IDX: u8 = 5;

pub const PINK_IDX: u8 = 6;

pub const YELLOW_IDX: u8 = 7;

pub const DARK_GREEN_IDX: u8 = 8;

pub const LIGHT_GREEN_IDX: u8 = 9;

/// Number of entries in the palette.
pub const COLORS_LEN: u8 = 10;

/// One LED's colour, as red, green and blue intensities.
#[derive(Clone, Copy, Debug, PartialEq, Eq, Structural)]
pub struct Rgb {
    pub r: u8,
    pub g: u8,
    pub b: u8,
}

impl Rgb {
    pub fn new(r: u8, g: u8, b: u8) -> (c: Rgb)
        ensures
            c == (Rgb { r, g, b }),
    {
        Rgb { r, g, b }
    }
}

/// The palette entry `i` (0 <= i < 10): black, brick, red, green, blue,
/// light blue, pink, yellow, dark green, light green.
pub open spec fn palette(i: int) -> Rgb {
    if i == 0 {
        Rgb { r: 0, g: 0, b: 0 }
    } else if i == 1 {
        Rgb { r: 12, g: 2, b: 0 }
    } else if i == 2 {
        Rgb { r: 6, g: 0, b: 0 }
    } else if i == 3 {
        Rgb { r: 0, g: 6, b: 0 }
    } else if i == 4 {
        Rgb { r: 0, g: 0, b: 6 }
    } else if i == 5 {
        Rgb { r: 0, g: 6, b: 6 }
    } else if i == 6 {
        Rgb { r: 3, g: 0, b: 3 }
    } else if i == 7 {
        Rgb { r: 6, g: 6, b: 0 }
    } else if i == 8 {
        Rgb { r: 0, g: 3, b: 0 }
    } else {
        Rgb { r: 0, g: 9, b: 0 }
    }
}

/// The colour of a palette index; indices past the end wrap around.
pub fn color_at(idx: u8) -> (c: Rgb)
    ensures
        c == palette(idx as int % 10),
{
    let mut i: u8 = idx;
    while i >= COLORS_LEN
        invariant
            i as int % 10 == idx as int % 10,
        decreases i,
    {
        i = i - COLORS_LEN;
    }
    match i {
        0 => Rgb::new(0, 0, 0),
        1 => Rgb::new(12, 2, 0),
        2 => Rgb::new(6, 0, 0),
        3 => Rgb::new(0, 6, 0),
        4 => Rgb::new(0, 0, 6),
        5 => Rgb::new(0, 6, 6),
        6 => Rgb::new(3, 0, 3),
        7 => Rgb::new(6, 6, 0),
        8 => Rgb::new(0, 3, 0),
        _ => Rgb::new(0, 9, 0),
    }
}

/// One step of the generator's linear congruence, modulo 2^32.
pub open spec fn lcg_step(s: u32) -> u32 {
    ((s as int * 1103515245 + 12345) % 0x1_0000_0000) as u32
}

/// The byte that the generator yields from a state: bits 16 to 23.
pub open spec fn lcg_output(s: u32) -> u8 {
    ((s as int / 0x1_0000) % 0x100) as u8
}

/// A seeded 32-bit linear congruential generator.
pub struct Prng {
    state: u32,
}

impl View for Prng {
    type V = u32;

    closed spec fn view(&self) -> u32 {
        self.state
    }
}

impl Prng {
    pub fn new(seed: u32) -> (p: Prng)
        ensures
            p@ == seed,
    {
        Prng { state: seed }
    }

    pub fn next(&mut self) -> (r: u8)
        ensures
            final(self)@ == lcg_step(old(self)@),
            r == lcg_output(lcg_step(old(self)@)),
    {
        let prod: u64 = (self.state as u64) * 1103515245u64;
        self.state = ((prod + 12345u64) % 0x1_0000_0000u64) as u32;
        ((self.state / 0x1_0000u32) % 0x100u32) as u8
    }

    /// A byte in `[0, max)`; `0` when `max` is zero, without advancing.
    pub fn next_range(&mut self, max: u8) -> (r: u8)
        ensures
            max == 0 ==> r == 0 && final(self)@ == old(self)@,
            max > 0 ==> final(self)@ == lcg_step(old(self)@) && r as int == lcg_output(
                lcg_step(old(self)@),
            ) as int % max as int,
            max > 0 ==> r < max,
    {
        if max == 0 {
            return 0;
        }
        self.next() % max
    }
}

/// A point or a direction on the grid.
#[derive(Clone, Copy, Debug, PartialEq, Eq, Structural)]
pub struct Dot {
    pub x: i8,
    pub y: i8,
}

/// The sign of an integer: -1, 0 or 1.
pub open spec fn sign(v: int) -> int {
    if v > 0 {
        1
    } else if v < 0 {
        -1
    } else {
        0
    }
}

/// A coordinate moved by one step, wrapped around an axis of length `n`
/// when it leaves it by exactly one cell.
pub open spec fn wrap_axis(v: int, n: int) -> int {
    if v == -1 {
        n - 1
    } else if v == n {
        0
    } else {
        v
    }
}

fn signum(v: i8) -> (r: i8)
    ensures
        r == sign(v as int),
{
    if v > 0 {
        1
    } else if v < 0 {
        -1
    } else {
        0
    }
}

impl Dot {
    pub fn new(x: i8, y: i8) -> (d: Dot)
        ensures
            d == (Dot { x, y }),
    {
        Dot { x, y }
    }

    pub open spec fn fits_move(&self, direction: Dot) -> bool {
        &&& i8::MIN <= self.x + direction.x <= i8::MAX
        &&& i8::MIN <= self.y + direction.y <= i8::MAX
    }

    pub fn move_by(&self, direction: Dot) -> (d: Dot)
        requires
            self.fits_move(direction),
        ensures
            d.x == self.x + direction.x,
            d.y == self.y + direction.y,
    {
        Dot::new(self.x + direction.x, self.y + direction.y)
    }

    /// Moves by `direction`; leaving the screen by one cell on any edge
    /// re-enters it on the opposite edge.
    pub fn move_wrap(&self, direction: Dot) -> (d: Dot)
        requires
            self.fits_move(direction),
        ensures
            d.x == wrap_axis(self.x + direction.x, SCREEN_WIDTH as int),
            d.y == wrap_axis(self.y + direction.y, SCREEN_HEIGHT as int),
    {
        let mut new_dot = self.move_by(direction);
        if new_dot.x == -1 {
            new_dot.x = SCREEN_WIDTH as i8 - 1;
        } else if new_dot.x == SCREEN_WIDTH as i8 {
            new_dot.x = 0;
        }
        if new_dot.y == -1 {
            new_dot.y = SCREEN_HEIGHT as i8 - 1;
        } else if new_dot.y == SCREEN_HEIGHT as i8 {
            new_dot.y = 0;
        }
        new_dot
    }

    pub fn is_zero(&self) -> (r: bool)
        ensures
            r == (self.x == 0 && self.y == 0),
    {
        self.x == 0 && self.y == 0
    }

    pub fn is_opposite(&self, other: &Dot) -> (r: bool)
        ensures
            r == (self.x + other.x == 0 && self.y + other.y == 0),
    {
        (self.x as i16 + other.x as i16) == 0 && (self.y as i16 + other.y as i16) == 0
    }

    pub fn opposite(&self) -> (d: Dot)
        requires
            self.x != i8::MIN,
            self.y != i8::MIN,
        ensures
            d.x == -self.x,
            d.y == -self.y,
    {
        Dot::new(-self.x, -self.y)
    }

    pub open spec fn is_outside(&self) -> bool {
        self.x < 0 || self.x >= SCREEN_WIDTH || self.y < 0 || self.y >= SCREEN_HEIGHT
    }

    pub fn outside(&self) -> (r: bool)
        ensures
            r == self.is_outside(),
    {
        self.x < 0 || self.x >= SCREEN_WIDTH as i8 || self.y < 0 || self.y >= SCREEN_HEIGHT as i8
    }

    /// Reduces a joystick reading to one axis-aligned unit step (or zero);
    /// on a diagonal the vertical component wins.
    pub fn to_direction(self) -> (d: Dot)
        ensures
            d.x == (if self.x != 0 && self.y != 0 {
                0
            } else {
                sign(self.x as int)
            }),
            d.y == sign(self.y as int),
    {
        let mut x: i8 = self.x;
        if self.x != 0 && self.y != 0 {
            x = 0;
        }
        Dot::new(signum(x), signum(self.y))
    }
}

/// Index of the cell at column `x`, row `y` in a frame buffer's cells.
pub open spec fn cell_index(x: int, y: int) -> int {
    y * SCREEN_WIDTH + x
}

/// A cell index names exactly one column and row.
pub proof fn lemma_cell_index(c: int, x: int, y: int)
    requires
        0 <= x < SCREEN_WIDTH,
        0 <= c,
    ensures
        (c == cell_index(x, y)) == (c % 8 == x && c / 8 == y),
{
    if c == cell_index(x, y) {
        vstd::arithmetic::div_mod::lemma_fundamental_div_mod_converse(c, 8, y, x);
    }
}

pub open spec fn in_screen(x: int, y: int) -> bool {
    0 <= x < SCREEN_WIDTH && 0 <= y < SCREEN_HEIGHT
}

/// Whether the pixel (`c`, `r`) of `fig`, placed with its top-left corner
/// at (`x`, `y`), lands off the grid or on a non-background cell of `v`.
pub open spec fn blocked(v: Seq<u8>, x: int, y: int, fig: Figure, c: int, r: int) -> bool {
    fig.pixel(c, r) && !(in_screen(x + c, y + r) && v[cell_index(x + c, y + r)] == 0)
}

/// Whether `fig` placed at (`x`, `y`) collides with the grid `v`.
pub open spec fn collides_at(v: Seq<u8>, x: int, y: int, fig: Figure) -> bool {
    exists|c: int, r: int| blocked(v, x, y, fig, c, r)
}

/// The cells `v` with `fig` painted in `color` at (`x`, `y`), clipped at the edges.
pub open spec fn drawn(v: Seq<u8>, x: int, y: int, fig: Figure, color: u8) -> Seq<u8> {
    Seq::new(
        SCREEN_SIZE as nat,
        |i: int|
            if fig.pixel(i % SCREEN_WIDTH as int - x, i / SCREEN_WIDTH as int - y) {
                color
            } else {
                v[i]
            },
    )
}

pub open spec fn row_full(v: Seq<u8>, row: int) -> bool {
    0 <= row < SCREEN_HEIGHT && forall|x: int|
        0 <= x < SCREEN_WIDTH ==> v[#[trigger] cell_index(x, row)] != 0
}

pub open spec fn row_empty(v: Seq<u8>, row: int) -> bool {
    !(0 <= row < SCREEN_HEIGHT) || forall|x: int|
        0 <= x < SCREEN_WIDTH ==> v[#[trigger] cell_index(x, row)] == 0
}

/// Where the cell (`x`, `y`) sits on the zig-zag wired LED strip: even rows
/// run right to left, odd rows left to right.
pub open spec fn strip_index(x: int, y: int) -> int {
    y * SCREEN_WIDTH + if y % 2 == 0 {
        SCREEN_WIDTH - 1 - x
    } else {
        x
    }
}

/// Whether bit `31 - y` of a title image column is set.
pub open spec fn column_bit(word: u32, y: int) -> bool {
    (word >> ((SCREEN_HEIGHT - 1 - y) as u32)) & 1u32 == 1u32
}

/// Writes the palette colour `color_idx` for the cell (`x`, `y`) to its
/// place on the LED strip; rows past the strip are ignored.
pub fn set_pixel(leds: &mut [Rgb; 256], x: usize, y: usize, color_idx: u8)
    requires
        x < SCREEN_WIDTH,
    ensures
        final(leds)@ == if y < SCREEN_HEIGHT {
            old(leds)@.update(strip_index(x as int, y as int), palette(color_idx as int % 10))
        } else {
            old(leds)@
        },
{
    if y < SCREEN_HEIGHT {
        let px = if y % 2 == 0 {
            SCREEN_WIDTH - 1 - x
        } else {
            x
        };
        let idx = SCREEN_WIDTH * y + px;
        leds[idx] = color_at(color_idx);
    }
}

/// The palette index of the colour that the LED strip holds for (`x`, `y`);
/// `0` where the colour is not in the palette.
pub fn get_pixel(leds: &[Rgb; 256], x: usize, y: usize) -> (c: u8)
    requires
        x < SCREEN_WIDTH,
        y < SCREEN_HEIGHT,
    ensures
        c < COLORS_LEN,
        palette(c as int) == leds@[strip_index(x as int, y as int)] || (c == 0 && forall|i: int|
            0 <= i < 10 ==> palette(i) != leds@[strip_index(x as int, y as int)]),
{
    let px = if y % 2 == 0 {
        SCREEN_WIDTH - 1 - x
    } else {
        x
    };
    let led = leds[SCREEN_WIDTH * y + px];
    let mut i: u8 = 0;
    while i < COLORS_LEN
        invariant
            i <= COLORS_LEN,
            led == leds@[strip_index(x as int, y as int)],
            forall|k: int| 0 <= k < i ==> palette(k) != led,
        decreases COLORS_LEN - i,
    {
        if color_at(i) == led {
            return i;
        }
        i = i + 1;
    }
    0
}

/// The 8x32 grid of palette indices, row by row.
pub struct FrameBuffer {
    content: [u8; 256],
}

impl View for FrameBuffer {
    type V = Seq<u8>;

    closed spec fn view(&self) -> Seq<u8> {
        self.content@
    }
}

impl FrameBuffer {
    pub proof fn lemma_len(&self)
        ensures
            self@.len() == SCREEN_SIZE,
    {
    }

    /// An all-background grid.
    pub fn new() -> (fb: FrameBuffer)
        ensures
            fb@ == Seq::new(SCREEN_SIZE as nat, |i: int| 0u8),
    {
        let fb = FrameBuffer { content: [0u8; 256] };
        assert(fb@ =~= Seq::new(SCREEN_SIZE as nat, |i: int| 0u8));
        fb
    }

    pub fn clear(&mut self)
        ensures
            final(self)@ == Seq::new(SCREEN_SIZE as nat, |i: int| 0u8),
    {
        self.content = [0u8; 256];
        assert(self@ =~= Seq::new(SCREEN_SIZE as nat, |i: int| 0u8));
    }

    /// Clears the cells with index in `[from, min(to, 256))`.
    pub fn clear_range(&mut self, from: usize, to: usize)
        ensures
            final(self)@.len() == SCREEN_SIZE,
            forall|i: int|
                0 <= i < SCREEN_SIZE ==> #[trigger] final(self)@[i] == if from <= i < to {
                    0u8
                } else {
                    old(self)@[i]
                },
    {
        let end = if to < SCREEN_SIZE {
            to
        } else {
            SCREEN_SIZE
        };
        let mut idx: usize = from;
        while idx < end
            invariant
                from <= idx,
                idx == from || idx <= end,
                end <= SCREEN_SIZE,
                end == if to < SCREEN_SIZE { to } else { SCREEN_SIZE },
                self@.len() == SCREEN_SIZE,
                forall|i: int|
                    0 <= i < SCREEN_SIZE ==> #[trigger] self@[i] == if from <= i < idx {
                        0u8
                    } else {
                        old(self)@[i]
                    },
            decreases end - idx,
        {
            self.content[idx] = 0;
            idx = idx + 1;
        }
    }

    /// Paints (`x`, `y`); does nothing off the grid.
    pub fn set(&mut self, x: usize, y: usize, color: u8)
        ensures
            final(self)@ == if in_screen(x as int, y as int) {
                old(self)@.update(cell_index(x as int, y as int), color)
            } else {
                old(self)@
            },
    {
        if x < SCREEN_WIDTH && y < SCREEN_HEIGHT {
            let idx = y * SCREEN_WIDTH + x;
            self.content[idx] = color;
        }
    }

    /// The colour at (`x`, `y`); background off the grid.
    pub fn get(&self, x: usize, y: usize) -> (c: u8)
        ensures
            c == if in_screen(x as int, y as int) {
                self@[cell_index(x as int, y as int)]
            } else {
                0
            },
    {
        if x < SCREEN_WIDTH && y < SCREEN_HEIGHT {
            self.content[y * SCREEN_WIDTH + x]
        } else {
            0
        }
    }

    fn available(&self, x: i16, y: i16, color: u8) -> (r: bool)
        ensures
            r == (in_screen(x as int, y as int) && self@[cell_index(x as int, y as int)] == color),
    {
        if x >= 0 && x < SCREEN_WIDTH as i16 && y >= 0 && y < SCREEN_HEIGHT as i16 {
            self.content[y as usize * SCREEN_WIDTH + x as usize] == color
        } else {
            false
        }
    }

    /// Whether some set pixel of `figure` at (`x`, `y`) lands off the grid
    /// or on a non-background cell.
    pub fn collides(&self, x: i8, y: i8, figure: &Figure) -> (r: bool)
        ensures
            r == collides_at(self@, x as int, y as int, *figure),
    {
        let h = figure.height();
        let w = figure.width();
        let mut row: u8 = 0;
        while row < h
            invariant
                h == figure.h(),
                w == figure.w(),
                row <= h,
                forall|c: int, r: int|
                    r < row ==> !#[trigger] blocked(self@, x as int, y as int, *figure, c, r),
            decreases h - row,
        {
            let mut col: u8 = 0;
            while col < w
                invariant
                    h == figure.h(),
                    w == figure.w(),
                    row < h,
                    col <= w,
                    forall|c: int, r: int|
                        r < row ==> !#[trigger] blocked(self@, x as int, y as int, *figure, c, r),
                    forall|c: int|
                        c < col ==> !#[trigger] blocked(self@, x as int, y as int, *figure, c, row as int),
                decreases w - col,
            {
                if figure.get_bit(col, row) && !self.available(
                    x as i16 + col as i16,
                    y as i16 + row as i16,
                    BLACK_IDX,
                ) {
                    assert(blocked(self@, x as int, y as int, *figure, col as int, row as int));
                    return true;
                }
                col = col + 1;
            }
            row = row + 1;
        }
        false
    }

    /// Paints the set pixels of `figure` at (`x`, `y`) in `color`, clipping
    /// at the edges.
    pub fn draw_figure(&mut self, x: i8, y: i8, figure: &Figure, color: u8)
        ensures
            final(self)@ == drawn(old(self)@, x as int, y as int, *figure, color),
    {
        let h = figure.height();
        let w = figure.width();
        let ghost v0 = self@;
        let mut row: u8 = 0;
        while row < h
            invariant
                h == figure.h(),
                w == figure.w(),
                row <= h,
                self@.len() == SCREEN_SIZE,
                v0.len() == SCREEN_SIZE,
                forall|i: int|
                    0 <= i < SCREEN_SIZE ==> #[trigger] self@[i] == if figure.pixel(
                        i % 8 - x,
                        i / 8 - y,
                    ) && i / 8 - y < row {
                        color
                    } else {
                        v0[i]
                    },
            decreases h - row,
        {
            let mut col: u8 = 0;
            while col < w
                invariant
                    h == figure.h(),
                    w == figure.w(),
                    row < h,
                    col <= w,
                    self@.len() == SCREEN_SIZE,
                    v0.len() == SCREEN_SIZE,
                    forall|i: int|
                        0 <= i < SCREEN_SIZE ==> #[trigger] self@[i] == if figure.pixel(
                            i % 8 - x,
                            i / 8 - y,
                        ) && (i / 8 - y < row || (i / 8 - y == row && i % 8 - x < col)) {
                            color
                        } else {
                            v0[i]
                        },
                decreases w - col,
            {
                if figure.get_bit(col, row) {
                    let px: i16 = x as i16 + col as i16;
                    let py: i16 = y as i16 + row as i16;
                    if px >= 0 && px < SCREEN_WIDTH as i16 && py >= 0 && py < SCREEN_HEIGHT as i16 {
                        self.set(px as usize, py as usize, color);
                    }
                }
                col = col + 1;
            }
            row = row + 1;
        }
        assert(self@ =~= drawn(v0, x as int, y as int, *figure, color));
    }

    pub fn copy_from(&mut self, other: &FrameBuffer)
        ensures
            final(self)@ == other@,
    {
        self.content = other.content;
    }

    /// Whether row `row` exists and has no background cell.
    pub fn row_is_full(&self, row: usize) -> (r: bool)
        ensures
            r == row_full(self@, row as int),
    {
        if row >= SCREEN_HEIGHT {
            return false;
        }
        let mut x: usize = 0;
        while x < SCREEN_WIDTH
            invariant
                row < SCREEN_HEIGHT,
                x <= SCREEN_WIDTH,
                self@.len() == SCREEN_SIZE,
                forall|k: int| 0 <= k < x ==> self@[#[trigger] cell_index(k, row as int)] != 0,
            decreases SCREEN_WIDTH - x,
        {
            if self.content[row * SCREEN_WIDTH + x] == 0 {
                assert(self@[cell_index(x as int, row as int)] == 0);
                return false;
            }
            x = x + 1;
        }
        true
    }

    /// Clears row `row` if it is full, and says whether it did.
    pub fn try_clear_row(&mut self, row: usize) -> (r: bool)
        ensures
            r == row_full(old(self)@, row as int),
            final(self)@.len() == SCREEN_SIZE,
            forall|i: int|
                0 <= i < SCREEN_SIZE ==> #[trigger] final(self)@[i] == if r && row * 8 <= i < row * 8 + 8 {
                    0u8
                } else {
                    old(self)@[i]
                },
    {
        if self.row_is_full(row) {
            self.clear_range(row * SCREEN_WIDTH, (row + 1) * SCREEN_WIDTH);
            true
        } else {
            false
        }
    }

    /// Writes every cell's colour to the LED strip, in the strip's zig-zag order.
    pub fn render(&self, leds: &mut [Rgb; 256])
        ensures
            forall|x: int, y: int|
                in_screen(x, y) ==> final(leds)@[#[trigger] strip_index(x, y)] == palette(
                    self@[cell_index(x, y)] as int % 10,
                ),
    {
        let mut idx: usize = 0;
        while idx < SCREEN_SIZE
            invariant
                idx <= SCREEN_SIZE,
                self@.len() == SCREEN_SIZE,
                leds@.len() == SCREEN_SIZE,
                forall|x: int, y: int|
                    in_screen(x, y) && cell_index(x, y) < idx ==> leds@[#[trigger] strip_index(
                        x,
                        y,
                    )] == palette(self@[cell_index(x, y)] as int % 10),
            decreases SCREEN_SIZE - idx,
        {
            let x = idx % SCREEN_WIDTH;
            let y = idx / SCREEN_WIDTH;
            set_pixel(leds, x, y, self.content[idx]);
            idx = idx + 1;
        }
    }

    /// A title image: bit `31 - y` of `rows[x]` lights the cell
    /// (`7 - x`, `y`) in `color`; every other cell is background.
    pub fn from_rows(rows: &[u32; 8], color: u8) -> (fb: FrameBuffer)
        ensures
            forall|x: int, y: int|
                0 <= x < SCREEN_WIDTH && 0 <= y < SCREEN_HEIGHT ==> fb@[#[trigger] cell_index(
                    SCREEN_WIDTH - 1 - x,
                    y,
                )] == if column_bit(rows@[x], y) {
                    color
                } else {
                    0u8
                },
    {
        let mut buffer = FrameBuffer::new();
        let mut y: usize = 0;
        while y < SCREEN_HEIGHT
            invariant
                y <= SCREEN_HEIGHT,
                buffer@.len() == SCREEN_SIZE,
                forall|x: int, yy: int|
                    0 <= x < SCREEN_WIDTH && 0 <= yy < SCREEN_HEIGHT ==> buffer@[#[trigger] cell_index(
                        SCREEN_WIDTH - 1 - x,
                        yy,
                    )] == if yy < y && column_bit(rows@[x], yy) {
                        color
                    } else {
                        0u8
                    },
            decreases SCREEN_HEIGHT - y,
        {
            let mut x: usize = 0;
            while x < SCREEN_WIDTH
                invariant
                    y < SCREEN_HEIGHT,
                    x <= SCREEN_WIDTH,
                    buffer@.len() == SCREEN_SIZE,
                    forall|xx: int, yy: int|
                        0 <= xx < SCREEN_WIDTH && 0 <= yy < SCREEN_HEIGHT ==> buffer@[#[trigger] cell_index(
                            SCREEN_WIDTH - 1 - xx,
                            yy,
                        )] == if (yy < y || (yy == y && xx < x)) && column_bit(rows@[xx], yy) {
                            color
                        } else {
                            0u8
                        },
                decreases SCREEN_WIDTH - x,
            {
                let word = rows[x];
                let bit = (word >> ((SCREEN_HEIGHT - y - 1) as u32)) & 1;
                if bit == 1 {
                    buffer.set(SCREEN_WIDTH - x - 1, y, color);
                }
                x = x + 1;
            }
            y = y + 1;
        }
        buffer
    }

    /// Whether row `row` has only background cells; rows off the grid count as empty.
    pub fn row_is_empty(&self, row: usize) -> (r: bool)
        ensures
            r == row_empty(self@, row as int),
    {
        if row >= SCREEN_HEIGHT {
            return true;
        }
        let mut x: usize = 0;
        while x < SCREEN_WIDTH
            invariant
                row < SCREEN_HEIGHT,
                x <= SCREEN_WIDTH,
                self@.len() == SCREEN_SIZE,
                forall|k: int| 0 <= k < x ==> self@[#[trigger] cell_index(k, row as int)] == 0,
            decreases SCREEN_WIDTH - x,
        {
            if self.content[row * SCREEN_WIDTH + x] != 0 {
                assert(self@[cell_index(x as int, row as int)] != 0);
                return false;
            }
            x = x + 1;
        }
        true
    }
}

impl Default for FrameBuffer {
    fn default() -> (fb: FrameBuffer)
        ensures
            fb@ == Seq::new(SCREEN_SIZE as nat, |i: int| 0u8),
    {
        FrameBuffer::new()
    }
}

} // verus!
