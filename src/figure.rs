use vstd::arithmetic::div_mod::lemma_fundamental_div_mod_converse;
use vstd::arithmetic::power2::{lemma2_to64, pow2};
use vstd::bits::lemma_u32_shl_is_mul;
use crate::common::{FrameBuffer, SCREEN_HEIGHT, SCREEN_SIZE, SCREEN_WIDTH};
use vstd::prelude::*;
use vstd::string::{StrSliceExecFns, StringExecFns};

verus! {

/// Bit `i` of `d` (bit 0 is the least significant).
pub open spec fn bit(d: u16, i: int) -> bool {
    0 <= i < 16 && (d >> (i as u16)) & 1u16 == 1u16
}

proof fn lemma_bit_test(d: u16, i: u16)
    requires
        i < 16,
    ensures
        ((d & (1u16 << i)) != 0u16) == bit(d, i as int),
{
    assert(((d & (1u16 << i)) != 0u16) == ((d >> i) & 1u16 == 1u16)) by (bit_vector)
        requires
            i < 16,
    ;
}

proof fn lemma_bit_or(x: u16, k: u16, j: u16)
    requires
        k < 16,
        j < 16,
    ensures
        bit(x | (1u16 << k), j as int) == (bit(x, j as int) || j == k),
{
    assert((((x | (1u16 << k)) >> j) & 1u16 == 1u16) == (((x >> j) & 1u16 == 1u16) || j == k))
        by (bit_vector)
        requires
            k < 16,
            j < 16,
    ;
}

proof fn lemma_or_below(x: u16, k: u16, n: u16)
    requires
        k < n <= 16,
        (x as u32) < (1u32 << (n as u32)),
    ensures
        ((x | (1u16 << k)) as u32) < (1u32 << (n as u32)),
{
    assert(((x | (1u16 << k)) as u32) < (1u32 << (n as u32))) by (bit_vector)
        requires
            k < n <= 16,
            (x as u32) < (1u32 << (n as u32)),
    ;
}

proof fn lemma_high_clear(d: u16, n: u16, i: u16)
    requires
        n <= i < 16,
        (d as u32) < (1u32 << (n as u32)),
    ensures
        !bit(d, i as int),
{
    assert(!((d >> i) & 1u16 == 1u16)) by (bit_vector)
        requires
            n <= i < 16,
            (d as u32) < (1u32 << (n as u32)),
    ;
}

proof fn lemma_pow2_shift(n: u16)
    requires
        n <= 16,
    ensures
        (1u32 << (n as u32)) as int == pow2(n as nat),
{
    lemma2_to64();
    vstd::arithmetic::power2::lemma_pow2_strictly_increases(n as nat, 32);
    lemma_u32_shl_is_mul(1u32, n as u32);
}

/// Two words with the same sixteen bits are equal.
proof fn lemma_bits_eq(a: u16, b: u16)
    requires
        forall|i: int| 0 <= i < 16 ==> bit(a, i) == bit(b, i),
    ensures
        a == b,
{
    assert(bit(a, 0) == bit(b, 0));
    assert(bit(a, 1) == bit(b, 1));
    assert(bit(a, 2) == bit(b, 2));
    assert(bit(a, 3) == bit(b, 3));
    assert(bit(a, 4) == bit(b, 4));
    assert(bit(a, 5) == bit(b, 5));
    assert(bit(a, 6) == bit(b, 6));
    assert(bit(a, 7) == bit(b, 7));
    assert(bit(a, 8) == bit(b, 8));
    assert(bit(a, 9) == bit(b, 9));
    assert(bit(a, 10) == bit(b, 10));
    assert(bit(a, 11) == bit(b, 11));
    assert(bit(a, 12) == bit(b, 12));
    assert(bit(a, 13) == bit(b, 13));
    assert(bit(a, 14) == bit(b, 14));
    assert(bit(a, 15) == bit(b, 15));
    assert(a == b) by (bit_vector)
        requires
            ((a >> 0u16) & 1u16 == 1u16) == ((b >> 0u16) & 1u16 == 1u16),
            ((a >> 1u16) & 1u16 == 1u16) == ((b >> 1u16) & 1u16 == 1u16),
            ((a >> 2u16) & 1u16 == 1u16) == ((b >> 2u16) & 1u16 == 1u16),
            ((a >> 3u16) & 1u16 == 1u16) == ((b >> 3u16) & 1u16 == 1u16),
            ((a >> 4u16) & 1u16 == 1u16) == ((b >> 4u16) & 1u16 == 1u16),
            ((a >> 5u16) & 1u16 == 1u16) == ((b >> 5u16) & 1u16 == 1u16),
            ((a >> 6u16) & 1u16 == 1u16) == ((b >> 6u16) & 1u16 == 1u16),
            ((a >> 7u16) & 1u16 == 1u16) == ((b >> 7u16) & 1u16 == 1u16),
            ((a >> 8u16) & 1u16 == 1u16) == ((b >> 8u16) & 1u16 == 1u16),
            ((a >> 9u16) & 1u16 == 1u16) == ((b >> 9u16) & 1u16 == 1u16),
            ((a >> 10u16) & 1u16 == 1u16) == ((b >> 10u16) & 1u16 == 1u16),
            ((a >> 11u16) & 1u16 == 1u16) == ((b >> 11u16) & 1u16 == 1u16),
            ((a >> 12u16) & 1u16 == 1u16) == ((b >> 12u16) & 1u16 == 1u16),
            ((a >> 13u16) & 1u16 == 1u16) == ((b >> 13u16) & 1u16 == 1u16),
            ((a >> 14u16) & 1u16 == 1u16) == ((b >> 14u16) & 1u16 == 1u16),
            ((a >> 15u16) & 1u16 == 1u16) == ((b >> 15u16) & 1u16 == 1u16),
    ;
}

/// Where the clockwise rotation of a `w`-wide, `h`-tall figure moves bit `k`.
pub open spec fn rot_dest(k: int, w: int, h: int) -> int {
    (k % w) * h + (h - 1 - k / w)
}

/// Which bit of a `w`-wide, `h`-tall figure lands on bit `j` of its rotation.
pub open spec fn rot_src(j: int, w: int, h: int) -> int {
    (h - 1 - j % h) * w + j / h
}

proof fn lemma_rot_index(k: int, j: int, w: int, h: int)
    requires
        w > 0,
        h > 0,
        0 <= k < w * h,
        0 <= j < w * h,
    ensures
        0 <= rot_dest(k, w, h) < w * h,
        0 <= rot_src(j, w, h) < w * h,
        rot_src(rot_dest(k, w, h), w, h) == k,
        rot_dest(rot_src(j, w, h), w, h) == j,
        (rot_src(j, w, h) == k) == (j == rot_dest(k, w, h)),
{
    let a = k / w;
    let b = k % w;
    assert(0 <= a < h) by (nonlinear_arith)
        requires
            w > 0,
            0 <= k < w * h,
            a == k / w,
    ;
    assert(0 <= b < w);
    let d = b * h + (h - 1 - a);
    assert(0 <= d < w * h) by (nonlinear_arith)
        requires
            0 <= b < w,
            0 <= a < h,
            d == b * h + (h - 1 - a),
    ;
    lemma_fundamental_div_mod_converse(d, h, b, h - 1 - a);
    assert(k == a * w + b) by (nonlinear_arith)
        requires
            w > 0,
            a == k / w,
            b == k % w,
    ;
    let c = j / h;
    let e = j % h;
    assert(0 <= c < w) by (nonlinear_arith)
        requires
            h > 0,
            0 <= j < w * h,
            c == j / h,
    ;
    let s = (h - 1 - e) * w + c;
    assert(0 <= s < w * h) by (nonlinear_arith)
        requires
            0 <= c < w,
            0 <= e < h,
            s == (h - 1 - e) * w + c,
    ;
    lemma_fundamental_div_mod_converse(s, w, h - 1 - e, c);
    assert(j == c * h + e) by (nonlinear_arith)
        requires
            h > 0,
            c == j / h,
            e == j % h,
    ;
}

/// An immutable sprite: up to sixteen pixels packed into `data`, with the
/// width in the high nibble of `wh` and the height in the low nibble.
/// The pixel in column `c`, row `r` is bit `(h-1-r)*w + (w-1-c)`, so the
/// top-left pixel is the most significant bit in use.
#[derive(Clone, Copy, Debug, PartialEq, Eq, Structural)]
pub struct Figure {
    pub data: u16,
    pub wh: u8,
}

impl Figure {
    pub open spec fn w(self) -> int {
        self.wh as int / 16
    }

    pub open spec fn h(self) -> int {
        self.wh as int % 16
    }

    /// Whether the pixel at column `col`, row `row` is set.
    pub open spec fn pixel(self, col: int, row: int) -> bool {
        &&& 0 <= col < self.w()
        &&& 0 <= row < self.h()
        &&& bit(self.data, (self.h() - 1 - row) * self.w() + (self.w() - 1 - col))
    }

    /// The pixels fit the data word, and no bit beyond them is set.
    pub open spec fn wf(self) -> bool {
        &&& self.w() * self.h() <= 16
        &&& (self.data as int) < pow2((self.w() * self.h()) as nat)
    }

    /// `self` is `f` turned a quarter clockwise.
    pub open spec fn is_rotation_of(self, f: Figure) -> bool {
        &&& self.wf()
        &&& self.w() == f.h()
        &&& self.h() == f.w()
        &&& forall|c: int, r: int|
            0 <= c < f.h() && 0 <= r < f.w() ==> #[trigger] self.pixel(c, r) == f.pixel(
                r,
                f.h() - 1 - c,
            )
    }

    pub fn width(&self) -> (r: u8)
        ensures
            r == self.w(),
    {
        proof {
            let wh = self.wh;
            assert(wh >> 4u8 == wh / 16u8) by (bit_vector);
        }
        self.wh >> 4
    }

    pub fn height(&self) -> (r: u8)
        ensures
            r == self.h(),
    {
        proof {
            let wh = self.wh;
            assert(wh & 0x0fu8 == wh % 16u8) by (bit_vector);
        }
        self.wh & 0x0f
    }

    pub fn len(&self) -> (r: u8)
        ensures
            r == self.w() * self.h(),
    {
        let h = self.height();
        let w = self.width();
        assert(h * w < 256) by (nonlinear_arith)
            requires
                h < 16,
                w < 16,
        ;
        h * w
    }

    /// Whether the pixel at (`col`, `row`) is set; `false` outside the figure.
    pub fn get_bit(&self, col: u8, row: u8) -> (r: bool)
        ensures
            r == self.pixel(col as int, row as int),
    {
        let w = self.width();
        let h = self.height();
        if col >= w || row >= h {
            return false;
        }
        assert((h - 1 - row) * w <= 14 * 15) by (nonlinear_arith)
            requires
                row < h < 16,
                w < 16,
        ;
        let bit_idx: u8 = (h - 1 - row) * w + (w - 1 - col);
        if bit_idx >= 16 {
            return false;
        }
        proof {
            lemma_bit_test(self.data, bit_idx as u16);
        }
        let cursor: u16 = 1u16 << bit_idx as u16;
        self.data & cursor != 0
    }

    /// The text drawing of the figure: one line per row, `#` for a set
    /// pixel and a space for a clear one, each line ended by a newline.
    pub fn str(&self) -> (r: String)
        ensures
            r@ == figure_text(*self),
    {
        let w = self.width();
        let h = self.height();
        let ghost t = figure_text(*self);
        let mut out = String::new();
        proof {
            reveal_strlit("#");
            reveal_strlit(" ");
            reveal_strlit("\n");
        }
        let mut row: u8 = 0;
        while row < h
            invariant
                w == self.w(),
                h == self.h(),
                row <= h,
                t == figure_text(*self),
                t.len() == h * (w + 1),
                out@ == t.subrange(0, row * (w + 1)),
            decreases h - row,
        {
            let mut col: u8 = 0;
            while col < w
                invariant
                    w == self.w(),
                    h == self.h(),
                    row < h,
                    col <= w,
                    t == figure_text(*self),
                    t.len() == h * (w + 1),
                    out@ == t.subrange(0, row * (w + 1) + col),
                decreases w - col,
            {
                let ghost i = row * (w + 1) + col;
                assert(row * (w + 1) + col < h * (w + 1)) by (nonlinear_arith)
                    requires
                        row < h,
                        col < w,
                ;
                proof {
                    lemma_fundamental_div_mod_converse(i, w + 1, row as int, col as int);
                }
                proof {
                    reveal_strlit("#");
                    reveal_strlit(" ");
                }
                if self.get_bit(col, row) {
                    out.append("#");
                } else {
                    out.append(" ");
                }
                assert(out@ =~= t.subrange(0, row * (w + 1) + col + 1));
                col = col + 1;
            }
            let ghost i = row * (w + 1) + w;
            assert(row * (w + 1) + w < h * (w + 1)) by (nonlinear_arith)
                requires
                    row < h,
            ;
            proof {
                lemma_fundamental_div_mod_converse(i, w + 1, row as int, w as int);
            }
            proof {
                reveal_strlit("\n");
            }
            out.append("\n");
            assert(out@ =~= t.subrange(0, (row + 1) * (w + 1))) by {
                assert(row * (w + 1) + w + 1 == (row + 1) * (w + 1)) by (nonlinear_arith);
            }
            row = row + 1;
        }
        assert(out@ =~= t);
        out
    }

    /// Reads a text drawing: lines of `#` and spaces, each ended by a
    /// newline, the first line fixing the width. `None` unless every line
    /// has that width and the figure fits sixteen pixels.
    pub fn from_str(text: &str) -> (r: Option<Figure>)
        ensures
            r is Some <==> text_ok(text@),
            r matches Some(f) ==> f.wf() && figure_text(f) == text@,
    {
        let n = text.unicode_len();
        let mut w: usize = 0;
        while w < n && text.get_char(w) != '\n'
            invariant
                w <= n,
                n == text@.len(),
                forall|k: int| 0 <= k < w ==> text@[k] != '\n',
            decreases n - w,
        {
            w = w + 1;
        }
        if w == n || w == 0 || w > 15 {
            proof {
                lemma_no_shape_width(text@, w as int);
            }
            return None;
        }
        let row_len = w + 1;
        if n % row_len != 0 {
            proof {
                lemma_no_shape_width(text@, w as int);
            }
            return None;
        }
        let h = n / row_len;
        if h == 0 || h > 15 {
            proof {
                lemma_no_shape_width(text@, w as int);
            }
            return None;
        }
        assert(w * h <= 225) by (nonlinear_arith)
            requires
                w <= 15,
                h <= 15,
        ;
        if w * h > 16 {
            proof {
                lemma_no_shape_width(text@, w as int);
                assert(n == h * row_len) by (nonlinear_arith)
                    requires
                        n % row_len == 0,
                        h == n / row_len,
                        row_len > 0,
                ;
            }
            return None;
        }
        proof {
            assert(n == h * row_len) by (nonlinear_arith)
                requires
                    n % row_len == 0,
                    h == n / row_len,
                    row_len > 0,
            ;
        }
        let mut i: usize = 0;
        while i < n
            invariant
                i <= n,
                n == text@.len(),
                row_len == w + 1,
                1 <= w <= 15,
                1 <= h <= 15,
                w * h <= 16,
                n == h * row_len,
                w < n,
                forall|k: int| 0 <= k < w ==> text@[k] != '\n',
                text@[w as int] == '\n',
                forall|k: int|
                    0 <= k < i ==> if k % (w + 1) == w {
                        #[trigger] text@[k] == '\n'
                    } else {
                        text@[k] == '#' || text@[k] == ' '
                    },
            decreases n - i,
        {
            let c = text.get_char(i);
            if i % row_len == w {
                if c != '\n' {
                    proof {
                        lemma_no_shape_width(text@, w as int);
                    }
                    return None;
                }
            } else if c != '#' && c != ' ' {
                proof {
                    lemma_no_shape_width(text@, w as int);
                }
                return None;
            }
            i = i + 1;
        }
        assert(text_shape(text@, w as int, h as int));
        let np: usize = w * h;
        let mut data: u16 = 0;
        proof {
            lemma_pow2_shift(np as u16);
            assert forall|j: u16| j < 16 implies !bit(0u16, j as int) by {
                assert((0u16 >> j) & 1u16 == 0u16) by (bit_vector);
            }
            assert((0u16 as u32) < (1u32 << (np as u32))) by (bit_vector)
                requires
                    np <= 16,
            ;
        }
        let mut k: usize = 0;
        while k < np
            invariant
                k <= np,
                np == w * h,
                np <= 16,
                1 <= w <= 15,
                1 <= h <= 15,
                row_len == w + 1,
                n == h * row_len,
                n == text@.len(),
                text_shape(text@, w as int, h as int),
                (data as u32) < (1u32 << (np as u32)),
                forall|j: int|
                    0 <= j < np ==> (bit(data, j) == (np - 1 - j < k && pixel_char(
                        text@,
                        w as int,
                        np - 1 - j,
                    ) == '#')),
            decreases np - k,
        {
            let r = k / w;
            let c = k % w;
            assert(r < h) by (nonlinear_arith)
                requires
                    k < np,
                    np == w * h,
                    r == k / w,
                    w >= 1,
            ;
            assert(r * row_len + c < n) by (nonlinear_arith)
                requires
                    r < h,
                    c < w,
                    row_len == w + 1,
                    n == h * row_len,
            ;
            let ch = text.get_char(r * row_len + c);
            let idx: usize = np - 1 - k;
            let old_data = data;
            if ch == '#' {
                data = data | (1u16 << idx as u16);
                proof {
                    lemma_or_below(old_data, idx as u16, np as u16);
                }
            }
            proof {
                assert forall|j: int| 0 <= j < np implies (bit(data, j) == (np - 1 - j < k + 1
                    && pixel_char(text@, w as int, np - 1 - j) == '#')) by {
                    if ch == '#' {
                        lemma_bit_or(old_data, idx as u16, j as u16);
                    }
                }
            }
            k = k + 1;
        }
        let f = Figure { data, wh: (w as u8) << 4 | h as u8 };
        proof {
            let w8 = w as u8;
            let h8 = h as u8;
            assert((w8 << 4u8 | h8) == w8 * 16 + h8) by (bit_vector)
                requires
                    w8 < 16,
                    h8 < 16,
            ;
            assert(f.w() == w && f.h() == h);
            assert(f.wf());
            let t = figure_text(f);
            assert forall|i: int| 0 <= i < n implies #[trigger] t[i] == text@[i] by {
                let c = i % (w as int + 1);
                let r = i / (w as int + 1);
                assert(0 <= r < h && i == r * (w as int + 1) + c) by (nonlinear_arith)
                    requires
                        0 <= i < n,
                        n == h * (w + 1),
                        w >= 1,
                        c == i % (w as int + 1),
                        r == i / (w as int + 1),
                ;
                if c != w {
                    let kk = r * w + c;
                    let j = (h - 1 - r) * w + (w - 1 - c);
                    assert(0 <= kk < np && j == np - 1 - kk) by (nonlinear_arith)
                        requires
                            0 <= r < h,
                            0 <= c < w,
                            kk == r * w + c,
                            j == (h - 1 - r) * w + (w - 1 - c),
                            np == w * h,
                    ;
                    lemma_fundamental_div_mod_converse(kk, w as int, r, c);
                }
            }
            assert(t =~= text@);
        }
        Some(f)
    }

    /// Paints the set pixels into `fb` in `color`, row by row, at
    /// (`x + col`, `y + row`) (clipped at the grid's edges), asking
    /// `accept` with the buffer as it stands before each one; stops at the
    /// first pixel that `accept` refuses and then returns `false`.
    pub fn draw<F: Fn(&FrameBuffer, i16, i16) -> bool>(
        &self,
        fb: &mut FrameBuffer,
        x: i8,
        y: i8,
        color: u8,
        accept: F,
    ) -> (r: bool)
        requires
            forall|b: &FrameBuffer, px: i16, py: i16| call_requires(accept, (b, px, py)),
        ensures
            r ==> final(fb)@ == crate::common::drawn(old(fb)@, x as int, y as int, *self, color),
            !r ==> exists|c: int, rr: int|
                {
                    &&& #[trigger] self.pixel(c, rr)
                    &&& final(fb)@ == drawn_upto(old(fb)@, x as int, y as int, *self, color, rr, c)
                    &&& call_ensures(accept, (&*final(fb), (x + c) as i16, (y + rr) as i16), false)
                },
    {
        let h = self.height();
        let w = self.width();
        let ghost v0 = fb@;
        proof {
            fb.lemma_len();
        }
        let mut row: u8 = 0;
        while row < h
            invariant
                h == self.h(),
                w == self.w(),
                row <= h,
                v0 == old(fb)@,
                fb@.len() == SCREEN_SIZE,
                v0.len() == SCREEN_SIZE,
                forall|b: &FrameBuffer, px: i16, py: i16| call_requires(accept, (b, px, py)),
                fb@ == drawn_upto(v0, x as int, y as int, *self, color, row as int, 0),
            decreases h - row,
        {
            let mut col: u8 = 0;
            while col < w
                invariant
                    h == self.h(),
                    w == self.w(),
                    row < h,
                    col <= w,
                    v0 == old(fb)@,
                    fb@.len() == SCREEN_SIZE,
                    v0.len() == SCREEN_SIZE,
                    forall|b: &FrameBuffer, px: i16, py: i16| call_requires(accept, (b, px, py)),
                    fb@ == drawn_upto(v0, x as int, y as int, *self, color, row as int, col as int),
                decreases w - col,
            {
                if self.get_bit(col, row) {
                    let px: i16 = x as i16 + col as i16;
                    let py: i16 = y as i16 + row as i16;
                    if !accept(&*fb, px, py) {
                        return false;
                    }
                    if px >= 0 && px < SCREEN_WIDTH as i16 && py >= 0 && py < SCREEN_HEIGHT as i16 {
                        fb.set(px as usize, py as usize, color);
                    }
                }
                assert(fb@ =~= drawn_upto(v0, x as int, y as int, *self, color, row as int, col + 1));
                col = col + 1;
            }
            assert(drawn_upto(v0, x as int, y as int, *self, color, row as int, w as int) =~= drawn_upto(
                v0,
                x as int,
                y as int,
                *self,
                color,
                row + 1,
                0,
            ));
            row = row + 1;
        }
        assert(fb@ =~= crate::common::drawn(v0, x as int, y as int, *self, color));
        true
    }

    /// The figure turned a quarter clockwise: width and height swap, and
    /// the pixel at (`c`, `r`) of the result is the pixel at
    /// (`r`, `h-1-c`) of the unturned figure.
    pub fn rotate(&self) -> (r: Figure)
        requires
            self.wf(),
        ensures
            r.is_rotation_of(*self),
    {
        let w = self.width();
        let h = self.height();
        let n = self.len();
        let data = self.data;
        proof {
            lemma_pow2_shift(n as u16);
        }
        let mut rotated: u16 = 0;
        let mut i: u8 = 0;
        proof {
            assert forall|j: u16| j < 16 implies !bit(0u16, j as int) by {
                assert((0u16 >> j) & 1u16 == 0u16) by (bit_vector);
            }
            assert((0u16 as u32) < (1u32 << (n as u32))) by (bit_vector)
                requires
                    n <= 16,
            ;
        }
        while i < n
            invariant
                w == self.w(),
                h == self.h(),
                n == w * h,
                n <= 16,
                data == self.data,
                i <= n,
                (rotated as u32) < (1u32 << (n as u32)),
                forall|j: int|
                    0 <= j < n ==> (bit(rotated, j) == (rot_src(j, w as int, h as int) < i && bit(
                        data,
                        rot_src(j, w as int, h as int),
                    ))),
            decreases n - i,
        {
            assert(w > 0 && h > 0) by (nonlinear_arith)
                requires
                    i < n,
                    n == w * h,
            ;
            let q = i / w;
            proof {
                lemma_rot_index(i as int, 0, w as int, h as int);
                assert(0 <= q < h) by (nonlinear_arith)
                    requires
                        w > 0,
                        0 <= i < n,
                        n == w * h,
                        q == i / w,
                ;
                lemma_bit_test(data, i as u16);
            }
            let new_idx: u8 = (i % w) * h + (h - 1 - q);
            assert(new_idx == rot_dest(i as int, w as int, h as int));
            let old_rotated = rotated;
            if data & (1u16 << i as u16) != 0 {
                rotated = rotated | (1u16 << new_idx as u16);
                proof {
                    lemma_or_below(old_rotated, new_idx as u16, n as u16);
                }
            }
            proof {
                assert forall|j: int| 0 <= j < n implies (bit(rotated, j) == (rot_src(
                    j,
                    w as int,
                    h as int,
                ) < i + 1 && bit(data, rot_src(j, w as int, h as int)))) by {
                    lemma_rot_index(i as int, j, w as int, h as int);
                    if bit(data, i as int) {
                        lemma_bit_or(old_rotated, new_idx as u16, j as u16);
                    }
                }
            }
            i = i + 1;
        }
        let r = Figure { data: rotated, wh: h << 4 | w };
        proof {
            assert((h << 4u8 | w) == h * 16 + w) by (bit_vector)
                requires
                    h < 16,
                    w < 16,
            ;
            assert(r.w() == h && r.h() == w);
            assert(r.wf());
            assert forall|c: int, rr: int| 0 <= c < h && 0 <= rr < w implies #[trigger] r.pixel(
                c,
                rr,
            ) == self.pixel(rr, h - 1 - c) by {
                let j = (w - 1 - rr) * h + (h - 1 - c);
                assert(0 <= j < n) by (nonlinear_arith)
                    requires
                        0 <= c < h,
                        0 <= rr < w,
                        j == (w - 1 - rr) * h + (h - 1 - c),
                        n == w * h,
                ;
                lemma_fundamental_div_mod_converse(j, h as int, w - 1 - rr, h - 1 - c);
                assert(rot_src(j, w as int, h as int) == c * w + (w - 1 - rr));
                lemma_rot_index(0, j, w as int, h as int);
            }
        }
        r
    }
}

/// The text of a `w`-wide, `h`-tall grid of `#` and space characters,
/// each row ended by a newline, whose cell (`c`, `r`) is `#` when
/// `on(c, r)`.
pub open spec fn grid_text(w: int, h: int, f: Figure) -> Seq<char> {
    Seq::new(
        (h * (w + 1)) as nat,
        |i: int|
            if i % (w + 1) == w {
                '\n'
            } else if f.pixel(i % (w + 1), i / (w + 1)) {
                '#'
            } else {
                ' '
            },
    )
}

/// The text drawing of `f`: one line per row, `#` for a set pixel and a
/// space for a clear one, each line ended by a newline.
pub open spec fn figure_text(f: Figure) -> Seq<char> {
    grid_text(f.w(), f.h(), f)
}

/// `s` is a rectangle of `h` lines of `w` characters, `#` or space, each
/// ended by a newline, with `1 <= w, h` and `w * h <= 16`.
pub open spec fn text_shape(s: Seq<char>, w: int, h: int) -> bool {
    &&& 1 <= w <= 15
    &&& 1 <= h <= 15
    &&& w * h <= 16
    &&& s.len() == h * (w + 1)
    &&& forall|i: int|
        0 <= i < s.len() ==> if i % (w + 1) == w {
            #[trigger] s[i] == '\n'
        } else {
            s[i] == '#' || s[i] == ' '
        }
}

/// `s` is the text drawing of some figure.
pub open spec fn text_ok(s: Seq<char>) -> bool {
    exists|w: int, h: int| text_shape(s, w, h)
}

/// The character of pixel `k` (row-major) of a text with `w`-wide lines.
pub open spec fn pixel_char(s: Seq<char>, w: int, k: int) -> char {
    s[(k / w) * (w + 1) + k % w]
}

/// `v` with the set pixels of `f` that come before (`col`, `row`) in
/// row-major order painted in `color` at (`x`, `y`), clipped at the edges.
pub open spec fn drawn_upto(v: Seq<u8>, x: int, y: int, f: Figure, color: u8, row: int, col: int) -> Seq<u8> {
    Seq::new(
        SCREEN_SIZE as nat,
        |i: int|
            {
                let c = i % SCREEN_WIDTH as int - x;
                let r = i / SCREEN_WIDTH as int - y;
                if f.pixel(c, r) && (r < row || (r == row && c < col)) {
                    color
                } else {
                    v[i]
                }
            },
    )
}

/// The packed pixels and size of tetromino `i`, in the order I, O, T, Z,
/// S, L, J (sizes 4x1, 2x2, then 3x2).
pub open spec fn tetramino_data(i: int) -> (u16, u8) {
    if i == 0 {
        (0b1111, 65)
    } else if i == 1 {
        (0b11_11, 34)
    } else if i == 2 {
        (0b111_010, 50)
    } else if i == 3 {
        (0b011_110, 50)
    } else if i == 4 {
        (0b110_011, 50)
    } else if i == 5 {
        (0b100_111, 50)
    } else {
        (0b001_111, 50)
    }
}

/// The seven tetrominoes.
pub struct Tetramino(pub [Figure; 7]);

impl Tetramino {
    pub fn new(data: [Figure; 7]) -> (t: Tetramino)
        ensures
            t.0 == data,
    {
        Tetramino(data)
    }

    /// The standard pieces I, O, T, Z, S, L and J.
    pub fn standard() -> (t: Tetramino)
        ensures
            forall|i: int|
                0 <= i < 7 ==> (#[trigger] t.0[i]).data == tetramino_data(i).0 && t.0[i].wh
                    == tetramino_data(i).1,
            forall|i: int| 0 <= i < 7 ==> (#[trigger] t.0[i]).wf(),
    {
        let t = Tetramino(
            [
                Figure { data: 0b1111, wh: 4 << 4 | 1 },
                Figure { data: 0b11_11, wh: 2 << 4 | 2 },
                Figure { data: 0b111_010, wh: 3 << 4 | 2 },
                Figure { data: 0b011_110, wh: 3 << 4 | 2 },
                Figure { data: 0b110_011, wh: 3 << 4 | 2 },
                Figure { data: 0b100_111, wh: 3 << 4 | 2 },
                Figure { data: 0b001_111, wh: 3 << 4 | 2 },
            ],
        );
        proof {
            lemma2_to64();
            assert((4u8 << 4u8 | 1u8) == 65u8) by (bit_vector);
            assert((2u8 << 4u8 | 2u8) == 34u8) by (bit_vector);
            assert((3u8 << 4u8 | 2u8) == 50u8) by (bit_vector);
            assert forall|i: int| 0 <= i < 7 implies (#[trigger] t.0[i]).wf() by {
                if i == 0 {
                    assert(t.0[i].w() == 4 && t.0[i].h() == 1);
                } else if i == 1 {
                    assert(t.0[i].w() == 2 && t.0[i].h() == 2);
                } else {
                    assert(t.0[i].w() == 3 && t.0[i].h() == 2);
                }
            }
        }
        t
    }

    /// The piece `idx` modulo seven.
    pub fn wrapping_at(&self, idx: u8) -> (f: Figure)
        ensures
            f == self.0[idx as int % 7],
    {
        self.0[(idx % 7) as usize]
    }
}

/// The tank sprite, three by three:
/// `##.` / `.##` / `##.`.
pub fn tank_figure() -> (f: Figure)
    ensures
        f.data == 0b110_011_110,
        f.w() == 3,
        f.h() == 3,
        f.wf(),
{
    proof {
        lemma2_to64();
        assert((3u8 << 4u8 | 3u8) == 51u8) by (bit_vector);
    }
    Figure { data: 0b110_011_110, wh: 3 << 4 | 3 }
}

/// A full-width horizontal line, eight by one.
pub fn hline_figure() -> (f: Figure)
    ensures
        f.data == 0xff,
        f.w() == 8,
        f.h() == 1,
        f.wf(),
{
    proof {
        lemma2_to64();
        assert((8u8 << 4u8 | 1u8) == 129u8) by (bit_vector);
    }
    Figure { data: 0xff, wh: 8 << 4 | 1 }
}

/// A text whose first line has `w` characters before its first newline
/// (`w` being the whole text when there is none) has no shape unless it
/// has that width and checks out.
proof fn lemma_no_shape_width(s: Seq<char>, w: int)
    requires
        0 <= w <= s.len(),
        forall|k: int| 0 <= k < w ==> s[k] != '\n',
        w < s.len() ==> s[w] == '\n',
    ensures
        text_ok(s) ==> {
            &&& 1 <= w <= 15
            &&& w < s.len()
            &&& (s.len() as int) % (w + 1) == 0
            &&& text_shape(s, w, (s.len() as int) / (w + 1))
        },
{
    assert forall|ww: int, hh: int| #[trigger] text_shape(s, ww, hh) implies ww == w by {
        vstd::arithmetic::div_mod::lemma_fundamental_div_mod_converse(ww, ww + 1, 0, ww);
        assert(ww < s.len()) by (nonlinear_arith)
            requires
                s.len() == hh * (ww + 1),
                hh >= 1,
                ww >= 1,
        ;
        assert(s[ww] == '\n');
        if ww < w {
            assert(s[ww] != '\n');
        }
        if w < ww {
            vstd::arithmetic::div_mod::lemma_fundamental_div_mod_converse(w, ww + 1, 0, w);
            assert(s[w] == '\n');
        }
    }
    if text_ok(s) {
        let (ww, hh) = choose|ww: int, hh: int| text_shape(s, ww, hh);
        assert(ww == w);
        assert(w < s.len()) by (nonlinear_arith)
            requires
                s.len() == hh * (w + 1),
                hh >= 1,
                w >= 1,
        ;
        vstd::arithmetic::div_mod::lemma_fundamental_div_mod_converse(s.len() as int, w + 1, hh, 0);
        assert(hh == (s.len() as int) / (w + 1));
    }
}

/// Reading a text drawing and writing the figure back gives the same text.
pub proof fn lemma_text_round_trip(s: Seq<char>, r: Option<Figure>, out: Seq<char>)
    requires
        text_ok(s),
        r is Some <==> text_ok(s),
        r matches Some(f) ==> f.wf() && figure_text(f) == s,
        r matches Some(f) ==> out == figure_text(f),
    ensures
        out == s,
{
}

/// The pixels of a well-formed figure fix its data word.
pub proof fn lemma_pixels_determine(f: Figure, g: Figure)
    requires
        f.wf(),
        g.wf(),
        f.wh == g.wh,
        forall|c: int, r: int| #[trigger] f.pixel(c, r) == g.pixel(c, r),
    ensures
        f == g,
{
    let w = f.w();
    let h = f.h();
    let n = w * h;
    lemma_pow2_shift(n as u16);
    assert forall|i: int| 0 <= i < 16 implies bit(f.data, i) == bit(g.data, i) by {
        if i < n {
            let a = i / w;
            let b = i % w;
            assert(0 <= a < h && i == a * w + b) by (nonlinear_arith)
                requires
                    0 <= i < n,
                    n == w * h,
                    w > 0,
                    a == i / w,
                    b == i % w,
            ;
            assert(f.pixel(w - 1 - b, h - 1 - a) == g.pixel(w - 1 - b, h - 1 - a));
        } else {
            lemma_high_clear(f.data, n as u16, i as u16);
            lemma_high_clear(g.data, n as u16, i as u16);
        }
    }
    lemma_bits_eq(f.data, g.data);
}

/// Four quarter turns bring any well-formed figure back to itself.
pub proof fn lemma_four_rotations_identity(f: Figure, r1: Figure, r2: Figure, r3: Figure, r4: Figure)
    requires
        f.wf(),
        r1.is_rotation_of(f),
        r2.is_rotation_of(r1),
        r3.is_rotation_of(r2),
        r4.is_rotation_of(r3),
    ensures
        r4 == f,
{
    assert(r4.wh == f.wh);
    assert forall|c: int, r: int| #[trigger] r4.pixel(c, r) == f.pixel(c, r) by {
        if 0 <= c < f.w() && 0 <= r < f.h() {
            assert(r4.pixel(c, r) == r3.pixel(r, f.w() - 1 - c));
            assert(r3.pixel(r, f.w() - 1 - c) == r2.pixel(f.w() - 1 - c, f.h() - 1 - r));
            assert(r2.pixel(f.w() - 1 - c, f.h() - 1 - r) == r1.pixel(f.h() - 1 - r, c));
            assert(r1.pixel(f.h() - 1 - r, c) == f.pixel(c, r));
        }
    }
    lemma_pixels_determine(r4, f);
}

} // verus!
