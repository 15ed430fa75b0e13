//! A player's score: a counter shown on screen as block digits.
//!
//! Each decimal digit is drawn from a 3 x 5 glyph whose cells are squares of
//! `block_size` pixels; digits stand one pixel apart, starting at the score's
//! screen position. The drawing arithmetic is the one of 32-bit signed pixel
//! coordinates: the size and the screen position are read as `i32` (wrapping
//! above `i32::MAX`), the brush is rounded toward zero and saturated to `i32`,
//! and no sum may leave `i32`: `draw_defined` names the inputs on which the
//! arithmetic stays in range and the glyph lookup stays inside the glyph.
use vstd::prelude::*;

use crate::collision::{Point, UVec2, SUBPIXELS};

verus! {

/// `std::time::Instant`, carried opaque: the moment a point was scored.
#[verifier::external_type_specification]
#[verifier::external_body]
pub struct ExInstant(std::time::Instant);

/// Calls `std::time::Instant::now`. Nothing is claimed of the moment returned.
#[verifier::external_body]
fn now() -> std::time::Instant {
    std::time::Instant::now()
}

/// Glyphs of the ten digits, row by row, three cells a row; `1` is a lit cell.
pub const DIGIT_MAP: [[u8; 15]; 10] = [
    [1, 1, 1, 1, 0, 1, 1, 0, 1, 1, 0, 1, 1, 1, 1],
    [1, 1, 0, 0, 1, 0, 0, 1, 0, 0, 1, 0, 0, 1, 0],
    [1, 1, 1, 0, 0, 1, 1, 1, 1, 1, 0, 0, 1, 1, 1],
    [1, 1, 1, 0, 0, 1, 0, 1, 1, 0, 0, 1, 1, 1, 1],
    [1, 0, 1, 1, 0, 1, 1, 1, 1, 0, 0, 1, 0, 0, 1],
    [1, 1, 1, 1, 0, 0, 1, 1, 1, 0, 0, 1, 1, 1, 1],
    [1, 1, 1, 1, 0, 0, 1, 1, 1, 1, 0, 1, 1, 1, 1],
    [1, 1, 1, 0, 0, 1, 0, 0, 1, 0, 0, 1, 0, 0, 1],
    [1, 1, 1, 1, 0, 1, 1, 1, 1, 1, 0, 1, 1, 1, 1],
    [1, 1, 1, 1, 0, 1, 1, 1, 1, 0, 0, 1, 0, 0, 1],
];

/// Cells per glyph row.
pub const DIGIT_WIDTH: u32 = 3;

/// Rows per glyph.
pub const DIGIT_HEIGHT: u32 = 5;

/// Cell `cell` (row-major, `0..15`) of the glyph of digit `d` is lit.
pub open spec fn glyph_lit(d: int, cell: int) -> bool {
    DIGIT_MAP@[d]@[cell] == 1
}

/// The decimal digits of `n`, most significant first, without leading zeros
/// (`0` is the single digit `0`).
pub open spec fn digits_of(n: nat) -> Seq<nat>
    decreases n,
{
    if n < 10 {
        seq![n]
    } else {
        digits_of(n / 10).push(n % 10)
    }
}

/// `v` is an `i32`.
pub open spec fn fits_i32(v: int) -> bool {
    i32::MIN <= v <= i32::MAX
}

/// A `u32` read as an `i32` (two's complement wrap).
pub open spec fn wrap_i32(v: int) -> int {
    if v > i32::MAX {
        v - 0x1_0000_0000
    } else {
        v
    }
}

/// `v` saturated to the `i32` range.
pub open spec fn clamp_i32(v: int) -> int {
    if v < i32::MIN {
        i32::MIN as int
    } else if v > i32::MAX {
        i32::MAX as int
    } else {
        v
    }
}

/// Lattice coordinate `v` as a whole pixel rounded toward zero.
pub open spec fn trunc_pixel(v: int) -> int {
    if v >= 0 {
        v / (SUBPIXELS as int)
    } else {
        -((-v) / (SUBPIXELS as int))
    }
}

pub struct Score {
    /// Points scored.
    pub score: u32,
    /// Side length in pixels of one glyph cell.
    pub block_size: u32,
    /// Screen position of the top-left corner of the first digit, in pixels.
    pub position: UVec2,
    /// Whether the score is drawn at all.
    pub visible: bool,
    /// When the last point was scored, until the display has reacted to it.
    pub scored_time: Option<std::time::Instant>,
}

impl Score {
    /// The cell size as the drawing reads it (an `i32`).
    pub open spec fn unit(self) -> int {
        wrap_i32(self.block_size as int)
    }

    /// The brush's row lies within the score's rows (ends included).
    pub open spec fn in_band(self, brush: Point) -> bool {
        let py = self.position.y as int;
        SUBPIXELS * py <= brush.y <= SUBPIXELS * (py + 5 * self.unit())
    }

    /// The brush's column relative to the first digit, in pixels.
    pub open spec fn column(self, brush: Point) -> int {
        clamp_i32(trunc_pixel(brush.x as int)) - wrap_i32(self.position.x as int)
    }

    /// The brush's row relative to the top of the digits, in pixels.
    pub open spec fn row(self, brush: Point) -> int {
        clamp_i32(trunc_pixel(brush.y as int)) - wrap_i32(self.position.y as int)
    }

    /// The horizontal stride from one digit to the next (glyph width plus a gap).
    pub open spec fn stride(self) -> int {
        3 * self.unit() + 1
    }

    /// The drawing arithmetic for digit `i` stays within `i32`, and a brush
    /// inside that digit's columns reads a cell of its glyph.
    pub open spec fn digit_step_ok(self, brush: Point, i: int) -> bool {
        let offset = self.stride() * i;
        let ox = wrap_i32(self.position.x as int) + offset;
        let lx = self.column(brush) - offset;
        &&& fits_i32(offset)
        &&& fits_i32(ox)
        &&& fits_i32(lx)
        &&& fits_i32(self.row(brush))
        &&& (0 <= lx < 3 * self.unit() ==> self.row(brush) < 5 * self.unit())
    }

    /// The inputs on which drawing completes: any other would overflow `i32`
    /// or read past the bottom row of a glyph.
    pub open spec fn draw_defined(self, brush: Point) -> bool {
        self.visible ==> {
            &&& fits_i32(5 * self.unit())
            &&& self.in_band(brush) ==> forall|i: int|
                0 <= i < digits_of(self.score as nat).len() ==> #[trigger] self.digit_step_ok(
                    brush,
                    i,
                )
        }
    }

    /// The brush paints the score: the score is shown, the brush is within its
    /// rows, and it falls on a lit cell of one of its digits (not in the
    /// one-pixel gap between digits).
    pub open spec fn lit(self, brush: Point) -> bool {
        let s = self.unit();
        let x = self.column(brush);
        let k = x / self.stride();
        let c = x % self.stride();
        &&& self.visible
        &&& 1 <= s
        &&& self.in_band(brush)
        &&& 0 <= x
        &&& k < digits_of(self.score as nat).len()
        &&& c < 3 * s
        &&& glyph_lit(digits_of(self.score as nat)[k] as int, (self.row(brush) / s) * 3 + c / s)
    }

    pub fn new(score: u32, block_size: u32, position: UVec2) -> (r: Self)
        ensures
            r.score == score,
            r.block_size == block_size,
            r.position == position,
            r.visible,
            r.scored_time is None,
    {
        Self { score, block_size, position, visible: true, scored_time: None }
    }

    /// Counts a point and records when it was scored.
    pub fn score(&mut self)
        requires
            old(self).score < u32::MAX,
        ensures
            final(self).score == old(self).score + 1,
            final(self).scored_time is Some,
            final(self).visible == old(self).visible,
            final(self).block_size == old(self).block_size,
            final(self).position == old(self).position,
    {
        self.scored_time = Some(now());
        self.score = self.score + 1;
    }
}

/// The decimal digits of `n`, most significant first.
fn digits(n: u32) -> (v: Vec<u8>)
    ensures
        v@.len() == digits_of(n as nat).len(),
        forall|i: int| 0 <= i < v@.len() ==> v@[i] as nat == #[trigger] digits_of(n as nat)[i],
    decreases n,
{
    if n < 10 {
        let mut v: Vec<u8> = Vec::new();
        v.push(n as u8);
        v
    } else {
        let mut v = digits(n / 10);
        v.push((n % 10) as u8);
        v
    }
}

/// Every digit is below ten, and a `u32` has at most ten of them.
proof fn lemma_digits_bounds(n: nat)
    ensures
        1 <= digits_of(n).len(),
        n < 0x1_0000_0000 ==> digits_of(n).len() <= 10,
        forall|i: int| 0 <= i < digits_of(n).len() ==> #[trigger] digits_of(n)[i] < 10,
    decreases n,
{
    if n >= 10 {
        lemma_digits_bounds(n / 10);
        if n < 0x1_0000_0000 {
            lemma_digits_len_below(n / 10, 429496730);
        }
    }
}

/// A number below `10^k` (here with `k` at most nine) has at most `k` digits.
proof fn lemma_digits_len_below(n: nat, bound: nat)
    requires
        n < bound,
        bound == 10 || bound == 100 || bound == 1000 || bound == 10000 || bound == 100000
            || bound == 1000000 || bound == 10000000 || bound == 100000000 || bound == 1000000000
            || bound == 429496730,
    ensures
        digits_of(n).len() <= if bound == 429496730 {
            9int
        } else if bound == 1000000000 {
            9int
        } else if bound == 100000000 {
            8int
        } else if bound == 10000000 {
            7int
        } else if bound == 1000000 {
            6int
        } else if bound == 100000 {
            5int
        } else if bound == 10000 {
            4int
        } else if bound == 1000 {
            3int
        } else if bound == 100 {
            2int
        } else {
            1int
        },
    decreases n,
{
    if n >= 10 {
        let b2: nat = if bound == 429496730 {
            100000000
        } else {
            bound / 10
        };
        lemma_digits_len_below(n / 10, b2);
    }
}

/// `x` lies in the glyph columns of digit `i` (stride `d`, glyph width
/// `d - 1`) exactly when `i` is the quotient of `x` by `d` and the remainder
/// is below `d - 1`; the column inside the glyph is then that remainder.
proof fn lemma_digit_column(x: int, d: int, i: int)
    requires
        d > 1,
        i >= 0,
    ensures
        (0 <= x - d * i < d - 1) <==> (0 <= x && x / d == i && x % d < d - 1),
        (0 <= x - d * i < d - 1) ==> x - d * i == x % d,
{
    vstd::arithmetic::div_mod::lemma_fundamental_div_mod(x, d);
    if 0 <= x - d * i < d - 1 {
        vstd::arithmetic::div_mod::lemma_fundamental_div_mod_converse(x, d, i, x - d * i);
        assert(d * i >= 0) by (nonlinear_arith)
            requires
                d > 1,
                i >= 0,
        ;
    }
    if 0 <= x && x / d == i && x % d < d - 1 {
        vstd::arithmetic::div_mod::lemma_mod_pos_bound(x, d);
    }
}

fn wrap_u32(v: u32) -> (r: i64)
    ensures
        r == wrap_i32(v as int),
{
    if v > 0x7fff_ffff {
        v as i64 - 0x1_0000_0000
    } else {
        v as i64
    }
}

/// Lattice coordinate `v` as a whole pixel rounded toward zero, saturated to `i32`.
fn pixel_i32(v: i64) -> (r: i64)
    ensures
        r == clamp_i32(trunc_pixel(v as int)),
{
    let t: i64 = if v >= 0 {
        v / SUBPIXELS
    } else {
        let m: i128 = -(v as i128);
        -((m / SUBPIXELS as i128) as i64)
    };
    if t < -0x8000_0000 {
        -0x8000_0000
    } else if t > 0x7fff_ffff {
        0x7fff_ffff
    } else {
        t
    }
}

fn fits_i32_exec(v: i64) -> (r: bool)
    ensures
        r == fits_i32(v as int),
{
    -0x8000_0000 <= v && v <= 0x7fff_ffff
}

impl Score {
    /// Whether the brush paints the score (in white, the one colour of the
    /// game). Decided digit by digit as the display scans them.
    pub fn draw(&self, brush: Point) -> (r: bool)
        requires
            self.draw_defined(brush),
        ensures
            r == self.lit(brush),
    {
        if !self.visible {
            return false;
        }
        let s = wrap_u32(self.block_size);
        let scaled_width = DIGIT_WIDTH as i64 * s;
        let scaled_height = DIGIT_HEIGHT as i64 * s;
        let unit = SUBPIXELS as i128;
        let py = self.position.y as i128;
        if (brush.y as i128) < unit * py || (brush.y as i128) > unit * (py + scaled_height as i128) {
            return false;
        }
        let bx = pixel_i32(brush.x);
        let by = pixel_i32(brush.y);
        let px = wrap_u32(self.position.x);
        let pyw = wrap_u32(self.position.y);
        let ds = digits(self.score);
        proof {
            lemma_digits_bounds(self.score as nat);
        }
        let ghost x = self.column(brush);
        let ghost n = digits_of(self.score as nat).len();
        let ghost d = self.stride();
        let ly = by - pyw;
        proof {
            // the row is never negative once the brush is within the score's rows
            assert(ly == self.row(brush));
            if n > 0 {
                assert(self.digit_step_ok(brush, 0));
            }
        }
        let mut visible = false;
        let mut i: usize = 0;
        while i < ds.len()
            invariant
                self.draw_defined(brush),
                self.visible,
                self.in_band(brush),
                s == self.unit(),
                scaled_width == 3 * s,
                fits_i32(5 * s),
                0 <= i <= ds@.len(),
                ds@.len() == n,
                1 <= n <= 10,
                n == digits_of(self.score as nat).len(),
                forall|j: int| 0 <= j < ds@.len() ==> ds@[j] as nat == #[trigger] digits_of(self.score as nat)[j],
                forall|j: int| 0 <= j < n ==> #[trigger] digits_of(self.score as nat)[j] < 10,
                bx - px == x,
                px == wrap_i32(self.position.x as int),
                fits_i32(bx as int),
                x == self.column(brush),
                ly == self.row(brush),
                d == self.stride(),
                visible == (1 <= s && 0 <= x && x / d < i && x % d < 3 * s && glyph_lit(
                    digits_of(self.score as nat)[x / d] as int,
                    (ly as int / s as int) * 3 + (x % d) / (s as int),
                )),
            decreases ds@.len() - i,
        {
            proof {
                assert(self.digit_step_ok(brush, i as int));
            }
            let offset = (scaled_width + 1) * (i as i64);
            let local_x = bx - (px + offset);
            if local_x >= 0 && local_x < scaled_width {
                proof {
                    lemma_digit_column(x, d, i as int);
                    assert(ly < 5 * s);
                    assert(0 <= ly) by {
                        assert(SUBPIXELS * (self.position.y as int) <= brush.y);
                    }
                    assert(ly / s < 5) by (nonlinear_arith)
                        requires
                            0 <= ly < 5 * s,
                            s >= 1,
                    ;
                    assert(local_x / s < 3) by (nonlinear_arith)
                        requires
                            0 <= local_x < 3 * s,
                            s >= 1,
                    ;
                    assert(0 <= ly / s) by (nonlinear_arith)
                        requires
                            0 <= ly,
                            s >= 1,
                    ;
                    assert(0 <= local_x / s) by (nonlinear_arith)
                        requires
                            0 <= local_x,
                            s >= 1,
                    ;
                }
                let index = (ly / s) * DIGIT_WIDTH as i64 + local_x / s;
                let digit = ds[i];
                assert(digit as nat == digits_of(self.score as nat)[i as int]);
                assert(digit < 10);
                assert(0 <= index < 15);
                visible = DIGIT_MAP[digit as usize][index as usize] == 1;
            } else {
                proof {
                    if 1 <= s {
                        lemma_digit_column(x, d, i as int);
                    }
                }
            }
            i = i + 1;
        }
        visible
    }

    /// Whether drawing completes for this brush (`draw_defined`): the caller
    /// tests this before `draw`.
    pub fn draw_is_defined(&self, brush: Point) -> (r: bool)
        ensures
            r == self.draw_defined(brush),
    {
        if !self.visible {
            return true;
        }
        let s = wrap_u32(self.block_size);
        if !fits_i32_exec(5 * s) {
            return false;
        }
        let unit = SUBPIXELS as i128;
        let py = self.position.y as i128;
        if (brush.y as i128) < unit * py || (brush.y as i128) > unit * (py + (5 * s) as i128) {
            return true;
        }
        let bx = pixel_i32(brush.x);
        let by = pixel_i32(brush.y);
        let px = wrap_u32(self.position.x);
        let pyw = wrap_u32(self.position.y);
        let ds = digits(self.score);
        proof {
            lemma_digits_bounds(self.score as nat);
        }
        let ly = by - pyw;
        let mut i: usize = 0;
        while i < ds.len()
            invariant
                self.visible,
                self.in_band(brush),
                s == self.unit(),
                fits_i32(5 * s),
                0 <= i <= ds@.len(),
                ds@.len() == digits_of(self.score as nat).len(),
                ds@.len() <= 10,
                bx - px == self.column(brush),
                px == wrap_i32(self.position.x as int),
                fits_i32(bx as int),
                ly == self.row(brush),
                forall|j: int| 0 <= j < i ==> #[trigger] self.digit_step_ok(brush, j),
            decreases ds@.len() - i,
        {
            assert(-0x8000_0000 * 40 <= (3 * s + 1) * (i as i64) <= 0x8000_0000 * 40) by (nonlinear_arith)
                requires
                    fits_i32(5 * s),
                    0 <= i <= 10,
            ;
            let offset = (3 * s + 1) * (i as i64);
            let local_x = bx - (px + offset);
            let ok = fits_i32_exec(offset) && fits_i32_exec(px + offset) && fits_i32_exec(local_x)
                && fits_i32_exec(ly) && (!(0 <= local_x && local_x < 3 * s) || ly < 5 * s);
            if !ok {
                assert(!self.digit_step_ok(brush, i as int));
                return false;
            }
            i = i + 1;
        }
        true
    }
}


/// The number that a sequence of decimal digits writes, most significant first.
pub open spec fn decimal_value(ds: Seq<nat>) -> nat
    decreases ds.len(),
{
    if ds.len() == 0 {
        0
    } else {
        decimal_value(ds.drop_last()) * 10 + ds.last()
    }
}

/// `digits_of(n)` is the decimal writing of `n`: digits below ten, no leading
/// zero, and they read back as `n`.
pub proof fn lemma_digits_write_n(n: nat)
    ensures
        decimal_value(digits_of(n)) == n,
        forall|i: int| 0 <= i < digits_of(n).len() ==> #[trigger] digits_of(n)[i] < 10,
        n > 0 ==> digits_of(n)[0] != 0,
        n < 10 ==> digits_of(n) == seq![n],
    decreases n,
{
    lemma_digits_bounds(n);
    if n >= 10 {
        lemma_digits_write_n(n / 10);
        assert(digits_of(n).drop_last() =~= digits_of(n / 10));
        assert(digits_of(n).last() == n % 10);
        assert(digits_of(n)[0] == digits_of(n / 10)[0]);
        assert(n == (n / 10) * 10 + n % 10);
        assert(decimal_value(digits_of(n).drop_last()) == n / 10);
        assert(decimal_value(digits_of(n)) == decimal_value(digits_of(n).drop_last()) * 10
            + digits_of(n).last());
    } else {
        assert(digits_of(n).drop_last() =~= Seq::<nat>::empty());
        assert(decimal_value(digits_of(n)) == decimal_value(digits_of(n).drop_last()) * 10
            + digits_of(n).last());
    }
}

/// A single-digit score paints a brush on its rows exactly where the glyph of
/// that very digit has a lit cell: the brush's pixel, taken from the score's
/// corner, in cells of `block_size` pixels, three cells a row.
pub proof fn lemma_draw_single_digit(sc: Score, b: Point)
    requires
        sc.score < 10,
        sc.visible,
        1 <= sc.block_size <= 0x7fff_ffff,
        sc.position.x <= 0x7fff_ffff,
        sc.position.y <= 0x7fff_ffff,
        0 <= b.x,
        b.x / 256 <= 0x7fff_ffff,
        b.y / 256 <= 0x7fff_ffff,
        sc.position.y * 256 <= b.y < (sc.position.y + 5 * sc.block_size) * 256,
    ensures
        sc.lit(b) <==> ({
            let x = b.x / 256 - sc.position.x;
            let y = b.y / 256 - sc.position.y;
            &&& 0 <= x < 3 * sc.block_size
            &&& DIGIT_MAP@[sc.score as int]@[(y / sc.block_size as int) * 3 + x / (
            sc.block_size as int)] == 1
        }),
{
    lemma_digits_write_n(sc.score as nat);
    let x = b.x / 256 - sc.position.x;
    let d = 3 * sc.block_size + 1;
    assert(sc.column(b) == x);
    assert(sc.stride() == d);
    lemma_digit_column(x, d, 0);
    if 0 <= x {
        vstd::arithmetic::div_mod::lemma_div_pos_is_pos(x, d);
    }
}

/// Whatever the score, a painted brush lies on a lit cell of the glyph of the
/// score's own digit under it: digit `k` of the decimal writing of the score,
/// where `k` counts glyph widths plus one-pixel gaps from the score's corner.
pub proof fn lemma_draw_reads_own_digit(sc: Score, b: Point)
    requires
        sc.block_size <= 0x7fff_ffff,
        sc.position.x <= 0x7fff_ffff,
        sc.position.y <= 0x7fff_ffff,
        0 <= b.x,
        0 <= b.y,
        b.x / 256 <= 0x7fff_ffff,
        b.y / 256 <= 0x7fff_ffff,
        sc.lit(b),
    ensures
        ({
            let s = sc.block_size as int;
            let x = b.x / 256 - sc.position.x;
            let y = b.y / 256 - sc.position.y;
            let k = x / (3 * s + 1);
            let c = x % (3 * s + 1);
            &&& sc.visible
            &&& 1 <= s
            &&& sc.position.y * 256 <= b.y <= (sc.position.y + 5 * s) * 256
            &&& 0 <= k < digits_of(sc.score as nat).len()
            &&& c < 3 * s
            &&& DIGIT_MAP@[digits_of(sc.score as nat)[k] as int]@[(y / s) * 3 + c / s] == 1
        }),
{
}

/// A hidden score paints nothing, nor does any brush above or below its rows.
pub proof fn lemma_draw_only_on_rows(sc: Score, b: Point)
    requires
        sc.block_size <= 0x7fff_ffff,
    ensures
        !sc.visible ==> !sc.lit(b),
        b.y < sc.position.y * 256 ==> !sc.lit(b),
        b.y > (sc.position.y + 5 * sc.block_size) * 256 ==> !sc.lit(b),
        sc.block_size == 0 ==> !sc.lit(b),
{
}


/// When drawing is defined. A hidden score always is; a cell size whose five
/// rows do not fit an `i32` never is (when shown); and with coordinates well
/// inside `i32`, the only brushes left out are those on the row just below the
/// glyphs (which the row check lets through) that fall in a digit's columns.
pub proof fn lemma_draw_defined_cases(sc: Score, b: Point)
    ensures
        !sc.visible ==> sc.draw_defined(b),
        sc.visible && sc.block_size <= 0x7fff_ffff && 5 * sc.block_size > 0x7fff_ffff
            ==> !sc.draw_defined(b),
        sc.visible && 1 <= sc.block_size <= 0x100_0000 && sc.position.x <= 0x100_0000
            && sc.position.y <= 0x100_0000 && 0 <= b.x && 0 <= b.y && b.x / 256 <= 0x100_0000 && b.y
            / 256 <= 0x100_0000 ==> (sc.draw_defined(b) <==> !({
            let s = sc.block_size as int;
            let x = b.x / 256 - sc.position.x;
            &&& b.y == (sc.position.y + 5 * s) * 256
            &&& 0 <= x
            &&& x / (3 * s + 1) < digits_of(sc.score as nat).len()
            &&& x % (3 * s + 1) < 3 * s
        })),
{
    if sc.visible && 1 <= sc.block_size <= 0x100_0000 && sc.position.x <= 0x100_0000
        && sc.position.y <= 0x100_0000 && 0 <= b.x && 0 <= b.y && b.x / 256 <= 0x100_0000 && b.y
        / 256 <= 0x100_0000 {
        let s = sc.block_size as int;
        let x = b.x / 256 - sc.position.x;
        let d = 3 * s + 1;
        let n = digits_of(sc.score as nat).len();
        lemma_digits_bounds(sc.score as nat);
        assert(sc.unit() == s);
        assert(sc.column(b) == x);
        assert(sc.stride() == d);
        let bad = b.y == (sc.position.y + 5 * s) * 256 && 0 <= x && x / d < n && x % d < 3 * s;
        if bad {
            let k = x / d;
            vstd::arithmetic::div_mod::lemma_div_pos_is_pos(x, d);
            lemma_digit_column(x, d, k);
            assert(sc.in_band(b));
            assert(!sc.digit_step_ok(b, k));
        } else if sc.in_band(b) {
            assert forall|i: int| 0 <= i < n implies #[trigger] sc.digit_step_ok(b, i) by {
                lemma_digit_column(x, d, i);
                assert(0 <= d * i <= (3 * 0x100_0000 + 1) * 10) by (nonlinear_arith)
                    requires
                        1 <= d <= 3 * 0x100_0000 + 1,
                        0 <= i <= 10,
                ;
            }
        }
    }
}

} // verus!
