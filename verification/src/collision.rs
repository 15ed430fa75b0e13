//! Rectangles on the playfield lattice: placement by an anchor side,
//! point containment and the per-axis collision measure of the game.
//!
//! Coordinates are fixed point: a pixel is `SUBPIXELS` lattice steps, so a
//! position such as `40.5` pixels is `40.5 * SUBPIXELS` steps. Sizes are whole
//! pixels. Containment and collision read a position only through the pixel it
//! falls in (its floor), exactly as the game reads its rectangles.
use vstd::prelude::*;

verus! {

/// Lattice steps per pixel.
pub const SUBPIXELS: i64 = 256;

/// Lattice steps per half pixel.
pub const HALF_PIXEL: i64 = 128;

/// A point on the playfield, in lattice steps (`SUBPIXELS` per pixel).
#[derive(Clone, Copy, Debug, PartialEq, Eq, Structural)]
pub struct Point {
    pub x: i64,
    pub y: i64,
}

/// An unsigned pair of whole pixels (a size, or a screen position).
#[derive(Clone, Copy, Debug, PartialEq, Eq, Structural)]
pub struct UVec2 {
    pub x: u32,
    pub y: u32,
}

/// A signed pair of whole pixels.
#[derive(Clone, Copy, Debug, PartialEq, Eq, Structural)]
pub struct IVec2 {
    pub x: i64,
    pub y: i64,
}

/// The quotient `num / den`. A zero `den` is a division by zero: the quotient
/// is unbounded (or undefined when `num` is zero too).
#[derive(Clone, Copy, Debug, PartialEq, Eq, Structural)]
pub struct Ratio {
    pub num: i64,
    pub den: u64,
}

/// One quotient per axis.
#[derive(Clone, Copy, Debug, PartialEq, Eq, Structural)]
pub struct RatioVec2 {
    pub x: Ratio,
    pub y: Ratio,
}

/// What `Rect::collide` measures: the distance between the two centres in
/// whole pixels, that distance divided by the sum of the half sizes on each
/// axis, and whether the rectangles overlap (the quotient is below one on both
/// axes).
#[derive(Clone, Copy, Debug, PartialEq, Eq, Structural)]
pub struct CollissionResult {
    pub overlap: bool,
    pub distance: IVec2,
    pub normalized: RatioVec2,
}

/// The nine anchors of a rectangle.
#[derive(Clone, Copy, Debug, PartialEq, Eq, Structural)]
pub enum Side {
    Left,
    TopLeft,
    Top,
    TopRight,
    Right,
    BottomRight,
    BottomLeft,
    Bottom,
    Center,
}

/// An axis-aligned rectangle: its top-left corner and its size in pixels.
#[derive(Clone, Copy, Debug, PartialEq, Eq, Structural)]
pub struct Rect {
    pub position: Point,
    pub size: UVec2,
}

/// `n` whole pixels in lattice steps.
pub open spec fn steps(n: int) -> int {
    n * SUBPIXELS
}

/// The pixel that lattice coordinate `v` falls in (rounded down).
pub open spec fn pixel_of(v: int) -> int {
    v / (SUBPIXELS as int)
}

/// `v` is a lattice coordinate (an `i64`).
pub open spec fn fits_i64(v: int) -> bool {
    i64::MIN <= v <= i64::MAX
}

/// Where anchor `side` of a rectangle of size `size` lies, relative to its
/// top-left corner, in lattice steps. The middle of an edge is found with the
/// half size rounded down to a whole pixel, the bottom midpoint and the centre
/// with the exact half size.
pub open spec fn anchor_offset(size: UVec2, side: Side) -> (int, int) {
    let w = size.x as int;
    let h = size.y as int;
    match side {
        Side::Left => (0, steps(h / 2)),
        Side::TopLeft => (0, 0),
        Side::Top => (steps(w / 2), 0),
        Side::TopRight => (steps(w), 0),
        Side::Right => (steps(w), steps(h / 2)),
        Side::BottomRight => (steps(w), steps(h)),
        Side::BottomLeft => (0, steps(h)),
        Side::Bottom => (w * HALF_PIXEL, steps(h)),
        Side::Center => (w * HALF_PIXEL, h * HALF_PIXEL),
    }
}

/// The anchors by which a rectangle can be placed.
pub open spec fn placeable(side: Side) -> bool {
    side is Left || side is Right || side is Center || side is Bottom || side is BottomLeft
}

/// How far the top-left corner lies from the point a rectangle is placed at,
/// for each placeable anchor. Placement uses the exact half size throughout.
pub open spec fn placement_offset(size: UVec2, side: Side) -> (int, int) {
    let w = size.x as int;
    let h = size.y as int;
    match side {
        Side::Left => (0, h * HALF_PIXEL),
        Side::Right => (steps(w), h * HALF_PIXEL),
        Side::Center => (w * HALF_PIXEL, h * HALF_PIXEL),
        Side::Bottom => (w * HALF_PIXEL, steps(h)),
        _ => (0, steps(h)),
    }
}

/// `pos - placement_offset` fits the lattice.
pub open spec fn can_place(pos: Point, size: UVec2, side: Side) -> bool {
    &&& placeable(side)
    &&& fits_i64(pos.x - placement_offset(size, side).0)
    &&& fits_i64(pos.y - placement_offset(size, side).1)
}

/// The top-left corner that puts anchor `side` at `pos`.
pub open spec fn placed_corner(pos: Point, size: UVec2, side: Side) -> (int, int) {
    (pos.x - placement_offset(size, side).0, pos.y - placement_offset(size, side).1)
}

/// One axis of the collision measure: the difference of the two centres, each
/// on a whole pixel (the position rounded down plus the half size rounded down).
pub open spec fn axis_distance(a_pos: int, b_pos: int, a_size: int, b_size: int) -> int {
    (pixel_of(a_pos) + a_size / 2) - (pixel_of(b_pos) + b_size / 2)
}

/// Absolute value.
pub open spec fn abs(v: int) -> int {
    if v < 0 { -v } else { v }
}

/// The two rectangles overlap on one axis: the normalized distance is below one.
pub open spec fn axis_overlap(a_pos: int, b_pos: int, a_size: int, b_size: int) -> bool {
    abs(2 * axis_distance(a_pos, b_pos, a_size, b_size)) < a_size + b_size
}

/// `r` is the distance over the sum of the half sizes, written as `2 * d / (a + b)`.
pub open spec fn axis_ratio(a_pos: int, b_pos: int, a_size: int, b_size: int, r: Ratio) -> bool {
    &&& r.num == 2 * axis_distance(a_pos, b_pos, a_size, b_size)
    &&& r.den == a_size + b_size
}

impl Rect {
    /// The collision measure of `self` against `other`, as `collide` returns it.
    pub open spec fn collision_of(self, other: Rect, r: CollissionResult) -> bool {
        let ax = self.position.x as int;
        let ay = self.position.y as int;
        let bx = other.position.x as int;
        let by = other.position.y as int;
        let aw = self.size.x as int;
        let ah = self.size.y as int;
        let bw = other.size.x as int;
        let bh = other.size.y as int;
        &&& r.distance.x == axis_distance(ax, bx, aw, bw)
        &&& r.distance.y == axis_distance(ay, by, ah, bh)
        &&& axis_ratio(ax, bx, aw, bw, r.normalized.x)
        &&& axis_ratio(ay, by, ah, bh, r.normalized.y)
        &&& r.overlap == (axis_overlap(ax, bx, aw, bw) && axis_overlap(ay, by, ah, bh))
    }

    /// Point `p` lies in the pixels that the rectangle covers, counted from
    /// the pixel its corner falls in.
    pub open spec fn covers(self, p: Point) -> bool {
        let cx = pixel_of(self.position.x as int);
        let cy = pixel_of(self.position.y as int);
        &&& steps(cx) <= p.x < steps(cx + self.size.x)
        &&& steps(cy) <= p.y < steps(cy + self.size.y)
    }

    /// Anchor `side` of the rectangle, in lattice steps.
    pub open spec fn anchor(self, side: Side) -> (int, int) {
        (
            self.position.x + anchor_offset(self.size, side).0,
            self.position.y + anchor_offset(self.size, side).1,
        )
    }

    /// The anchor fits the lattice.
    pub open spec fn anchor_fits(self, side: Side) -> bool {
        fits_i64(self.anchor(side).0) && fits_i64(self.anchor(side).1)
    }

    pub fn new(position: Point, size: UVec2) -> (r: Self)
        ensures
            r.position == position,
            r.size == size,
    {
        Self { position, size }
    }

    /// A rectangle of size `size` whose anchor `side` is at `position`.
    pub fn at_side(position: Point, size: UVec2, side: Side) -> (r: Self)
        requires
            can_place(position, size, side),
        ensures
            r.size == size,
            (r.position.x as int, r.position.y as int) == placed_corner(position, size, side),
    {
        let mut a = Self::new(Point { x: 0, y: 0 }, size);
        a.set_pos_at(position, side);
        a
    }

    pub fn collide(&self, other: &Self) -> (r: CollissionResult)
        ensures
            self.collision_of(*other, r),
    {
        let xc = collide_1(self.position.x, other.position.x, self.size.x, other.size.x);
        let yc = collide_1(self.position.y, other.position.y, self.size.y, other.size.y);
        CollissionResult {
            overlap: xc.2 && yc.2,
            distance: IVec2 { x: xc.0, y: yc.0 },
            normalized: RatioVec2 { x: xc.1, y: yc.1 },
        }
    }

    pub fn contains(&self, pos: Point) -> (r: bool)
        ensures
            r == self.covers(pos),
    {
        let cx = floor_pixel(self.position.x) as i128;
        let cy = floor_pixel(self.position.y) as i128;
        let px = pos.x as i128;
        let py = pos.y as i128;
        let unit = SUBPIXELS as i128;
        (px >= cx * unit && px < (cx + self.size.x as i128) * unit) && (py >= cy * unit && py < (cy
            + self.size.y as i128) * unit)
    }

    pub fn get_pos_at(&self, side: Side) -> (r: Point)
        requires
            self.anchor_fits(side),
        ensures
            (r.x as int, r.y as int) == self.anchor(side),
    {
        let w = self.size.x as i64;
        let h = self.size.y as i64;
        let x = self.position.x;
        let y = self.position.y;
        match side {
            Side::Left => Point { x, y: y + (h / 2) * SUBPIXELS },
            Side::TopLeft => Point { x, y },
            Side::Top => Point { x: x + (w / 2) * SUBPIXELS, y },
            Side::TopRight => Point { x: x + w * SUBPIXELS, y },
            Side::Right => Point { x: x + w * SUBPIXELS, y: y + (h / 2) * SUBPIXELS },
            Side::BottomRight => Point { x: x + w * SUBPIXELS, y: y + h * SUBPIXELS },
            Side::BottomLeft => Point { x, y: y + h * SUBPIXELS },
            Side::Bottom => Point { x: x + w * HALF_PIXEL, y: y + h * SUBPIXELS },
            Side::Center => Point { x: x + w * HALF_PIXEL, y: y + h * HALF_PIXEL },
        }
    }

    pub fn set_size(self, size: UVec2) -> (r: Self)
        ensures
            r.position == self.position,
            r.size == size,
    {
        let mut s = self;
        s.size = size;
        s
    }

    /// Moves the rectangle so that its anchor `side` lies at `pos`.
    pub fn set_pos_at(&mut self, pos: Point, side: Side)
        requires
            can_place(pos, old(self).size, side),
        ensures
            final(self).size == old(self).size,
            (final(self).position.x as int, final(self).position.y as int) == placed_corner(
                pos,
                old(self).size,
                side,
            ),
    {
        let w = self.size.x as i64;
        let h = self.size.y as i64;
        self.position = match side {
            Side::Left => Point { x: pos.x, y: pos.y - h * HALF_PIXEL },
            Side::Right => Point { x: pos.x - w * SUBPIXELS, y: pos.y - h * HALF_PIXEL },
            Side::Center => Point { x: pos.x - w * HALF_PIXEL, y: pos.y - h * HALF_PIXEL },
            Side::Bottom => Point { x: pos.x - w * HALF_PIXEL, y: pos.y - h * SUBPIXELS },
            _ => Point { x: pos.x, y: pos.y - h * SUBPIXELS },
        };
    }
}

/// Whether a rectangle of size `size` can be placed with its anchor `side` at
/// `pos` (`can_place`): callers of `Rect::at_side` and `Rect::set_pos_at` test
/// this first.
pub fn placement_allowed(pos: Point, size: UVec2, side: Side) -> (r: bool)
    ensures
        r == can_place(pos, size, side),
{
    let w = size.x as i128;
    let h = size.y as i128;
    let unit = SUBPIXELS as i128;
    let half = HALF_PIXEL as i128;
    let (ox, oy): (i128, i128) = match side {
        Side::Left => (0, h * half),
        Side::Right => (w * unit, h * half),
        Side::Center => (w * half, h * half),
        Side::Bottom => (w * half, h * unit),
        Side::BottomLeft => (0, h * unit),
        _ => {
            return false;
        },
    };
    let x = pos.x as i128 - ox;
    let y = pos.y as i128 - oy;
    i64::MIN as i128 <= x && x <= i64::MAX as i128 && i64::MIN as i128 <= y && y <= i64::MAX as i128
}

impl Default for Rect {
    fn default() -> (r: Self)
        ensures
            r.position == (Point { x: 0, y: 0 }),
            r.size == (UVec2 { x: 0, y: 0 }),
    {
        Rect { position: Point { x: 0, y: 0 }, size: UVec2 { x: 0, y: 0 } }
    }
}

/// The pixel that lattice coordinate `v` falls in.
fn floor_pixel(v: i64) -> (r: i64)
    ensures
        r == pixel_of(v as int),
{
    if v >= 0 {
        v / SUBPIXELS
    } else {
        let m = -1 - v;
        assert(pixel_of(v as int) == -1 - m / SUBPIXELS) by {
            assert(m == SUBPIXELS * (m / SUBPIXELS) + m % SUBPIXELS);
        }
        -1 - m / SUBPIXELS
    }
}

/// One axis of `Rect::collide`: the distance between the centres, its
/// quotient by the sum of the half sizes, and whether that quotient is below one.
fn collide_1(a_pos: i64, b_pos: i64, a_size: u32, b_size: u32) -> (r: (i64, Ratio, bool))
    ensures
        r.0 == axis_distance(a_pos as int, b_pos as int, a_size as int, b_size as int),
        axis_ratio(a_pos as int, b_pos as int, a_size as int, b_size as int, r.1),
        r.2 == axis_overlap(a_pos as int, b_pos as int, a_size as int, b_size as int),
{
    let a_center = floor_pixel(a_pos) + (a_size / 2) as i64;
    let b_center = floor_pixel(b_pos) + (b_size / 2) as i64;
    let distance = a_center - b_center;
    let num = 2 * distance;
    let den = a_size as u64 + b_size as u64;
    let mag: u64 = if num < 0 { (-num) as u64 } else { num as u64 };
    (distance, Ratio { num, den }, mag < den)
}

/// Placing a rectangle by an anchor and reading that anchor back gives the
/// point it was placed at. For `Left` and `Right` this needs an even height:
/// the edge midpoint is read with the half height rounded down.
pub proof fn lemma_anchor_of_placed(r: Rect, pos: Point, side: Side)
    requires
        can_place(pos, r.size, side),
        (side is Left || side is Right) ==> r.size.y % 2 == 0,
        (r.position.x as int, r.position.y as int) == placed_corner(pos, r.size, side),
    ensures
        r.anchor(side) == (pos.x as int, pos.y as int),
{
    let h = r.size.y as int;
    if side is Left || side is Right {
        assert(steps(h / 2) == h * HALF_PIXEL) by {
            assert(h == 2 * (h / 2));
        }
    }
}

/// Collision is antisymmetric: seen from the other rectangle the distance and
/// the normalized distance change sign, and the overlap is the same.
pub proof fn lemma_collide_antisymmetric(a: Rect, b: Rect, ab: CollissionResult, ba: CollissionResult)
    requires
        a.collision_of(b, ab),
        b.collision_of(a, ba),
    ensures
        ab.overlap == ba.overlap,
        ab.distance.x == -ba.distance.x,
        ab.distance.y == -ba.distance.y,
        ab.normalized.x.num == -ba.normalized.x.num,
        ab.normalized.y.num == -ba.normalized.y.num,
        ab.normalized.x.den == ba.normalized.x.den,
        ab.normalized.y.den == ba.normalized.y.den,
{
}

/// Rounding down to a pixel commutes with a shift by whole pixels.
proof fn lemma_pixel_of_shift(v: int, k: int)
    ensures
        pixel_of(v + steps(k)) == pixel_of(v) + k,
{
    assert(v == SUBPIXELS * pixel_of(v) + v % (SUBPIXELS as int));
    assert(v + steps(k) == SUBPIXELS * (pixel_of(v) + k) + v % (SUBPIXELS as int));
    vstd::arithmetic::div_mod::lemma_fundamental_div_mod_converse(
        v + steps(k),
        SUBPIXELS as int,
        pixel_of(v) + k,
        v % (SUBPIXELS as int),
    );
}

/// Moving both rectangles by the same whole number of pixels leaves their
/// collision measure unchanged.
pub proof fn lemma_collide_shift(a: Rect, b: Rect, a2: Rect, b2: Rect, dx: int, dy: int)
    requires
        a2.size == a.size,
        b2.size == b.size,
        a2.position.x == a.position.x + steps(dx),
        a2.position.y == a.position.y + steps(dy),
        b2.position.x == b.position.x + steps(dx),
        b2.position.y == b.position.y + steps(dy),
    ensures
        forall|r: CollissionResult| a.collision_of(b, r) <==> a2.collision_of(b2, r),
{
    lemma_pixel_of_shift(a.position.x as int, dx);
    lemma_pixel_of_shift(a.position.y as int, dy);
    lemma_pixel_of_shift(b.position.x as int, dx);
    lemma_pixel_of_shift(b.position.y as int, dy);
}

/// A point lies in a rectangle exactly when the pixel it falls in is one of
/// the pixels that the rectangle covers.
pub proof fn lemma_covers_pixel(r: Rect, p: Point)
    ensures
        r.covers(p) <==> {
            let cx = pixel_of(r.position.x as int);
            let cy = pixel_of(r.position.y as int);
            &&& cx <= pixel_of(p.x as int) < cx + r.size.x
            &&& cy <= pixel_of(p.y as int) < cy + r.size.y
        },
{
    let x = p.x as int;
    let y = p.y as int;
    assert(x == SUBPIXELS * pixel_of(x) + x % (SUBPIXELS as int));
    assert(y == SUBPIXELS * pixel_of(y) + y % (SUBPIXELS as int));
}

/// What `collide` returns, stated from the rectangles alone: on each axis the
/// centre of a rectangle is the pixel its corner falls in plus half its size
/// rounded down; the distance is the difference of the centres; the
/// normalized distance is twice the distance over the sum of the sizes; and
/// the rectangles overlap exactly when the normalized distance is strictly
/// between -1 and 1 on both axes.
pub proof fn lemma_collision_measure(a: Rect, b: Rect, r: CollissionResult)
    requires
        a.collision_of(b, r),
    ensures
        r.distance.x == (a.position.x / 256 + a.size.x / 2) - (b.position.x / 256 + b.size.x / 2),
        r.distance.y == (a.position.y / 256 + a.size.y / 2) - (b.position.y / 256 + b.size.y / 2),
        r.normalized.x.num == 2 * r.distance.x,
        r.normalized.y.num == 2 * r.distance.y,
        r.normalized.x.den == a.size.x + b.size.x,
        r.normalized.y.den == a.size.y + b.size.y,
        r.overlap <==> (-(r.normalized.x.den as int) < r.normalized.x.num < r.normalized.x.den
            && -(r.normalized.y.den as int) < r.normalized.y.num < r.normalized.y.den),
{
}

/// Two rectangles whose centres are too far apart on either axis do not
/// overlap, whatever the other axis says.
pub proof fn lemma_collision_needs_both_axes(a: Rect, b: Rect, r: CollissionResult)
    requires
        a.collision_of(b, r),
    ensures
        r.overlap ==> 2 * r.distance.x < a.size.x + b.size.x && 2 * r.distance.y < a.size.y
            + b.size.y && -2 * r.distance.x < a.size.x + b.size.x && -2 * r.distance.y < a.size.y
            + b.size.y,
        2 * r.distance.y >= a.size.y + b.size.y ==> !r.overlap,
        2 * r.distance.x >= a.size.x + b.size.x ==> !r.overlap,
        -2 * r.distance.y >= a.size.y + b.size.y ==> !r.overlap,
        -2 * r.distance.x >= a.size.x + b.size.x ==> !r.overlap,
{
    lemma_collision_measure(a, b, r);
}

/// Where each anchor lies, in lattice steps from the corner: the corners at
/// 0 and the full size, edge midpoints at the half size rounded down to a
/// whole pixel, the bottom midpoint and the centre at the exact half size.
pub proof fn lemma_anchor_positions(r: Rect)
    ensures
        r.anchor(Side::TopLeft) == (r.position.x as int, r.position.y as int),
        r.anchor(Side::Top) == (r.position.x + (r.size.x / 2) * 256, r.position.y as int),
        r.anchor(Side::TopRight) == (r.position.x + r.size.x * 256, r.position.y as int),
        r.anchor(Side::Left) == (r.position.x as int, r.position.y + (r.size.y / 2) * 256),
        r.anchor(Side::Right) == (r.position.x + r.size.x * 256, r.position.y + (r.size.y / 2)
            * 256),
        r.anchor(Side::BottomLeft) == (r.position.x as int, r.position.y + r.size.y * 256),
        r.anchor(Side::BottomRight) == (r.position.x + r.size.x * 256, r.position.y + r.size.y
            * 256),
        r.anchor(Side::Bottom) == (r.position.x + r.size.x * 128, r.position.y + r.size.y * 256),
        r.anchor(Side::Center) == (r.position.x + r.size.x * 128, r.position.y + r.size.y * 128),
{
}

/// The edge midpoints sit on whole pixels within half a pixel of the exact
/// middle (never past it), and the centre is exactly halfway across.
pub proof fn lemma_anchor_midpoints(r: Rect)
    ensures
        ({
            let top = r.anchor(Side::Top).0 - r.anchor(Side::TopLeft).0;
            &&& top % 256 == 0
            &&& 2 * top <= r.size.x * 256 < 2 * top + 512
        }),
        ({
            let left = r.anchor(Side::Left).1 - r.anchor(Side::TopLeft).1;
            &&& left % 256 == 0
            &&& 2 * left <= r.size.y * 256 < 2 * left + 512
        }),
        r.anchor(Side::TopRight).0 - r.anchor(Side::TopLeft).0 == r.size.x * 256,
        r.anchor(Side::BottomLeft).1 - r.anchor(Side::TopLeft).1 == r.size.y * 256,
        2 * (r.anchor(Side::Center).0 - r.anchor(Side::TopLeft).0) == r.size.x * 256,
        2 * (r.anchor(Side::Center).1 - r.anchor(Side::TopLeft).1) == r.size.y * 256,
        r.anchor(Side::Bottom).0 == r.anchor(Side::Center).0,
{
    lemma_anchor_positions(r);
}

/// Where placement puts the corner, for each anchor: the anchor point minus
/// the exact offset of that anchor (half sizes unrounded).
pub proof fn lemma_placed_corners(pos: Point, size: UVec2)
    ensures
        placed_corner(pos, size, Side::Left) == (pos.x as int, pos.y - size.y * 128),
        placed_corner(pos, size, Side::Right) == (pos.x - size.x * 256, pos.y - size.y * 128),
        placed_corner(pos, size, Side::Center) == (pos.x - size.x * 128, pos.y - size.y * 128),
        placed_corner(pos, size, Side::Bottom) == (pos.x - size.x * 128, pos.y - size.y * 256),
        placed_corner(pos, size, Side::BottomLeft) == (pos.x as int, pos.y - size.y * 256),
        placeable(Side::Left) && placeable(Side::Right) && placeable(Side::Center) && placeable(
            Side::Bottom,
        ) && placeable(Side::BottomLeft),
        !placeable(Side::TopLeft) && !placeable(Side::Top) && !placeable(Side::TopRight)
            && !placeable(Side::BottomRight),
{
}

/// A rectangle placed by its left or right edge is centred vertically on the
/// point; placed by its centre it is centred on both axes.
pub proof fn lemma_placed_centred(pos: Point, size: UVec2)
    ensures
        2 * (pos.y - placed_corner(pos, size, Side::Left).1) == size.y * 256,
        2 * (pos.y - placed_corner(pos, size, Side::Right).1) == size.y * 256,
        pos.x - placed_corner(pos, size, Side::Right).0 == size.x * 256,
        2 * (pos.x - placed_corner(pos, size, Side::Center).0) == size.x * 256,
        2 * (pos.y - placed_corner(pos, size, Side::Center).1) == size.y * 256,
        placed_corner(pos, size, Side::Left).0 == pos.x,
{
    lemma_placed_corners(pos, size);
}

/// A point lies in a rectangle exactly when its pixel (rounded down) is one of
/// the pixels from the corner's pixel on, as many as the size.
pub proof fn lemma_contains_pixels(r: Rect, p: Point)
    ensures
        r.covers(p) <==> (r.position.x / 256 <= p.x / 256 < r.position.x / 256 + r.size.x
            && r.position.y / 256 <= p.y / 256 < r.position.y / 256 + r.size.y),
{
    lemma_covers_pixel(r, p);
}

} // verus!
