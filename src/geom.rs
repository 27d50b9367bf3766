use vstd::prelude::*;

verus! {

/// Integer grid coordinate.
#[derive(Clone, Copy, PartialEq, Eq, Structural, Debug, Hash)]
pub struct Vec2i {
    pub x: i32,
    pub y: i32,
}

/// Unsigned grid coordinate or size.
#[derive(Clone, Copy, PartialEq, Eq, Structural, Debug, Hash)]
pub struct Vec2u {
    pub x: u32,
    pub y: u32,
}

/// Clamps a mathematical integer into the range of `i32`.
pub open spec fn clamp_i32(v: int) -> int {
    if v < i32::MIN {
        i32::MIN as int
    } else if v > i32::MAX {
        i32::MAX as int
    } else {
        v
    }
}

/// Saturating sum of a coordinate and an offset.
pub open spec fn sat_add(a: i32, d: int) -> i32 {
    clamp_i32(a + d) as i32
}

/// `p` moved by `(dx, dy)`, each coordinate saturating at the limits of `i32`.
pub open spec fn offset_spec(p: Vec2i, dx: int, dy: int) -> Vec2i {
    Vec2i { x: sat_add(p.x, dx), y: sat_add(p.y, dy) }
}

/// Squared Euclidean distance.
pub open spec fn dist_sq(a: Vec2i, b: Vec2i) -> int {
    (a.x - b.x) * (a.x - b.x) + (a.y - b.y) * (a.y - b.y)
}

/// Saturating `a + d` on `i32`.
pub fn saturating_add_i32(a: i32, d: i32) -> (r: i32)
    ensures
        r == sat_add(a, d as int),
{
    let s: i64 = a as i64 + d as i64;
    if s < i32::MIN as i64 {
        i32::MIN
    } else if s > i32::MAX as i64 {
        i32::MAX
    } else {
        s as i32
    }
}

/// Saturating `a - d` on `i32`.
pub fn saturating_sub_i32(a: i32, d: i32) -> (r: i32)
    ensures
        r == sat_add(a, -d),
{
    let s: i64 = a as i64 - d as i64;
    if s < i32::MIN as i64 {
        i32::MIN
    } else if s > i32::MAX as i64 {
        i32::MAX
    } else {
        s as i32
    }
}

/// `v` clamped into `[lo, hi]`.
pub fn clamp_to(v: i32, lo: i32, hi: i32) -> (r: i32)
    requires
        lo <= hi,
    ensures
        r == (if v < lo {
            lo
        } else if v > hi {
            hi
        } else {
            v
        }),
{
    if v < lo {
        lo
    } else if v > hi {
        hi
    } else {
        v
    }
}

impl Vec2i {
    pub fn new(x: i32, y: i32) -> (r: Vec2i)
        ensures
            r == (Vec2i { x, y }),
    {
        Vec2i { x, y }
    }

    /// This position moved by `(dx, dy)`, saturating at the limits of `i32`.
    pub fn offset(self, dx: i32, dy: i32) -> (r: Vec2i)
        ensures
            r == offset_spec(self, dx as int, dy as int),
    {
        Vec2i { x: saturating_add_i32(self.x, dx), y: saturating_add_i32(self.y, dy) }
    }

    /// Squared Euclidean distance to `other`; exact, as `u128` holds any such value.
    pub fn distance_squared(self, other: Vec2i) -> (r: u128)
        ensures
            r as int == dist_sq(self, other),
    {
        let dx: i64 = self.x as i64 - other.x as i64;
        let dy: i64 = self.y as i64 - other.y as i64;
        let ax: u128 = if dx < 0 {
            (-dx) as u128
        } else {
            dx as u128
        };
        let ay: u128 = if dy < 0 {
            (-dy) as u128
        } else {
            dy as u128
        };
        assert(ax * ax <= 0x1_0000_0000 * 0x1_0000_0000) by (nonlinear_arith)
            requires
                ax <= 0x1_0000_0000,
        ;
        assert(ay * ay <= 0x1_0000_0000 * 0x1_0000_0000) by (nonlinear_arith)
            requires
                ay <= 0x1_0000_0000,
        ;
        assert(ax * ax == dx * dx) by (nonlinear_arith)
            requires
                ax == dx || ax == -dx,
        ;
        assert(ay * ay == dy * dy) by (nonlinear_arith)
            requires
                ay == dy || ay == -dy,
        ;
        ax * ax + ay * ay
    }

    /// Conversion to an unsigned position; meaningful where both coordinates are non-negative.
    pub fn as_u32(self) -> (r: Vec2u)
        requires
            self.x >= 0,
            self.y >= 0,
        ensures
            r.x == self.x,
            r.y == self.y,
    {
        Vec2u { x: self.x as u32, y: self.y as u32 }
    }
}

impl Vec2u {
    pub fn new(x: u32, y: u32) -> (r: Vec2u)
        ensures
            r == (Vec2u { x, y }),
    {
        Vec2u { x, y }
    }
}

/// The vector `v` rotated by 90 degrees: `(y, -x)`, saturating for `i32::MIN`.
pub open spec fn rot90_spec(v: Vec2i) -> Vec2i {
    Vec2i { x: v.y, y: clamp_i32(-v.x) as i32 }
}

/// The four orthogonal neighbours, in the order up, left, right, down.
pub open spec fn neighbours_spec(p: Vec2i) -> Seq<Vec2i> {
    seq![offset_spec(p, 0, -1), offset_spec(p, -1, 0), offset_spec(p, 1, 0), offset_spec(p, 0, 1)]
}

pub fn rot90(v: Vec2i) -> (r: Vec2i)
    ensures
        r == rot90_spec(v),
{
    let nx: i32 = if v.x == i32::MIN {
        i32::MAX
    } else {
        -v.x
    };
    Vec2i { x: v.y, y: nx }
}

/// The four orthogonal neighbours of `pos`.
pub fn neighbours(pos: Vec2i) -> (r: [Vec2i; 4])
    ensures
        r@ == neighbours_spec(pos),
{
    let r = [pos.offset(0, -1), pos.offset(-1, 0), pos.offset(1, 0), pos.offset(0, 1)];
    assert(r@ =~= neighbours_spec(pos));
    r
}

/// Half-open rectangle `[min, max)` of grid positions.
#[derive(Clone, Copy, PartialEq, Eq, Structural, Debug)]
pub struct Bounds2i {
    pub min: Vec2i,
    pub max: Vec2i,
}

impl Bounds2i {
    pub open spec fn contains_spec(self, p: Vec2i) -> bool {
        self.min.x <= p.x < self.max.x && self.min.y <= p.y < self.max.y
    }

    pub open spec fn intersects_spec(self, o: Bounds2i) -> bool {
        self.min.x < o.max.x && o.min.x < self.max.x && self.min.y < o.max.y && o.min.y
            < self.max.y
    }

    pub fn contains(&self, p: Vec2i) -> (r: bool)
        ensures
            r == self.contains_spec(p),
    {
        self.min.x <= p.x && p.x < self.max.x && self.min.y <= p.y && p.y < self.max.y
    }

    /// Whether the two rectangles share at least one position.
    pub fn intersects(&self, o: &Bounds2i) -> (r: bool)
        ensures
            r == self.intersects_spec(*o),
    {
        self.min.x < o.max.x && o.min.x < self.max.x && self.min.y < o.max.y && o.min.y
            < self.max.y
    }

    /// The square `[c - margin, c + margin)` around `c`.
    pub fn around(c: Vec2i, margin: i32) -> (r: Bounds2i)
        ensures
            r.min == offset_spec(c, -margin, -margin),
            r.max == offset_spec(c, margin as int, margin as int),
    {
        let mn = Vec2i { x: saturating_sub_i32(c.x, margin), y: saturating_sub_i32(c.y, margin) };
        Bounds2i { min: mn, max: c.offset(margin, margin) }
    }

    pub open spec fn spanning_spec(a: Vec2i, b: Vec2i) -> Bounds2i {
        Bounds2i {
            min: Vec2i {
                x: if a.x < b.x { a.x } else { b.x },
                y: if a.y < b.y { a.y } else { b.y },
            },
            max: offset_spec(
                Vec2i { x: if a.x < b.x { b.x } else { a.x }, y: if a.y < b.y { b.y } else { a.y } },
                1,
                1,
            ),
        }
    }

    /// The smallest rectangle holding both corner positions `a` and `b`.
    pub fn spanning(a: Vec2i, b: Vec2i) -> (r: Bounds2i)
        ensures
            r.min.x == (if a.x < b.x {
                a.x
            } else {
                b.x
            }),
            r.min.y == (if a.y < b.y {
                a.y
            } else {
                b.y
            }),
            r.max == offset_spec(
                Vec2i {
                    x: if a.x < b.x {
                        b.x
                    } else {
                        a.x
                    },
                    y: if a.y < b.y {
                        b.y
                    } else {
                        a.y
                    },
                },
                1,
                1,
            ),
    {
        let lo = Vec2i { x: if a.x < b.x { a.x } else { b.x }, y: if a.y < b.y { a.y } else { b.y } };
        let hi = Vec2i { x: if a.x < b.x { b.x } else { a.x }, y: if a.y < b.y { b.y } else { a.y } };
        Bounds2i { min: lo, max: hi.offset(1, 1) }
    }
}

} // verus!
