use vstd::prelude::*;

use crate::geom::{Bounds2i, Vec2i, Vec2u};

verus! {

/// Terrain id of one grid cell.
#[derive(Clone, Copy, PartialEq, Eq, Structural, Debug, Hash)]
pub struct Tile(pub u8);

/// Index of a sprite in the texture atlas.
#[derive(Clone, Copy, PartialEq, Eq, Structural, Debug, Hash)]
pub struct Sprite(pub u16);

pub const WATER_ID: u8 = 0;

pub const FARM_LAND_ID: u8 = 1;

pub const STONE_ID: u8 = 2;

impl Tile {
    pub fn water() -> (r: Tile)
        ensures
            r.0 == WATER_ID,
    {
        Tile(WATER_ID)
    }

    pub fn farm_land() -> (r: Tile)
        ensures
            r.0 == FARM_LAND_ID,
    {
        Tile(FARM_LAND_ID)
    }

    pub fn stone() -> (r: Tile)
        ensures
            r.0 == STONE_ID,
    {
        Tile(STONE_ID)
    }
}

impl Sprite {
    pub fn factory() -> (r: Sprite)
        ensures
            r.0 == 1,
    {
        Sprite(1)
    }

    pub fn recticle() -> (r: Sprite)
        ensures
            r.0 == 2,
    {
        Sprite(2)
    }

    pub fn ferris() -> (r: Sprite)
        ensures
            r.0 == 3,
    {
        Sprite(3)
    }
}

/// Water and stone cannot be walked on; every other terrain can.
pub open spec fn walkable_tile(t: Tile) -> bool {
    t.0 != WATER_ID && t.0 != STONE_ID
}

pub fn can_walk_tile(tile: Tile) -> (r: bool)
    ensures
        r == walkable_tile(tile),
{
    tile.0 != WATER_ID && tile.0 != STONE_ID
}

/// Dense 2D array, row by row: the cell `(x, y)` is `values[x + size.x * y]`.
#[derive(Clone, Debug)]
pub struct Vec2D<T> {
    pub size: Vec2u,
    pub values: Vec<T>,
}

/// The cell `(x, y)` of a `w` by `h` grid lies within its values.
pub proof fn lemma_index_in_range(w: int, h: int, x: int, y: int)
    requires
        0 <= x < w,
        0 <= y < h,
    ensures
        0 <= x + w * y < w * h,
{
    assert(0 <= x + w * y < w * h) by (nonlinear_arith)
        requires
            0 <= x < w,
            0 <= y < h,
    ;
}

/// After a grid is changed at most at `p` (as `is_set_from` or not at all, with `p` off the
/// grid), every other on-grid cell holds what it held.
pub proof fn lemma_set_cell<T>(n: &Vec2D<T>, o: &Vec2D<T>, p: Vec2i)
    requires
        o.wf(),
        (o.in_bounds(p) && exists|v: T| n.is_set_from(o, p, v)) || (!o.in_bounds(p) && *n == *o),
    ensures
        n.wf(),
        n.size == o.size,
        forall|q: Vec2i| #[trigger] n.in_bounds(q) && q != p ==> n.cell(q) == o.cell(q),
        o.in_bounds(p) ==> exists|v: T| n.is_set_from(o, p, v) && n.cell(p) == v,
{
    if o.in_bounds(p) {
        let v = choose|v: T| n.is_set_from(o, p, v);
        lemma_index_in_range(o.size.x as int, o.size.y as int, p.x as int, p.y as int);
        assert forall|q: Vec2i| #[trigger] n.in_bounds(q) && q != p implies n.cell(q) == o.cell(q) by {
            lemma_index_in_range(o.size.x as int, o.size.y as int, q.x as int, q.y as int);
            if o.index_of(q) == o.index_of(p) {
                assert(q.x == p.x && q.y == p.y) by (nonlinear_arith)
                    requires
                        q.x + o.size.x * q.y == p.x + o.size.x * p.y,
                        0 <= q.x < o.size.x,
                        0 <= p.x < o.size.x,
                        0 <= q.y,
                        0 <= p.y,
                ;
            }
        }
        assert(n.is_set_from(o, p, v) && n.cell(p) == v);
    }
}

impl<T> Vec2D<T> {
    /// The array holds exactly one value per cell.
    pub open spec fn wf(&self) -> bool {
        self.values@.len() == self.size.x * self.size.y
    }

    pub open spec fn in_bounds(&self, p: Vec2i) -> bool {
        0 <= p.x < self.size.x && 0 <= p.y < self.size.y
    }

    pub open spec fn index_of(&self, p: Vec2i) -> int {
        p.x + self.size.x * p.y
    }

    /// The value stored at the in-bounds cell `(x, y)`.
    pub open spec fn cell_at(&self, x: int, y: int) -> T {
        self.values@[x + self.size.x * y]
    }

    /// The value stored at an in-bounds position.
    pub open spec fn cell(&self, p: Vec2i) -> T {
        self.cell_at(p.x as int, p.y as int)
    }

    /// The value at `p`, or `None` outside the grid.
    pub open spec fn get(&self, p: Vec2i) -> Option<T> {
        if self.in_bounds(p) {
            Some(self.cell(p))
        } else {
            None
        }
    }

    /// `self` is `before` with the value at the in-bounds position `p` replaced by `v`.
    pub open spec fn is_set_from(&self, before: &Vec2D<T>, p: Vec2i, v: T) -> bool {
        &&& self.size == before.size
        &&& self.values@ == before.values@.update(before.index_of(p), v)
    }

    fn index(&self, x: u32, y: u32) -> (r: usize)
        requires
            self.wf(),
            x < self.size.x,
            y < self.size.y,
        ensures
            r == x + self.size.x * y,
            r < self.values@.len(),
    {
        proof {
            lemma_index_in_range(self.size.x as int, self.size.y as int, x as int, y as int);
        }
        let n = self.values.len();
        assert(self.size.x * y <= x + self.size.x * y);
        x as usize + self.size.x as usize * y as usize
    }

    /// Whether `p` lies on the grid.
    pub fn contains(&self, p: Vec2i) -> (r: bool)
        ensures
            r == self.in_bounds(p),
    {
        p.x >= 0 && p.y >= 0 && (p.x as u32) < self.size.x && (p.y as u32) < self.size.y
    }

    /// The rectangle `[0, size)`.
    pub fn bounds(&self) -> (r: (Vec2u, Vec2u))
        ensures
            r.0 == (Vec2u { x: 0, y: 0 }),
            r.1 == self.size,
    {
        (Vec2u { x: 0, y: 0 }, self.size)
    }

    /// All positions, row by row: the entry at index `x + size.x * y` is `(x, y)`.
    pub fn iter_positions(&self) -> (r: Vec<Vec2u>)
        requires
            self.wf(),
        ensures
            r@.len() == self.values@.len(),
            forall|i: int|
                0 <= i < r@.len() ==> (#[trigger] r@[i]).x < self.size.x && r@[i].y < self.size.y
                    && r@[i].x + self.size.x * r@[i].y == i,
    {
        let mut r: Vec<Vec2u> = Vec::new();
        let mut y: u32 = 0;
        while y < self.size.y
            invariant
                self.wf(),
                y <= self.size.y,
                r@.len() == self.size.x * y,
                forall|i: int|
                    0 <= i < r@.len() ==> (#[trigger] r@[i]).x < self.size.x && r@[i].y < self.size.y
                        && r@[i].x + self.size.x * r@[i].y == i,
            decreases self.size.y - y,
        {
            let mut x: u32 = 0;
            while x < self.size.x
                invariant
                    self.wf(),
                    y < self.size.y,
                    x <= self.size.x,
                    r@.len() == self.size.x * y + x,
                    forall|i: int|
                        0 <= i < r@.len() ==> (#[trigger] r@[i]).x < self.size.x && r@[i].y
                            < self.size.y && r@[i].x + self.size.x * r@[i].y == i,
                decreases self.size.x - x,
            {
                r.push(Vec2u { x, y });
                x = x + 1;
            }
            proof {
                assert(self.size.x * y + self.size.x == self.size.x * (y + 1)) by (nonlinear_arith);
            }
            y = y + 1;
        }
        r
    }
}

impl<T: Copy> Vec2D<T> {
    /// A grid of the given size with every cell set to `fill`.
    pub fn new(size: Vec2u, fill: T) -> (r: Vec2D<T>)
        requires
            size.x * size.y <= usize::MAX,
        ensures
            r.wf(),
            r.size == size,
            forall|i: int| 0 <= i < r.values@.len() ==> #[trigger] r.values@[i] == fill,
    {
        let n: usize = size.x as usize * size.y as usize;
        let mut values: Vec<T> = Vec::new();
        let mut i: usize = 0;
        while i < n
            invariant
                i <= n,
                values@.len() == i,
                forall|j: int| 0 <= j < values@.len() ==> #[trigger] values@[j] == fill,
            decreases n - i,
        {
            values.push(fill);
            i = i + 1;
        }
        Vec2D { size, values }
    }

    /// Sets every cell to `v`.
    pub fn fill(&mut self, v: T)
        ensures
            final(self).size == old(self).size,
            final(self).values@.len() == old(self).values@.len(),
            forall|i: int| 0 <= i < final(self).values@.len() ==> #[trigger] final(self).values@[i] == v,
    {
        let n = self.values.len();
        let mut i: usize = 0;
        while i < n
            invariant
                i <= n,
                self.size == old(self).size,
                self.values@.len() == n,
                forall|j: int| 0 <= j < i ==> #[trigger] self.values@[j] == v,
            decreases n - i,
        {
            self.values.set(i, v);
            i = i + 1;
        }
    }

    /// The value at an in-bounds position.
    pub fn at(&self, pos: Vec2u) -> (r: T)
        requires
            self.wf(),
            pos.x < self.size.x,
            pos.y < self.size.y,
        ensures
            r == self.cell_at(pos.x as int, pos.y as int),
    {
        let i = self.index(pos.x, pos.y);
        self.values[i]
    }

    /// The value at `pos`, or `None` outside the grid.
    pub fn try_at(&self, pos: Vec2i) -> (r: Option<T>)
        requires
            self.wf(),
        ensures
            r == self.get(pos),
    {
        if self.contains(pos) {
            let i = self.index(pos.x as u32, pos.y as u32);
            Some(self.values[i])
        } else {
            None
        }
    }

    /// The value at `pos`, or `default` outside the grid.
    pub fn at_or(&self, pos: Vec2i, default: T) -> (r: T)
        requires
            self.wf(),
        ensures
            r == (if self.in_bounds(pos) {
                self.cell(pos)
            } else {
                default
            }),
    {
        match self.try_at(pos) {
            Some(v) => v,
            None => default,
        }
    }

    /// Mutable access to an in-bounds cell.
    pub fn at_mut(&mut self, pos: Vec2u) -> (r: &mut T)
        requires
            old(self).wf(),
            pos.x < old(self).size.x,
            pos.y < old(self).size.y,
        ensures
            *r == old(self).cell_at(pos.x as int, pos.y as int),
            final(self).size == old(self).size,
            final(self).values@ == old(self).values@.update(pos.x + old(self).size.x * pos.y, *final(r)),
    {
        let i = self.index(pos.x, pos.y);
        &mut self.values[i]
    }

    /// Sets the value at `pos`; does nothing outside the grid.
    pub fn try_set(&mut self, pos: Vec2i, value: T)
        requires
            old(self).wf(),
        ensures
            final(self).wf(),
            old(self).in_bounds(pos) ==> final(self).is_set_from(old(self), pos, value),
            !old(self).in_bounds(pos) ==> *final(self) == *old(self),
    {
        if self.contains(pos) {
            let i = self.index(pos.x as u32, pos.y as u32);
            self.values.set(i, value);
        }
        assert(self.values@.len() == old(self).values@.len());
    }

    /// All cells as `(position, value)`, row by row.
    pub fn iter(&self) -> (r: Vec<(Vec2u, T)>)
        requires
            self.wf(),
        ensures
            r@.len() == self.values@.len(),
            forall|i: int|
                0 <= i < r@.len() ==> (#[trigger] r@[i]).0.x < self.size.x && r@[i].0.y
                    < self.size.y && r@[i].0.x + self.size.x * r@[i].0.y == i && r@[i].1
                    == self.values@[i],
    {
        let positions = self.iter_positions();
        let mut r: Vec<(Vec2u, T)> = Vec::new();
        let mut i: usize = 0;
        while i < positions.len()
            invariant
                self.wf(),
                positions@.len() == self.values@.len(),
                i <= positions@.len(),
                r@.len() == i,
                forall|j: int|
                    0 <= j < positions@.len() ==> (#[trigger] positions@[j]).x < self.size.x
                        && positions@[j].y < self.size.y && positions@[j].x + self.size.x
                        * positions@[j].y == j,
                forall|j: int|
                    0 <= j < i ==> (#[trigger] r@[j]).0 == positions@[j] && r@[j].1
                        == self.values@[j],
            decreases positions@.len() - i,
        {
            r.push((positions[i], self.values[i]));
            i = i + 1;
        }
        r
    }
}

impl<T: Copy> Vec2D<T> {
    /// The cells of the grid inside `bounds`, as `(position, value)`, row by row.
    pub fn iter_range_excl(&self, bounds: Bounds2i) -> (r: Vec<(Vec2i, T)>)
        requires
            self.wf(),
        ensures
            forall|k: int| 0 <= k < r@.len() ==> bounds.contains_spec((#[trigger] r@[k]).0) && self.in_bounds(r@[k].0)
                && r@[k].1 == self.cell(r@[k].0),
            forall|q: Vec2i| bounds.contains_spec(q) && self.in_bounds(q) ==> exists|k: int| 0 <= k < r@.len() && (#[trigger] r@[k]).0 == q,
    {
        let x0: i64 = if bounds.min.x < 0 { 0 } else { bounds.min.x as i64 };
        let y0: i64 = if bounds.min.y < 0 { 0 } else { bounds.min.y as i64 };
        let x1: i64 = if (bounds.max.x as i64) < self.size.x as i64 { bounds.max.x as i64 } else { self.size.x as i64 };
        let y1: i64 = if (bounds.max.y as i64) < self.size.y as i64 { bounds.max.y as i64 } else { self.size.y as i64 };
        let mut r: Vec<(Vec2i, T)> = Vec::new();
        let mut y: i64 = y0;
        while y < y1
            invariant
                self.wf(),
                0 <= x0,
                x0 >= bounds.min.x,
                x1 <= bounds.max.x,
                x1 <= self.size.x,
                0 <= y0,
                y0 >= bounds.min.y,
                y1 <= bounds.max.y,
                y1 <= self.size.y,
                y0 <= y,
                y1 < y0 || y <= y1,
                forall|q: Vec2i| #[trigger] bounds.contains_spec(q) && self.in_bounds(q) ==> x0 <= q.x < x1 && y0 <= q.y < y1,
                forall|k: int| 0 <= k < r@.len() ==> bounds.contains_spec((#[trigger] r@[k]).0) && self.in_bounds(r@[k].0)
                    && r@[k].1 == self.cell(r@[k].0),
                forall|q: Vec2i| bounds.contains_spec(q) && self.in_bounds(q) && q.y < y ==> exists|k: int| 0 <= k < r@.len() && (#[trigger] r@[k]).0 == q,
            decreases y1 - y,
        {
            let mut x: i64 = x0;
            while x < x1
                invariant
                    self.wf(),
                    0 <= x0,
                    x0 >= bounds.min.x,
                    x1 <= bounds.max.x,
                    x1 <= self.size.x,
                    0 <= y0,
                    y0 >= bounds.min.y,
                    y1 <= bounds.max.y,
                    y1 <= self.size.y,
                    y0 <= y < y1,
                    x0 <= x,
                    x1 < x0 || x <= x1,
                    forall|q: Vec2i| #[trigger] bounds.contains_spec(q) && self.in_bounds(q) ==> x0 <= q.x < x1 && y0 <= q.y < y1,
                    forall|k: int| 0 <= k < r@.len() ==> bounds.contains_spec((#[trigger] r@[k]).0) && self.in_bounds(r@[k].0)
                        && r@[k].1 == self.cell(r@[k].0),
                    forall|q: Vec2i| bounds.contains_spec(q) && self.in_bounds(q) && (q.y < y || (q.y == y && q.x < x))
                        ==> exists|k: int| 0 <= k < r@.len() && (#[trigger] r@[k]).0 == q,
                decreases x1 - x,
            {
                let p = Vec2i { x: x as i32, y: y as i32 };
                let ghost prev = r@;
                let v = self.at(Vec2u { x: x as u32, y: y as u32 });
                r.push((p, v));
                proof {
                    assert forall|q: Vec2i| bounds.contains_spec(q) && self.in_bounds(q) && (q.y < y || (q.y == y && q.x < x + 1))
                        implies exists|k: int| 0 <= k < r@.len() && (#[trigger] r@[k]).0 == q by {
                        if q == p {
                            assert(r@[r@.len() - 1].0 == q);
                        } else {
                            let k = choose|k: int| 0 <= k < prev.len() && (#[trigger] prev[k]).0 == q;
                            assert(r@[k] == prev[k]);
                        }
                    }
                }
                x = x + 1;
            }
            y = y + 1;
        }
        r
    }

    /// Mutable access to the cell at `pos`, or `None` off the grid.
    pub fn try_at_mut(&mut self, pos: Vec2i) -> (r: Option<&mut T>)
        requires
            old(self).wf(),
        ensures
            old(self).in_bounds(pos) ==> (r matches Some(m) && *m == old(self).cell(pos) && final(self).is_set_from(old(self), pos, *final(m))),
            !old(self).in_bounds(pos) ==> r is None && *final(self) == *old(self),
    {
        if self.contains(pos) {
            let i = self.index(pos.x as u32, pos.y as u32);
            Some(&mut self.values[i])
        } else {
            None
        }
    }
}

impl Vec2D<u8> {
    /// Sets every counter to zero.
    pub fn clear(&mut self)
        ensures
            final(self).size == old(self).size,
            final(self).values@.len() == old(self).values@.len(),
            forall|i: int| 0 <= i < final(self).values@.len() ==> #[trigger] final(self).values@[i] == 0,
    {
        self.fill(0)
    }

    /// The counter at `pos`, or zero outside the grid.
    pub fn at_or_default(&self, pos: Vec2i) -> (r: u8)
        requires
            self.wf(),
        ensures
            r == (if self.in_bounds(pos) {
                self.cell(pos)
            } else {
                0
            }),
    {
        self.at_or(pos, 0)
    }
}

impl<T: Copy> Vec2D<Option<T>> {
    /// Removes and returns the value at `pos`; `None` outside the grid.
    pub fn take_at(&mut self, pos: Vec2i) -> (r: Option<T>)
        requires
            old(self).wf(),
        ensures
            r == (if old(self).in_bounds(pos) {
                old(self).cell(pos)
            } else {
                None
            }),
            final(self).wf(),
            old(self).in_bounds(pos) ==> final(self).is_set_from(old(self), pos, None),
            !old(self).in_bounds(pos) ==> *final(self) == *old(self),
    {
        match self.try_at(pos) {
            None => None,
            Some(v) => {
                self.try_set(pos, None);
                v
            },
        }
    }
}

/// The terrain layer, and the sprite of each terrain id.
#[derive(Clone, Debug)]
pub struct Tilemap {
    pub tiles: Vec2D<Tile>,
    pub sprites: Vec<Sprite>,
}

/// Sprites for terrain ids `0..=255`, each shifted by 8 in the atlas.
fn offset_mapping() -> (r: Vec<Sprite>)
    ensures
        r@.len() == 256,
        forall|i: int| 0 <= i < 256 ==> (#[trigger] r@[i]).0 == i + 8,
{
    let mut r: Vec<Sprite> = Vec::new();
    let mut i: u16 = 0;
    while i < 256
        invariant
            i <= 256,
            r@.len() == i,
            forall|j: int| 0 <= j < i ==> (#[trigger] r@[j]).0 == j + 8,
        decreases 256 - i,
    {
        r.push(Sprite(i + 8));
        i = i + 1;
    }
    r
}

impl Tilemap {
    pub open spec fn wf(&self) -> bool {
        self.tiles.wf()
    }

    /// Whether `p` is on the map and its terrain can be walked on.
    pub open spec fn walkable(&self, p: Vec2i) -> bool {
        self.tiles.in_bounds(p) && walkable_tile(self.tiles.cell(p))
    }

    pub fn new(size: Vec2u, fill: Tile) -> (r: Tilemap)
        requires
            size.x * size.y <= usize::MAX,
        ensures
            r.wf(),
            r.tiles.size == size,
            forall|i: int| 0 <= i < r.tiles.values@.len() ==> #[trigger] r.tiles.values@[i] == fill,
            r.sprites@.len() == 256,
            forall|i: int| 0 <= i < 256 ==> (#[trigger] r.sprites@[i]).0 == i + 8,
    {
        Tilemap { sprites: offset_mapping(), tiles: Vec2D::new(size, fill) }
    }

    pub fn at(&self, index: Vec2u) -> (r: Tile)
        requires
            self.wf(),
            index.x < self.tiles.size.x,
            index.y < self.tiles.size.y,
        ensures
            r == self.tiles.cell_at(index.x as int, index.y as int),
    {
        self.tiles.at(index)
    }

    pub fn try_at(&self, index: Vec2i) -> (r: Option<Tile>)
        requires
            self.wf(),
        ensures
            r == self.tiles.get(index),
    {
        self.tiles.try_at(index)
    }

    /// Mutable access to an on-map terrain cell.
    pub fn at_mut(&mut self, index: Vec2u) -> (r: &mut Tile)
        requires
            old(self).wf(),
            index.x < old(self).tiles.size.x,
            index.y < old(self).tiles.size.y,
        ensures
            *r == old(self).tiles.cell_at(index.x as int, index.y as int),
            final(self).sprites == old(self).sprites,
            final(self).tiles.size == old(self).tiles.size,
            final(self).tiles.values@ == old(self).tiles.values@.update(index.x + old(self).tiles.size.x * index.y, *final(r)),
    {
        self.tiles.at_mut(index)
    }

    /// Every cell as `(position, terrain)`, row by row.
    pub fn iter(&self) -> (r: Vec<(Vec2u, Tile)>)
        requires
            self.wf(),
        ensures
            r@.len() == self.tiles.values@.len(),
            forall|i: int|
                0 <= i < r@.len() ==> (#[trigger] r@[i]).0.x < self.tiles.size.x && r@[i].0.y
                    < self.tiles.size.y && r@[i].0.x + self.tiles.size.x * r@[i].0.y == i && r@[i].1
                    == self.tiles.values@[i],
    {
        self.tiles.iter()
    }

    /// The terrain cells inside `bounds`, row by row.
    pub fn iter_range_excl(&self, bounds: Bounds2i) -> (r: Vec<(Vec2i, Tile)>)
        requires
            self.wf(),
        ensures
            forall|k: int| 0 <= k < r@.len() ==> bounds.contains_spec((#[trigger] r@[k]).0) && self.tiles.in_bounds(r@[k].0)
                && r@[k].1 == self.tiles.cell(r@[k].0),
            forall|q: Vec2i| bounds.contains_spec(q) && self.tiles.in_bounds(q) ==> exists|k: int| 0 <= k < r@.len() && (#[trigger] r@[k]).0 == q,
    {
        self.tiles.iter_range_excl(bounds)
    }

    pub fn try_set(&mut self, index: Vec2i, value: Tile)
        requires
            old(self).wf(),
        ensures
            final(self).sprites == old(self).sprites,
            final(self).wf(),
            final(self).tiles.size == old(self).tiles.size,
            old(self).tiles.in_bounds(index) ==> final(self).tiles.is_set_from(&old(self).tiles, index, value),
            !old(self).tiles.in_bounds(index) ==> final(self).tiles == old(self).tiles,
    {
        self.tiles.try_set(index, value)
    }

    pub fn bounds(&self) -> (r: (Vec2u, Vec2u))
        ensures
            r.0 == (Vec2u { x: 0, y: 0 }),
            r.1 == self.tiles.size,
    {
        self.tiles.bounds()
    }

    /// Whether `p` is on the map and walkable.
    pub fn can_walk(&self, p: Vec2i) -> (r: bool)
        requires
            self.wf(),
        ensures
            r == self.walkable(p),
    {
        match self.tiles.try_at(p) {
            Some(t) => can_walk_tile(t),
            None => false,
        }
    }
}

} // verus!
