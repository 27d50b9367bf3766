use vstd::prelude::*;

use itertools::Itertools;
use smallvec::SmallVec;

use crate::geom::{
    clamp_to, dist_sq, neighbours, neighbours_spec, offset_spec, rot90, rot90_spec, sat_add,
    saturating_add_i32, saturating_sub_i32, Vec2i,
};
use crate::grid::Tilemap;
use crate::resource::Error;
use crate::state::GameState;
use crate::stats::Event;

verus! {

/// Navigation state of one agent.
#[derive(Clone, Copy, PartialEq, Eq, Structural, Debug)]
pub enum NavState {
    DestinationReached,
    /// The last destination tried could not be reached.
    Unreachable(Vec2i),
    Travelling(Navigation),
}

/// `NavState` without the route details.
#[derive(Clone, Copy, PartialEq, Eq, Structural, Debug)]
pub enum NavStatus {
    DestinationReached,
    Unreachable(Vec2i),
    Travelling,
}

/// Route to a destination, possibly walking around an obstacle.
#[derive(Clone, Copy, PartialEq, Eq, Structural, Debug)]
pub struct Navigation {
    pub destination: Vec2i,
    pub pivot: Option<Pivot>,
    pub unreachable: bool,
}

/// Walking around an obstacle: the obstacle tile held on to, the best squared distance to the
/// destination when it began, and where it began.
#[derive(Clone, Copy, PartialEq, Eq, Structural, Debug)]
pub struct Pivot {
    pub pivot_pos: Vec2i,
    pub best_dist: u128,
    pub start_pos: Vec2i,
}

impl NavStatus {
    pub fn is_travelling(&self) -> (r: bool)
        ensures
            r == (*self is Travelling),
    {
        matches!(self, NavStatus::Travelling)
    }

    pub fn is_idle(&self) -> (r: bool)
        ensures
            r == !(*self is Travelling),
    {
        !self.is_travelling()
    }
}

impl Default for NavState {
    fn default() -> (r: NavState)
        ensures
            r == NavState::DestinationReached,
    {
        NavState::DestinationReached
    }
}

impl NavState {
    /// The status that `status` reports.
    pub open spec fn spec_status(self) -> NavStatus {
        match self {
            NavState::DestinationReached => NavStatus::DestinationReached,
            NavState::Unreachable(dst) => NavStatus::Unreachable(dst),
            NavState::Travelling(_) => NavStatus::Travelling,
        }
    }

    /// Starts travelling to `destination`, forgetting any earlier route or failure.
    pub fn set_destination(&mut self, destination: Vec2i)
        ensures
            *final(self) == spec_set_destination(*old(self), destination),
    {
        *self = NavState::Travelling(Navigation::new(destination));
    }

    pub fn status(&self) -> (r: NavStatus)
        ensures
            r == self.spec_status(),
    {
        match self {
            NavState::DestinationReached => NavStatus::DestinationReached,
            NavState::Unreachable(dst) => NavStatus::Unreachable(*dst),
            NavState::Travelling(_) => NavStatus::Travelling,
        }
    }
}

impl Navigation {
    pub fn new(destination: Vec2i) -> (r: Navigation)
        ensures
            r == (Navigation { destination, pivot: None, unreachable: false }),
    {
        Navigation { destination, pivot: None, unreachable: false }
    }
}

/// `s` with `q` appended when `b` holds.
pub open spec fn push_if(s: Seq<Vec2i>, b: bool, q: Vec2i) -> Seq<Vec2i> {
    if b {
        s.push(q)
    } else {
        s
    }
}

/// The walkable squares next to `p`: the orthogonal ones in the order up, left, right, down;
/// then each diagonal whose two flanking orthogonal neighbours are walkable, in the order
/// up-left, left-down, down-right, right-up.
pub open spec fn neighbours8_spec(tm: &Tilemap, p: Vec2i) -> Seq<Vec2i> {
    let up = offset_spec(p, 0, -1);
    let left = offset_spec(p, -1, 0);
    let right = offset_spec(p, 1, 0);
    let down = offset_spec(p, 0, 1);
    let (wu, wl, wr, wd) = (tm.walkable(up), tm.walkable(left), tm.walkable(right), tm.walkable(down));
    let orth = push_if(push_if(push_if(push_if(Seq::empty(), wu, up), wl, left), wr, right), wd, down);
    let ul = offset_spec(p, -1, -1);
    let ld = offset_spec(p, -1, 1);
    let dr = offset_spec(p, 1, 1);
    let ru = offset_spec(p, 1, -1);
    push_if(
        push_if(
            push_if(push_if(orth, wu && wl && tm.walkable(ul), ul), wl && wd && tm.walkable(ld), ld),
            wd && wr && tm.walkable(dr),
            dr,
        ),
        wr && wu && tm.walkable(ru),
        ru,
    )
}

/// The first element of `s` that satisfies `ok` with the least `key`.
pub open spec fn first_min(s: Seq<Vec2i>, ok: spec_fn(Vec2i) -> bool, key: spec_fn(Vec2i) -> int) -> Option<Vec2i>
    decreases s.len(),
{
    if s.len() == 0 {
        None
    } else {
        let prev = first_min(s.drop_last(), ok, key);
        let q = s.last();
        if !ok(q) {
            prev
        } else {
            match prev {
                None => Some(q),
                Some(b) => if key(q) < key(b) {
                    Some(q)
                } else {
                    Some(b)
                },
            }
        }
    }
}

/// Congestion at `q`; zero off the map.
pub open spec fn congestion_at(gs: &GameState, q: Vec2i) -> int {
    if gs.congestion.in_bounds(q) {
        gs.congestion.cell(q) as int
    } else {
        0
    }
}

/// Order of preference among steps: least congestion first when congestion is modelled, then
/// least squared distance to the destination.
pub open spec fn step_key(gs: &GameState, dest: Vec2i, q: Vec2i) -> int {
    if gs.debug.enable_congestion {
        congestion_at(gs, q) * 0x4_0000_0000_0000_0000 + dist_sq(q, dest)
    } else {
        dist_sq(q, dest)
    }
}

/// Squares strictly closer to `dest` than `pos`.
pub open spec fn closer(dest: Vec2i, pos: Vec2i) -> spec_fn(Vec2i) -> bool {
    |q: Vec2i| dist_sq(q, dest) < dist_sq(pos, dest)
}

pub open spec fn step_order(gs: &GameState, dest: Vec2i) -> spec_fn(Vec2i) -> int {
    |q: Vec2i| step_key(gs, dest, q)
}

/// Obstacles (off the map included) strictly closer to `dest` than `pos`.
pub open spec fn closer_obstacle(gs: &GameState, dest: Vec2i, pos: Vec2i) -> spec_fn(Vec2i) -> bool {
    |q: Vec2i| !gs.tilemap.walkable(q) && dist_sq(q, dest) < dist_sq(pos, dest)
}

pub open spec fn dist_order(dest: Vec2i) -> spec_fn(Vec2i) -> int {
    |q: Vec2i| dist_sq(q, dest)
}

/// The preferred walkable neighbour strictly closer to `dest`, if any.
pub open spec fn spec_next_tile_free(gs: &GameState, dest: Vec2i, pos: Vec2i) -> Option<Vec2i> {
    first_min(neighbours8_spec(&gs.tilemap, pos), closer(dest, pos), step_order(gs, dest))
}

/// The obstacle to walk around: the nearest to `dest` among the orthogonal neighbours that cannot
/// be walked on (off the map included) and lie strictly closer to `dest`.
pub open spec fn spec_pivot_start(gs: &GameState, dest: Vec2i, pos: Vec2i) -> Option<Pivot> {
    match first_min(neighbours_spec(pos), closer_obstacle(gs, dest, pos), dist_order(dest)) {
        Some(pivot_pos) => Some(Pivot { pivot_pos, start_pos: pos, best_dist: dist_sq(pos, dest) as u128 }),
        None => None,
    }
}

/// `v` clamped into `[lo, hi]`.
pub open spec fn clamp_spec(v: i32, lo: i32, hi: i32) -> i32 {
    if v < lo {
        lo
    } else if v > hi {
        hi
    } else {
        v
    }
}

/// The square tried next when walking around the obstacle: a quarter turn of the way to the
/// pivot tile, kept within the 3x3 square around it.
pub open spec fn pivot_candidate(pv: Pivot, pos: Vec2i) -> Vec2i {
    let d = Vec2i { x: sat_add(pv.pivot_pos.x, -pos.x), y: sat_add(pv.pivot_pos.y, -pos.y) };
    let v = rot90_spec(d);
    let p2 = offset_spec(pos, v.x as int, v.y as int);
    Vec2i {
        x: clamp_spec(p2.x, sat_add(pv.pivot_pos.x, -1), sat_add(pv.pivot_pos.x, 1)),
        y: clamp_spec(p2.y, sat_add(pv.pivot_pos.y, -1), sat_add(pv.pivot_pos.y, 1)),
    }
}

/// One step around the obstacle: the candidate square if walkable, else the candidate becomes
/// the new pivot tile.
pub open spec fn spec_pivot_next(pv: Pivot, gs: &GameState, pos: Vec2i) -> (Option<Vec2i>, Pivot) {
    let c = pivot_candidate(pv, pos);
    if gs.tilemap.walkable(c) {
        (Some(c), pv)
    } else {
        (None, Pivot { pivot_pos: c, ..pv })
    }
}

/// One attempt at a next square: step freely when not pivoting, else keep pivoting until a free
/// step beats the distance at which pivoting began.
pub open spec fn spec_nav_next(nav: Navigation, gs: &GameState, dest: Vec2i, pos: Vec2i) -> (Option<Vec2i>, Navigation) {
    let free = spec_next_tile_free(gs, dest, pos);
    match nav.pivot {
        None => match free {
            Some(t) => (Some(t), nav),
            None => (None, Navigation { pivot: spec_pivot_start(gs, dest, pos), ..nav }),
        },
        Some(pv) => if free is Some && dist_sq(free->0, dest) < pv.best_dist {
            (None, Navigation { pivot: None, ..nav })
        } else {
            let (r, pv2) = spec_pivot_next(pv, gs, pos);
            (r, Navigation { pivot: Some(pv2), ..nav })
        },
    }
}

/// Up to `n` attempts, stopping at the first that yields a square.
pub open spec fn spec_attempts(nav: Navigation, gs: &GameState, dest: Vec2i, pos: Vec2i, n: nat) -> (Option<Vec2i>, Navigation)
    decreases n,
{
    if n == 0 {
        (None, nav)
    } else {
        let (r, nav2) = spec_nav_next(nav, gs, dest, pos);
        if r is Some {
            (r, nav2)
        } else {
            spec_attempts(nav2, gs, dest, pos, (n - 1) as nat)
        }
    }
}

/// Attempts per tick.
pub const NAV_ATTEMPTS: u32 = 5;

/// The agent is stuck when the attempts found no square and no obstacle to walk around, or led
/// back to where walking around began.
pub open spec fn is_stuck(next: Option<Vec2i>, nav: Navigation) -> bool {
    match nav.pivot {
        Some(pv) => next == Some(pv.start_pos),
        None => next is None,
    }
}

/// One tick of travel: nothing at the destination; else the next square, or `Unreachable`.
pub open spec fn spec_nav_tick(nav: Navigation, gs: &GameState, pos: Vec2i) -> (Result<Option<Vec2i>, Error>, Navigation) {
    if pos == nav.destination {
        (Ok(None), nav)
    } else {
        let (next, nav2) = spec_attempts(nav, gs, nav.destination, pos, NAV_ATTEMPTS as nat);
        if is_stuck(next, nav2) {
            (Err(Error::Unreachable), nav2)
        } else {
            (Ok(next), nav2)
        }
    }
}

/// One tick of the navigation state: the square to move to, and the new state.
pub open spec fn spec_navstate_tick(s: NavState, gs: &GameState, pos: Vec2i) -> (Option<Vec2i>, NavState) {
    match s {
        NavState::DestinationReached => (None, NavState::DestinationReached),
        NavState::Unreachable(d) => (None, NavState::Unreachable(d)),
        NavState::Travelling(nav) => {
            let (r, nav2) = spec_nav_tick(nav, gs, pos);
            match r {
                Ok(None) => if pos == nav.destination {
                    (None, NavState::DestinationReached)
                } else {
                    (None, NavState::Travelling(nav2))
                },
                Ok(Some(t)) => if t == nav.destination {
                    (Some(t), NavState::DestinationReached)
                } else {
                    (Some(t), NavState::Travelling(nav2))
                },
                Err(_) => (None, NavState::Unreachable(nav.destination)),
            }
        },
    }
}

/// Whether a tick in state `s` at `pos` finds the agent stuck.
pub open spec fn spec_tick_stuck(s: NavState, gs: &GameState, pos: Vec2i) -> bool {
    match s {
        NavState::Travelling(nav) => spec_nav_tick(nav, gs, pos).0 is Err,
        _ => false,
    }
}

proof fn lemma_first_min_step(s: Seq<Vec2i>, k: int, ok: spec_fn(Vec2i) -> bool, key: spec_fn(Vec2i) -> int)
    requires
        0 <= k < s.len(),
    ensures
        first_min(s.take(k + 1), ok, key) == (if !ok(s[k]) {
            first_min(s.take(k), ok, key)
        } else {
            match first_min(s.take(k), ok, key) {
                None => Some(s[k]),
                Some(b) => if key(s[k]) < key(b) {
                    Some(s[k])
                } else {
                    Some(b)
                },
            }
        }),
{
    assert(s.take(k + 1).drop_last() =~= s.take(k));
    assert(s.take(k + 1).last() == s[k]);
}

/// Relies on `itertools::Itertools::circular_tuple_windows`: each element paired with the next,
/// the last with the first.
#[verifier::external_body]
fn circular_pairs(v: Vec<(Vec2i, bool)>) -> (r: Vec<((Vec2i, bool), (Vec2i, bool))>)
    requires
        v@.len() > 0,
    ensures
        r@.len() == v@.len(),
        forall|k: int| 0 <= k < r@.len() ==> #[trigger] r@[k] == (v@[k], v@[(k + 1) % v@.len() as int]),
{
    v.into_iter().circular_tuple_windows().collect()
}

/// Up to eight neighbours, held inline in a `smallvec::SmallVec`.
#[verifier::external_body]
pub struct NeighbourBuf {
    items: SmallVec<[Vec2i; 8]>,
}

/// What a neighbour buffer holds, in order.
pub uninterp spec fn buffered(v: NeighbourBuf) -> Seq<Vec2i>;

/// Relies on `smallvec::SmallVec::new`: an empty vector.
#[verifier::external_body]
fn buffer_new() -> (r: NeighbourBuf)
    ensures
        buffered(r) == Seq::<Vec2i>::empty(),
{
    NeighbourBuf { items: SmallVec::new() }
}

/// Relies on `smallvec::SmallVec::push`: appends `x` at the end; it panics only when the length
/// would overflow.
#[verifier::external_body]
fn buffer_push(v: &mut NeighbourBuf, x: Vec2i)
    requires
        buffered(*old(v)).len() < 8,
    ensures
        buffered(*final(v)) == buffered(*old(v)).push(x),
{
    v.items.push(x)
}

/// Relies on `smallvec::SmallVec::into_vec`: the same items, in the same order.
#[verifier::external_body]
fn buffer_into_vec(v: NeighbourBuf) -> (r: Vec<Vec2i>)
    ensures
        r@ == buffered(v),
{
    v.items.into_vec()
}

/// Appends the diagonal between two flanking neighbours when both and the diagonal are walkable.
fn push_diagonal(tm: &Tilemap, position: Vec2i, pair: ((Vec2i, bool), (Vec2i, bool)), r: &mut NeighbourBuf)
    requires
        tm.wf(),
        buffered(*old(r)).len() < 8,
        -1 <= pair.0.0.x <= 1,
        -1 <= pair.0.0.y <= 1,
        -1 <= pair.1.0.x <= 1,
        -1 <= pair.1.0.y <= 1,
    ensures
        buffered(*final(r)) == push_if(
            buffered(*old(r)),
            pair.0.1 && pair.1.1 && tm.walkable(
                offset_spec(position, pair.0.0.x + pair.1.0.x, pair.0.0.y + pair.1.0.y),
            ),
            offset_spec(position, pair.0.0.x + pair.1.0.x, pair.0.0.y + pair.1.0.y),
        ),
{
    let ((d1, w1), (d2, w2)) = pair;
    if w1 && w2 {
        let q = position.offset(d1.x + d2.x, d1.y + d2.y);
        if tm.can_walk(q) {
            buffer_push(r, q);
        }
    }
}

/// The walkable squares next to `position`; diagonals only between two walkable orthogonal
/// neighbours.
pub fn walkable_neighbours8(gs: &GameState, position: Vec2i) -> (r: Vec<Vec2i>)
    requires
        gs.tilemap.wf(),
    ensures
        r@ == neighbours8_spec(&gs.tilemap, position),
{
    let up = Vec2i { x: 0, y: -1 };
    let left = Vec2i { x: -1, y: 0 };
    let right = Vec2i { x: 1, y: 0 };
    let down = Vec2i { x: 0, y: 1 };
    let wu = gs.tilemap.can_walk(position.offset(0, -1));
    let wl = gs.tilemap.can_walk(position.offset(-1, 0));
    let wr = gs.tilemap.can_walk(position.offset(1, 0));
    let wd = gs.tilemap.can_walk(position.offset(0, 1));
    let mut r = buffer_new();
    if wu {
        buffer_push(&mut r, position.offset(0, -1));
    }
    if wl {
        buffer_push(&mut r, position.offset(-1, 0));
    }
    if wr {
        buffer_push(&mut r, position.offset(1, 0));
    }
    if wd {
        buffer_push(&mut r, position.offset(0, 1));
    }
    // Around the square: up, left, down, right; each window is a pair of flanking neighbours.
    let ring = vec![(up, wu), (left, wl), (down, wd), (right, wr)];
    let pairs = circular_pairs(ring);
    assert(ring@ == seq![(up, wu), (left, wl), (down, wd), (right, wr)]);
    assert(pairs@[0] == ((up, wu), (left, wl)));
    assert(pairs@[1] == ((left, wl), (down, wd)));
    assert(pairs@[2] == ((down, wd), (right, wr)));
    assert(pairs@[3] == ((right, wr), (up, wu)));
    push_diagonal(&gs.tilemap, position, pairs[0], &mut r);
    push_diagonal(&gs.tilemap, position, pairs[1], &mut r);
    push_diagonal(&gs.tilemap, position, pairs[2], &mut r);
    push_diagonal(&gs.tilemap, position, pairs[3], &mut r);
    buffer_into_vec(r)
}

proof fn lemma_lex_key(c: int, d: int, bc: int, bd: int)
    requires
        0 <= d < 0x4_0000_0000_0000_0000,
        0 <= bd < 0x4_0000_0000_0000_0000,
        0 <= c,
        0 <= bc,
    ensures
        (c * 0x4_0000_0000_0000_0000 + d < bc * 0x4_0000_0000_0000_0000 + bd) == (c < bc || (c == bc
            && d < bd)),
{
    if c < bc {
        assert(c * 0x4_0000_0000_0000_0000 + 0x4_0000_0000_0000_0000 <= bc * 0x4_0000_0000_0000_0000)
            by (nonlinear_arith)
            requires
                c < bc,
        ;
    } else if c > bc {
        assert(bc * 0x4_0000_0000_0000_0000 + 0x4_0000_0000_0000_0000 <= c * 0x4_0000_0000_0000_0000)
            by (nonlinear_arith)
            requires
                c > bc,
        ;
    }
}

proof fn lemma_dist_bound(a: Vec2i, b: Vec2i)
    ensures
        0 <= dist_sq(a, b) < 0x4_0000_0000_0000_0000,
{
    let dx = a.x - b.x;
    let dy = a.y - b.y;
    assert(0 <= dx * dx <= 0x1_0000_0000 * 0x1_0000_0000) by (nonlinear_arith)
        requires
            -0x1_0000_0000 <= dx <= 0x1_0000_0000,
    ;
    assert(0 <= dy * dy <= 0x1_0000_0000 * 0x1_0000_0000) by (nonlinear_arith)
        requires
            -0x1_0000_0000 <= dy <= 0x1_0000_0000,
    ;
}

impl Navigation {
    /// The preferred walkable neighbour of `position` strictly closer to `destination`.
    pub fn next_tile_free(&self, gs: &GameState, destination: Vec2i, position: Vec2i) -> (r: Option<Vec2i>)
        requires
            gs.wf(),
        ensures
            r == spec_next_tile_free(gs, destination, position),
    {
        let cands = walkable_neighbours8(gs, position);
        let cur = position.distance_squared(destination);
        let ghost ok = closer(destination, position);
        let ghost key = step_order(gs, destination);
        let mut best: Option<Vec2i> = None;
        let mut best_c: u8 = 0;
        let mut best_d: u128 = 0;
        let mut k: usize = 0;
        while k < cands.len()
            invariant
                gs.wf(),
                cands@ == neighbours8_spec(&gs.tilemap, position),
                ok == closer(destination, position),
                key == step_order(gs, destination),
                cur == dist_sq(position, destination),
                k <= cands@.len(),
                best == first_min(cands@.take(k as int), ok, key),
                best matches Some(b) ==> best_d == dist_sq(b, destination) && best_c == (if gs.debug.enable_congestion {
                    congestion_at(gs, b)
                } else {
                    0
                }),
            decreases cands@.len() - k,
        {
            proof {
                lemma_first_min_step(cands@, k as int, ok, key);
            }
            let q = cands[k];
            let d = q.distance_squared(destination);
            if d < cur {
                let c: u8 = if gs.debug.enable_congestion {
                    gs.congestion.at_or_default(q)
                } else {
                    0
                };
                let better = match best {
                    None => true,
                    Some(_) => c < best_c || (c == best_c && d < best_d),
                };
                proof {
                    if let Some(b) = best {
                        lemma_dist_bound(q, destination);
                        lemma_dist_bound(b, destination);
                        lemma_lex_key(c as int, d as int, best_c as int, best_d as int);
                        assert(better == (key(q) < key(b)));
                    }
                }
                if better {
                    best = Some(q);
                    best_c = c;
                    best_d = d;
                }
            }
            k = k + 1;
        }
        proof {
            assert(cands@.take(cands@.len() as int) =~= cands@);
        }
        best
    }
}

impl Pivot {
    /// Begins walking around the nearest obstacle next to `position` that lies closer to
    /// `destination`; none when there is no such obstacle.
    pub fn start(gs: &GameState, destination: Vec2i, position: Vec2i) -> (r: Option<Pivot>)
        requires
            gs.wf(),
        ensures
            r == spec_pivot_start(gs, destination, position),
    {
        let cands = neighbours(position);
        let cur = position.distance_squared(destination);
        let ghost ok = closer_obstacle(gs, destination, position);
        let ghost key = dist_order(destination);
        let mut best: Option<Vec2i> = None;
        let mut best_d: u128 = 0;
        let mut k: usize = 0;
        while k < 4
            invariant
                gs.wf(),
                cands@ == neighbours_spec(position),
                ok == closer_obstacle(gs, destination, position),
                key == dist_order(destination),
                cur == dist_sq(position, destination),
                k <= 4,
                best == first_min(cands@.take(k as int), ok, key),
                best matches Some(b) ==> best_d == dist_sq(b, destination),
            decreases 4 - k,
        {
            proof {
                lemma_first_min_step(cands@, k as int, ok, key);
            }
            let q = cands[k];
            let d = q.distance_squared(destination);
            if !gs.tilemap.can_walk(q) && d < cur {
                let better = match best {
                    None => true,
                    Some(_) => d < best_d,
                };
                if better {
                    best = Some(q);
                    best_d = d;
                }
            }
            k = k + 1;
        }
        proof {
            assert(cands@.take(4) =~= cands@);
        }
        match best {
            Some(pivot_pos) => Some(Pivot { pivot_pos, start_pos: position, best_dist: cur }),
            None => None,
        }
    }

    /// One step around the obstacle.
    pub fn next_tile(&mut self, gs: &GameState, position: Vec2i) -> (r: Option<Vec2i>)
        requires
            gs.wf(),
        ensures
            (r, *final(self)) == spec_pivot_next(*old(self), gs, position),
    {
        let pivot_pos = self.pivot_pos;
        let d = Vec2i { x: saturating_sub_i32(pivot_pos.x, position.x), y: saturating_sub_i32(pivot_pos.y, position.y) };
        let v = rot90(d);
        let p2 = position.offset(v.x, v.y);
        let lo_x = saturating_sub_i32(pivot_pos.x, 1);
        let hi_x = saturating_add_i32(pivot_pos.x, 1);
        let lo_y = saturating_sub_i32(pivot_pos.y, 1);
        let hi_y = saturating_add_i32(pivot_pos.y, 1);
        let c = Vec2i { x: clamp_to(p2.x, lo_x, hi_x), y: clamp_to(p2.y, lo_y, hi_y) };
        if gs.tilemap.can_walk(c) {
            Some(c)
        } else {
            self.pivot_pos = c;
            None
        }
    }
}

impl Navigation {
    /// One attempt at a next square.
    pub fn next_tile(&mut self, gs: &GameState, destination: Vec2i, position: Vec2i) -> (r: Option<Vec2i>)
        requires
            gs.wf(),
        ensures
            (r, *final(self)) == spec_nav_next(*old(self), gs, destination, position),
    {
        let free = self.next_tile_free(gs, destination, position);
        match self.pivot {
            None => match free {
                Some(t) => Some(t),
                None => {
                    self.pivot = Pivot::start(gs, destination, position);
                    None
                },
            },
            Some(pivot) => {
                if let Some(t) = free {
                    if t.distance_squared(destination) < pivot.best_dist {
                        self.pivot = None;
                        return None;
                    }
                }
                let mut pv = pivot;
                let r = pv.next_tile(gs, position);
                self.pivot = Some(pv);
                r
            },
        }
    }

    /// One tick of travel from `position`: `Ok(None)` at the destination, else up to five
    /// attempts at a next square; `Unreachable` (counted as a stuck event) when they find none
    /// and no obstacle to walk around, or lead back to where walking around began.
    pub fn tick(&mut self, gs: &mut GameState, position: Vec2i) -> (r: Result<Option<Vec2i>, Error>)
        requires
            old(gs).wf(),
        ensures
            (r, *final(self)) == spec_nav_tick(*old(self), old(gs), position),
            final(gs).wf(),
            final(gs).same_world_but_stats(old(gs)),
            r is Err ==> final(gs).stats.inc_from(&old(gs).stats, Event::NavigationStuck),
            r is Ok ==> final(gs).stats == old(gs).stats,
    {
        if position == self.destination {
            return Ok(None);
        }
        let destination = self.destination;
        let ghost nav0 = *self;
        let mut next: Option<Vec2i> = None;
        let mut n: u32 = 0;
        while n < NAV_ATTEMPTS && next.is_none()
            invariant
                gs.wf(),
                *gs == *old(gs),
                destination == nav0.destination,
                n <= NAV_ATTEMPTS,
                next is None ==> spec_attempts(nav0, gs, destination, position, NAV_ATTEMPTS as nat)
                    == spec_attempts(*self, gs, destination, position, (NAV_ATTEMPTS - n) as nat),
                next is Some ==> spec_attempts(nav0, gs, destination, position, NAV_ATTEMPTS as nat) == (
                    next,
                    *self,
                ),
            decreases NAV_ATTEMPTS - n,
        {
            next = self.next_tile(gs, destination, position);
            n = n + 1;
        }
        let stuck = match self.pivot {
            Some(pv) => match next {
                Some(t) => t == pv.start_pos,
                None => false,
            },
            None => next.is_none(),
        };
        if stuck {
            gs.stats.inc(Event::NavigationStuck);
            return Err(Error::Unreachable);
        }
        Ok(next)
    }
}

impl NavState {
    /// One tick: the square to move to, if any. Travel ends in the tick that steps onto the
    /// destination (or finds the agent there); a tick that finds no step keeps travelling; being
    /// stuck turns travel into `Unreachable` of the destination.
    pub fn tick(&mut self, gs: &mut GameState, position: Vec2i) -> (r: Option<Vec2i>)
        requires
            old(gs).wf(),
        ensures
            (r, *final(self)) == spec_navstate_tick(*old(self), old(gs), position),
            final(gs).wf(),
            final(gs).same_world_but_stats(old(gs)),
            spec_tick_stuck(*old(self), old(gs), position) ==> final(gs).stats.inc_from(
                &old(gs).stats,
                Event::NavigationStuck,
            ),
            !spec_tick_stuck(*old(self), old(gs), position) ==> final(gs).stats == old(gs).stats,
    {
        match *self {
            NavState::DestinationReached => None,
            NavState::Unreachable(_) => None,
            NavState::Travelling(nav) => {
                let mut nav = nav;
                let dst = nav.destination;
                match nav.tick(gs, position) {
                    Ok(None) => {
                        if position == dst {
                            *self = NavState::DestinationReached;
                        } else {
                            *self = NavState::Travelling(nav);
                        }
                        None
                    },
                    Ok(Some(t)) => {
                        if t == dst {
                            *self = NavState::DestinationReached;
                        } else {
                            *self = NavState::Travelling(nav);
                        }
                        Some(t)
                    },
                    Err(_) => {
                        *self = NavState::Unreachable(dst);
                        None
                    },
                }
            },
        }
    }
}

/// The state after `set_destination(p)` in state `s`: travel to `p`, with no earlier route.
pub open spec fn spec_set_destination(s: NavState, p: Vec2i) -> NavState {
    NavState::Travelling(Navigation { destination: p, pivot: None, unreachable: false })
}

/// Setting a destination again changes nothing: from a state already travelling to `p` (with
/// any walking-around state), setting `p` twice gives the state that setting it once gives, so
/// every following tick behaves the same; the destination stays `p`.
pub proof fn lemma_set_destination_idempotent(s: NavState, p: Vec2i)
    requires
        s matches NavState::Travelling(nav) && nav.destination == p,
    ensures
        spec_set_destination(spec_set_destination(s, p), p) == spec_set_destination(s, p),
        spec_set_destination(s, p) matches NavState::Travelling(n2) && n2.destination == p,
{
}

} // verus!
