use vstd::prelude::*;

use crate::buffer::{dec, Input, Output};
use crate::crablet::{agent_ticked, Crablet};
use crate::factory::{factory_ticked, Factory};
use crate::geom::{Vec2i, Vec2u};
use crate::grid::{Tile, Tilemap, Vec2D, FARM_LAND_ID, WATER_ID};
use crate::resource::Resource;
use crate::rng::{gen_range_inclusive, seeded};
use crate::state::{
    Command, DebugOpts, EdMode, GameState, FACTORY_RESERVATION_TTL_MAJOR_TICKS, MAJOR_TICK,
};
use crate::stats::{sat_sum, Stats, NUM_EVENTS};
use crate::taskman::{taskman_ticked, tick_taskman};

verus! {

/// Seed of the world's random generator.
pub const RNG_SEED: u64 = 123;

impl GameState {
    /// A farm-land map of the given size with no agents, no factories and nothing on the ground.
    pub fn with_size(size: Vec2u) -> (r: GameState)
        requires
            size.x * size.y <= usize::MAX,
        ensures
            r.wf(),
            r.now == 0,
            r.tilemap.tiles.size == size,
            forall|k: int| 0 <= k < r.tilemap.tiles.values@.len() ==> #[trigger] r.tilemap.tiles.values@[k] == Tile(1),
            r.crablets@.len() == 0,
            r.factories@.len() == 0,
            r.commands@.len() == 0,
            r.search_radius == 48,
            r.anim_frames_per_tile == 24,
            r.debug == DebugOpts::default_spec(),
    {
        GameState {
            now: 0,
            search_radius: 48,
            anim_frames_per_tile: 24,
            dragging: None,
            tilemap: Tilemap::new(size, Tile::farm_land()),
            resources: Vec2D::new(size, None),
            resource_reservations: Vec2D::new(size, 0u8),
            congestion: Vec2D::new(size, 0u8),
            crablets: Vec::new(),
            factories: Vec::new(),
            debug: DebugOpts::default(),
            stats: Stats::new(),
            ed_mode: EdMode::Select,
            editor_current_tile: 0,
            editor_current_building: 0,
            commands: Vec::new(),
            rng: seeded(RNG_SEED),
            grow_crops_per_million: 20_000,
        }
    }

    /// A 256 x 128 farm-land map with one agent at (3, 5), no factories, nothing on the ground.
    pub fn new() -> (r: GameState)
        ensures
            r.wf(),
            r.now == 0,
            r.tilemap.tiles.size == (Vec2u { x: 256, y: 128 }),
            r.crablets@.len() == 1,
            r.crablets@[0].position == (Vec2i { x: 3, y: 5 }),
            r.factories@.len() == 0,
            r.commands@.len() == 0,
            r.search_radius == 48,
            r.anim_frames_per_tile == 24,
    {
        let mut gs = GameState::with_size(Vec2u { x: 256, y: 128 });
        gs.crablets.push(Crablet::new(Vec2i { x: 3, y: 5 }));
        gs
    }

    /// Counts one more agent at `pos` (saturating); nothing off the map.
    pub fn add_congestion(&mut self, pos: Vec2i)
        requires
            old(self).wf(),
        ensures
            final(self).wf(),
            final(self).same_but_congestion(old(self)),
            old(self).congestion.in_bounds(pos) ==> final(self).congestion.is_set_from(
                &old(self).congestion,
                pos,
                if old(self).congestion.cell(pos) == 255 {
                    255u8
                } else {
                    (old(self).congestion.cell(pos) + 1) as u8
                },
            ),
            !old(self).congestion.in_bounds(pos) ==> final(self).congestion == old(self).congestion,
    {
        let v = self.congestion.at_or_default(pos);
        let nv = if v == 255 {
            255u8
        } else {
            v + 1
        };
        self.congestion.try_set(pos, nv);
    }

    /// With congestion modelled, recounts it: each cell holds (saturating at 255) the number of
    /// agents standing on it, plus the agents whose previous position it is and who have moved
    /// on from it.
    pub fn tick_congestion(&mut self)
        requires
            old(self).wf(),
        ensures
            congestion_ticked(final(self), old(self)),
    {
        if !self.debug.enable_congestion {
            return;
        }
        self.congestion.clear();
        proof {
            assert forall|p: Vec2i| #[trigger] self.congestion.in_bounds(p) implies self.congestion.cell(p) == min255(
                congestion_count(self.crablets@.take(0), p)) by {
                crate::grid::lemma_index_in_range(self.congestion.size.x as int, self.congestion.size.y as int, p.x as int, p.y as int);
                assert(self.crablets@.take(0).len() == 0);
            }
        }
        let mut i: usize = 0;
        while i < self.crablets.len()
            invariant
                self.wf(),
                self.same_but_congestion(old(self)),
                i <= self.crablets@.len(),
                forall|p: Vec2i|
                    #[trigger] self.congestion.in_bounds(p) ==> self.congestion.cell(p) == min255(
                        congestion_count(self.crablets@.take(i as int), p),
                    ),
            decreases self.crablets@.len() - i,
        {
            let pos = self.crablets[i].position;
            let prev_pos = self.crablets[i].prev_pos;
            let ghost g0 = self.congestion;
            self.add_congestion(pos);
            let ghost g1 = self.congestion;
            proof {
                crate::grid::lemma_set_cell(&g1, &g0, pos);
            }
            if prev_pos != pos {
                self.add_congestion(prev_pos);
                proof {
                    crate::grid::lemma_set_cell(&self.congestion, &g1, prev_pos);
                }
            }
            proof {
                let s = self.crablets@;
                assert(s.take(i + 1).drop_last() =~= s.take(i as int));
                assert(s.take(i + 1).last() == s[i as int]);
                assert forall|p: Vec2i| #[trigger] self.congestion.in_bounds(p) implies self.congestion.cell(p) == min255(
                    congestion_count(self.crablets@.take(i + 1), p)) by {
                    crate::grid::lemma_index_in_range(g0.size.x as int, g0.size.y as int, p.x as int, p.y as int);
                    assert(g0.in_bounds(p));
                    assert(g1.in_bounds(p));
                    let a = g0.cell(p);
                    assert(a == min255(congestion_count(s.take(i as int), p)));
                    if p == pos {
                        assert(g1.cell(p) == (if a == 255 { 255u8 } else { (a + 1) as u8 }));
                    } else {
                        assert(g1.cell(p) == a);
                    }
                    if prev_pos != pos && p == prev_pos {
                        assert(self.congestion.cell(p) == (if g1.cell(p) == 255 { 255u8 } else { (g1.cell(p) + 1) as u8 }));
                    } else {
                        assert(self.congestion.cell(p) == g1.cell(p));
                    }
                }
            }
            i = i + 1;
        }
        proof {
            assert(self.crablets@.take(self.crablets@.len() as int) =~= self.crablets@);
        }
    }

    /// Withdraws one promise from every buffer of every factory.
    pub fn unreserve_factories(&mut self)
        requires
            old(self).wf(),
        ensures
            factories_unreserved(final(self), old(self)),
    {
        let mut f: usize = 0;
        while f < self.factories.len()
            invariant
                self.wf(),
                self.same_but_factories(old(self)),
                self.factories@.len() == old(self).factories@.len(),
                f <= self.factories@.len(),
                forall|g: int| f <= g < self.factories@.len() ==> #[trigger] self.factories@[g] == old(self).factories@[g],
                forall|g: int| 0 <= g < f ==> {
                    let (n, o) = (#[trigger] self.factories@[g], old(self).factories@[g]);
                    &&& n.same_frame(&o)
                    &&& n.inputs@.len() == o.inputs@.len()
                    &&& n.outputs@.len() == o.outputs@.len()
                    &&& forall|i: int| 0 <= i < o.inputs@.len() ==> #[trigger] n.inputs@[i] == (Input { reserved_slots: dec(o.inputs@[i].reserved_slots), ..o.inputs@[i] })
                    &&& forall|i: int| 0 <= i < o.outputs@.len() ==> #[trigger] n.outputs@[i] == (Output { reserved_items: dec(o.outputs@[i].reserved_items), ..o.outputs@[i] })
                },
            decreases self.factories@.len() - f,
        {
            proof {
                assert(self.factories@[f as int].wf());
            }
            self.factories[f].unreserve_all();
            proof {
                assert forall|g: int| 0 <= g < self.factories@.len() implies (#[trigger] self.factories@[g]).wf() by {
                    if g != f as int {
                        assert(self.factories@[g] == old(self).factories@[g] || g < f);
                    }
                }
            }
            f = f + 1;
        }
    }

    /// Every major tick, resource claims decay by one; every factory-reservation period,
    /// every factory buffer also loses one promise.
    pub fn tick_resource_reservation(&mut self)
        requires
            old(self).wf(),
        ensures
            reservations_ticked(final(self), old(self)),
    {
        if self.now % MAJOR_TICK == 0 {
            let n = self.resource_reservations.values.len();
            let mut k: usize = 0;
            while k < n
                invariant
                    self.wf(),
                    self.same_setting(old(self)),
                    self.crablets == old(self).crablets,
                    self.factories == old(self).factories,
                    self.stats == old(self).stats,
                    self.resource_reservations.size == old(self).resource_reservations.size,
                    n == self.resource_reservations.values@.len(),
                    n == old(self).resource_reservations.values@.len(),
                    k <= n,
                    forall|j: int| 0 <= j < k ==> #[trigger] self.resource_reservations.values@[j] == dec8(old(self).resource_reservations.values@[j]),
                    forall|j: int| k <= j < n ==> #[trigger] self.resource_reservations.values@[j] == old(self).resource_reservations.values@[j],
                decreases n - k,
            {
                let v = self.resource_reservations.values[k];
                if v > 0 {
                    self.resource_reservations.values.set(k, v - 1);
                }
                k = k + 1;
            }
            if self.now % FACTORY_RESERVATION_TTL_MAJOR_TICKS == 0 {
                self.unreserve_factories();
            }
        }
    }

    /// Every 32 major ticks, every factory buffer loses one promise.
    pub fn tick_expire_reservations(&mut self)
        requires
            old(self).wf(),
        ensures
            final(self).wf(),
            final(self).same_but_factories(old(self)),
            final(self).factories@.len() == old(self).factories@.len(),
            old(self).now % (32 * MAJOR_TICK) as u64 != 0 ==> *final(self) == *old(self),
            old(self).now % (32 * MAJOR_TICK) as u64 == 0 ==> factories_unreserved(final(self), old(self)),
    {
        if self.now % (32 * MAJOR_TICK) == 0 {
            self.unreserve_factories();
        }
    }

    /// Ticks every factory, in index order, when enabled: over worlds `t[0]` (the old one,
    /// factories aside), ..., `t[n]`, factory `k` changes as its logic states against `t[k]`,
    /// giving `t[k + 1]`; the world `m` then holds the ticked factories. Finally, when enabled,
    /// reservations expire as `tick_expire_reservations` states.
    pub fn tick_factories(&mut self)
        requires
            old(self).wf(),
        ensures
            factories_ticked(final(self), old(self)),
    {
        if !self.debug.tick_factories {
            return;
        }
        let mut factories: Vec<Factory> = Vec::new();
        std::mem::swap(&mut factories, &mut self.factories);
        let ghost mut trace: Seq<GameState> = seq![*self];
        let mut i: usize = 0;
        while i < factories.len()
            invariant
                self.wf(),
                self.factories@.len() == 0,
                factories@.len() == old(self).factories@.len(),
                forall|g: int| 0 <= g < factories@.len() ==> (#[trigger] factories@[g]).wf(),
                self.crablets == old(self).crablets,
                self.now == old(self).now,
                self.debug == old(self).debug,
                self.tilemap.tiles.size == old(self).tilemap.tiles.size,
                i <= factories@.len(),
                trace.len() == i + 1,
                trace[0].same_but_factories(old(self)),
                trace[i as int] == *self,
                forall|j: int| i <= j < factories@.len() ==> #[trigger] factories@[j] == old(self).factories@[j],
                forall|k: int|
                    0 <= k < i ==> #[trigger] factory_ticked(&factories@[k], &old(self).factories@[k], &trace[k + 1], &trace[k]),
            decreases factories@.len() - i,
        {
            let ghost before = *self;
            factories[i].tick(self);
            proof {
                trace = trace.push(*self);
                assert(trace[i as int] == before);
                assert forall|k: int|
                    0 <= k < i + 1 implies #[trigger] factory_ticked(&factories@[k], &old(self).factories@[k], &trace[k + 1], &trace[k]) by {
                    if k < i {
                        assert(trace[k + 1] == trace.drop_last()[k + 1]);
                    }
                }
            }
            i = i + 1;
        }
        let ghost last = *self;
        std::mem::swap(&mut factories, &mut self.factories);
        let ghost m = *self;
        proof {
            assert(m.same_but_factories(&last));
        }
        if self.debug.expire_factory_reservations {
            self.tick_expire_reservations();
        }
        proof {
            let n = old(self).factories@.len();
            assert(trace.len() == n + 1 && trace[0].same_but_factories(old(self)) && m.same_but_factories(&trace[n as int])
                && m.factories@.len() == n);
            assert(forall|k: int| 0 <= k < n ==> #[trigger] factory_ticked(&m.factories@[k], &old(self).factories@[k], &trace[k + 1], &trace[k]));
        }
    }

    /// Ticks every agent, in index order, against the rest of the world: over worlds `t[0]`
    /// (the old one, agents aside), ..., `t[n]` (the new one, agents aside), agent `k` ends as
    /// `Crablet::tick` leaves it against `t[k]`, giving `t[k + 1]`.
    pub fn tick_crabs(&mut self)
        requires
            old(self).wf(),
        ensures
            crabs_ticked(final(self), old(self)),
    {
        let mut crabs: Vec<Crablet> = Vec::new();
        std::mem::swap(&mut crabs, &mut self.crablets);
        let ghost mut trace: Seq<GameState> = seq![*self];
        let mut i: usize = 0;
        while i < crabs.len()
            invariant
                self.wf(),
                self.crablets@.len() == 0,
                crabs@.len() == old(self).crablets@.len(),
                self.factories@.len() == old(self).factories@.len(),
                self.tilemap == old(self).tilemap,
                self.now == old(self).now,
                self.debug == old(self).debug,
                self.commands == old(self).commands,
                i <= crabs@.len(),
                trace.len() == i + 1,
                trace[0].same_but_crablets(old(self)),
                trace[i as int] == *self,
                forall|j: int| i <= j < crabs@.len() ==> #[trigger] crabs@[j] == old(self).crablets@[j],
                forall|k: int|
                    0 <= k < i ==> #[trigger] agent_ticked(crabs@[k], old(self).crablets@[k], &trace[k + 1], &trace[k]),
            decreases crabs@.len() - i,
        {
            let ghost before = *self;
            crabs[i].tick(self);
            proof {
                trace = trace.push(*self);
                assert(trace[i as int] == before);
                assert forall|k: int|
                    0 <= k < i + 1 implies #[trigger] agent_ticked(crabs@[k], old(self).crablets@[k], &trace[k + 1], &trace[k]) by {
                    if k < i {
                        assert(trace[k + 1] == trace.drop_last()[k + 1]);
                    }
                }
            }
            i = i + 1;
        }
        let ghost last = *self;
        std::mem::swap(&mut crabs, &mut self.crablets);
        proof {
            assert(self.same_but_crablets(&last));
        }
    }

    /// Applies the deferred structural changes, in order, and empties the queue: the factories
    /// become `apply_commands` of the old factories and queue.
    pub fn exec_command_queue(&mut self)
        requires
            old(self).wf(),
        ensures
            commands_applied(final(self), old(self)),
    {
        let mut commands: Vec<Command> = Vec::new();
        std::mem::swap(&mut commands, &mut self.commands);
        let mut k: usize = 0;
        while k < commands.len()
            invariant
                self.wf(),
                self.commands@.len() == 0,
                self.factories@ == apply_commands(old(self).factories@, commands@.take(k as int)),
                self.crablets == old(self).crablets,
                self.tilemap == old(self).tilemap,
                self.now == old(self).now,
                self.debug == old(self).debug,
                self.resources == old(self).resources,
                self.resource_reservations == old(self).resource_reservations,
                self.congestion == old(self).congestion,
                self.stats == old(self).stats,
                commands@ == old(self).commands@,
                k <= commands@.len(),
            decreases commands@.len() - k,
        {
            let ghost before = self.factories@;
            proof {
                assert(commands@.take(k + 1).drop_last() =~= commands@.take(k as int));
                assert(commands@.take(k + 1).last() == commands@[k as int]);
            }
            match commands[k] {
                Command::RemoveFactory { position } => {
                    let mut j: usize = 0;
                    let mut idx: Option<usize> = None;
                    while j < self.factories.len()
                        invariant
                            j <= self.factories@.len(),
                            match idx {
                                Some(x) => first_factory_at(self.factories@, position, x as int),
                                None => forall|q: int| 0 <= q < j ==> (#[trigger] self.factories@[q]).position != position,
                            },
                        decreases self.factories@.len() - j,
                    {
                        if idx.is_none() && self.factories[j].position == position {
                            idx = Some(j);
                        }
                        j = j + 1;
                    }
                    if let Some(i) = idx {
                        proof {
                            lemma_first_factory_unique(before, position, i as int);
                        }
                        let _ = self.factories.swap_remove(i);
                        proof {
                            assert forall|g: int| 0 <= g < self.factories@.len() implies (#[trigger] self.factories@[g]).wf() by {
                                if g == i as int {
                                    assert(self.factories@[g] == before[before.len() - 1]);
                                } else {
                                    assert(self.factories@[g] == before[g]);
                                }
                            }
                        }
                    }
                },
            }
            k = k + 1;
        }
        proof {
            assert(commands@.take(commands@.len() as int) =~= commands@);
        }
    }

    /// Seaweed grows, with the given chance in millionths, on each empty farm cell next to (or
    /// diagonally next to) water.
    pub fn randomly_grow_crops(&mut self, chance_per_million: u32)
        requires
            old(self).wf(),
        ensures
            final(self).wf(),
            final(self).same_but_ground(old(self)),
            final(self).resource_reservations == old(self).resource_reservations,
            final(self).resources.size == old(self).resources.size,
            forall|k: int| 0 <= k < final(self).resources.values@.len() ==> #[trigger] final(self).resources.values@[k]
                == old(self).resources.values@[k] || (old(self).resources.values@[k] is None
                && final(self).resources.values@[k] == Some(Resource { index: 1 })),
    {
        let w = self.tilemap.tiles.size.x;
        let h = self.tilemap.tiles.size.y;
        let mut y: u32 = 0;
        while y < h
            invariant
                self.wf(),
                self.same_but_ground(old(self)),
                self.resource_reservations == old(self).resource_reservations,
                self.resources.size == old(self).resources.size,
                w == self.tilemap.tiles.size.x,
                h == self.tilemap.tiles.size.y,
                forall|k: int| 0 <= k < self.resources.values@.len() ==> #[trigger] self.resources.values@[k]
                    == old(self).resources.values@[k] || (old(self).resources.values@[k] is None
                    && self.resources.values@[k] == Some(Resource { index: 1 })),
            decreases h - y,
        {
            let mut x: u32 = 0;
            while x < w
                invariant
                    self.wf(),
                    self.same_but_ground(old(self)),
                    self.resource_reservations == old(self).resource_reservations,
                    self.resources.size == old(self).resources.size,
                    w == self.tilemap.tiles.size.x,
                    h == self.tilemap.tiles.size.y,
                    y < h,
                    forall|k: int| 0 <= k < self.resources.values@.len() ==> #[trigger] self.resources.values@[k]
                        == old(self).resources.values@[k] || (old(self).resources.values@[k] is None
                        && self.resources.values@[k] == Some(Resource { index: 1 })),
                decreases w - x,
            {
                if self.tilemap.at(Vec2u { x, y }).0 == WATER_ID {
                    let mut dx: i32 = -1;
                    while dx <= 1
                        invariant
                            self.wf(),
                            self.same_but_ground(old(self)),
                            self.resource_reservations == old(self).resource_reservations,
                            self.resources.size == old(self).resources.size,
                            w == self.tilemap.tiles.size.x,
                            h == self.tilemap.tiles.size.y,
                            x < w,
                            y < h,
                            -1 <= dx <= 2,
                            forall|k: int| 0 <= k < self.resources.values@.len() ==> #[trigger] self.resources.values@[k]
                                == old(self).resources.values@[k] || (old(self).resources.values@[k] is None
                                && self.resources.values@[k] == Some(Resource { index: 1 })),
                        decreases 2 - dx,
                    {
                        let mut dy: i32 = -1;
                        while dy <= 1
                            invariant
                                self.wf(),
                                self.same_but_ground(old(self)),
                                self.resource_reservations == old(self).resource_reservations,
                                self.resources.size == old(self).resources.size,
                                w == self.tilemap.tiles.size.x,
                                h == self.tilemap.tiles.size.y,
                                x < w,
                                y < h,
                                -1 <= dx <= 1,
                                -1 <= dy <= 2,
                                forall|k: int| 0 <= k < self.resources.values@.len() ==> #[trigger] self.resources.values@[k]
                                    == old(self).resources.values@[k] || (old(self).resources.values@[k] is None
                                    && self.resources.values@[k] == Some(Resource { index: 1 })),
                            decreases 2 - dy,
                        {
                            let px: i64 = x as i64 + dx as i64;
                            let py: i64 = y as i64 + dy as i64;
                            let in_range = 0 <= px && px <= i32::MAX as i64 && 0 <= py && py <= i32::MAX as i64;
                            let pos = if in_range {
                                Vec2i { x: px as i32, y: py as i32 }
                            } else {
                                Vec2i { x: -1, y: -1 }
                            };
                            if self.tilemap.tiles.at_or(pos, Tile::water()).0 == FARM_LAND_ID
                                && self.resources.at_or(pos, None).is_none() {
                                let roll = gen_range_inclusive(&mut self.rng, 0, 999_999);
                                if roll < chance_per_million as u64 {
                                    let ghost before = self.resources;
                                    self.resources.try_set(pos, Some(Resource::seaweed()));
                                    proof {
                                        let idx = before.index_of(pos);
                                        crate::grid::lemma_index_in_range(before.size.x as int, before.size.y as int, pos.x as int, pos.y as int);
                                        assert forall|k: int| 0 <= k < self.resources.values@.len() implies #[trigger] self.resources.values@[k]
                                            == old(self).resources.values@[k] || (old(self).resources.values@[k] is None
                                            && self.resources.values@[k] == Some(Resource { index: 1 })) by {
                                            if k != idx {
                                                assert(self.resources.values@[k] == before.values@[k]);
                                            }
                                        }
                                    }
                                }
                            }
                            dy = dy + 1;
                        }
                        dx = dx + 1;
                    }
                }
                x = x + 1;
            }
            y = y + 1;
        }
    }

    /// One simulation tick, unless paused: the clock advances, then congestion, resource claims,
    /// agents, factories, the scheduler and crops take their turns, and the deferred commands
    /// are applied.
    pub fn tick(&mut self)
        requires
            old(self).wf(),
        ensures
            final(self).wf(),
            old(self).debug.pause_all_systems ==> *final(self) == *old(self),
            !old(self).debug.pause_all_systems ==> final(self).now == (if old(self).now == u64::MAX {
                u64::MAX as int
            } else {
                old(self).now + 1
            }),
            final(self).crablets@.len() == old(self).crablets@.len(),
            final(self).commands@.len() == 0 || old(self).debug.pause_all_systems,
            !old(self).debug.pause_all_systems ==> exists|w: Seq<GameState>| #[trigger] tick_through(final(self), old(self), w),
    {
        if self.debug.pause_all_systems {
            return;
        }
        self.now = self.now.saturating_add(1);
        self.stats.next_frame();
        let ghost w1 = *self;
        self.tick_congestion();
        let ghost w2 = *self;
        self.tick_resource_reservation();
        let ghost w3 = *self;
        self.tick_crabs();
        let ghost w4 = *self;
        self.tick_factories();
        let ghost w5 = *self;
        tick_taskman(self);
        let ghost w6 = *self;
        self.tick_grow_crops();
        let ghost w7 = *self;
        self.exec_command_queue();
        proof {
            let w = seq![*old(self), w1, w2, w3, w4, w5, w6, w7];
            assert(clock_advanced(&w[1], old(self)));
            assert(tick_through(self, old(self), w));
        }
    }

    /// Crops grow on major ticks.
    pub fn tick_grow_crops(&mut self)
        requires
            old(self).wf(),
        ensures
            crops_ticked(final(self), old(self)),
    {
        if self.now % MAJOR_TICK == 0 {
            let rate = self.grow_crops_per_million;
            self.randomly_grow_crops(rate);
        }
    }

    /// Seaweed grows at once on every empty farm cell next to water.
    pub fn instantly_grow_crops(&mut self)
        requires
            old(self).wf(),
        ensures
            final(self).wf(),
            final(self).same_but_ground(old(self)),
    {
        self.randomly_grow_crops(1_000_000);
    }
}

/// Every buffer of every factory has lost one promise (saturating); nothing else changed.
pub open spec fn factories_unreserved(n: &GameState, o: &GameState) -> bool {
    &&& n.wf()
    &&& n.same_but_factories(o)
    &&& n.factories@.len() == o.factories@.len()
    &&& forall|f: int| 0 <= f < o.factories@.len() ==> {
        let (nf, of) = (#[trigger] n.factories@[f], o.factories@[f]);
        &&& nf.same_frame(&of)
        &&& nf.inputs@.len() == of.inputs@.len()
        &&& nf.outputs@.len() == of.outputs@.len()
        &&& forall|i: int| 0 <= i < of.inputs@.len() ==> #[trigger] nf.inputs@[i] == (Input { reserved_slots: dec(of.inputs@[i].reserved_slots), ..of.inputs@[i] })
        &&& forall|i: int| 0 <= i < of.outputs@.len() ==> #[trigger] nf.outputs@[i] == (Output { reserved_items: dec(of.outputs@[i].reserved_items), ..of.outputs@[i] })
    }
}

/// What recounting congestion does.
pub open spec fn congestion_ticked(n: &GameState, o: &GameState) -> bool {
    &&& n.wf()
    &&& n.same_but_congestion(o)
    &&& !o.debug.enable_congestion ==> n.congestion == o.congestion
    &&& o.debug.enable_congestion ==> forall|p: Vec2i|
        #[trigger] n.congestion.in_bounds(p) ==> n.congestion.cell(p) == min255(
            congestion_count(o.crablets@, p),
        )
}

/// What the decay of claims and promises does.
pub open spec fn reservations_ticked(n: &GameState, o: &GameState) -> bool {
    &&& n.wf()
    &&& n.same_setting(o)
    &&& n.crablets == o.crablets
    &&& n.factories@.len() == o.factories@.len()
    &&& n.resource_reservations.size == o.resource_reservations.size
    &&& o.now % MAJOR_TICK == 0 ==> forall|k: int|
        0 <= k < o.resource_reservations.values@.len() ==> #[trigger] n.resource_reservations.values@[k]
            == dec8(o.resource_reservations.values@[k])
    &&& o.now % MAJOR_TICK != 0 ==> n.resource_reservations == o.resource_reservations
        && n.factories == o.factories
}

/// What ticking every agent does.
pub open spec fn crabs_ticked(n: &GameState, o: &GameState) -> bool {
    &&& n.wf()
    &&& n.crablets@.len() == o.crablets@.len()
    &&& n.factories@.len() == o.factories@.len()
    &&& n.tilemap == o.tilemap
    &&& n.now == o.now
    &&& n.debug == o.debug
    &&& n.commands == o.commands
    &&& exists|t: Seq<GameState>|
        t.len() == o.crablets@.len() + 1 && t[0].same_but_crablets(o)
            && n.same_but_crablets(&t[o.crablets@.len() as int])
            && forall|k: int|
            0 <= k < o.crablets@.len() ==> #[trigger] agent_ticked(
                n.crablets@[k],
                o.crablets@[k],
                &t[k + 1],
                &t[k],
            )
}

/// What ticking every factory does.
pub open spec fn factories_ticked(n: &GameState, o: &GameState) -> bool {
    &&& n.wf()
    &&& n.factories@.len() == o.factories@.len()
    &&& n.crablets == o.crablets
    &&& n.now == o.now
    &&& n.debug == o.debug
    &&& n.tilemap.tiles.size == o.tilemap.tiles.size
    &&& !o.debug.tick_factories ==> *n == *o
    &&& o.debug.tick_factories ==> exists|t: Seq<GameState>, m: GameState|
        t.len() == o.factories@.len() + 1 && t[0].same_but_factories(o)
            && m.same_but_factories(&t[o.factories@.len() as int]) && m.factories@.len()
            == o.factories@.len() && (forall|k: int|
            0 <= k < o.factories@.len() ==> #[trigger] factory_ticked(
                &m.factories@[k],
                &o.factories@[k],
                &t[k + 1],
                &t[k],
            )) && (if o.debug.expire_factory_reservations {
            (m.now % (32 * MAJOR_TICK) as u64 != 0 ==> *n == m)
                && (m.now % (32 * MAJOR_TICK) as u64 == 0 ==> factories_unreserved(n, &m))
        } else {
            *n == m
        })
}

/// What growing crops does.
pub open spec fn crops_ticked(n: &GameState, o: &GameState) -> bool {
    &&& n.wf()
    &&& n.same_but_ground(o)
    &&& n.resource_reservations == o.resource_reservations
    &&& o.now % MAJOR_TICK != 0 ==> n.resources == o.resources
    &&& n.resources.size == o.resources.size
    &&& forall|k: int| 0 <= k < n.resources.values@.len() ==> #[trigger] n.resources.values@[k]
        == o.resources.values@[k] || (o.resources.values@[k] is None
        && n.resources.values@[k] == Some(Resource { index: 1 }))
}

/// What applying the deferred commands does.
pub open spec fn commands_applied(n: &GameState, o: &GameState) -> bool {
    &&& n.wf()
    &&& n.commands@.len() == 0
    &&& n.factories@ == apply_commands(o.factories@, o.commands@)
    &&& n.crablets == o.crablets
    &&& n.tilemap == o.tilemap
    &&& n.now == o.now
    &&& n.debug == o.debug
    &&& n.resources == o.resources
    &&& n.resource_reservations == o.resource_reservations
    &&& n.congestion == o.congestion
    &&& n.stats == o.stats
}

/// The clock has advanced by one (saturating) and the counters have started a new frame;
/// nothing else changed.
pub open spec fn clock_advanced(n: &GameState, o: &GameState) -> bool {
    &&& n.wf()
    &&& n.now == (if o.now == u64::MAX { u64::MAX as int } else { o.now + 1 })
    &&& forall|i: int| 0 <= i < NUM_EVENTS ==> #[trigger] n.stats.frame@[i] == 0
    &&& forall|i: int| 0 <= i < NUM_EVENTS ==> #[trigger] n.stats.total@[i] == sat_sum(o.stats.total@[i], o.stats.frame@[i])
    &&& n.search_radius == o.search_radius
    &&& n.anim_frames_per_tile == o.anim_frames_per_tile
    &&& n.dragging == o.dragging
    &&& n.tilemap == o.tilemap
    &&& n.resources == o.resources
    &&& n.resource_reservations == o.resource_reservations
    &&& n.congestion == o.congestion
    &&& n.crablets == o.crablets
    &&& n.factories == o.factories
    &&& n.debug == o.debug
    &&& n.ed_mode == o.ed_mode
    &&& n.editor_current_tile == o.editor_current_tile
    &&& n.editor_current_building == o.editor_current_building
    &&& n.commands == o.commands
    &&& n.grow_crops_per_million == o.grow_crops_per_million
}

/// One simulation tick through the intermediate worlds `w[1]`, ..., `w[7]`: clock, congestion,
/// claim decay, agents, factories, scheduler, crops, then the deferred commands.
pub open spec fn tick_through(n: &GameState, o: &GameState, w: Seq<GameState>) -> bool {
    &&& w.len() == 8
    &&& clock_advanced(&w[1], o)
    &&& congestion_ticked(&w[2], &w[1])
    &&& reservations_ticked(&w[3], &w[2])
    &&& crabs_ticked(&w[4], &w[3])
    &&& factories_ticked(&w[5], &w[4])
    &&& taskman_ticked(&w[6], &w[5])
    &&& crops_ticked(&w[7], &w[6])
    &&& commands_applied(n, &w[7])
}

/// `i` is the first factory standing at `p`.
pub open spec fn first_factory_at(fs: Seq<Factory>, p: Vec2i, i: int) -> bool {
    &&& 0 <= i < fs.len()
    &&& fs[i].position == p
    &&& forall|j: int| 0 <= j < i ==> (#[trigger] fs[j]).position != p
}

/// `fs` without the first factory standing at `p` (the last one takes its place); `fs` itself
/// when none stands there.
pub open spec fn remove_factory_at(fs: Seq<Factory>, p: Vec2i) -> Seq<Factory> {
    if exists|i: int| first_factory_at(fs, p, i) {
        let i = choose|i: int| first_factory_at(fs, p, i);
        fs.update(i, fs.last()).drop_last()
    } else {
        fs
    }
}

/// The factories after applying the deferred commands in order.
pub open spec fn apply_commands(fs: Seq<Factory>, cmds: Seq<Command>) -> Seq<Factory>
    decreases cmds.len(),
{
    if cmds.len() == 0 {
        fs
    } else {
        match cmds.last() {
            Command::RemoveFactory { position } => remove_factory_at(apply_commands(fs, cmds.drop_last()), position),
        }
    }
}

proof fn lemma_first_factory_unique(fs: Seq<Factory>, p: Vec2i, i: int)
    requires
        first_factory_at(fs, p, i),
    ensures
        remove_factory_at(fs, p) == fs.update(i, fs.last()).drop_last(),
{
    let k = choose|k: int| first_factory_at(fs, p, k);
    assert(first_factory_at(fs, p, k));
    if k < i {
        assert(fs[k].position != p);
    }
    if i < k {
        assert(fs[i].position != p);
    }
}

/// Agents standing on `p`, plus agents that have moved on from `p` as their previous position.
pub open spec fn congestion_count(crabs: Seq<Crablet>, p: Vec2i) -> int
    decreases crabs.len(),
{
    if crabs.len() == 0 {
        0
    } else {
        let c = crabs.last();
        congestion_count(crabs.drop_last(), p) + (if c.position == p {
            1int
        } else {
            0int
        }) + (if c.prev_pos != c.position && c.prev_pos == p {
            1int
        } else {
            0int
        })
    }
}

/// `v`, saturating at 255.
pub open spec fn min255(v: int) -> int {
    if v > 255 {
        255
    } else {
        v
    }
}

/// Saturating decrement of a claim.
pub open spec fn dec8(v: u8) -> u8 {
    if v == 0 {
        0
    } else {
        (v - 1) as u8
    }
}

} // verus!
