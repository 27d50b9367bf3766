use vstd::prelude::*;

use crate::geom::Vec2i;
use crate::grid::Sprite;
use crate::navigation::{spec_navstate_tick, spec_set_destination, walkable_neighbours8, congestion_at, NavState, NavStatus, neighbours8_spec};
use crate::resource::Resource;
use crate::rng::gen_range_inclusive;
use crate::state::GameState;
use crate::stats::Event;
use crate::task::Task;
use crate::timer::Timer;

verus! {

/// An agent.
#[derive(Clone, Copy, PartialEq, Eq, Structural, Debug)]
pub struct Crablet {
    /// Tile position on the map.
    pub position: Vec2i,
    /// Anchor of the area searched for harvesting.
    pub home_area: Vec2i,
    /// Position before the last step; stays congested until the step is over.
    pub prev_pos: Vec2i,
    pub anim_timer: Timer,
    pub navigation: NavState,
    pub task: Task,
    pub cargo: Option<Resource>,
    pub selected: bool,
    pub sprite: Sprite,
}

/// What giving up on the unreachable destination `dst` does.
pub open spec fn unreachable_handled(c: Crablet, o: Crablet, g: &GameState, og: &GameState, dst: Vec2i) -> bool {
    &&& g.wf()
    &&& g.same_world_but_reservations(og)
    &&& g.crablets == og.crablets
    &&& g.factories == og.factories
    &&& og.resource_reservations.in_bounds(dst) && og.reservation(dst) == 0
        ==> g.reservation(dst) > 0
    &&& c == (Crablet {
        task: Task::Idle,
        navigation: NavState::DestinationReached,
        ..o
    })
}

/// What a harvest tick does.
pub open spec fn harvest_ticked(c: Crablet, o: Crablet, g: &GameState, og: &GameState, resource: Resource, from: Vec2i, to: Vec2i) -> bool {
    &&& g.wf()
    &&& g.same_but_ground(og)
    &&& o.position != from ==> *g == *og && c == (Crablet {
        navigation: spec_set_destination(o.navigation, from),
        ..o
    })
    &&& o.position == from && og.resource_at(from) == Some(resource) ==> {
        &&& g.resources.is_set_from(&og.resources, from, None)
        &&& g.resource_reservations.is_set_from(&og.resource_reservations, from, 0)
        &&& c == (Crablet {
            cargo: Some(resource),
            navigation: spec_set_destination(o.navigation, to),
            task: Task::FactoryDeliver { to },
            ..o
        })
    }
    &&& o.position == from && og.resource_at(from) != Some(resource) ==> *g
        == *og && c == (Crablet { task: Task::Idle, ..o })
}

/// What a pick-up tick does.
pub open spec fn pick_up_ticked(c: Crablet, o: Crablet, g: &GameState, og: &GameState, resource: Resource, from: Vec2i, to: Vec2i) -> bool {
    &&& g.wf()
    &&& g.same_but_factories(og)
    &&& g.factories@.len() == og.factories@.len()
    &&& o.position != from ==> *g == *og && c == (Crablet {
        navigation: spec_set_destination(o.navigation, from),
        ..o
    })
    &&& o.position == from ==> match og.factory_index_at(from) {
        None => *g == *og && c == (Crablet { task: Task::Idle, ..o }),
        Some(i) => match og.factories@[i].output_slot(resource) {
            Some(k) if og.factories@[i].outputs@[k].num_items > 0 => {
                &&& g.factories@[i].output_set_from(
                    &og.factories@[i],
                    k,
                    og.factories@[i].outputs@[k].spec_take_item().1,
                )
                &&& forall|h: int| 0 <= h < g.factories@.len() && h != i ==> #[trigger] g.factories@[h] == og.factories@[h]
                &&& c == (Crablet {
                    cargo: Some(resource),
                    task: Task::FactoryDeliver { to },
                    ..o
                })
            },
            _ => g.factories_unchanged(og) && c == (Crablet { task: Task::Idle, ..o }),
        }
    }
}

/// What a delivery tick does.
pub open spec fn deliver_ticked(c: Crablet, o: Crablet, g: &GameState, og: &GameState, to: Vec2i) -> bool {
    &&& g.wf()
    &&& g.same_but_factories(og)
    &&& g.factories@.len() == og.factories@.len()
    &&& o.position != to ==> *g == *og && c == (Crablet {
        navigation: spec_set_destination(o.navigation, to),
        ..o
    })
    &&& o.position == to ==> match (o.cargo, og.factory_index_at(to)) {
        (Some(cargo), Some(i)) => match og.factories@[i].input_slot(cargo) {
            Some(s) if !og.factories@[i].inputs@[s].physically_full() => {
                &&& g.factories@[i].input_set_from(
                    &og.factories@[i],
                    s,
                    og.factories@[i].inputs@[s].spec_add_to().1,
                )
                &&& forall|h: int| 0 <= h < g.factories@.len() && h != i ==> #[trigger] g.factories@[h] == og.factories@[h]
                &&& c == (Crablet { cargo: None, task: Task::Idle, ..o })
            },
            _ => g.factories_unchanged(og) && c == (Crablet { task: Task::Idle, ..o }),
        },
        _ => g.factories_unchanged(og) && c == (Crablet { task: Task::Idle, ..o })
    }
}

/// What relaxing does, whatever the random draws.
pub open spec fn relax_ticked(c: Crablet, o: Crablet, g: &GameState, og: &GameState) -> bool {
    &&& g.wf()
    &&& g.same_world_but_stats(og)
    &&& c == (Crablet { position: c.position, ..o })
    &&& c.position == o.position || (neighbours8_spec(&og.tilemap, o.position).contains(
        c.position
    ) && congestion_at(og, c.position) <= congestion_at(og, o.position))
    &&& !og.debug.enable_congestion ==> c == o && g.stats == og.stats
    &&& c.position != o.position ==> exists|w: GameState, noise: Seq<u64>, k: int|
        #[trigger] relax_pick(&w, neighbours8_spec(&og.tilemap, o.position), congestion_at(og, o.position) as u8, noise, k)
            && w.congestion == og.congestion && noise.len() == neighbours8_spec(&og.tilemap, o.position).len()
            && (forall|j: int| 0 <= j < noise.len() ==> #[trigger] noise[j] <= 2)
            && neighbours8_spec(&og.tilemap, o.position)[k] == c.position
}

/// What the animation check does; `r` tells whether the agent may act.
pub open spec fn animation_ticked(c: Crablet, o: Crablet, g: &GameState, og: &GameState, r: bool) -> bool {
    &&& g.wf()
    &&& g.same_world_but_stats(og)
    &&& r == (!og.debug.enable_animation || o.anim_timer.alarm <= og.now)
    &&& r ==> c.prev_pos == o.position
    &&& !r ==> c == o
    &&& c == (Crablet { prev_pos: c.prev_pos, anim_timer: c.anim_timer, ..o })
}

/// What a tick of work on the task does, by the task's kind.
pub open spec fn task_ticked(c: Crablet, o: Crablet, g: &GameState, og: &GameState) -> bool {
    match o.task {
        Task::Harvest { resource, from, to } => harvest_ticked(c, o, g, og, resource, from, to),
        Task::FactoryPickUp { resource, from, to } => pick_up_ticked(c, o, g, og, resource, from, to),
        Task::FactoryDeliver { to } => deliver_ticked(c, o, g, og, to),
        Task::Idle => relax_ticked(c, o, g, og),
    }
}

/// One navigation step: the navigation state and position move as `spec_navstate_tick` says
/// (the wait before the next step may change); only counters and the generator change besides.
pub open spec fn nav_stepped(c: Crablet, o: Crablet, g: &GameState, og: &GameState) -> bool {
    let (step, nav) = spec_navstate_tick(o.navigation, og, o.position);
    &&& g.wf()
    &&& g.same_world_but_stats(og)
    &&& c == (Crablet {
        navigation: nav,
        position: match step {
            Some(t) => t,
            None => o.position,
        },
        anim_timer: c.anim_timer,
        ..o
    })
}

/// One tick of agent `o` in world `og`, giving `c` and `g`: nothing but counters when the
/// animation holds it back; else, over intermediate states, the animation lets it act (`c1`, `g1`), a
/// navigation step is taken (`c2`, `g2`), and then, if travel ended at the destination, a tick of
/// work on the task, or, if the destination proved unreachable, giving it up.
pub open spec fn agent_ticked(c: Crablet, o: Crablet, g: &GameState, og: &GameState) -> bool {
    if og.debug.enable_animation && o.anim_timer.alarm > og.now {
        c == o && g.wf() && g.same_world_but_stats(og)
    } else {
        exists|c1: Crablet, g1: GameState, c2: Crablet, g2: GameState|
            #[trigger] animation_ticked(c1, o, &g1, og, true) && #[trigger] nav_stepped(c2, c1, &g2, &g1) && match c2.navigation {
                NavState::Travelling(_) => c == c2 && *g == g2,
                NavState::DestinationReached => task_ticked(c, c2, g, &g2),
                NavState::Unreachable(dst) => unreachable_handled(c, c2, g, &g2, dst),
            }
    }
}

impl Crablet {
    /// An idle agent at `position`, at home there.
    pub fn new(position: Vec2i) -> (r: Crablet)
        ensures
            r.position == position,
            r.home_area == position,
            r.prev_pos == position,
            r.anim_timer.alarm == 0,
            r.navigation == NavState::DestinationReached,
            r.task == Task::Idle,
            r.cargo is None,
            !r.selected,
            r.sprite.0 == 3,
    {
        Crablet {
            position,
            home_area: position,
            prev_pos: position,
            anim_timer: Timer::new(0),
            navigation: NavState::DestinationReached,
            task: Task::Idle,
            cargo: None,
            selected: false,
            sprite: Sprite::ferris(),
        }
    }

    pub fn set_destination(&mut self, destination: Vec2i)
        ensures
            *final(self) == (Crablet {
                navigation: spec_set_destination(old(self).navigation, destination),
                ..*old(self)
            }),
    {
        self.navigation.set_destination(destination)
    }

    /// The destination cannot be reached: claim it so that nobody is sent there at once, and
    /// give up the task.
    pub fn on_destination_unreachable(&mut self, gs: &mut GameState, dst: Vec2i)
        requires
            old(gs).wf(),
        ensures
            unreachable_handled(*final(self), *old(self), final(gs), old(gs), dst),
    {
        let _ = gs.reserve_resource(dst);
        proof {
            if old(gs).resource_reservations.in_bounds(dst) {
                crate::grid::lemma_index_in_range(
                    old(gs).resource_reservations.size.x as int,
                    old(gs).resource_reservations.size.y as int,
                    dst.x as int,
                    dst.y as int,
                );
            }
        }
        self.task = Task::Idle;
        self.navigation = NavState::DestinationReached;
    }

    /// Harvest: walk to `from`; there, give up the task, and if the resource still lies there,
    /// pick it up, clear its claim, and head for the factory at `to` to deliver it.
    pub fn tick_harvest(&mut self, gs: &mut GameState, resource: Resource, from: Vec2i, to: Vec2i)
        requires
            old(gs).wf(),
        ensures
            harvest_ticked(*final(self), *old(self), final(gs), old(gs), resource, from, to),
    {
        if self.position != from {
            self.set_destination(from);
            return;
        }
        self.task = Task::Idle;
        if gs.resources.at_or(self.position, None) == Some(resource) {
            gs.resources.try_set(self.position, None);
            gs.resource_reservations.try_set(self.position, 0);
            self.cargo = Some(resource);
            self.set_destination(to);
            self.task = Task::FactoryDeliver { to };
        }
    }

    /// Pick-up: walk to `from`; there, take `resource` out of the factory covering it and head
    /// on to deliver at `to`, or give up the task when that fails.
    pub fn tick_factory_pick_up(&mut self, gs: &mut GameState, resource: Resource, from: Vec2i, to: Vec2i)
        requires
            old(gs).wf(),
        ensures
            pick_up_ticked(*final(self), *old(self), final(gs), old(gs), resource, from, to),
    {
        if self.position != from {
            self.set_destination(from);
            return;
        }
        match gs.factory_id_at(self.position) {
            Some(i) => {
                let ghost o = *gs;
                if gs.factories[i].take_output(resource).is_ok() {
                    self.cargo = Some(resource);
                    self.task = Task::FactoryDeliver { to };
                } else {
                    self.task = Task::Idle;
                }
                proof {
                    if let Some(slot) = o.factories@[i as int].output_slot(resource) {
                        crate::factory::lemma_output_slot(&o.factories@[i as int], resource);
                        assert(o.factories@[i as int].outputs@.update(slot, o.factories@[i as int].outputs@[slot])
                            =~= o.factories@[i as int].outputs@);
                    }
                    assert forall|f: int| 0 <= f < gs.factories@.len() implies (#[trigger] gs.factories@[f]).wf()
                        && (f != i ==> gs.factories@[f] == o.factories@[f]) by {
                        assert(o.factories@[f].wf());
                    }
                }
            },
            None => {
                self.task = Task::Idle;
            },
        }
    }

    /// Delivery: walk to `to`; there, put the cargo into the factory covering it (dropping it
    /// from the cargo only on success) and give up the task either way.
    pub fn tick_factory_deliver(&mut self, gs: &mut GameState, to: Vec2i)
        requires
            old(gs).wf(),
        ensures
            deliver_ticked(*final(self), *old(self), final(gs), old(gs), to),
    {
        if self.position != to {
            self.set_destination(to);
            return;
        }
        let cargo = match self.cargo {
            Some(c) => c,
            None => {
                self.task = Task::Idle;
                return;
            },
        };
        if let Some(i) = gs.factory_id_at(self.position) {
            let ghost o = *gs;
            if gs.factories[i].add_input(cargo).is_ok() {
                self.cargo = None;
            }
            proof {
                if let Some(slot) = o.factories@[i as int].input_slot(cargo) {
                    crate::factory::lemma_input_slot(&o.factories@[i as int], cargo);
                    assert(o.factories@[i as int].inputs@.update(slot, o.factories@[i as int].inputs@[slot])
                        =~= o.factories@[i as int].inputs@);
                }
                assert forall|f: int| 0 <= f < gs.factories@.len() implies (#[trigger] gs.factories@[f]).wf()
                    && (f != i ==> gs.factories@[f] == o.factories@[f]) by {
                    assert(o.factories@[f].wf());
                }
            }
        }
        self.task = Task::Idle;
    }
}

/// Candidate `k` may be stepped to when relaxing: no more congested than `c`.
pub open spec fn relax_eligible(gs: &GameState, cands: Seq<Vec2i>, c: u8, k: int) -> bool {
    0 <= k < cands.len() && congestion_at(gs, cands[k]) <= c
}

/// Candidate `k` is the first eligible one with the least congestion plus noise.
pub open spec fn relax_pick(gs: &GameState, cands: Seq<Vec2i>, c: u8, noise: Seq<u64>, k: int) -> bool {
    &&& relax_eligible(gs, cands, c, k)
    &&& forall|j: int|
        #[trigger] relax_eligible(gs, cands, c, j) && j != k ==> congestion_at(gs, cands[j]) + noise[j]
            > congestion_at(gs, cands[k]) + noise[k] || (congestion_at(gs, cands[j]) + noise[j]
            == congestion_at(gs, cands[k]) + noise[k] && k < j)
}

/// Where a crowded agent steps when relaxing: among `cands` no more congested than `c`, the
/// first with the least congestion plus its `noise`.
pub fn relax_choice(gs: &GameState, cands: &Vec<Vec2i>, c: u8, noise: &Vec<u64>) -> (r: Option<Vec2i>)
    requires
        gs.wf(),
        noise@.len() == cands@.len(),
        forall|k: int| 0 <= k < noise@.len() ==> #[trigger] noise@[k] <= 2,
    ensures
        match r {
            Some(q) => exists|k: int| #[trigger] relax_pick(gs, cands@, c, noise@, k) && cands@[k] == q,
            None => forall|k: int| !#[trigger] relax_eligible(gs, cands@, c, k),
        },
{
    let mut best: Option<usize> = None;
    let mut best_score: u64 = 0;
    let mut k: usize = 0;
    while k < cands.len()
        invariant
            gs.wf(),
            noise@.len() == cands@.len(),
            forall|k: int| 0 <= k < noise@.len() ==> #[trigger] noise@[k] <= 2,
            k <= cands@.len(),
            match best {
                Some(b) => {
                    &&& b < k
                    &&& relax_eligible(gs, cands@, c, b as int)
                    &&& best_score == congestion_at(gs, cands@[b as int]) + noise@[b as int]
                    &&& forall|j: int|
                        #[trigger] relax_eligible(gs, cands@, c, j) && j != b && j < k ==> congestion_at(
                            gs,
                            cands@[j],
                        ) + noise@[j] > best_score || (congestion_at(gs, cands@[j]) + noise@[j]
                            == best_score && b < j)
                },
                None => forall|j: int| #[trigger] relax_eligible(gs, cands@, c, j) ==> j >= k,
            },
        decreases cands@.len() - k,
    {
        let q = cands[k];
        let cong = gs.congestion.at_or_default(q);
        if cong <= c {
            let score: u64 = cong as u64 + noise[k];
            let better = match best {
                None => true,
                Some(_) => score < best_score,
            };
            if better {
                best = Some(k);
                best_score = score;
            }
        }
        k = k + 1;
    }
    match best {
        Some(b) => {
            proof {
                assert(relax_pick(gs, cands@, c, noise@, b as int));
            }
            Some(cands[b])
        },
        None => None,
    }
}

impl Crablet {
    /// Ticks an agent waits per step: the base per tile, plus zero or one at random.
    pub fn base_anim_time(&self, gs: &mut GameState) -> (r: u64)
        requires
            old(gs).wf(),
        ensures
            final(gs).wf(),
            final(gs).same_world_but_stats(old(gs)),
            final(gs).stats == old(gs).stats,
            old(gs).anim_frames_per_tile <= r <= old(gs).anim_frames_per_tile + 1,
    {
        gs.anim_frames_per_tile as u64 + gen_range_inclusive(&mut gs.rng, 0, 1)
    }

    /// Relaxing in a crowd: with congestion modelled and more than one agent here, one time in
    /// three (at random) step to a walkable neighbour no more congested, preferring the least
    /// congested with a small random tie-break. The agent moves nowhere else.
    pub fn tick_relax(&mut self, gs: &mut GameState)
        requires
            old(gs).wf(),
        ensures
            relax_ticked(*final(self), *old(self), final(gs), old(gs)),
    {
        if !gs.debug.enable_congestion {
            return;
        }
        gs.stats.inc(Event::CallRelax);
        let c = gs.congestion.at_or_default(self.position);
        if c > 1 {
            if gen_range_inclusive(&mut gs.rng, 0, 2) == 0 {
                let cands = walkable_neighbours8(gs, self.position);
                let mut noise: Vec<u64> = Vec::new();
                let mut k: usize = 0;
                while k < cands.len()
                    invariant
                        gs.wf(),
                        gs.same_world_but_stats(old(gs)),
                        k <= cands@.len(),
                        noise@.len() == k,
                        forall|j: int| 0 <= j < noise@.len() ==> #[trigger] noise@[j] <= 2,
                    decreases cands@.len() - k,
                {
                    noise.push(gen_range_inclusive(&mut gs.rng, 0, 2));
                    k = k + 1;
                }
                if let Some(t) = relax_choice(gs, &cands, c, &noise) {
                    proof {
                        let k = choose|k: int| #[trigger] relax_pick(gs, cands@, c, noise@, k) && cands@[k] == t;
                        assert(c == congestion_at(old(gs), old(self).position) as u8);
                        assert(relax_pick(gs, neighbours8_spec(&old(gs).tilemap, old(self).position), congestion_at(old(gs), old(self).position) as u8, noise@, k));
                    }
                    self.position = t;
                }
            }
        }
    }

    /// Gates logical progress on the animation: without animation always; else once the
    /// previous step's wait is over, when the next wait starts. Either way the previous position
    /// is left behind then.
    pub fn tick_animation(&mut self, gs: &mut GameState) -> (r: bool)
        requires
            old(gs).wf(),
        ensures
            animation_ticked(*final(self), *old(self), final(gs), old(gs), r),
    {
        if !gs.debug.enable_animation {
            self.prev_pos = self.position;
            return true;
        }
        gs.stats.inc(Event::CallAnimateCrab);
        if self.anim_timer.finished(gs.now) {
            let t = self.base_anim_time(gs);
            self.anim_timer.set_alarm(gs.now, t);
            self.prev_pos = self.position;
            true
        } else {
            false
        }
    }

    /// Moves to `position`; with congestion modelled, the wait before the next step grows with
    /// the congestion there.
    pub fn set_pos(&mut self, gs: &mut GameState, position: Vec2i)
        requires
            old(gs).wf(),
        ensures
            final(gs).wf(),
            final(gs).same_world_but_stats(old(gs)),
            final(gs).stats == old(gs).stats,
            *final(self) == (Crablet { position, anim_timer: final(self).anim_timer, ..*old(self) }),
            !old(gs).debug.enable_congestion ==> final(self).anim_timer == old(self).anim_timer,
    {
        if gs.debug.enable_congestion {
            let congestion = gs.congestion.at_or_default(position);
            let base = self.base_anim_time(gs);
            assert((congestion as u64 + 1) * base <= 256 * 257) by (nonlinear_arith)
                requires
                    congestion <= 255,
                    base <= 256,
            ;
            self.anim_timer.set_alarm(gs.now, (congestion as u64 + 1) * base);
        }
        self.position = position;
    }

    /// Advances navigation one step and reports its status.
    pub fn tick_navigation(&mut self, gs: &mut GameState) -> (r: NavStatus)
        requires
            old(gs).wf(),
        ensures
            r == final(self).navigation.spec_status(),
            nav_stepped(*final(self), *old(self), final(gs), old(gs)),
    {
        let next = self.navigation.tick(gs, self.position);
        gs.stats.inc(Event::CallNavigateCrab);
        if let Some(next_tile) = next {
            self.set_pos(gs, next_tile);
        }
        self.navigation.status()
    }

    /// Works on the task when the destination has been reached; without a task, relaxes.
    pub fn tick_task(&mut self, gs: &mut GameState)
        requires
            old(gs).wf(),
        ensures
            final(gs).wf(),
            final(gs).same_map(old(gs)),
            task_ticked(*final(self), *old(self), final(gs), old(gs)),
    {
        match self.task {
            Task::Harvest { resource, from, to } => self.tick_harvest(gs, resource, from, to),
            Task::FactoryPickUp { resource, from, to } => self.tick_factory_pick_up(gs, resource, from, to),
            Task::FactoryDeliver { to } => self.tick_factory_deliver(gs, to),
            Task::Idle => self.tick_relax(gs),
        }
    }

    /// One tick of the agent: once the animation allows, a navigation step; at the destination,
    /// work on the task; when the destination proved unreachable, claim it and give up the task.
    pub fn tick(&mut self, gs: &mut GameState)
        requires
            old(gs).wf(),
        ensures
            final(gs).wf(),
            final(gs).same_map(old(gs)),
            agent_ticked(*final(self), *old(self), final(gs), old(gs)),
    {
        if !self.tick_animation(gs) {
            return;
        }
        let ghost c1 = *self;
        let ghost g1 = *gs;
        let status = self.tick_navigation(gs);
        let ghost c2 = *self;
        let ghost g2 = *gs;
        match status {
            NavStatus::Travelling => {},
            NavStatus::DestinationReached => self.tick_task(gs),
            NavStatus::Unreachable(dst) => self.on_destination_unreachable(gs, dst),
        }
        proof {
            assert(animation_ticked(c1, *old(self), &g1, old(gs), true));
            assert(nav_stepped(c2, c1, &g2, &g1));
        }
    }
}

} // verus!
