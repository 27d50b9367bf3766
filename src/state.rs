use vstd::prelude::*;

use crate::crablet::Crablet;
use crate::factory::Factory;
use crate::geom::Vec2i;
use crate::grid::{Tilemap, Vec2D};
use crate::resource::Resource;
use crate::stats::Stats;
use rand_xoshiro::Xoshiro256PlusPlus;

verus! {

/// Editor tool.
#[derive(Clone, Copy, PartialEq, Eq, Structural, Debug)]
pub enum EdMode {
    Select,
    Pencil,
    Buildings,
    Fill,
}

impl Default for EdMode {
    fn default() -> (r: EdMode)
        ensures
            r == EdMode::Select,
    {
        EdMode::Select
    }
}

/// Switches for the simulation's systems.
#[derive(Clone, Copy, PartialEq, Eq, Structural, Debug)]
pub struct DebugOpts {
    pub pause_all_systems: bool,
    pub enable_congestion: bool,
    pub enable_animation: bool,
    pub taskman_empty_hands: bool,
    pub taskman_give_work: bool,
    pub tick_factories: bool,
    pub expire_factory_reservations: bool,
    pub god_mode: bool,
}

impl DebugOpts {
    /// Every system runs; congestion modelling, animation and god mode are off.
    pub open spec fn default_spec() -> DebugOpts {
        DebugOpts {
            pause_all_systems: false,
            enable_congestion: false,
            enable_animation: false,
            taskman_empty_hands: true,
            taskman_give_work: true,
            tick_factories: true,
            expire_factory_reservations: true,
            god_mode: false,
        }
    }
}

impl Default for DebugOpts {
    /// Every system runs; congestion modelling, animation and god mode are off.
    fn default() -> (r: DebugOpts)
        ensures
            r == DebugOpts::default_spec(),
    {
        DebugOpts {
            pause_all_systems: false,
            enable_congestion: false,
            enable_animation: false,
            taskman_empty_hands: true,
            taskman_give_work: true,
            tick_factories: true,
            expire_factory_reservations: true,
            god_mode: false,
        }
    }
}

/// A structural change deferred to the end of the tick.
#[derive(Clone, Copy, PartialEq, Eq, Structural, Debug)]
pub enum Command {
    /// Remove the first factory standing at `position`.
    RemoveFactory { position: Vec2i },
}

/// Ticks between runs of the slower systems.
pub const MAJOR_TICK: u64 = 16;

/// Major ticks that a claim on a ground resource lasts.
pub const RESOURCE_RESERVATION_TTL_MAJOR_TICKS: u8 = 128;

/// Ticks between two expiries of all factory reservations.
pub const FACTORY_RESERVATION_TTL_MAJOR_TICKS: u64 = 512;

/// The whole simulated world.
#[derive(Debug)]
pub struct GameState {
    pub now: u64,
    pub search_radius: i32,
    pub anim_frames_per_tile: u8,
    pub dragging: Option<(Vec2i, Vec2i)>,
    pub tilemap: Tilemap,
    pub resources: Vec2D<Option<Resource>>,
    pub resource_reservations: Vec2D<u8>,
    pub congestion: Vec2D<u8>,
    pub crablets: Vec<Crablet>,
    pub factories: Vec<Factory>,
    pub debug: DebugOpts,
    pub stats: Stats,
    pub ed_mode: EdMode,
    pub editor_current_tile: u8,
    pub editor_current_building: u8,
    pub commands: Vec<Command>,
    pub rng: Xoshiro256PlusPlus,
    /// Chance, in millionths, that an empty farm cell next to water grows seaweed on a major tick.
    pub grow_crops_per_million: u32,
}

impl GameState {
    /// Every layer holds one value per cell, the counters are complete, and every factory is
    /// well formed.
    pub open spec fn wf(&self) -> bool {
        &&& self.tilemap.wf()
        &&& self.resources.size == self.tilemap.tiles.size
        &&& self.resource_reservations.size == self.tilemap.tiles.size
        &&& self.congestion.size == self.tilemap.tiles.size
        &&& self.resources.wf()
        &&& self.resource_reservations.wf()
        &&& self.congestion.wf()
        &&& self.stats.wf()
        &&& forall|i: int| 0 <= i < self.factories@.len() ==> (#[trigger] self.factories@[i]).wf()
    }

    /// The claim on the ground resource at `p`; zero outside the map.
    pub open spec fn reservation(&self, p: Vec2i) -> u8 {
        if self.resource_reservations.in_bounds(p) {
            self.resource_reservations.cell(p)
        } else {
            0
        }
    }

    /// The ground resource at `p`; none outside the map.
    pub open spec fn resource_at(&self, p: Vec2i) -> Option<Resource> {
        if self.resources.in_bounds(p) {
            self.resources.cell(p)
        } else {
            None
        }
    }

    /// Picks up whatever lies at `position`, easing its claim by one (saturating); nothing off
    /// the map.
    pub fn try_pick_up_any(&mut self, position: Vec2i) -> (r: Option<Resource>)
        requires
            old(self).wf(),
        ensures
            final(self).wf(),
            final(self).same_but_ground(old(self)),
            r == old(self).resource_at(position),
            old(self).resources.in_bounds(position) ==> final(self).resources.is_set_from(&old(self).resources, position, None)
                && final(self).resource_reservations.is_set_from(
                &old(self).resource_reservations,
                position,
                if old(self).reservation(position) == 0 {
                    0u8
                } else {
                    (old(self).reservation(position) - 1) as u8
                },
            ),
            !old(self).resources.in_bounds(position) ==> final(self).resources == old(self).resources
                && final(self).resource_reservations == old(self).resource_reservations,
    {
        let v = self.resource_reservations.at_or_default(position);
        let nv: u8 = if v == 0 {
            0
        } else {
            v - 1
        };
        self.resource_reservations.try_set(position, nv);
        self.resources.take_at(position)
    }

    /// Claims the ground resource at `p` for the full time, unless it is off the map or
    /// already claimed.
    pub fn reserve_resource(&mut self, pos: Vec2i) -> (r: bool)
        requires
            old(self).wf(),
        ensures
            final(self).wf(),
            r == (old(self).resource_reservations.in_bounds(pos) && old(self).reservation(pos) == 0),
            r ==> final(self).resource_reservations.is_set_from(
                &old(self).resource_reservations,
                pos,
                RESOURCE_RESERVATION_TTL_MAJOR_TICKS,
            ),
            !r ==> final(self).resource_reservations == old(self).resource_reservations,
            final(self).same_world_but_reservations(old(self)),
            final(self).crablets == old(self).crablets,
            final(self).factories == old(self).factories,
    {
        if !self.resource_reservations.contains(pos) {
            return false;
        }
        let p = pos.as_u32();
        if self.resource_reservations.at(p) != 0 {
            return false;
        }
        self.resource_reservations.try_set(pos, RESOURCE_RESERVATION_TTL_MAJOR_TICKS);
        true
    }

    /// The map, the ground resources, the settings and the deferred commands are the same.
    pub open spec fn same_setting(&self, o: &GameState) -> bool {
        &&& self.grow_crops_per_million == o.grow_crops_per_million
        &&& self.now == o.now
        &&& self.search_radius == o.search_radius
        &&& self.anim_frames_per_tile == o.anim_frames_per_tile
        &&& self.dragging == o.dragging
        &&& self.tilemap == o.tilemap
        &&& self.resources == o.resources
        &&& self.congestion == o.congestion
        &&& self.debug == o.debug
        &&& self.ed_mode == o.ed_mode
        &&& self.editor_current_tile == o.editor_current_tile
        &&& self.editor_current_building == o.editor_current_building
        &&& self.commands == o.commands
    }

    /// Everything but the agents is the same.
    pub open spec fn same_but_crablets(&self, o: &GameState) -> bool {
        &&& self.same_setting(o)
        &&& self.stats == o.stats
        &&& self.resource_reservations == o.resource_reservations
        &&& self.factories == o.factories
    }

    /// Everything but the congestion counts is the same.
    pub open spec fn same_but_congestion(&self, o: &GameState) -> bool {
        &&& self.grow_crops_per_million == o.grow_crops_per_million
        &&& self.now == o.now
        &&& self.search_radius == o.search_radius
        &&& self.anim_frames_per_tile == o.anim_frames_per_tile
        &&& self.dragging == o.dragging
        &&& self.tilemap == o.tilemap
        &&& self.resources == o.resources
        &&& self.resource_reservations == o.resource_reservations
        &&& self.debug == o.debug
        &&& self.ed_mode == o.ed_mode
        &&& self.editor_current_tile == o.editor_current_tile
        &&& self.editor_current_building == o.editor_current_building
        &&& self.commands == o.commands
        &&& self.stats == o.stats
        &&& self.crablets == o.crablets
        &&& self.factories == o.factories
        &&& self.congestion.size == o.congestion.size
    }

    /// Everything but the terrain and the deferred commands is the same.
    pub open spec fn same_but_tiles_and_commands(&self, o: &GameState) -> bool {
        &&& self.grow_crops_per_million == o.grow_crops_per_million
        &&& self.now == o.now
        &&& self.search_radius == o.search_radius
        &&& self.anim_frames_per_tile == o.anim_frames_per_tile
        &&& self.dragging == o.dragging
        &&& self.tilemap.sprites == o.tilemap.sprites
        &&& self.tilemap.tiles.size == o.tilemap.tiles.size
        &&& self.resources == o.resources
        &&& self.resource_reservations == o.resource_reservations
        &&& self.congestion == o.congestion
        &&& self.debug == o.debug
        &&& self.ed_mode == o.ed_mode
        &&& self.editor_current_tile == o.editor_current_tile
        &&& self.editor_current_building == o.editor_current_building
        &&& self.stats == o.stats
        &&& self.crablets == o.crablets
        &&& self.factories == o.factories
    }

    /// Everything but the ground resources and their claims is the same.
    pub open spec fn same_but_ground(&self, o: &GameState) -> bool {
        &&& self.grow_crops_per_million == o.grow_crops_per_million
        &&& self.now == o.now
        &&& self.search_radius == o.search_radius
        &&& self.anim_frames_per_tile == o.anim_frames_per_tile
        &&& self.dragging == o.dragging
        &&& self.tilemap == o.tilemap
        &&& self.congestion == o.congestion
        &&& self.debug == o.debug
        &&& self.ed_mode == o.ed_mode
        &&& self.editor_current_tile == o.editor_current_tile
        &&& self.editor_current_building == o.editor_current_building
        &&& self.commands == o.commands
        &&& self.stats == o.stats
        &&& self.crablets == o.crablets
        &&& self.factories == o.factories
    }

    /// Everything but the factories is the same.
    pub open spec fn same_but_factories(&self, o: &GameState) -> bool {
        &&& self.same_setting(o)
        &&& self.stats == o.stats
        &&& self.resource_reservations == o.resource_reservations
        &&& self.crablets == o.crablets
    }

    /// The map, the settings, the agents, the deferred commands and the number of factories are
    /// the same; ground resources, claims, buffers and counters may differ.
    pub open spec fn same_map(&self, o: &GameState) -> bool {
        &&& self.grow_crops_per_million == o.grow_crops_per_million
        &&& self.now == o.now
        &&& self.search_radius == o.search_radius
        &&& self.anim_frames_per_tile == o.anim_frames_per_tile
        &&& self.dragging == o.dragging
        &&& self.tilemap == o.tilemap
        &&& self.congestion == o.congestion
        &&& self.debug == o.debug
        &&& self.ed_mode == o.ed_mode
        &&& self.editor_current_tile == o.editor_current_tile
        &&& self.editor_current_building == o.editor_current_building
        &&& self.commands == o.commands
        &&& self.crablets == o.crablets
        &&& self.factories@.len() == o.factories@.len()
    }

    /// Every factory holds what it held in `o`.
    pub open spec fn factories_unchanged(&self, o: &GameState) -> bool {
        &&& self.factories@.len() == o.factories@.len()
        &&& forall|g: int| 0 <= g < self.factories@.len() ==> (#[trigger] self.factories@[g]).unchanged_from(&o.factories@[g])
    }

    /// The first factory covering `pos`.
    pub open spec fn factory_index_at(&self, pos: Vec2i) -> Option<int> {
        if exists|i: int| #[trigger] self.is_first_factory_at(pos, i) {
            Some(choose|i: int| #[trigger] self.is_first_factory_at(pos, i))
        } else {
            None
        }
    }

    pub open spec fn is_first_factory_at(&self, pos: Vec2i, i: int) -> bool {
        &&& 0 <= i < self.factories@.len()
        &&& self.factories@[i].spec_bounds().contains_spec(pos)
        &&& forall|j: int| 0 <= j < i ==> !(#[trigger] self.factories@[j]).spec_bounds().contains_spec(pos)
    }

    /// Index of the first factory covering `position`.
    pub fn factory_id_at(&self, position: Vec2i) -> (r: Option<usize>)
        ensures
            match r {
                Some(i) => self.factory_index_at(position) == Some(i as int),
                None => self.factory_index_at(position) is None,
            },
    {
        let mut i: usize = 0;
        while i < self.factories.len()
            invariant
                i <= self.factories@.len(),
                forall|j: int| 0 <= j < i ==> !(#[trigger] self.factories@[j]).spec_bounds().contains_spec(position),
            decreases self.factories@.len() - i,
        {
            if self.factories[i].bounds().contains(position) {
                proof {
                    assert(self.is_first_factory_at(position, i as int));
                    let k = choose|k: int| #[trigger] self.is_first_factory_at(position, k);
                    if k < i {
                    }
                    if i < k {
                        assert(!self.factories@[i as int].spec_bounds().contains_spec(position));
                    }
                }
                return Some(i);
            }
            i = i + 1;
        }
        None
    }

    /// Everything but the counters is the same.
    pub open spec fn same_world_but_stats(&self, o: &GameState) -> bool {
        &&& self.same_setting(o)
        &&& self.resource_reservations == o.resource_reservations
        &&& self.crablets == o.crablets
        &&& self.factories == o.factories
    }

    /// Everything but the agents, the factories and the resource claims is the same.
    pub open spec fn same_world_but_reservations(&self, o: &GameState) -> bool {
        &&& self.same_setting(o)
        &&& self.stats == o.stats
    }

    /// Everything but the agents and the factories is the same.
    pub open spec fn same_world(&self, o: &GameState) -> bool {
        &&& self.same_world_but_reservations(o)
        &&& self.resource_reservations == o.resource_reservations
    }

    /// The factories are those of `o`, with some reservation counters raised.
    pub open spec fn factories_grown_from(&self, o: &GameState) -> bool {
        &&& self.factories@.len() == o.factories@.len()
        &&& forall|i: int|
            0 <= i < self.factories@.len() ==> (#[trigger] self.factories@[i]).grown_from(
                &o.factories@[i],
            )
    }
}

} // verus!
