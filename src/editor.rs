use vstd::prelude::*;

use crate::crablet::Crablet;
use crate::factory::{building_site_prototype, dig_site_prototype, factory_prototype, Factory, NUM_PROTOTYPES};
use crate::geom::{Bounds2i, Vec2i};
use crate::grid::Tile;
use crate::navigation::spec_set_destination;
use crate::resource::Resource;
use crate::rng::gen_range_inclusive;
use crate::state::{EdMode, GameState};

verus! {

impl GameState {
    /// The selection rectangle spanned by a drag from `start` to `end`, both included.
    pub fn selection(drag: (Vec2i, Vec2i)) -> (r: Bounds2i)
        ensures
            r == Bounds2i::spanning_spec(drag.0, drag.1),
    {
        Bounds2i::spanning(drag.0, drag.1)
    }

    /// Selects exactly the agents inside `selection`.
    pub fn select_crabs(&mut self, selection: Bounds2i)
        requires
            old(self).wf(),
        ensures
            final(self).wf(),
            final(self).same_but_crablets(old(self)),
            final(self).crablets@.len() == old(self).crablets@.len(),
            forall|c: int| 0 <= c < old(self).crablets@.len() ==> #[trigger] final(self).crablets@[c] == (Crablet {
                selected: selection.contains_spec(old(self).crablets@[c].position),
                ..old(self).crablets@[c]
            }),
    {
        let mut i: usize = 0;
        while i < self.crablets.len()
            invariant
                self.wf(),
                self.same_but_crablets(old(self)),
                self.crablets@.len() == old(self).crablets@.len(),
                i <= self.crablets@.len(),
                forall|c: int| 0 <= c < i ==> #[trigger] self.crablets@[c] == (Crablet {
                    selected: selection.contains_spec(old(self).crablets@[c].position),
                    ..old(self).crablets@[c]
                }),
                forall|c: int| i <= c < self.crablets@.len() ==> #[trigger] self.crablets@[c] == old(self).crablets@[c],
            decreases self.crablets@.len() - i,
        {
            let mut c = self.crablets[i];
            c.selected = selection.contains(c.position);
            self.crablets.set(i, c);
            i = i + 1;
        }
    }

    /// Sends every selected agent to `target`, which becomes its home, and deselects it.
    pub fn send_selected(&mut self, target: Vec2i)
        requires
            old(self).wf(),
        ensures
            final(self).wf(),
            final(self).same_but_crablets(old(self)),
            final(self).crablets@.len() == old(self).crablets@.len(),
            forall|c: int| 0 <= c < old(self).crablets@.len() ==> #[trigger] final(self).crablets@[c] == (if old(self).crablets@[c].selected {
                Crablet {
                    navigation: spec_set_destination(old(self).crablets@[c].navigation, target),
                    home_area: target,
                    selected: false,
                    ..old(self).crablets@[c]
                }
            } else {
                old(self).crablets@[c]
            }),
    {
        let mut i: usize = 0;
        while i < self.crablets.len()
            invariant
                self.wf(),
                self.same_but_crablets(old(self)),
                self.crablets@.len() == old(self).crablets@.len(),
                i <= self.crablets@.len(),
                forall|c: int| 0 <= c < i ==> #[trigger] self.crablets@[c] == (if old(self).crablets@[c].selected {
                    Crablet {
                        navigation: spec_set_destination(old(self).crablets@[c].navigation, target),
                        home_area: target,
                        selected: false,
                        ..old(self).crablets@[c]
                    }
                } else {
                    old(self).crablets@[c]
                }),
                forall|c: int| i <= c < self.crablets@.len() ==> #[trigger] self.crablets@[c] == old(self).crablets@[c],
            decreases self.crablets@.len() - i,
        {
            let mut c = self.crablets[i];
            if c.selected {
                c.navigation.set_destination(target);
                c.home_area = target;
                c.selected = false;
            }
            self.crablets.set(i, c);
            i = i + 1;
        }
    }

    fn any_selected(&self) -> (r: bool)
        ensures
            r == exists|c: int| 0 <= c < self.crablets@.len() && (#[trigger] self.crablets@[c]).selected,
    {
        let mut i: usize = 0;
        while i < self.crablets.len()
            invariant
                i <= self.crablets@.len(),
                forall|c: int| 0 <= c < i ==> !(#[trigger] self.crablets@[c]).selected,
            decreases self.crablets@.len() - i,
        {
            if self.crablets[i].selected {
                return true;
            }
            i = i + 1;
        }
        false
    }

    /// Releasing the mouse in select mode: a dragged rectangle selects the agents in it; a click
    /// sends the selected agents there, or, when none is selected, selects the agents clicked on.
    pub fn select_mode_mouse_up(&mut self, drag: (Vec2i, Vec2i))
        requires
            old(self).wf(),
        ensures
            final(self).wf(),
            final(self).same_but_crablets(old(self)),
            final(self).crablets@.len() == old(self).crablets@.len(),
            ({
                let sel = Bounds2i::spanning_spec(drag.0, drag.1);
                let any = exists|c: int| 0 <= c < old(self).crablets@.len() && (#[trigger] old(self).crablets@[c]).selected;
                forall|c: int| 0 <= c < old(self).crablets@.len() ==> #[trigger] final(self).crablets@[c] == (
                if drag.0 == drag.1 && any {
                    if old(self).crablets@[c].selected {
                        Crablet {
                            navigation: spec_set_destination(old(self).crablets@[c].navigation, drag.0),
                            home_area: drag.0,
                            selected: false,
                            ..old(self).crablets@[c]
                        }
                    } else {
                        old(self).crablets@[c]
                    }
                } else {
                    Crablet { selected: sel.contains_spec(old(self).crablets@[c].position), ..old(self).crablets@[c] }
                })
            }),
    {
        let (start, end) = drag;
        let selection = Self::selection(drag);
        if start != end {
            self.select_crabs(selection);
        } else if self.any_selected() {
            self.send_selected(start);
        } else {
            self.select_crabs(selection);
        }
    }

    /// Places `prototype` at `position`, unless it would overlap a factory.
    pub fn try_build_factory(&mut self, prototype: Factory, position: Vec2i)
        requires
            old(self).wf(),
            prototype.wf(),
        ensures
            final(self).wf(),
            final(self).same_but_factories(old(self)),
            ({
                let placed = Factory { position, ..prototype };
                let overlaps = exists|i: int| 0 <= i < old(self).factories@.len() && (#[trigger] old(self).factories@[i]).spec_bounds().intersects_spec(placed.spec_bounds());
                &&& overlaps ==> final(self).factories == old(self).factories
                &&& !overlaps ==> final(self).factories@ == old(self).factories@.push(placed)
            }),
    {
        let mut placed = prototype;
        placed.position = position;
        let b = placed.bounds();
        let mut i: usize = 0;
        while i < self.factories.len()
            invariant
                self.wf(),
                *self == *old(self),
                placed == (Factory { position, ..prototype }),
                i <= self.factories@.len(),
                b == placed.spec_bounds(),
                forall|j: int| 0 <= j < i ==> !(#[trigger] self.factories@[j]).spec_bounds().intersects_spec(b),
            decreases self.factories@.len() - i,
        {
            if self.factories[i].bounds().intersects(&b) {
                return;
            }
            i = i + 1;
        }
        self.factories.push(placed);
        proof {
            assert forall|g: int| 0 <= g < self.factories@.len() implies (#[trigger] self.factories@[g]).wf() by {
                if g < old(self).factories@.len() {
                    assert(self.factories@[g] == old(self).factories@[g]);
                }
            }
        }
    }

    /// Drawing terrain at `pos`: in god mode the current tile is set at once; otherwise a dig site
    /// for it is placed there (unless that would overlap a factory).
    pub fn map_draw(&mut self, pos: Vec2i)
        requires
            old(self).wf(),
        ensures
            final(self).wf(),
            final(self).crablets == old(self).crablets,
            final(self).now == old(self).now,
            final(self).debug == old(self).debug,
            old(self).debug.god_mode ==> final(self).factories == old(self).factories && (old(
                self,
            ).tilemap.tiles.in_bounds(pos) ==> final(self).tilemap.tiles.is_set_from(
                &old(self).tilemap.tiles,
                pos,
                Tile(old(self).editor_current_tile),
            )),
            !old(self).debug.god_mode ==> final(self).tilemap == old(self).tilemap && (final(self).factories
                == old(self).factories || (final(self).factories@.len() == old(self).factories@.len() + 1
                && final(self).factories@.last().position == pos
                && final(self).factories@.last().logic == (crate::factory::FactoryLogic::DigSite {
                tile: Tile(old(self).editor_current_tile),
            }))),
    {
        let tile = Tile(self.editor_current_tile);
        if self.debug.god_mode {
            self.tilemap.try_set(pos, tile);
        } else {
            self.try_build_factory(dig_site_prototype(tile), pos);
        }
    }

    /// Draws terrain on every position of `range` that lies on the map.
    pub fn map_fill(&mut self, range: Bounds2i)
        requires
            old(self).wf(),
        ensures
            final(self).wf(),
            final(self).crablets == old(self).crablets,
            final(self).now == old(self).now,
            final(self).debug == old(self).debug,
    {
        let cells = self.tilemap.iter_range_excl(range);
        let mut k: usize = 0;
        while k < cells.len()
            invariant
                self.wf(),
                self.crablets == old(self).crablets,
                self.now == old(self).now,
                self.debug == old(self).debug,
                k <= cells@.len(),
            decreases cells@.len() - k,
        {
            self.map_draw(cells[k].0);
            k = k + 1;
        }
    }

    /// Places prototype `i` at `pos` (on the map only): as is in god mode, else as a building
    /// site. An unknown prototype places nothing.
    pub fn draw_factory(&mut self, pos: Vec2i, i: u8)
        requires
            old(self).wf(),
        ensures
            final(self).wf(),
            final(self).same_but_factories(old(self)),
            i as usize >= NUM_PROTOTYPES || !old(self).tilemap.tiles.in_bounds(pos) ==> final(self).factories == old(self).factories,
    {
        if !self.tilemap.tiles.contains(pos) || i as usize >= NUM_PROTOTYPES {
            return;
        }
        let prototype = if self.debug.god_mode {
            factory_prototype(i as usize)
        } else {
            building_site_prototype(i as usize)
        };
        self.try_build_factory(prototype, pos);
    }

    /// Dragging with the mouse held: the pencil draws as it goes.
    pub fn handle_mouse_drag(&mut self, pos: Vec2i)
        requires
            old(self).wf(),
        ensures
            final(self).wf(),
            final(self).crablets == old(self).crablets,
            old(self).ed_mode != EdMode::Pencil ==> *final(self) == *old(self),
    {
        match self.ed_mode {
            EdMode::Pencil => self.map_draw(pos),
            _ => {},
        }
    }

    /// Releasing the mouse after a drag from `drag.0` to `drag.1`, by editor tool.
    pub fn handle_mouse_up(&mut self, drag: (Vec2i, Vec2i))
        requires
            old(self).wf(),
        ensures
            final(self).wf(),
            final(self).crablets@.len() == old(self).crablets@.len(),
    {
        let (start, end) = drag;
        match self.ed_mode {
            EdMode::Select => self.select_mode_mouse_up(drag),
            EdMode::Pencil => self.map_draw(end),
            EdMode::Fill => self.map_fill(Self::selection(drag)),
            EdMode::Buildings => {
                let b = self.editor_current_building;
                self.draw_factory(end, b)
            },
        }
    }

    /// The pointer's tile and button edges for this frame: a press starts a drag, holding
    /// extends it, a release ends it.
    pub fn handle_mouse(&mut self, pos: Vec2i, just_pressed: bool, is_down: bool, just_released: bool)
        requires
            old(self).wf(),
        ensures
            final(self).wf(),
            final(self).crablets@.len() == old(self).crablets@.len(),
            just_released ==> final(self).dragging is None,
    {
        if just_pressed {
            self.dragging = Some((pos, pos));
        }
        if is_down {
            if let Some((start, _end)) = self.dragging {
                self.dragging = Some((start, pos));
            }
            self.handle_mouse_drag(pos);
        }
        if just_released {
            let d = self.dragging;
            self.dragging = None;
            if let Some(drag) = d {
                self.handle_mouse_up(drag);
            }
            self.dragging = None;
        }
    }

    /// Removes every selected agent; the others stay, though not in their order.
    pub fn remove_selected(&mut self)
        requires
            old(self).wf(),
        ensures
            final(self).wf(),
            final(self).same_but_crablets(old(self)),
            forall|c: int| 0 <= c < final(self).crablets@.len() ==> !(#[trigger] final(self).crablets@[c]).selected
                && old(self).crablets@.contains(final(self).crablets@[c]),
            forall|c: int| 0 <= c < old(self).crablets@.len() && !(#[trigger] old(self).crablets@[c]).selected
                ==> final(self).crablets@.contains(old(self).crablets@[c]),
    {
        let mut i: usize = 0;
        while i < self.crablets.len()
            invariant
                self.wf(),
                self.same_but_crablets(old(self)),
                i <= self.crablets@.len(),
                forall|c: int| 0 <= c < i ==> !(#[trigger] self.crablets@[c]).selected,
                forall|c: int| 0 <= c < self.crablets@.len() ==> old(self).crablets@.contains(#[trigger] self.crablets@[c]),
                forall|c: int| 0 <= c < old(self).crablets@.len() && !(#[trigger] old(self).crablets@[c]).selected
                    ==> self.crablets@.contains(old(self).crablets@[c]),
            decreases self.crablets@.len() - i,
        {
            if self.crablets[i].selected {
                let ghost before = self.crablets@;
                let _ = self.crablets.swap_remove(i);
                proof {
                    assert forall|c: int| 0 <= c < self.crablets@.len() implies old(self).crablets@.contains(#[trigger] self.crablets@[c]) by {
                        if c == i as int {
                            assert(self.crablets@[c] == before[before.len() - 1]);
                        } else {
                            assert(self.crablets@[c] == before[c]);
                        }
                    }
                    assert forall|c: int| 0 <= c < old(self).crablets@.len() && !(#[trigger] old(self).crablets@[c]).selected
                        implies self.crablets@.contains(old(self).crablets@[c]) by {
                        let k = choose|k: int| 0 <= k < before.len() && before[k] == old(self).crablets@[c];
                        if k == before.len() - 1 {
                            if k != i as int {
                                assert(self.crablets@[i as int] == before[k]);
                            }
                        } else {
                            assert(k != i as int);
                            assert(self.crablets@[k] == before[k]);
                        }
                    }
                }
            } else {
                i = i + 1;
            }
        }
    }

    /// Adds an `n` by `n` square of agents at the origin.
    pub fn spawn_grid(&mut self, n: u32)
        requires
            old(self).wf(),
            n <= i32::MAX,
            old(self).crablets@.len() + n * n <= usize::MAX,
        ensures
            final(self).wf(),
            final(self).same_but_crablets(old(self)),
            final(self).crablets@.len() == old(self).crablets@.len() + n * n,
    {
        let mut a: u32 = 0;
        while a < n
            invariant
                self.wf(),
                self.same_but_crablets(old(self)),
                a <= n,
                n <= i32::MAX,
                old(self).crablets@.len() + n * n <= usize::MAX,
                self.crablets@.len() == old(self).crablets@.len() + a * n,
            decreases n - a,
        {
            let mut b: u32 = 0;
            while b < n
                invariant
                    self.wf(),
                    self.same_but_crablets(old(self)),
                    a < n,
                    b <= n,
                    n <= i32::MAX,
                    old(self).crablets@.len() + n * n <= usize::MAX,
                    self.crablets@.len() == old(self).crablets@.len() + a * n + b,
                decreases n - b,
            {
                proof {
                    assert(a * n + b < n * n) by (nonlinear_arith)
                        requires
                            a < n,
                            b < n,
                    ;
                }
                self.crablets.push(Crablet::new(Vec2i { x: a as i32, y: b as i32 }));
                b = b + 1;
            }
            proof {
                assert(a * n + n == (a + 1) * n) by (nonlinear_arith);
            }
            a = a + 1;
        }
    }

    /// Removes the second half of the agents.
    pub fn decimate_crabs(&mut self)
        requires
            old(self).wf(),
        ensures
            final(self).wf(),
            final(self).same_but_crablets(old(self)),
            final(self).crablets@ == old(self).crablets@.take((old(self).crablets@.len() / 2) as int),
    {
        let n = self.crablets.len();
        self.crablets.truncate(n / 2);
    }

    /// Empties every buffer of every factory and forgets all promises.
    pub fn drain_factories(&mut self)
        requires
            old(self).wf(),
        ensures
            final(self).wf(),
            final(self).same_but_factories(old(self)),
            final(self).factories@.len() == old(self).factories@.len(),
            forall|f: int| 0 <= f < old(self).factories@.len() ==> {
                let (n, o) = (#[trigger] final(self).factories@[f], old(self).factories@[f]);
                &&& n.same_frame(&o)
                &&& n.inputs@.len() == o.inputs@.len()
                &&& n.outputs@.len() == o.outputs@.len()
                &&& forall|i: int| 0 <= i < o.inputs@.len() ==> (#[trigger] n.inputs@[i]).num_items == 0 && n.inputs@[i].reserved_slots == 0
                &&& forall|i: int| 0 <= i < o.outputs@.len() ==> (#[trigger] n.outputs@[i]).num_items == 0 && n.outputs@[i].reserved_items == 0
            },
    {
        let mut f: usize = 0;
        while f < self.factories.len()
            invariant
                self.wf(),
                self.same_but_factories(old(self)),
                self.factories@.len() == old(self).factories@.len(),
                f <= self.factories@.len(),
                forall|g: int| f <= g < self.factories@.len() ==> #[trigger] self.factories@[g] == old(self).factories@[g],
                forall|g: int| 0 <= g < f ==> {
                    let (n, o) = (#[trigger] self.factories@[g], old(self).factories@[g]);
                    &&& n.same_frame(&o)
                    &&& n.inputs@.len() == o.inputs@.len()
                    &&& n.outputs@.len() == o.outputs@.len()
                    &&& forall|i: int| 0 <= i < o.inputs@.len() ==> (#[trigger] n.inputs@[i]).num_items == 0 && n.inputs@[i].reserved_slots == 0
                    &&& forall|i: int| 0 <= i < o.outputs@.len() ==> (#[trigger] n.outputs@[i]).num_items == 0 && n.outputs@[i].reserved_items == 0
                },
            decreases self.factories@.len() - f,
        {
            proof {
                assert(self.factories@[f as int].wf());
            }
            self.factories[f].drain_all();
            proof {
                assert forall|g: int| 0 <= g < self.factories@.len() implies (#[trigger] self.factories@[g]).wf() by {
                    if g != f as int {
                        assert(self.factories@[g] == old(self).factories@[g] || g < f);
                    }
                }
            }
            f = f + 1;
        }
    }

    /// Every agent now carries a rock.
    pub fn give_rocks(&mut self)
        requires
            old(self).wf(),
        ensures
            final(self).wf(),
            final(self).same_but_crablets(old(self)),
            final(self).crablets@.len() == old(self).crablets@.len(),
            forall|c: int| 0 <= c < old(self).crablets@.len() ==> #[trigger] final(self).crablets@[c] == (Crablet {
                cargo: Some(Resource { index: 2 }),
                ..old(self).crablets@[c]
            }),
    {
        let mut i: usize = 0;
        while i < self.crablets.len()
            invariant
                self.wf(),
                self.same_but_crablets(old(self)),
                self.crablets@.len() == old(self).crablets@.len(),
                i <= self.crablets@.len(),
                forall|c: int| 0 <= c < i ==> #[trigger] self.crablets@[c] == (Crablet {
                    cargo: Some(Resource { index: 2 }),
                    ..old(self).crablets@[c]
                }),
                forall|c: int| i <= c < self.crablets@.len() ==> #[trigger] self.crablets@[c] == old(self).crablets@[c],
            decreases self.crablets@.len() - i,
        {
            let mut c = self.crablets[i];
            c.cargo = Some(Resource::rock());
            self.crablets.set(i, c);
            i = i + 1;
        }
    }

    /// Scatters rocks: each cell gets one with a chance of one in a hundred (replacing what lay
    /// there).
    pub fn spawn_rocks(&mut self)
        requires
            old(self).wf(),
        ensures
            final(self).wf(),
            final(self).same_but_ground(old(self)),
            final(self).resource_reservations == old(self).resource_reservations,
            final(self).resources.size == old(self).resources.size,
            forall|k: int| 0 <= k < final(self).resources.values@.len() ==> #[trigger] final(self).resources.values@[k]
                == old(self).resources.values@[k] || final(self).resources.values@[k] == Some(Resource { index: 2 }),
    {
        let n = self.resources.values.len();
        let mut k: usize = 0;
        while k < n
            invariant
                self.wf(),
                self.same_but_ground(old(self)),
                self.resource_reservations == old(self).resource_reservations,
                self.resources.size == old(self).resources.size,
                n == self.resources.values@.len(),
                k <= n,
                forall|j: int| 0 <= j < n ==> #[trigger] self.resources.values@[j]
                    == old(self).resources.values@[j] || self.resources.values@[j] == Some(Resource { index: 2 }),
            decreases n - k,
        {
            if gen_range_inclusive(&mut self.rng, 0, 99) == 0 {
                self.resources.values.set(k, Some(Resource::rock()));
            }
            k = k + 1;
        }
    }
}

} // verus!
