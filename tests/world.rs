use crablets::crablet::Crablet;
use crablets::factory::{building_site_prototype, dig_site_prototype, factory_prototype, Factory};
use crablets::geom::{Bounds2i, Vec2i, Vec2u};
use crablets::grid::{can_walk_tile, Tile, Tilemap, Vec2D};
use crablets::navigation::{NavState, NavStatus};
use crablets::resource::Resource;
use crablets::state::{Command, EdMode, GameState};
use crablets::stats::{Event, Stats};
use crablets::task::Task;
use crablets::timer::Timer;

fn world(w: u32, h: u32) -> GameState {
    GameState::with_size(Vec2u::new(w, h))
}

fn placed(i: usize, x: i32, y: i32) -> Factory {
    let mut f = factory_prototype(i);
    f.position = Vec2i::new(x, y);
    f
}

#[test]
fn grid_reads_and_writes_in_bounds_only() {
    let mut g: Vec2D<u8> = Vec2D::new(Vec2u::new(3, 2), 7);
    assert_eq!(g.try_at(Vec2i::new(2, 1)), Some(7));
    assert_eq!(g.try_at(Vec2i::new(3, 0)), None);
    assert_eq!(g.try_at(Vec2i::new(-1, 0)), None);
    g.try_set(Vec2i::new(1, 1), 9);
    g.try_set(Vec2i::new(5, 5), 9);
    assert_eq!(g.values, vec![7, 7, 7, 7, 9, 7]);
    assert_eq!(g.at(Vec2u::new(1, 1)), 9);
    assert_eq!(g.at_or_default(Vec2i::new(9, 9)), 0);
    *g.at_mut(Vec2u::new(0, 0)) = 1;
    assert_eq!(g.values[0], 1);
    g.clear();
    assert!(g.values.iter().all(|v| *v == 0));
}

#[test]
fn grid_lists_positions_row_by_row() {
    let g: Vec2D<u8> = Vec2D::new(Vec2u::new(2, 2), 0);
    assert_eq!(g.iter_positions(), vec![Vec2u::new(0, 0), Vec2u::new(1, 0), Vec2u::new(0, 1), Vec2u::new(1, 1)]);
    let range = g.iter_range_excl(Bounds2i { min: Vec2i::new(1, -3), max: Vec2i::new(9, 9) });
    assert_eq!(range, vec![(Vec2i::new(1, 0), 0), (Vec2i::new(1, 1), 0)]);
    let mut o: Vec2D<Option<Resource>> = Vec2D::new(Vec2u::new(2, 2), None);
    o.try_set(Vec2i::new(1, 0), Some(Resource::coal()));
    assert_eq!(o.take_at(Vec2i::new(1, 0)), Some(Resource::coal()));
    assert_eq!(o.take_at(Vec2i::new(1, 0)), None);
}

#[test]
fn terrain_walkability() {
    assert!(!can_walk_tile(Tile::water()));
    assert!(!can_walk_tile(Tile::stone()));
    assert!(can_walk_tile(Tile::farm_land()));
    assert!(can_walk_tile(Tile(7)));
    let tm = Tilemap::new(Vec2u::new(2, 2), Tile::stone());
    assert_eq!(tm.sprites.len(), 256);
    assert_eq!(tm.sprites[3].0, 11);
    assert!(!tm.can_walk(Vec2i::new(0, 0)));
}

#[test]
fn harvesting_agent_picks_up_and_heads_for_delivery() {
    let mut gs = world(10, 10);
    let here = Vec2i::new(3, 3);
    gs.resources.try_set(here, Some(Resource::rock()));
    gs.reserve_resource(here);
    let mut crab = Crablet::new(here);
    crab.tick_harvest(&mut gs, Resource::rock(), here, Vec2i::new(8, 8));
    assert_eq!(crab.cargo, Some(Resource::rock()));
    assert_eq!(crab.task, Task::FactoryDeliver { to: Vec2i::new(8, 8) });
    assert_eq!(gs.resources.try_at(here), Some(None));
    assert_eq!(gs.resource_reservations.at_or_default(here), 0);
    assert!(matches!(crab.navigation, NavState::Travelling(_)));
}

#[test]
fn harvesting_agent_gives_up_on_a_vanished_resource() {
    let mut gs = world(10, 10);
    let here = Vec2i::new(3, 3);
    let mut crab = Crablet::new(here);
    crab.task = Task::Harvest { resource: Resource::rock(), from: here, to: Vec2i::new(8, 8) };
    crab.tick_harvest(&mut gs, Resource::rock(), here, Vec2i::new(8, 8));
    assert_eq!(crab.task, Task::Idle);
    assert_eq!(crab.cargo, None);
}

#[test]
fn agent_away_from_its_target_walks_there() {
    let mut gs = world(10, 10);
    let mut crab = Crablet::new(Vec2i::new(0, 0));
    crab.tick_factory_pick_up(&mut gs, Resource::rock(), Vec2i::new(5, 5), Vec2i::new(8, 8));
    assert_eq!(crab.navigation, NavState::Travelling(crablets::navigation::Navigation::new(Vec2i::new(5, 5))));
}

#[test]
fn pick_up_and_deliver_move_one_item() {
    let mut gs = world(20, 20);
    let mut source = placed(0, 2, 2);
    source.outputs[0].num_items = 1;
    source.outputs[0].reserve_item().unwrap();
    gs.factories.push(source);
    let mut oven = placed(3, 10, 10);
    oven.inputs[0].reserve_slot().unwrap();
    gs.factories.push(oven);
    let mut crab = Crablet::new(Vec2i::new(3, 3));
    crab.task = Task::FactoryPickUp { resource: Resource::rock(), from: Vec2i::new(3, 3), to: Vec2i::new(11, 11) };
    crab.tick_factory_pick_up(&mut gs, Resource::rock(), Vec2i::new(3, 3), Vec2i::new(11, 11));
    assert_eq!(crab.cargo, Some(Resource::rock()));
    assert_eq!(crab.task, Task::FactoryDeliver { to: Vec2i::new(11, 11) });
    assert_eq!((gs.factories[0].outputs[0].num_items, gs.factories[0].outputs[0].reserved_items), (0, 0));
    crab.position = Vec2i::new(11, 11);
    crab.tick_factory_deliver(&mut gs, Vec2i::new(11, 11));
    assert_eq!(crab.cargo, None);
    assert_eq!(crab.task, Task::Idle);
    assert_eq!((gs.factories[1].inputs[0].num_items, gs.factories[1].inputs[0].reserved_slots), (1, 0));
}

#[test]
fn failed_pick_up_clears_the_task() {
    let mut gs = world(20, 20);
    gs.factories.push(placed(0, 2, 2));
    let mut crab = Crablet::new(Vec2i::new(2, 2));
    crab.task = Task::FactoryPickUp { resource: Resource::rock(), from: Vec2i::new(2, 2), to: Vec2i::new(9, 9) };
    crab.tick_factory_pick_up(&mut gs, Resource::rock(), Vec2i::new(2, 2), Vec2i::new(9, 9));
    assert_eq!(crab.task, Task::Idle);
    assert_eq!(crab.cargo, None);
}

#[test]
fn failed_delivery_keeps_the_cargo() {
    let mut gs = world(20, 20);
    gs.factories.push(placed(4, 2, 2));
    let mut crab = Crablet::new(Vec2i::new(2, 2));
    crab.cargo = Some(Resource::rock());
    crab.task = Task::FactoryDeliver { to: Vec2i::new(2, 2) };
    crab.tick_factory_deliver(&mut gs, Vec2i::new(2, 2));
    assert_eq!(crab.task, Task::Idle);
    assert_eq!(crab.cargo, Some(Resource::rock()));
}

#[test]
fn unreachable_destination_is_claimed() {
    let mut gs = world(10, 10);
    let mut crab = Crablet::new(Vec2i::new(0, 0));
    crab.task = Task::FactoryDeliver { to: Vec2i::new(4, 4) };
    crab.on_destination_unreachable(&mut gs, Vec2i::new(4, 4));
    assert_eq!(crab.task, Task::Idle);
    assert_eq!(crab.navigation, NavState::DestinationReached);
    assert_eq!(gs.resource_reservations.at_or_default(Vec2i::new(4, 4)), 128);
}

#[test]
fn agent_tick_walks_then_works() {
    let mut gs = world(10, 10);
    gs.resources.try_set(Vec2i::new(2, 0), Some(Resource::rock()));
    let mut crab = Crablet::new(Vec2i::new(0, 0));
    crab.task = Task::Harvest { resource: Resource::rock(), from: Vec2i::new(2, 0), to: Vec2i::new(5, 5) };
    crab.set_destination(Vec2i::new(2, 0));
    crab.tick(&mut gs);
    assert_eq!(crab.position, Vec2i::new(1, 0));
    assert_eq!(crab.prev_pos, Vec2i::new(0, 0));
    crab.tick(&mut gs);
    assert_eq!(crab.position, Vec2i::new(2, 0));
    assert_eq!(crab.cargo, Some(Resource::rock()));
    assert_eq!(crab.task, Task::FactoryDeliver { to: Vec2i::new(5, 5) });
}

#[test]
fn animation_gates_progress() {
    let mut gs = world(10, 10);
    gs.debug.enable_animation = true;
    gs.now = 10;
    let mut crab = Crablet::new(Vec2i::new(0, 0));
    assert!(crab.tick_animation(&mut gs));
    assert!(crab.anim_timer.alarm == 34 || crab.anim_timer.alarm == 35);
    assert!(!crab.tick_animation(&mut gs));
    let t = crab.base_anim_time(&mut gs);
    assert!(t == 24 || t == 25);
}

#[test]
fn relaxing_only_happens_in_a_crowd() {
    let mut gs = world(10, 10);
    let mut crab = Crablet::new(Vec2i::new(5, 5));
    crab.tick_relax(&mut gs);
    assert_eq!(crab.position, Vec2i::new(5, 5));
    gs.debug.enable_congestion = true;
    gs.congestion.try_set(Vec2i::new(5, 5), 9);
    for _ in 0..50 {
        crab.tick_relax(&mut gs);
    }
    let d = (crab.position.x - 5).abs().max((crab.position.y - 5).abs());
    assert!(d <= 1);
}

#[test]
fn relax_choice_prefers_least_congestion_plus_noise() {
    let mut gs = world(10, 10);
    gs.congestion.try_set(Vec2i::new(1, 0), 3);
    gs.congestion.try_set(Vec2i::new(2, 0), 1);
    gs.congestion.try_set(Vec2i::new(3, 0), 5);
    let cands = vec![Vec2i::new(1, 0), Vec2i::new(2, 0), Vec2i::new(3, 0)];
    let r = crablets::crablet::relax_choice(&gs, &cands, 4, &vec![0, 2, 0]);
    assert_eq!(r, Some(Vec2i::new(1, 0)));
    let r = crablets::crablet::relax_choice(&gs, &cands, 4, &vec![1, 0, 0]);
    assert_eq!(r, Some(Vec2i::new(2, 0)));
    assert_eq!(crablets::crablet::relax_choice(&gs, &cands, 0, &vec![0, 0, 0]), None);
}

#[test]
fn building_site_becomes_its_prototype() {
    let mut site = building_site_prototype(3);
    site.position = Vec2i::new(4, 4);
    site.tick_building_site(3);
    assert_eq!(site.inputs.len(), 1);
    site.inputs[0].num_items = 24;
    site.tick_building_site(3);
    assert_eq!(site.position, Vec2i::new(4, 4));
    assert_eq!(site.inputs.len(), 2);
    assert_eq!(site.outputs[0].resource(), Resource::brick());
    assert_eq!(site.priority, 30);
}

#[test]
fn dig_site_changes_terrain_and_goes_away() {
    let mut gs = world(10, 10);
    let mut dig = dig_site_prototype(Tile::water());
    dig.position = Vec2i::new(3, 3);
    dig.inputs[0].num_items = 6;
    gs.factories.push(dig);
    gs.tick_factories();
    assert_eq!(gs.tilemap.try_at(Vec2i::new(3, 3)), Some(Tile::water()));
    assert_eq!(gs.commands, vec![Command::RemoveFactory { position: Vec2i::new(3, 3) }]);
    gs.exec_command_queue();
    assert!(gs.factories.is_empty());
    assert!(gs.commands.is_empty());
}

#[test]
fn reservations_decay_on_major_ticks() {
    let mut gs = world(4, 4);
    gs.reserve_resource(Vec2i::new(1, 1));
    gs.now = 16;
    gs.tick_resource_reservation();
    assert_eq!(gs.resource_reservations.at_or_default(Vec2i::new(1, 1)), 127);
    gs.now = 17;
    gs.tick_resource_reservation();
    assert_eq!(gs.resource_reservations.at_or_default(Vec2i::new(1, 1)), 127);
    assert!(!gs.reserve_resource(Vec2i::new(1, 1)));
    assert!(!gs.reserve_resource(Vec2i::new(9, 9)));
}

#[test]
fn factory_reservations_expire() {
    let mut gs = world(20, 20);
    let mut f = placed(3, 2, 2);
    f.inputs[0].reserve_slot().unwrap();
    f.outputs[0].num_items = 2;
    f.outputs[0].reserve_item().unwrap();
    gs.factories.push(f);
    gs.now = 512;
    gs.tick_expire_reservations();
    assert_eq!(gs.factories[0].inputs[0].reserved_slots, 0);
    assert_eq!(gs.factories[0].outputs[0].reserved_items, 0);
}

#[test]
fn congestion_counts_agents_and_their_previous_cells() {
    let mut gs = world(5, 5);
    gs.debug.enable_congestion = true;
    let mut a = Crablet::new(Vec2i::new(1, 1));
    a.prev_pos = Vec2i::new(1, 2);
    gs.crablets.push(a);
    gs.crablets.push(Crablet::new(Vec2i::new(1, 1)));
    gs.tick_congestion();
    assert_eq!(gs.congestion.at_or_default(Vec2i::new(1, 1)), 2);
    assert_eq!(gs.congestion.at_or_default(Vec2i::new(1, 2)), 1);
    assert_eq!(gs.congestion.at_or_default(Vec2i::new(0, 0)), 0);
}

#[test]
fn world_tick_advances_the_clock() {
    let mut gs = GameState::new();
    assert_eq!(gs.crablets.len(), 1);
    gs.tick();
    assert_eq!(gs.now, 1);
    gs.debug.pause_all_systems = true;
    gs.tick();
    assert_eq!(gs.now, 1);
}

#[test]
fn stats_roll_frames_into_totals() {
    let mut s = Stats::new();
    s.inc(Event::GiveWorkOk);
    s.inc(Event::GiveWorkOk);
    s.next_frame();
    s.inc(Event::GiveWorkOk);
    let rows = s.iter();
    assert_eq!(rows.len(), 10);
    assert_eq!((rows[4].1, rows[4].2), (1, 2));
    assert_eq!(Event::all()[9], Event::DropOffErr);
}

#[test]
fn timer_rings_at_its_alarm() {
    let mut t = Timer::new(0);
    t.set_alarm(5, 3);
    assert!(!t.finished(7));
    assert!(t.finished(8));
    assert!(t.just_finished(8));
    assert!(!t.just_finished(9));
    t.set_alarm(u64::MAX, 3);
    assert_eq!(t.alarm, u64::MAX);
}

#[test]
fn selection_and_sending() {
    let mut gs = world(20, 20);
    gs.crablets.push(Crablet::new(Vec2i::new(2, 2)));
    gs.crablets.push(Crablet::new(Vec2i::new(9, 9)));
    gs.select_mode_mouse_up((Vec2i::new(3, 3), Vec2i::new(1, 1)));
    assert!(gs.crablets[0].selected);
    assert!(!gs.crablets[1].selected);
    gs.select_mode_mouse_up((Vec2i::new(7, 7), Vec2i::new(7, 7)));
    assert!(!gs.crablets[0].selected);
    assert_eq!(gs.crablets[0].home_area, Vec2i::new(7, 7));
    assert_eq!(gs.crablets[0].navigation.status(), NavStatus::Travelling);
    gs.crablets[1].selected = true;
    gs.remove_selected();
    assert_eq!(gs.crablets.len(), 1);
    assert_eq!(gs.crablets[0].position, Vec2i::new(2, 2));
}

#[test]
fn buildings_do_not_overlap() {
    let mut gs = world(20, 20);
    gs.ed_mode = EdMode::Buildings;
    gs.editor_current_building = 3;
    gs.handle_mouse(Vec2i::new(5, 5), true, true, false);
    gs.handle_mouse(Vec2i::new(5, 5), false, false, true);
    assert_eq!(gs.factories.len(), 1);
    assert_eq!(gs.factories[0].inputs[0].resource(), Resource::brick());
    gs.draw_factory(Vec2i::new(6, 6), 0);
    assert_eq!(gs.factories.len(), 1);
    gs.draw_factory(Vec2i::new(8, 8), 0);
    assert_eq!(gs.factories.len(), 2);
    gs.draw_factory(Vec2i::new(15, 15), 9);
    assert_eq!(gs.factories.len(), 2);
}

#[test]
fn god_mode_pencil_paints_terrain() {
    let mut gs = world(10, 10);
    gs.debug.god_mode = true;
    gs.editor_current_tile = 2;
    gs.ed_mode = EdMode::Fill;
    gs.handle_mouse(Vec2i::new(1, 1), true, true, false);
    gs.handle_mouse(Vec2i::new(2, 2), false, true, false);
    gs.handle_mouse(Vec2i::new(2, 2), false, false, true);
    assert_eq!(gs.tilemap.try_at(Vec2i::new(1, 2)), Some(Tile::stone()));
    assert_eq!(gs.tilemap.try_at(Vec2i::new(3, 3)), Some(Tile::farm_land()));
    assert!(gs.dragging.is_none());
}

#[test]
fn commands_on_the_colony() {
    let mut gs = world(10, 10);
    gs.spawn_grid(3);
    assert_eq!(gs.crablets.len(), 9);
    assert_eq!(gs.crablets[1].position, Vec2i::new(0, 1));
    gs.give_rocks();
    assert!(gs.crablets.iter().all(|c| c.cargo == Some(Resource::rock())));
    gs.decimate_crabs();
    assert_eq!(gs.crablets.len(), 4);
    let mut f = placed(0, 1, 1);
    f.outputs[0].num_items = 4;
    gs.factories.push(f);
    gs.drain_factories();
    assert_eq!(gs.factories[0].outputs[0].num_items, 0);
}

#[test]
fn crops_grow_next_to_water() {
    let mut gs = world(5, 5);
    gs.tilemap.try_set(Vec2i::new(2, 2), Tile::water());
    gs.instantly_grow_crops();
    assert_eq!(gs.resources.try_at(Vec2i::new(1, 1)), Some(Some(Resource::seaweed())));
    assert_eq!(gs.resources.try_at(Vec2i::new(3, 2)), Some(Some(Resource::seaweed())));
    assert_eq!(gs.resources.try_at(Vec2i::new(2, 2)), Some(None));
    assert_eq!(gs.resources.try_at(Vec2i::new(0, 0)), Some(None));
}

#[test]
fn resource_names_and_sprites() {
    assert_eq!(Resource::rock().name(), "ROCK");
    assert_eq!(Resource::new(9).name(), "Resource");
    assert_eq!(Resource::brick().sprite().0, 20);
}

#[test]
fn nominal_wraps_and_unwraps() {
    struct Meters;
    let mut n: crablets::nominal::Nominal<u32, Meters> = crablets::nominal::Nominal::new(5);
    assert_eq!(*n.as_ref(), 5);
    *n.as_mut() = 8;
    assert_eq!(*n.as_ref(), 8);
}

#[test]
fn picking_up_eases_the_claim() {
    let mut gs = world(5, 5);
    let here = Vec2i::new(2, 2);
    gs.resources.try_set(here, Some(Resource::rock()));
    gs.reserve_resource(here);
    assert_eq!(gs.try_pick_up_any(here), Some(Resource::rock()));
    assert_eq!(gs.resource_reservations.at_or_default(here), 127);
    assert_eq!(gs.try_pick_up_any(here), None);
    assert_eq!(gs.try_pick_up_any(Vec2i::new(9, 9)), None);
}
