use crablets::crablet::Crablet;
use crablets::factory::{factory_prototype, Factory};
use crablets::geom::{Vec2i, Vec2u};
use crablets::resource::Resource;
use crablets::state::GameState;
use crablets::task::Task;
use crablets::taskman::{assign_harvest, tick_empty_hands, tick_give_work_factories, tick_give_work_harvest};

fn world(w: u32, h: u32) -> GameState {
    GameState::with_size(Vec2u::new(w, h))
}

fn placed(i: usize, x: i32, y: i32) -> Factory {
    let mut f = factory_prototype(i);
    f.position = Vec2i::new(x, y);
    f
}

#[test]
fn idle_agent_is_sent_to_fetch_for_a_factory() {
    let mut gs = world(30, 30);
    let mut source = placed(0, 2, 2);
    source.outputs[0].num_items = 5;
    let destination = placed(3, 10, 10);
    gs.factories.push(source);
    gs.factories.push(destination);
    gs.crablets.push(Crablet::new(Vec2i::new(2, 2)));
    tick_give_work_factories(&mut gs);
    assert_eq!(
        gs.crablets[0].task,
        Task::FactoryPickUp { resource: Resource::rock(), from: Vec2i::new(2, 2), to: Vec2i::new(10, 10) }
    );
    assert_eq!(gs.factories[0].outputs[0].reserved_items, 1);
    assert_eq!(gs.factories[1].inputs[0].reserved_slots, 1);
    assert_eq!(gs.factories[1].inputs[1].reserved_slots, 0);
}

#[test]
fn no_agents_leaves_every_reservation_alone() {
    let mut gs = world(30, 30);
    let mut source = placed(0, 2, 2);
    source.outputs[0].num_items = 5;
    gs.factories.push(source);
    gs.factories.push(placed(3, 10, 10));
    gs.factories.push(placed(4, 20, 20));
    tick_give_work_factories(&mut gs);
    for f in &gs.factories {
        for i in &f.inputs {
            assert_eq!(i.reserved_slots, 0);
        }
        for o in &f.outputs {
            assert_eq!(o.reserved_items, 0);
        }
    }
}

#[test]
fn higher_priority_destination_is_served_first() {
    let mut gs = world(40, 40);
    let mut source = placed(0, 2, 2);
    source.outputs[0].num_items = 5;
    let mut low = placed(0, 30, 30);
    low.priority = 1;
    low.outputs.clear();
    gs.factories.push(source);
    gs.factories.push(low);
    gs.factories.push(placed(3, 10, 10));
    gs.crablets.push(Crablet::new(Vec2i::new(0, 0)));
    tick_give_work_factories(&mut gs);
    assert_eq!(
        gs.crablets[0].task,
        Task::FactoryPickUp { resource: Resource::rock(), from: Vec2i::new(2, 2), to: Vec2i::new(10, 10) }
    );
}

#[test]
fn no_transfer_between_two_piles() {
    let mut gs = world(30, 30);
    let mut source = placed(0, 2, 2);
    source.outputs[0].num_items = 5;
    gs.factories.push(source);
    gs.factories.push(placed(0, 10, 10));
    gs.crablets.push(Crablet::new(Vec2i::new(0, 0)));
    tick_give_work_factories(&mut gs);
    assert_eq!(gs.crablets[0].task, Task::Idle);
}

#[test]
fn busy_agents_get_no_new_work() {
    let mut gs = world(30, 30);
    let mut source = placed(0, 2, 2);
    source.outputs[0].num_items = 5;
    gs.factories.push(source);
    gs.factories.push(placed(3, 10, 10));
    let mut carrying = Crablet::new(Vec2i::new(0, 0));
    carrying.cargo = Some(Resource::brick());
    gs.crablets.push(carrying);
    let mut walking = Crablet::new(Vec2i::new(1, 0));
    walking.set_destination(Vec2i::new(5, 5));
    gs.crablets.push(walking);
    tick_give_work_factories(&mut gs);
    assert_eq!(gs.crablets[0].task, Task::Idle);
    assert_eq!(gs.crablets[1].task, Task::Idle);
}

#[test]
fn agent_with_stray_cargo_is_sent_to_deliver() {
    let mut gs = world(30, 30);
    gs.factories.push(placed(3, 10, 10));
    gs.factories.push(placed(0, 20, 20));
    let mut crab = Crablet::new(Vec2i::new(18, 18));
    crab.cargo = Some(Resource::rock());
    gs.crablets.push(crab);
    tick_empty_hands(&mut gs);
    assert_eq!(gs.crablets[0].task, Task::FactoryDeliver { to: Vec2i::new(20, 20) });
    assert_eq!(gs.factories[1].inputs[0].reserved_slots, 1);
    assert_eq!(gs.factories[0].inputs[0].reserved_slots, 0);
}

#[test]
fn stray_cargo_without_a_taker_stays() {
    let mut gs = world(30, 30);
    gs.factories.push(placed(4, 10, 10));
    let mut crab = Crablet::new(Vec2i::new(1, 1));
    crab.cargo = Some(Resource::brick());
    gs.crablets.push(crab);
    tick_empty_hands(&mut gs);
    assert_eq!(gs.crablets[0].task, Task::Idle);
    assert_eq!(gs.crablets[0].cargo, Some(Resource::brick()));
}

#[test]
fn harvest_claims_the_nearest_resource() {
    let mut gs = world(30, 30);
    gs.search_radius = 10;
    gs.factories.push(placed(0, 8, 8));
    gs.resources.try_set(Vec2i::new(6, 5), Some(Resource::rock()));
    gs.resources.try_set(Vec2i::new(4, 5), Some(Resource::rock()));
    gs.resources.try_set(Vec2i::new(9, 9), Some(Resource::rock()));
    gs.crablets.push(Crablet::new(Vec2i::new(5, 5)));
    gs.crablets.push(Crablet::new(Vec2i::new(5, 5)));
    tick_give_work_harvest(&mut gs);
    assert_eq!(
        gs.crablets[0].task,
        Task::Harvest { resource: Resource::rock(), from: Vec2i::new(4, 5), to: Vec2i::new(8, 8) }
    );
    assert_eq!(
        gs.crablets[1].task,
        Task::Harvest { resource: Resource::rock(), from: Vec2i::new(6, 5), to: Vec2i::new(8, 8) }
    );
    assert_eq!(gs.resource_reservations.at_or_default(Vec2i::new(4, 5)), 128);
    assert_eq!(gs.resource_reservations.at_or_default(Vec2i::new(6, 5)), 128);
    assert_eq!(gs.factories[0].inputs[0].reserved_slots, 2);
}

#[test]
fn harvest_needs_a_factory_in_range() {
    let mut gs = world(60, 60);
    gs.search_radius = 5;
    gs.factories.push(placed(0, 40, 40));
    gs.resources.try_set(Vec2i::new(6, 5), Some(Resource::rock()));
    gs.crablets.push(Crablet::new(Vec2i::new(5, 5)));
    assert!(!assign_harvest(&mut gs, 0));
    assert_eq!(gs.crablets[0].task, Task::Idle);
    assert_eq!(gs.resource_reservations.at_or_default(Vec2i::new(6, 5)), 0);
    assert_eq!(gs.stats.frame[5], 1);
}

#[test]
fn claimed_resource_is_not_offered_again() {
    let mut gs = world(30, 30);
    gs.search_radius = 10;
    gs.factories.push(placed(0, 8, 8));
    gs.resources.try_set(Vec2i::new(6, 5), Some(Resource::rock()));
    gs.crablets.push(Crablet::new(Vec2i::new(5, 5)));
    gs.crablets.push(Crablet::new(Vec2i::new(5, 5)));
    tick_give_work_harvest(&mut gs);
    assert!(matches!(gs.crablets[0].task, Task::Harvest { .. }));
    assert_eq!(gs.crablets[1].task, Task::Idle);
}
