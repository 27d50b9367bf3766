use crablets::buffer::{Input, Output};
use crablets::factory::{dig_site_prototype, factory_prototype, Factory};
use crablets::grid::Tile;
use crablets::resource::{Error, Resource};

#[test]
fn reserve_slot_fails_once_capacity_is_promised() {
    let mut input = Input::new(Resource::rock(), 3);
    for _ in 0..3 {
        assert_eq!(input.reserve_slot(), Ok(()));
    }
    assert!(input.is_virtually_full());
    assert_eq!(input.reserve_slot(), Err(Error::Full));
    assert_eq!(input.reserved_slots, 3);
}

#[test]
fn reserve_slot_counts_items_already_held() {
    let mut input = Input::new(Resource::rock(), 4);
    input.num_items = 3;
    assert_eq!(input.reserve_slot(), Ok(()));
    assert_eq!(input.reserve_slot(), Err(Error::Full));
    assert!(!input.is_physically_full());
}

#[test]
fn reserve_item_fails_once_every_item_is_promised() {
    let mut output = Output::new(Resource::brick(), 5);
    assert_eq!(output.reserve_item(), Err(Error::Empty));
    output.num_items = 2;
    assert_eq!(output.reserve_item(), Ok(()));
    assert_eq!(output.reserve_item(), Ok(()));
    assert!(output.is_vitrually_empty());
    assert_eq!(output.reserve_item(), Err(Error::Empty));
    assert_eq!(output.reserved_items, 2);
}

#[test]
fn full_output_exhausts_after_capacity_reservations() {
    let mut output = Output::new(Resource::rock(), 20);
    output.num_items = 20;
    for _ in 0..20 {
        assert_eq!(output.reserve_item(), Ok(()));
    }
    assert_eq!(output.reserve_item(), Err(Error::Empty));
}

#[test]
fn unreserve_saturates_at_zero() {
    let mut input = Input::new(Resource::rock(), 2);
    input.reserve_slot().unwrap();
    for _ in 0..10 {
        input.unreserve_slot();
    }
    assert_eq!(input.reserved_slots, 0);
    let mut output = Output::new(Resource::rock(), 2);
    output.num_items = 1;
    output.reserve_item().unwrap();
    for _ in 0..10 {
        output.unreserve_item();
    }
    assert_eq!(output.reserved_items, 0);
    assert_eq!(output.num_items, 1);
}

#[test]
fn add_to_consumes_a_promise() {
    let mut input = Input::new(Resource::rock(), 2);
    input.reserve_slot().unwrap();
    assert_eq!(input.add_to(), Ok(()));
    assert_eq!((input.num_items, input.reserved_slots), (1, 0));
    assert_eq!(input.add_to(), Ok(()));
    assert_eq!(input.add_to(), Err(Error::Full));
    assert_eq!((input.num_items, input.reserved_slots), (2, 0));
}

#[test]
fn take_item_consumes_a_promise() {
    let mut output = Output::new(Resource::rock(), 3);
    assert_eq!(output.take_item(), Err(Error::Empty));
    output.produce_items(2).unwrap();
    output.reserve_item().unwrap();
    assert_eq!(output.take_item(), Ok(()));
    assert_eq!((output.num_items, output.reserved_items), (1, 0));
}

#[test]
fn bulk_transfers_are_all_or_nothing() {
    let mut input = Input::new(Resource::rock(), 5);
    input.num_items = 2;
    assert_eq!(input.consume_items(3), Err(Error::Empty));
    assert_eq!(input.num_items, 2);
    assert_eq!(input.consume_items(2), Ok(()));
    assert!(input.is_empty());
    let mut output = Output::new(Resource::rock(), 5);
    output.num_items = 4;
    assert_eq!(output.produce_items(2), Err(Error::Full));
    assert_eq!(output.num_items, 4);
    assert_eq!(output.produce_items(1), Ok(()));
    assert!(output.is_full());
}

#[test]
fn drain_resets_items_and_promises() {
    let mut input = Input::new(Resource::rock(), 5);
    input.num_items = 2;
    input.reserve_slot().unwrap();
    input.drain();
    assert_eq!((input.num_items, input.reserved_slots), (0, 0));
    let mut output = Output::new(Resource::rock(), 5);
    output.num_items = 2;
    output.reserve_item().unwrap();
    output.drain();
    assert_eq!((output.num_items, output.reserved_items), (0, 0));
    assert!(output.is_physically_empty());
}

#[test]
fn factory_reports_mismatch_for_unknown_resource() {
    let mut f: Factory = factory_prototype(0);
    assert_eq!(f.reserve_input(Resource::brick()), Err(Error::Mismatch));
    assert_eq!(f.add_input(Resource::brick()), Err(Error::Mismatch));
    assert_eq!(f.reserve_output(Resource::brick()), Err(Error::Mismatch));
    assert_eq!(f.take_output(Resource::brick()), Err(Error::Mismatch));
    assert!(!f.can_reserve_input(Resource::brick()));
    assert!(f.can_reserve_input(Resource::rock()));
    assert!(!f.can_reserve_output(Resource::rock()));
}

#[test]
fn prototypes_have_their_buffers() {
    let pile = factory_prototype(0);
    assert!(pile.is_pile());
    assert_eq!(pile.priority, 10);
    let oven = factory_prototype(3);
    assert!(!oven.is_pile());
    assert_eq!(oven.inputs.len(), 2);
    assert_eq!(oven.inputs[1].resource(), Resource::dryweed());
    assert_eq!(oven.outputs[0].resource(), Resource::brick());
    assert_eq!(oven.scale, 3);
    let dig = dig_site_prototype(Tile::water());
    assert_eq!(dig.inputs[0].capacity, 6);
    assert_eq!(dig.priority, 100);
}

#[test]
fn production_converts_one_to_one() {
    let mut oven = factory_prototype(3);
    oven.tick_produce();
    assert_eq!(oven.outputs[0].num_items, 0);
    oven.inputs[0].num_items = 2;
    oven.inputs[1].num_items = 1;
    oven.tick_produce();
    assert_eq!((oven.inputs[0].num_items, oven.inputs[1].num_items), (1, 0));
    assert_eq!(oven.outputs[0].num_items, 1);
    oven.tick_produce();
    assert_eq!(oven.outputs[0].num_items, 1);
}

#[test]
fn bounds_cover_the_footprint() {
    let mut oven = factory_prototype(3);
    oven.position = crablets::geom::Vec2i::new(4, 5);
    let b = oven.bounds();
    assert!(b.contains(crablets::geom::Vec2i::new(6, 7)));
    assert!(!b.contains(crablets::geom::Vec2i::new(7, 7)));
    assert!(!b.contains(crablets::geom::Vec2i::new(3, 5)));
}
