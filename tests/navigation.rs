use crablets::geom::{Vec2i, Vec2u};
use crablets::grid::Tile;
use crablets::navigation::{walkable_neighbours8, NavState, NavStatus};
use crablets::state::GameState;

fn world(w: u32, h: u32) -> GameState {
    GameState::with_size(Vec2u::new(w, h))
}

#[test]
fn straight_walk_on_an_empty_grid() {
    let mut gs = world(10, 10);
    let mut nav = NavState::DestinationReached;
    nav.set_destination(Vec2i::new(3, 0));
    let mut pos = Vec2i::new(0, 0);
    for _ in 0..3 {
        if let Some(next) = nav.tick(&mut gs, pos) {
            pos = next;
        }
    }
    assert_eq!(pos, Vec2i::new(3, 0));
    assert!(matches!(nav.status(), NavStatus::DestinationReached));
    assert_eq!(nav.tick(&mut gs, pos), None);
}

#[test]
fn walks_around_a_single_obstacle() {
    let mut gs = world(10, 10);
    gs.tilemap.try_set(Vec2i::new(1, 0), Tile::stone());
    let mut nav = NavState::DestinationReached;
    nav.set_destination(Vec2i::new(2, 0));
    let mut pos = Vec2i::new(0, 0);
    let mut visited = vec![pos];
    for _ in 0..10 {
        if let Some(next) = nav.tick(&mut gs, pos) {
            pos = next;
            visited.push(pos);
        }
        assert!(!matches!(nav.status(), NavStatus::Unreachable(_)));
    }
    assert_eq!(pos, Vec2i::new(2, 0));
    assert!(matches!(nav.status(), NavStatus::DestinationReached));
    assert!(visited.contains(&Vec2i::new(0, 1)));
    assert!(!visited.contains(&Vec2i::new(1, 0)));
}

#[test]
fn walking_around_back_to_the_start_reports_unreachable() {
    let mut gs = world(5, 5);
    for y in 0..5 {
        for x in 0..5 {
            if !(x == 2 && (y == 2 || y == 3)) {
                gs.tilemap.try_set(Vec2i::new(x, y), Tile::water());
            }
        }
    }
    let mut nav = NavState::DestinationReached;
    nav.set_destination(Vec2i::new(2, 0));
    let before = gs.stats.frame[2];
    assert_eq!(nav.tick(&mut gs, Vec2i::new(2, 2)), Some(Vec2i::new(2, 3)));
    assert_eq!(nav.tick(&mut gs, Vec2i::new(2, 3)), None);
    assert_eq!(nav.status(), NavStatus::Unreachable(Vec2i::new(2, 0)));
    assert_eq!(gs.stats.frame[2], before + 1);
}

#[test]
fn setting_the_same_destination_twice_changes_nothing() {
    let mut once = NavState::DestinationReached;
    once.set_destination(Vec2i::new(4, 4));
    let mut twice = once;
    twice.set_destination(Vec2i::new(4, 4));
    assert_eq!(once, twice);
    let mut gs = world(8, 8);
    let mut a = once;
    let mut b = twice;
    assert_eq!(a.tick(&mut gs, Vec2i::new(0, 0)), b.tick(&mut gs, Vec2i::new(0, 0)));
    assert_eq!(a, b);
}

#[test]
fn neighbours_include_diagonals_between_walkable_sides() {
    let gs = world(5, 5);
    let n = walkable_neighbours8(&gs, Vec2i::new(2, 2));
    assert_eq!(
        n,
        vec![
            Vec2i::new(2, 1),
            Vec2i::new(1, 2),
            Vec2i::new(3, 2),
            Vec2i::new(2, 3),
            Vec2i::new(1, 1),
            Vec2i::new(1, 3),
            Vec2i::new(3, 3),
            Vec2i::new(3, 1),
        ]
    );
}

#[test]
fn diagonals_need_both_flanking_sides() {
    let mut gs = world(5, 5);
    gs.tilemap.try_set(Vec2i::new(2, 1), Tile::stone());
    let n = walkable_neighbours8(&gs, Vec2i::new(2, 2));
    assert_eq!(
        n,
        vec![Vec2i::new(1, 2), Vec2i::new(3, 2), Vec2i::new(2, 3), Vec2i::new(1, 3), Vec2i::new(3, 3)]
    );
    let corner = walkable_neighbours8(&gs, Vec2i::new(0, 0));
    assert_eq!(corner, vec![Vec2i::new(1, 0), Vec2i::new(0, 1), Vec2i::new(1, 1)]);
}
