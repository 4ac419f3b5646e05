use std::collections::VecDeque;
use std::sync::mpsc;

use opalite::{
    AiBehavior, AiComponent, AiGoal, AiGoalDo, AiSystem, CollisionStore, Coordinate, Entity,
    InitialPosition, MapMessage, MapSystem,
};

fn c(x: i32, y: i32, z: i32) -> Coordinate {
    Coordinate::new(x, y, z)
}

/// Issues one move goal at bootstrap and nothing afterwards.
struct GoTo {
    target: Coordinate,
    issued: std::cell::Cell<bool>,
}

impl GoTo {
    fn new(target: Coordinate) -> GoTo {
        GoTo { target, issued: std::cell::Cell::new(false) }
    }
}

impl AiBehavior for GoTo {
    fn decide(&self, _current: &Option<AiGoal>) -> AiGoalDo {
        AiGoalDo::Continue
    }

    fn on_complete(&self, finished: &Option<AiGoal>) -> Vec<AiGoal> {
        if finished.is_none() && !self.issued.get() {
            self.issued.set(true);
            vec![AiGoal::Move { start: c(0, 0, 0), target: self.target, path: VecDeque::new() }]
        } else {
            vec![]
        }
    }

    fn on_fail(&self, _failed: &Option<AiGoal>) -> Vec<AiGoal> {
        vec![]
    }
}

fn position(system: &MapSystem, entity: Entity) -> Option<Coordinate> {
    system.map().read().location(entity)
}

/// One whole tick: the AI phase reads the map and emits move requests,
/// then the map phase places spawns and applies the requests.
fn tick(
    ai_system: &mut AiSystem,
    map_system: &mut MapSystem,
    ais: &mut Vec<(Entity, AiComponent<GoTo>)>,
    spawns: &Vec<(Entity, InitialPosition)>,
    layers: &CollisionStore,
) {
    let snapshot = map_system.map().read();
    let mut sender = map_system.sender();
    ai_system.run(ais, &snapshot, &mut sender);
    map_system.run(spawns, layers);
}

#[test]
fn entity_walks_the_staircase_to_its_goal() {
    let entity = Entity(1);
    let mut map_system = MapSystem::new(c(5, 1, 5));
    let mut ai_system = AiSystem::new();
    let spawns = vec![(entity, InitialPosition(c(0, 0, 0)))];
    let layers = CollisionStore::new();
    let mut ais = vec![(entity, AiComponent::new(GoTo::new(c(2, 0, 2))))];

    // Tick 1: the entity has no position yet; the AI phase skips it and
    // the map phase places it.
    tick(&mut ai_system, &mut map_system, &mut ais, &spawns, &layers);
    assert_eq!(position(&map_system, entity), Some(c(0, 0, 0)));

    // The staircase resolves x before z, one step per tick.
    let expected = [c(1, 0, 0), c(2, 0, 0), c(2, 0, 1), c(2, 0, 2)];
    for step in expected.iter() {
        tick(&mut ai_system, &mut map_system, &mut ais, &spawns, &layers);
        assert_eq!(position(&map_system, entity), Some(*step));
    }

    // One more tick completes the goal: the entity stays put and the
    // goal is cleared (the behavior supplies no further goal).
    tick(&mut ai_system, &mut map_system, &mut ais, &spawns, &layers);
    assert_eq!(position(&map_system, entity), Some(c(2, 0, 2)));
    assert!(ais[0].1.current_goal().is_none());

    // The state is stable from here on.
    tick(&mut ai_system, &mut map_system, &mut ais, &spawns, &layers);
    assert_eq!(position(&map_system, entity), Some(c(2, 0, 2)));
}

#[test]
fn reply_channels_carry_the_outcome() {
    let entity = Entity(1);
    let mut map_system = MapSystem::new(c(5, 5, 5));
    let spawns = vec![(entity, InitialPosition(c(0, 0, 0)))];
    let layers = CollisionStore::new();
    let mut sender = map_system.sender();

    let (accept_tx, accept_rx) = mpsc::sync_channel(1);
    let (reject_tx, reject_rx) = mpsc::sync_channel(1);
    sender.send(MapMessage::Move {
        entity,
        new_location: c(1, 0, 0),
        absolute: true,
        reply: Some(accept_tx),
    });
    sender.send(MapMessage::Move {
        entity,
        new_location: c(9, 0, 0),
        absolute: true,
        reply: Some(reject_tx),
    });
    map_system.run(&spawns, &layers);

    assert_eq!(accept_rx.try_recv(), Ok(true));
    assert_eq!(reject_rx.try_recv(), Ok(false));
    assert_eq!(position(&map_system, entity), Some(c(1, 0, 0)));
}

#[test]
fn dropped_reply_receivers_are_tolerated() {
    let entity = Entity(1);
    let mut map_system = MapSystem::new(c(5, 5, 5));
    let spawns = vec![(entity, InitialPosition(c(0, 0, 0)))];
    let layers = CollisionStore::new();
    let mut sender = map_system.sender();

    let (reply_tx, reply_rx) = mpsc::sync_channel(1);
    drop(reply_rx);
    sender.send(MapMessage::Move {
        entity,
        new_location: c(1, 0, 0),
        absolute: true,
        reply: Some(reply_tx),
    });
    // The send failure is ignored; the move still applies.
    map_system.run(&spawns, &layers);
    assert_eq!(position(&map_system, entity), Some(c(1, 0, 0)));
}

#[test]
fn spawns_do_not_displace_placed_entities() {
    let entity = Entity(1);
    let mut map_system = MapSystem::new(c(5, 5, 5));
    let spawns = vec![(entity, InitialPosition(c(0, 0, 0)))];
    let layers = CollisionStore::new();
    let mut sender = map_system.sender();

    map_system.run(&spawns, &layers);
    sender.send(MapMessage::Move { entity, new_location: c(2, 0, 0), absolute: true, reply: None });
    map_system.run(&spawns, &layers);
    // The initial-placement pass only concerns entities never placed.
    assert_eq!(position(&map_system, entity), Some(c(2, 0, 0)));
}
