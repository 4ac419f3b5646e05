use std::collections::VecDeque;

use opalite::ai::generate_path;
use opalite::{AiBehavior, AiComponent, AiGoal, AiGoalDo, Coordinate};

fn c(x: i32, y: i32, z: i32) -> Coordinate {
    Coordinate::new(x, y, z)
}

fn move_goal(start: Coordinate, target: Coordinate) -> AiGoal {
    AiGoal::Move { start, target, path: VecDeque::new() }
}

/// Issues one move goal at bootstrap and nothing afterwards.
struct GoTo {
    target: Coordinate,
    issued: std::cell::Cell<bool>,
}

impl GoTo {
    fn new(target: Coordinate) -> GoTo {
        GoTo { target, issued: std::cell::Cell::new(false) }
    }
}

impl AiBehavior for GoTo {
    fn decide(&self, _current: &Option<AiGoal>) -> AiGoalDo {
        AiGoalDo::Continue
    }

    fn on_complete(&self, finished: &Option<AiGoal>) -> Vec<AiGoal> {
        if finished.is_none() && !self.issued.get() {
            self.issued.set(true);
            vec![move_goal(c(0, 0, 0), self.target)]
        } else {
            vec![]
        }
    }

    fn on_fail(&self, _failed: &Option<AiGoal>) -> Vec<AiGoal> {
        vec![]
    }
}

#[test]
fn path_is_the_deterministic_staircase() {
    let path = generate_path(c(0, 0, 0), c(2, 0, 3));
    let expected: Vec<Coordinate> =
        vec![c(1, 0, 0), c(1, 0, 0), c(0, 0, 1), c(0, 0, 1), c(0, 0, 1)];
    assert_eq!(path.into_iter().collect::<Vec<_>>(), expected);
}

#[test]
fn path_steps_down_in_negative_directions() {
    let path = generate_path(c(3, 0, 1), c(1, 0, 0));
    let expected: Vec<Coordinate> = vec![c(-1, 0, 0), c(-1, 0, 0), c(0, 0, -1)];
    assert_eq!(path.into_iter().collect::<Vec<_>>(), expected);
}

#[test]
fn path_between_aligned_cells_is_empty() {
    let path = generate_path(c(2, 0, 2), c(2, 5, 2));
    assert!(path.is_empty());
}

#[test]
fn tick_generates_a_path_and_emits_its_first_step() {
    let mut component = AiComponent::new(GoTo::new(c(2, 0, 3)));
    let step = component.tick(c(0, 0, 0)).0;
    assert_eq!(step, Some(c(1, 0, 0)));
    match component.current_goal() {
        Some(AiGoal::Move { target, path, .. }) => {
            assert_eq!(*target, c(2, 0, 3));
            let rest: Vec<Coordinate> = path.iter().copied().collect();
            assert_eq!(rest, vec![c(1, 0, 0), c(0, 0, 1), c(0, 0, 1), c(0, 0, 1)]);
        }
        None => panic!("a goal should be in progress"),
    }
}

#[test]
fn idle_component_emits_nothing() {
    let mut component = AiComponent::new(GoTo::new(c(0, 0, 0)));
    // The bootstrapped goal targets the live position, completes at
    // once, and no further goal is issued.
    let step = component.tick(c(0, 0, 0)).0;
    assert_eq!(step, None);
    let step = component.tick(c(0, 0, 0)).0;
    assert_eq!(step, None);
    assert!(component.current_goal().is_none());
}

/// Completes a placeholder goal into a second one: the chaining case.
struct ChainOnce {
    second: Coordinate,
    issued: std::cell::Cell<bool>,
}

impl AiBehavior for ChainOnce {
    fn decide(&self, _current: &Option<AiGoal>) -> AiGoalDo {
        AiGoalDo::Continue
    }

    fn on_complete(&self, finished: &Option<AiGoal>) -> Vec<AiGoal> {
        match finished {
            None if !self.issued.get() => {
                self.issued.set(true);
                // A goal that is already at its destination.
                vec![move_goal(c(0, 0, 0), c(0, 0, 0))]
            }
            Some(_) => vec![move_goal(c(0, 0, 0), self.second)],
            None => vec![],
        }
    }

    fn on_fail(&self, _failed: &Option<AiGoal>) -> Vec<AiGoal> {
        vec![]
    }
}

#[test]
fn completed_goal_chains_into_the_next_within_one_tick() {
    let mut component = AiComponent::new(ChainOnce {
        second: c(2, 0, 3),
        issued: std::cell::Cell::new(false),
    });
    // One tick: the first goal (already at its target) completes, the
    // second becomes current, its path is generated from the live
    // position, and its first step is already emitted.
    let step = component.tick(c(0, 0, 0)).0;
    assert_eq!(step, Some(c(1, 0, 0)));
    match component.current_goal() {
        Some(AiGoal::Move { target, .. }) => assert_eq!(*target, c(2, 0, 3)),
        None => panic!("the chained goal should be current"),
    }
}

/// Always replaces the queue with a fixed goal.
struct Usurper {
    target: Coordinate,
}

impl AiBehavior for Usurper {
    fn decide(&self, current: &Option<AiGoal>) -> AiGoalDo {
        if current.is_none() {
            AiGoalDo::Replace(vec![move_goal(c(0, 0, 0), self.target)])
        } else {
            AiGoalDo::Continue
        }
    }

    fn on_complete(&self, _finished: &Option<AiGoal>) -> Vec<AiGoal> {
        vec![]
    }

    fn on_fail(&self, _failed: &Option<AiGoal>) -> Vec<AiGoal> {
        vec![]
    }
}

#[test]
fn replace_installs_goals_for_the_next_tick() {
    let mut component = AiComponent::new(Usurper { target: c(1, 0, 0) });
    // First tick: no goal resolves, but `decide` plants one in the queue.
    assert_eq!(component.tick(c(0, 0, 0)).0, None);
    // Second tick: the planted goal is popped and advanced.
    assert_eq!(component.tick(c(0, 0, 0)).0, Some(c(1, 0, 0)));
}

#[test]
fn goal_differing_only_in_y_stalls_without_steps() {
    let mut component = AiComponent::new(GoTo::new(c(0, 5, 0)));
    // The staircase never steps along the y axis, so the goal neither
    // completes nor produces a move.
    assert_eq!(component.tick(c(0, 0, 0)).0, None);
    assert_eq!(component.tick(c(0, 0, 0)).0, None);
    match component.current_goal() {
        Some(AiGoal::Move { target, path, .. }) => {
            assert_eq!(*target, c(0, 5, 0));
            assert!(path.is_empty());
        }
        None => panic!("the unreachable goal stays current"),
    }
}
