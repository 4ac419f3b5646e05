//! Goal-driven AI: per-entity goal stack, lazy deterministic path
//! generation, and the goal lifecycle evaluated once per tick.
//!
//! Three behavior hooks supplied at entity construction (the
//! [`AiBehavior`] strategy) decide *which* goals an entity pursues; the
//! verified tick logic decides *how* the goal stack and the current
//! path evolve.  The whole tick is captured by [`tick_rel`]: for
//! whatever goals the hooks return, the component's state follows that
//! relation exactly.

use std::collections::VecDeque;
use vstd::prelude::*;

use crate::coord::Coordinate;
use crate::map::{Entity, MapMessage, MapModel, SpatialMap};
use crate::message::MessageSender;

verus! {

/// What `decide` asks of the goal stack this tick.
#[derive(Debug)]
pub enum AiGoalDo {
    /// Drop the pending queue and pursue these goals instead.
    Replace(Vec<AiGoal>),
    /// Append these goals behind the pending ones.
    Queue(Vec<AiGoal>),
    /// Leave the goal stack as it is.
    Continue,
}

/// A structured intent for one entity.  A `Move` goal carries its
/// origin, its destination, and a refillable queue of single-step
/// relative moves still to be taken.
#[derive(Debug)]
pub enum AiGoal {
    Move { start: Coordinate, target: Coordinate, path: VecDeque<Coordinate> },
}

/// Where a goal began.
pub open spec fn goal_start(g: AiGoal) -> Coordinate {
    match g {
        AiGoal::Move { start, .. } => start,
    }
}

/// Where a goal is headed.
pub open spec fn goal_target(g: AiGoal) -> Coordinate {
    match g {
        AiGoal::Move { target, .. } => target,
    }
}

/// The single-step moves a goal still intends to take.
pub open spec fn goal_path(g: AiGoal) -> Seq<Coordinate> {
    match g {
        AiGoal::Move { path, .. } => path@,
    }
}

/// Pluggable strategy for one entity, supplied when the entity is
/// built.  The hooks must not read shared simulation state: they are
/// given the goal in question and answer with goals of their own.
pub trait AiBehavior {
    /// Consulted every tick with the goal being worked on; may override
    /// the pending queue.
    fn decide(&self, current: &Option<AiGoal>) -> AiGoalDo;

    /// Consulted when a goal finishes, or with no goal at all when
    /// there is nothing left to do; answers with goals to append.
    fn on_complete(&self, finished: &Option<AiGoal>) -> Vec<AiGoal>;

    /// Reserved failure hook.  The tick logic defines no failure
    /// condition, so nothing here ever calls it; it stays available to
    /// embedding code that wants to react to rejected moves.
    fn on_fail(&self, failed: &Option<AiGoal>) -> Vec<AiGoal>;
}

/// `count` copies of one single-step move.
pub open spec fn step_run(count: int, step: Coordinate) -> Seq<Coordinate> {
    if count >= 0 {
        Seq::new(count as nat, |i: int| step)
    } else {
        Seq::empty()
    }
}

/// The deterministic staircase route from `from` to `target`: first
/// unit steps along the x axis until aligned, then unit steps along
/// the z axis.  The y axis is never stepped.
pub open spec fn path_spec(from: Coordinate, target: Coordinate) -> Seq<Coordinate> {
    let dx = target.x - from.x;
    let dz = target.z - from.z;
    let x_step = if dx >= 0 {
        Coordinate { x: 1, y: 0, z: 0 }
    } else {
        Coordinate { x: -1i32, y: 0, z: 0 }
    };
    let z_step = if dz >= 0 {
        Coordinate { x: 0, y: 0, z: 1 }
    } else {
        Coordinate { x: 0, y: 0, z: -1i32 }
    };
    step_run(if dx >= 0 {
        dx
    } else {
        -dx
    }, x_step) + step_run(
        if dz >= 0 {
            dz
        } else {
            -dz
        },
        z_step,
    )
}

/// Pushes `count` copies of `step` onto `path`.
fn push_run(path: &mut VecDeque<Coordinate>, count: i64, step: Coordinate)
    requires
        count >= 0,
    ensures
        final(path)@ == old(path)@ + step_run(count as int, step),
{
    let mut k: i64 = 0;
    while k < count
        invariant
            0 <= k <= count,
            path@ == old(path)@ + step_run(k as int, step),
        decreases count - k,
    {
        path.push_back(step);
        k = k + 1;
        proof {
            assert(path@ =~= old(path)@ + step_run(k as int, step));
        }
    }
}

/// Generates the staircase route from `from` to `target`: the x axis
/// is resolved fully before the z axis, one unit step per entry.
pub fn generate_path(from: Coordinate, target: Coordinate) -> (path: VecDeque<Coordinate>)
    ensures
        path@ == path_spec(from, target),
{
    let dx: i64 = target.x as i64 - from.x as i64;
    let dz: i64 = target.z as i64 - from.z as i64;
    let mut path: VecDeque<Coordinate> = VecDeque::new();
    if dx >= 0 {
        push_run(&mut path, dx, Coordinate { x: 1, y: 0, z: 0 });
    } else {
        push_run(&mut path, -dx, Coordinate { x: -1, y: 0, z: 0 });
    }
    if dz >= 0 {
        push_run(&mut path, dz, Coordinate { x: 0, y: 0, z: 1 });
    } else {
        push_run(&mut path, -dz, Coordinate { x: 0, y: 0, z: -1 });
    }
    proof {
        assert(path@ =~= path_spec(from, target));
    }
    path
}

/// The cell reached by applying relative steps in order, in
/// mathematical integers.
pub open spec fn walk(x: int, y: int, z: int, steps: Seq<Coordinate>) -> (int, int, int)
    decreases steps.len(),
{
    if steps.len() == 0 {
        (x, y, z)
    } else {
        walk(x + steps[0].x, y + steps[0].y, z + steps[0].z, steps.drop_first())
    }
}

/// A walk over a concatenation passes through the seam.
proof fn lemma_walk_concat(x: int, y: int, z: int, a: Seq<Coordinate>, b: Seq<Coordinate>)
    ensures
        ({
            let mid = walk(x, y, z, a);
            walk(x, y, z, a + b) == walk(mid.0, mid.1, mid.2, b)
        }),
    decreases a.len(),
{
    if a.len() == 0 {
        assert(a + b =~= b);
    } else {
        assert((a + b).drop_first() =~= a.drop_first() + b);
        assert((a + b)[0] == a[0]);
        lemma_walk_concat(x + a[0].x, y + a[0].y, z + a[0].z, a.drop_first(), b);
    }
}

/// Walking a run of one repeated step adds the step `count` times.
proof fn lemma_walk_run(x: int, y: int, z: int, count: int, step: Coordinate)
    requires
        count >= 0,
    ensures
        walk(x, y, z, step_run(count, step)).0 == x + count * step.x,
        walk(x, y, z, step_run(count, step)).1 == y + count * step.y,
        walk(x, y, z, step_run(count, step)).2 == z + count * step.z,
    decreases count,
{
    if count == 0 {
        assert(step_run(0, step) =~= Seq::<Coordinate>::empty());
    } else {
        assert(step_run(count, step)[0] == step);
        assert(step_run(count, step).drop_first() =~= step_run(count - 1, step));
        lemma_walk_run(x + step.x, y + step.y, z + step.z, count - 1, step);
        assert(x + step.x + (count - 1) * step.x == x + count * step.x) by (nonlinear_arith);
        assert(y + step.y + (count - 1) * step.y == y + count * step.y) by (nonlinear_arith);
        assert(z + step.z + (count - 1) * step.z == z + count * step.z) by (nonlinear_arith);
    }
}

/// Convergence of the staircase route: applying every generated step
/// in order from the start position ends exactly at the target's x
/// and z, with the y coordinate untouched, after one step per entry
/// (`|dx| + |dz|` of them).  One accepted step per tick therefore
/// brings an entity to its goal's column in that many map phases.
pub proof fn lemma_path_reaches_target(from: Coordinate, target: Coordinate)
    ensures
        walk(from.x as int, from.y as int, from.z as int, path_spec(from, target)).0 == target.x,
        walk(from.x as int, from.y as int, from.z as int, path_spec(from, target)).1 == from.y,
        walk(from.x as int, from.y as int, from.z as int, path_spec(from, target)).2 == target.z,
        path_spec(from, target).len() == (if target.x >= from.x {
            target.x - from.x
        } else {
            from.x - target.x
        }) + (if target.z >= from.z {
            target.z - from.z
        } else {
            from.z - target.z
        }),
{
    let dx = target.x - from.x;
    let dz = target.z - from.z;
    let x_step = if dx >= 0 {
        Coordinate { x: 1, y: 0, z: 0 }
    } else {
        Coordinate { x: -1i32, y: 0, z: 0 }
    };
    let z_step = if dz >= 0 {
        Coordinate { x: 0, y: 0, z: 1 }
    } else {
        Coordinate { x: 0, y: 0, z: -1i32 }
    };
    let nx = if dx >= 0 {
        dx
    } else {
        -dx
    };
    let nz = if dz >= 0 {
        dz
    } else {
        -dz
    };
    lemma_walk_concat(
        from.x as int,
        from.y as int,
        from.z as int,
        step_run(nx, x_step),
        step_run(nz, z_step),
    );
    lemma_walk_run(from.x as int, from.y as int, from.z as int, nx, x_step);
    assert(nx * x_step.x == dx) by (nonlinear_arith)
        requires
            (dx >= 0 ==> nx == dx && x_step.x == 1) && (dx < 0 ==> nx == -dx && x_step.x == -1),
    ;
    assert(nx * x_step.y == 0) by (nonlinear_arith)
        requires
            x_step.y == 0,
    ;
    assert(nx * x_step.z == 0) by (nonlinear_arith)
        requires
            x_step.z == 0,
    ;
    let mid = walk(from.x as int, from.y as int, from.z as int, step_run(nx, x_step));
    lemma_walk_run(mid.0, mid.1, mid.2, nz, z_step);
    assert(nz * z_step.z == dz) by (nonlinear_arith)
        requires
            (dz >= 0 ==> nz == dz && z_step.z == 1) && (dz < 0 ==> nz == -dz && z_step.z == -1),
    ;
    assert(nz * z_step.x == 0) by (nonlinear_arith)
        requires
            z_step.x == 0,
    ;
    assert(nz * z_step.y == 0) by (nonlinear_arith)
        requires
            z_step.y == 0,
    ;
}

/// The queue after appending freshly produced goals and popping the
/// front: how the completion hook's answers enter the stack.
pub open spec fn enqueue_pop_rel(
    q0: Seq<AiGoal>,
    produced: Seq<AiGoal>,
    q1: Seq<AiGoal>,
    g: Option<AiGoal>,
) -> bool {
    let q = q0 + produced;
    if q.len() == 0 {
        q1 == q && g is None
    } else {
        g == Some(q[0]) && q1 == q.drop_first()
    }
}

/// Effect of a decision on the pending queue.
pub open spec fn decision_rel(q0: Seq<AiGoal>, d: AiGoalDo, q1: Seq<AiGoal>) -> bool {
    match d {
        AiGoalDo::Replace(goals) => q1 == goals@,
        AiGoalDo::Queue(goals) => q1 == q0 + goals@,
        AiGoalDo::Continue => q1 == q0,
    }
}

/// Tick step 1: the goal to work on.  An existing current goal is
/// kept; otherwise the queue is popped; otherwise the completion hook
/// is consulted once with no finished goal (bootstrapping), its goals
/// are queued, and the queue is popped again.
pub open spec fn resolve_rel(
    cur0: Option<AiGoal>,
    q0: Seq<AiGoal>,
    boot: Seq<AiGoal>,
    q1: Seq<AiGoal>,
    g: Option<AiGoal>,
) -> bool {
    match cur0 {
        Some(goal) => g == Some(goal) && q1 == q0,
        None => if q0.len() > 0 {
            g == Some(q0[0]) && q1 == q0.drop_first()
        } else {
            enqueue_pop_rel(q0, boot, q1, g)
        },
    }
}

/// Whether the goal's destination equals the live position.
pub open spec fn goal_reached(g: Option<AiGoal>, position: Coordinate) -> bool {
    match g {
        Some(goal) => goal_target(goal) == position,
        None => false,
    }
}

/// Tick step 2: a goal already standing at its target is finished; the
/// completion hook's goals join the queue and the next queued goal
/// becomes current within the same tick.
pub open spec fn completion_rel(
    g0: Option<AiGoal>,
    q0: Seq<AiGoal>,
    position: Coordinate,
    done: Seq<AiGoal>,
    q1: Seq<AiGoal>,
    g1: Option<AiGoal>,
) -> bool {
    if goal_reached(g0, position) {
        enqueue_pop_rel(q0, done, q1, g1)
    } else {
        g1 == g0 && q1 == q0
    }
}

/// Tick step 4: path advance.  An empty path is regenerated from the
/// live position toward the goal's target; then one step is taken off
/// the front and emitted, if any remains.
pub open spec fn advance_rel(
    g0: AiGoal,
    position: Coordinate,
    g1: AiGoal,
    step: Option<Coordinate>,
) -> bool {
    let p0 = if goal_path(g0).len() == 0 {
        path_spec(position, goal_target(g0))
    } else {
        goal_path(g0)
    };
    &&& goal_start(g1) == goal_start(g0)
    &&& goal_target(g1) == goal_target(g0)
    &&& if p0.len() == 0 {
        step is None && goal_path(g1) == p0
    } else {
        step == Some(p0[0]) && goal_path(g1) == p0.drop_first()
    }
}

/// One whole tick, with every intermediate state written out: resolve,
/// completion check, decision override, path advance, store.
pub open spec fn tick_rel_steps(
    cur0: Option<AiGoal>,
    q0: Seq<AiGoal>,
    position: Coordinate,
    boot: Seq<AiGoal>,
    done: Seq<AiGoal>,
    d: AiGoalDo,
    qa: Seq<AiGoal>,
    ga: Option<AiGoal>,
    qb: Seq<AiGoal>,
    gb: Option<AiGoal>,
    cur1: Option<AiGoal>,
    q1: Seq<AiGoal>,
    step: Option<Coordinate>,
) -> bool {
    &&& resolve_rel(cur0, q0, boot, qa, ga)
    &&& completion_rel(ga, qa, position, done, qb, gb)
    &&& decision_rel(qb, d, q1)
    &&& match gb {
        None => cur1 is None && step is None,
        Some(g) => cur1 matches Some(g1) && advance_rel(g, position, g1, step),
    }
}

/// One whole tick of the goal state machine, given what the behavior
/// hooks answered: `boot` from the bootstrapping completion call,
/// `done` from the goal-finished completion call, `d` from `decide`.
pub open spec fn tick_rel(
    cur0: Option<AiGoal>,
    q0: Seq<AiGoal>,
    position: Coordinate,
    boot: Seq<AiGoal>,
    done: Seq<AiGoal>,
    d: AiGoalDo,
    cur1: Option<AiGoal>,
    q1: Seq<AiGoal>,
    step: Option<Coordinate>,
) -> bool {
    exists|qa: Seq<AiGoal>, ga: Option<AiGoal>, qb: Seq<AiGoal>, gb: Option<AiGoal>|
        #[trigger] tick_rel_steps(cur0, q0, position, boot, done, d, qa, ga, qb, gb, cur1, q1, step)
}

/// What the behavior hooks answered during one tick: the goals of the
/// bootstrapping completion call, the goals of the goal-finished
/// completion call, and the decision.  Carried as ghost information so
/// a caller can connect the tick relation to its concrete strategy.
pub struct HookAnswers {
    pub boot: Seq<AiGoal>,
    pub done: Seq<AiGoal>,
    pub decision: AiGoalDo,
}

/// Per-entity AI state: the goal being worked on, the pending goal
/// queue in execution order, and the behavior strategy.
pub struct AiComponent<B: AiBehavior> {
    current_goal: Option<AiGoal>,
    goals: VecDeque<AiGoal>,
    behavior: B,
}

impl<B: AiBehavior> AiComponent<B> {
    /// The goal being worked on.
    pub closed spec fn spec_current(&self) -> Option<AiGoal> {
        self.current_goal
    }

    /// The pending goals, front first.
    pub closed spec fn spec_goals(&self) -> Seq<AiGoal> {
        self.goals@
    }

    /// A fresh component around a behavior strategy: no current goal
    /// and an empty queue.
    pub fn new(behavior: B) -> (c: AiComponent<B>)
        ensures
            c.spec_current() is None,
            c.spec_goals() == Seq::<AiGoal>::empty(),
    {
        AiComponent { current_goal: None, goals: VecDeque::new(), behavior }
    }

    /// The goal being worked on, for inspection.
    pub fn current_goal(&self) -> (g: &Option<AiGoal>)
        ensures
            *g == self.spec_current(),
    {
        &self.current_goal
    }

    /// Appends goals at the back of the pending queue.
    #[verifier::loop_isolation(false)]
    fn append_goals(&mut self, goals: Vec<AiGoal>)
        ensures
            final(self).spec_goals() == old(self).spec_goals() + goals@,
            final(self).spec_current() == old(self).spec_current(),
    {
        let ghost all = goals@;
        let mut goals = goals;
        while goals.len() > 0
            invariant
                self.goals@ + goals@ == old(self).goals@ + all,
                self.current_goal == old(self).current_goal,
            decreases goals.len(),
        {
            let goal = goals.remove(0);
            self.goals.push_back(goal);
            proof {
                assert(self.goals@ + goals@ =~= old(self).goals@ + all);
            }
        }
        proof {
            assert(self.goals@ =~= old(self).goals@ + all);
        }
    }

    /// Appends freshly produced goals, then pops the front of the
    /// queue: how the completion hook's answers enter the stack.
    fn enqueue_and_pop(&mut self, produced: Vec<AiGoal>) -> (g: Option<AiGoal>)
        ensures
            enqueue_pop_rel(old(self).spec_goals(), produced@, final(self).spec_goals(), g),
            final(self).spec_current() == old(self).spec_current(),
    {
        self.append_goals(produced);
        let g = self.goals.pop_front();
        proof {
            if (old(self).spec_goals() + produced@).len() > 0 {
                assert(self.goals@ =~= (old(self).spec_goals() + produced@).drop_first());
            }
        }
        g
    }

    /// Applies a decision to the pending queue: `Replace` installs the
    /// given goals in place of the queue, `Queue` appends them,
    /// `Continue` changes nothing.
    fn apply_decision(&mut self, decision: AiGoalDo)
        ensures
            decision_rel(old(self).spec_goals(), decision, final(self).spec_goals()),
            final(self).spec_current() == old(self).spec_current(),
    {
        match decision {
            AiGoalDo::Replace(goals) => {
                self.goals.clear();
                self.append_goals(goals);
                proof {
                    assert(self.goals@ =~= Seq::<AiGoal>::empty() + goals@);
                    assert(self.goals@ =~= goals@);
                }
            },
            AiGoalDo::Queue(goals) => {
                self.append_goals(goals);
            },
            AiGoalDo::Continue => {},
        }
    }

    /// One tick of the goal state machine at the entity's live
    /// position: resolves the goal to work on, completes it if the
    /// position already equals its target, lets `decide` override the
    /// queue, advances the path by one step, and stores the goal back.
    /// The first component of the result is the relative move to
    /// request, if any; the second reports, as ghost information, what
    /// the behavior hooks answered, which ties the tick relation to
    /// the concrete strategy.
    ///
    /// A step handed out is consumed even if the map later rejects the
    /// requested move: the path is re-derived from the live position
    /// only once it runs empty.  That retention choice is deliberate.
    pub fn tick(&mut self, position: Coordinate) -> (r: (
        Option<Coordinate>,
        Ghost<HookAnswers>,
    ))
        ensures
            tick_rel(
                old(self).spec_current(),
                old(self).spec_goals(),
                position,
                r.1@.boot,
                r.1@.done,
                r.1@.decision,
                final(self).spec_current(),
                final(self).spec_goals(),
                r.0,
            ),
    {
        let ghost cur0 = self.spec_current();
        let ghost q0 = self.spec_goals();
        let ghost mut boot_w: Seq<AiGoal> = Seq::empty();
        let ghost mut done_w: Seq<AiGoal> = Seq::empty();

        // Step 1: resolve the goal to work on.
        let mut taken: Option<AiGoal> = None;
        std::mem::swap(&mut taken, &mut self.current_goal);
        let current = match taken {
            Some(goal) => Some(goal),
            None => match self.goals.pop_front() {
                Some(goal) => Some(goal),
                None => {
                    let produced = self.behavior.on_complete(&None);
                    proof {
                        boot_w = produced@;
                    }
                    self.enqueue_and_pop(produced)
                },
            },
        };
        let ghost qa = self.spec_goals();
        let ghost ga = current;
        proof {
            if cur0 is None && q0.len() > 0 {
                assert(self.goals@ =~= q0.drop_first());
            }
            assert(resolve_rel(cur0, q0, boot_w, qa, ga));
        }

        // Step 2: finish a goal whose target is already reached.
        let reached = match &current {
            Some(goal) => match goal {
                AiGoal::Move { target, .. } => *target == position,
            },
            None => false,
        };
        let current = if reached {
            let produced = self.behavior.on_complete(&current);
            proof {
                done_w = produced@;
            }
            self.enqueue_and_pop(produced)
        } else {
            current
        };
        let ghost qb = self.spec_goals();
        let ghost gb = current;
        proof {
            assert(completion_rel(ga, qa, position, done_w, qb, gb));
        }

        // Step 3: let the behavior override the pending queue.
        let decision = self.behavior.decide(&current);
        let ghost d_w = decision;
        self.apply_decision(decision);

        // Step 4: advance the path of the goal being worked on.
        let (current, step) = match current {
            None => (None, None),
            Some(goal) => {
                let (goal, step) = advance_goal(goal, position);
                (Some(goal), step)
            },
        };
        self.current_goal = current;
        proof {
            assert(tick_rel_steps(
                cur0,
                q0,
                position,
                boot_w,
                done_w,
                d_w,
                qa,
                ga,
                qb,
                gb,
                self.spec_current(),
                self.spec_goals(),
                step,
            ));
            assert(tick_rel(
                cur0,
                q0,
                position,
                boot_w,
                done_w,
                d_w,
                self.spec_current(),
                self.spec_goals(),
                step,
            ));
        }
        (step, Ghost(HookAnswers { boot: boot_w, done: done_w, decision: d_w }))
    }
}

/// Advances one goal at the live position: an empty path is
/// regenerated toward the target, then one step is taken off the
/// front, if any remains.
fn advance_goal(goal: AiGoal, position: Coordinate) -> (r: (AiGoal, Option<Coordinate>))
    ensures
        advance_rel(goal, position, r.0, r.1),
{
    match goal {
        AiGoal::Move { start, target, path } => {
            let mut path = path;
            if path.len() == 0 {
                path = generate_path(position, target);
            }
            let ghost p0 = path@;
            let step = path.pop_front();
            proof {
                if p0.len() > 0 {
                    assert(path@ =~= p0.drop_first());
                }
            }
            (AiGoal::Move { start, target, path }, step)
        },
    }
}

/// Goal chaining has zero added latency: with a current `Move` goal
/// already standing at its target, an empty pending queue, a
/// completion hook that answers with one fresh goal, and a `Continue`
/// decision, a single tick finishes the first goal, makes the fresh
/// goal current, and already emits the first step of that goal's
/// newly generated path.  The hypothesis relation is exactly what
/// `AiComponent::tick` ensures, with the hook answers it reports.
pub proof fn lemma_goal_chaining_zero_latency(
    g1: AiGoal,
    g2: AiGoal,
    position: Coordinate,
    boot: Seq<AiGoal>,
    d: AiGoalDo,
    cur1: Option<AiGoal>,
    q1: Seq<AiGoal>,
    step: Option<Coordinate>,
)
    requires
        goal_target(g1) == position,
        goal_path(g2).len() == 0,
        d is Continue,
        tick_rel(Some(g1), Seq::empty(), position, boot, seq![g2], d, cur1, q1, step),
    ensures
        q1 == Seq::<AiGoal>::empty(),
        cur1 matches Some(g) && goal_target(g) == goal_target(g2) && goal_start(g) == goal_start(
            g2,
        ),
        ({
            let p = path_spec(position, goal_target(g2));
            if p.len() == 0 {
                step is None
            } else {
                step == Some(p[0])
            }
        }),
{
    let (qa, ga, qb, gb) = choose|
        qa: Seq<AiGoal>,
        ga: Option<AiGoal>,
        qb: Seq<AiGoal>,
        gb: Option<AiGoal>,
    |
        #[trigger] tick_rel_steps(
            Some(g1),
            Seq::empty(),
            position,
            boot,
            seq![g2],
            d,
            qa,
            ga,
            qb,
            gb,
            cur1,
            q1,
            step,
        );
    assert(ga == Some(g1) && qa == Seq::<AiGoal>::empty());
    assert(goal_reached(ga, position));
    assert((qa + seq![g2])[0] == g2);
    assert(gb == Some(g2));
    assert(qb =~= (qa + seq![g2]).drop_first());
    assert(qb =~= Seq::<AiGoal>::empty());
    assert(q1 =~= Seq::<AiGoal>::empty());
}

/// The AI phase of a tick: it owns no state of its own; each run walks
/// the components it is handed.
pub struct AiSystem;

impl AiSystem {
    /// Builds the AI phase.
    pub fn new() -> AiSystem {
        AiSystem
    }

    /// One AI phase: every entity that stands on the map runs one goal
    /// tick at its live position, and each tick that yields a step
    /// sends one relative, fire-and-forget move request; entities with
    /// no position are skipped untouched.  The result reports, as
    /// ghost information and in component order, what each entity's
    /// tick did, tying every transition to the concrete hook answers.
    pub fn run<B: AiBehavior>(
        &mut self,
        ais: &mut Vec<(Entity, AiComponent<B>)>,
        map: &SpatialMap,
        map_messages: &mut MessageSender<MapMessage>,
    ) -> (reports: Ghost<Seq<TickReport>>)
        ensures
            final(ais)@.len() == old(ais)@.len(),
            reports@.len() == old(ais)@.len(),
            forall|i: int|
                0 <= i < old(ais)@.len() ==> (#[trigger] final(ais)@[i]).0 == old(ais)@[i].0
                    && ai_run_rel(
                    old(ais)@[i].0,
                    old(ais)@[i].1,
                    final(ais)@[i].1,
                    map.model(),
                    reports@[i],
                ),
    {
        let ghost ais0 = ais@;
        let ghost mut reports: Seq<TickReport> = Seq::empty();
        let mut i: usize = 0;
        while i < ais.len()
            invariant
                0 <= i <= ais0.len(),
                ais@.len() == ais0.len(),
                reports.len() == i,
                forall|k: int|
                    0 <= k < i ==> (#[trigger] ais@[k]).0 == ais0[k].0 && ai_run_rel(
                        ais0[k].0,
                        ais0[k].1,
                        ais@[k].1,
                        map.model(),
                        reports[k],
                    ),
                forall|k: int| i <= k < ais0.len() ==> ais@[k] == ais0[k],
            decreases ais.len() - i,
        {
            let ghost before = ais@;
            let (entity, mut component) = ais.remove(i);
            match map.location(entity) {
                Some(position) => {
                    let (step, answers) = component.tick(position);
                    match step {
                        Some(delta) => {
                            map_messages.send(
                                MapMessage::Move {
                                    entity,
                                    new_location: delta,
                                    absolute: false,
                                    reply: None,
                                },
                            );
                        },
                        None => {},
                    }
                    proof {
                        reports = reports.push(TickReport { answers: answers@, step });
                        assert(tick_rel(
                            before[i as int].1.spec_current(),
                            before[i as int].1.spec_goals(),
                            position,
                            answers@.boot,
                            answers@.done,
                            answers@.decision,
                            component.spec_current(),
                            component.spec_goals(),
                            step,
                        ));
                        assert(ai_run_rel(
                            entity,
                            before[i as int].1,
                            component,
                            map.model(),
                            reports[i as int],
                        ));
                    }
                },
                None => {
                    proof {
                        reports = reports.push(idle_report());
                        assert(ai_run_rel(
                            entity,
                            before[i as int].1,
                            component,
                            map.model(),
                            reports[i as int],
                        ));
                    }
                },
            }
            ais.insert(i, (entity, component));
            proof {
                assert(ais@ =~= before.update(i as int, (entity, component)));
            }
            i = i + 1;
        }
        Ghost(reports)
    }
}

/// One entity's share of an AI phase: what the hooks answered and the
/// step that was emitted, if any.
pub struct TickReport {
    pub answers: HookAnswers,
    pub step: Option<Coordinate>,
}

/// The report of a skipped entity: nothing was asked and nothing sent.
pub open spec fn idle_report() -> TickReport {
    TickReport {
        answers: HookAnswers {
            boot: Seq::empty(),
            done: Seq::empty(),
            decision: AiGoalDo::Continue,
        },
        step: None,
    }
}

/// What one AI phase does to one entity's component: an entity with a
/// position runs one goal tick at it, with the reported hook answers
/// and emitted step; an entity with no position is left untouched.
pub open spec fn ai_run_rel<B: AiBehavior>(
    e: Entity,
    c0: AiComponent<B>,
    c1: AiComponent<B>,
    m: MapModel,
    report: TickReport,
) -> bool {
    if m.placed.dom().contains(e) {
        tick_rel(
            c0.spec_current(),
            c0.spec_goals(),
            m.placed[e],
            report.answers.boot,
            report.answers.done,
            report.answers.decision,
            c1.spec_current(),
            c1.spec_goals(),
            report.step,
        )
    } else {
        c1 == c0
    }
}

} // verus!
