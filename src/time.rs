use vstd::prelude::*;

use crate::world::{MoveMap, Transform};

verus! {

/// Milliseconds in one second: an actor of speed `s` acts every `1000 / s` ms.
pub const MILLIS_PER_SECOND: i32 = 1000;

/// What a timed action does when it completes.
#[derive(Clone, Copy, Debug, PartialEq, Eq, Structural)]
pub enum ActionType {
    /// One step by the given row and column offsets.
    Move(i32, i32),
    /// One greedy step towards the given cell, repeated until it is reached.
    MoveTo(u32, u32),
}

/// An action in flight: it completes at the first tick at or after `deadline`
/// (in milliseconds).
#[derive(Clone, Copy, Debug, PartialEq, Eq, Structural)]
pub struct Action {
    pub deadline: u64,
    pub t: ActionType,
}

/// The actor role: a speed in actions per second and a single action slot.
#[derive(Clone, Copy, Debug, PartialEq, Eq, Structural)]
pub struct Actor {
    pub speed: i32,
    pub action: Option<Action>,
}

/// The time an actor of the given speed takes per action, in milliseconds.
pub open spec fn execution_time_spec(speed: i32) -> int {
    (MILLIS_PER_SECOND as int) / (speed as int)
}

/// `now` plus `interval`, held at the largest `u64`.
pub open spec fn deadline_after(now: u64, interval: int) -> u64 {
    if now + interval > u64::MAX {
        u64::MAX
    } else {
        (now + interval) as u64
    }
}

/// The actor after asking it to start `t` at time `now`: the slot is filled
/// only when it was empty.
pub open spec fn issue_spec(a: Actor, t: ActionType, now: u64) -> Actor {
    if a.action is Some {
        a
    } else {
        Actor {
            action: Some(
                Action { deadline: deadline_after(now, execution_time_spec(a.speed)), t },
            ),
            ..a
        }
    }
}

impl Actor {
    pub open spec fn wf(&self) -> bool {
        self.speed > 0
    }

    /// An idle actor of the given speed.
    pub fn new(speed: i32) -> (a: Self)
        requires
            speed > 0,
        ensures
            a.wf(),
            a.speed == speed,
            a.action is None,
    {
        Self { speed, action: None }
    }

    /// Milliseconds per action.
    pub fn get_execution_time(&self) -> (ms: u64)
        requires
            self.wf(),
        ensures
            ms == execution_time_spec(self.speed),
    {
        (MILLIS_PER_SECOND / self.speed) as u64
    }

    /// Starts `action` at time `now` if the slot is empty and says whether it
    /// did; an occupied slot is left as it was.
    pub fn new_action(&mut self, action: ActionType, now: u64) -> (started: bool)
        requires
            old(self).wf(),
        ensures
            started == (old(self).action is None),
            *final(self) == issue_spec(*old(self), action, now),
    {
        match self.action {
            Some(_) => false,
            None => {
                let ms = self.get_execution_time();
                let deadline = if now > u64::MAX - ms {
                    u64::MAX
                } else {
                    now + ms
                };
                self.action = Some(Action { deadline, t: action });
                true
            },
        }
    }

    pub fn is_busy(&self) -> (b: bool)
        ensures
            b == self.action is Some,
    {
        self.action.is_some()
    }
}

/// `u + i`, where it is a `u32`.
pub open spec fn add_spec(u: u32, i: i32) -> Option<u32> {
    if 0 <= u + i <= u32::MAX {
        Some((u + i) as u32)
    } else {
        None
    }
}

/// The sign of `i`: -1, 0 or 1.
pub open spec fn sign(i: int) -> int {
    if i < 0 {
        -1
    } else if i > 0 {
        1
    } else {
        0
    }
}

/// Applies the signed offset `i` to the coordinate `u`; `None` where the result
/// leaves the range of `u32`.
pub fn add(u: u32, i: i32) -> (r: Option<u32>)
    ensures
        r == add_spec(u, i),
{
    let v: i64 = u as i64 + i as i64;
    if v < 0 || v > u32::MAX as i64 {
        None
    } else {
        Some(v as u32)
    }
}

/// The sign of `i`: -1, 0 or 1.
pub fn normalize(i: i32) -> (r: i32)
    ensures
        r == sign(i as int),
{
    if i < 0 {
        -1
    } else if i > 0 {
        1
    } else {
        0
    }
}

/// Whether stepping from `t` by (`dr`, `dc`) lands on a passable cell of `grid`.
pub open spec fn step_open(grid: MoveMap, t: Transform, dr: int, dc: int) -> bool {
    &&& 0 <= t.r + dr <= u32::MAX
    &&& 0 <= t.c + dc <= u32::MAX
    &&& grid.is_passable(t.r + dr, t.c + dc)
}

/// `t` moved by (`dr`, `dc`).
pub open spec fn moved(t: Transform, dr: int, dc: int) -> Transform {
    Transform { r: (t.r + dr) as u32, c: (t.c + dc) as u32, ..t }
}

/// One tick of the scheduler for one entity, at time `now`: the actor and the
/// position that follow from the actor `a` at position `t`.
pub open spec fn advance_spec(a: Actor, t: Transform, grid: MoveMap, now: u64) -> (Actor, Transform) {
    match a.action {
        None => (a, t),
        Some(act) => {
            if now < act.deadline {
                (a, t)
            } else {
                let idle = Actor { action: None, ..a };
                match act.t {
                    ActionType::Move(dr, dc) => {
                        if step_open(grid, t, dr as int, dc as int) {
                            (idle, moved(t, dr as int, dc as int))
                        } else {
                            (idle, t)
                        }
                    },
                    ActionType::MoveTo(tr, tc) => {
                        let dr = sign(tr - t.r);
                        let dc = sign(tc - t.c);
                        if step_open(grid, t, dr, dc) {
                            let next = moved(t, dr, dc);
                            if next.r == tr || next.c == tc {
                                (idle, next)
                            } else {
                                (
                                    Actor {
                                        action: Some(
                                            Action {
                                                deadline: deadline_after(
                                                    now,
                                                    execution_time_spec(a.speed),
                                                ),
                                                t: act.t,
                                            },
                                        ),
                                        ..a
                                    },
                                    next,
                                )
                            }
                        } else {
                            (idle, t)
                        }
                    },
                }
            }
        },
    }
}

/// Advances one entity's action at time `now` (see `advance_spec`).
pub fn advance(actor: &mut Actor, transform: &mut Transform, mmap: &MoveMap, now: u64)
    requires
        old(actor).wf(),
        mmap.wf(),
    ensures
        (*final(actor), *final(transform)) == advance_spec(*old(actor), *old(transform), *mmap, now),
{
    let act = match actor.action {
        None => return,
        Some(act) => act,
    };
    if now < act.deadline {
        return;
    }
    match act.t {
        ActionType::Move(dr, dc) => {
            if let (Some(new_r), Some(new_c)) = (crate::time::add(transform.r, dr), crate::time::add(transform.c, dc)) {
                if mmap.passable(new_r, new_c) {
                    transform.r = new_r;
                    transform.c = new_c;
                }
            }
            actor.action = None;
        },
        ActionType::MoveTo(tr, tc) => {
            let diff_r = tr as i64 - transform.r as i64;
            let diff_c = tc as i64 - transform.c as i64;
            let change_r: i32 = if diff_r < 0 { -1 } else if diff_r > 0 { 1 } else { 0 };
            let change_c: i32 = if diff_c < 0 { -1 } else if diff_c > 0 { 1 } else { 0 };
            let mut committed = false;
            if let (Some(next_r), Some(next_c)) = (crate::time::add(transform.r, change_r), crate::time::add(transform.c, change_c)) {
                if mmap.passable(next_r, next_c) {
                    transform.r = next_r;
                    transform.c = next_c;
                    committed = true;
                    if next_r == tr || next_c == tc {
                        actor.action = None;
                    } else {
                        let ms = actor.get_execution_time();
                        let deadline = if now > u64::MAX - ms {
                            u64::MAX
                        } else {
                            now + ms
                        };
                        actor.action = Some(Action { deadline, t: act.t });
                    }
                }
            }
            if !committed {
                actor.action = None;
            }
        },
    }
}

/// Completes the actions that are due.
pub struct TimeManager;

impl TimeManager {
    /// Advances, at time `now`, the action of every entity that has both an
    /// actor and a position (see `advance_spec`); the others are left alone.
    pub fn run(
        &mut self,
        mmap: &MoveMap,
        actors: &mut Vec<Option<Actor>>,
        transforms: &mut Vec<Option<Transform>>,
        now: u64,
    )
        requires
            mmap.wf(),
            old(actors).len() == old(transforms).len(),
            forall|i: int|
                0 <= i < old(actors).len() && (#[trigger] old(actors)@[i]) is Some
                    ==> old(actors)@[i]->Some_0.wf(),
        ensures
            final(actors).len() == old(actors).len(),
            final(transforms).len() == old(transforms).len(),
            forall|i: int|
                0 <= i < old(actors).len() ==> ((#[trigger] final(actors)@[i]), final(transforms)@[i])
                    == advance_slot(old(actors)@[i], old(transforms)@[i], *mmap, now),
    {
        let n = actors.len();
        let mut i: usize = 0;
        while i < n
            invariant
                mmap.wf(),
                n == actors.len(),
                n == transforms.len(),
                n == old(actors).len(),
                n == old(transforms).len(),
                i <= n,
                forall|k: int|
                    0 <= k < n && (#[trigger] old(actors)@[k]) is Some ==> old(actors)@[k]->Some_0.wf(),
                forall|k: int| i <= k < n ==> (#[trigger] actors@[k]) == old(actors)@[k],
                forall|k: int| i <= k < n ==> (#[trigger] transforms@[k]) == old(transforms)@[k],
                forall|k: int|
                    0 <= k < i ==> ((#[trigger] actors@[k]), transforms@[k]) == advance_slot(
                        old(actors)@[k],
                        old(transforms)@[k],
                        *mmap,
                        now,
                    ),
            decreases n - i,
        {
            if let (Some(a), Some(t)) = (actors[i], transforms[i]) {
                let mut a = a;
                let mut t = t;
                advance(&mut a, &mut t, mmap, now);
                actors.set(i, Some(a));
                transforms.set(i, Some(t));
            }
            i = i + 1;
        }
    }
}

/// `advance_spec` on the components of one entity, where it has both.
pub open spec fn advance_slot(a: Option<Actor>, t: Option<Transform>, grid: MoveMap, now: u64) -> (
    Option<Actor>,
    Option<Transform>,
) {
    match (a, t) {
        (Some(a), Some(t)) => {
            let (a2, t2) = advance_spec(a, t, grid, now);
            (Some(a2), Some(t2))
        },
        _ => (a, t),
    }
}

/// The scheduler moves an entity only onto a passable cell of the grid.
pub proof fn lemma_advance_lands_on_passable(a: Actor, t: Transform, grid: MoveMap, now: u64)
    ensures
        advance_spec(a, t, grid, now).1 == t || grid.is_passable(
            advance_spec(a, t, grid, now).1.r as int,
            advance_spec(a, t, grid, now).1.c as int,
        ),
{
}

/// Chebyshev distance between (`r1`, `c1`) and (`r2`, `c2`).
pub open spec fn chebyshev(r1: int, c1: int, r2: int, c2: int) -> int {
    let dr = if r1 >= r2 { r1 - r2 } else { r2 - r1 };
    let dc = if c1 >= c2 { c1 - c2 } else { c2 - c1 };
    if dr >= dc {
        dr
    } else {
        dc
    }
}

/// No double-booking: asking a busy actor for another action leaves it
/// exactly as it was, so its slot never holds more than the one action.
pub proof fn lemma_no_double_booking(a: Actor, t: ActionType, now: u64)
    requires
        a.action is Some,
    ensures
        issue_spec(a, t, now) == a,
{
}

/// A due relative move whose target cell is off the grid, out of range or
/// impassable leaves the position unchanged, and the slot empty.
pub proof fn lemma_blocked_move_stays(a: Actor, t: Transform, grid: MoveMap, now: u64, dr: i32, dc: i32)
    requires
        a.action is Some,
        a.action->Some_0.t == ActionType::Move(dr, dc),
        a.action->Some_0.deadline <= now,
        !step_open(grid, t, dr as int, dc as int),
    ensures
        advance_spec(a, t, grid, now).1 == t,
        advance_spec(a, t, grid, now).0.action is None,
{
}

/// A due step towards (`tr`, `tc`), from a cell other than the target: where
/// the step is open the Chebyshev distance to the target drops by exactly one,
/// and the slot is cleared exactly when the new row or the new column is the
/// target's; where it is blocked the entity stays and the slot is cleared.
pub proof fn lemma_move_to_converges(a: Actor, t: Transform, grid: MoveMap, now: u64, tr: u32, tc: u32)
    requires
        a.action is Some,
        a.action->Some_0.t == ActionType::MoveTo(tr, tc),
        a.action->Some_0.deadline <= now,
        t.r != tr || t.c != tc,
    ensures
        ({
            let (a2, t2) = advance_spec(a, t, grid, now);
            if step_open(grid, t, sign(tr - t.r), sign(tc - t.c)) {
                &&& chebyshev(t2.r as int, t2.c as int, tr as int, tc as int) == chebyshev(
                    t.r as int,
                    t.c as int,
                    tr as int,
                    tc as int,
                ) - 1
                &&& (a2.action is None <==> (t2.r == tr || t2.c == tc))
            } else {
                &&& t2 == t
                &&& a2.action is None
            }
        }),
{
}

} // verus!
