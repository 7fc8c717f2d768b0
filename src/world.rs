use vstd::prelude::*;

use crate::input::{
    any_in_box, assign_task, box_select, task_of, IsSomeSelected, MouseEvent, MouseEventT,
    Selectable,
};
use crate::map::{Color, TileMap};
use crate::rng::range_i32;
use crate::time::{
    advance_slot, advance_spec, issue_spec, lemma_advance_lands_on_passable, ActionType, Actor,
    TimeManager,
};

verus! {

/// Where an entity stands, and how it is drawn.
#[derive(Clone, Copy, Debug, PartialEq, Eq, Structural)]
pub struct Transform {
    pub r: u32,
    pub c: u32,
    pub ch: u16,
    pub color: Color,
}

/// A reference to an entity of the store: its index in every component column.
#[derive(Clone, Copy, Debug, PartialEq, Eq, Structural)]
pub struct EntityRef {
    pub index: usize,
}

/// What a worker means to do.
#[derive(Clone, Copy, Debug, PartialEq, Eq, Structural)]
pub enum WorkerTask {
    /// Wander one random step at a time.
    Idle,
    /// Walk towards another entity, wherever it stands now.
    Mine(EntityRef),
    /// Walk towards a fixed cell.
    MoveTo(u32, u32),
}

/// The worker role: an entity that holds a task.
#[derive(Clone, Copy, Debug, PartialEq, Eq, Structural)]
pub struct Worker {
    pub task: WorkerTask,
}

/// Whether some entity of `trans` stands on (`r`, `c`).
pub open spec fn occupied(trans: Seq<Option<Transform>>, r: int, c: int) -> bool {
    exists|i: int|
        0 <= i < trans.len() && (#[trigger] trans[i]) is Some && trans[i]->Some_0.r == r
            && trans[i]->Some_0.c == c
}

/// The walkability snapshot built from `terrain` and the entities of `trans`:
/// a cell is passable when its tile is walkable and nobody stands on it.
pub open spec fn spatial_grid(terrain: Seq<Seq<crate::map::Tile>>, trans: Seq<Option<Transform>>) -> Seq<Seq<bool>> {
    Seq::new(
        terrain.len(),
        |r: int| Seq::new(terrain[r].len(), |c: int| terrain[r][c].walkable && !occupied(trans, r, c)),
    )
}

/// The per-tick walkability snapshot: `true` marks a passable cell.
pub struct MoveMap {
    map: Vec<Vec<bool>>,
    rows: usize,
    cols: usize,
}

impl View for MoveMap {
    type V = Seq<Seq<bool>>;

    closed spec fn view(&self) -> Seq<Seq<bool>> {
        Seq::new(self.map@.len(), |i: int| self.map@[i]@)
    }
}

impl MoveMap {
    pub closed spec fn wf(&self) -> bool {
        &&& self.map@.len() == self.rows
        &&& forall|i: int| 0 <= i < self.rows ==> #[trigger] self.map@[i]@.len() == self.cols
    }

    /// Whether (`r`, `c`) lies on the grid and is passable.
    pub open spec fn is_passable(&self, r: int, c: int) -> bool {
        0 <= r < self@.len() && 0 <= c < self@[r].len() && self@[r][c]
    }

    /// A grid of the given shape with every cell passable.
    pub fn new(rows: usize, cols: usize) -> (m: Self)
        ensures
            m.wf(),
            m@.len() == rows,
            forall|r: int| 0 <= r < rows ==> (#[trigger] m@[r]).len() == cols,
            forall|r: int, c: int| 0 <= r < rows && 0 <= c < cols ==> #[trigger] m@[r][c],
    {
        let mut map: Vec<Vec<bool>> = Vec::new();
        let mut i: usize = 0;
        while i < rows
            invariant
                i <= rows,
                map@.len() == i,
                forall|k: int| 0 <= k < i ==> #[trigger] map@[k]@.len() == cols,
                forall|k: int, c: int| 0 <= k < i && 0 <= c < cols ==> #[trigger] map@[k]@[c],
            decreases rows - i,
        {
            map.push(vec![true; cols]);
            i = i + 1;
        }
        let m = MoveMap { map, rows, cols };
        assert forall|r: int| 0 <= r < rows implies (#[trigger] m@[r]).len() == cols by {
            assert(m@[r] == m.map@[r]@);
        }
        m
    }

    pub fn rows(&self) -> (n: usize)
        requires
            self.wf(),
        ensures
            n == self@.len(),
    {
        self.rows
    }

    pub fn cols(&self) -> (n: usize)
        requires
            self.wf(),
        ensures
            forall|r: int| 0 <= r < self@.len() ==> (#[trigger] self@[r]).len() == n,
    {
        self.cols
    }

    /// Whether (`r`, `c`) lies on the grid and is passable.
    pub fn passable(&self, r: u32, c: u32) -> (b: bool)
        requires
            self.wf(),
        ensures
            b == self.is_passable(r as int, c as int),
    {
        let (r, c) = (r as usize, c as usize);
        r < self.rows && c < self.cols && self.map[r][c]
    }
}

/// Rebuilds the walkability snapshot from the terrain and the entities' positions.
pub struct MapManager;

impl MapManager {
    /// Makes `mmap` the snapshot of `map` and `transforms`: of the terrain's
    /// shape, a cell passable exactly when its tile is walkable and no entity
    /// stands on it. What `mmap` held before plays no part.
    pub fn run(&mut self, mmap: &mut MoveMap, map: &TileMap, transforms: &Vec<Option<Transform>>)
        requires
            map.wf(),
        ensures
            final(mmap).wf(),
            final(mmap)@ == spatial_grid(map@, transforms@),
    {
        proof {
            map.lemma_wf_shape();
        }
        let rows = map.rows();
        let cols = map.cols();
        let mut grid: Vec<Vec<bool>> = Vec::new();
        let mut r: u32 = 0;
        while r < rows
            invariant
                map.wf(),
                rows == map.rows_spec(),
                cols == map.cols_spec(),
                is_grid_of(map, rows, cols),
                r <= rows,
                grid@.len() == r,
                forall|k: int| 0 <= k < r ==> #[trigger] grid@[k]@.len() == cols,
                forall|k: int, c: int|
                    0 <= k < r && 0 <= c < cols ==> #[trigger] grid@[k]@[c] == map@[k][c].walkable,
            decreases rows - r,
        {
            let mut row: Vec<bool> = Vec::new();
            let mut c: u32 = 0;
            while c < cols
                invariant
                    map.wf(),
                    rows == map.rows_spec(),
                    cols == map.cols_spec(),
                    r < rows,
                    c <= cols,
                    row@.len() == c,
                    forall|k: int| 0 <= k < c ==> #[trigger] row@[k] == map@[r as int][k].walkable,
                decreases cols - c,
            {
                row.push(map.at(r, c).walkable);
                c = c + 1;
            }
            grid.push(row);
            r = r + 1;
        }
        let mut i: usize = 0;
        while i < transforms.len()
            invariant
                map.wf(),
                rows == map.rows_spec(),
                cols == map.cols_spec(),
                is_grid_of(map, rows, cols),
                i <= transforms.len(),
                grid@.len() == rows,
                forall|k: int| 0 <= k < rows ==> #[trigger] grid@[k]@.len() == cols,
                forall|k: int, c: int|
                    0 <= k < rows && 0 <= c < cols ==> #[trigger] grid@[k]@[c] == (
                    map@[k][c].walkable && !occupied(transforms@.subrange(0, i as int), k, c)),
            decreases transforms.len() - i,
        {
            if let Some(t) = transforms[i] {
                if t.r < rows && t.c < cols {
                    grid[t.r as usize].set(t.c as usize, false);
                }
            }
            proof {
                let pre = transforms@.subrange(0, i as int);
                let post = transforms@.subrange(0, i + 1);
                assert forall|k: int, c: int| 0 <= k < rows && 0 <= c < cols implies #[trigger] grid@[k]@[c] == (
                    map@[k][c].walkable && !occupied(post, k, c)) by {
                    if occupied(pre, k, c) {
                        let j = choose|j: int|
                            0 <= j < pre.len() && (#[trigger] pre[j]) is Some && pre[j]->Some_0.r == k
                                && pre[j]->Some_0.c == c;
                        assert(post[j] == pre[j]);
                    }
                    if occupied(post, k, c) && !occupied(pre, k, c) {
                        let j = choose|j: int|
                            0 <= j < post.len() && (#[trigger] post[j]) is Some && post[j]->Some_0.r == k
                                && post[j]->Some_0.c == c;
                        if j < i {
                            assert(pre[j] == post[j]);
                        }
                    }
                    if transforms@[i as int] is Some {
                        let t = transforms@[i as int]->Some_0;
                        if t.r == k && t.c == c {
                            assert(post[i as int] == transforms@[i as int]);
                        }
                    }
                }
            }
            i = i + 1;
        }
        assert(transforms@.subrange(0, transforms@.len() as int) == transforms@);
        mmap.map = grid;
        mmap.rows = rows as usize;
        mmap.cols = cols as usize;
        assert(mmap@ =~= spatial_grid(map@, transforms@)) by {
            assert forall|r: int| 0 <= r < rows implies #[trigger] mmap@[r] =~= spatial_grid(map@, transforms@)[r] by {
                assert(map@[r].len() == cols);
            }
        }
    }
}

/// Whether every entity that has a position stands on the `rows` by `cols` map.
pub open spec fn positions_on_map(trans: Seq<Option<Transform>>, rows: int, cols: int) -> bool {
    forall|i: int|
        0 <= i < trans.len() && (#[trigger] trans[i]) is Some ==> trans[i]->Some_0.r < rows
            && trans[i]->Some_0.c < cols
}

/// Whether `map` is a grid of `rows` rows of `cols` tiles.
pub open spec fn is_grid_of(map: &TileMap, rows: u32, cols: u32) -> bool {
    crate::map::is_grid(map@, rows as int, cols as int)
}

/// Rebuilding the snapshot twice, with no entity moved in between, gives the
/// same grid both times, whatever either grid held before.
pub proof fn lemma_rebuild_idempotent(
    first: MoveMap,
    second: MoveMap,
    map: TileMap,
    transforms: Seq<Option<Transform>>,
)
    requires
        first@ == spatial_grid(map@, transforms),
        second@ == spatial_grid(map@, transforms),
    ensures
        first@ == second@,
{
}

/// The row and column offsets of the cardinal step numbered `roll`:
/// down, up, right, left for 0, 1, 2, 3.
pub open spec fn cardinal(roll: int) -> (i32, i32) {
    if roll == 0 {
        (1i32, 0i32)
    } else if roll == 1 {
        (-1i32, 0i32)
    } else if roll == 2 {
        (0i32, 1i32)
    } else {
        (0i32, -1i32)
    }
}

/// The cardinal step numbered `roll`.
pub fn direction(roll: i32) -> (d: (i32, i32))
    requires
        0 <= roll < 4,
    ensures
        d == cardinal(roll as int),
{
    if roll == 0 {
        (1, 0)
    } else if roll == 1 {
        (-1, 0)
    } else if roll == 2 {
        (0, 1)
    } else {
        (0, -1)
    }
}

/// The action that `task` asks for, given the positions `trans` and the
/// direction number `roll` for a wandering step; `None` where a mining target
/// has no position.
pub open spec fn decide_spec(task: WorkerTask, trans: Seq<Option<Transform>>, roll: int) -> Option<ActionType> {
    match task {
        WorkerTask::Idle => Some(ActionType::Move(cardinal(roll).0, cardinal(roll).1)),
        WorkerTask::Mine(target) => {
            if target.index < trans.len() && trans[target.index as int] is Some {
                let t = trans[target.index as int]->Some_0;
                Some(ActionType::MoveTo(t.r, t.c))
            } else {
                None
            }
        },
        WorkerTask::MoveTo(r, c) => Some(ActionType::MoveTo(r, c)),
    }
}

/// The action that `task` asks for (see `decide_spec`).
pub fn decide(task: WorkerTask, transforms: &Vec<Option<Transform>>, roll: i32) -> (a: Option<ActionType>)
    requires
        0 <= roll < 4,
    ensures
        a == decide_spec(task, transforms@, roll as int),
{
    match task {
        WorkerTask::Idle => {
            let (dr, dc) = direction(roll);
            Some(ActionType::Move(dr, dc))
        },
        WorkerTask::Mine(target) => {
            if target.index < transforms.len() {
                match transforms[target.index] {
                    Some(t) => Some(ActionType::MoveTo(t.r, t.c)),
                    None => None,
                }
            } else {
                None
            }
        },
        WorkerTask::MoveTo(r, c) => Some(ActionType::MoveTo(r, c)),
    }
}

/// The actor slot of one entity after the decision step: a worker that is
/// not busy starts the action its task asks for.
pub open spec fn decided(
    a: Option<Actor>,
    w: Option<Worker>,
    trans: Seq<Option<Transform>>,
    roll: int,
    now: u64,
) -> Option<Actor> {
    match (a, w) {
        (Some(a), Some(w)) => match decide_spec(w.task, trans, roll) {
            Some(t) => Some(issue_spec(a, t, now)),
            None => Some(a),
        },
        _ => a,
    }
}

/// Whether `after` is the actor slot `a` after the decision step for some
/// direction number.
pub open spec fn decision_of(
    after: Option<Actor>,
    a: Option<Actor>,
    w: Option<Worker>,
    trans: Seq<Option<Transform>>,
    now: u64,
) -> bool {
    exists|roll: int| 0 <= roll < 4 && after == #[trigger] decided(a, w, trans, roll, now)
}

/// Whether (`after_a`, `after_t`) are the actor slot and position after one
/// decision step and one scheduler step from (`a`, `t`), for some direction
/// number.
pub open spec fn ticked_of(
    after_a: Option<Actor>,
    after_t: Option<Transform>,
    a: Option<Actor>,
    t: Option<Transform>,
    w: Option<Worker>,
    trans: Seq<Option<Transform>>,
    grid: MoveMap,
    now: u64,
) -> bool {
    exists|roll: int|
        0 <= roll < 4 && (after_a, after_t) == advance_slot(
            #[trigger] decided(a, w, trans, roll, now),
            t,
            grid,
            now,
        )
}

/// Turns each worker's task into a timed action.
pub struct WorkManager;

impl WorkManager {
    /// For every entity that is a worker and an actor, and not busy, starts at
    /// time `now` the action that its task asks for (see `decided`); a wandering
    /// worker draws its direction from `rng`, uniformly among the four.
    pub fn run(
        &mut self,
        transforms: &Vec<Option<Transform>>,
        workers: &Vec<Option<Worker>>,
        actors: &mut Vec<Option<Actor>>,
        now: u64,
        rng: &mut rltk::RandomNumberGenerator,
    )
        requires
            old(actors).len() == workers.len(),
            actors_wf(old(actors)@),
        ensures
            final(actors).len() == old(actors).len(),
            actors_wf(final(actors)@),
            forall|i: int|
                0 <= i < old(actors).len() ==> decision_of(
                    #[trigger] final(actors)@[i],
                    old(actors)@[i],
                    workers@[i],
                    transforms@,
                    now,
                ),
    {
        let n = actors.len();
        let mut i: usize = 0;
        while i < n
            invariant
                n == actors.len(),
                n == workers.len(),
                n == old(actors).len(),
                i <= n,
                actors_wf(actors@),
                forall|k: int| i <= k < n ==> (#[trigger] actors@[k]) == old(actors)@[k],
                forall|k: int|
                    0 <= k < i ==> decision_of(
                        #[trigger] actors@[k],
                        old(actors)@[k],
                        workers@[k],
                        transforms@,
                        now,
                    ),
            decreases n - i,
        {
            let ghost before = actors@;
            let mut roll: i32 = 0;
            if let (Some(a), Some(w)) = (actors[i], workers[i]) {
                if !a.is_busy() {
                    if let WorkerTask::Idle = w.task {
                        roll = range_i32(rng, 0, 4);
                    }
                    if let Some(t) = decide(w.task, transforms, roll) {
                        let mut a = a;
                        a.new_action(t, now);
                        actors.set(i, Some(a));
                    }
                }
            }
            assert(actors@[i as int] == decided(old(actors)@[i as int], workers@[i as int], transforms@, roll as int, now));
            assert(decision_of(actors@[i as int], old(actors)@[i as int], workers@[i as int], transforms@, now));
            assert forall|k: int| 0 <= k < i + 1 implies decision_of(
                #[trigger] actors@[k],
                old(actors)@[k],
                workers@[k],
                transforms@,
                now,
            ) by {
                if k < i {
                    assert(actors@[k] == before[k]);
                }
            }
            i = i + 1;
        }
    }
}

/// Every actor present is well formed.
pub open spec fn actors_wf(actors: Seq<Option<Actor>>) -> bool {
    forall|i: int| 0 <= i < actors.len() && (#[trigger] actors[i]) is Some ==> actors[i]->Some_0.wf()
}

/// The speed of a newly created worker, in actions per second.
pub const WORKER_SPEED: i32 = 2;

/// The entity store and the shared state of one simulation: one column per
/// component (entry `i` of each belongs to entity `i`), the input mailbox, the
/// selection flag, the terrain and the walkability snapshot.
pub struct World {
    pub transforms: Vec<Option<Transform>>,
    pub workers: Vec<Option<Worker>>,
    pub selectables: Vec<Option<Selectable>>,
    pub actors: Vec<Option<Actor>>,
    pub mouse_event: MouseEvent,
    pub some_selected: IsSomeSelected,
    pub map: TileMap,
    pub move_map: MoveMap,
}

/// The mailbox, the flag and the selection after the selection step.
pub open spec fn select_stage(
    e: MouseEvent,
    f: IsSomeSelected,
    sel: Seq<Option<Selectable>>,
    trans: Seq<Option<Transform>>,
) -> (MouseEvent, IsSomeSelected, Seq<Option<Selectable>>) {
    match e.0 {
        MouseEventT::BoxSelect(r, c, w, h) => (
            MouseEvent(MouseEventT::Empty),
            IsSomeSelected(any_in_box(sel, trans, r, c, w, h)),
            box_select(sel, trans, r, c, w, h),
        ),
        _ => (e, f, sel),
    }
}

/// The mailbox and the workers after the task assignment step.
pub open spec fn order_stage(
    e: MouseEvent,
    f: IsSomeSelected,
    workers: Seq<Option<Worker>>,
    sel: Seq<Option<Selectable>>,
) -> (MouseEvent, Seq<Option<Worker>>) {
    match task_of(e.0) {
        Some(task) if f.0 => (MouseEvent(MouseEventT::Empty), assign_task(workers, sel, task)),
        _ => (e, workers),
    }
}

impl World {
    pub open spec fn wf(&self) -> bool {
        &&& self.workers.len() == self.transforms.len()
        &&& self.selectables.len() == self.transforms.len()
        &&& self.actors.len() == self.transforms.len()
        &&& self.map.wf()
        &&& self.move_map.wf()
        &&& actors_wf(self.actors@)
    }

    /// A store with no entity on `map`, an empty mailbox, nothing selected and
    /// every cell of the snapshot passable.
    pub fn new(map: TileMap) -> (w: Self)
        requires
            map.wf(),
        ensures
            w.wf(),
            w.transforms@.len() == 0,
            w.mouse_event.0 == MouseEventT::Empty,
            !w.some_selected.0,
            w.map == map,
            w.move_map@.len() == map.rows_spec(),
            forall|r: int, c: int|
                0 <= r < map.rows_spec() && 0 <= c < map.cols_spec() ==> #[trigger] w.move_map.is_passable(r, c),
    {
        let rows = map.rows() as usize;
        let cols = map.cols() as usize;
        let move_map = MoveMap::new(rows, cols);
        World {
            transforms: Vec::new(),
            workers: Vec::new(),
            selectables: Vec::new(),
            actors: Vec::new(),
            mouse_event: MouseEvent(MouseEventT::Empty),
            some_selected: IsSomeSelected(false),
            map,
            move_map,
        }
    }

    /// The number of entities.
    pub fn len(&self) -> (n: usize)
        requires
            self.wf(),
        ensures
            n == self.transforms@.len(),
    {
        self.transforms.len()
    }

    /// Adds an idle, unselected worker at (`r_start`, `c_start`), drawn as a red
    /// `@`, acting `WORKER_SPEED` times a second, and returns its reference.
    pub fn create_worker(&mut self, r_start: u32, c_start: u32) -> (e: EntityRef)
        requires
            old(self).wf(),
        ensures
            final(self).wf(),
            e.index == old(self).transforms@.len(),
            final(self).transforms@ == old(self).transforms@.push(
                Some(Transform { r: r_start, c: c_start, ch: 64, color: Color::Red }),
            ),
            final(self).workers@ == old(self).workers@.push(Some(Worker { task: WorkerTask::Idle })),
            final(self).selectables@ == old(self).selectables@.push(
                Some(Selectable { selected: false }),
            ),
            final(self).actors@ == old(self).actors@.push(
                Some(Actor { speed: WORKER_SPEED, action: None }),
            ),
            final(self).mouse_event == old(self).mouse_event,
            final(self).some_selected == old(self).some_selected,
            final(self).map == old(self).map,
            final(self).move_map == old(self).move_map,
    {
        let index = self.transforms.len();
        self.transforms.push(
            Some(Transform { r: r_start, c: c_start, ch: '@' as u16, color: Color::Red }),
        );
        self.workers.push(Some(Worker { task: WorkerTask::Idle }));
        self.selectables.push(Some(Selectable { selected: false }));
        self.actors.push(Some(Actor::new(WORKER_SPEED)));
        EntityRef { index }
    }

    /// One tick at time `now`: the input systems, then the rebuild of the
    /// snapshot from the positions, then the decisions, then the completion of
    /// the actions that are due, which read that snapshot.
    pub fn tick(&mut self, now: u64, rng: &mut rltk::RandomNumberGenerator)
        requires
            old(self).wf(),
        ensures
            final(self).wf(),
            final(self).transforms@.len() == old(self).transforms@.len(),
            final(self).map == old(self).map,
            final(self).move_map@ == spatial_grid(old(self).map@, old(self).transforms@),
            positions_on_map(old(self).transforms@, old(self).map.rows_spec(), old(self).map.cols_spec())
                ==> positions_on_map(final(self).transforms@, old(self).map.rows_spec(), old(self).map.cols_spec()),
            ({
                let (e1, f1, sel1) = select_stage(
                    old(self).mouse_event,
                    old(self).some_selected,
                    old(self).selectables@,
                    old(self).transforms@,
                );
                let (e2, w2) = order_stage(e1, f1, old(self).workers@, sel1);
                &&& final(self).some_selected == f1
                &&& final(self).selectables@ == sel1
                &&& final(self).mouse_event == e2
                &&& final(self).workers@ == w2
                &&& forall|i: int|
                    0 <= i < old(self).transforms@.len() ==> ticked_of(
                        #[trigger] final(self).actors@[i],
                        final(self).transforms@[i],
                        old(self).actors@[i],
                        old(self).transforms@[i],
                        w2[i],
                        old(self).transforms@,
                        final(self).move_map,
                        now,
                    )
            }),
    {
        crate::input::run_systems(self);
        let mut map_manager = MapManager;
        let mut wm = WorkManager;
        let mut tm = TimeManager;
        map_manager.run(&mut self.move_map, &self.map, &self.transforms);
        let ghost actors0 = self.actors@;
        let ghost transforms0 = self.transforms@;
        wm.run(&self.transforms, &self.workers, &mut self.actors, now, rng);
        let ghost after_decision = self.actors@;
        tm.run(&self.move_map, &mut self.actors, &mut self.transforms, now);
        proof {
            assert forall|i: int| 0 <= i < self.actors@.len() && (#[trigger] self.actors@[i]) is Some
                implies self.actors@[i]->Some_0.wf() by {
                assert(after_decision[i] is Some);
            }
            assert forall|i: int| 0 <= i < self.actors@.len() implies ticked_of(
                #[trigger] self.actors@[i],
                self.transforms@[i],
                actors0[i],
                transforms0[i],
                self.workers@[i],
                transforms0,
                self.move_map,
                now,
            ) by {
                assert(decision_of(after_decision[i], actors0[i], self.workers@[i], transforms0, now));
                let roll = choose|roll: int|
                    0 <= roll < 4 && after_decision[i] == #[trigger] decided(
                        actors0[i],
                        self.workers@[i],
                        transforms0,
                        roll,
                        now,
                    );
                assert(advance_slot(after_decision[i], transforms0[i], self.move_map, now) == advance_slot(
                    decided(actors0[i], self.workers@[i], transforms0, roll, now),
                    transforms0[i],
                    self.move_map,
                    now,
                ));
            }
            let rows = self.map.rows_spec();
            let cols = self.map.cols_spec();
            self.map.lemma_wf_shape();
            if positions_on_map(transforms0, rows, cols) {
                assert forall|i: int|
                    0 <= i < self.transforms@.len() && (#[trigger] self.transforms@[i]) is Some implies self.transforms@[i]->Some_0.r
                        < rows && self.transforms@[i]->Some_0.c < cols by {
                    assert((self.actors@[i], self.transforms@[i]) == advance_slot(
                        after_decision[i],
                        transforms0[i],
                        self.move_map,
                        now,
                    ));
                    assert(transforms0[i] is Some);
                    if after_decision[i] is Some {
                        let a = after_decision[i]->Some_0;
                        let t = transforms0[i]->Some_0;
                        lemma_advance_lands_on_passable(a, t, self.move_map, now);
                        let t2 = advance_spec(a, t, self.move_map, now).1;
                        if t2 != t {
                            assert(self.move_map@[t2.r as int].len() == self.map@[t2.r as int].len());
                        }
                    }
                }
            }
        }
    }
}

/// The four direction numbers give the four cardinal unit steps, each a
/// different one, so a uniform draw of the number is a uniform draw of the
/// direction.
pub proof fn lemma_cardinal_directions(a: int, b: int)
    requires
        0 <= a < 4,
        0 <= b < 4,
    ensures
        cardinal(a).0 * cardinal(a).0 + cardinal(a).1 * cardinal(a).1 == 1,
        a != b ==> cardinal(a) != cardinal(b),
{
    if a == 0 {
        assert(cardinal(a) == (1i32, 0i32));
    } else if a == 1 {
        assert(cardinal(a) == (-1i32, 0i32));
    } else if a == 2 {
        assert(cardinal(a) == (0i32, 1i32));
    } else {
        assert(cardinal(a) == (0i32, -1i32));
    }
}

/// A busy actor is left alone by the decision step, whatever the task.
pub proof fn lemma_busy_actor_not_rebooked(
    a: Actor,
    w: Option<Worker>,
    trans: Seq<Option<Transform>>,
    roll: int,
    now: u64,
)
    requires
        a.action is Some,
    ensures
        decided(Some(a), w, trans, roll, now) == Some(a),
{
}

} // verus!
