use vstd::prelude::*;

use crate::world::{order_stage, select_stage, EntityRef, Transform, World, Worker, WorkerTask};

verus! {

/// The selectable role, and whether the entity is selected now.
#[derive(Clone, Copy, Debug, PartialEq, Eq, Structural)]
pub struct Selectable {
    pub selected: bool,
}

/// The single-slot input mailbox: the last event written wins.
#[derive(Clone, Copy, Debug, PartialEq, Eq, Structural)]
pub struct MouseEvent(pub MouseEventT);

/// An input event, in grid cells.
#[derive(Clone, Copy, Debug, PartialEq, Eq, Structural)]
pub enum MouseEventT {
    Empty,
    /// Select what stands in rows `r..=r + w` and columns `c..=c + h`.
    BoxSelect(u32, u32, u32, u32),
    /// Send the selected workers to a cell.
    MoveTo(u32, u32),
    /// Set the selected workers on an entity.
    Activate(EntityRef),
}

/// Whether the last box-select caught any entity.
#[derive(Clone, Copy, Debug, PartialEq, Eq, Structural)]
pub struct IsSomeSelected(pub bool);

impl Default for MouseEventT {
    fn default() -> (e: Self)
        ensures
            e == MouseEventT::Empty,
    {
        MouseEventT::Empty
    }
}

impl Default for MouseEvent {
    fn default() -> (e: Self)
        ensures
            e.0 == MouseEventT::Empty,
    {
        MouseEvent(MouseEventT::Empty)
    }
}

impl Default for IsSomeSelected {
    fn default() -> (f: Self)
        ensures
            !f.0,
    {
        IsSomeSelected(false)
    }
}

/// Whether `t` lies in the box of rows `r..=r + w` and columns `c..=c + h`,
/// both ends included.
pub open spec fn in_box(t: Transform, r: u32, c: u32, w: u32, h: u32) -> bool {
    r <= t.r <= r + w && c <= t.c <= c + h
}

/// The selection after a box-select: each entity with a position and a
/// selection flag is selected exactly when it stands in the box; the others keep
/// what they had.
pub open spec fn box_select(
    sel: Seq<Option<Selectable>>,
    trans: Seq<Option<Transform>>,
    r: u32,
    c: u32,
    w: u32,
    h: u32,
) -> Seq<Option<Selectable>> {
    Seq::new(
        sel.len(),
        |i: int|
            if sel[i] is Some && trans[i] is Some {
                Some(Selectable { selected: in_box(trans[i]->Some_0, r, c, w, h) })
            } else {
                sel[i]
            },
    )
}

/// Whether some entity with a position and a selection flag stands in the box.
pub open spec fn any_in_box(
    sel: Seq<Option<Selectable>>,
    trans: Seq<Option<Transform>>,
    r: u32,
    c: u32,
    w: u32,
    h: u32,
) -> bool {
    exists|i: int|
        0 <= i < sel.len() && (#[trigger] sel[i]) is Some && trans[i] is Some && in_box(
            trans[i]->Some_0,
            r,
            c,
            w,
            h,
        )
}

/// Applies a pending box-select to the selection.
pub struct MouseHandler;

impl MouseHandler {
    /// On a box-select event: selects exactly the entities in the box (see
    /// `box_select`), sets the flag to whether any was caught, and empties the
    /// mailbox. On any other event nothing changes.
    pub fn run(
        &mut self,
        mouse_event: &mut MouseEvent,
        some_selected: &mut IsSomeSelected,
        trans: &Vec<Option<Transform>>,
        selectable: &mut Vec<Option<Selectable>>,
    )
        requires
            old(selectable).len() == trans.len(),
        ensures
            match old(mouse_event).0 {
                MouseEventT::BoxSelect(r, c, w, h) => {
                    &&& final(mouse_event).0 == MouseEventT::Empty
                    &&& final(selectable)@ == box_select(old(selectable)@, trans@, r, c, w, h)
                    &&& final(some_selected).0 == any_in_box(old(selectable)@, trans@, r, c, w, h)
                },
                _ => {
                    &&& *final(mouse_event) == *old(mouse_event)
                    &&& *final(some_selected) == *old(some_selected)
                    &&& final(selectable)@ == old(selectable)@
                },
            },
    {
        if let MouseEventT::BoxSelect(select_r, select_c, select_w, select_h) = mouse_event.0 {
            let ghost sel0 = selectable@;
            let (r, c, w, h) = (select_r as u64, select_c as u64, select_w as u64, select_h as u64);
            let mut any = false;
            let n = selectable.len();
            let mut i: usize = 0;
            while i < n
                invariant
                    n == selectable.len(),
                    n == trans.len(),
                    n == sel0.len(),
                    i <= n,
                    r == select_r,
                    c == select_c,
                    w == select_w,
                    h == select_h,
                    forall|k: int| i <= k < n ==> (#[trigger] selectable@[k]) == sel0[k],
                    forall|k: int|
                        0 <= k < i ==> (#[trigger] selectable@[k]) == box_select(
                            sel0,
                            trans@,
                            select_r,
                            select_c,
                            select_w,
                            select_h,
                        )[k],
                    any == exists|k: int|
                        0 <= k < i && (#[trigger] sel0[k]) is Some && trans@[k] is Some && in_box(
                            trans@[k]->Some_0,
                            select_r,
                            select_c,
                            select_w,
                            select_h,
                        ),
                decreases n - i,
            {
                if let (Some(_), Some(t)) = (selectable[i], trans[i]) {
                    let (tr, tc) = (t.r as u64, t.c as u64);
                    let inside = tr >= r && tr <= r + w && tc >= c && tc <= c + h;
                    selectable.set(i, Some(Selectable { selected: inside }));
                    if inside {
                        any = true;
                    }
                }
                i = i + 1;
            }
            some_selected.0 = any;
            mouse_event.0 = MouseEventT::Empty;
            assert(selectable@ =~= box_select(sel0, trans@, select_r, select_c, select_w, select_h));
        }
    }
}

/// The workers after a task order: every worker that is selected takes `task`.
pub open spec fn assign_task(
    workers: Seq<Option<Worker>>,
    sel: Seq<Option<Selectable>>,
    task: WorkerTask,
) -> Seq<Option<Worker>> {
    Seq::new(
        workers.len(),
        |i: int|
            if workers[i] is Some && sel[i] is Some && sel[i]->Some_0.selected {
                Some(Worker { task })
            } else {
                workers[i]
            },
    )
}

/// The task that an input event orders, if it orders one.
pub open spec fn task_of(e: MouseEventT) -> Option<WorkerTask> {
    match e {
        MouseEventT::Activate(target) => Some(WorkerTask::Mine(target)),
        MouseEventT::MoveTo(r, c) => Some(WorkerTask::MoveTo(r, c)),
        _ => None,
    }
}

/// Turns a pending order into tasks for the selected workers.
pub struct WorkerInputHandler;

impl WorkerInputHandler {
    /// When something is selected and the mailbox holds an order (activate or
    /// move-to), every selected worker takes the ordered task and the mailbox is
    /// emptied. Otherwise nothing changes.
    pub fn run(
        &mut self,
        mouse_event: &mut MouseEvent,
        some_selected: &IsSomeSelected,
        workers: &mut Vec<Option<Worker>>,
        selectable: &Vec<Option<Selectable>>,
    )
        requires
            old(workers).len() == selectable.len(),
        ensures
            match task_of(old(mouse_event).0) {
                Some(task) if some_selected.0 => {
                    &&& final(mouse_event).0 == MouseEventT::Empty
                    &&& final(workers)@ == assign_task(old(workers)@, selectable@, task)
                },
                _ => {
                    &&& *final(mouse_event) == *old(mouse_event)
                    &&& final(workers)@ == old(workers)@
                },
            },
    {
        if !some_selected.0 {
            return;
        }
        let task = match mouse_event.0 {
            MouseEventT::Activate(entity) => WorkerTask::Mine(entity),
            MouseEventT::MoveTo(r, c) => WorkerTask::MoveTo(r, c),
            _ => {
                return;
            },
        };
        let ghost w0 = workers@;
        let n = workers.len();
        let mut i: usize = 0;
        while i < n
            invariant
                n == workers.len(),
                n == selectable.len(),
                n == w0.len(),
                i <= n,
                forall|k: int| i <= k < n ==> (#[trigger] workers@[k]) == w0[k],
                forall|k: int|
                    0 <= k < i ==> (#[trigger] workers@[k]) == assign_task(w0, selectable@, task)[k],
            decreases n - i,
        {
            if let (Some(_), Some(select)) = (workers[i], selectable[i]) {
                if select.selected {
                    workers.set(i, Some(Worker { task }));
                }
            }
            i = i + 1;
        }
        mouse_event.0 = MouseEventT::Empty;
        assert(workers@ =~= assign_task(w0, selectable@, task));
    }
}

/// Runs the input systems on `world`: the box-select first, then the task
/// assignment, which reads the selection that the first left.
pub fn run_systems(world: &mut World)
    requires
        old(world).wf(),
    ensures
        final(world).wf(),
        final(world).transforms == old(world).transforms,
        final(world).actors == old(world).actors,
        final(world).map == old(world).map,
        final(world).move_map == old(world).move_map,
        ({
            let (e1, f1, sel1) = select_stage(
                old(world).mouse_event,
                old(world).some_selected,
                old(world).selectables@,
                old(world).transforms@,
            );
            let (e2, w2) = order_stage(e1, f1, old(world).workers@, sel1);
            &&& final(world).some_selected == f1
            &&& final(world).selectables@ == sel1
            &&& final(world).mouse_event == e2
            &&& final(world).workers@ == w2
        }),
{
    let mut mh = MouseHandler;
    let mut wih = WorkerInputHandler;
    mh.run(&mut world.mouse_event, &mut world.some_selected, &world.transforms, &mut world.selectables);
    wih.run(&mut world.mouse_event, &world.some_selected, &mut world.workers, &world.selectables);
}

/// After a box-select an entity is selected exactly when it has a position
/// and a selection flag and stands in the box, both ends included; and the
/// flag is set exactly when at least one entity is selected.
pub proof fn lemma_box_select_exact(
    sel: Seq<Option<Selectable>>,
    trans: Seq<Option<Transform>>,
    r: u32,
    c: u32,
    w: u32,
    h: u32,
)
    requires
        sel.len() == trans.len(),
    ensures
        forall|i: int|
            0 <= i < sel.len() && trans[i] is Some && sel[i] is Some ==> ((#[trigger] box_select(
                sel,
                trans,
                r,
                c,
                w,
                h,
            )[i])->Some_0.selected <==> (r <= trans[i]->Some_0.r <= r + w && c
                <= trans[i]->Some_0.c <= c + h)),
        any_in_box(sel, trans, r, c, w, h) <==> exists|i: int|
            0 <= i < sel.len() && trans[i] is Some && (#[trigger] box_select(sel, trans, r, c, w, h)[i]) is Some
                && box_select(sel, trans, r, c, w, h)[i]->Some_0.selected,
{
    let s = box_select(sel, trans, r, c, w, h);
    if any_in_box(sel, trans, r, c, w, h) {
        let i = choose|i: int|
            0 <= i < sel.len() && (#[trigger] sel[i]) is Some && trans[i] is Some && in_box(
                trans[i]->Some_0,
                r,
                c,
                w,
                h,
            );
        assert(s[i] is Some && s[i]->Some_0.selected);
    }
}

} // verus!
