use rltk::RandomNumberGenerator;
use worker_sim::input::{IsSomeSelected, MouseEvent, MouseEventT, MouseHandler, Selectable, WorkerInputHandler};
use worker_sim::map::{blank_tile, clear_room, default_wall, Color, MapGenerator, TileMap};
use worker_sim::time::{add, advance, normalize, Action, ActionType, Actor, TimeManager};
use worker_sim::world::{
    decide, direction, EntityRef, MapManager, MoveMap, Transform, WorkManager, Worker, WorkerTask, World,
};

fn open_map(rows: usize, cols: usize) -> TileMap {
    let mut m = TileMap::new(rows, cols);
    for r in 0..rows {
        for c in 0..cols {
            m.set(r, c, blank_tile());
        }
    }
    m
}

fn at(r: u32, c: u32) -> Transform {
    Transform { r, c, ch: '@' as u16, color: Color::Red }
}

fn grid_of(map: &TileMap, trans: &Vec<Option<Transform>>) -> MoveMap {
    let mut g = MoveMap::new(0, 0);
    MapManager.run(&mut g, map, trans);
    g
}

#[test]
fn move_to_scenario_reaches_target_after_three_deadlines() {
    let mut world = World::new(open_map(20, 20));
    let a = world.create_worker(10, 10);
    world.actors[a.index] = Some(Actor::new(1));
    world.workers[a.index] = Some(Worker { task: WorkerTask::MoveTo(10, 13) });
    let mut rng = RandomNumberGenerator::seeded(7);
    let mut deadlines_passed = 0;
    let mut now: u64 = 0;
    while deadlines_passed < 3 {
        let due = matches!(world.actors[0], Some(Actor { action: Some(Action { deadline, .. }), .. }) if deadline <= now);
        world.tick(now, &mut rng);
        if due {
            deadlines_passed += 1;
        }
        now += 1000;
        assert!(now < 100_000);
    }
    let t = world.transforms[0].unwrap();
    assert_eq!((t.r, t.c), (10, 13));
    assert!(!world.actors[0].unwrap().is_busy());
}

#[test]
fn box_select_scenario_selects_inside_and_boundary() {
    let trans = vec![Some(at(5, 5)), Some(at(7, 7)), Some(at(8, 8))];
    let mut sel = vec![Some(Selectable { selected: false }); 3];
    let mut ev = MouseEvent(MouseEventT::BoxSelect(5, 5, 2, 2));
    let mut flag = IsSomeSelected(false);
    MouseHandler.run(&mut ev, &mut flag, &trans, &mut sel);
    let picked: Vec<bool> = sel.iter().map(|s| s.unwrap().selected).collect();
    assert_eq!(picked, vec![true, true, false]);
    assert!(flag.0);
    assert_eq!(ev.0, MouseEventT::Empty);
}

#[test]
fn box_select_catching_nothing_clears_flag_and_selection() {
    let trans = vec![Some(at(1, 1)), None, Some(at(30, 30))];
    let mut sel = vec![Some(Selectable { selected: true }), Some(Selectable { selected: true }), None];
    let mut ev = MouseEvent(MouseEventT::BoxSelect(10, 10, 3, 3));
    let mut flag = IsSomeSelected(true);
    MouseHandler.run(&mut ev, &mut flag, &trans, &mut sel);
    assert!(!flag.0);
    assert_eq!(sel[0], Some(Selectable { selected: false }));
    // no position: keeps its flag
    assert_eq!(sel[1], Some(Selectable { selected: true }));
    assert_eq!(sel[2], None);
}

#[test]
fn box_select_at_the_largest_coordinates_does_not_overflow() {
    let trans = vec![Some(at(u32::MAX, u32::MAX))];
    let mut sel = vec![Some(Selectable { selected: false })];
    let mut ev = MouseEvent(MouseEventT::BoxSelect(u32::MAX - 1, u32::MAX - 1, u32::MAX, u32::MAX));
    let mut flag = IsSomeSelected(false);
    MouseHandler.run(&mut ev, &mut flag, &trans, &mut sel);
    assert!(flag.0);
    assert!(sel[0].unwrap().selected);
}

#[test]
fn other_events_leave_selection_alone() {
    let trans = vec![Some(at(1, 1))];
    let mut sel = vec![Some(Selectable { selected: true })];
    let mut ev = MouseEvent(MouseEventT::MoveTo(3, 4));
    let mut flag = IsSomeSelected(true);
    MouseHandler.run(&mut ev, &mut flag, &trans, &mut sel);
    assert_eq!(ev.0, MouseEventT::MoveTo(3, 4));
    assert!(flag.0);
    assert!(sel[0].unwrap().selected);
}

#[test]
fn orders_go_to_selected_workers_only_and_are_consumed() {
    let sel = vec![Some(Selectable { selected: true }), Some(Selectable { selected: false }), None];
    let mut workers = vec![Some(Worker { task: WorkerTask::Idle }); 3];
    let mut ev = MouseEvent(MouseEventT::MoveTo(3, 4));
    WorkerInputHandler.run(&mut ev, &IsSomeSelected(true), &mut workers, &sel);
    assert_eq!(workers[0].unwrap().task, WorkerTask::MoveTo(3, 4));
    assert_eq!(workers[1].unwrap().task, WorkerTask::Idle);
    assert_eq!(workers[2].unwrap().task, WorkerTask::Idle);
    assert_eq!(ev.0, MouseEventT::Empty);

    let mut ev = MouseEvent(MouseEventT::Activate(EntityRef { index: 2 }));
    WorkerInputHandler.run(&mut ev, &IsSomeSelected(true), &mut workers, &sel);
    assert_eq!(workers[0].unwrap().task, WorkerTask::Mine(EntityRef { index: 2 }));
    assert_eq!(ev.0, MouseEventT::Empty);
}

#[test]
fn orders_wait_while_nothing_is_selected() {
    let sel = vec![Some(Selectable { selected: true })];
    let mut workers = vec![Some(Worker { task: WorkerTask::Idle })];
    let mut ev = MouseEvent(MouseEventT::MoveTo(3, 4));
    WorkerInputHandler.run(&mut ev, &IsSomeSelected(false), &mut workers, &sel);
    assert_eq!(workers[0].unwrap().task, WorkerTask::Idle);
    assert_eq!(ev.0, MouseEventT::MoveTo(3, 4));
}

#[test]
fn a_busy_actor_is_never_double_booked() {
    let mut a = Actor::new(2);
    assert!(!a.is_busy());
    assert!(a.new_action(ActionType::Move(1, 0), 100));
    assert!(a.is_busy());
    let before = a;
    assert!(!a.new_action(ActionType::MoveTo(9, 9), 200));
    assert_eq!(a, before);
    assert_eq!(a.action, Some(Action { deadline: 600, t: ActionType::Move(1, 0) }));
}

#[test]
fn execution_time_is_a_thousand_over_speed() {
    assert_eq!(Actor::new(1).get_execution_time(), 1000);
    assert_eq!(Actor::new(2).get_execution_time(), 500);
    assert_eq!(Actor::new(3).get_execution_time(), 333);
    assert_eq!(Actor::new(2000).get_execution_time(), 0);
}

#[test]
fn deadline_saturates_at_the_end_of_time() {
    let mut a = Actor::new(1);
    assert!(a.new_action(ActionType::Move(0, 1), u64::MAX - 10));
    assert_eq!(a.action.unwrap().deadline, u64::MAX);
}

#[test]
fn add_and_normalize() {
    assert_eq!(add(5, -2), Some(3));
    assert_eq!(add(5, 2), Some(7));
    assert_eq!(add(5, 0), Some(5));
    assert_eq!(add(0, -1), None);
    assert_eq!(add(u32::MAX, 1), None);
    assert_eq!(add(0, i32::MIN), None);
    assert_eq!(normalize(-7), -1);
    assert_eq!(normalize(0), 0);
    assert_eq!(normalize(42), 1);
    assert_eq!(normalize(i32::MIN), -1);
}

#[test]
fn an_action_waits_for_its_deadline() {
    let map = open_map(5, 5);
    let grid = grid_of(&map, &vec![]);
    let mut a = Actor::new(1);
    a.new_action(ActionType::Move(0, 1), 0);
    let mut t = at(2, 2);
    advance(&mut a, &mut t, &grid, 999);
    assert_eq!((t.r, t.c), (2, 2));
    assert!(a.is_busy());
    advance(&mut a, &mut t, &grid, 1000);
    assert_eq!((t.r, t.c), (2, 3));
    assert!(!a.is_busy());
}

#[test]
fn blocked_and_off_grid_moves_never_change_position() {
    let mut map = open_map(5, 5);
    map.set(2, 3, default_wall());
    let grid = grid_of(&map, &vec![]);
    for (start, step) in [((2u32, 2u32), (0, 1)), ((0, 0), (-1, 0)), ((0, 0), (0, -1)), ((4, 4), (1, 0)), ((4, 4), (0, 1))] {
        let mut a = Actor::new(1);
        a.new_action(ActionType::Move(step.0, step.1), 0);
        let mut t = at(start.0, start.1);
        advance(&mut a, &mut t, &grid, 5000);
        assert_eq!((t.r, t.c), start);
        assert!(!a.is_busy());
    }
}

#[test]
fn move_to_converges_towards_target() {
    let map = open_map(10, 10);
    let grid = grid_of(&map, &vec![]);
    let mut a = Actor::new(1);
    a.new_action(ActionType::MoveTo(5, 5), 0);
    let mut t = at(0, 0);
    let mut now = 0;
    let mut dist = 5;
    while a.is_busy() {
        now += 1000;
        advance(&mut a, &mut t, &grid, now);
        let d = std::cmp::max((5 - t.r as i64).abs(), (5 - t.c as i64).abs());
        assert_eq!(d, dist - 1);
        dist = d;
    }
    assert_eq!((t.r, t.c), (5, 5));
    assert_eq!(now, 5000);
}

#[test]
fn move_to_stops_when_row_or_column_matches() {
    let map = open_map(10, 10);
    let grid = grid_of(&map, &vec![]);
    let mut a = Actor::new(1);
    a.new_action(ActionType::MoveTo(3, 8), 0);
    let mut t = at(0, 0);
    let mut now = 0;
    while a.is_busy() {
        now += 1000;
        advance(&mut a, &mut t, &grid, now);
    }
    assert_eq!((t.r, t.c), (3, 3));
}

#[test]
fn move_to_is_abandoned_when_blocked() {
    let map = open_map(10, 10);
    let trans = vec![Some(at(1, 1))];
    let grid = grid_of(&map, &trans);
    let mut a = Actor::new(1);
    a.new_action(ActionType::MoveTo(5, 5), 0);
    let mut t = at(0, 0);
    advance(&mut a, &mut t, &grid, 1000);
    assert_eq!((t.r, t.c), (0, 0));
    assert!(!a.is_busy());
}

#[test]
fn time_manager_only_moves_entities_with_both_components() {
    let map = open_map(5, 5);
    let mut trans = vec![Some(at(0, 0)), None, Some(at(3, 3))];
    let grid = grid_of(&map, &trans);
    let mut a0 = Actor::new(1);
    a0.new_action(ActionType::Move(1, 0), 0);
    let mut a1 = Actor::new(1);
    a1.new_action(ActionType::Move(1, 0), 0);
    let mut actors = vec![Some(a0), Some(a1), None];
    TimeManager.run(&grid, &mut actors, &mut trans, 1000);
    assert_eq!(trans[0].map(|t| (t.r, t.c)), Some((1, 0)));
    assert!(!actors[0].unwrap().is_busy());
    assert!(actors[1].unwrap().is_busy());
    assert_eq!(trans[2].map(|t| (t.r, t.c)), Some((3, 3)));
}

#[test]
fn grid_marks_walls_and_occupied_cells() {
    let mut map = open_map(4, 6);
    map.set(0, 5, default_wall());
    let trans = vec![Some(at(2, 3)), None, Some(at(40, 40))];
    let grid = grid_of(&map, &trans);
    assert_eq!(grid.rows(), 4);
    assert_eq!(grid.cols(), 6);
    assert!(!grid.passable(0, 5));
    assert!(!grid.passable(2, 3));
    assert!(grid.passable(2, 2));
    assert!(!grid.passable(4, 0));
    assert!(!grid.passable(0, 6));
}

#[test]
fn rebuilding_the_grid_twice_gives_the_same_grid() {
    let mut map = open_map(6, 7);
    map.set(1, 1, default_wall());
    let trans = vec![Some(at(3, 4)), Some(at(5, 6))];
    let mut g = MoveMap::new(2, 2);
    MapManager.run(&mut g, &map, &trans);
    let first: Vec<bool> = (0..6).flat_map(|r| (0..7).map(move |c| (r, c))).map(|(r, c)| g.passable(r, c)).collect();
    MapManager.run(&mut g, &map, &trans);
    let second: Vec<bool> = (0..6).flat_map(|r| (0..7).map(move |c| (r, c))).map(|(r, c)| g.passable(r, c)).collect();
    assert_eq!(first, second);
    assert_eq!(first.iter().filter(|b| !**b).count(), 3);
}

#[test]
fn decide_follows_the_task() {
    let trans = vec![Some(at(4, 2)), None];
    assert_eq!(decide(WorkerTask::MoveTo(7, 8), &trans, 0), Some(ActionType::MoveTo(7, 8)));
    assert_eq!(decide(WorkerTask::Mine(EntityRef { index: 0 }), &trans, 0), Some(ActionType::MoveTo(4, 2)));
    assert_eq!(decide(WorkerTask::Mine(EntityRef { index: 1 }), &trans, 0), None);
    assert_eq!(decide(WorkerTask::Mine(EntityRef { index: 9 }), &trans, 0), None);
    assert_eq!(decide(WorkerTask::Idle, &trans, 0), Some(ActionType::Move(1, 0)));
    assert_eq!(decide(WorkerTask::Idle, &trans, 1), Some(ActionType::Move(-1, 0)));
    assert_eq!(decide(WorkerTask::Idle, &trans, 2), Some(ActionType::Move(0, 1)));
    assert_eq!(decide(WorkerTask::Idle, &trans, 3), Some(ActionType::Move(0, -1)));
    assert_eq!(direction(3), (0, -1));
}

#[test]
fn idle_walk_picks_each_direction_about_a_quarter_of_the_time() {
    let trans = vec![Some(at(5, 5))];
    let workers = vec![Some(Worker { task: WorkerTask::Idle })];
    let mut rng = RandomNumberGenerator::seeded(42);
    let mut counts = [0u32; 4];
    let trials = 20_000;
    for _ in 0..trials {
        let mut actors = vec![Some(Actor::new(1))];
        WorkManager.run(&trans, &workers, &mut actors, 0, &mut rng);
        match actors[0].unwrap().action.unwrap().t {
            ActionType::Move(1, 0) => counts[0] += 1,
            ActionType::Move(-1, 0) => counts[1] += 1,
            ActionType::Move(0, 1) => counts[2] += 1,
            ActionType::Move(0, -1) => counts[3] += 1,
            other => panic!("not a cardinal step: {:?}", other),
        }
    }
    for c in counts {
        let f = c as f64 / trials as f64;
        assert!((f - 0.25).abs() < 0.02, "frequency {}", f);
    }
}

#[test]
fn work_manager_skips_busy_actors_and_missing_targets() {
    let trans = vec![Some(at(5, 5)), Some(at(1, 1)), None];
    let workers = vec![
        Some(Worker { task: WorkerTask::MoveTo(9, 9) }),
        Some(Worker { task: WorkerTask::Mine(EntityRef { index: 2 }) }),
        Some(Worker { task: WorkerTask::Mine(EntityRef { index: 0 }) }),
    ];
    let mut busy = Actor::new(1);
    busy.new_action(ActionType::Move(1, 0), 0);
    let mut actors = vec![Some(busy), Some(Actor::new(1)), Some(Actor::new(4))];
    let mut rng = RandomNumberGenerator::seeded(1);
    WorkManager.run(&trans, &workers, &mut actors, 100, &mut rng);
    assert_eq!(actors[0].unwrap(), busy);
    assert!(!actors[1].unwrap().is_busy());
    assert_eq!(actors[2].unwrap().action, Some(Action { deadline: 350, t: ActionType::MoveTo(5, 5) }));
}

#[test]
fn map_basics() {
    let mut m = TileMap::new(3, 4);
    assert_eq!((m.rows(), m.cols()), (3, 4));
    assert_eq!(*m.at(2, 3), default_wall());
    m.set(1, 2, blank_tile());
    assert!(m.at(1, 2).walkable);
    assert_eq!(m.at(1, 2).ch, ' ' as u16);
    assert!(!m.at(1, 1).walkable);
    assert!(m.is_on(0, 0));
    assert!(m.is_on(2, 3));
    assert!(!m.is_on(-1, 0));
    assert!(!m.is_on(3, 0));
    assert!(!m.is_on(0, 4));
    assert_eq!(default_wall().ch, '#' as u16);
    assert_eq!(blank_tile().fg, Color::White);
}

#[test]
fn clear_room_opens_only_its_rectangle() {
    let m = clear_room(TileMap::new(6, 6), 1, 2, 2, 3);
    for r in 0..6u32 {
        for c in 0..6u32 {
            let inside = (1..3).contains(&r) && (2..5).contains(&c);
            assert_eq!(m.at(r, c).walkable, inside, "cell {} {}", r, c);
        }
    }
}

#[test]
fn generated_map_has_an_open_centre_room() {
    let mut g = MapGenerator::new(30, 40);
    assert_eq!((g.rows, g.cols, g.gold_size, g.gold_count), (30, 40, 0, 0));
    g.gold_count = 20;
    g.gold_size = 6;
    let mut rng = RandomNumberGenerator::seeded(3);
    let m = g.generate(&mut rng);
    assert_eq!((m.rows(), m.cols()), (30, 40));
    let mut gold = 0;
    for r in 0..30u32 {
        for c in 0..40u32 {
            let t = *m.at(r, c);
            if (10..20).contains(&r) && (15..25).contains(&c) {
                assert_eq!(t, blank_tile());
            } else if t.fg == Color::Yellow {
                gold += 1;
                assert!(!t.walkable);
            } else {
                assert_eq!(t, default_wall());
            }
        }
    }
    assert!(gold > 0);
    let blank = g.generate_blank();
    assert_eq!(*blank.at(15, 20), default_wall());
}

#[test]
fn create_worker_adds_an_idle_unselected_worker() {
    let mut world = World::new(open_map(8, 8));
    assert_eq!(world.len(), 0);
    let e = world.create_worker(3, 4);
    assert_eq!(e, EntityRef { index: 0 });
    assert_eq!(world.len(), 1);
    assert_eq!(world.transforms[0], Some(Transform { r: 3, c: 4, ch: '@' as u16, color: Color::Red }));
    assert_eq!(world.workers[0], Some(Worker { task: WorkerTask::Idle }));
    assert_eq!(world.selectables[0], Some(Selectable { selected: false }));
    assert_eq!(world.actors[0], Some(Actor::new(2)));
}

#[test]
fn tick_selects_then_orders_then_moves() {
    let mut world = World::new(open_map(10, 10));
    world.create_worker(2, 2);
    world.create_worker(8, 8);
    let mut rng = RandomNumberGenerator::seeded(5);
    world.mouse_event = MouseEvent(MouseEventT::BoxSelect(0, 0, 4, 4));
    world.tick(0, &mut rng);
    assert!(world.some_selected.0);
    assert!(world.selectables[0].unwrap().selected);
    assert!(!world.selectables[1].unwrap().selected);
    assert_eq!(world.mouse_event.0, MouseEventT::Empty);
    world.mouse_event = MouseEvent(MouseEventT::MoveTo(2, 6));
    // the idle action started on the first tick is still pending
    world.tick(1, &mut rng);
    assert_eq!(world.workers[0].unwrap().task, WorkerTask::MoveTo(2, 6));
    assert_eq!(world.workers[1].unwrap().task, WorkerTask::Idle);
    assert_eq!(world.mouse_event.0, MouseEventT::Empty);
    assert!(!world.move_map.passable(2, 2));
    assert!(!world.move_map.passable(8, 8));
}

#[test]
fn mailbox_and_flag_start_empty() {
    assert_eq!(MouseEvent::default().0, MouseEventT::Empty);
    assert_eq!(MouseEventT::default(), MouseEventT::Empty);
    assert!(!IsSomeSelected::default().0);
    let world = World::new(open_map(3, 5));
    assert_eq!(world.mouse_event.0, MouseEventT::Empty);
    assert!(!world.some_selected.0);
    assert_eq!((world.move_map.rows(), world.move_map.cols()), (3, 5));
    assert!(world.move_map.passable(2, 4));
}

#[test]
fn a_stale_mine_target_issues_nothing_until_it_has_a_position() {
    let mut world = World::new(open_map(10, 10));
    world.create_worker(4, 4);
    world.workers[0] = Some(Worker { task: WorkerTask::Mine(EntityRef { index: 5 }) });
    let mut rng = RandomNumberGenerator::seeded(9);
    world.tick(0, &mut rng);
    assert!(!world.actors[0].unwrap().is_busy());
    assert_eq!(world.transforms[0].map(|t| (t.r, t.c)), Some((4, 4)));
}
