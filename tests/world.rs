use rust_bucket::{Action, MovingState, ObjectName, World, SPEED};

fn inertia_of(world: &World, name: &ObjectName) -> [i32; 2] {
    world.get_object(name).expect("registered").get_inertia()
}

fn position_of(world: &World, name: &ObjectName) -> [i32; 2] {
    world.get_object(name).expect("registered").get_position()
}

#[test]
fn spawn_set_inertia_and_update_twice() {
    let mut world = World::new();
    let name = world.spawn_object();
    world.set_object_inertia(&name, [10, 0]);
    world.update();
    world.update();
    assert_eq!(position_of(&world, &name), [20, 0]);
}

#[test]
fn spawned_names_are_distinct() {
    let mut world = World::new();
    let mut names = Vec::new();
    for _ in 0..6 {
        names.push(world.spawn_object());
    }
    for i in 0..names.len() {
        for j in (i + 1)..names.len() {
            assert_ne!(names[i], names[j]);
        }
    }
    assert_eq!(world.len(), 6);
    assert_eq!(names[0].id(), 0);
    assert_eq!(names[5].id(), 5);
}

#[test]
fn fresh_object_is_at_rest_at_origin() {
    let mut world = World::new();
    let name = world.spawn_object();
    assert_eq!(position_of(&world, &name), [0, 0]);
    assert_eq!(inertia_of(&world, &name), [0, 0]);
    assert_eq!(world.get_object(&name).unwrap().get_control(), MovingState::new());
}

#[test]
fn update_adds_inertia_and_keeps_it() {
    let mut world = World::new();
    let name = world.spawn_object();
    world.set_object_inertia(&name, [3, -4]);
    world.update();
    assert_eq!(position_of(&world, &name), [3, -4]);
    assert_eq!(inertia_of(&world, &name), [3, -4]);
    world.set_object_inertia(&name, [-1, 7]);
    world.update();
    assert_eq!(position_of(&world, &name), [2, 3]);
}

#[test]
fn object_update_adds_componentwise() {
    let mut world = World::new();
    let name = world.spawn_object();
    let mut object = world.get_object(&name).unwrap();
    object.set_inertia([5, 9]);
    object.update();
    object.update();
    assert_eq!(object.get_position(), [10, 18]);
    assert_eq!(object.get_inertia(), [5, 9]);
    // the registry's own copy is untouched
    assert_eq!(position_of(&world, &name), [0, 0]);
}

#[test]
fn inertia_is_replaced_not_accumulated() {
    let mut world = World::new();
    let name = world.spawn_object();
    world.set_object_inertia(&name, [1, 2]);
    world.set_object_inertia(&name, [5, 7]);
    assert_eq!(inertia_of(&world, &name), [5, 7]);
}

#[test]
fn unknown_name_is_a_no_op() {
    let mut other = World::new();
    other.spawn_object();
    let stranger = other.spawn_object();

    let mut world = World::new();
    let name = world.spawn_object();
    world.set_object_inertia(&name, [4, 4]);
    world.set_object_inertia(&stranger, [9, 9]);
    world.apply_action(&stranger, Action::StartMovingUp);
    assert_eq!(world.len(), 1);
    assert_eq!(inertia_of(&world, &name), [4, 4]);
    assert_eq!(position_of(&world, &name), [0, 0]);
    assert!(world.get_object(&stranger).is_none());
}

#[test]
fn same_batch_on_copies_gives_identical_states() {
    let mut world = World::new();
    let a = world.spawn_object();
    let b = world.spawn_object();
    world.set_object_inertia(&b, [1, 1]);
    let batch = vec![
        (a, Action::StartMovingRight),
        (b, Action::StartMovingDown),
        (a, Action::StartMovingUp),
    ];
    let first = world.duplicate().next_state(&batch).unwrap();
    let second = world.duplicate().next_state(&batch).unwrap();
    assert_eq!(first.positions(), second.positions());
    assert_eq!(inertia_of(&first, &a), inertia_of(&second, &a));
    assert_eq!(inertia_of(&first, &b), inertia_of(&second, &b));
    assert_eq!(first.positions(), vec![(a, [10, 10]), (b, [0, -10])]);
    // the prior state stays valid for rollback
    assert_eq!(world.positions(), vec![(a, [0, 0]), (b, [0, 0])]);
}

#[test]
fn opposing_directions_cancel() {
    let mut world = World::new();
    let name = world.spawn_object();
    world.apply_action(&name, Action::StartMovingLeft);
    world.apply_action(&name, Action::StartMovingRight);
    assert_eq!(inertia_of(&world, &name)[0], 0);
    world.apply_action(&name, Action::StartMovingUp);
    world.apply_action(&name, Action::StartMovingDown);
    assert_eq!(inertia_of(&world, &name), [0, 0]);
}

#[test]
fn moving_up_alone_gives_speed_upward() {
    let mut world = World::new();
    let name = world.spawn_object();
    world.apply_action(&name, Action::StartMovingUp);
    assert_eq!(inertia_of(&world, &name), [0, SPEED]);
    assert_eq!(SPEED, 10);
}

#[test]
fn diagonal_is_not_normalised() {
    let mut world = World::new();
    let name = world.spawn_object();
    world.apply_action(&name, Action::StartMovingLeft);
    world.apply_action(&name, Action::StartMovingDown);
    assert_eq!(inertia_of(&world, &name), [-10, -10]);
    world.apply_action(&name, Action::StopMovingLeft);
    assert_eq!(inertia_of(&world, &name), [0, -10]);
    world.apply_action(&name, Action::StopMovingDown);
    assert_eq!(inertia_of(&world, &name), [0, 0]);
}

#[test]
fn moving_state_directions() {
    let mut m = MovingState::new();
    assert_eq!((m.horizontal(), m.vertical()), (0, 0));
    m.apply(Action::StartMovingRight);
    assert_eq!(m.horizontal(), 1);
    m.apply(Action::StartMovingLeft);
    assert_eq!(m.horizontal(), 0);
    m.apply(Action::StopMovingRight);
    assert_eq!(m.horizontal(), -1);
    m.apply(Action::StartMovingDown);
    assert_eq!(m.vertical(), -1);
    assert_eq!(m.inertia(), [-10, -10]);
    m.apply(Action::StartMovingUp);
    m.apply(Action::StopMovingDown);
    assert_eq!(m.vertical(), 1);
    assert_eq!(m.inertia(), [-10, 10]);
}

#[test]
fn batch_that_would_overflow_is_rejected() {
    let mut world = World::new();
    let name = world.spawn_object();
    world.set_object_inertia(&name, [i32::MAX, 0]);
    assert!(world.can_update());
    let next = world.next_state(&Vec::new()).unwrap();
    assert_eq!(position_of(&next, &name), [i32::MAX, 0]);
    assert!(!next.can_update());
    assert!(next.next_state(&Vec::new()).is_none());
    let mut stopped = next.duplicate();
    stopped.set_object_inertia(&name, [0, 0]);
    assert!(stopped.next_state(&Vec::new()).is_some());
}

#[test]
fn snapshot_is_in_name_order() {
    let mut world = World::new();
    assert!(world.can_spawn());
    let a = world.spawn_object();
    let b = world.spawn_object();
    let c = world.spawn_object();
    world.set_object_inertia(&c, [-2, 5]);
    world.update();
    assert_eq!(world.positions(), vec![(a, [0, 0]), (b, [0, 0]), (c, [-2, 5])]);
    assert!(a < b && b < c);
}

#[test]
fn actions_apply_in_batch_order() {
    let mut world = World::new();
    let a = world.spawn_object();
    let batch = vec![(a, Action::StartMovingRight), (a, Action::StopMovingRight)];
    world.apply_actions(&batch);
    assert_eq!(inertia_of(&world, &a), [0, 0]);
    let batch = vec![(a, Action::StopMovingRight), (a, Action::StartMovingRight)];
    world.apply_actions(&batch);
    assert_eq!(inertia_of(&world, &a), [10, 0]);
}

#[test]
fn despawn_removes_and_never_reissues_the_name() {
    let mut world = World::new();
    let a = world.spawn_object();
    let b = world.spawn_object();
    world.set_object_inertia(&b, [1, 0]);
    assert!(world.despawn_object(&a));
    assert!(!world.despawn_object(&a));
    assert_eq!(world.len(), 1);
    assert!(world.get_object(&a).is_none());
    // directed mutation of a despawned body is ignored
    world.set_object_inertia(&a, [5, 5]);
    world.apply_action(&a, Action::StartMovingUp);
    assert_eq!(world.len(), 1);
    let c = world.spawn_object();
    assert_ne!(c, a);
    assert_ne!(c, b);
    assert_eq!(c.id(), 2);
    world.update();
    assert_eq!(world.positions(), vec![(b, [1, 0]), (c, [0, 0])]);
}
