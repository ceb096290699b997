use swarm_pool::error::{SwarmError, KILL_DURING_UPDATE, MAX_SPAWNS_REACHED, NO_SPAWN_TO_KILL};
use swarm_pool::heap::{update, Swarm};

#[derive(Default, Copy, Clone)]
pub struct Minion {
    times_summoned: u128,
}

#[test]
fn creating_a_heap_swarm() {
    let swarm = Swarm::<Minion>::new(10);
    assert!(swarm.max_size() == 10);
    assert_eq!(swarm.count(), 0);
}

#[test]
fn spawning_swarm_entity_instances() {
    let mut swarm = Swarm::<Minion>::new(10);
    let spawn = swarm.spawn();
    assert!(spawn.is_ok());
    assert_eq!(swarm.count(), 1);
}

#[test]
fn using_spawned_instances() {
    let mut swarm = Swarm::<Minion>::new(10);
    let spawn = swarm.spawn().unwrap();

    swarm.get_mut(&spawn).times_summoned = 42;
    assert_eq!(swarm.get_ref(&spawn).times_summoned, 42);
}

#[test]
fn looping_through_spawned_instances() {
    let mut swarm = Swarm::<Minion>::new(10);
    let spawn1 = swarm.spawn().unwrap();
    let spawn2 = swarm.spawn().unwrap();

    assert_eq!(swarm.get_ref(&spawn1).times_summoned, 0);
    assert_eq!(swarm.get_ref(&spawn2).times_summoned, 0);

    swarm.for_each(|obj| {
        obj.times_summoned = 42;
    });

    assert_eq!(swarm.get_ref(&spawn1).times_summoned, 42);
    assert_eq!(swarm.get_ref(&spawn2).times_summoned, 42);
}

#[test]
fn destroying_spawned_instances() {
    let mut swarm = Swarm::<Minion>::new(10);
    let spawn = swarm.spawn().unwrap();

    swarm.for_each(|obj| obj.times_summoned += 1);
    assert_eq!(swarm.get_ref(&spawn).times_summoned, 1);

    let copy_of_spawn = spawn.clone();
    assert_eq!(swarm.kill(spawn), Ok(()));

    // After a spawn is killed, it is still accessible but is not passed to the loop.
    swarm.for_each(|obj| obj.times_summoned += 1);
    assert_eq!(swarm.get_ref(&copy_of_spawn).times_summoned, 1);

    // The next spawn gets the slot of the killed one.
    let spawn2 = swarm.spawn().unwrap();
    swarm.get_mut(&spawn2).times_summoned = 42;
    assert_eq!(swarm.get_ref(&copy_of_spawn).times_summoned, 42);
}

#[test]
fn heap_spawn_fails_when_full() {
    let mut swarm = Swarm::<Minion>::new(2);
    assert_eq!(swarm.spawn(), Ok(0));
    assert_eq!(swarm.spawn(), Ok(1));
    assert_eq!(swarm.spawn(), Err(SwarmError(MAX_SPAWNS_REACHED)));
    assert_eq!(swarm.count(), 2);
}

#[test]
fn heap_pool_without_capacity() {
    let mut swarm = Swarm::<Minion>::new(0);
    assert_eq!(swarm.spawn(), Err(SwarmError(MAX_SPAWNS_REACHED)));
    assert_eq!(swarm.count(), 0);
    swarm.for_each(|obj| obj.times_summoned += 1);
    update(&mut swarm, |_spawn, _swarm| {});
    assert_eq!(swarm.count(), 0);
}

#[test]
fn heap_kill_is_refused_during_update() {
    let mut swarm = Swarm::<Minion>::new(4);
    swarm.spawn().unwrap();
    swarm.spawn().unwrap();
    update(&mut swarm, |spawn, swarm| {
        assert_eq!(swarm.kill(*spawn), Err(SwarmError(KILL_DURING_UPDATE)));
    });
    assert_eq!(swarm.count(), 2);
}

#[test]
fn heap_kill_deactivates_its_target_and_moves_the_last() {
    let mut swarm = Swarm::<Minion>::new(4);
    let a = swarm.spawn().unwrap();
    let b = swarm.spawn().unwrap();
    let c = swarm.spawn().unwrap();
    swarm.get_mut(&a).times_summoned = 7;
    swarm.get_mut(&b).times_summoned = 8;
    swarm.get_mut(&c).times_summoned = 9;

    assert_eq!(swarm.kill(a), Ok(()));

    assert_eq!(swarm.count(), 2);
    assert!(!swarm.is_active(&a));
    assert!(swarm.is_active(&b));
    assert!(swarm.is_active(&c));
    // the last spawned object lies where the killed one lay, and its
    // handle has followed it
    assert_eq!(swarm.handle_at(&0), c);
    assert_eq!(swarm.handle_at(&1), b);
    assert_eq!(swarm.handle_at(&2), a);
    assert_eq!(swarm.get_ref(&c).times_summoned, 9);
    assert_eq!(swarm.get_ref(&b).times_summoned, 8);
    assert_eq!(swarm.get_ref(&a).times_summoned, 7);
    // the loop meets the two that are left
    swarm.for_each(|obj| obj.times_summoned += 100);
    assert_eq!(swarm.get_ref(&c).times_summoned, 109);
    assert_eq!(swarm.get_ref(&b).times_summoned, 108);
    assert_eq!(swarm.get_ref(&a).times_summoned, 7);
    // the killed handle is reused first
    assert_eq!(swarm.spawn(), Ok(a));
    assert!(swarm.is_active(&a));
    assert_eq!(swarm.spawn(), Ok(3));
}

#[test]
fn heap_kill_of_the_last_and_of_the_only_spawn() {
    let mut swarm = Swarm::<Minion>::new(4);
    let a = swarm.spawn().unwrap();
    let b = swarm.spawn().unwrap();
    assert_eq!(swarm.kill(b), Ok(()));
    assert!(swarm.is_active(&a));
    assert!(!swarm.is_active(&b));
    assert_eq!(swarm.handle_at(&0), a);
    assert_eq!(swarm.kill(a), Ok(()));
    assert!(!swarm.is_active(&a));
    assert_eq!(swarm.count(), 0);
    // the most recently killed handle comes first
    assert_eq!(swarm.spawn(), Ok(a));
    assert_eq!(swarm.spawn(), Ok(b));
}

#[test]
fn heap_kill_of_what_is_not_spawned_is_an_error() {
    let mut swarm = Swarm::<Minion>::new(4);
    assert_eq!(swarm.kill(0), Err(SwarmError(NO_SPAWN_TO_KILL)));
    assert_eq!(swarm.count(), 0);
    let a = swarm.spawn().unwrap();
    assert_eq!(swarm.kill(a), Ok(()));
    assert_eq!(swarm.kill(a), Err(SwarmError(NO_SPAWN_TO_KILL)));
    assert_eq!(swarm.count(), 0);
    assert_eq!(swarm.spawn(), Ok(a));
}

#[test]
fn heap_delayed_kill_is_carried_out_after_the_update() {
    let mut swarm = Swarm::<Minion>::new(4);
    let a = swarm.spawn().unwrap();
    swarm.get_mut(&a).times_summoned = 1;
    update(&mut swarm, |spawn, swarm| {
        swarm.delayed_kill(*spawn);
        // queued twice, killed once
        swarm.delayed_kill(*spawn);
        swarm.get_mut(spawn).times_summoned += 1;
        assert_eq!(swarm.count(), 1);
    });
    assert_eq!(swarm.count(), 0);
    assert_eq!(swarm.get_ref(&a).times_summoned, 2);
    assert!(!swarm.is_active(&a));
}

#[test]
fn heap_delayed_kills_deactivate_their_targets_and_no_other() {
    let mut swarm = Swarm::<Minion>::new(10);
    let spawns: Vec<usize> = (0..5).map(|_| swarm.spawn().unwrap()).collect();
    for spawn in &spawns {
        swarm.get_mut(spawn).times_summoned = 10 + *spawn as u128;
    }
    let calls = std::cell::Cell::new(0);
    update(&mut swarm, |spawn, swarm| {
        calls.set(calls.get() + 1);
        if *spawn == 0 || *spawn == 3 {
            swarm.delayed_kill(*spawn);
        }
        assert_eq!(swarm.kill(*spawn), Err(SwarmError(KILL_DURING_UPDATE)));
        assert_eq!(swarm.count(), 5);
    });
    assert_eq!(calls.get(), 5);
    assert_eq!(swarm.count(), 3);
    for spawn in &spawns {
        assert_eq!(swarm.is_active(spawn), *spawn != 0 && *spawn != 3);
        assert_eq!(swarm.get_ref(spawn).times_summoned, 10 + *spawn as u128);
    }
    // a kill is legal again
    assert_eq!(swarm.kill(1), Ok(()));
    assert_eq!(swarm.count(), 2);

    // the queue is empty: the next update kills nothing
    assert_eq!(swarm.spawn(), Ok(1));
    assert_eq!(swarm.spawn(), Ok(3));
    assert_eq!(swarm.spawn(), Ok(0));
    update(&mut swarm, |_spawn, _swarm| {});
    assert_eq!(swarm.count(), 5);
    for spawn in &spawns {
        assert!(swarm.is_active(spawn));
    }
}

#[test]
fn heap_update_hands_out_the_handle_of_each_position() {
    let mut swarm = Swarm::<Minion>::new(4);
    let a = swarm.spawn().unwrap();
    let b = swarm.spawn().unwrap();
    let c = swarm.spawn().unwrap();
    assert_eq!(swarm.kill(a), Ok(()));
    let seen = std::cell::RefCell::new(Vec::new());
    update(&mut swarm, |spawn, swarm| {
        assert!(swarm.is_active(spawn));
        seen.borrow_mut().push(*spawn);
    });
    assert_eq!(seen.into_inner(), vec![c, b]);
}

#[test]
fn heap_update_calls_handler_for_each_spawn() {
    let mut swarm = Swarm::<Minion>::new(4);
    swarm.spawn().unwrap();
    swarm.spawn().unwrap();
    swarm.spawn().unwrap();
    update(&mut swarm, |spawn, swarm| {
        swarm.get_mut(spawn).times_summoned += (*spawn as u128) + 1;
    });
    assert_eq!(swarm.get_ref(&0).times_summoned, 1);
    assert_eq!(swarm.get_ref(&1).times_summoned, 2);
    assert_eq!(swarm.get_ref(&2).times_summoned, 3);
    assert_eq!(swarm.get_ref(&3).times_summoned, 0);
}

#[test]
fn heap_is_active_tells_spawned_from_unspawned() {
    let mut swarm = Swarm::<Minion>::new(4);
    let a = swarm.spawn().unwrap();
    assert!(swarm.is_active(&a));
    assert!(!swarm.is_active(&1));
    assert!(!swarm.is_active(&3));
}
