use swarm_pool::error::{SwarmError, KILL_DURING_UPDATE, MAX_SPAWNS_REACHED, NO_SPAWN_TO_KILL};
use swarm_pool::stack::{update, Swarm, CAPACITY};

#[derive(Default, Copy, Clone)]
pub struct Minion {
    times_summoned: u128,
}

#[test]
fn creating_a_stack_swarm() {
    let swarm = Swarm::<Minion>::new();
    assert_eq!(swarm.max_size(), 1_000);
    assert_eq!(CAPACITY, 1_000);
    assert_eq!(swarm.count(), 0);
}

#[test]
fn stack_spawn_and_loop() {
    let mut swarm = Swarm::<Minion>::new();
    let spawn1 = swarm.spawn().unwrap();
    let spawn2 = swarm.spawn().unwrap();
    assert_eq!(spawn1, 0);
    assert_eq!(spawn2, 1);
    swarm.for_each(|obj| obj.times_summoned = 42);
    assert_eq!(swarm.get_ref(&spawn1).times_summoned, 42);
    assert_eq!(swarm.get_ref(&spawn2).times_summoned, 42);
    assert_eq!(swarm.get_ref(&2).times_summoned, 0);
    swarm.get_mut(&spawn2).times_summoned = 5;
    assert_eq!(swarm.get_ref(&spawn2).times_summoned, 5);
    assert!(swarm.is_active(&spawn2));
    assert!(!swarm.is_active(&2));
}

#[test]
fn stack_spawn_fails_when_full() {
    let mut swarm = Swarm::<Minion>::new();
    for i in 0..1_000 {
        assert_eq!(swarm.spawn(), Ok(i));
    }
    assert_eq!(swarm.spawn(), Err(SwarmError(MAX_SPAWNS_REACHED)));
    assert_eq!(swarm.count(), 1_000);
}

#[test]
fn stack_kill_and_reuse() {
    let mut swarm = Swarm::<Minion>::new();
    let a = swarm.spawn().unwrap();
    let b = swarm.spawn().unwrap();
    let c = swarm.spawn().unwrap();
    swarm.get_mut(&a).times_summoned = 1;
    swarm.get_mut(&b).times_summoned = 2;
    swarm.get_mut(&c).times_summoned = 3;
    assert_eq!(swarm.kill(a), Ok(()));
    assert_eq!(swarm.count(), 2);
    assert!(!swarm.is_active(&a));
    assert!(swarm.is_active(&b));
    assert!(swarm.is_active(&c));
    assert_eq!(swarm.handle_at(&0), c);
    assert_eq!(swarm.get_ref(&a).times_summoned, 1);
    assert_eq!(swarm.get_ref(&b).times_summoned, 2);
    assert_eq!(swarm.get_ref(&c).times_summoned, 3);
    assert_eq!(swarm.kill(a), Err(SwarmError(NO_SPAWN_TO_KILL)));
    assert_eq!(swarm.spawn(), Ok(a));
}

#[test]
fn stack_update_and_delayed_kill() {
    let mut swarm = Swarm::<Minion>::new();
    let a = swarm.spawn().unwrap();
    update(&mut swarm, |spawn, swarm| {
        assert_eq!(swarm.kill(*spawn), Err(SwarmError(KILL_DURING_UPDATE)));
        swarm.delayed_kill(*spawn);
        swarm.get_mut(spawn).times_summoned += 1;
    });
    assert_eq!(swarm.count(), 0);
    assert_eq!(swarm.get_ref(&a).times_summoned, 1);
    assert!(!swarm.is_active(&a));
    // the queue is empty: the next update kills nothing
    assert_eq!(swarm.spawn(), Ok(a));
    update(&mut swarm, |_spawn, _swarm| {});
    assert_eq!(swarm.count(), 1);
}
