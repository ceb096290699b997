use std::cell::Cell;

use swarm_pool::{Spawn, Swarm, Tag};

fn active_count(tags: &Vec<Tag>) -> usize {
    tags.iter().filter(|tag| tag.active()).count()
}

fn check_invariant<P>(swarm: &Swarm<u32, P>) {
    let tags = swarm.tags();
    assert_eq!(tags.len(), swarm.capacity());
    assert_eq!(active_count(tags), swarm.count());
    for (id, tag) in tags.iter().enumerate() {
        assert_eq!(*tag.id(), id);
        assert_eq!(swarm.fetch_spawn(tag.pos()).id(), id);
        assert_eq!(tag.active(), *tag.pos() < swarm.count());
    }
}

#[test]
fn count_is_the_number_of_active_handles_after_spawns_and_kills() {
    let mut swarm = Swarm::<u32, _>::new(5, ());
    check_invariant(&swarm);
    let a = swarm.spawn().unwrap();
    let b = swarm.spawn().unwrap();
    let c = swarm.spawn().unwrap();
    check_invariant(&swarm);
    swarm.kill(&a);
    check_invariant(&swarm);
    assert_eq!(swarm.count(), 2);
    let d = swarm.spawn().unwrap();
    let e = swarm.spawn().unwrap();
    let f = swarm.spawn().unwrap();
    check_invariant(&swarm);
    assert_eq!(swarm.count(), 5);
    assert_eq!(swarm.spawn(), None);
    check_invariant(&swarm);
    swarm.kill(&c);
    swarm.kill(&f);
    swarm.kill(&b);
    check_invariant(&swarm);
    assert_eq!(swarm.count(), 2);
    for spawn in [d, e] {
        assert!(spawn.active(swarm.tags()));
        assert!(spawn.pos(swarm.tags()) < swarm.count());
    }
    for spawn in [b, c, f] {
        assert!(!spawn.active(swarm.tags()));
        assert!(spawn.pos(swarm.tags()) >= swarm.count());
    }
    swarm.kill(&d);
    swarm.kill(&e);
    check_invariant(&swarm);
    assert_eq!(swarm.count(), 0);
}

#[test]
fn kill_of_the_second_of_three_moves_the_third() {
    let mut swarm = Swarm::<u32, _>::new(10, ());
    let first = swarm.spawn().unwrap();
    let second = swarm.spawn().unwrap();
    let third = swarm.spawn().unwrap();
    assert_eq!(swarm.count(), 3);
    let former = second.pos(swarm.tags());

    swarm.kill(&second);

    assert_eq!(swarm.count(), 2);
    assert_eq!(third.pos(swarm.tags()), former);
    assert_eq!(first.pos(swarm.tags()), 0);
}

#[test]
fn kill_of_a_spawn_that_is_not_last_swaps_the_data() {
    let mut swarm = Swarm::<u32, _>::new(4, ());
    let a = swarm.spawn().unwrap();
    let b = swarm.spawn().unwrap();
    let c = swarm.spawn().unwrap();
    *swarm.fetch(&a) = 10;
    *swarm.fetch(&b) = 20;
    *swarm.fetch(&c) = 30;

    swarm.kill(&a);

    // the data of the last spawn lies where the killed one lay, and its
    // handle has followed it
    assert_eq!(*swarm.fetch_raw(&0), 30);
    assert_eq!(*swarm.fetch_raw(&1), 20);
    assert_eq!(*swarm.fetch_raw(&2), 10);
    assert_eq!(c.pos(swarm.tags()), 0);
    assert_eq!(b.pos(swarm.tags()), 1);
    assert_eq!(a.pos(swarm.tags()), 2);
    assert_eq!(swarm.fetch_spawn(&0), c);
    assert_eq!(swarm.fetch_spawn(&2), a);
    assert_eq!(*swarm.fetch_ref(&c), 30);
    assert_eq!(*swarm.fetch_ref(&b), 20);
    // a killed handle still resolves, to its data at the new position
    assert_eq!(*swarm.fetch_ref(&a), 10);
}

#[test]
fn kill_of_the_last_spawn_moves_no_data() {
    let mut swarm = Swarm::<u32, _>::new(4, ());
    let a = swarm.spawn().unwrap();
    let b = swarm.spawn().unwrap();
    *swarm.fetch(&a) = 10;
    *swarm.fetch(&b) = 20;

    swarm.kill(&b);

    assert_eq!(*swarm.fetch_raw(&0), 10);
    assert_eq!(*swarm.fetch_raw(&1), 20);
    assert_eq!(a.pos(swarm.tags()), 0);
    assert_eq!(b.pos(swarm.tags()), 1);
    assert_eq!(swarm.count(), 1);

    // the only spawn
    swarm.kill(&a);
    assert_eq!(*swarm.fetch_raw(&0), 10);
    assert_eq!(a.pos(swarm.tags()), 0);
    assert_eq!(swarm.count(), 0);
}

#[test]
fn mirrors_observe_the_same_tag() {
    let mut swarm = Swarm::<u32, _>::new(4, ());
    let a = swarm.spawn().unwrap();
    let _b = swarm.spawn().unwrap();
    let c = swarm.spawn().unwrap();
    let mirror = c.mirror();
    let copy = mirror.clone();
    assert_eq!(c, mirror);
    assert_eq!(c.id(), mirror.id());

    swarm.kill(&a);
    for other in [mirror, copy] {
        assert_eq!(other.id(), c.id());
        assert_eq!(other.pos(swarm.tags()), c.pos(swarm.tags()));
        assert_eq!(other.pos(swarm.tags()), 0);
        assert_eq!(other.active(swarm.tags()), true);
    }
    swarm.kill(&mirror);
    assert_eq!(c.active(swarm.tags()), false);
    assert_eq!(copy.active(swarm.tags()), false);
    assert_eq!(copy.pos(swarm.tags()), c.pos(swarm.tags()));
}

#[test]
fn spawns_are_equal_by_identity() {
    let mut swarm = Swarm::<u32, _>::new(4, ());
    let a = swarm.spawn().unwrap();
    let b = swarm.spawn().unwrap();
    assert_ne!(a, b);
    assert_eq!(a, a.mirror());
    assert_eq!(Spawn::default().id(), 0);
    assert_eq!(Spawn::default(), a);
}

#[test]
fn next_spawn_reuses_the_killed_handle() {
    let mut swarm = Swarm::<u32, _>::new(6, ());
    let a = swarm.spawn().unwrap();
    let b = swarm.spawn().unwrap();
    let c = swarm.spawn().unwrap();
    assert_eq!((a.id(), b.id(), c.id()), (0, 1, 2));

    swarm.kill(&b);
    let again = swarm.spawn().unwrap();
    assert_eq!(again.id(), b.id());

    // the most recently killed handle comes first
    swarm.kill(&a);
    swarm.kill(&c);
    assert_eq!(swarm.spawn().unwrap().id(), c.id());
    assert_eq!(swarm.spawn().unwrap().id(), a.id());

    // then the positions that were never claimed
    assert_eq!(swarm.spawn().unwrap().id(), 3);
    assert_eq!(swarm.spawn().unwrap().id(), 4);
    assert_eq!(swarm.spawn().unwrap().id(), 5);
}

#[test]
fn spawn_at_capacity_returns_none() {
    let mut swarm = Swarm::<u32, _>::new(2, ());
    assert!(swarm.spawn().is_some());
    let b = swarm.spawn().unwrap();
    assert_eq!(swarm.spawn(), None);
    assert_eq!(swarm.count(), 2);
    swarm.kill(&b);
    assert_eq!(swarm.spawn(), Some(b));
    assert_eq!(swarm.spawn(), None);
}

#[test]
fn pool_without_capacity() {
    let mut swarm = Swarm::<u32, _>::new(0, ());
    assert_eq!(swarm.capacity(), 0);
    assert_eq!(swarm.spawn(), None);
    assert_eq!(swarm.count(), 0);
    let calls = Cell::new(0);
    swarm.for_each(|_| calls.set(calls.get() + 1));
    swarm.for_all(|_, _, _| calls.set(calls.get() + 1));
    swarm.update(|_| calls.set(calls.get() + 1));
    swarm.enumerate(|_, _| calls.set(calls.get() + 1));
    swarm.kill_all();
    swarm.populate(&[1, 2, 3]);
    assert_eq!(calls.get(), 0);
    assert_eq!(swarm.count(), 0);
}

#[test]
fn new_pool_holds_default_objects() {
    let mut swarm = Swarm::<u32, _>::new(3, 7u8);
    assert_eq!(*swarm.properties(), 7);
    for pos in 0..3 {
        assert_eq!(*swarm.fetch_raw(&pos), 0);
        assert_eq!(swarm.fetch_spawn(&pos).id(), pos);
    }
    assert_eq!(
        swarm.tags(),
        &vec![
            Tag { id: 0, pos: 0, active: false },
            Tag { id: 1, pos: 1, active: false },
            Tag { id: 2, pos: 2, active: false },
        ]
    );
}

#[test]
fn spawn_leaves_the_data_alone() {
    let mut swarm = Swarm::<u32, _>::new(3, ());
    *swarm.fetch_raw(&0) = 5;
    *swarm.fetch_raw(&1) = 6;
    let a = swarm.spawn().unwrap();
    assert_eq!(*swarm.fetch_ref(&a), 5);
    swarm.kill(&a);
    let again = swarm.spawn().unwrap();
    assert_eq!(*swarm.fetch_ref(&again), 5);
    let b = swarm.spawn().unwrap();
    assert_eq!(*swarm.fetch_ref(&b), 6);
}

#[test]
fn loops_visit_exactly_the_spawned_objects() {
    let mut swarm = Swarm::<u32, u32>::new(6, 0);
    for _ in 0..4 {
        swarm.spawn().unwrap();
    }
    let last = swarm.fetch_spawn(&3);
    swarm.kill(&last);
    assert_eq!(swarm.count(), 3);

    let calls = Cell::new(0);
    swarm.for_each(|obj| {
        *obj += 1;
        calls.set(calls.get() + 1);
    });
    assert_eq!(calls.get(), 3);

    swarm.enumerate(|pos, obj| {
        *obj += 10 * (*pos as u32 + 1);
        calls.set(calls.get() + 1);
    });
    assert_eq!(calls.get(), 6);

    swarm.for_all(|pos, list, props| {
        list[*pos] += 100;
        *props += 1;
    });
    assert_eq!(*swarm.properties(), 3);

    swarm.update(|ctl| {
        *ctl.target() += 1000;
        ctl.properties += 1;
    });
    assert_eq!(*swarm.properties(), 6);

    assert_eq!(*swarm.fetch_raw(&0), 1111);
    assert_eq!(*swarm.fetch_raw(&1), 1121);
    assert_eq!(*swarm.fetch_raw(&2), 1131);
    // the killed object and the ones never spawned were not visited
    assert_eq!(*swarm.fetch_raw(&3), 0);
    assert_eq!(*swarm.fetch_raw(&4), 0);
    assert_eq!(*swarm.fetch_raw(&5), 0);
}

#[test]
fn for_all_writes_are_seen_by_later_steps() {
    let mut swarm = Swarm::<u32, Vec<u32>>::new(4, Vec::new());
    for _ in 0..3 {
        swarm.spawn().unwrap();
    }
    swarm.for_all(|pos, list, seen| {
        // the list holds the spawned objects and no other
        assert_eq!(list.len(), 3);
        // what the step before wrote is there
        seen.push(list[*pos]);
        if *pos + 1 < list.len() {
            list[*pos + 1] = list[*pos] + 5;
        }
    });
    assert_eq!(swarm.properties(), &vec![0, 5, 10]);
    // the object that is not spawned was out of reach
    assert_eq!(*swarm.fetch_raw(&3), 0);
}

#[test]
fn for_all_hands_out_the_positions_in_order() {
    let mut swarm = Swarm::<u32, Vec<usize>>::new(8, Vec::new());
    let spawns: Vec<Spawn> = (0..5).map(|_| swarm.spawn().unwrap()).collect();
    swarm.kill(&spawns[0]);
    swarm.for_all(|pos, list, seen| {
        assert_eq!(list.len(), 4);
        seen.push(*pos);
    });
    assert_eq!(swarm.properties(), &vec![0, 1, 2, 3]);
    assert_eq!(swarm.count(), 4);
    for (i, spawn) in spawns.iter().enumerate() {
        assert_eq!(spawn.active(swarm.tags()), i != 0);
    }
}

#[test]
fn update_writes_are_seen_by_later_steps() {
    let mut swarm = Swarm::<u32, Vec<u32>>::new(4, Vec::new());
    for _ in 0..3 {
        swarm.spawn().unwrap();
    }
    swarm.update(|ctl| {
        let value = *ctl.target();
        ctl.properties.push(value);
        let pos = ctl.target_spawn().pos(ctl.tags());
        if pos + 1 < ctl.count() {
            let next = ctl.fetch_spawn(&(pos + 1));
            *ctl.fetch(&next) = value + 5;
        }
    });
    assert_eq!(swarm.properties(), &vec![0, 5, 10]);
}

#[test]
fn spawn_during_update_is_not_visited_in_the_same_pass() {
    let mut swarm = Swarm::<u32, _>::new(10, ());
    swarm.spawn().unwrap();
    let calls = Cell::new(0);
    swarm.update(|ctl| {
        calls.set(calls.get() + 1);
        if ctl.head() == 0 {
            ctl.spawn();
        }
    });
    assert_eq!(swarm.count(), 2);
    assert_eq!(calls.get(), 1);
    swarm.update(|_| calls.set(calls.get() + 1));
    assert_eq!(calls.get(), 3);
}

#[test]
fn kill_of_a_slot_still_to_come_keeps_every_object_in_the_pass() {
    let mut swarm = Swarm::<u32, Vec<u32>>::new(10, Vec::new());
    let a = swarm.spawn().unwrap();
    let b = swarm.spawn().unwrap();
    let c = swarm.spawn().unwrap();
    *swarm.fetch(&a) = 10;
    *swarm.fetch(&b) = 20;
    *swarm.fetch(&c) = 30;

    swarm.update(|ctl| {
        let value = *ctl.target();
        ctl.properties.push(value);
        if value == 10 {
            let second = ctl.fetch_spawn(&1);
            ctl.kill(&second);
        }
    });

    // the pass took three steps and met each object once, the killed one too
    assert_eq!(swarm.properties(), &vec![10, 20, 30]);
    assert_eq!(swarm.count(), 2);
    assert_eq!(c.pos(swarm.tags()), 1);
    assert_eq!(b.pos(swarm.tags()), 2);
    assert_eq!(b.active(swarm.tags()), false);

    // the next pass visits the two that are left, in place
    swarm.properties_mut().clear();
    swarm.update(|ctl| {
        let value = *ctl.target();
        ctl.properties.push(value);
    });
    assert_eq!(swarm.properties(), &vec![10, 30]);
}

#[test]
fn a_pass_after_a_kill_and_a_spawn_visits_every_object_once() {
    let mut swarm = Swarm::<usize, Vec<usize>>::new(10, Vec::new());
    let a = swarm.spawn().unwrap();
    let b = swarm.spawn().unwrap();
    let c = swarm.spawn().unwrap();
    swarm.kill(&a);
    let d = swarm.spawn().unwrap();

    swarm.update(|ctl| {
        let pos = ctl.target_spawn().pos(ctl.tags());
        ctl.properties.push(pos);
        *ctl.target() += 1;
    });

    assert_eq!(swarm.properties(), &vec![0, 1, 2]);
    assert_eq!(swarm.count(), 3);
    assert_eq!(*swarm.fetch_ref(&b), 1);
    assert_eq!(*swarm.fetch_ref(&c), 1);
    assert_eq!(*swarm.fetch_ref(&d), 1);
}

#[test]
fn a_pass_visits_what_is_spawned_at_its_start_whatever_the_pass_before_did() {
    let mut swarm = Swarm::<usize, Vec<usize>>::new(10, Vec::new());
    swarm.spawn().unwrap();
    // the one step spawns, and kills the instance at the first position
    swarm.update(|ctl| {
        ctl.spawn();
        let first = ctl.fetch_spawn(&0);
        ctl.kill(&first);
    });
    assert_eq!(swarm.count(), 1);
    swarm.spawn().unwrap();
    swarm.update(|ctl| {
        let pos = ctl.target_spawn().pos(ctl.tags());
        ctl.properties.push(pos);
    });
    assert_eq!(swarm.properties(), &vec![0, 1]);

    // whatever the steps of a pass kill, the next pass visits what is
    // spawned when it starts
    swarm.properties_mut().clear();
    swarm.spawn().unwrap();
    swarm.update(|ctl| {
        if ctl.properties.len() == 0 {
            ctl.kill_current();
        }
        ctl.properties.push(7);
    });
    swarm.update(|ctl| {
        if ctl.properties.len() == 4 {
            ctl.kill_current();
        }
        ctl.properties.push(7);
    });
    swarm.spawn().unwrap();
    swarm.spawn().unwrap();
    swarm.properties_mut().clear();
    swarm.update(|ctl| {
        let pos = ctl.target_spawn().pos(ctl.tags());
        ctl.properties.push(pos);
    });
    assert_eq!(swarm.properties(), &vec![0, 1, 2]);
}

#[test]
fn head_is_the_position_of_the_visited_object() {
    let mut swarm = Swarm::<usize, Vec<usize>>::new(6, Vec::new());
    let spawns: Vec<Spawn> = (0..5).map(|_| swarm.spawn().unwrap()).collect();
    swarm.kill(&spawns[1]);
    swarm.kill(&spawns[0]);
    swarm.spawn().unwrap();
    swarm.update(|ctl| {
        let head = ctl.head();
        assert_eq!(head, ctl.target_spawn().pos(ctl.tags()));
        ctl.properties.push(head);
    });
    assert_eq!(swarm.properties(), &vec![0, 1, 2, 3]);
}

#[test]
fn kill_all_lets_the_first_handle_come_first() {
    let mut swarm = Swarm::<u32, _>::new(4, ());
    let a = swarm.spawn().unwrap();
    let b = swarm.spawn().unwrap();
    let c = swarm.spawn().unwrap();
    swarm.kill_all();
    assert_eq!(swarm.count(), 0);
    assert_eq!((a.pos(swarm.tags()), b.pos(swarm.tags()), c.pos(swarm.tags())), (0, 1, 2));
    assert_eq!(swarm.spawn(), Some(a));
    assert_eq!(swarm.spawn(), Some(b));
    assert_eq!(swarm.spawn(), Some(c));
    assert_eq!(swarm.spawn().unwrap().id(), 3);
}

#[test]
fn populate_spawns_as_long_as_there_is_room() {
    let mut swarm = Swarm::<u8, _>::new(10, ());
    swarm.populate(&[5, 4, 3, 2, 1]);

    assert_eq!(swarm.count(), 5);
    assert_eq!(*swarm.fetch_raw(&0), 5);
    assert_eq!(*swarm.fetch_raw(&4), 1);

    swarm.populate(&[9, 8, 7, 6, 5, 4, 3]);
    assert_eq!(swarm.count(), 10);
    assert_eq!(*swarm.fetch_raw(&5), 9);
    assert_eq!(*swarm.fetch_raw(&9), 5);
    assert_eq!(*swarm.fetch_raw(&4), 1);
}

#[test]
fn a_pass_that_kills_what_it_visits_meets_every_object_once() {
    let mut swarm = Swarm::<u32, Vec<u32>>::new(8, Vec::new());
    let spawns: Vec<Spawn> = (0..6).map(|_| swarm.spawn().unwrap()).collect();
    for (i, spawn) in spawns.iter().enumerate() {
        *swarm.fetch(spawn) = 10 * (i as u32 + 1);
    }

    // the steps for the first, the second, the fourth and the last object kill it
    swarm.update(|ctl| {
        let value = *ctl.target();
        ctl.properties.push(value);
        if value == 10 || value == 20 || value == 40 || value == 60 {
            ctl.kill_current();
        }
    });

    // step k met the object that lay at the position k when the pass started
    assert_eq!(swarm.properties(), &vec![10, 20, 30, 40, 50, 60]);
    assert_eq!(swarm.count(), 2);
    for (i, spawn) in spawns.iter().enumerate() {
        assert_eq!(spawn.active(swarm.tags()), i == 2 || i == 4);
        assert_eq!(*swarm.fetch_ref(spawn), 10 * (i as u32 + 1));
    }
}

#[test]
fn a_pass_that_kills_everything_it_visits_meets_every_object_once() {
    let mut swarm = Swarm::<u32, Vec<u32>>::new(5, Vec::new());
    swarm.populate(&[1, 2, 3, 4, 5]);
    swarm.update(|ctl| {
        let value = *ctl.target();
        ctl.properties.push(value);
        ctl.kill_current();
    });
    assert_eq!(swarm.properties(), &vec![1, 2, 3, 4, 5]);
    assert_eq!(swarm.count(), 0);
}

#[test]
fn kills_of_instances_still_to_come_leave_no_instance_out() {
    let mut swarm = Swarm::<usize, Vec<usize>>::new(10, Vec::new());
    let a = swarm.spawn().unwrap();
    let b = swarm.spawn().unwrap();
    let c = swarm.spawn().unwrap();

    // the step of the first kills the first; the step of the second kills
    // the third
    swarm.update(|ctl| {
        let visited = ctl.target_spawn();
        *ctl.target() += 1;
        ctl.properties.push(visited.id());
        if visited == a {
            ctl.kill(&a);
        }
        if visited == b {
            ctl.kill(&c);
        }
    });

    assert_eq!(swarm.properties(), &vec![0, 1, 2]);
    assert_eq!(swarm.count(), 1);
    assert_eq!(*swarm.fetch_ref(&a), 1);
    assert_eq!(*swarm.fetch_ref(&b), 1);
    assert_eq!(*swarm.fetch_ref(&c), 1);
    assert!(b.active(swarm.tags()));
    assert!(!a.active(swarm.tags()));
    assert!(!c.active(swarm.tags()));
}

#[test]
fn three_kills_in_the_first_step_leave_no_instance_out() {
    let mut swarm = Swarm::<usize, Vec<usize>>::new(8, Vec::new());
    let spawns: Vec<Spawn> = (0..5).map(|_| swarm.spawn().unwrap()).collect();
    swarm.update(|ctl| {
        ctl.properties.push(ctl.target_spawn().id());
        *ctl.target() += 1;
        if ctl.properties.len() == 1 {
            for pos in [1, 2, 1] {
                let there = ctl.fetch_spawn(&pos);
                ctl.kill(&there);
            }
        }
    });
    assert_eq!(swarm.properties(), &vec![0, 1, 2, 3, 4]);
    assert_eq!(swarm.count(), 2);
    for spawn in &spawns {
        assert_eq!(*swarm.fetch_ref(spawn), 1);
    }
}

/// Runs one pass on `n` instances. In step `k` the handles of `plan[k]`
/// are killed, those of them that are spawned then, and an instance is
/// spawned if `spawns[k]` says so. Returns the handles that the steps
/// visited.
fn run_plan(n: usize, plan: &Vec<Vec<usize>>, spawns: &Vec<bool>) -> Vec<usize> {
    let mut swarm = Swarm::<usize, Vec<usize>>::new(n + 2, Vec::new());
    for _ in 0..n {
        swarm.spawn().unwrap();
    }
    swarm.update(|ctl| {
        let step = ctl.properties.len();
        let visited = ctl.target_spawn();
        ctl.properties.push(visited.id());
        *ctl.target() += 1;
        for id in &plan[step] {
            for pos in 0..ctl.count() {
                let there = ctl.fetch_spawn(&pos);
                if there.id() == *id {
                    ctl.kill(&there);
                    break;
                }
            }
        }
        if spawns[step] {
            ctl.spawn();
        }
    });
    let visits = swarm.properties().clone();
    // every object that was spawned at the start was visited once
    for id in 0..n {
        let pos = swarm.tags()[id].pos;
        let object = *swarm.fetch_raw(&pos);
        assert_eq!(object, 1, "plan {:?} {:?}", plan, spawns);
    }
    visits
}

/// All ways to kill two handles at most, out of `n`.
fn kill_choices(n: usize) -> Vec<Vec<usize>> {
    let mut choices = vec![vec![]];
    for a in 0..n {
        choices.push(vec![a]);
        for b in 0..n {
            if a != b {
                choices.push(vec![a, b]);
            }
        }
    }
    choices
}

#[test]
fn every_kill_plan_on_three_and_four_instances_visits_each_instance_once() {
    for n in 3..5usize {
        let choices = kill_choices(n);
        let mut digits = vec![0usize; n];
        loop {
            let plan: Vec<Vec<usize>> = digits.iter().map(|d| choices[*d].clone()).collect();
            let visits = run_plan(n, &plan, &vec![false; n]);
            assert_eq!(visits, (0..n).collect::<Vec<usize>>(), "plan {:?}", plan);
            // the next plan
            let mut at = 0;
            while at < n {
                digits[at] += 1;
                if digits[at] < choices.len() {
                    break;
                }
                digits[at] = 0;
                at += 1;
            }
            if at == n {
                break;
            }
        }
    }
}

#[test]
fn every_plan_of_single_kills_and_spawns_on_five_instances_visits_each_instance_once() {
    let n = 5usize;
    let mut digits = vec![0usize; n];
    loop {
        // a digit says which handle the step kills, if any, and whether it spawns
        let plan: Vec<Vec<usize>> =
            digits.iter().map(|d| if d % 6 == 5 { vec![] } else { vec![d % 6] }).collect();
        let spawns: Vec<bool> = digits.iter().map(|d| *d >= 6).collect();
        let visits = run_plan(n, &plan, &spawns);
        assert_eq!(visits, vec![0, 1, 2, 3, 4], "plan {:?} {:?}", plan, spawns);
        let mut at = 0;
        while at < n {
            digits[at] += 1;
            if digits[at] < 12 {
                break;
            }
            digits[at] = 0;
            at += 1;
        }
        if at == n {
            break;
        }
    }
}
