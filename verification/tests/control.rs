use std::cell::Cell;
use std::marker::PhantomData;

use swarm_pool::{Factory, Swarm};

#[test]
fn control_find_returns_the_spawn_of_the_step() {
    let mut swarm = Swarm::<u8, _>::new(10, ());
    swarm.populate(&[5, 4, 3, 2, 1]);
    assert_eq!(swarm.count(), 5);

    let found = Cell::new(0);
    swarm.update(|ctl| {
        if let Some(spawn) = ctl.find(|p| *p == 2) {
            assert_eq!(spawn.pos(ctl.tags()), 3);
            assert_eq!(*ctl.fetch(&spawn), 2);
            found.set(found.get() + 1);
        } else {
            panic!("Spawn not found!");
        }
        assert_eq!(ctl.find(|p| *p == 9), None);
    });
    assert_eq!(found.get(), 5);
}

#[test]
fn control_for_while_returns_the_first_accepted() {
    let mut swarm = Swarm::<u8, _>::new(10, ());
    swarm.populate(&[5, 4, 3, 2, 1]);
    swarm.update(|ctl| {
        assert_eq!(ctl.for_while(|p| *p < 4).map(|s| s.id()), Some(2));
        assert_eq!(ctl.for_while(|p| *p > 5), None);
    });
}

#[test]
fn control_find_returns_the_spawn_of_the_object_it_accepted() {
    let mut swarm = Swarm::<u8, _>::new(10, ());
    swarm.populate(&[5, 4, 3, 2, 1]);
    let calls = Cell::new(0);
    swarm.update(|ctl| {
        // the first step kills the first two, which moves two objects
        if calls.get() == 0 {
            let first = ctl.fetch_spawn(&0);
            ctl.kill(&first);
            let second = ctl.fetch_spawn(&1);
            ctl.kill(&second);
        }
        calls.set(calls.get() + 1);
        for wanted in [1u8, 2, 3] {
            let found = ctl.find(|p| *p == wanted).unwrap();
            assert_eq!(*ctl.fetch_ref(&found), wanted);
            assert!(found.active(ctl.tags()));
        }
        // the killed objects are not among the spawned ones
        assert_eq!(ctl.find(|p| *p == 5), None);
        assert_eq!(ctl.find(|p| *p == 4), None);
        let sum = Cell::new(0u32);
        ctl.for_each(|p| sum.set(sum.get() + *p as u32));
        assert_eq!(sum.get(), 6);
    });
    assert_eq!(calls.get(), 5);
}

#[test]
fn control_spawn_example() {
    let mut swarm = Swarm::<u8, _>::new(10, ());
    let _spawn = &swarm.spawn().unwrap();
    assert_eq!(swarm.count(), 1);

    swarm.update(|ctl| {
        if ctl.head() == 0 {
            ctl.spawn();
        }
    });
    assert_eq!(swarm.count(), 2);
}

#[test]
fn control_kill_example() {
    let mut swarm = Swarm::<u8, _>::new(10, ());
    let _spawn = &swarm.spawn().unwrap();
    assert_eq!(swarm.count(), 1);

    swarm.update(|ctl| {
        let spawn = ctl.target_spawn();
        if ctl.head() == 0 {
            ctl.kill(&spawn);
        }
    });
    assert_eq!(swarm.count(), 0);
}

#[test]
fn control_loops_inside_an_update() {
    let mut swarm = Swarm::<u32, u32>::new(10, 0);
    swarm.populate(&[1, 2, 3]);
    let passes = Cell::new(0);
    swarm.update(|ctl| {
        if passes.get() == 0 {
            assert_eq!(ctl.count(), 3);
            assert_eq!(ctl.capacity(), 10);
            ctl.for_each(|obj| *obj += 1);
            ctl.enumerate(|pos, obj| *obj += 10 * *pos as u32);
            ctl.for_all(|pos, list, props| {
                list[*pos] += 100;
                *props += 1;
            });
        }
        passes.set(passes.get() + 1);
    });
    assert_eq!(passes.get(), 3);
    assert_eq!(*swarm.properties(), 3);
    assert_eq!(*swarm.fetch_raw(&0), 102);
    assert_eq!(*swarm.fetch_raw(&1), 113);
    assert_eq!(*swarm.fetch_raw(&2), 124);
    assert_eq!(*swarm.fetch_raw(&3), 0);
}

#[test]
fn control_fetch_ref_reads_through_a_spawn() {
    let mut swarm = Swarm::<u32, _>::new(10, ());
    swarm.populate(&[7, 8]);
    swarm.update(|ctl| {
        let first = ctl.fetch_spawn(&0);
        let second = ctl.fetch_spawn(&1);
        assert_eq!(*ctl.fetch_ref(&first), 7);
        assert_eq!(*ctl.fetch_ref(&second), 8);
        assert_eq!(ctl.pool[1], 8);
    });
}

#[test]
fn control_kill_current_of_the_visited_slot() {
    let mut swarm = Swarm::<u32, _>::new(10, ());
    swarm.populate(&[7, 8, 9]);
    swarm.update(|ctl| {
        if *ctl.target() == 7 {
            ctl.kill_current();
        }
    });
    assert_eq!(swarm.count(), 2);
    // the last object has taken the place of the killed one
    assert_eq!(*swarm.fetch_raw(&0), 9);
    assert_eq!(*swarm.fetch_raw(&1), 8);
    assert_eq!(*swarm.fetch_raw(&2), 7);
}

#[test]
fn factory_holds_a_kind_and_a_function() {
    let factory = Factory {
        type_def: 3,
        methode: |item: &mut u32, props: &mut u32| {
            *item = 5;
            *props += 1;
        },
        marker: PhantomData,
    };
    let mut item = 0;
    let mut props = 0;
    (factory.methode)(&mut item, &mut props);
    assert_eq!(factory.type_def, 3);
    assert_eq!((item, props), (5, 1));
}

#[test]
fn control_properties_are_reached_by_field_and_by_method() {
    let mut swarm = Swarm::<u32, u32>::new(4, 5);
    swarm.populate(&[1, 2]);
    swarm.update(|ctl| {
        assert_eq!(*ctl.properties(), ctl.properties);
        *ctl.properties_mut() += 1;
    });
    assert_eq!(*swarm.properties(), 7);
}
