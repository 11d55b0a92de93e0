use sandbox::holdable::{pick_up, throw};
use sandbox::lifetime::{handle_lifetimes, Lifetime};
use sandbox::phys::movement::Timer;

#[test]
fn lifetimes_run_out_in_order() {
    let mut l = vec![(1, Lifetime::new(10)), (2, Lifetime::new(100)), (3, Lifetime::new(15))];
    assert_eq!(handle_lifetimes(&mut l, 15), vec![1, 3]);
    assert_eq!(l[0].1.lifetime, Timer { duration: 10, elapsed: 10 });
    assert_eq!(l[1].1.lifetime, Timer { duration: 100, elapsed: 15 });
    assert_eq!(handle_lifetimes(&mut l, 85), vec![1, 2, 3]);
    assert!(handle_lifetimes(&mut vec![], 5).is_empty());
}

#[test]
fn zero_lifetime_expires_at_once() {
    let mut l = vec![(9, Lifetime::new(0))];
    assert_eq!(handle_lifetimes(&mut l, 0), vec![9]);
}

#[test]
fn pick_up_first_holdable_touched() {
    let colliding = vec![4, 7, 8];
    let holdables = vec![8, 7];
    assert_eq!(pick_up(false, true, &colliding, &holdables), Some(7));
    assert_eq!(pick_up(true, true, &colliding, &holdables), None);
    assert_eq!(pick_up(false, false, &colliding, &holdables), None);
    assert_eq!(pick_up(false, true, &vec![4], &holdables), None);
}

#[test]
fn throw_only_when_pressed() {
    assert_eq!(throw(Some(3), true), Some(3));
    assert_eq!(throw(Some(3), false), None);
    assert_eq!(throw(None, true), None);
}
