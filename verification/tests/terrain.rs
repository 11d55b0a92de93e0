use sandbox::phys::terrain::{handle_platforms, ContactPair, Platform};

fn contact(e1: u64, e2: u64, penetrating: bool, normal1_up: bool, normal2_up: bool) -> ContactPair {
    ContactPair { e1, e2, penetrating, normal1_up, normal2_up }
}

#[test]
fn contacts_without_platform_are_kept() {
    let mut platforms = vec![(10, Platform::new())];
    let kept = handle_platforms(&mut platforms, &vec![1, 2], &vec![contact(1, 2, true, false, false)]);
    assert_eq!(kept, vec![true]);
}

#[test]
fn landing_from_above_is_kept() {
    let mut platforms = vec![(10, Platform::new())];
    let kept = handle_platforms(&mut platforms, &vec![1], &vec![contact(10, 1, true, true, false)]);
    assert_eq!(kept, vec![true]);
    assert!(!platforms[0].1.is_passing(1));
}

#[test]
fn entering_from_below_passes_through_until_out() {
    let mut platforms = vec![(10, Platform::new())];
    let passers = vec![1];
    let kept = handle_platforms(
        &mut platforms,
        &passers,
        &vec![
            contact(1, 10, true, false, false),
            contact(10, 1, true, true, false),
            contact(10, 1, false, true, false),
        ],
    );
    assert_eq!(kept, vec![false, false, true]);
    assert!(!platforms[0].1.is_passing(1));
}

#[test]
fn passing_entity_is_remembered_between_calls() {
    let mut platforms = vec![(10, Platform::new())];
    let kept = handle_platforms(&mut platforms, &vec![1], &vec![contact(10, 1, true, false, false)]);
    assert_eq!(kept, vec![false]);
    assert!(platforms[0].1.is_passing(1));
    let kept = handle_platforms(&mut platforms, &vec![1], &vec![contact(10, 1, true, true, false)]);
    assert_eq!(kept, vec![false]);
}

#[test]
fn non_passer_penetrating_from_below_is_kept() {
    let mut platforms = vec![(10, Platform::new()), (11, Platform::new())];
    let kept = handle_platforms(&mut platforms, &vec![], &vec![contact(10, 11, true, false, false)]);
    assert_eq!(kept, vec![true]);
    assert!(!platforms[0].1.is_passing(11));
}
