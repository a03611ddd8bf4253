use para_dt::key::ReorderKey;
use std::cmp::Ordering;

fn k(v: &[usize]) -> ReorderKey {
    ReorderKey(v.to_vec())
}

#[test]
fn inc_bumps_last_counter() {
    let mut a = k(&[1, 4]);
    a.inc();
    assert_eq!(a.0, vec![1, 5]);
}

#[test]
fn push_opens_child_level() {
    let mut a = k(&[2]);
    a.push();
    assert_eq!(a.0, vec![2, 0]);
}

#[test]
fn root_key_is_single_zero() {
    assert_eq!(ReorderKey::root().0, vec![0]);
}

#[test]
fn can_inc_needs_room_and_a_counter() {
    assert!(k(&[0]).can_inc());
    assert!(!k(&[]).can_inc());
    assert!(!k(&[3, usize::MAX]).can_inc());
}

#[test]
fn longer_key_with_common_prefix_is_less() {
    assert!(k(&[1, 0]).lt(&k(&[1])));
    assert!(!k(&[1]).lt(&k(&[1, 0])));
    assert_eq!(k(&[1, 0]).compare(&k(&[1])), Ordering::Less);
    assert_eq!(k(&[1]).compare(&k(&[1, 0])), Ordering::Greater);
}

#[test]
fn first_difference_decides() {
    assert!(k(&[0]).lt(&k(&[1, 0])));
    assert!(k(&[1, 0, 5]).lt(&k(&[1, 1])));
    assert_eq!(k(&[2, 7]).compare(&k(&[2, 3])), Ordering::Greater);
}

#[test]
fn equal_keys_compare_equal() {
    assert_eq!(k(&[3, 1]).compare(&k(&[3, 1])), Ordering::Equal);
    assert!(!k(&[3, 1]).lt(&k(&[3, 1])));
    assert_eq!(k(&[]).compare(&k(&[])), Ordering::Equal);
}

#[test]
fn handoff_keys_form_increasing_sequence() {
    // frame [0], child subtree under [1, ..], next frame [1], child under [2, ..], frame [2]
    let seq = [
        k(&[0]),
        k(&[1, 0]),
        k(&[1, 1, 0]),
        k(&[1, 1]),
        k(&[1]),
        k(&[2, 0]),
        k(&[2]),
    ];
    for i in 0..seq.len() {
        for j in 0..seq.len() {
            assert_eq!(seq[i].lt(&seq[j]), i < j, "{:?} vs {:?}", seq[i], seq[j]);
        }
    }
}

#[test]
fn duplicate_keeps_counters() {
    let a = k(&[4, 0, 2]);
    assert_eq!(a.duplicate().0, vec![4, 0, 2]);
}
