use rrule_text::window::{is_after, is_before};

#[test]
fn bounds_are_exclusive_by_default() {
    assert!(!is_after(10, 10, None));
    assert!(is_after(11, 10, None));
    assert!(!is_before(10, 10, Some(false)));
    assert!(is_before(9, 10, None));
}

#[test]
fn inclusive_bounds_count_the_bound() {
    assert!(is_after(10, 10, Some(true)));
    assert!(!is_after(9, 10, Some(true)));
    assert!(is_before(10, 10, Some(true)));
    assert!(!is_before(11, 10, Some(true)));
}
