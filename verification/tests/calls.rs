use snippets::calls::{additions, adds_many_ints, adds_two_ints, noop_call, panics_on_42};

#[test]
fn sums_are_exact() {
    noop_call();
    assert_eq!(adds_two_ints(1, 2), 3);
    assert_eq!(adds_two_ints(i32::MAX, i32::MIN), -1);
    assert_eq!(adds_many_ints(1, 2, 3, 4, 5, 6, 7, 8), 36);
    assert_eq!(adds_many_ints(-1, 1, -2, 2, -3, 3, i32::MAX, 0), i32::MAX);
    panics_on_42(41);
    assert_eq!(additions(), (3, 36));
}
