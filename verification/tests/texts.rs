use peter::lists::{contains, copy_vec, difference, distinct, is_subset, remove_all, sort};
use peter::text::{decimal_string, push_decimal, push_four_digits, same_text};

#[test]
fn decimal_string_writes_the_numeral() {
    assert_eq!(decimal_string(0), "0");
    assert_eq!(decimal_string(7), "7");
    assert_eq!(decimal_string(10), "10");
    assert_eq!(decimal_string(1234567890), "1234567890");
    assert_eq!(decimal_string(u128::MAX), u128::MAX.to_string());
}

#[test]
fn push_decimal_appends_to_what_is_there() {
    let mut out = "n=".to_string();
    push_decimal(&mut out, 405);
    assert_eq!(out, "n=405");
}

#[test]
fn push_four_digits_fills_with_zeros() {
    for (n, expected) in [(0u16, "0000"), (7, "0007"), (42, "0042"), (999, "0999"), (1000, "1000"), (9999, "9999"), (12345, "12345")] {
        let mut out = String::new();
        push_four_digits(&mut out, n);
        assert_eq!(out, expected);
    }
}

#[test]
fn same_text_compares_character_by_character() {
    assert!(same_text("vote", "vote"));
    assert!(!same_text("vote", "votE"));
    assert!(!same_text("vote", "vot"));
    assert!(same_text("", ""));
    assert!(same_text("Werwölfe", "Werwölfe"));
}

#[test]
fn sort_orders_ascending_and_keeps_every_entry() {
    assert_eq!(sort(&vec![5, 3, 9, 1, 3]), vec![1, 3, 3, 5, 9]);
    assert_eq!(sort(&vec![]), Vec::<u64>::new());
    assert_eq!(sort(&vec![u64::MAX, 0]), vec![0, u64::MAX]);
}

#[test]
fn difference_keeps_the_order_of_the_first_list() {
    assert_eq!(difference(&vec![4, 1, 3, 2], &vec![3, 4]), vec![1, 2]);
    assert_eq!(difference(&vec![1, 2], &vec![]), vec![1, 2]);
    assert_eq!(difference(&vec![], &vec![1]), Vec::<u64>::new());
}

#[test]
fn list_helpers_find_members_and_repetitions() {
    assert!(contains(&vec![1, 2, 3], 2));
    assert!(!contains(&vec![1, 2, 3], 4));
    assert!(distinct(&vec![1, 2, 3]));
    assert!(!distinct(&vec![1, 2, 1]));
    assert!(is_subset(&vec![3, 1], &vec![1, 2, 3]));
    assert!(!is_subset(&vec![3, 4], &vec![1, 2, 3]));
    assert_eq!(remove_all(&vec![1, 2, 1, 3], 1), vec![2, 3]);
    assert_eq!(copy_vec(&vec![9u64, 8]), vec![9, 8]);
}
