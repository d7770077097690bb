use toaster::clock::DateFields;
use toaster::string_util::{chars_of, is_legal_username, is_start_with, now, time_to_string};

#[test]
fn prefix_of_vector() {
    assert!(is_start_with(&vec![1u64, 2, 3], &vec![1, 2]));
    assert!(is_start_with(&vec![1u64, 2, 3], &vec![1, 2, 3]));
    assert!(is_start_with(&vec![1u64, 2, 3], &vec![]));
    assert!(!is_start_with(&vec![1u64, 2, 3], &vec![2]));
    assert!(!is_start_with(&vec![1u64], &vec![1, 2]));
    assert!(is_start_with(&vec!["a".to_string()], &vec!["a".to_string()]));
}

#[test]
fn user_names_are_lower_case_letters_and_digits() {
    assert!(is_legal_username("abc123"));
    assert!(is_legal_username(""));
    assert!(!is_legal_username("Abc"));
    assert!(!is_legal_username("a_b"));
    assert!(!is_legal_username("名字"));
}

fn date(year: i32, month: u32, day: u32, hour: u32, minute: u32) -> DateFields {
    DateFields { year, month, day, hour, minute }
}

#[test]
fn time_stamp_format() {
    assert_eq!(time_to_string(&date(2025, 3, 7, 9, 5)), "250307-09:05");
    assert_eq!(time_to_string(&date(2024, 12, 31, 23, 59)), "241231-23:59");
    assert_eq!(time_to_string(&date(2000, 1, 1, 0, 0)), "000101-00:00");
    assert_eq!(time_to_string(&date(4012, 10, 10, 10, 10)), "121010-10:10");
}

#[test]
fn time_stamp_keeps_year_remainder_sign_and_width() {
    assert_eq!(time_to_string(&date(1999, 1, 2, 3, 4)), "19990102-03:04");
    assert_eq!(time_to_string(&date(-5, 1, 2, 3, 4)), "-50102-03:04");
    assert_eq!(time_to_string(&date(-2005, 1, 2, 3, 4)), "-50102-03:04");
    assert_eq!(time_to_string(&date(i32::MIN, 1, 2, 3, 4)), "-16480102-03:04");
}

#[test]
fn now_has_the_stamp_shape() {
    let s = now();
    let cs: Vec<char> = s.chars().collect();
    assert_eq!(cs.len(), 12);
    assert_eq!(cs[6], '-');
    assert_eq!(cs[9], ':');
}

#[test]
fn chars_in_order() {
    assert_eq!(chars_of("a中b"), vec!['a', '中', 'b']);
}
