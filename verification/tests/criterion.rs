use fragger::Criterion;

#[test]
fn accepted_value_is_kept() {
    let value: Option<u32> = Some(4);
    assert_eq!(value.meets_criteria(|held| *held % 2 == 0), &Some(4));
}

#[test]
fn refused_value_is_dropped() {
    let value: Option<u32> = Some(5);
    assert_eq!(value.meets_criteria(|held| *held % 2 == 0), &None);
}

#[test]
fn nothing_stays_nothing() {
    let value: Option<u32> = None;
    assert_eq!(value.meets_criteria(|_| true), &None);
}

#[test]
fn kept_value_is_the_one_that_was_checked() {
    let value: Option<String> = Some(String::from("small.txt"));
    let kept = value.meets_criteria(|held| held.ends_with(".txt"));
    assert_eq!(kept.to_owned(), Some(String::from("small.txt")));
}
