use std::cmp::Ordering;

use duck_sort::duck::{sample_ducks, Duck};
use duck_sort::order::compare_names;
use duck_sort::render::{decimal_string, display_lines, fixed_two_string};
use duck_sort::sort::sort_ducks;

fn duck(name: &str, weight: i64) -> Duck {
    Duck::new(name.to_string(), weight)
}

fn names_and_weights(ducks: &Vec<Duck>) -> Vec<(String, i64)> {
    ducks.iter().map(|d| (d.name().to_string(), d.weight())).collect()
}

#[test]
fn sorts_the_sample_by_weight_then_name() {
    let mut ducks = sample_ducks();
    sort_ducks(&mut ducks);
    let got: Vec<String> = ducks.iter().map(|d| d.name().to_string()).collect();
    assert_eq!(got, vec!["Dewey", "Huey", "Louie", "Howard", "Daffy", "Donald"]);
    let weights: Vec<i64> = ducks.iter().map(|d| d.weight()).collect();
    assert_eq!(weights, vec![200, 200, 200, 700, 800, 1000]);
}

#[test]
fn sample_is_in_listed_order() {
    let ducks = sample_ducks();
    let expected: Vec<(String, i64)> = vec![
        ("Daffy".to_string(), 800),
        ("Dewey".to_string(), 200),
        ("Howard".to_string(), 700),
        ("Louie".to_string(), 200),
        ("Donald".to_string(), 1000),
        ("Huey".to_string(), 200),
    ];
    assert_eq!(names_and_weights(&ducks), expected);
}

#[test]
fn renders_daffy_with_two_decimals() {
    assert_eq!(duck("Daffy", 800).to_string(), "The duck Daffy weights 8.00 kg.");
}

#[test]
fn renders_fractional_and_negative_weights() {
    assert_eq!(fixed_two_string(805), "8.05");
    assert_eq!(fixed_two_string(1234), "12.34");
    assert_eq!(fixed_two_string(7), "0.07");
    assert_eq!(fixed_two_string(0), "0.00");
    assert_eq!(fixed_two_string(-50), "-0.50");
    assert_eq!(fixed_two_string(i64::MIN), "-92233720368547758.08");
    assert_eq!(fixed_two_string(i64::MAX), "92233720368547758.07");
}

#[test]
fn decimal_digits() {
    assert_eq!(decimal_string(0), "0");
    assert_eq!(decimal_string(9), "9");
    assert_eq!(decimal_string(10), "10");
    assert_eq!(decimal_string(u64::MAX), "18446744073709551615");
}

#[test]
fn display_shows_each_duck_in_order() {
    let ducks = sample_ducks();
    let lines = display_lines(&ducks);
    assert_eq!(lines.len(), 6);
    assert_eq!(lines[0], "The duck Daffy weights 8.00 kg.");
    assert_eq!(lines[4], "The duck Donald weights 10.00 kg.");
    assert_eq!(lines[5], "The duck Huey weights 2.00 kg.");
}

#[test]
fn display_sort_display_keeps_every_line() {
    let mut ducks = sample_ducks();
    let mut before = display_lines(&ducks);
    sort_ducks(&mut ducks);
    let after = display_lines(&ducks);
    assert_eq!(after[0], "The duck Dewey weights 2.00 kg.");
    assert_eq!(after[5], "The duck Donald weights 10.00 kg.");
    let mut sorted_after = after.clone();
    before.sort();
    sorted_after.sort();
    assert_eq!(before, sorted_after);
}

#[test]
fn sorting_twice_changes_nothing() {
    let mut once = sample_ducks();
    sort_ducks(&mut once);
    let first = names_and_weights(&once);
    sort_ducks(&mut once);
    assert_eq!(names_and_weights(&once), first);
}

#[test]
fn sorting_is_deterministic() {
    let mut a = sample_ducks();
    let mut b = sample_ducks();
    b.reverse();
    sort_ducks(&mut a);
    sort_ducks(&mut b);
    assert_eq!(names_and_weights(&a), names_and_weights(&b));
}

#[test]
fn sort_of_empty_and_single() {
    let mut none: Vec<Duck> = Vec::new();
    sort_ducks(&mut none);
    assert!(none.is_empty());
    let mut one = vec![duck("Huey", 200)];
    sort_ducks(&mut one);
    assert_eq!(names_and_weights(&one), vec![("Huey".to_string(), 200)]);
}

#[test]
fn sort_keeps_equal_ducks() {
    let mut ducks = vec![duck("Huey", 200), duck("Dewey", 200), duck("Huey", 200), duck("Ann", -100)];
    sort_ducks(&mut ducks);
    let expected: Vec<(String, i64)> = vec![
        ("Ann".to_string(), -100),
        ("Dewey".to_string(), 200),
        ("Huey".to_string(), 200),
        ("Huey".to_string(), 200),
    ];
    assert_eq!(names_and_weights(&ducks), expected);
}

#[test]
fn comparison_by_weight_then_name() {
    assert_eq!(duck("Donald", 1000).cmp(&duck("Daffy", 800)), Ordering::Greater);
    assert_eq!(duck("Daffy", 800).cmp(&duck("Donald", 1000)), Ordering::Less);
    assert_eq!(duck("Dewey", 200).cmp(&duck("Huey", 200)), Ordering::Less);
    assert_eq!(duck("Louie", 200).cmp(&duck("Huey", 200)), Ordering::Greater);
    assert_eq!(duck("Huey", 200).cmp(&duck("Huey", 200)), Ordering::Equal);
    assert_eq!(duck("Zed", 100).cmp(&duck("Abe", 200)), Ordering::Less);
}

#[test]
fn equality_and_less_follow_the_comparison() {
    assert!(duck("Huey", 200) == duck("Huey", 200));
    assert!(duck("Huey", 200) != duck("Huey", 201));
    assert!(duck("Huey", 200) != duck("Hughie", 200));
    assert!(duck("Dewey", 200) < duck("Huey", 200));
    assert!(!(duck("Huey", 200) < duck("Huey", 200)));
    assert_eq!(duck("Dewey", 200).partial_cmp(&duck("Huey", 200)), Some(Ordering::Less));
}

#[test]
fn names_compare_lexicographically() {
    assert_eq!(compare_names("Huey", "Hue"), Ordering::Greater);
    assert_eq!(compare_names("Hue", "Huey"), Ordering::Less);
    assert_eq!(compare_names("", ""), Ordering::Equal);
    assert_eq!(compare_names("", "a"), Ordering::Less);
    assert_eq!(compare_names("Zed", "abe"), Ordering::Less);
    assert_eq!(compare_names("é", "z"), Ordering::Greater);
    assert_eq!(compare_names("Louie", "Louie"), Ordering::Equal);
}
