use authelia_controller::name_order::name_precedes;
use authelia_controller::resources::{AccessControlRule, AccessControlRuleSpec, AccessPolicy};
use authelia_controller::sorting::sort_by_name;

fn named(name: &str, domain: &str) -> AccessControlRule {
    AccessControlRule::new(
        name.to_string(),
        AccessControlRuleSpec::new(domain.to_string(), AccessPolicy::Deny, None),
    )
}

#[test]
fn names_are_ordered_byte_by_byte() {
    assert!(name_precedes("a", "b"));
    assert!(!name_precedes("b", "a"));
    assert!(name_precedes("a", "a"));
    assert!(name_precedes("", ""));
    assert!(name_precedes("", "a"));
    assert!(!name_precedes("a", ""));
    assert!(name_precedes("Z", "a"));
    assert!(name_precedes("rule-10", "rule-2"));
}

#[test]
fn a_prefix_comes_first() {
    assert!(name_precedes("rule", "rule-1"));
    assert!(!name_precedes("rule-1", "rule"));
}

#[test]
fn names_are_ordered_as_strings_are() {
    let names = ["", "a", "ab", "b", "B", "\u{e9}", "z", "\u{1f600}", "rule-10", "rule-2", "~"];
    for a in names {
        for b in names {
            assert_eq!(name_precedes(a, b), a <= b, "{a:?} {b:?}");
        }
    }
}

#[test]
fn sorting_orders_by_name() {
    let sorted = sort_by_name(vec![
        named("c", "3"),
        named("a", "1"),
        named("d", "4"),
        named("b", "2"),
    ]);
    let names: Vec<&str> = sorted.iter().map(|rule| rule.name()).collect();
    assert_eq!(names, vec!["a", "b", "c", "d"]);
    let domains: Vec<&str> = sorted.iter().map(|rule| rule.spec().domain()).collect();
    assert_eq!(domains, vec!["1", "2", "3", "4"]);
}

#[test]
fn sorting_keeps_rules_of_one_name_in_their_order() {
    let sorted = sort_by_name(vec![
        named("b", "first b"),
        named("a", "first a"),
        named("b", "second b"),
        named("a", "second a"),
        named("b", "third b"),
    ]);
    let domains: Vec<&str> = sorted.iter().map(|rule| rule.spec().domain()).collect();
    assert_eq!(
        domains,
        vec!["first a", "second a", "first b", "second b", "third b"]
    );
}

#[test]
fn sorting_agrees_with_a_stable_sort() {
    let names = ["m", "a", "z", "m", "b", "a", "", "zz", "m", "B"];
    let rules: Vec<AccessControlRule> = names
        .iter()
        .enumerate()
        .map(|(i, name)| named(name, &i.to_string()))
        .collect();
    let mut expected = rules.clone();
    expected.sort_by_cached_key(|rule| rule.name().to_string());
    assert_eq!(sort_by_name(rules), expected);
}

#[test]
fn sorting_nothing_gives_nothing() {
    assert_eq!(sort_by_name(Vec::new()), Vec::new());
    assert_eq!(sort_by_name(vec![named("only", "1")]), vec![named("only", "1")]);
}
