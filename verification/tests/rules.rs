use wan_switch::command::{Command, CommandError};
use wan_switch::rules::{
    add_ip_rule, del_ip_rule_quiet, ip_rule_exists, ip_rule_list, InsertionStep, RuleInsertion,
};

const LISTING: &str = "0:\tfrom all lookup local\n1000:\tfrom 10.40.0.5/32 lookup 200\n2000:\tfrom 10.40.0.0/20 lookup 100\n32766:\tfrom all lookup main\n32767:\tfrom all lookup default\n";

fn failure(detail: &str) -> CommandError {
    CommandError {
        command_line: "ip rule show".to_string(),
        started: true,
        detail: detail.to_string(),
    }
}

#[test]
fn rule_listing_command_is_rule_show() {
    assert_eq!(ip_rule_list(), Command::ListRules);
}

#[test]
fn listed_rule_is_found() {
    assert!(ip_rule_exists(LISTING, "10.40.0.5/32", 200));
    assert!(ip_rule_exists(LISTING, "10.40.0.0/20", 100));
    assert!(ip_rule_exists(LISTING, "all", 0) == false);
}

#[test]
fn rule_of_another_table_or_selector_is_not_found() {
    assert!(!ip_rule_exists(LISTING, "10.40.0.5/32", 100));
    assert!(!ip_rule_exists(LISTING, "10.40.0.6/32", 200));
    assert!(!ip_rule_exists(LISTING, "10.40.0.0/20", 200));
    assert!(!ip_rule_exists("", "10.40.0.5/32", 200));
}

#[test]
fn selector_and_table_must_stand_on_one_line() {
    let split = "1000:\tfrom 10.40.0.5/32\n lookup 200\n";
    assert!(!ip_rule_exists(split, "10.40.0.5/32", 200));
}

#[test]
fn rule_of_a_table_with_more_digits_is_another_rule() {
    let listing = "1000:\tfrom 10.40.0.5/32 lookup 2000\n";
    assert!(!ip_rule_exists(listing, "10.40.0.5/32", 200));
    assert!(ip_rule_exists(listing, "10.40.0.5/32", 2000));
    assert!(!ip_rule_exists(listing, "10.40.0.5/32", 20));
    let listing = "1000: from 10.40.0.5/32 lookup 2000\n1000: from 10.40.0.5/32 lookup 200 \n";
    assert!(ip_rule_exists(listing, "10.40.0.5/32", 200));
}

#[test]
fn selector_must_be_the_one_asked_for() {
    let listing = "1000:\tfrom 110.40.0.5/32 lookup 200\n1000:\tfrom 10.40.0.50/32 lookup 200\n";
    assert!(!ip_rule_exists(listing, "10.40.0.5/32", 200));
    assert!(!ip_rule_exists(listing, "0.40.0.5/32", 200));
    assert!(ip_rule_exists(listing, "110.40.0.5/32", 200));
    // A host selector that the listing shows without its mask length is
    // not recognised.
    assert!(!ip_rule_exists("1000:\tfrom 10.40.0.5 lookup 200\n", "10.40.0.5/32", 200));
}

#[test]
fn deletion_names_selector_and_table() {
    assert_eq!(
        del_ip_rule_quiet("10.40.0.5/32", 200),
        Command::DeleteRule { from: "10.40.0.5/32".to_string(), table: 200 }
    );
}

#[test]
fn insertion_starts_with_the_listing() {
    let (insertion, command) = add_ip_rule("10.40.0.5/32", 200, 1000);
    assert_eq!(
        insertion,
        RuleInsertion::Listing { from: "10.40.0.5/32".to_string(), table: 200, priority: 1000 }
    );
    assert_eq!(command, Command::ListRules);
}

#[test]
fn listed_rule_is_not_added_again() {
    let (insertion, _) = add_ip_rule("10.40.0.5/32", 200, 1000);
    assert_eq!(insertion.advance(Ok(LISTING.to_string())), InsertionStep::Done(Ok(())));
}

#[test]
fn missing_rule_is_added_with_its_priority() {
    let (insertion, _) = add_ip_rule("10.40.0.6/32", 200, 1000);
    let step = insertion.advance(Ok(LISTING.to_string()));
    assert_eq!(
        step,
        InsertionStep::Run(
            RuleInsertion::Adding,
            Command::AddRule { from: "10.40.0.6/32".to_string(), table: 200, priority: 1000 },
        )
    );
    assert_eq!(RuleInsertion::Adding.advance(Ok(String::new())), InsertionStep::Done(Ok(())));
}

#[test]
fn failed_listing_ends_the_insertion() {
    let (insertion, _) = add_ip_rule("10.40.0.6/32", 200, 1000);
    assert_eq!(
        insertion.advance(Err(failure("permission denied"))),
        InsertionStep::Done(Err(failure("permission denied")))
    );
}

#[test]
fn failed_addition_ends_the_insertion() {
    assert_eq!(
        RuleInsertion::Adding.advance(Err(failure("RTNETLINK answers: File exists"))),
        InsertionStep::Done(Err(failure("RTNETLINK answers: File exists")))
    );
}

#[test]
fn listing_in_the_printed_form_is_read_truly() {
    let held = [(1000u32, "10.40.0.5/32", 200u32), (2000, "10.40.0.0/20", 100), (1000, "10.40.0.7/32", 200)];
    let mut listing = String::new();
    for (priority, selector, table) in held {
        listing.push_str(&format!("{}:\tfrom {} lookup {}\n", priority, selector, table));
    }
    let selectors = ["10.40.0.5/32", "10.40.0.0/20", "10.40.0.7/32", "10.40.0.6/32", "0.40.0.5/32", "10.40.0.5/3", "10.40.0.5", "40.0.7/32"];
    for selector in selectors {
        for table in [100u32, 200, 300, 20, 10, 2000] {
            let there = held.iter().any(|rule| rule.1 == selector && rule.2 == table);
            assert_eq!(ip_rule_exists(&listing, selector, table), there);
        }
    }
}
