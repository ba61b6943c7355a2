use basics::conditional::{
    club, condition, condition_line, entry, majority, Entry, GUARDIAN_AGE, MAJORITY_AGE,
};

#[test]
fn the_ages_are_those_of_the_demonstration() {
    assert_eq!(MAJORITY_AGE, 18);
    assert_eq!(GUARDIAN_AGE, 16);
}

#[test]
fn majority_starts_at_eighteen() {
    assert!(!majority(0));
    assert!(!majority(16));
    assert!(!majority(17));
    assert!(majority(18));
    assert!(majority(19));
    assert!(majority(255));
}

#[test]
fn an_adult_enters_with_or_without_authorization() {
    assert_eq!(entry(18, true), Entry::Adult);
    assert_eq!(entry(18, false), Entry::Adult);
    assert_eq!(entry(40, false), Entry::Adult);
    assert_eq!(entry(255, true), Entry::Adult);
}

#[test]
fn a_minor_of_sixteen_enters_only_when_authorized() {
    assert_eq!(entry(16, true), Entry::Authorized);
    assert_eq!(entry(17, true), Entry::Authorized);
    assert_eq!(entry(16, false), Entry::Refused);
    assert_eq!(entry(17, false), Entry::Refused);
}

#[test]
fn a_minor_under_sixteen_never_enters() {
    assert_eq!(entry(15, true), Entry::Refused);
    assert_eq!(entry(15, false), Entry::Refused);
    assert_eq!(entry(0, true), Entry::Refused);
}

#[test]
fn entry_follows_the_thresholds_at_every_age() {
    let mut age: u8 = 0;
    loop {
        for authorized in [false, true] {
            let expected = if age >= 18 {
                Entry::Adult
            } else if age >= 16 && authorized {
                Entry::Authorized
            } else {
                Entry::Refused
            };
            assert_eq!(entry(age, authorized), expected);
        }
        if age == u8::MAX {
            break;
        }
        age += 1;
    }
}

#[test]
fn each_outcome_has_its_message() {
    assert_eq!(Entry::Adult.message(), "You can enter the club.");
    assert_eq!(
        Entry::Authorized.message(),
        "You can enter the club, since you are at least 16 and authorized by your legal guardian."
    );
    assert_eq!(Entry::Refused.message(), "You can't enter the club.");
}

#[test]
fn condition_names_adult_and_minor() {
    assert_eq!(condition(true), "adult");
    assert_eq!(condition(false), "minor");
}

#[test]
fn condition_line_names_the_condition() {
    assert_eq!(condition_line(true), "You are a(n) adult.");
    assert_eq!(condition_line(false), "You are a(n) minor.");
}

#[test]
fn club_for_an_authorized_sixteen_year_old() {
    assert_eq!(
        club(16, true),
        vec![
            "You can enter the club, since you are at least 16 and authorized by your legal guardian.",
            "You are a(n) minor.",
        ]
    );
}

#[test]
fn club_for_an_adult() {
    assert_eq!(
        club(18, false),
        vec!["You can enter the club.", "You are a(n) adult."]
    );
    assert_eq!(
        club(30, true),
        vec!["You can enter the club.", "You are a(n) adult."]
    );
}

#[test]
fn club_for_a_refused_minor() {
    assert_eq!(
        club(16, false),
        vec!["You can't enter the club.", "You are a(n) minor."]
    );
    assert_eq!(
        club(15, true),
        vec!["You can't enter the club.", "You are a(n) minor."]
    );
}
