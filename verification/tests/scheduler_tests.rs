use task_server::date::Date;
use task_server::models::{Entry, User};
use task_server::scheduler::{
    evaluate_entry, get_reminder, mark_entry_expired, EntryDecision, Scheduler,
};

fn sample_user(offset: Option<&str>) -> User {
    User {
        id: String::from("u-1"),
        username: String::from("alice"),
        password: String::from("secret"),
        email: String::from("alice@example.com"),
        utc_offset: offset.map(String::from),
    }
}

fn sample_entry(year: &str, month: &str, day: &str, reminder: Option<&str>, expired: &str) -> Entry {
    Entry {
        id: String::from("e-1"),
        username: String::from("alice"),
        year: String::from(year),
        month: String::from(month),
        day: String::from(day),
        task: String::from("water the plants"),
        reminder: reminder.map(String::from),
        expired: String::from(expired),
        created: 0,
        updated: 0,
        user_id: String::from("u-1"),
    }
}

#[test]
fn tick_fires_once_per_hour() {
    let mut sched = Scheduler::new();
    assert!(sched.on_tick(5));
    assert!(!sched.on_tick(5));
    assert!(sched.on_tick(6));
    assert!(!sched.on_tick(6));
}

#[test]
fn first_tick_always_fires() {
    let mut sched = Scheduler::new();
    assert!(sched.on_tick(0));
    assert!(!sched.on_tick(0));
}

#[test]
fn reminder_fires_only_at_lead_time() {
    let user = sample_user(None);
    let entry = sample_entry("2030", "4", "12", Some("3"), "false");

    let on_day = Date::new(2030, 4, 10).unwrap();
    match evaluate_entry(&entry, &user, 0, &on_day, true, true) {
        EntryDecision::Act { send_reminder, send_expiration, mark_expired } => {
            assert!(send_reminder);
            assert!(!send_expiration);
            assert!(!mark_expired);
        },
        other => panic!("unexpected decision {:?}", other),
    }

    let day_before = Date::new(2030, 4, 9).unwrap();
    match evaluate_entry(&entry, &user, 0, &day_before, true, true) {
        EntryDecision::Act { send_reminder, .. } => assert!(!send_reminder),
        other => panic!("unexpected decision {:?}", other),
    }

    let day_after = Date::new(2030, 4, 11).unwrap();
    match evaluate_entry(&entry, &user, 0, &day_after, true, true) {
        EntryDecision::Act { send_reminder, .. } => assert!(!send_reminder),
        other => panic!("unexpected decision {:?}", other),
    }
}

#[test]
fn reminder_needs_enable_flag() {
    let user = sample_user(None);
    let entry = sample_entry("2030", "4", "12", Some("3"), "false");
    let on_day = Date::new(2030, 4, 10).unwrap();
    match evaluate_entry(&entry, &user, 0, &on_day, false, true) {
        EntryDecision::Act { send_reminder, .. } => assert!(!send_reminder),
        other => panic!("unexpected decision {:?}", other),
    }
}

#[test]
fn expiration_fires_once_and_flag_flips() {
    let user = sample_user(None);
    let mut entry = sample_entry("2030", "4", "12", None, "false");

    let past_due = Date::new(2030, 4, 13).unwrap();
    match evaluate_entry(&entry, &user, 0, &past_due, true, true) {
        EntryDecision::Act { send_reminder, send_expiration, mark_expired } => {
            assert!(!send_reminder);
            assert!(send_expiration);
            assert!(mark_expired);
        },
        other => panic!("unexpected decision {:?}", other),
    }

    mark_entry_expired(&mut entry);
    assert_eq!(entry.expired, "true");

    let next_midnight = Date::new(2030, 4, 14).unwrap();
    match evaluate_entry(&entry, &user, 0, &next_midnight, true, true) {
        EntryDecision::Act { send_reminder, send_expiration, mark_expired } => {
            assert!(!send_reminder);
            assert!(!send_expiration);
            assert!(!mark_expired);
        },
        other => panic!("unexpected decision {:?}", other),
    }
}

#[test]
fn expiration_marks_even_when_notices_disabled() {
    let user = sample_user(None);
    let entry = sample_entry("2030", "4", "12", None, "false");
    let past_due = Date::new(2030, 4, 13).unwrap();
    match evaluate_entry(&entry, &user, 0, &past_due, true, false) {
        EntryDecision::Act { send_expiration, mark_expired, .. } => {
            assert!(!send_expiration);
            assert!(mark_expired);
        },
        other => panic!("unexpected decision {:?}", other),
    }
}

#[test]
fn due_day_itself_is_not_expired() {
    let user = sample_user(None);
    let entry = sample_entry("2030", "4", "12", None, "false");
    let due_day = Date::new(2030, 4, 12).unwrap();
    match evaluate_entry(&entry, &user, 0, &due_day, true, true) {
        EntryDecision::Act { send_expiration, mark_expired, .. } => {
            assert!(!send_expiration);
            assert!(!mark_expired);
        },
        other => panic!("unexpected decision {:?}", other),
    }
}

#[test]
fn scan_skips_outside_local_midnight() {
    let entry = sample_entry("2030", "4", "12", Some("3"), "false");

    let user_utc = sample_user(None);
    let today = Date::new(2030, 4, 10).unwrap();
    assert_eq!(evaluate_entry(&entry, &user_utc, 5, &today, true, true), EntryDecision::Skip);

    let user_east = sample_user(Some("-5"));
    match evaluate_entry(&entry, &user_east, 5, &today, true, true) {
        EntryDecision::Act { send_reminder, .. } => assert!(send_reminder),
        other => panic!("unexpected decision {:?}", other),
    }

    // a sum of 24 is not reduced modulo 24, so it is not midnight
    let user_far = sample_user(Some("14"));
    assert_eq!(evaluate_entry(&entry, &user_far, 10, &today, true, true), EntryDecision::Skip);
}

#[test]
fn scan_reports_bad_offset_and_bad_date() {
    let today = Date::new(2030, 4, 10).unwrap();
    let entry = sample_entry("2030", "4", "12", None, "false");

    let user_bad = sample_user(Some("east"));
    assert_eq!(
        evaluate_entry(&entry, &user_bad, 0, &today, true, true),
        EntryDecision::InvalidOffset,
    );

    let user = sample_user(None);
    let bad_entry = sample_entry("2030", "bee", "gees", None, "false");
    assert_eq!(
        evaluate_entry(&bad_entry, &user, 0, &today, true, true),
        EntryDecision::InvalidDueDate,
    );
}

#[test]
fn reminder_parses_text_lead_times() {
    assert_eq!(get_reminder(&Some(String::from("3"))), Some(3));
    assert_eq!(get_reminder(&Some(String::from("-2"))), Some(-2));
    assert_eq!(get_reminder(&Some(String::from("soon"))), None);
    assert_eq!(get_reminder(&Some(String::from(""))), None);
    assert_eq!(get_reminder(&None), None);
}
