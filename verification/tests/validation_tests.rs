use task_server::auth::{
    check_user, get_user_id_from_username, get_username_from_base64, parse_basic_auth,
    validate_email, validate_user, validate_user_partial, validate_utc_offset,
};
use task_server::date::Date;
use task_server::email::{compose_body, compose_from_field, compose_subject, compose_to_field, Email};
use task_server::models::{
    apply_entry_patch, apply_user_patch, entry_from_entry_write, entry_from_entry_write_edit,
    entry_validate_at, Entry, EntryPatch, EntryWrite, User, UserPatch,
};

fn user(name: &str, password: &str, email: &str, offset: Option<&str>) -> User {
    User {
        id: format!("id-{}", name),
        username: String::from(name),
        password: String::from(password),
        email: String::from(email),
        utc_offset: offset.map(String::from),
    }
}

fn entry(year: &str, month: &str, day: &str, task: &str, reminder: Option<&str>) -> Entry {
    Entry {
        id: String::from("e-1"),
        username: String::from("alice"),
        year: String::from(year),
        month: String::from(month),
        day: String::from(day),
        task: String::from(task),
        reminder: reminder.map(String::from),
        expired: String::from("false"),
        created: 0,
        updated: 0,
        user_id: String::from("u-1"),
    }
}

#[test]
fn entry_validation_accepts_good_entry() {
    let today = Date::new(2030, 4, 10).unwrap();
    let e = entry("2030", "4", "12", "water the plants", Some("2"));
    assert!(entry_validate_at(&e, &today).is_ok());
}

#[test]
fn entry_validation_error_messages() {
    let today = Date::new(2030, 4, 10).unwrap();

    let e = entry("twenty", "4", "12", "t", None);
    assert_eq!(entry_validate_at(&e, &today).unwrap_err(), "Invalid year");

    let e = entry("2030", "x", "12", "t", None);
    assert_eq!(entry_validate_at(&e, &today).unwrap_err(), "Invalid month");

    let e = entry("2030", "4", "", "t", None);
    assert_eq!(entry_validate_at(&e, &today).unwrap_err(), "Invalid day");

    let e = entry("2030", "2", "30", "t", None);
    assert_eq!(entry_validate_at(&e, &today).unwrap_err(), "Invalid date");

    let e = entry("2030", "4", "9", "t", None);
    assert_eq!(entry_validate_at(&e, &today).unwrap_err(), "Date has passed");

    let e = entry("2030", "4", "12", "", None);
    assert_eq!(entry_validate_at(&e, &today).unwrap_err(), "No task present");

    let e = entry("2030", "4", "12", "t", Some("often"));
    assert_eq!(entry_validate_at(&e, &today).unwrap_err(), "Invalid reminder");

    let e = entry("2030", "4", "12", "t", Some("3"));
    assert_eq!(
        entry_validate_at(&e, &today).unwrap_err(),
        "Reminder too great for due date"
    );
}

#[test]
fn entry_write_conversions_keep_fields() {
    let w = EntryWrite {
        year: String::from("2030"),
        month: String::from("4"),
        day: String::from("12"),
        task: String::from("water the plants"),
        reminder: Some(String::from("2")),
    };
    let e = entry_from_entry_write(&w, "alice");
    assert_eq!(e.username, "alice");
    assert_eq!(e.year, "2030");
    assert_eq!(e.expired, "false");
    assert!(e.id.is_empty() && e.user_id.is_empty());

    let orig = entry("2029", "1", "1", "old task", None);
    let edited = entry_from_entry_write_edit(&w, &orig);
    assert_eq!(edited.id, orig.id);
    assert_eq!(edited.username, orig.username);
    assert_eq!(edited.year, "2030");
    assert_eq!(edited.task, "water the plants");
    assert_eq!(edited.expired, orig.expired);
}

#[test]
fn email_format_rule() {
    assert!(validate_email("alice@example.com"));
    assert!(!validate_email("alice.example@com"));
    assert!(!validate_email("alice@example"));
    assert!(!validate_email("alice.example.com"));
    assert!(!validate_email(""));
}

#[test]
fn utc_offset_range() {
    assert!(validate_utc_offset("0"));
    assert!(validate_utc_offset("-12"));
    assert!(validate_utc_offset("14"));
    assert!(!validate_utc_offset("-13"));
    assert!(!validate_utc_offset("15"));
    assert!(!validate_utc_offset("east"));
    assert!(!validate_utc_offset(""));
}

#[test]
fn credential_check_uses_real_encoding() {
    // "user:pass" encodes to this exact text under standard base64
    assert!(check_user("dXNlcjpwYXNz", "user", "pass"));
    assert!(!check_user("dXNlcjpwYXNz", "user", "other"));
    assert!(!check_user("user:pass", "user", "pass"));
}

#[test]
fn basic_auth_header_parsing() {
    assert_eq!(parse_basic_auth("Basic dXNlcjpwYXNz"), Some(String::from("dXNlcjpwYXNz")));
    assert_eq!(parse_basic_auth("basic  abc"), Some(String::from("abc")));
    assert_eq!(parse_basic_auth("Bearer abc"), None);
    assert_eq!(parse_basic_auth("Basic"), None);
    assert_eq!(parse_basic_auth("Basic a b"), None);
    assert_eq!(parse_basic_auth(""), None);
}

#[test]
fn header_resolves_to_matching_user() {
    let users = vec![
        user("bob", "hunter2", "bob@example.com", None),
        user("user", "pass", "user@example.com", None),
    ];
    assert_eq!(
        get_username_from_base64(&users, "Basic dXNlcjpwYXNz"),
        Some(String::from("user"))
    );
    assert_eq!(get_username_from_base64(&users, "Basic nope"), None);
    assert_eq!(get_username_from_base64(&users, "dXNlcjpwYXNz"), None);
}

#[test]
fn user_id_lookup() {
    let users = vec![
        user("bob", "hunter2", "bob@example.com", None),
        user("alice", "secret", "alice@example.com", None),
    ];
    assert_eq!(get_user_id_from_username(&users, "alice"), Ok(String::from("id-alice")));
    assert_eq!(get_user_id_from_username(&users, "carol"), Err(()));
}

#[test]
fn new_user_validation() {
    let users = vec![user("bob", "hunter2", "bob@example.com", None)];

    let fresh = user("alice", "secret", "alice@example.com", Some("-5"));
    assert!(validate_user(&users, &fresh).is_ok());

    let dup_name = user("bob", "x", "new@example.com", None);
    assert_eq!(validate_user(&users, &dup_name).unwrap_err(), "Username in use");

    let dup_mail = user("robert", "x", "bob@example.com", None);
    assert_eq!(validate_user(&users, &dup_mail).unwrap_err(), "Email in use");

    let bad_mail = user("carol", "x", "carol.example@com", None);
    assert_eq!(
        validate_user(&users, &bad_mail).unwrap_err(),
        "Invalid email address format"
    );

    let bad_offset = user("carol", "x", "carol@example.com", Some("25"));
    assert_eq!(validate_user(&users, &bad_offset).unwrap_err(), "Invalid utc-offset");

    let partial_ok = user("carol", "x", "carol@example.com", Some("14"));
    assert!(validate_user_partial(&partial_ok).is_ok());
}

#[test]
fn notification_composition() {
    let due = Date::new(2030, 4, 12).unwrap();
    assert_eq!(compose_subject(false), "Task Reminder!");
    assert_eq!(compose_subject(true), "Task Due Today!");
    assert_eq!(
        compose_body("water the plants", &due, false),
        "The following task is due on: 04/12/2030\n\nwater the plants"
    );
    assert_eq!(
        compose_body("water the plants", &due, true),
        "The following task has expired (04/12/2030)\n\nwater the plants"
    );
    assert_eq!(compose_from_field("tasks@example.com"), "Task-Server <tasks@example.com>");
    assert_eq!(compose_to_field("alice", "alice@example.com"), "alice <alice@example.com>");
}

#[test]
fn dispatcher_account_keeps_credentials() {
    let e = Email::new("tasks@example.com", "relay-password", "smtp.example.com");
    assert_eq!(e.cred_user().as_str(), "tasks@example.com");
    assert_eq!(e.cred_pass().as_str(), "relay-password");
    assert_eq!(e.smtp().as_str(), "smtp.example.com");
}

#[test]
fn entry_patch_overwrites_only_supplied_fields() {
    let mut e = entry("2030", "4", "12", "water the plants", Some("2"));
    let patch = EntryPatch {
        year: None,
        month: Some(String::from("5")),
        day: None,
        task: Some(String::from("repot the plants")),
        reminder: None,
    };
    apply_entry_patch(&mut e, &patch);
    assert_eq!(e.year, "2030");
    assert_eq!(e.month, "5");
    assert_eq!(e.day, "12");
    assert_eq!(e.task, "repot the plants");
    assert_eq!(e.reminder, Some(String::from("2")));
    assert_eq!(e.expired, "false");
}

#[test]
fn user_patch_overwrites_only_supplied_fields() {
    let mut u = user("alice", "secret", "alice@example.com", None);
    let patch = UserPatch {
        password: Some(String::from("better-secret")),
        utc_offset: Some(String::from("-5")),
    };
    apply_user_patch(&mut u, &patch);
    assert_eq!(u.password, "better-secret");
    assert_eq!(u.utc_offset, Some(String::from("-5")));
    assert_eq!(u.username, "alice");

    let keep = UserPatch { password: None, utc_offset: None };
    apply_user_patch(&mut u, &keep);
    assert_eq!(u.password, "better-secret");
    assert_eq!(u.utc_offset, Some(String::from("-5")));
}
