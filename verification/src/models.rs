//! The records the service works on: due-dated task entries and their owning
//! users, together with entry validation.

use vstd::prelude::*;
use vstd::string::StringExecFns;
use crate::date::{Date, DateModel, spec_date_diff, spec_valid_date};
use crate::text::{spec_parse_i32, spec_parse_i64, spec_parse_u32, parse_i32_str, parse_i64_str,
    parse_u32_str};

verus! {

/// A due-dated task entry. The due date is stored as text and parsed into a
/// `Date` on demand; `created` and `updated` are timestamps in seconds since
/// the Unix epoch, assigned by the store.
#[derive(Debug, Clone)]
pub struct Entry {
    pub id: String,
    pub username: String,
    pub year: String,
    pub month: String,
    pub day: String,
    pub task: String,
    pub reminder: Option<String>,
    pub expired: String,
    pub created: i64,
    pub updated: i64,
    pub user_id: String,
}

/// The fields a client supplies when creating or replacing an entry.
#[derive(Debug, Clone)]
pub struct EntryWrite {
    pub year: String,
    pub month: String,
    pub day: String,
    pub task: String,
    pub reminder: Option<String>,
}

/// The fields a client may supply when patching an entry.
#[derive(Debug, Clone)]
pub struct EntryPatch {
    pub year: Option<String>,
    pub month: Option<String>,
    pub day: Option<String>,
    pub task: Option<String>,
    pub reminder: Option<String>,
}

/// The filters a client may supply when listing entries.
#[derive(Debug, Clone)]
pub struct EntryParams {
    pub username: Option<String>,
    pub year: Option<String>,
    pub month: Option<String>,
    pub day: Option<String>,
    pub reminder: Option<String>,
    pub expired: Option<String>,
}

/// A registered user. The UTC offset is stored as text; absence means UTC.
#[derive(Debug, Clone)]
pub struct User {
    pub id: String,
    pub username: String,
    pub password: String,
    pub email: String,
    pub utc_offset: Option<String>,
}

/// The fields a client may supply when patching a user.
#[derive(Debug, Clone)]
pub struct UserPatch {
    pub password: Option<String>,
    pub utc_offset: Option<String>,
}

/// A plain message body for service replies.
#[derive(Debug, Clone)]
pub struct Response {
    pub message: String,
}

/// The date-only part of entry validation, independent of the clock: the
/// error message for an entry whose due-date components do not parse or do
/// not form a valid date, `None` when they do.
pub open spec fn spec_entry_date_error(e: Entry) -> Option<Seq<char>> {
    if spec_parse_i32(e.year@) is None {
        Some("Invalid year"@)
    } else if spec_parse_u32(e.month@) is None {
        Some("Invalid month"@)
    } else if spec_parse_u32(e.day@) is None {
        Some("Invalid day"@)
    } else if !spec_valid_date(
        spec_parse_i32(e.year@)->0,
        spec_parse_u32(e.month@)->0,
        spec_parse_u32(e.day@)->0,
    ) {
        Some("Invalid date"@)
    } else {
        None
    }
}

/// The parsed due date of an entry whose date components are valid.
pub open spec fn spec_entry_due_date(e: Entry) -> DateModel {
    DateModel {
        year: spec_parse_i32(e.year@)->0,
        month: spec_parse_u32(e.month@)->0,
        day: spec_parse_u32(e.day@)->0,
    }
}

/// The full entry validation against a given current date: the error message
/// for the first failing check, `None` when the entry is acceptable. The
/// checks run in the order the service applies them: due-date shape and
/// validity, date not in the past, task present, reminder well-formed and no
/// further out than the due date.
pub open spec fn spec_entry_error(e: Entry, today: DateModel) -> Option<Seq<char>> {
    match spec_entry_date_error(e) {
        Some(m) => Some(m),
        None => {
            let due = spec_entry_due_date(e);
            if spec_date_diff(due, today) < 0 {
                Some("Date has passed"@)
            } else if e.task@.len() < 1 {
                Some("No task present"@)
            } else {
                match e.reminder {
                    Some(rs) => match spec_parse_i64(rs@) {
                        None => Some("Invalid reminder"@),
                        Some(rem) => if rem > 0 && rem > spec_date_diff(due, today) {
                            Some("Reminder too great for due date"@)
                        } else {
                            None
                        },
                    },
                    None => None,
                }
            }
        },
    }
}

/// Validates an entry against a given current date. Returns the first
/// failing check's message, exactly as `spec_entry_error` lays them out.
pub fn entry_validate_at(entry: &Entry, today: &Date) -> (r: Result<(), String>)
    requires
        today.wf(),
    ensures
        match r {
            Ok(()) => spec_entry_error(*entry, today@) is None,
            Err(m) => spec_entry_error(*entry, today@) == Some(m@),
        },
{
    let year = match parse_i32_str(entry.year.as_str()) {
        Some(v) => v,
        None => { return Err(String::from_str("Invalid year")); },
    };
    let month = match parse_u32_str(entry.month.as_str()) {
        Some(v) => v,
        None => { return Err(String::from_str("Invalid month")); },
    };
    let day = match parse_u32_str(entry.day.as_str()) {
        Some(v) => v,
        None => { return Err(String::from_str("Invalid day")); },
    };
    let test_date = match Date::new(year, month, day) {
        Ok(d) => d,
        Err(_) => { return Err(String::from_str("Invalid date")); },
    };
    let diff = Date::difference(&test_date, today);
    if diff < 0 {
        return Err(String::from_str("Date has passed"));
    }
    if entry.task.as_str().unicode_len() < 1 {
        return Err(String::from_str("No task present"));
    }
    match &entry.reminder {
        Some(rs) => {
            let rem = match parse_i64_str(rs.as_str()) {
                Some(v) => v,
                None => { return Err(String::from_str("Invalid reminder")); },
            };
            if rem > 0 && rem > diff {
                return Err(String::from_str("Reminder too great for due date"));
            }
            Ok(())
        },
        None => Ok(()),
    }
}

/// Validates an entry against the current UTC date. The date-shape checks do
/// not depend on the clock, and their outcome is pinned here; the "has the
/// date passed" and reminder-window checks are exact in `entry_validate_at`.
pub fn entry_validate(entry: &Entry) -> (r: Result<(), String>)
    ensures
        match spec_entry_date_error(*entry) {
            Some(m) => r matches Err(e) && e@ == m,
            None => true,
        },
        r is Ok ==> spec_entry_date_error(*entry) is None,
{
    let today = Date::today();
    entry_validate_at(entry, &today)
}

/// Builds a fresh entry from a client write: the record fields the store
/// assigns later are left empty, the expired flag starts false, and the
/// timestamps start at the smallest representable instant.
pub fn entry_from_entry_write(src: &EntryWrite, username: &str) -> (r: Entry)
    ensures
        r.id@ == Seq::<char>::empty(),
        r.username@ == username@,
        r.year@ == src.year@,
        r.month@ == src.month@,
        r.day@ == src.day@,
        r.task@ == src.task@,
        r.reminder == src.reminder,
        r.expired@ == "false"@,
        r.created == i64::MIN,
        r.updated == i64::MIN,
        r.user_id@ == Seq::<char>::empty(),
{
    Entry {
        id: String::new(),
        username: username.to_owned(),
        year: src.year.clone(),
        month: src.month.clone(),
        day: src.day.clone(),
        task: src.task.clone(),
        reminder: src.reminder.clone(),
        expired: String::from_str("false"),
        created: i64::MIN,
        updated: i64::MIN,
        user_id: String::new(),
    }
}

/// Builds the replacement entry for an edit: the client's fields overwrite
/// the due date, task and reminder; everything else keeps the stored value.
pub fn entry_from_entry_write_edit(write: &EntryWrite, orig: &Entry) -> (r: Entry)
    ensures
        r.id@ == orig.id@,
        r.username@ == orig.username@,
        r.year@ == write.year@,
        r.month@ == write.month@,
        r.day@ == write.day@,
        r.task@ == write.task@,
        r.reminder == write.reminder,
        r.expired@ == orig.expired@,
        r.created == orig.created,
        r.updated == orig.updated,
        r.user_id@ == orig.user_id@,
{
    Entry {
        id: orig.id.clone(),
        username: orig.username.clone(),
        year: write.year.clone(),
        month: write.month.clone(),
        day: write.day.clone(),
        task: write.task.clone(),
        reminder: write.reminder.clone(),
        expired: orig.expired.clone(),
        created: orig.created,
        updated: orig.updated,
        user_id: orig.user_id.clone(),
    }
}

/// Applies a client patch to an entry: each supplied field overwrites the
/// stored one, absent fields leave it unchanged, and the record fields the
/// store owns are untouched.
pub fn apply_entry_patch(entry: &mut Entry, patch: &EntryPatch)
    ensures
        final(entry).year@ == (match patch.year { Some(ref v) => v@, None => old(entry).year@ }),
        final(entry).month@ == (match patch.month { Some(ref v) => v@, None => old(entry).month@ }),
        final(entry).day@ == (match patch.day { Some(ref v) => v@, None => old(entry).day@ }),
        final(entry).task@ == (match patch.task { Some(ref v) => v@, None => old(entry).task@ }),
        (match patch.reminder {
            Some(ref v) => final(entry).reminder matches Some(r) && r@ == v@,
            None => final(entry).reminder == old(entry).reminder,
        }),
        final(entry).id == old(entry).id,
        final(entry).username == old(entry).username,
        final(entry).expired == old(entry).expired,
        final(entry).created == old(entry).created,
        final(entry).updated == old(entry).updated,
        final(entry).user_id == old(entry).user_id,
{
    match &patch.year {
        Some(year) => { entry.year = year.clone(); },
        None => {},
    }
    match &patch.month {
        Some(month) => { entry.month = month.clone(); },
        None => {},
    }
    match &patch.day {
        Some(day) => { entry.day = day.clone(); },
        None => {},
    }
    match &patch.task {
        Some(task) => { entry.task = task.clone(); },
        None => {},
    }
    match &patch.reminder {
        Some(reminder) => { entry.reminder = Some(reminder.clone()); },
        None => {},
    }
}

/// Applies a client patch to a user: a supplied password or UTC offset
/// overwrites the stored one, absent fields leave it unchanged.
pub fn apply_user_patch(user: &mut User, patch: &UserPatch)
    ensures
        final(user).password@
            == (match patch.password { Some(ref v) => v@, None => old(user).password@ }),
        (match patch.utc_offset {
            Some(ref v) => final(user).utc_offset matches Some(o) && o@ == v@,
            None => final(user).utc_offset == old(user).utc_offset,
        }),
        final(user).id == old(user).id,
        final(user).username == old(user).username,
        final(user).email == old(user).email,
{
    match &patch.password {
        Some(password) => { user.password = password.clone(); },
        None => {},
    }
    match &patch.utc_offset {
        Some(utc_offset) => { user.utc_offset = Some(utc_offset.clone()); },
        None => {},
    }
}

} // verus!
