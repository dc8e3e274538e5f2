//! The reminder/expiration scheduler's decision logic: hour-boundary
//! detection with at-most-once-per-hour commitment, and the per-entry scan
//! decision taken at each task owner's local midnight.

use vstd::prelude::*;
use vstd::string::StringExecFns;
use crate::date::{Date, DateModel, spec_date_diff, spec_parse_date, spec_valid_date};
use crate::models::{Entry, User};
use crate::text::{spec_parse_i32, spec_parse_i64, parse_i32_str, parse_i64_str};

verus! {

/// Whether an observed wall-clock hour triggers a scan: it does exactly when
/// it differs from the last hour processed.
pub open spec fn spec_scan_fires(last_hour: int, hour: int) -> bool {
    hour != last_hour
}

/// The scheduler's private state: the last wall-clock hour it processed,
/// initialized to a sentinel distinct from every valid hour so that the
/// first tick always fires. Only the scheduler's own loop mutates it.
pub struct Scheduler {
    last_hour: i32,
}

impl Scheduler {
    /// The stored last-processed hour.
    pub closed spec fn last_hour(&self) -> int {
        self.last_hour as int
    }

    /// A fresh scheduler whose first tick always fires.
    pub fn new() -> (s: Self)
        ensures
            s.last_hour() == -1,
    {
        Scheduler { last_hour: -1 }
    }

    /// One tick of the loop: reports whether the scan body must run, and
    /// commits the observed hour *before* any scan work happens, so a scan
    /// that fails is not retried within the same hour.
    pub fn on_tick(&mut self, current_hour: i32) -> (fire: bool)
        requires
            0 <= current_hour <= 23,
        ensures
            fire == spec_scan_fires(old(self).last_hour(), current_hour as int),
            final(self).last_hour() == current_hour as int,
    {
        if current_hour != self.last_hour {
            self.last_hour = current_hour;
            true
        } else {
            false
        }
    }
}

/// Committing the hour before scanning makes the scan at-most-once per hour:
/// once an hour has fired and been stored, another tick observing the same
/// hour does not fire again.
pub proof fn lemma_at_most_one_scan_per_hour(last: int, h: int)
    ensures
        spec_scan_fires(last, h) ==> !spec_scan_fires(h, h),
{
}

/// What the scan decides for one entry.
#[derive(Debug, Clone, Copy, PartialEq, Eq, Structural)]
pub enum EntryDecision {
    /// It is not local midnight for the entry's owner: nothing to do.
    Skip,
    /// The owner's stored UTC offset does not parse: report and move on.
    InvalidOffset,
    /// The entry's due date does not parse: report and move on.
    InvalidDueDate,
    /// Local midnight: the actions to take for this entry.
    Act { send_reminder: bool, send_expiration: bool, mark_expired: bool },
}

/// A user's effective UTC offset: the parsed stored text, or zero when none
/// is stored. `None` when the stored text does not parse.
pub open spec fn spec_user_offset(u: User) -> Option<int> {
    match u.utc_offset {
        Some(s) => spec_parse_i32(s@),
        None => Some(0),
    }
}

/// The due-date text of an entry, in the parseable month/day/year form.
pub open spec fn spec_due_text(e: Entry) -> Seq<char> {
    e.month@ + seq!['/'] + e.day@ + seq!['/'] + e.year@
}

/// An entry's reminder lead-time, when present and parseable.
pub open spec fn spec_reminder(r: Option<String>) -> Option<int> {
    match r {
        Some(s) => spec_parse_i64(s@),
        None => None,
    }
}

/// The scan decision for one entry, given its owner, the wall-clock hour,
/// the current date and the two notification switches.
///
/// The owner's local hour is the wall-clock hour plus the stored offset,
/// compared with 0 without reduction modulo 24, as the service has always
/// done: a sum of 24 or -1 is simply not midnight. At local midnight, with
/// `dd` one more than the day distance from today to the due date: a
/// reminder is sent exactly when reminders are enabled and the entry carries
/// a lead-time equal to `dd`; the entry is marked expired exactly when it is
/// not yet expired and `dd <= 0`, and an expiration notice is sent for that
/// event exactly when expiration notices are enabled.
pub open spec fn spec_evaluate(
    e: Entry,
    u: User,
    hour: int,
    today: DateModel,
    reminders_enabled: bool,
    expirations_enabled: bool,
) -> EntryDecision {
    match spec_user_offset(u) {
        None => EntryDecision::InvalidOffset,
        Some(off) => if hour + off != 0 {
            EntryDecision::Skip
        } else {
            match spec_parse_date(spec_due_text(e)) {
                None => EntryDecision::InvalidDueDate,
                Some(due) => {
                    let dd = spec_date_diff(due, today) + 1;
                    let send_reminder = reminders_enabled && match spec_reminder(e.reminder) {
                        Some(rem) => dd == rem,
                        None => false,
                    };
                    let hit = e.expired@ == "false"@ && dd <= 0;
                    EntryDecision::Act {
                        send_reminder,
                        send_expiration: hit && expirations_enabled,
                        mark_expired: hit,
                    }
                },
            }
        },
    }
}

/// An entry's reminder lead-time in days, when it carries one that parses.
pub fn get_reminder(reminder: &Option<String>) -> (r: Option<i64>)
    ensures
        match r {
            Some(v) => spec_reminder(*reminder) == Some(v as int),
            None => spec_reminder(*reminder) is None,
        },
{
    match reminder {
        Some(rs) => parse_i64_str(rs.as_str()),
        None => None,
    }
}

/// Takes the scan decision for one entry, exactly as `spec_evaluate` lays
/// it out.
pub fn evaluate_entry(
    entry: &Entry,
    user: &User,
    current_hour: i32,
    today: &Date,
    reminders_enabled: bool,
    expirations_enabled: bool,
) -> (r: EntryDecision)
    requires
        today.wf(),
        0 <= current_hour <= 23,
    ensures
        r == spec_evaluate(
            *entry, *user, current_hour as int, today@, reminders_enabled, expirations_enabled),
{
    let offset: i32 = match &user.utc_offset {
        Some(s) => match parse_i32_str(s.as_str()) {
            Some(o) => o,
            None => { return EntryDecision::InvalidOffset; },
        },
        None => 0,
    };
    let adjusted_hour: i64 = current_hour as i64 + offset as i64;
    if adjusted_hour != 0 {
        return EntryDecision::Skip;
    }
    let mut text = String::new();
    text.append(entry.month.as_str());
    text.append("/");
    text.append(entry.day.as_str());
    text.append("/");
    text.append(entry.year.as_str());
    proof {
        reveal_strlit("/");
        assert(text@ =~= spec_due_text(*entry));
    }
    let due_date = match Date::parse(text.as_str()) {
        Ok(d) => d,
        Err(_) => { return EntryDecision::InvalidDueDate; },
    };
    let date_diff = Date::difference(&due_date, today) + 1;
    let send_reminder = reminders_enabled && match get_reminder(&entry.reminder) {
        Some(rem) => date_diff == rem,
        None => false,
    };
    let not_yet_expired = entry.expired == String::from_str("false");
    let hit = not_yet_expired && date_diff <= 0;
    EntryDecision::Act {
        send_reminder,
        send_expiration: hit && expirations_enabled,
        mark_expired: hit,
    }
}

/// Marks an entry expired: the one-way flag flip the scan persists. Every
/// other field keeps its value.
pub fn mark_entry_expired(entry: &mut Entry)
    ensures
        final(entry).expired@ == "true"@,
        final(entry).id == old(entry).id,
        final(entry).username == old(entry).username,
        final(entry).year == old(entry).year,
        final(entry).month == old(entry).month,
        final(entry).day == old(entry).day,
        final(entry).task == old(entry).task,
        final(entry).reminder == old(entry).reminder,
        final(entry).created == old(entry).created,
        final(entry).updated == old(entry).updated,
        final(entry).user_id == old(entry).user_id,
{
    entry.expired = String::from_str("true");
}

/// The reminder is a single-day trigger, not a window: for a fixed due date
/// and lead time, the days-until-due equality holds on at most one current
/// date, so the reminder fires on exactly the one day that far before the
/// due date.
pub proof fn lemma_reminder_single_day(due: DateModel, t1: DateModel, t2: DateModel, lead: int)
    requires
        spec_valid_date(t1.year, t1.month, t1.day),
        spec_valid_date(t2.year, t2.month, t2.day),
        t1 != t2,
    ensures
        !(spec_date_diff(due, t1) + 1 == lead && spec_date_diff(due, t2) + 1 == lead),
{
    crate::date::lemma_day_index_injective(t1, t2);
}

/// An entry already marked expired is never expired or notified again:
/// whatever the owner, hour, current date and configuration, its scan
/// decision carries no expiration action.
pub proof fn lemma_expiration_fires_at_most_once(
    e: Entry,
    u: User,
    hour: int,
    today: DateModel,
    reminders_enabled: bool,
    expirations_enabled: bool,
)
    requires
        e.expired@ == "true"@,
    ensures
        match spec_evaluate(e, u, hour, today, reminders_enabled, expirations_enabled) {
            EntryDecision::Act { send_reminder, send_expiration, mark_expired } =>
                !send_expiration && !mark_expired,
            _ => true,
        },
{
    reveal_strlit("true");
    reveal_strlit("false");
    assert("true"@.len() == 4);
    assert("false"@.len() == 5);
}

} // verus!
