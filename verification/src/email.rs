//! Notification message composition: the sender account a dispatcher is
//! built with, and the exact subject, body and address fields of reminder
//! and expiration messages. Transport is the dispatcher's own concern.

use vstd::prelude::*;
use vstd::string::StringExecFns;
use crate::date::{Date, DateModel, spec_format_date};

verus! {

/// The sender account a notification dispatcher is built with: address,
/// password and relay host.
#[derive(Debug, Clone)]
pub struct Email {
    cred_user: String,
    cred_pass: String,
    smtp: String,
}

/// The mathematical model of an `Email` sender account.
pub ghost struct EmailModel {
    pub cred_user: Seq<char>,
    pub cred_pass: Seq<char>,
    pub smtp: Seq<char>,
}

impl View for Email {
    type V = EmailModel;

    closed spec fn view(&self) -> EmailModel {
        EmailModel { cred_user: self.cred_user@, cred_pass: self.cred_pass@, smtp: self.smtp@ }
    }
}

impl Email {
    /// Builds a dispatcher account from its credentials and relay host.
    pub fn new(email: &str, password: &str, smtp: &str) -> (r: Self)
        ensures
            r@.cred_user == email@,
            r@.cred_pass == password@,
            r@.smtp == smtp@,
    {
        Self {
            cred_user: email.to_owned(),
            cred_pass: password.to_owned(),
            smtp: smtp.to_owned(),
        }
    }

    /// The sender address.
    pub fn cred_user(&self) -> (r: &String)
        ensures
            r@ == self@.cred_user,
    {
        &self.cred_user
    }

    /// The sender password.
    pub fn cred_pass(&self) -> (r: &String)
        ensures
            r@ == self@.cred_pass,
    {
        &self.cred_pass
    }

    /// The relay host.
    pub fn smtp(&self) -> (r: &String)
        ensures
            r@ == self@.smtp,
    {
        &self.smtp
    }
}

/// The subject line of a notification.
pub open spec fn spec_subject(expired: bool) -> Seq<char> {
    if expired { "Task Due Today!"@ } else { "Task Reminder!"@ }
}

/// The body of a notification: the wording differs by kind, the formatted
/// due date is embedded, and the task text follows after a blank line.
pub open spec fn spec_body(task: Seq<char>, due: DateModel, expired: bool) -> Seq<char> {
    if expired {
        "The following task has expired ("@ + spec_format_date(due) + ")\n\n"@ + task
    } else {
        "The following task is due on: "@ + spec_format_date(due) + "\n\n"@ + task
    }
}

/// The sender field of a notification: the service's name with the sender
/// address in angle brackets.
pub open spec fn spec_from_field(sender: Seq<char>) -> Seq<char> {
    "Task-Server <"@ + sender + ">"@
}

/// The recipient field of a notification: the user's name with their address
/// in angle brackets.
pub open spec fn spec_to_field(username: Seq<char>, email: Seq<char>) -> Seq<char> {
    username + " <"@ + email + ">"@
}

/// The subject line of a notification, exactly as `spec_subject` lays it
/// out.
pub fn compose_subject(expired: bool) -> (r: String)
    ensures
        r@ == spec_subject(expired),
{
    if expired {
        String::from_str("Task Due Today!")
    } else {
        String::from_str("Task Reminder!")
    }
}

/// The body of a notification, exactly as `spec_body` lays it out.
pub fn compose_body(task: &str, due_date: &Date, expired: bool) -> (r: String)
    requires
        due_date.wf(),
    ensures
        r@ == spec_body(task@, due_date@, expired),
{
    let mut out = String::new();
    if expired {
        out.append("The following task has expired (");
        let d = due_date.format();
        out.append(d.as_str());
        out.append(")\n\n");
    } else {
        out.append("The following task is due on: ");
        let d = due_date.format();
        out.append(d.as_str());
        out.append("\n\n");
    }
    out.append(task);
    out
}

/// The sender field of a notification, exactly as `spec_from_field` lays it
/// out.
pub fn compose_from_field(sender: &str) -> (r: String)
    ensures
        r@ == spec_from_field(sender@),
{
    let mut out = String::new();
    out.append("Task-Server <");
    out.append(sender);
    out.append(">");
    out
}

/// The recipient field of a notification, exactly as `spec_to_field` lays
/// it out.
pub fn compose_to_field(username: &str, email: &str) -> (r: String)
    ensures
        r@ == spec_to_field(username@, email@),
{
    let mut out = String::new();
    out.append(username);
    out.append(" <");
    out.append(email);
    out.append(">");
    out
}

} // verus!
