//! Request-side checks around users: basic-auth credential matching, email
//! and UTC-offset validation, and user-record lookups over a loaded user
//! list.

use vstd::prelude::*;
use vstd::string::StringExecFns;
use base64::Engine;
use crate::models::User;
use crate::text::{
    find_char, parse_i32_str, spec_find_char, spec_parse_i32, str_eq, ws_token_bounds, ws_tokens,
};

verus! {

/// The standard base64 rendering of a text's bytes: a fixed function of the
/// text alone.
pub uninterp spec fn base64_of(s: Seq<char>) -> Seq<char>;

/// Relies on base64's `STANDARD` engine: encoding is deterministic in the
/// input bytes, and a `&str`'s bytes are determined by its characters.
#[verifier::external_body]
fn b64_encode(s: &str) -> (r: String)
    ensures
        r@ == base64_of(s@),
{
    base64::engine::general_purpose::STANDARD.encode(s.as_bytes())
}

/// The credential text a user's name and password form: the standard base64
/// rendering of `name:password`.
pub open spec fn spec_user_credential(user_name: Seq<char>, user_password: Seq<char>) -> Seq<char> {
    base64_of(user_name + ":"@ + user_password)
}

/// The base64 credential for a user name and password.
fn get_b64(user_name: &str, user_password: &str) -> (r: String)
    ensures
        r@ == spec_user_credential(user_name@, user_password@),
{
    let mut combined = String::new();
    combined.append(user_name);
    combined.append(":");
    combined.append(user_password);
    b64_encode(combined.as_str())
}

/// Whether a presented credential is exactly this user's: the standard
/// base64 rendering of `name:password`.
pub fn check_user(b64: &str, user_name: &str, user_password: &str) -> (r: bool)
    ensures
        r == (b64@ == spec_user_credential(user_name@, user_password@)),
{
    let user_b64 = get_b64(user_name, user_password);
    str_eq(b64, user_b64.as_str())
}

/// An acceptable email address: it holds an `@` and a `.`, and the first `@`
/// comes before the first `.`.
pub open spec fn spec_valid_email(s: Seq<char>) -> bool {
    match (spec_find_char(s, '@'), spec_find_char(s, '.')) {
        (Some(a), Some(d)) => a < d,
        _ => false,
    }
}

/// Whether a text is an acceptable email address.
pub fn validate_email(email: &str) -> (r: bool)
    ensures
        r == spec_valid_email(email@),
{
    match find_char(email, '@') {
        Some(c_at) => match find_char(email, '.') {
            Some(c_dot) => c_at < c_dot,
            None => false,
        },
        None => false,
    }
}

/// An acceptable stored UTC offset: a signed integer in [-12, 14].
pub open spec fn spec_valid_utc_offset(s: Seq<char>) -> bool {
    match spec_parse_i32(s) {
        Some(v) => -12 <= v <= 14,
        None => false,
    }
}

/// Whether a text is an acceptable stored UTC offset.
pub fn validate_utc_offset(utc_offset_str: &str) -> (r: bool)
    ensures
        r == spec_valid_utc_offset(utc_offset_str@),
{
    match parse_i32_str(utc_offset_str) {
        Some(utc) => -12 <= utc && utc <= 14,
        None => false,
    }
}

/// The word `basic` in any ASCII case mix.
pub open spec fn spec_matches_basic(v: Seq<char>) -> bool {
    &&& v.len() == 5
    &&& (v[0] == 'b' || v[0] == 'B')
    &&& (v[1] == 'a' || v[1] == 'A')
    &&& (v[2] == 's' || v[2] == 'S')
    &&& (v[3] == 'i' || v[3] == 'I')
    &&& (v[4] == 'c' || v[4] == 'C')
}

/// The credential carried by an authorization header value: the header must
/// hold exactly two whitespace-separated words, the first reading `basic`
/// case-insensitively; the credential is the second.
pub open spec fn spec_basic_auth(s: Seq<char>) -> Option<Seq<char>> {
    let ts = ws_tokens(s);
    if ts.len() == 2 && spec_matches_basic(ts[0]) {
        Some(ts[1])
    } else {
        None
    }
}

/// Extracts the credential from an authorization header value, exactly as
/// `spec_basic_auth` lays it out.
pub fn parse_basic_auth(header: &str) -> (r: Option<String>)
    ensures
        match r {
            Some(v) => spec_basic_auth(header@) == Some(v@),
            None => spec_basic_auth(header@) is None,
        },
{
    let (starts, ends) = ws_token_bounds(header);
    if starts.len() != 2 {
        return None;
    }
    let a = starts[0];
    let b = ends[0];
    proof {
        assert(ws_tokens(header@)[0] == header@.subrange(a as int, b as int));
        assert(ws_tokens(header@)[1]
            == header@.subrange(starts@[1] as int, ends@[1] as int));
    }
    if b - a != 5 {
        return None;
    }
    let c0 = header.get_char(a);
    let c1 = header.get_char(a + 1);
    let c2 = header.get_char(a + 2);
    let c3 = header.get_char(a + 3);
    let c4 = header.get_char(a + 4);
    if (c0 == 'b' || c0 == 'B') && (c1 == 'a' || c1 == 'A') && (c2 == 's' || c2 == 'S')
        && (c3 == 'i' || c3 == 'I') && (c4 == 'c' || c4 == 'C') {
        let token = header.substring_char(starts[1], ends[1]);
        Some(token.to_owned())
    } else {
        None
    }
}

/// The id of the first user carrying the given name, if any.
pub open spec fn spec_find_user_id(users: Seq<User>, name: Seq<char>) -> Option<Seq<char>>
    decreases users.len()
{
    if users.len() == 0 {
        None
    } else if users[0].username@ == name {
        Some(users[0].id@)
    } else {
        spec_find_user_id(users.drop_first(), name)
    }
}

/// Looks a user id up by name, taking the first match in list order.
pub fn get_user_id_from_username(users: &Vec<User>, username: &str) -> (r: Result<String, ()>)
    ensures
        match r {
            Ok(id) => spec_find_user_id(users@, username@) == Some(id@),
            Err(()) => spec_find_user_id(users@, username@) is None,
        },
{
    let n = users.len();
    let mut i: usize = 0;
    proof {
        assert(users@.skip(0) =~= users@);
    }
    while i < n
        invariant
            n == users@.len(),
            i <= n,
            spec_find_user_id(users@.skip(i as int), username@)
                == spec_find_user_id(users@, username@),
        decreases n - i,
    {
        proof {
            assert(users@.skip(i as int)[0] == users@[i as int]);
            assert(users@.skip(i as int).drop_first() =~= users@.skip(i + 1));
        }
        if str_eq(users[i].username.as_str(), username) {
            return Ok(users[i].id.clone());
        }
        i = i + 1;
    }
    proof {
        assert(users@.skip(n as int).len() == 0);
    }
    Err(())
}

/// The name of the first user whose credential matches, if any.
pub open spec fn spec_auth_username(users: Seq<User>, b64: Seq<char>) -> Option<Seq<char>>
    decreases users.len()
{
    if users.len() == 0 {
        None
    } else if b64 == spec_user_credential(users[0].username@, users[0].password@) {
        Some(users[0].username@)
    } else {
        spec_auth_username(users.drop_first(), b64)
    }
}

/// The user name an authorization header identifies against a user list:
/// the header's credential must match some user's, the first in list order.
pub open spec fn spec_header_username(users: Seq<User>, header: Seq<char>) -> Option<Seq<char>> {
    match spec_basic_auth(header) {
        Some(b) => spec_auth_username(users, b),
        None => None,
    }
}

/// Resolves an authorization header value to the user it identifies,
/// exactly as `spec_header_username` lays it out.
pub fn get_username_from_base64(users: &Vec<User>, authorization: &str) -> (r: Option<String>)
    ensures
        match r {
            Some(name) => spec_header_username(users@, authorization@) == Some(name@),
            None => spec_header_username(users@, authorization@) is None,
        },
{
    let user64 = match parse_basic_auth(authorization) {
        Some(v) => v,
        None => { return None; },
    };
    let n = users.len();
    let mut i: usize = 0;
    proof {
        assert(users@.skip(0) =~= users@);
    }
    while i < n
        invariant
            n == users@.len(),
            i <= n,
            spec_basic_auth(authorization@) == Some(user64@),
            spec_auth_username(users@.skip(i as int), user64@)
                == spec_auth_username(users@, user64@),
        decreases n - i,
    {
        proof {
            assert(users@.skip(i as int)[0] == users@[i as int]);
            assert(users@.skip(i as int).drop_first() =~= users@.skip(i + 1));
        }
        if check_user(user64.as_str(), users[i].username.as_str(), users[i].password.as_str()) {
            proof {
                assert(spec_auth_username(users@.skip(i as int), user64@)
                    == Some(users@[i as int].username@));
            }
            return Some(users[i].username.clone());
        }
        i = i + 1;
    }
    proof {
        assert(users@.skip(n as int).len() == 0);
    }
    None
}

/// The per-field part of user validation: the error for a user whose email
/// or stored UTC offset is unacceptable, `None` when both pass.
pub open spec fn spec_user_field_error(u: User) -> Option<Seq<char>> {
    if !spec_valid_email(u.email@) {
        Some("Invalid email address format"@)
    } else {
        match u.utc_offset {
            Some(o) => if !spec_valid_utc_offset(o@) {
                Some("Invalid utc-offset"@)
            } else {
                None
            },
            None => None,
        }
    }
}

/// The duplicate check over existing users, in list order: the first user
/// sharing the candidate's name yields one message, sharing only its email
/// another.
pub open spec fn spec_user_dup_error(users: Seq<User>, u: User) -> Option<Seq<char>>
    decreases users.len()
{
    if users.len() == 0 {
        None
    } else if users[0].username@ == u.username@ {
        Some("Username in use"@)
    } else if users[0].email@ == u.email@ {
        Some("Email in use"@)
    } else {
        spec_user_dup_error(users.drop_first(), u)
    }
}

/// The full validation of a new user against the existing list: duplicates
/// first, then the per-field checks.
pub open spec fn spec_user_error(users: Seq<User>, u: User) -> Option<Seq<char>> {
    match spec_user_dup_error(users, u) {
        Some(m) => Some(m),
        None => spec_user_field_error(u),
    }
}

/// Validates a new user against the existing list, exactly as
/// `spec_user_error` lays it out.
pub fn validate_user(users: &Vec<User>, test_user: &User) -> (r: Result<(), String>)
    ensures
        match r {
            Ok(()) => spec_user_error(users@, *test_user) is None,
            Err(m) => spec_user_error(users@, *test_user) == Some(m@),
        },
{
    let n = users.len();
    let mut i: usize = 0;
    proof {
        assert(users@.skip(0) =~= users@);
    }
    while i < n
        invariant
            n == users@.len(),
            i <= n,
            spec_user_dup_error(users@.skip(i as int), *test_user)
                == spec_user_dup_error(users@, *test_user),
        decreases n - i,
    {
        proof {
            assert(users@.skip(i as int)[0] == users@[i as int]);
            assert(users@.skip(i as int).drop_first() =~= users@.skip(i + 1));
        }
        if str_eq(users[i].username.as_str(), test_user.username.as_str()) {
            return Err(String::from_str("Username in use"));
        } else if str_eq(users[i].email.as_str(), test_user.email.as_str()) {
            return Err(String::from_str("Email in use"));
        }
        i = i + 1;
    }
    proof {
        assert(users@.skip(n as int).len() == 0);
    }
    validate_user_partial(test_user)
}

/// Validates a user's own fields, exactly as `spec_user_field_error` lays
/// them out.
pub fn validate_user_partial(test_user: &User) -> (r: Result<(), String>)
    ensures
        match r {
            Ok(()) => spec_user_field_error(*test_user) is None,
            Err(m) => spec_user_field_error(*test_user) == Some(m@),
        },
{
    if !validate_email(test_user.email.as_str()) {
        return Err(String::from_str("Invalid email address format"));
    }
    match &test_user.utc_offset {
        Some(o) => {
            if !validate_utc_offset(o.as_str()) {
                Err(String::from_str("Invalid utc-offset"))
            } else {
                Ok(())
            }
        },
        None => Ok(()),
    }
}

} // verus!
