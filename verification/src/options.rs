//! The service's configuration: seven `name=value` lines, one per setting,
//! parsed and rendered in a fixed order.

use vstd::prelude::*;
use vstd::string::StringExecFns;
use crate::text::{
    all_digits, dec_digits, dec_u64_string, digits_val, find_separators, lemma_split_at_positions,
    lines_of, parse_digit_run, split_on, str_range_eq, strip_cr, trim_bounds, trim_spec,
};

verus! {

/// The mathematical model of an `Options` value.
pub ghost struct OptionsModel {
    pub sender_email_address: Seq<char>,
    pub sender_email_password: Seq<char>,
    pub sender_email_smtp: Seq<char>,
    pub enable_reminder_emails: bool,
    pub enable_expired_emails: bool,
    pub server_ip: Seq<char>,
    pub server_port: int,
}

/// The service configuration, loaded once at process start.
#[derive(Debug)]
pub struct Options {
    sender_email_address: String,
    sender_email_password: String,
    sender_email_smtp: String,
    enable_reminder_emails: bool,
    enable_expired_emails: bool,
    server_ip: String,
    server_port: u16,
}

impl View for Options {
    type V = OptionsModel;

    closed spec fn view(&self) -> OptionsModel {
        OptionsModel {
            sender_email_address: self.sender_email_address@,
            sender_email_password: self.sender_email_password@,
            sender_email_smtp: self.sender_email_smtp@,
            enable_reminder_emails: self.enable_reminder_emails,
            enable_expired_emails: self.enable_expired_emails,
            server_ip: self.server_ip@,
            server_port: self.server_port as int,
        }
    }
}

/// A `name=value` line with the given name and a non-empty value: exactly
/// one `=`, the name before it, at least one character after it.
pub open spec fn spec_string_arg(line: Seq<char>, prefix: Seq<char>) -> Option<Seq<char>> {
    let f = split_on(line, '=');
    if f.len() == 2 && f[0] == prefix && f[1].len() > 0 {
        Some(f[1])
    } else {
        None
    }
}

/// The word `true` in any ASCII case mix.
pub open spec fn spec_matches_true(v: Seq<char>) -> bool {
    &&& v.len() == 4
    &&& (v[0] == 't' || v[0] == 'T')
    &&& (v[1] == 'r' || v[1] == 'R')
    &&& (v[2] == 'u' || v[2] == 'U')
    &&& (v[3] == 'e' || v[3] == 'E')
}

/// The word `false` in any ASCII case mix.
pub open spec fn spec_matches_false(v: Seq<char>) -> bool {
    &&& v.len() == 5
    &&& (v[0] == 'f' || v[0] == 'F')
    &&& (v[1] == 'a' || v[1] == 'A')
    &&& (v[2] == 'l' || v[2] == 'L')
    &&& (v[3] == 's' || v[3] == 'S')
    &&& (v[4] == 'e' || v[4] == 'E')
}

/// A `name=value` line whose value reads `true` or `false`, case-insensitively.
pub open spec fn spec_bool_arg(line: Seq<char>, prefix: Seq<char>) -> Option<bool> {
    let f = split_on(line, '=');
    if f.len() == 2 && f[0] == prefix {
        if spec_matches_true(f[1]) {
            Some(true)
        } else if spec_matches_false(f[1]) {
            Some(false)
        } else {
            None
        }
    } else {
        None
    }
}

/// A dotted-quad octet: a non-empty digit run valued at most 255.
pub open spec fn spec_octet_ok(p: Seq<char>) -> bool {
    p.len() > 0 && all_digits(p) && digits_val(p) <= 255
}

/// A dotted-quad address: four octets joined by `.`.
pub open spec fn spec_ip_ok(v: Seq<char>) -> bool {
    let o = split_on(v, '.');
    o.len() == 4 && spec_octet_ok(o[0]) && spec_octet_ok(o[1]) && spec_octet_ok(o[2])
        && spec_octet_ok(o[3])
}

/// A `name=value` line whose value is a dotted-quad address.
pub open spec fn spec_ip_arg(line: Seq<char>, prefix: Seq<char>) -> Option<Seq<char>> {
    match spec_string_arg(line, prefix) {
        Some(v) => if spec_ip_ok(v) { Some(v) } else { None },
        None => None,
    }
}

/// A `name=value` line whose value is a digit run that fits a port number.
pub open spec fn spec_port_arg(line: Seq<char>, prefix: Seq<char>) -> Option<int> {
    let f = split_on(line, '=');
    if f.len() == 2 && f[0] == prefix && f[1].len() > 0 && all_digits(f[1])
        && digits_val(f[1]) <= u16::MAX {
        Some(digits_val(f[1]))
    } else {
        None
    }
}

/// What parsing a configuration text yields: after trimming, exactly seven
/// lines, each carrying its setting in the fixed order; `None` as soon as
/// any line fails its own check.
pub open spec fn spec_options_from_text(s: Seq<char>) -> Option<OptionsModel> {
    let ls = lines_of(trim_spec(s));
    if ls.len() != 7 {
        None
    } else {
        let a = spec_string_arg(ls[0], "sender_email_address"@);
        let p = spec_string_arg(ls[1], "sender_email_password"@);
        let sm = spec_string_arg(ls[2], "sender_email_smtp"@);
        let rb = spec_bool_arg(ls[3], "enable_reminder_emails"@);
        let eb = spec_bool_arg(ls[4], "enable_expired_emails"@);
        let ip = spec_ip_arg(ls[5], "server_ip"@);
        let po = spec_port_arg(ls[6], "server_port"@);
        if a is Some && p is Some && sm is Some && rb is Some && eb is Some && ip is Some
            && po is Some {
            Some(OptionsModel {
                sender_email_address: a->0,
                sender_email_password: p->0,
                sender_email_smtp: sm->0,
                enable_reminder_emails: rb->0,
                enable_expired_emails: eb->0,
                server_ip: ip->0,
                server_port: po->0,
            })
        } else {
            None
        }
    }
}

/// The configuration rendered back into its file form, one `name=value`
/// line per setting, each ending in a newline.
pub open spec fn spec_options_text(m: OptionsModel) -> Seq<char> {
    "sender_email_address="@ + m.sender_email_address + "\n"@
        + "sender_email_password="@ + m.sender_email_password + "\n"@
        + "sender_email_smtp="@ + m.sender_email_smtp + "\n"@
        + "enable_reminder_emails="@ + spec_bool_text(m.enable_reminder_emails) + "\n"@
        + "enable_expired_emails="@ + spec_bool_text(m.enable_expired_emails) + "\n"@
        + "server_ip="@ + m.server_ip + "\n"@
        + "server_port="@ + dec_digits(m.server_port) + "\n"@
}

/// The lower-case rendering of a flag.
pub open spec fn spec_bool_text(b: bool) -> Seq<char> {
    if b { "true"@ } else { "false"@ }
}

/// Splits a line into its name and value around a single `=`, checking the
/// name. Yields the bounds of the value within the line.
fn split_line<'a>(line: &'a str, prefix: &str) -> (r: Option<(usize, usize)>)
    ensures
        ({
            let f = split_on(line@, '=');
            match r {
                Some((a, b)) => {
                    &&& f.len() == 2 && f[0] == prefix@
                    &&& a <= b <= line@.len()
                    &&& f[1] == line@.subrange(a as int, b as int)
                },
                None => !(f.len() == 2 && f[0] == prefix@),
            }
        }),
{
    let ps = find_separators(line, '=');
    proof {
        lemma_split_at_positions(line@, '=', ps@.map_values(|p: usize| p as int));
    }
    if ps.len() != 1 {
        return None;
    }
    let p = ps[0];
    let n = line.unicode_len();
    proof {
        assert(split_on(line@, '=')[0] =~= line@.subrange(0, p as int));
        assert(split_on(line@, '=')[1] =~= line@.subrange(p + 1, n as int));
    }
    if !str_range_eq(line, 0, p, prefix) {
        return None;
    }
    Some((p + 1, n))
}

impl Options {
    /// Parses a configuration text, exactly as `spec_options_from_text` lays
    /// it out.
    pub fn from_file_data(file_data: &str) -> (r: Result<Options, ()>)
        ensures
            match r {
                Ok(o) => spec_options_from_text(file_data@) == Some(o@),
                Err(()) => spec_options_from_text(file_data@) is None,
            },
    {
        let (ta, tb) = trim_bounds(file_data);
        let trimmed = file_data.substring_char(ta, tb);
        let ghost t = trim_spec(file_data@);
        let ps = find_separators(trimmed, '\n');
        proof {
            lemma_split_at_positions(t, '\n', ps@.map_values(|p: usize| p as int));
        }
        if ps.len() != 6 {
            return Err(());
        }
        let n = trimmed.unicode_len();
        proof {
            let qs = ps@.map_values(|p: usize| p as int);
            assert(qs[0] < qs[1] && qs[1] < qs[2] && qs[2] < qs[3] && qs[3] < qs[4]
                && qs[4] < qs[5] && qs[5] < t.len());
            assert(split_on(t, '\n')[0] =~= t.subrange(0, qs[0]));
            assert(split_on(t, '\n')[1] =~= t.subrange(qs[0] + 1, qs[1]));
            assert(split_on(t, '\n')[2] =~= t.subrange(qs[1] + 1, qs[2]));
            assert(split_on(t, '\n')[3] =~= t.subrange(qs[2] + 1, qs[3]));
            assert(split_on(t, '\n')[4] =~= t.subrange(qs[3] + 1, qs[4]));
            assert(split_on(t, '\n')[5] =~= t.subrange(qs[4] + 1, qs[5]));
            assert(split_on(t, '\n')[6] =~= t.subrange(qs[5] + 1, t.len() as int));
        }
        let l0 = line_at(trimmed, 0, ps[0], 0);
        let l1 = line_at(trimmed, ps[0] + 1, ps[1], 1);
        let l2 = line_at(trimmed, ps[1] + 1, ps[2], 2);
        let l3 = line_at(trimmed, ps[2] + 1, ps[3], 3);
        let l4 = line_at(trimmed, ps[3] + 1, ps[4], 4);
        let l5 = line_at(trimmed, ps[4] + 1, ps[5], 5);
        let l6 = line_at(trimmed, ps[5] + 1, n, 6);
        let sender_email_address = match Self::parse_string_argument(l0, "sender_email_address") {
            Some(v) => v,
            None => { return Err(()); },
        };
        let sender_email_password = match Self::parse_string_argument(l1, "sender_email_password") {
            Some(v) => v,
            None => { return Err(()); },
        };
        let sender_email_smtp = match Self::parse_string_argument(l2, "sender_email_smtp") {
            Some(v) => v,
            None => { return Err(()); },
        };
        let enable_reminder_emails = match Self::parse_bool_argument(l3, "enable_reminder_emails") {
            Some(v) => v,
            None => { return Err(()); },
        };
        let enable_expired_emails = match Self::parse_bool_argument(l4, "enable_expired_emails") {
            Some(v) => v,
            None => { return Err(()); },
        };
        let server_ip = match Self::parse_ip_argument(l5, "server_ip") {
            Some(v) => v,
            None => { return Err(()); },
        };
        let server_port = match Self::parse_u16_argument(l6, "server_port") {
            Some(v) => v,
            None => { return Err(()); },
        };
        Ok(Options {
            sender_email_address: sender_email_address.to_owned(),
            sender_email_password: sender_email_password.to_owned(),
            sender_email_smtp: sender_email_smtp.to_owned(),
            enable_reminder_emails,
            enable_expired_emails,
            server_ip: server_ip.to_owned(),
            server_port,
        })
    }

    /// The configured sender address.
    pub fn sender_email_address(&self) -> (r: &String)
        ensures
            r@ == self@.sender_email_address,
    {
        &self.sender_email_address
    }

    /// The configured sender password.
    pub fn sender_email_password(&self) -> (r: &String)
        ensures
            r@ == self@.sender_email_password,
    {
        &self.sender_email_password
    }

    /// The configured relay host.
    pub fn sender_email_smtp(&self) -> (r: &String)
        ensures
            r@ == self@.sender_email_smtp,
    {
        &self.sender_email_smtp
    }

    /// Whether reminder notifications are enabled.
    pub fn enable_reminder_emails(&self) -> (r: bool)
        ensures
            r == self@.enable_reminder_emails,
    {
        self.enable_reminder_emails
    }

    /// Whether expiration notifications are enabled.
    pub fn enable_expired_emails(&self) -> (r: bool)
        ensures
            r == self@.enable_expired_emails,
    {
        self.enable_expired_emails
    }

    /// The address the service listens on.
    pub fn server_ip(&self) -> (r: &String)
        ensures
            r@ == self@.server_ip,
    {
        &self.server_ip
    }

    /// The port the service listens on.
    pub fn server_port(&self) -> (r: u16)
        ensures
            r as int == self@.server_port,
    {
        self.server_port
    }

    /// Renders the configuration in its file form, exactly as
    /// `spec_options_text` lays it out.
    pub fn render(&self) -> (r: String)
        ensures
            r@ == spec_options_text(self@),
    {
        let mut out = String::new();
        out.append("sender_email_address=");
        out.append(self.sender_email_address.as_str());
        out.append("\n");
        out.append("sender_email_password=");
        out.append(self.sender_email_password.as_str());
        out.append("\n");
        out.append("sender_email_smtp=");
        out.append(self.sender_email_smtp.as_str());
        out.append("\n");
        out.append("enable_reminder_emails=");
        out.append(if self.enable_reminder_emails { "true" } else { "false" });
        out.append("\n");
        out.append("enable_expired_emails=");
        out.append(if self.enable_expired_emails { "true" } else { "false" });
        out.append("\n");
        out.append("server_ip=");
        out.append(self.server_ip.as_str());
        out.append("\n");
        out.append("server_port=");
        let port = dec_u64_string(self.server_port as u64);
        out.append(port.as_str());
        out.append("\n");
        out
    }

    fn parse_string_argument<'a>(line: &'a str, prefix: &str) -> (r: Option<&'a str>)
        ensures
            match r {
                Some(v) => spec_string_arg(line@, prefix@) == Some(v@),
                None => spec_string_arg(line@, prefix@) is None,
            },
    {
        match split_line(line, prefix) {
            Some((a, b)) => {
                if a == b {
                    None
                } else {
                    Some(line.substring_char(a, b))
                }
            },
            None => None,
        }
    }

    fn parse_bool_argument(line: &str, prefix: &str) -> (r: Option<bool>)
        ensures
            match r {
                Some(v) => spec_bool_arg(line@, prefix@) == Some(v),
                None => spec_bool_arg(line@, prefix@) is None,
            },
    {
        match split_line(line, prefix) {
            Some((a, b)) => {
                if b - a == 4 {
                    let c0 = line.get_char(a);
                    let c1 = line.get_char(a + 1);
                    let c2 = line.get_char(a + 2);
                    let c3 = line.get_char(a + 3);
                    if (c0 == 't' || c0 == 'T') && (c1 == 'r' || c1 == 'R')
                        && (c2 == 'u' || c2 == 'U') && (c3 == 'e' || c3 == 'E') {
                        Some(true)
                    } else {
                        None
                    }
                } else if b - a == 5 {
                    let c0 = line.get_char(a);
                    let c1 = line.get_char(a + 1);
                    let c2 = line.get_char(a + 2);
                    let c3 = line.get_char(a + 3);
                    let c4 = line.get_char(a + 4);
                    if (c0 == 'f' || c0 == 'F') && (c1 == 'a' || c1 == 'A')
                        && (c2 == 'l' || c2 == 'L') && (c3 == 's' || c3 == 'S')
                        && (c4 == 'e' || c4 == 'E') {
                        Some(false)
                    } else {
                        None
                    }
                } else {
                    None
                }
            },
            None => None,
        }
    }

    fn parse_ip_argument<'a>(line: &'a str, prefix: &str) -> (r: Option<&'a str>)
        ensures
            match r {
                Some(v) => spec_ip_arg(line@, prefix@) == Some(v@),
                None => spec_ip_arg(line@, prefix@) is None,
            },
    {
        match Self::parse_string_argument(line, prefix) {
            Some(v) => {
                if Self::validate_ip(v) {
                    Some(v)
                } else {
                    None
                }
            },
            None => None,
        }
    }

    fn parse_u16_argument(line: &str, prefix: &str) -> (r: Option<u16>)
        ensures
            match r {
                Some(v) => spec_port_arg(line@, prefix@) == Some(v as int),
                None => spec_port_arg(line@, prefix@) is None,
            },
    {
        match split_line(line, prefix) {
            Some((a, b)) => {
                match parse_digit_run(line, a, b) {
                    Some(v) => {
                        if v <= 65535 {
                            Some(v as u16)
                        } else {
                            None
                        }
                    },
                    None => None,
                }
            },
            None => None,
        }
    }

    /// Whether a text is a dotted-quad address of four octets, each at most
    /// 255.
    fn validate_ip(ip: &str) -> (r: bool)
        ensures
            r == spec_ip_ok(ip@),
    {
        let ps = find_separators(ip, '.');
        proof {
            lemma_split_at_positions(ip@, '.', ps@.map_values(|p: usize| p as int));
        }
        if ps.len() != 3 {
            return false;
        }
        let n = ip.unicode_len();
        proof {
            assert(split_on(ip@, '.')[0] =~= ip@.subrange(0, ps@[0] as int));
            assert(split_on(ip@, '.')[1] =~= ip@.subrange(ps@[0] + 1, ps@[1] as int));
            assert(split_on(ip@, '.')[2] =~= ip@.subrange(ps@[1] + 1, ps@[2] as int));
            assert(split_on(ip@, '.')[3] =~= ip@.subrange(ps@[2] + 1, n as int));
        }
        if !Self::validate_octet(ip, 0, ps[0]) {
            return false;
        }
        if !Self::validate_octet(ip, ps[0] + 1, ps[1]) {
            return false;
        }
        if !Self::validate_octet(ip, ps[1] + 1, ps[2]) {
            return false;
        }
        if !Self::validate_octet(ip, ps[2] + 1, n) {
            return false;
        }
        true
    }

    /// Whether the stretch `s[a..b]` is a single octet.
    fn validate_octet(s: &str, a: usize, b: usize) -> (r: bool)
        requires
            a <= b <= s@.len(),
        ensures
            r == spec_octet_ok(s@.subrange(a as int, b as int)),
    {
        match parse_digit_run(s, a, b) {
            Some(v) => v <= 255,
            None => false,
        }
    }
}

impl Default for Options {
    /// The built-in configuration used when no valid file is present:
    /// stand-in sender credentials, both notification kinds switched off,
    /// and the local loopback address.
    fn default() -> (r: Self)
        ensures
            r@.sender_email_address == "username@domain.com"@,
            r@.sender_email_password == "password123"@,
            r@.sender_email_smtp == "smtp.domain.com"@,
            r@.enable_reminder_emails == false,
            r@.enable_expired_emails == false,
            r@.server_ip == "127.0.0.1"@,
            r@.server_port == 8085,
    {
        Options {
            sender_email_address: String::from_str("username@domain.com"),
            sender_email_password: String::from_str("password123"),
            sender_email_smtp: String::from_str("smtp.domain.com"),
            enable_reminder_emails: false,
            enable_expired_emails: false,
            server_ip: String::from_str("127.0.0.1"),
            server_port: 8085,
        }
    }
}

/// One line of the trimmed text: the stretch between two newline positions,
/// with a trailing carriage return removed.
fn line_at<'a>(trimmed: &'a str, start: usize, end: usize, k: u32) -> (r: &'a str)
    requires
        start <= end <= trimmed@.len(),
        ({
            let ls = lines_of(trimmed@);
            0 <= k < ls.len()
                && ls[k as int] == strip_cr(trimmed@.subrange(start as int, end as int))
        }),
    ensures
        r@ == lines_of(trimmed@)[k as int],
{
    let stripped_end = if end > start && trimmed.get_char(end - 1) == '\r' { end - 1 } else { end };
    let r = trimmed.substring_char(start, stripped_end);
    proof {
        let raw = trimmed@.subrange(start as int, end as int);
        if end > start && trimmed@[end - 1] == '\r' {
            assert(raw.drop_last() =~= trimmed@.subrange(start as int, end - 1));
        }
    }
    r
}

} // verus!
