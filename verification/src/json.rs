//! JSON codec for `SecurityEvent`: rendering to a canonical JSON object and
//! parsing back, with a proved round trip. Strings are escaped as JSON asks
//! (quote, backslash, and control characters as `\u00XX`); the timestamp is
//! an ISO-8601 UTC string; event type and severity are their enumeration
//! member names.
use vstd::prelude::*;

use crate::events::{
    keys_unique, spec_insert, DetailMap, EventModel, EventType, SecurityEvent, Severity, Timestamp,
};
use crate::strutil::digit_char;
use crate::PositronError;

verus! {

pub open spec fn is_digit(c: char) -> bool {
    48 <= c as u32 <= 57
}

pub open spec fn digit_val(c: char) -> int {
    c as u32 - 48
}

pub open spec fn pow10(w: nat) -> nat
    decreases w,
{
    if w == 0 {
        1
    } else {
        10 * pow10((w - 1) as nat)
    }
}

/// Lowercase hexadecimal digit for a value below sixteen.
pub open spec fn hex_digit(d: int) -> char {
    if d < 10 {
        (48 + d) as char
    } else {
        (87 + d) as char
    }
}

/// Value of a lowercase hexadecimal digit, `-1` for any other character.
pub open spec fn hex_val(c: char) -> int {
    if 48 <= c as u32 <= 57 {
        c as u32 - 48
    } else if 97 <= c as u32 <= 102 {
        c as u32 - 87
    } else {
        -1
    }
}

/// JSON escape of one character.
pub open spec fn esc_char(c: char) -> Seq<char> {
    if c == '"' {
        seq!['\\', '"']
    } else if c == '\\' {
        seq!['\\', '\\']
    } else if (c as u32) < 32 {
        seq!['\\', 'u', '0', '0', hex_digit(c as u32 as int / 16), hex_digit(c as u32 as int % 16)]
    } else {
        seq![c]
    }
}

/// JSON escape of a string body.
pub open spec fn esc(s: Seq<char>) -> Seq<char>
    decreases s.len(),
{
    if s.len() == 0 {
        Seq::empty()
    } else {
        esc_char(s[0]) + esc(s.drop_first())
    }
}

/// A JSON string: quotes around the escaped body.
pub open spec fn quoted(s: Seq<char>) -> Seq<char> {
    seq!['"'] + esc(s) + seq!['"']
}

pub open spec fn is_prefix(p: Seq<char>, s: Seq<char>) -> bool {
    p.len() <= s.len() && s.subrange(0, p.len() as int) == p
}

/// Consumes the exact literal `lit`, yielding the remainder.
pub open spec fn parse_lit(s: Seq<char>, lit: Seq<char>) -> Option<Seq<char>> {
    if is_prefix(lit, s) {
        Some(s.skip(lit.len() as int))
    } else {
        None
    }
}

pub open spec fn prepend(c: char, r: Option<(Seq<char>, Seq<char>)>) -> Option<
    (Seq<char>, Seq<char>),
> {
    match r {
        Some((v, rest)) => Some((seq![c] + v, rest)),
        None => None,
    }
}

/// Parses a JSON string body after its opening quote: unescapes up to the
/// closing quote and yields the content and the remainder after the quote.
pub open spec fn parse_str_body(s: Seq<char>) -> Option<(Seq<char>, Seq<char>)>
    decreases s.len(),
{
    if s.len() == 0 {
        None
    } else if s[0] == '"' {
        Some((Seq::empty(), s.drop_first()))
    } else if s[0] == '\\' {
        if s.len() >= 2 && s[1] == '"' {
            prepend('"', parse_str_body(s.skip(2)))
        } else if s.len() >= 2 && s[1] == '\\' {
            prepend('\\', parse_str_body(s.skip(2)))
        } else if s.len() >= 6 && s[1] == 'u' && s[2] == '0' && s[3] == '0' && hex_val(s[4]) >= 0
            && hex_val(s[5]) >= 0 && hex_val(s[4]) * 16 + hex_val(s[5]) < 32 {
            prepend(((hex_val(s[4]) * 16 + hex_val(s[5])) as u32) as char, parse_str_body(s.skip(6)))
        } else {
            None
        }
    } else if (s[0] as u32) < 32 {
        None
    } else {
        prepend(s[0], parse_str_body(s.drop_first()))
    }
}

/// Parses a complete JSON string, quotes included.
pub open spec fn parse_quoted(s: Seq<char>) -> Option<(Seq<char>, Seq<char>)> {
    if s.len() >= 1 && s[0] == '"' {
        parse_str_body(s.drop_first())
    } else {
        None
    }
}

/// Fixed-width decimal rendering, most significant digit first.
pub open spec fn render_fixed(n: nat, w: nat) -> Seq<char>
    decreases w,
{
    if w == 0 {
        Seq::empty()
    } else {
        seq![digit_char(((n / pow10((w - 1) as nat)) % 10) as int)] + render_fixed(
            n % pow10((w - 1) as nat),
            (w - 1) as nat,
        )
    }
}

/// Parses exactly `w` decimal digits.
pub open spec fn parse_fixed(s: Seq<char>, w: nat) -> Option<(nat, Seq<char>)>
    decreases w,
{
    if w == 0 {
        Some((0, s))
    } else if s.len() >= 1 && is_digit(s[0]) {
        match parse_fixed(s.drop_first(), (w - 1) as nat) {
            Some((v, rest)) => Some(
                ((digit_val(s[0]) * pow10((w - 1) as nat) + v) as nat, rest),
            ),
            None => None,
        }
    } else {
        None
    }
}

/// ISO-8601 UTC rendering with nanosecond precision.
pub open spec fn render_ts(t: Timestamp) -> Seq<char> {
    render_fixed(t.year as nat, 4) + seq!['-'] + render_fixed(t.month as nat, 2) + seq!['-']
        + render_fixed(t.day as nat, 2) + seq!['T'] + render_fixed(t.hour as nat, 2) + seq![':']
        + render_fixed(t.minute as nat, 2) + seq![':'] + render_fixed(t.second as nat, 2)
        + seq!['.'] + render_fixed(t.nanos as nat, 9) + seq!['Z']
}

/// Reads a full ISO-8601 UTC timestamp text back into a well-formed
/// `Timestamp`; out-of-range components are malformed.
pub open spec fn ts_of_text(s: Seq<char>) -> Option<Timestamp> {
    match parse_fixed(s, 4) {
        None => None,
        Some((year, s)) => match parse_lit(s, seq!['-']) {
            None => None,
            Some(s) => match parse_fixed(s, 2) {
                None => None,
                Some((month, s)) => match parse_lit(s, seq!['-']) {
                    None => None,
                    Some(s) => match parse_fixed(s, 2) {
                        None => None,
                        Some((day, s)) => match parse_lit(s, seq!['T']) {
                            None => None,
                            Some(s) => match parse_fixed(s, 2) {
                                None => None,
                                Some((hour, s)) => match parse_lit(s, seq![':']) {
                                    None => None,
                                    Some(s) => match parse_fixed(s, 2) {
                                        None => None,
                                        Some((minute, s)) => match parse_lit(s, seq![':']) {
                                            None => None,
                                            Some(s) => match parse_fixed(s, 2) {
                                                None => None,
                                                Some((second, s)) => match parse_lit(s, seq!['.']) {
                                                    None => None,
                                                    Some(s) => match parse_fixed(s, 9) {
                                                        None => None,
                                                        Some((nanos, s)) => match parse_lit(
                                                            s,
                                                            seq!['Z'],
                                                        ) {
                                                            None => None,
                                                            Some(s) => {
                                                                if s.len() == 0 {
                                                                    let t = Timestamp {
                                                                        year: year as u16,
                                                                        month: month as u8,
                                                                        day: day as u8,
                                                                        hour: hour as u8,
                                                                        minute: minute as u8,
                                                                        second: second as u8,
                                                                        nanos: nanos as u32,
                                                                    };
                                                                    if t.wf() {
                                                                        Some(t)
                                                                    } else {
                                                                        None
                                                                    }
                                                                } else {
                                                                    None
                                                                }
                                                            },
                                                        },
                                                    },
                                                },
                                            },
                                        },
                                    },
                                },
                            },
                        },
                    },
                },
            },
        },
    }
}

/// Enumeration member name of a severity.
pub open spec fn severity_tag(s: Severity) -> Seq<char> {
    match s {
        Severity::Info => "Info"@,
        Severity::Low => "Low"@,
        Severity::Medium => "Medium"@,
        Severity::High => "High"@,
        Severity::Critical => "Critical"@,
    }
}

pub open spec fn severity_of_tag(s: Seq<char>) -> Option<Severity> {
    if s == "Info"@ {
        Some(Severity::Info)
    } else if s == "Low"@ {
        Some(Severity::Low)
    } else if s == "Medium"@ {
        Some(Severity::Medium)
    } else if s == "High"@ {
        Some(Severity::High)
    } else if s == "Critical"@ {
        Some(Severity::Critical)
    } else {
        None
    }
}

/// Enumeration member name of an event type.
pub open spec fn event_type_tag(t: EventType) -> Seq<char> {
    match t {
        EventType::FileCreated => "FileCreated"@,
        EventType::FileModified => "FileModified"@,
        EventType::FileDeleted => "FileDeleted"@,
        EventType::FileRenamed => "FileRenamed"@,
        EventType::FilePermissionChanged => "FilePermissionChanged"@,
        EventType::DirectoryCreated => "DirectoryCreated"@,
        EventType::DirectoryDeleted => "DirectoryDeleted"@,
        EventType::ProcessStarted => "ProcessStarted"@,
        EventType::ProcessTerminated => "ProcessTerminated"@,
        EventType::ProcessInjection => "ProcessInjection"@,
        EventType::DllLoaded => "DllLoaded"@,
        EventType::ChildProcessCreated => "ChildProcessCreated"@,
        EventType::NetworkConnectionEstablished => "NetworkConnectionEstablished"@,
        EventType::NetworkConnectionClosed => "NetworkConnectionClosed"@,
        EventType::DnsQuery => "DnsQuery"@,
        EventType::HttpRequest => "HttpRequest"@,
        EventType::SuspiciousTraffic => "SuspiciousTraffic"@,
        EventType::LoginSuccess => "LoginSuccess"@,
        EventType::LoginFailure => "LoginFailure"@,
        EventType::LogoutEvent => "LogoutEvent"@,
        EventType::PrivilegeEscalation => "PrivilegeEscalation"@,
        EventType::PasswordChanged => "PasswordChanged"@,
        EventType::RegistryKeyCreated => "RegistryKeyCreated"@,
        EventType::RegistryKeyModified => "RegistryKeyModified"@,
        EventType::RegistryKeyDeleted => "RegistryKeyDeleted"@,
        EventType::WindowsServiceStarted => "WindowsServiceStarted"@,
        EventType::WindowsServiceStopped => "WindowsServiceStopped"@,
        EventType::ScheduledTaskCreated => "ScheduledTaskCreated"@,
        EventType::CronJobCreated => "CronJobCreated"@,
        EventType::SudoUsage => "SudoUsage"@,
        EventType::PackageInstalled => "PackageInstalled"@,
        EventType::KernelModuleLoaded => "KernelModuleLoaded"@,
        EventType::SystemdServiceChanged => "SystemdServiceChanged"@,
        EventType::MalwareDetected => "MalwareDetected"@,
        EventType::SuspiciousCommand => "SuspiciousCommand"@,
        EventType::UnauthorizedAccess => "UnauthorizedAccess"@,
        EventType::DataExfil => "DataExfil"@,
        EventType::AntiVirusAlert => "AntiVirusAlert"@,
        EventType::FireWallBlock => "FireWallBlock"@,
        EventType::SystemStartup => "SystemStartup"@,
        EventType::SystemShutdown => "SystemShutdown"@,
        EventType::TimeChanged => "TimeChanged"@,
        EventType::UserCreated => "UserCreated"@,
        EventType::UserDeleted => "UserDeleted"@,
        EventType::GroupMembershipChanged => "GroupMembershipChanged"@,
    }
}

pub open spec fn event_type_of_tag(s: Seq<char>) -> Option<EventType> {
    if s == "FileCreated"@ {
        Some(EventType::FileCreated)
    } else if s == "FileModified"@ {
        Some(EventType::FileModified)
    } else if s == "FileDeleted"@ {
        Some(EventType::FileDeleted)
    } else if s == "FileRenamed"@ {
        Some(EventType::FileRenamed)
    } else if s == "FilePermissionChanged"@ {
        Some(EventType::FilePermissionChanged)
    } else if s == "DirectoryCreated"@ {
        Some(EventType::DirectoryCreated)
    } else if s == "DirectoryDeleted"@ {
        Some(EventType::DirectoryDeleted)
    } else if s == "ProcessStarted"@ {
        Some(EventType::ProcessStarted)
    } else if s == "ProcessTerminated"@ {
        Some(EventType::ProcessTerminated)
    } else if s == "ProcessInjection"@ {
        Some(EventType::ProcessInjection)
    } else if s == "DllLoaded"@ {
        Some(EventType::DllLoaded)
    } else if s == "ChildProcessCreated"@ {
        Some(EventType::ChildProcessCreated)
    } else if s == "NetworkConnectionEstablished"@ {
        Some(EventType::NetworkConnectionEstablished)
    } else if s == "NetworkConnectionClosed"@ {
        Some(EventType::NetworkConnectionClosed)
    } else if s == "DnsQuery"@ {
        Some(EventType::DnsQuery)
    } else if s == "HttpRequest"@ {
        Some(EventType::HttpRequest)
    } else if s == "SuspiciousTraffic"@ {
        Some(EventType::SuspiciousTraffic)
    } else if s == "LoginSuccess"@ {
        Some(EventType::LoginSuccess)
    } else if s == "LoginFailure"@ {
        Some(EventType::LoginFailure)
    } else if s == "LogoutEvent"@ {
        Some(EventType::LogoutEvent)
    } else if s == "PrivilegeEscalation"@ {
        Some(EventType::PrivilegeEscalation)
    } else if s == "PasswordChanged"@ {
        Some(EventType::PasswordChanged)
    } else if s == "RegistryKeyCreated"@ {
        Some(EventType::RegistryKeyCreated)
    } else if s == "RegistryKeyModified"@ {
        Some(EventType::RegistryKeyModified)
    } else if s == "RegistryKeyDeleted"@ {
        Some(EventType::RegistryKeyDeleted)
    } else if s == "WindowsServiceStarted"@ {
        Some(EventType::WindowsServiceStarted)
    } else if s == "WindowsServiceStopped"@ {
        Some(EventType::WindowsServiceStopped)
    } else if s == "ScheduledTaskCreated"@ {
        Some(EventType::ScheduledTaskCreated)
    } else if s == "CronJobCreated"@ {
        Some(EventType::CronJobCreated)
    } else if s == "SudoUsage"@ {
        Some(EventType::SudoUsage)
    } else if s == "PackageInstalled"@ {
        Some(EventType::PackageInstalled)
    } else if s == "KernelModuleLoaded"@ {
        Some(EventType::KernelModuleLoaded)
    } else if s == "SystemdServiceChanged"@ {
        Some(EventType::SystemdServiceChanged)
    } else if s == "MalwareDetected"@ {
        Some(EventType::MalwareDetected)
    } else if s == "SuspiciousCommand"@ {
        Some(EventType::SuspiciousCommand)
    } else if s == "UnauthorizedAccess"@ {
        Some(EventType::UnauthorizedAccess)
    } else if s == "DataExfil"@ {
        Some(EventType::DataExfil)
    } else if s == "AntiVirusAlert"@ {
        Some(EventType::AntiVirusAlert)
    } else if s == "FireWallBlock"@ {
        Some(EventType::FireWallBlock)
    } else if s == "SystemStartup"@ {
        Some(EventType::SystemStartup)
    } else if s == "SystemShutdown"@ {
        Some(EventType::SystemShutdown)
    } else if s == "TimeChanged"@ {
        Some(EventType::TimeChanged)
    } else if s == "UserCreated"@ {
        Some(EventType::UserCreated)
    } else if s == "UserDeleted"@ {
        Some(EventType::UserDeleted)
    } else if s == "GroupMembershipChanged"@ {
        Some(EventType::GroupMembershipChanged)
    } else {
        None
    }
}

/// Comma-separated `"key":"value"` members, in entry order.
pub open spec fn render_pairs(d: Seq<(Seq<char>, Seq<char>)>) -> Seq<char>
    decreases d.len(),
{
    if d.len() == 0 {
        Seq::empty()
    } else if d.len() == 1 {
        quoted(d[0].0) + seq![':'] + quoted(d[0].1)
    } else {
        quoted(d[0].0) + seq![':'] + quoted(d[0].1) + seq![','] + render_pairs(d.drop_first())
    }
}

/// The details object.
pub open spec fn render_details(d: Seq<(Seq<char>, Seq<char>)>) -> Seq<char> {
    seq!['{'] + render_pairs(d) + seq!['}']
}

/// Parses one or more `"key":"value"` members up to and including the
/// closing brace. `fuel` only bounds the recursion; any value at least the
/// member count behaves alike.
pub open spec fn parse_pairs(s: Seq<char>, fuel: nat) -> Option<
    (Seq<(Seq<char>, Seq<char>)>, Seq<char>),
>
    decreases fuel,
{
    if fuel == 0 {
        None
    } else {
        match parse_quoted(s) {
            None => None,
            Some((k, s1)) => match parse_lit(s1, seq![':']) {
                None => None,
                Some(s2) => match parse_quoted(s2) {
                    None => None,
                    Some((v, s3)) => {
                        if s3.len() >= 1 && s3[0] == ',' {
                            match parse_pairs(s3.drop_first(), (fuel - 1) as nat) {
                                Some((ps, s4)) => Some((seq![(k, v)] + ps, s4)),
                                None => None,
                            }
                        } else if s3.len() >= 1 && s3[0] == '}' {
                            Some((seq![(k, v)], s3.drop_first()))
                        } else {
                            None
                        }
                    },
                },
            },
        }
    }
}

/// Parses a whole details object, braces included.
pub open spec fn parse_details(s: Seq<char>, fuel: nat) -> Option<
    (Seq<(Seq<char>, Seq<char>)>, Seq<char>),
> {
    match parse_lit(s, seq!['{']) {
        None => None,
        Some(s1) => {
            if s1.len() >= 1 && s1[0] == '}' {
                Some((Seq::empty(), s1.drop_first()))
            } else {
                parse_pairs(s1, fuel)
            }
        },
    }
}

/// Entries folded into a map by last-write-wins insertion, left to right.
pub open spec fn fold_insert(pairs: Seq<(Seq<char>, Seq<char>)>) -> Seq<(Seq<char>, Seq<char>)>
    decreases pairs.len(),
{
    if pairs.len() == 0 {
        Seq::empty()
    } else {
        spec_insert(fold_insert(pairs.drop_last()), pairs.last().0, pairs.last().1)
    }
}

/// The canonical JSON text of an event.
pub open spec fn render_event(m: EventModel) -> Seq<char> {
    "{\"timestamp\":"@ + quoted(render_ts(m.timestamp)) + ",\"event_type\":"@ + quoted(
        event_type_tag(m.event_type),
    ) + ",\"severity\":"@ + quoted(severity_tag(m.severity)) + ",\"source\":"@ + quoted(m.source)
        + ",\"description\":"@ + quoted(m.description) + ",\"details\":"@ + render_details(
        m.details,
    ) + seq!['}']
}

/// Parses the canonical JSON text of an event: all six members in order, the
/// whole input consumed, components in range, detail entries folded by
/// last-write-wins insertion.
pub open spec fn parse_event(s: Seq<char>) -> Option<EventModel> {
    match parse_lit(s, "{\"timestamp\":"@) {
        None => None,
        Some(s) => match parse_quoted(s) {
            None => None,
            Some((ts_text, s)) => match ts_of_text(ts_text) {
                None => None,
                Some(timestamp) => match parse_lit(s, ",\"event_type\":"@) {
                    None => None,
                    Some(s) => match parse_quoted(s) {
                        None => None,
                        Some((et_text, s)) => match event_type_of_tag(et_text) {
                            None => None,
                            Some(event_type) => match parse_lit(s, ",\"severity\":"@) {
                                None => None,
                                Some(s) => match parse_quoted(s) {
                                    None => None,
                                    Some((sev_text, s)) => match severity_of_tag(sev_text) {
                                        None => None,
                                        Some(severity) => match parse_lit(s, ",\"source\":"@) {
                                            None => None,
                                            Some(s) => match parse_quoted(s) {
                                                None => None,
                                                Some((source, s)) => match parse_lit(
                                                    s,
                                                    ",\"description\":"@,
                                                ) {
                                                    None => None,
                                                    Some(s) => match parse_quoted(s) {
                                                        None => None,
                                                        Some((description, s)) => match parse_lit(
                                                            s,
                                                            ",\"details\":"@,
                                                        ) {
                                                            None => None,
                                                            Some(s) => match parse_details(
                                                                s,
                                                                s.len(),
                                                            ) {
                                                                None => None,
                                                                Some((pairs, s)) => match parse_lit(
                                                                    s,
                                                                    seq!['}'],
                                                                ) {
                                                                    None => None,
                                                                    Some(s) => {
                                                                        if s.len() == 0 {
                                                                            Some(
                                                                                EventModel {
                                                                                    timestamp,
                                                                                    event_type,
                                                                                    severity,
                                                                                    source,
                                                                                    description,
                                                                                    details:
                                                                                        fold_insert(
                                                                                        pairs,
                                                                                    ),
                                                                                },
                                                                            )
                                                                        } else {
                                                                            None
                                                                        }
                                                                    },
                                                                },
                                                            },
                                                        },
                                                    },
                                                },
                                            },
                                        },
                                    },
                                },
                            },
                        },
                    },
                },
            },
        },
    }
}

/// Division and remainder facts for a nonnegative dividend and positive
/// divisor.
proof fn lemma_div_mod_pos(n: int, p: int)
    requires
        n >= 0,
        p >= 1,
    ensures
        n == p * (n / p) + n % p,
        0 <= n % p < p,
        n / p >= 0,
{
    vstd::arithmetic::div_mod::lemma_fundamental_div_mod(n, p);
    vstd::arithmetic::div_mod::lemma_mod_bound(n, p);
    assert(n / p >= 0) by (nonlinear_arith)
        requires
            n >= 0,
            p >= 1,
            n == p * (n / p) + n % p,
            0 <= n % p < p,
    ;
}

proof fn lemma_pow10_pos(w: nat)
    ensures
        pow10(w) >= 1,
    decreases w,
{
    if w > 0 {
        lemma_pow10_pos((w - 1) as nat);
    }
}

/// The widths this codec uses stay within 32 bits.
pub proof fn lemma_pow10_le_billion(w: nat)
    requires
        w <= 9,
    ensures
        1 <= pow10(w) <= 1_000_000_000,
{
    lemma_pow10_pos(w);
    assert(pow10(0) == 1);
    assert(pow10(1) == 10);
    assert(pow10(2) == 100);
    assert(pow10(3) == 1000);
    assert(pow10(4) == 10000);
    assert(pow10(5) == 100000);
    assert(pow10(6) == 1000000);
    assert(pow10(7) == 10000000);
    assert(pow10(8) == 100000000);
    assert(pow10(9) == 1000000000);
    lemma_pow10_monotone(w, 9);
}

proof fn lemma_pow10_monotone(a: nat, b: nat)
    requires
        a <= b,
    ensures
        pow10(a) <= pow10(b),
    decreases b,
{
    if a < b {
        lemma_pow10_monotone(a, (b - 1) as nat);
        lemma_pow10_pos((b - 1) as nat);
    }
}

/// A successful fixed-width parse consumes exactly `w` digits and stays
/// below `pow10(w)`.
pub proof fn lemma_parse_fixed_bound(s: Seq<char>, w: nat)
    ensures
        parse_fixed(s, w) matches Some((v, rest)) ==> v < pow10(w) && w <= s.len() && rest
            == s.skip(w as int),
    decreases w,
{
    if w > 0 && s.len() >= 1 && is_digit(s[0]) {
        lemma_parse_fixed_bound(s.drop_first(), (w - 1) as nat);
        match parse_fixed(s.drop_first(), (w - 1) as nat) {
            Some((v0, rest0)) => {
                lemma_pow10_pos((w - 1) as nat);
                let p = pow10((w - 1) as nat) as int;
                let d = digit_val(s[0]);
                assert(d * p + v0 < 10 * p) by (nonlinear_arith)
                    requires
                        0 <= d <= 9,
                        0 <= v0 < p,
                        p >= 1,
                ;
                assert(s.drop_first().skip((w - 1) as int) =~= s.skip(w as int));
            },
            None => {},
        }
    }
}

/// Consuming a literal off the front of what it prefixes yields the tail.
pub proof fn lemma_lit_rt(lit: Seq<char>, x: Seq<char>)
    ensures
        parse_lit(lit + x, lit) == Some(x),
{
    assert((lit + x).subrange(0, lit.len() as int) =~= lit);
    assert((lit + x).skip(lit.len() as int) =~= x);
}

/// Escaping distributes over concatenation.
pub proof fn lemma_esc_append(a: Seq<char>, b: Seq<char>)
    ensures
        esc(a + b) =~= esc(a) + esc(b),
    decreases a.len(),
{
    if a.len() == 0 {
        assert(a + b =~= b);
        assert(esc(a) =~= Seq::<char>::empty());
    } else {
        assert((a + b).drop_first() =~= a.drop_first() + b);
        lemma_esc_append(a.drop_first(), b);
        assert((a + b)[0] == a[0]);
        assert(esc(a + b) =~= esc_char(a[0]) + esc(a.drop_first() + b));
        assert(esc_char(a[0]) + (esc(a.drop_first()) + esc(b)) =~= (esc_char(a[0]) + esc(
            a.drop_first(),
        )) + esc(b));
    }
}

/// Unescaping inverts escaping: the body parser returns exactly the original
/// string and the untouched remainder.
pub proof fn lemma_str_rt(v: Seq<char>, rest: Seq<char>)
    ensures
        parse_str_body(esc(v) + seq!['"'] + rest) == Some((v, rest)),
    decreases v.len(),
{
    let s = esc(v) + seq!['"'] + rest;
    if v.len() == 0 {
        assert(esc(v) =~= Seq::<char>::empty());
        assert(s =~= seq!['"'] + rest);
        assert(s[0] == '"');
        assert(s.drop_first() =~= rest);
        assert(Seq::<char>::empty() =~= v);
    } else {
        let c = v[0];
        let tail = esc(v.drop_first()) + seq!['"'] + rest;
        lemma_str_rt(v.drop_first(), rest);
        assert(esc(v) == esc_char(c) + esc(v.drop_first()));
        assert(s =~= esc_char(c) + tail);
        assert(seq![c] + v.drop_first() =~= v);
        if c == '"' {
            assert(s =~= seq!['\\', '"'] + tail);
            assert(s[0] == '\\' && s[1] == '"');
            assert(s.skip(2) =~= tail);
        } else if c == '\\' {
            assert(s =~= seq!['\\', '\\'] + tail);
            assert(s[0] == '\\' && s[1] == '\\');
            assert(s.skip(2) =~= tail);
        } else if (c as u32) < 32 {
            let u = c as u32 as int;
            lemma_div_mod_pos(u, 16);
            assert(u / 16 < 2);
            let h1 = hex_digit(u / 16);
            let h2 = hex_digit(u % 16);
            assert(s =~= seq!['\\', 'u', '0', '0', h1, h2] + tail);
            assert(s[0] == '\\' && s[1] == 'u' && s[2] == '0' && s[3] == '0' && s[4] == h1 && s[5]
                == h2);
            assert(hex_val(h1) == u / 16);
            assert(hex_val(h2) == u % 16);
            assert(hex_val(s[4]) * 16 + hex_val(s[5]) == u);
            assert(c as u32 == u as u32);
            vstd::utf8::char_u32_cast(c, u as u32);
            assert(((u as u32) as char) == c);
            assert(s.skip(6) =~= tail);
        } else {
            assert(esc_char(c) =~= seq![c]);
            assert(s =~= seq![c] + tail);
            assert(s[0] == c);
            assert(s.drop_first() =~= tail);
        }
    }
}

/// A quoted string parses back to its body.
pub proof fn lemma_quoted_rt(v: Seq<char>, rest: Seq<char>)
    ensures
        parse_quoted(quoted(v) + rest) == Some((v, rest)),
{
    let s = quoted(v) + rest;
    assert(s =~= seq!['"'] + (esc(v) + seq!['"'] + rest));
    assert(s[0] == '"');
    assert(s.drop_first() =~= esc(v) + seq!['"'] + rest);
    lemma_str_rt(v, rest);
}

/// Fixed-width digits parse back to the rendered value.
pub proof fn lemma_fixed_rt(n: nat, w: nat, rest: Seq<char>)
    requires
        n < pow10(w),
    ensures
        parse_fixed(render_fixed(n, w) + rest, w) == Some((n, rest)),
    decreases w,
{
    if w == 0 {
        assert(render_fixed(n, w) =~= Seq::<char>::empty());
        assert(render_fixed(n, w) + rest =~= rest);
    } else {
        let p = pow10((w - 1) as nat);
        lemma_pow10_pos((w - 1) as nat);
        assert(pow10(w) == 10 * p);
        let ni = n as int;
        let pi = p as int;
        lemma_div_mod_pos(ni, pi);
        let hi = ni / pi;
        let md = ni % pi;
        assert(hi < 10) by (nonlinear_arith)
            requires
                ni == pi * hi + md,
                0 <= md < pi,
                ni < 10 * pi,
                pi >= 1,
                hi >= 0,
        ;
        assert(hi % 10 == hi);
        let c = digit_char(hi);
        let lo = md as nat;
        let body = render_fixed(lo, (w - 1) as nat);
        let s = render_fixed(n, w) + rest;
        assert(render_fixed(n, w) == seq![c] + body);
        assert(s =~= seq![c] + (body + rest));
        assert(s[0] == c);
        assert(48 <= c as u32 <= 57);
        assert(digit_val(c) == hi);
        lemma_fixed_rt(lo, (w - 1) as nat, rest);
        assert(s.drop_first() =~= body + rest);
        assert(digit_val(s[0]) == hi);
        assert(hi * pi + md == ni) by (nonlinear_arith)
            requires
                ni == pi * hi + md,
        ;
        assert(digit_val(s[0]) * p + lo == n);
    }
}

/// An ISO-8601 rendering of a well-formed timestamp reads back identically.
pub proof fn lemma_ts_rt(t: Timestamp)
    requires
        t.wf(),
    ensures
        ts_of_text(render_ts(t)) == Some(t),
{
    assert(pow10(0) == 1);
    assert(pow10(1) == 10);
    assert(pow10(2) == 100);
    assert(pow10(3) == 1000);
    assert(pow10(4) == 10000);
    assert(pow10(5) == 100000);
    assert(pow10(6) == 1000000);
    assert(pow10(7) == 10000000);
    assert(pow10(8) == 100000000);
    assert(pow10(9) == 1000000000);
    let e: Seq<char> = Seq::empty();
    let t13 = seq!['Z'];
    let t12 = render_fixed(t.nanos as nat, 9) + t13;
    let t11 = seq!['.'] + t12;
    let t10 = render_fixed(t.second as nat, 2) + t11;
    let t9 = seq![':'] + t10;
    let t8 = render_fixed(t.minute as nat, 2) + t9;
    let t7 = seq![':'] + t8;
    let t6 = render_fixed(t.hour as nat, 2) + t7;
    let t5 = seq!['T'] + t6;
    let t4 = render_fixed(t.day as nat, 2) + t5;
    let t3 = seq!['-'] + t4;
    let t2 = render_fixed(t.month as nat, 2) + t3;
    let t1 = seq!['-'] + t2;
    let s = render_ts(t);
    assert(s =~= render_fixed(t.year as nat, 4) + t1);
    lemma_fixed_rt(t.year as nat, 4, t1);
    lemma_lit_rt(seq!['-'], t2);
    lemma_fixed_rt(t.month as nat, 2, t3);
    lemma_lit_rt(seq!['-'], t4);
    lemma_fixed_rt(t.day as nat, 2, t5);
    lemma_lit_rt(seq!['T'], t6);
    lemma_fixed_rt(t.hour as nat, 2, t7);
    lemma_lit_rt(seq![':'], t8);
    lemma_fixed_rt(t.minute as nat, 2, t9);
    lemma_lit_rt(seq![':'], t10);
    lemma_fixed_rt(t.second as nat, 2, t11);
    lemma_lit_rt(seq!['.'], t12);
    lemma_fixed_rt(t.nanos as nat, 9, t13);
    assert(t13 =~= seq!['Z'] + e);
    lemma_lit_rt(seq!['Z'], e);
    assert(((t.year as nat) as u16) == t.year);
}

/// Each severity name reads back to its severity.
pub proof fn lemma_severity_tag_rt(s: Severity)
    ensures
        severity_of_tag(severity_tag(s)) == Some(s),
{
    reveal_strlit("Info");
    reveal_strlit("Low");
    reveal_strlit("Medium");
    reveal_strlit("High");
    reveal_strlit("Critical");
    assert("Info"@.len() == 4);
    assert("Low"@.len() == 3);
    assert("Medium"@.len() == 6);
    assert("High"@.len() == 4);
    assert("Critical"@.len() == 8);
    assert("Info"@[0] == 'I');
    assert("High"@[0] == 'H');
    match s {
        Severity::Info => assert(severity_of_tag(severity_tag(s)) == Some(s)),
        Severity::Low => assert(severity_of_tag(severity_tag(s)) == Some(s)),
        Severity::Medium => assert(severity_of_tag(severity_tag(s)) == Some(s)),
        Severity::High => assert(severity_of_tag(severity_tag(s)) == Some(s)),
        Severity::Critical => assert(severity_of_tag(severity_tag(s)) == Some(s)),
    }
}

/// Each event-type name reads back to its event type.
pub proof fn lemma_event_type_tag_rt(t: EventType)
    ensures
        event_type_of_tag(event_type_tag(t)) == Some(t),
{
    reveal_strlit("FileCreated");
    reveal_strlit("FileModified");
    reveal_strlit("FileDeleted");
    reveal_strlit("FileRenamed");
    reveal_strlit("FilePermissionChanged");
    reveal_strlit("DirectoryCreated");
    reveal_strlit("DirectoryDeleted");
    reveal_strlit("ProcessStarted");
    reveal_strlit("ProcessTerminated");
    reveal_strlit("ProcessInjection");
    reveal_strlit("DllLoaded");
    reveal_strlit("ChildProcessCreated");
    reveal_strlit("NetworkConnectionEstablished");
    reveal_strlit("NetworkConnectionClosed");
    reveal_strlit("DnsQuery");
    reveal_strlit("HttpRequest");
    reveal_strlit("SuspiciousTraffic");
    reveal_strlit("LoginSuccess");
    reveal_strlit("LoginFailure");
    reveal_strlit("LogoutEvent");
    reveal_strlit("PrivilegeEscalation");
    reveal_strlit("PasswordChanged");
    reveal_strlit("RegistryKeyCreated");
    reveal_strlit("RegistryKeyModified");
    reveal_strlit("RegistryKeyDeleted");
    reveal_strlit("WindowsServiceStarted");
    reveal_strlit("WindowsServiceStopped");
    reveal_strlit("ScheduledTaskCreated");
    reveal_strlit("CronJobCreated");
    reveal_strlit("SudoUsage");
    reveal_strlit("PackageInstalled");
    reveal_strlit("KernelModuleLoaded");
    reveal_strlit("SystemdServiceChanged");
    reveal_strlit("MalwareDetected");
    reveal_strlit("SuspiciousCommand");
    reveal_strlit("UnauthorizedAccess");
    reveal_strlit("DataExfil");
    reveal_strlit("AntiVirusAlert");
    reveal_strlit("FireWallBlock");
    reveal_strlit("SystemStartup");
    reveal_strlit("SystemShutdown");
    reveal_strlit("TimeChanged");
    reveal_strlit("UserCreated");
    reveal_strlit("UserDeleted");
    reveal_strlit("GroupMembershipChanged");
    assert("FileCreated"@.len() == 11);
    assert("FileModified"@.len() == 12);
    assert("FileDeleted"@.len() == 11);
    assert("FileRenamed"@.len() == 11);
    assert("FilePermissionChanged"@.len() == 21);
    assert("DirectoryCreated"@.len() == 16);
    assert("DirectoryDeleted"@.len() == 16);
    assert("ProcessStarted"@.len() == 14);
    assert("ProcessTerminated"@.len() == 17);
    assert("ProcessInjection"@.len() == 16);
    assert("DllLoaded"@.len() == 9);
    assert("ChildProcessCreated"@.len() == 19);
    assert("NetworkConnectionEstablished"@.len() == 28);
    assert("NetworkConnectionClosed"@.len() == 23);
    assert("DnsQuery"@.len() == 8);
    assert("HttpRequest"@.len() == 11);
    assert("SuspiciousTraffic"@.len() == 17);
    assert("LoginSuccess"@.len() == 12);
    assert("LoginFailure"@.len() == 12);
    assert("LogoutEvent"@.len() == 11);
    assert("PrivilegeEscalation"@.len() == 19);
    assert("PasswordChanged"@.len() == 15);
    assert("RegistryKeyCreated"@.len() == 18);
    assert("RegistryKeyModified"@.len() == 19);
    assert("RegistryKeyDeleted"@.len() == 18);
    assert("WindowsServiceStarted"@.len() == 21);
    assert("WindowsServiceStopped"@.len() == 21);
    assert("ScheduledTaskCreated"@.len() == 20);
    assert("CronJobCreated"@.len() == 14);
    assert("SudoUsage"@.len() == 9);
    assert("PackageInstalled"@.len() == 16);
    assert("KernelModuleLoaded"@.len() == 18);
    assert("SystemdServiceChanged"@.len() == 21);
    assert("MalwareDetected"@.len() == 15);
    assert("SuspiciousCommand"@.len() == 17);
    assert("UnauthorizedAccess"@.len() == 18);
    assert("DataExfil"@.len() == 9);
    assert("AntiVirusAlert"@.len() == 14);
    assert("FireWallBlock"@.len() == 13);
    assert("SystemStartup"@.len() == 13);
    assert("SystemShutdown"@.len() == 14);
    assert("TimeChanged"@.len() == 11);
    assert("UserCreated"@.len() == 11);
    assert("UserDeleted"@.len() == 11);
    assert("GroupMembershipChanged"@.len() == 22);
    assert("AntiVirusAlert"@[0] == 'A');
    assert("ChildProcessCreated"@[0] == 'C');
    assert("CronJobCreated"@[0] == 'C');
    assert("DataExfil"@[0] == 'D');
    assert("DataExfil"@[1] == 'a');
    assert("DirectoryCreated"@[0] == 'D');
    assert("DirectoryCreated"@[9] == 'C');
    assert("DirectoryDeleted"@[0] == 'D');
    assert("DirectoryDeleted"@[9] == 'D');
    assert("DllLoaded"@[0] == 'D');
    assert("DllLoaded"@[1] == 'l');
    assert("FileCreated"@[0] == 'F');
    assert("FileCreated"@[4] == 'C');
    assert("FileDeleted"@[0] == 'F');
    assert("FileDeleted"@[4] == 'D');
    assert("FileModified"@[0] == 'F');
    assert("FilePermissionChanged"@[0] == 'F');
    assert("FileRenamed"@[0] == 'F');
    assert("FileRenamed"@[4] == 'R');
    assert("FireWallBlock"@[0] == 'F');
    assert("HttpRequest"@[0] == 'H');
    assert("KernelModuleLoaded"@[0] == 'K');
    assert("LoginFailure"@[0] == 'L');
    assert("LoginFailure"@[5] == 'F');
    assert("LoginSuccess"@[0] == 'L');
    assert("LoginSuccess"@[5] == 'S');
    assert("LogoutEvent"@[0] == 'L');
    assert("MalwareDetected"@[0] == 'M');
    assert("PackageInstalled"@[0] == 'P');
    assert("PackageInstalled"@[1] == 'a');
    assert("PasswordChanged"@[0] == 'P');
    assert("PrivilegeEscalation"@[0] == 'P');
    assert("ProcessInjection"@[0] == 'P');
    assert("ProcessInjection"@[1] == 'r');
    assert("ProcessStarted"@[0] == 'P');
    assert("ProcessTerminated"@[0] == 'P');
    assert("RegistryKeyCreated"@[0] == 'R');
    assert("RegistryKeyCreated"@[11] == 'C');
    assert("RegistryKeyDeleted"@[0] == 'R');
    assert("RegistryKeyDeleted"@[11] == 'D');
    assert("RegistryKeyModified"@[0] == 'R');
    assert("SudoUsage"@[0] == 'S');
    assert("SuspiciousCommand"@[0] == 'S');
    assert("SuspiciousCommand"@[10] == 'C');
    assert("SuspiciousTraffic"@[0] == 'S');
    assert("SuspiciousTraffic"@[10] == 'T');
    assert("SystemShutdown"@[0] == 'S');
    assert("SystemStartup"@[0] == 'S');
    assert("SystemdServiceChanged"@[0] == 'S');
    assert("TimeChanged"@[0] == 'T');
    assert("UnauthorizedAccess"@[0] == 'U');
    assert("UserCreated"@[0] == 'U');
    assert("UserCreated"@[4] == 'C');
    assert("UserDeleted"@[0] == 'U');
    assert("UserDeleted"@[4] == 'D');
    assert("WindowsServiceStarted"@[0] == 'W');
    assert("WindowsServiceStarted"@[16] == 'a');
    assert("WindowsServiceStopped"@[0] == 'W');
    assert("WindowsServiceStopped"@[16] == 'o');
    match t {
        EventType::FileCreated => assert(event_type_of_tag(event_type_tag(t)) == Some(t)),
        EventType::FileModified => assert(event_type_of_tag(event_type_tag(t)) == Some(t)),
        EventType::FileDeleted => assert(event_type_of_tag(event_type_tag(t)) == Some(t)),
        EventType::FileRenamed => assert(event_type_of_tag(event_type_tag(t)) == Some(t)),
        EventType::FilePermissionChanged => assert(event_type_of_tag(event_type_tag(t)) == Some(t)),
        EventType::DirectoryCreated => assert(event_type_of_tag(event_type_tag(t)) == Some(t)),
        EventType::DirectoryDeleted => assert(event_type_of_tag(event_type_tag(t)) == Some(t)),
        EventType::ProcessStarted => assert(event_type_of_tag(event_type_tag(t)) == Some(t)),
        EventType::ProcessTerminated => assert(event_type_of_tag(event_type_tag(t)) == Some(t)),
        EventType::ProcessInjection => assert(event_type_of_tag(event_type_tag(t)) == Some(t)),
        EventType::DllLoaded => assert(event_type_of_tag(event_type_tag(t)) == Some(t)),
        EventType::ChildProcessCreated => assert(event_type_of_tag(event_type_tag(t)) == Some(t)),
        EventType::NetworkConnectionEstablished => assert(event_type_of_tag(event_type_tag(t)) == Some(t)),
        EventType::NetworkConnectionClosed => assert(event_type_of_tag(event_type_tag(t)) == Some(t)),
        EventType::DnsQuery => assert(event_type_of_tag(event_type_tag(t)) == Some(t)),
        EventType::HttpRequest => assert(event_type_of_tag(event_type_tag(t)) == Some(t)),
        EventType::SuspiciousTraffic => assert(event_type_of_tag(event_type_tag(t)) == Some(t)),
        EventType::LoginSuccess => assert(event_type_of_tag(event_type_tag(t)) == Some(t)),
        EventType::LoginFailure => assert(event_type_of_tag(event_type_tag(t)) == Some(t)),
        EventType::LogoutEvent => assert(event_type_of_tag(event_type_tag(t)) == Some(t)),
        EventType::PrivilegeEscalation => assert(event_type_of_tag(event_type_tag(t)) == Some(t)),
        EventType::PasswordChanged => assert(event_type_of_tag(event_type_tag(t)) == Some(t)),
        EventType::RegistryKeyCreated => assert(event_type_of_tag(event_type_tag(t)) == Some(t)),
        EventType::RegistryKeyModified => assert(event_type_of_tag(event_type_tag(t)) == Some(t)),
        EventType::RegistryKeyDeleted => assert(event_type_of_tag(event_type_tag(t)) == Some(t)),
        EventType::WindowsServiceStarted => assert(event_type_of_tag(event_type_tag(t)) == Some(t)),
        EventType::WindowsServiceStopped => assert(event_type_of_tag(event_type_tag(t)) == Some(t)),
        EventType::ScheduledTaskCreated => assert(event_type_of_tag(event_type_tag(t)) == Some(t)),
        EventType::CronJobCreated => assert(event_type_of_tag(event_type_tag(t)) == Some(t)),
        EventType::SudoUsage => assert(event_type_of_tag(event_type_tag(t)) == Some(t)),
        EventType::PackageInstalled => assert(event_type_of_tag(event_type_tag(t)) == Some(t)),
        EventType::KernelModuleLoaded => assert(event_type_of_tag(event_type_tag(t)) == Some(t)),
        EventType::SystemdServiceChanged => assert(event_type_of_tag(event_type_tag(t)) == Some(t)),
        EventType::MalwareDetected => assert(event_type_of_tag(event_type_tag(t)) == Some(t)),
        EventType::SuspiciousCommand => assert(event_type_of_tag(event_type_tag(t)) == Some(t)),
        EventType::UnauthorizedAccess => assert(event_type_of_tag(event_type_tag(t)) == Some(t)),
        EventType::DataExfil => assert(event_type_of_tag(event_type_tag(t)) == Some(t)),
        EventType::AntiVirusAlert => assert(event_type_of_tag(event_type_tag(t)) == Some(t)),
        EventType::FireWallBlock => assert(event_type_of_tag(event_type_tag(t)) == Some(t)),
        EventType::SystemStartup => assert(event_type_of_tag(event_type_tag(t)) == Some(t)),
        EventType::SystemShutdown => assert(event_type_of_tag(event_type_tag(t)) == Some(t)),
        EventType::TimeChanged => assert(event_type_of_tag(event_type_tag(t)) == Some(t)),
        EventType::UserCreated => assert(event_type_of_tag(event_type_tag(t)) == Some(t)),
        EventType::UserDeleted => assert(event_type_of_tag(event_type_tag(t)) == Some(t)),
        EventType::GroupMembershipChanged => assert(event_type_of_tag(event_type_tag(t)) == Some(t)),
    }
}

/// Each rendered member occupies at least one character per entry.
proof fn lemma_render_pairs_len(d: Seq<(Seq<char>, Seq<char>)>)
    ensures
        render_pairs(d).len() >= d.len(),
    decreases d.len(),
{
    if d.len() > 1 {
        lemma_render_pairs_len(d.drop_first());
    }
}

/// A rendered member list parses back to its entries, for any fuel covering
/// the entry count.
#[verifier::rlimit(100)]
proof fn lemma_pairs_rt(d: Seq<(Seq<char>, Seq<char>)>, rest: Seq<char>, fuel: nat)
    requires
        d.len() >= 1,
        fuel >= d.len(),
    ensures
        parse_pairs(render_pairs(d) + seq!['}'] + rest, fuel) == Some((d, rest)),
    decreases d.len(),
{
    let s = render_pairs(d) + seq!['}'] + rest;
    let k = d[0].0;
    let v = d[0].1;
    if d.len() == 1 {
        let m1 = seq![':'] + quoted(v) + seq!['}'] + rest;
        assert(s =~= quoted(k) + m1);
        lemma_quoted_rt(k, m1);
        let m2 = quoted(v) + seq!['}'] + rest;
        assert(m1 =~= seq![':'] + m2);
        lemma_lit_rt(seq![':'], m2);
        let m3 = seq!['}'] + rest;
        assert(m2 =~= quoted(v) + m3);
        lemma_quoted_rt(v, m3);
        assert(m3[0] == '}' && m3[0] != ',');
        assert(m3.drop_first() =~= rest);
        assert(seq![(k, v)] =~= d);
    } else {
        let dd = d.drop_first();
        let m1 = seq![':'] + quoted(v) + seq![','] + render_pairs(dd) + seq!['}'] + rest;
        assert(s =~= quoted(k) + m1);
        lemma_quoted_rt(k, m1);
        let m2 = quoted(v) + seq![','] + render_pairs(dd) + seq!['}'] + rest;
        assert(m1 =~= seq![':'] + m2);
        lemma_lit_rt(seq![':'], m2);
        let m3 = seq![','] + render_pairs(dd) + seq!['}'] + rest;
        assert(m2 =~= quoted(v) + m3);
        lemma_quoted_rt(v, m3);
        assert(m3[0] == ',');
        assert(m3.drop_first() =~= render_pairs(dd) + seq!['}'] + rest);
        lemma_pairs_rt(dd, rest, (fuel - 1) as nat);
        assert(seq![(k, v)] + dd =~= d);
    }
}

/// A rendered details object parses back to its entries.
proof fn lemma_details_rt(d: Seq<(Seq<char>, Seq<char>)>, rest: Seq<char>, fuel: nat)
    requires
        fuel >= d.len(),
    ensures
        parse_details(render_details(d) + rest, fuel) == Some((d, rest)),
{
    let s = render_details(d) + rest;
    let body = render_pairs(d) + seq!['}'] + rest;
    assert(s =~= seq!['{'] + body);
    lemma_lit_rt(seq!['{'], body);
    if d.len() == 0 {
        assert(render_pairs(d) =~= Seq::<char>::empty());
        assert(body =~= seq!['}'] + rest);
        assert(body[0] == '}');
        assert(body.drop_first() =~= rest);
        assert(Seq::<(Seq<char>, Seq<char>)>::empty() =~= d);
    } else {
        assert(render_pairs(d)[0] == '"');
        assert(body[0] == '"' && body[0] != '}');
        lemma_pairs_rt(d, rest, fuel);
    }
}

/// Keys of an insertion come from the original map or are the inserted key.
proof fn lemma_spec_insert_key_membership(s: Seq<(Seq<char>, Seq<char>)>, k: Seq<char>, v: Seq<char>)
    ensures
        forall|j: int|
            0 <= j < spec_insert(s, k, v).len() ==> (#[trigger] spec_insert(s, k, v)[j].0) == k
                || crate::events::has_key(s, spec_insert(s, k, v)[j].0),
    decreases s.len(),
{
    let r = spec_insert(s, k, v);
    if s.len() == 0 {
    } else if s[0].0 == k {
        assert forall|j: int| 0 <= j < r.len() implies (r[j].0 == k || crate::events::has_key(
            s,
            r[j].0,
        )) by {
            if j > 0 {
                assert(r[j] == s[j]);
                assert(s[j].0 == r[j].0);
            }
        }
    } else {
        lemma_spec_insert_key_membership(s.drop_first(), k, v);
        let rr = spec_insert(s.drop_first(), k, v);
        assert forall|j: int| 0 <= j < r.len() implies (r[j].0 == k || crate::events::has_key(
            s,
            r[j].0,
        )) by {
            if j == 0 {
                assert(r[0] == s[0]);
                assert(s[0].0 == r[0].0);
            } else {
                assert(r[j] == rr[j - 1]);
                if rr[j - 1].0 != k {
                    let i = choose|i: int|
                        0 <= i < s.drop_first().len() && s.drop_first()[i].0 == rr[j - 1].0;
                    assert(s[i + 1].0 == r[j].0);
                }
            }
        }
    }
}

/// Insertion keeps keys pairwise distinct.
proof fn lemma_spec_insert_unique(s: Seq<(Seq<char>, Seq<char>)>, k: Seq<char>, v: Seq<char>)
    requires
        keys_unique(s),
    ensures
        keys_unique(spec_insert(s, k, v)),
    decreases s.len(),
{
    let r = spec_insert(s, k, v);
    if s.len() == 0 {
    } else if s[0].0 == k {
        assert forall|i: int, j: int| 0 <= i < j < r.len() implies r[i].0 != r[j].0 by {
            assert(r[j] == s[j]);
            if i > 0 {
                assert(r[i] == s[i]);
            }
        }
    } else {
        assert(keys_unique(s.drop_first())) by {
            assert forall|i: int, j: int|
                0 <= i < j < s.drop_first().len() implies s.drop_first()[i].0
                != s.drop_first()[j].0 by {
                assert(s.drop_first()[i] == s[i + 1]);
                assert(s.drop_first()[j] == s[j + 1]);
            }
        }
        lemma_spec_insert_unique(s.drop_first(), k, v);
        lemma_spec_insert_key_membership(s.drop_first(), k, v);
        let rr = spec_insert(s.drop_first(), k, v);
        assert forall|i: int, j: int| 0 <= i < j < r.len() implies r[i].0 != r[j].0 by {
            if i == 0 {
                assert(r[0] == s[0]);
                assert(r[j] == rr[j - 1]);
                if rr[j - 1].0 == k {
                    assert(s[0].0 != k);
                } else {
                    assert(rr[j - 1].0 == k || crate::events::has_key(s.drop_first(), rr[j - 1].0));
                    let t = choose|t: int|
                        0 <= t < s.drop_first().len() && s.drop_first()[t].0 == rr[j - 1].0;
                    assert(s.drop_first()[t] == s[t + 1]);
                    assert(s[0].0 != s[t + 1].0);
                }
            } else {
                assert(r[i] == rr[i - 1]);
                assert(r[j] == rr[j - 1]);
            }
        }
    }
}

/// Folded entries always form a map with pairwise-distinct keys.
pub proof fn lemma_fold_insert_unique(pairs: Seq<(Seq<char>, Seq<char>)>)
    ensures
        keys_unique(fold_insert(pairs)),
    decreases pairs.len(),
{
    if pairs.len() > 0 {
        lemma_fold_insert_unique(pairs.drop_last());
        lemma_spec_insert_unique(fold_insert(pairs.drop_last()), pairs.last().0, pairs.last().1);
    }
}

/// Folding entries whose keys are already pairwise distinct reproduces them.
pub proof fn lemma_fold_insert_id(d: Seq<(Seq<char>, Seq<char>)>)
    requires
        keys_unique(d),
    ensures
        fold_insert(d) =~= d,
    decreases d.len(),
{
    if d.len() > 0 {
        let dd = d.drop_last();
        assert(keys_unique(dd)) by {
            assert forall|i: int, j: int| 0 <= i < j < dd.len() implies dd[i].0 != dd[j].0 by {
                assert(dd[i] == d[i]);
                assert(dd[j] == d[j]);
            }
        }
        lemma_fold_insert_id(dd);
        assert(fold_insert(dd) == dd);
        assert forall|j: int| 0 <= j < dd.len() implies dd[j].0 != d.last().0 by {
            assert(dd[j] == d[j]);
            assert(d[j].0 != d[d.len() - 1].0);
        }
        crate::events::lemma_insert_absent(dd, d.last().0, d.last().1);
        assert(dd.push((d.last().0, d.last().1)) =~= d);
    }
}

/// The round-trip law: parsing the rendering of any well-formed event model
/// yields that model again, across every event type, severity, timestamp and
/// detail map.
#[verifier::rlimit(100)]
#[verifier::spinoff_prover]
pub proof fn lemma_event_round_trip(m: EventModel)
    requires
        m.wf(),
    ensures
        parse_event(render_event(m)) == Some(m),
{
    let qts = quoted(render_ts(m.timestamp));
    let qet = quoted(event_type_tag(m.event_type));
    let qsev = quoted(severity_tag(m.severity));
    let qsrc = quoted(m.source);
    let qdesc = quoted(m.description);
    let det = render_details(m.details);
    let s = render_event(m);
    let t12: Seq<char> = seq!['}'];
    let t11 = det + t12;
    let t10 = ",\"details\":"@ + t11;
    let t9 = qdesc + t10;
    let t8 = ",\"description\":"@ + t9;
    let t7 = qsrc + t8;
    let t6 = ",\"source\":"@ + t7;
    let t5 = qsev + t6;
    let t4 = ",\"severity\":"@ + t5;
    let t3 = qet + t4;
    let t2 = ",\"event_type\":"@ + t3;
    let t1 = qts + t2;
    assert(s =~= "{\"timestamp\":"@ + t1);
    lemma_lit_rt("{\"timestamp\":"@, t1);
    assert(t1 =~= qts + t2);
    lemma_quoted_rt(render_ts(m.timestamp), t2);
    lemma_ts_rt(m.timestamp);
    lemma_lit_rt(",\"event_type\":"@, t3);
    lemma_quoted_rt(event_type_tag(m.event_type), t4);
    lemma_event_type_tag_rt(m.event_type);
    lemma_lit_rt(",\"severity\":"@, t5);
    lemma_quoted_rt(severity_tag(m.severity), t6);
    lemma_severity_tag_rt(m.severity);
    lemma_lit_rt(",\"source\":"@, t7);
    lemma_quoted_rt(m.source, t8);
    lemma_lit_rt(",\"description\":"@, t9);
    lemma_quoted_rt(m.description, t10);
    lemma_lit_rt(",\"details\":"@, t11);
    lemma_render_pairs_len(m.details);
    assert(t11.len() >= m.details.len());
    lemma_details_rt(m.details, t12, t11.len());
    assert(t12 =~= seq!['}'] + Seq::<char>::empty());
    lemma_lit_rt(seq!['}'], Seq::<char>::empty());
    lemma_fold_insert_id(m.details);
    assert(parse_event(s) == Some(m));
}

/// The view of a pair vector as sequences of characters.
pub open spec fn pairs_view(v: Seq<(String, String)>) -> Seq<(Seq<char>, Seq<char>)> {
    Seq::new(v.len(), |i: int| (v[i].0@, v[i].1@))
}

fn push_chars_of(out: &mut Vec<char>, s: &str)
    ensures
        final(out)@ == old(out)@ + s@,
{
    let n = s.unicode_len();
    let mut i: usize = 0;
    while i < n
        invariant
            i <= n,
            n == s@.len(),
            out@ =~= old(out)@ + s@.take(i as int),
        decreases n - i,
    {
        out.push(s.get_char(i));
        i += 1;
    }
    assert(out@ =~= old(out)@ + s@);
}


proof fn lemma_esc_single(c: char)
    ensures
        esc(seq![c]) =~= esc_char(c),
{
    assert(seq![c].len() == 1);
    assert(seq![c][0] == c);
    assert(seq![c].drop_first() =~= Seq::<char>::empty());
    assert(esc(seq![c].drop_first()) =~= Seq::<char>::empty());
}

fn push_escaped(out: &mut Vec<char>, s: &str)
    ensures
        final(out)@ == old(out)@ + esc(s@),
{
    let n = s.unicode_len();
    let mut i: usize = 0;
    while i < n
        invariant
            i <= n,
            n == s@.len(),
            out@ =~= old(out)@ + esc(s@.take(i as int)),
        decreases n - i,
    {
        let c = s.get_char(i);
        if c == '"' {
            out.push('\\');
            out.push('"');
        } else if c == '\\' {
            out.push('\\');
            out.push('\\');
        } else if (c as u32) < 32 {
            let u = c as u32;
            let hi = (u / 16) as u8;
            let lo = (u % 16) as u8;
            out.push('\\');
            out.push('u');
            out.push('0');
            out.push('0');
            out.push(
                if hi < 10 {
                    (48 + hi) as char
                } else {
                    (87 + hi) as char
                },
            );
            out.push(
                if lo < 10 {
                    (48 + lo) as char
                } else {
                    (87 + lo) as char
                },
            );
        } else {
            out.push(c);
        }
        proof {
            lemma_esc_append(s@.take(i as int), seq![c]);
            assert(s@.take(i + 1) =~= s@.take(i as int) + seq![c]);
            lemma_esc_single(c);
            assert(out@ =~= old(out)@ + esc(s@.take(i + 1)));
        }
        i += 1;
    }
    assert(s@.take(n as int) =~= s@);
    assert(out@ =~= old(out)@ + esc(s@));
}

fn push_quoted(out: &mut Vec<char>, s: &str)
    ensures
        final(out)@ == old(out)@ + quoted(s@),
{
    out.push('"');
    push_escaped(out, s);
    out.push('"');
    assert(out@ =~= old(out)@ + quoted(s@));
}

fn pow10_u32(w: usize) -> (r: u32)
    requires
        w <= 9,
    ensures
        r as nat == pow10(w as nat),
        1 <= r,
    decreases w,
{
    proof {
        lemma_pow10_le_billion(w as nat);
    }
    if w == 0 {
        1
    } else {
        10 * pow10_u32(w - 1)
    }
}

fn push_fixed(out: &mut Vec<char>, n: u32, w: usize)
    requires
        w <= 9,
    ensures
        final(out)@ == old(out)@ + render_fixed(n as nat, w as nat),
    decreases w,
{
    if w == 0 {
        assert(out@ =~= old(out)@ + render_fixed(n as nat, 0));
        return ;
    }
    let p = pow10_u32(w - 1);
    let hi = (n / p) % 10;
    out.push((48 + (hi as u8)) as char);
    push_fixed(out, n % p, w - 1);
    assert(out@ =~= old(out)@ + render_fixed(n as nat, w as nat));
}

fn push_ts(out: &mut Vec<char>, t: Timestamp)
    ensures
        final(out)@ == old(out)@ + render_ts(t),
{
    push_fixed(out, t.year as u32, 4);
    out.push('-');
    push_fixed(out, t.month as u32, 2);
    out.push('-');
    push_fixed(out, t.day as u32, 2);
    out.push('T');
    push_fixed(out, t.hour as u32, 2);
    out.push(':');
    push_fixed(out, t.minute as u32, 2);
    out.push(':');
    push_fixed(out, t.second as u32, 2);
    out.push('.');
    push_fixed(out, t.nanos, 9);
    out.push('Z');
    assert(out@ =~= old(out)@ + render_ts(t));
}

/// Enumeration member name of a severity, as text.
pub fn severity_tag_str(s: Severity) -> (r: &'static str)
    ensures
        r@ == severity_tag(s),
{
    match s {
        Severity::Info => "Info",
        Severity::Low => "Low",
        Severity::Medium => "Medium",
        Severity::High => "High",
        Severity::Critical => "Critical",
    }
}

fn push_pairs(out: &mut Vec<char>, v: &Vec<(String, String)>, i: usize)
    requires
        i <= v@.len(),
    ensures
        final(out)@ == old(out)@ + render_pairs(pairs_view(v@).skip(i as int)),
    decreases v@.len() - i,
{
    let ghost sv = pairs_view(v@);
    if i == v.len() {
        assert(sv.skip(i as int) =~= Seq::<(Seq<char>, Seq<char>)>::empty());
        assert(out@ =~= old(out)@ + render_pairs(sv.skip(i as int)));
        return ;
    }
    push_quoted(out, v[i].0.as_str());
    out.push(':');
    push_quoted(out, v[i].1.as_str());
    if i + 1 == v.len() {
        assert(sv.skip(i as int).len() == 1);
        assert(sv.skip(i as int)[0] == (v@[i as int].0@, v@[i as int].1@));
        assert(out@ =~= old(out)@ + render_pairs(sv.skip(i as int)));
    } else {
        out.push(',');
        push_pairs(out, v, i + 1);
        assert(sv.skip(i as int).drop_first() =~= sv.skip(i + 1));
        assert(sv.skip(i as int)[0] == (v@[i as int].0@, v@[i as int].1@));
        assert(out@ =~= old(out)@ + render_pairs(sv.skip(i as int)));
    }
}

fn push_details(out: &mut Vec<char>, d: &DetailMap)
    ensures
        final(out)@ == old(out)@ + render_details(d@),
{
    out.push('{');
    let pairs = d.pairs();
    proof {
        assert(pairs_view(pairs@) =~= d@);
        assert(pairs_view(pairs@).skip(0) =~= d@);
    }
    push_pairs(out, pairs, 0);
    out.push('}');
    assert(out@ =~= old(out)@ + render_details(d@));
}

fn p_lit<'a>(s: &'a str, lit: &str) -> (r: Option<&'a str>)
    ensures
        match r {
            Some(rest) => parse_lit(s@, lit@) == Some(rest@),
            None => parse_lit(s@, lit@) is None,
        },
{
    let ln = lit.unicode_len();
    let n = s.unicode_len();
    if ln > n {
        return None;
    }
    let mut j: usize = 0;
    while j < ln
        invariant
            j <= ln,
            ln == lit@.len(),
            n == s@.len(),
            ln <= n,
            forall|k: int| 0 <= k < j ==> s@[k] == lit@[k],
        decreases ln - j,
    {
        if s.get_char(j) != lit.get_char(j) {
            assert(s@.subrange(0, ln as int)[j as int] != lit@[j as int]);
            return None;
        }
        j += 1;
    }
    assert(s@.subrange(0, ln as int) =~= lit@);
    let rest = s.substring_char(ln, n);
    assert(rest@ =~= s@.skip(ln as int));
    Some(rest)
}

fn hex_val_of(c: char) -> (r: i32)
    ensures
        r as int == hex_val(c),
{
    let u = c as u32;
    if 48 <= u && u <= 57 {
        (u - 48) as i32
    } else if 97 <= u && u <= 102 {
        (u - 87) as i32
    } else {
        -1
    }
}

fn p_str_body<'a>(s: &'a str) -> (r: Option<(String, &'a str)>)
    ensures
        match r {
            Some(v) => parse_str_body(s@) == Some((v.0@, v.1@)),
            None => parse_str_body(s@) is None,
        },
    decreases s@.len(),
{
    let n = s.unicode_len();
    if n == 0 {
        return None;
    }
    let c = s.get_char(0);
    if c == '"' {
        let rest = s.substring_char(1, n);
        assert(rest@ =~= s@.drop_first());
        return Some((String::new(), rest));
    }
    if c == '\\' {
        if n < 2 {
            return None;
        }
        let e = s.get_char(1);
        if e == '"' || e == '\\' {
            let tail = s.substring_char(2, n);
            assert(tail@ =~= s@.skip(2));
            match p_str_body(tail) {
                None => None,
                Some((v, rest)) => {
                    let mut o = String::new();
                    crate::strutil::push_char(&mut o, e);
                    o.append(v.as_str());
                    assert(o@ =~= seq![e] + v@);
                    Some((o, rest))
                },
            }
        } else if e == 'u' && n >= 6 {
            let c2 = s.get_char(2);
            let c3 = s.get_char(3);
            let h1 = hex_val_of(s.get_char(4));
            let h2 = hex_val_of(s.get_char(5));
            if c2 == '0' && c3 == '0' && h1 >= 0 && h2 >= 0 && h1 * 16 + h2 < 32 {
                let code = (h1 * 16 + h2) as u8;
                let u = code as char;
                proof {
                    vstd::utf8::char_u32_cast(u, ((h1 * 16 + h2) as u32));
                }
                let tail = s.substring_char(6, n);
                assert(tail@ =~= s@.skip(6));
                match p_str_body(tail) {
                    None => None,
                    Some((v, rest)) => {
                        let mut o = String::new();
                        crate::strutil::push_char(&mut o, u);
                        o.append(v.as_str());
                        assert(o@ =~= seq![u] + v@);
                        Some((o, rest))
                    },
                }
            } else {
                None
            }
        } else {
            None
        }
    } else if (c as u32) < 32 {
        None
    } else {
        let tail = s.substring_char(1, n);
        assert(tail@ =~= s@.drop_first());
        match p_str_body(tail) {
            None => None,
            Some((v, rest)) => {
                let mut o = String::new();
                crate::strutil::push_char(&mut o, c);
                o.append(v.as_str());
                assert(o@ =~= seq![c] + v@);
                Some((o, rest))
            },
        }
    }
}

fn p_quoted<'a>(s: &'a str) -> (r: Option<(String, &'a str)>)
    ensures
        match r {
            Some(v) => parse_quoted(s@) == Some((v.0@, v.1@)),
            None => parse_quoted(s@) is None,
        },
{
    let n = s.unicode_len();
    if n == 0 {
        return None;
    }
    if s.get_char(0) != '"' {
        return None;
    }
    let body = s.substring_char(1, n);
    assert(body@ =~= s@.drop_first());
    p_str_body(body)
}

fn p_fixed<'a>(s: &'a str, w: usize) -> (r: Option<(u32, &'a str)>)
    requires
        w <= 9,
    ensures
        match r {
            Some(v) => parse_fixed(s@, w as nat) == Some((v.0 as nat, v.1@)),
            None => parse_fixed(s@, w as nat) is None,
        },
    decreases w,
{
    if w == 0 {
        return Some((0, s));
    }
    let n = s.unicode_len();
    if n == 0 {
        return None;
    }
    let c = s.get_char(0);
    let u = c as u32;
    if u < 48 || u > 57 {
        return None;
    }
    let sub = s.substring_char(1, n);
    assert(sub@ =~= s@.drop_first());
    match p_fixed(sub, w - 1) {
        None => None,
        Some((v, rest)) => {
            proof {
                lemma_parse_fixed_bound(sub@, (w - 1) as nat);
                lemma_pow10_le_billion((w - 1) as nat);
                assert(pow10(0) == 1);
                assert(pow10(1) == 10);
                assert(pow10(2) == 100);
                assert(pow10(3) == 1000);
                assert(pow10(4) == 10000);
                assert(pow10(5) == 100000);
                assert(pow10(6) == 1000000);
                assert(pow10(7) == 10000000);
                assert(pow10(8) == 100000000);
                lemma_pow10_monotone((w - 1) as nat, 8);
            }
            let p = pow10_u32(w - 1);
            let d = u - 48;
            assert(d <= 9);
            assert(p <= 100_000_000);
            assert(v < p);
            assert(d * p + v < 1_000_000_000) by (nonlinear_arith)
                requires
                    d <= 9,
                    v < p,
                    1 <= p <= 100_000_000,
            ;
            Some((d * p + v, rest))
        },
    }
}

fn ts_from_text(s: &str) -> (r: Option<Timestamp>)
    ensures
        r == ts_of_text(s@),
{
    proof {
        reveal_strlit("-");
        reveal_strlit("T");
        assert("-"@ =~= seq!['-']);
        assert("T"@ =~= seq!['T']);
        assert(pow10(0) == 1);
        assert(pow10(1) == 10);
        assert(pow10(2) == 100);
        assert(pow10(3) == 1000);
        assert(pow10(4) == 10000);
    }
    let r1 = p_fixed(s, 4);
    proof {
        lemma_parse_fixed_bound(s@, 4);
    }
    match r1 {
        None => None,
        Some((year, s1)) => match p_lit(s1, "-") {
            None => None,
            Some(s2) => {
                let r2 = p_fixed(s2, 2);
                proof {
                    lemma_parse_fixed_bound(s2@, 2);
                }
                match r2 {
                    None => None,
                    Some((month, s3)) => match p_lit(s3, "-") {
                        None => None,
                        Some(s4) => {
                            let r3 = p_fixed(s4, 2);
                            proof {
                                lemma_parse_fixed_bound(s4@, 2);
                            }
                            match r3 {
                                None => None,
                                Some((day, s5)) => match p_lit(s5, "T") {
                                    None => None,
                                    Some(s6) => ts_from_clock(s6, year, month, day),
                                },
                            }
                        },
                    },
                }
            },
        },
    }
}

/// Continues a timestamp parse after the date part: clock, subseconds, zone.
fn ts_from_clock(s: &str, year: u32, month: u32, day: u32) -> (r: Option<Timestamp>)
    requires
        year < 10000,
        month < 100,
        day < 100,
    ensures
        r == ts_tail_spec(s@, year as nat, month as nat, day as nat),
{
    proof {
        reveal_strlit(":");
        reveal_strlit(".");
        reveal_strlit("Z");
        assert(":"@ =~= seq![':']);
        assert("."@ =~= seq!['.']);
        assert("Z"@ =~= seq!['Z']);
        assert(pow10(0) == 1);
        assert(pow10(1) == 10);
        assert(pow10(2) == 100);
        assert(pow10(3) == 1000);
        assert(pow10(4) == 10000);
        assert(pow10(5) == 100000);
        assert(pow10(6) == 1000000);
        assert(pow10(7) == 10000000);
        assert(pow10(8) == 100000000);
        assert(pow10(9) == 1000000000);
    }
    let r1 = p_fixed(s, 2);
    proof {
        lemma_parse_fixed_bound(s@, 2);
    }
    match r1 {
        None => None,
        Some((hour, s1)) => match p_lit(s1, ":") {
            None => None,
            Some(s2) => {
                let r2 = p_fixed(s2, 2);
                proof {
                    lemma_parse_fixed_bound(s2@, 2);
                }
                match r2 {
                    None => None,
                    Some((minute, s3)) => match p_lit(s3, ":") {
                        None => None,
                        Some(s4) => {
                            let r3 = p_fixed(s4, 2);
                            proof {
                                lemma_parse_fixed_bound(s4@, 2);
                            }
                            match r3 {
                                None => None,
                                Some((second, s5)) => match p_lit(s5, ".") {
                                    None => None,
                                    Some(s6) => {
                                        let r4 = p_fixed(s6, 9);
                                        proof {
                                            lemma_parse_fixed_bound(s6@, 9);
                                        }
                                        match r4 {
                                            None => None,
                                            Some((nanos, s7)) => match p_lit(s7, "Z") {
                                                None => None,
                                                Some(s8) => {
                                                    if !s8.is_empty() {
                                                        return None;
                                                    }
                                                    let t = Timestamp {
                                                        year: year as u16,
                                                        month: month as u8,
                                                        day: day as u8,
                                                        hour: hour as u8,
                                                        minute: minute as u8,
                                                        second: second as u8,
                                                        nanos,
                                                    };
                                                    if 1 <= month && month <= 12 && 1 <= day && day
                                                        <= 31 && hour <= 23 && minute <= 59
                                                        && second <= 59 && nanos <= 999_999_999 {
                                                        Some(t)
                                                    } else {
                                                        None
                                                    }
                                                },
                                            },
                                        }
                                    },
                                },
                            }
                        },
                    },
                }
            },
        },
    }
}

/// The clock-and-zone tail of a timestamp text, given the parsed date.
pub open spec fn ts_tail_spec(s: Seq<char>, year: nat, month: nat, day: nat) -> Option<Timestamp> {
    match parse_fixed(s, 2) {
        None => None,
        Some((hour, s)) => match parse_lit(s, seq![':']) {
            None => None,
            Some(s) => match parse_fixed(s, 2) {
                None => None,
                Some((minute, s)) => match parse_lit(s, seq![':']) {
                    None => None,
                    Some(s) => match parse_fixed(s, 2) {
                        None => None,
                        Some((second, s)) => match parse_lit(s, seq!['.']) {
                            None => None,
                            Some(s) => match parse_fixed(s, 9) {
                                None => None,
                                Some((nanos, s)) => match parse_lit(s, seq!['Z']) {
                                    None => None,
                                    Some(s) => {
                                        if s.len() == 0 {
                                            let t = Timestamp {
                                                year: year as u16,
                                                month: month as u8,
                                                day: day as u8,
                                                hour: hour as u8,
                                                minute: minute as u8,
                                                second: second as u8,
                                                nanos: nanos as u32,
                                            };
                                            if t.wf() {
                                                Some(t)
                                            } else {
                                                None
                                            }
                                        } else {
                                            None
                                        }
                                    },
                                },
                            },
                        },
                    },
                },
            },
        },
    }
}

/// Enumeration member name of an event type, as text.
pub fn event_type_tag_str(t: EventType) -> (r: &'static str)
    ensures
        r@ == event_type_tag(t),
{
    match t {
        EventType::FileCreated => "FileCreated",
        EventType::FileModified => "FileModified",
        EventType::FileDeleted => "FileDeleted",
        EventType::FileRenamed => "FileRenamed",
        EventType::FilePermissionChanged => "FilePermissionChanged",
        EventType::DirectoryCreated => "DirectoryCreated",
        EventType::DirectoryDeleted => "DirectoryDeleted",
        EventType::ProcessStarted => "ProcessStarted",
        EventType::ProcessTerminated => "ProcessTerminated",
        EventType::ProcessInjection => "ProcessInjection",
        EventType::DllLoaded => "DllLoaded",
        EventType::ChildProcessCreated => "ChildProcessCreated",
        EventType::NetworkConnectionEstablished => "NetworkConnectionEstablished",
        EventType::NetworkConnectionClosed => "NetworkConnectionClosed",
        EventType::DnsQuery => "DnsQuery",
        EventType::HttpRequest => "HttpRequest",
        EventType::SuspiciousTraffic => "SuspiciousTraffic",
        EventType::LoginSuccess => "LoginSuccess",
        EventType::LoginFailure => "LoginFailure",
        EventType::LogoutEvent => "LogoutEvent",
        EventType::PrivilegeEscalation => "PrivilegeEscalation",
        EventType::PasswordChanged => "PasswordChanged",
        EventType::RegistryKeyCreated => "RegistryKeyCreated",
        EventType::RegistryKeyModified => "RegistryKeyModified",
        EventType::RegistryKeyDeleted => "RegistryKeyDeleted",
        EventType::WindowsServiceStarted => "WindowsServiceStarted",
        EventType::WindowsServiceStopped => "WindowsServiceStopped",
        EventType::ScheduledTaskCreated => "ScheduledTaskCreated",
        EventType::CronJobCreated => "CronJobCreated",
        EventType::SudoUsage => "SudoUsage",
        EventType::PackageInstalled => "PackageInstalled",
        EventType::KernelModuleLoaded => "KernelModuleLoaded",
        EventType::SystemdServiceChanged => "SystemdServiceChanged",
        EventType::MalwareDetected => "MalwareDetected",
        EventType::SuspiciousCommand => "SuspiciousCommand",
        EventType::UnauthorizedAccess => "UnauthorizedAccess",
        EventType::DataExfil => "DataExfil",
        EventType::AntiVirusAlert => "AntiVirusAlert",
        EventType::FireWallBlock => "FireWallBlock",
        EventType::SystemStartup => "SystemStartup",
        EventType::SystemShutdown => "SystemShutdown",
        EventType::TimeChanged => "TimeChanged",
        EventType::UserCreated => "UserCreated",
        EventType::UserDeleted => "UserDeleted",
        EventType::GroupMembershipChanged => "GroupMembershipChanged",
    }
}

/// Reads an event type back from its member name.
pub fn event_type_from_tag(s: &str) -> (r: Option<EventType>)
    ensures
        r == event_type_of_tag(s@),
{
    if crate::strutil::str_eq(s, "FileCreated") {
        Some(EventType::FileCreated)
    } else if crate::strutil::str_eq(s, "FileModified") {
        Some(EventType::FileModified)
    } else if crate::strutil::str_eq(s, "FileDeleted") {
        Some(EventType::FileDeleted)
    } else if crate::strutil::str_eq(s, "FileRenamed") {
        Some(EventType::FileRenamed)
    } else if crate::strutil::str_eq(s, "FilePermissionChanged") {
        Some(EventType::FilePermissionChanged)
    } else if crate::strutil::str_eq(s, "DirectoryCreated") {
        Some(EventType::DirectoryCreated)
    } else if crate::strutil::str_eq(s, "DirectoryDeleted") {
        Some(EventType::DirectoryDeleted)
    } else if crate::strutil::str_eq(s, "ProcessStarted") {
        Some(EventType::ProcessStarted)
    } else if crate::strutil::str_eq(s, "ProcessTerminated") {
        Some(EventType::ProcessTerminated)
    } else if crate::strutil::str_eq(s, "ProcessInjection") {
        Some(EventType::ProcessInjection)
    } else if crate::strutil::str_eq(s, "DllLoaded") {
        Some(EventType::DllLoaded)
    } else if crate::strutil::str_eq(s, "ChildProcessCreated") {
        Some(EventType::ChildProcessCreated)
    } else if crate::strutil::str_eq(s, "NetworkConnectionEstablished") {
        Some(EventType::NetworkConnectionEstablished)
    } else if crate::strutil::str_eq(s, "NetworkConnectionClosed") {
        Some(EventType::NetworkConnectionClosed)
    } else if crate::strutil::str_eq(s, "DnsQuery") {
        Some(EventType::DnsQuery)
    } else if crate::strutil::str_eq(s, "HttpRequest") {
        Some(EventType::HttpRequest)
    } else if crate::strutil::str_eq(s, "SuspiciousTraffic") {
        Some(EventType::SuspiciousTraffic)
    } else if crate::strutil::str_eq(s, "LoginSuccess") {
        Some(EventType::LoginSuccess)
    } else if crate::strutil::str_eq(s, "LoginFailure") {
        Some(EventType::LoginFailure)
    } else if crate::strutil::str_eq(s, "LogoutEvent") {
        Some(EventType::LogoutEvent)
    } else if crate::strutil::str_eq(s, "PrivilegeEscalation") {
        Some(EventType::PrivilegeEscalation)
    } else if crate::strutil::str_eq(s, "PasswordChanged") {
        Some(EventType::PasswordChanged)
    } else if crate::strutil::str_eq(s, "RegistryKeyCreated") {
        Some(EventType::RegistryKeyCreated)
    } else if crate::strutil::str_eq(s, "RegistryKeyModified") {
        Some(EventType::RegistryKeyModified)
    } else if crate::strutil::str_eq(s, "RegistryKeyDeleted") {
        Some(EventType::RegistryKeyDeleted)
    } else if crate::strutil::str_eq(s, "WindowsServiceStarted") {
        Some(EventType::WindowsServiceStarted)
    } else if crate::strutil::str_eq(s, "WindowsServiceStopped") {
        Some(EventType::WindowsServiceStopped)
    } else if crate::strutil::str_eq(s, "ScheduledTaskCreated") {
        Some(EventType::ScheduledTaskCreated)
    } else if crate::strutil::str_eq(s, "CronJobCreated") {
        Some(EventType::CronJobCreated)
    } else if crate::strutil::str_eq(s, "SudoUsage") {
        Some(EventType::SudoUsage)
    } else if crate::strutil::str_eq(s, "PackageInstalled") {
        Some(EventType::PackageInstalled)
    } else if crate::strutil::str_eq(s, "KernelModuleLoaded") {
        Some(EventType::KernelModuleLoaded)
    } else if crate::strutil::str_eq(s, "SystemdServiceChanged") {
        Some(EventType::SystemdServiceChanged)
    } else if crate::strutil::str_eq(s, "MalwareDetected") {
        Some(EventType::MalwareDetected)
    } else if crate::strutil::str_eq(s, "SuspiciousCommand") {
        Some(EventType::SuspiciousCommand)
    } else if crate::strutil::str_eq(s, "UnauthorizedAccess") {
        Some(EventType::UnauthorizedAccess)
    } else if crate::strutil::str_eq(s, "DataExfil") {
        Some(EventType::DataExfil)
    } else if crate::strutil::str_eq(s, "AntiVirusAlert") {
        Some(EventType::AntiVirusAlert)
    } else if crate::strutil::str_eq(s, "FireWallBlock") {
        Some(EventType::FireWallBlock)
    } else if crate::strutil::str_eq(s, "SystemStartup") {
        Some(EventType::SystemStartup)
    } else if crate::strutil::str_eq(s, "SystemShutdown") {
        Some(EventType::SystemShutdown)
    } else if crate::strutil::str_eq(s, "TimeChanged") {
        Some(EventType::TimeChanged)
    } else if crate::strutil::str_eq(s, "UserCreated") {
        Some(EventType::UserCreated)
    } else if crate::strutil::str_eq(s, "UserDeleted") {
        Some(EventType::UserDeleted)
    } else if crate::strutil::str_eq(s, "GroupMembershipChanged") {
        Some(EventType::GroupMembershipChanged)
    } else {
        None
    }
}

/// Reads a severity back from its member name.
pub fn severity_from_tag(s: &str) -> (r: Option<Severity>)
    ensures
        r == severity_of_tag(s@),
{
    if crate::strutil::str_eq(s, "Info") {
        Some(Severity::Info)
    } else if crate::strutil::str_eq(s, "Low") {
        Some(Severity::Low)
    } else if crate::strutil::str_eq(s, "Medium") {
        Some(Severity::Medium)
    } else if crate::strutil::str_eq(s, "High") {
        Some(Severity::High)
    } else if crate::strutil::str_eq(s, "Critical") {
        Some(Severity::Critical)
    } else {
        None
    }
}

fn p_pairs<'a>(s: &'a str, fuel: usize) -> (r: Option<(Vec<(String, String)>, &'a str)>)
    ensures
        match r {
            Some(v) => parse_pairs(s@, fuel as nat) == Some((pairs_view(v.0@), v.1@)),
            None => parse_pairs(s@, fuel as nat) is None,
        },
    decreases fuel,
{
    proof {
        reveal_strlit(":");
        assert(":"@ =~= seq![':']);
    }
    if fuel == 0 {
        return None;
    }
    match p_quoted(s) {
        None => None,
        Some((k, s1)) => match p_lit(s1, ":") {
            None => None,
            Some(s2) => match p_quoted(s2) {
                None => None,
                Some((v, s3)) => {
                    let n3 = s3.unicode_len();
                    if n3 >= 1 && s3.get_char(0) == ',' {
                        let tail = s3.substring_char(1, n3);
                        assert(tail@ =~= s3@.drop_first());
                        match p_pairs(tail, fuel - 1) {
                            None => None,
                            Some((mut ps, s4)) => {
                                let ghost pre = ps@;
                                ps.insert(0, (k, v));
                                proof {
                                    assert(ps@ =~= seq![(ps@[0].0, ps@[0].1)].add(pre));
                                    assert(pairs_view(ps@) =~= seq![
                                        (ps@[0].0@, ps@[0].1@),
                                    ].add(pairs_view(pre)));
                                }
                                Some((ps, s4))
                            },
                        }
                    } else if n3 >= 1 && s3.get_char(0) == '}' {
                        let mut ps: Vec<(String, String)> = Vec::new();
                        ps.push((k, v));
                        let rest = s3.substring_char(1, n3);
                        proof {
                            assert(rest@ =~= s3@.drop_first());
                            assert(pairs_view(ps@) =~= seq![(ps@[0].0@, ps@[0].1@)]);
                        }
                        Some((ps, rest))
                    } else {
                        None
                    }
                },
            },
        },
    }
}

fn p_details<'a>(s: &'a str) -> (r: Option<(Vec<(String, String)>, &'a str)>)
    ensures
        match r {
            Some(v) => parse_details(s@, s@.len()) == Some((pairs_view(v.0@), v.1@)),
            None => parse_details(s@, s@.len()) is None,
        },
{
    proof {
        reveal_strlit("{");
        assert("{"@ =~= seq!['{']);
    }
    let n = s.unicode_len();
    match p_lit(s, "{") {
        None => None,
        Some(s1) => {
            let n1 = s1.unicode_len();
            if n1 >= 1 && s1.get_char(0) == '}' {
                let rest = s1.substring_char(1, n1);
                assert(rest@ =~= s1@.drop_first());
                let ps: Vec<(String, String)> = Vec::new();
                assert(pairs_view(ps@) =~= Seq::<(Seq<char>, Seq<char>)>::empty());
                Some((ps, rest))
            } else {
                match p_pairs(s1, n) {
                    None => {
                        assert(parse_pairs(s1@, n as nat) is None);
                        None
                    },
                    Some((ps, rest)) => Some((ps, rest)),
                }
            }
        },
    }
}

impl SecurityEvent {
    /// Canonical JSON rendering of this event; serialization cannot fail.
    pub fn to_json(&self) -> (r: Result<String, PositronError>)
        ensures
            r matches Ok(s) && s@ == render_event(self@),
    {
        let mut out: Vec<char> = Vec::new();
        push_chars_of(&mut out, "{\"timestamp\":");
        let mut ts_text: Vec<char> = Vec::new();
        push_ts(&mut ts_text, self.timestamp);
        let ts_str = crate::strutil::chars_to_string(&ts_text);
        push_quoted(&mut out, ts_str.as_str());
        push_chars_of(&mut out, ",\"event_type\":");
        push_quoted(&mut out, event_type_tag_str(self.event_type));
        push_chars_of(&mut out, ",\"severity\":");
        push_quoted(&mut out, severity_tag_str(self.severity));
        push_chars_of(&mut out, ",\"source\":");
        push_quoted(&mut out, self.source.as_str());
        push_chars_of(&mut out, ",\"description\":");
        push_quoted(&mut out, self.description.as_str());
        push_chars_of(&mut out, ",\"details\":");
        push_details(&mut out, &self.details);
        out.push('}');
        assert(out@ =~= render_event(self@));
        Ok(crate::strutil::chars_to_string(&out))
    }

    /// Reads an event back from its canonical JSON rendering. Exactly the
    /// texts accepted by `parse_event` succeed; anything else is a `Json`
    /// error. A parsed event is well formed: timestamp in range, duplicate
    /// detail keys collapsed last-write-wins.
    pub fn from_json(json: &str) -> (r: Result<SecurityEvent, PositronError>)
        ensures
            parse_event(json@) matches Some(m) ==> (r matches Ok(e) && e@ == m && e.wf()),
            parse_event(json@) is None ==> (r matches Err(e) && e is Json),
    {
        proof {
            reveal_strlit("}");
            assert("}"@ =~= seq!['}']);
        }
        match p_lit(json, "{\"timestamp\":") {
            None => Err(json_error()),
            Some(s1) => match p_quoted(s1) {
                None => Err(json_error()),
                Some((ts_text, s2)) => match ts_from_text(ts_text.as_str()) {
                    None => Err(json_error()),
                    Some(timestamp) => match p_lit(s2, ",\"event_type\":") {
                        None => Err(json_error()),
                        Some(s3) => match p_quoted(s3) {
                            None => Err(json_error()),
                            Some((et_text, s4)) => match event_type_from_tag(et_text.as_str()) {
                                None => Err(json_error()),
                                Some(event_type) => match p_lit(s4, ",\"severity\":") {
                                    None => Err(json_error()),
                                    Some(s5) => match p_quoted(s5) {
                                        None => Err(json_error()),
                                        Some((sev_text, s6)) => match severity_from_tag(
                                            sev_text.as_str(),
                                        ) {
                                            None => Err(json_error()),
                                            Some(severity) => match p_lit(s6, ",\"source\":") {
                                                None => Err(json_error()),
                                                Some(s7) => match p_quoted(s7) {
                                                    None => Err(json_error()),
                                                    Some((source, s8)) => match p_lit(
                                                        s8,
                                                        ",\"description\":",
                                                    ) {
                                                        None => Err(json_error()),
                                                        Some(s9) => match p_quoted(s9) {
                                                            None => Err(json_error()),
                                                            Some((description, s10)) => Self::from_json_tail(
                                                                json,
                                                                s10,
                                                                timestamp,
                                                                event_type,
                                                                severity,
                                                                source,
                                                                description,
                                                            ),
                                                        },
                                                    },
                                                },
                                            },
                                        },
                                    },
                                },
                            },
                        },
                    },
                },
            },
        }
    }

    /// Finishes a parse after the description: details, closing brace, end of
    /// input, and assembly of the event.
    fn from_json_tail(
        json: &str,
        s10: &str,
        timestamp: Timestamp,
        event_type: EventType,
        severity: Severity,
        source: String,
        description: String,
    ) -> (r: Result<SecurityEvent, PositronError>)
        requires
            timestamp.wf(),
            ({
                let pe = parse_event(json@);
                match parse_lit(s10@, ",\"details\":"@) {
                    Some(s11) => match parse_details(s11, s11.len()) {
                        Some((pairs, s12)) => match parse_lit(s12, seq!['}']) {
                            Some(s13) => {
                                if s13.len() == 0 {
                                    pe == Some(
                                        EventModel {
                                            timestamp,
                                            event_type,
                                            severity,
                                            source: source@,
                                            description: description@,
                                            details: fold_insert(pairs),
                                        },
                                    )
                                } else {
                                    pe is None
                                }
                            },
                            None => pe is None,
                        },
                        None => pe is None,
                    },
                    None => pe is None,
                }
            }),
        ensures
            parse_event(json@) matches Some(m) ==> (r matches Ok(e) && e@ == m && e.wf()),
            parse_event(json@) is None ==> (r matches Err(e) && e is Json),
    {
        proof {
            reveal_strlit("}");
            assert("}"@ =~= seq!['}']);
        }
        match p_lit(s10, ",\"details\":") {
            None => Err(json_error()),
            Some(s11) => match p_details(s11) {
                None => Err(json_error()),
                Some((pairs, s12)) => match p_lit(s12, "}") {
                    None => Err(json_error()),
                    Some(s13) => {
                        if !s13.is_empty() {
                            return Err(json_error());
                        }
                        let mut details = DetailMap::new();
                        let ghost pv = pairs_view(pairs@);
                        assert(fold_insert(pv.take(0)) =~= Seq::<(Seq<char>, Seq<char>)>::empty());
                        let mut i: usize = 0;
                        while i < pairs.len()
                            invariant
                                i <= pairs@.len(),
                                pv == pairs_view(pairs@),
                                details.wf(),
                                details@ == fold_insert(pv.take(i as int)),
                            decreases pairs@.len() - i,
                        {
                            details.insert(pairs[i].0.as_str(), pairs[i].1.as_str());
                            proof {
                                assert(pv.take(i + 1).drop_last() =~= pv.take(i as int));
                                assert(pv.take(i + 1).last() == (
                                    pairs@[i as int].0@,
                                    pairs@[i as int].1@,
                                ));
                            }
                            i += 1;
                        }
                        assert(pv.take(pairs@.len() as int) =~= pv);
                        let event = SecurityEvent {
                            timestamp,
                            event_type,
                            severity,
                            source,
                            description,
                            details,
                        };
                        assert(parse_event(json@) matches Some(m) ==> event@ =~= m);
                        Ok(event)
                    },
                },
            },
        }
    }
}

fn json_error() -> (r: PositronError)
    ensures
        r is Json,
{
    PositronError::Json(String::from_str("malformed security event JSON"))
}

} // verus!
