//! The security-event data model: severities, the event-type taxonomy, UTC
//! timestamps, the open detail map, and the `SecurityEvent` record with its
//! construction helpers.
use vstd::prelude::*;

use chrono::{Datelike, Timelike};

use crate::strutil::dec_digits;

verus! {

/// Severity of a security event, ordered from least to most severe:
/// `Info < Low < Medium < High < Critical`.
#[derive(Clone, Copy, Debug, PartialEq, Eq, Structural)]
pub enum Severity {
    Info,
    Low,
    Medium,
    High,
    Critical,
}

impl Severity {
    /// Position of this severity in the total order, starting at 0 for `Info`.
    pub open spec fn rank_spec(self) -> int {
        match self {
            Severity::Info => 0,
            Severity::Low => 1,
            Severity::Medium => 2,
            Severity::High => 3,
            Severity::Critical => 4,
        }
    }

    /// Numeric rank realizing the total order on severities.
    pub fn rank(self) -> (r: u8)
        ensures
            r as int == self.rank_spec(),
    {
        match self {
            Severity::Info => 0,
            Severity::Low => 1,
            Severity::Medium => 2,
            Severity::High => 3,
            Severity::Critical => 4,
        }
    }
}

/// The rank is injective, so comparing ranks is a total order on severities.
pub proof fn lemma_severity_rank_total_order(a: Severity, b: Severity)
    ensures
        a.rank_spec() == b.rank_spec() <==> a == b,
        0 <= a.rank_spec() <= 4,
{
}

/// Closed taxonomy of security-event categories. The filesystem observer of
/// this crate only produces `FileCreated`, `FileModified` and `FileDeleted`;
/// the remaining variants are the vocabulary of collectors outside this crate.
#[derive(Clone, Copy, Debug, PartialEq, Eq, Structural)]
pub enum EventType {
    FileCreated,
    FileModified,
    FileDeleted,
    FileRenamed,
    FilePermissionChanged,
    DirectoryCreated,
    DirectoryDeleted,
    ProcessStarted,
    ProcessTerminated,
    ProcessInjection,
    DllLoaded,
    ChildProcessCreated,
    NetworkConnectionEstablished,
    NetworkConnectionClosed,
    DnsQuery,
    HttpRequest,
    SuspiciousTraffic,
    LoginSuccess,
    LoginFailure,
    LogoutEvent,
    PrivilegeEscalation,
    PasswordChanged,
    RegistryKeyCreated,
    RegistryKeyModified,
    RegistryKeyDeleted,
    WindowsServiceStarted,
    WindowsServiceStopped,
    ScheduledTaskCreated,
    CronJobCreated,
    SudoUsage,
    PackageInstalled,
    KernelModuleLoaded,
    SystemdServiceChanged,
    MalwareDetected,
    SuspiciousCommand,
    UnauthorizedAccess,
    DataExfil,
    AntiVirusAlert,
    FireWallBlock,
    SystemStartup,
    SystemShutdown,
    TimeChanged,
    UserCreated,
    UserDeleted,
    GroupMembershipChanged,
}

/// A point in UTC time, held as calendar and clock components.
#[derive(Clone, Copy, Debug, PartialEq, Eq, Structural)]
pub struct Timestamp {
    pub year: u16,
    pub month: u8,
    pub day: u8,
    pub hour: u8,
    pub minute: u8,
    pub second: u8,
    pub nanos: u32,
}

/// `v` forced into the closed interval `[lo, hi]`.
pub open spec fn clamp(v: int, lo: int, hi: int) -> int {
    if v < lo {
        lo
    } else if v > hi {
        hi
    } else {
        v
    }
}

impl Timestamp {
    /// Components lie in their calendar and clock ranges.
    pub open spec fn wf(self) -> bool {
        &&& self.year <= 9999
        &&& 1 <= self.month <= 12
        &&& 1 <= self.day <= 31
        &&& self.hour <= 23
        &&& self.minute <= 59
        &&& self.second <= 59
        &&& self.nanos <= 999_999_999
    }

    /// Builds a well-formed timestamp from arbitrary components by forcing
    /// each into its range.
    pub fn from_parts(year: i32, month: u32, day: u32, hour: u32, minute: u32, second: u32, nanos: u32) -> (t: Timestamp)
        ensures
            t.year as int == clamp(year as int, 0, 9999),
            t.month as int == clamp(month as int, 1, 12),
            t.day as int == clamp(day as int, 1, 31),
            t.hour as int == clamp(hour as int, 0, 23),
            t.minute as int == clamp(minute as int, 0, 59),
            t.second as int == clamp(second as int, 0, 59),
            t.nanos as int == clamp(nanos as int, 0, 999_999_999),
            t.wf(),
    {
        Timestamp {
            year: if year < 0 { 0 } else if year > 9999 { 9999 } else { year as u16 },
            month: if month < 1 { 1 } else if month > 12 { 12 } else { month as u8 },
            day: if day < 1 { 1 } else if day > 31 { 31 } else { day as u8 },
            hour: if hour > 23 { 23 } else { hour as u8 },
            minute: if minute > 59 { 59 } else { minute as u8 },
            second: if second > 59 { 59 } else { second as u8 },
            nanos: if nanos > 999_999_999 { 999_999_999 } else { nanos },
        }
    }

    /// The current UTC time, well-formed.
    pub fn now() -> (t: Timestamp)
        ensures
            t.wf(),
    {
        let (year, month, day, hour, minute, second, nanos) = utc_now_parts();
        Timestamp::from_parts(year, month, day, hour, minute, second, nanos)
    }
}

/// Relies on `chrono::Utc::now` and chrono's `Datelike` / `Timelike`
/// accessors for the current UTC time. chrono documents `month` in `1..=12`,
/// `day` in `1..=31`, `hour <= 23`, `minute <= 59`, `second <= 59`, and
/// `nanosecond < 2_000_000_000` (values of a billion or more mark a leap
/// second).
#[verifier::external_body]
fn utc_now_parts() -> (p: (i32, u32, u32, u32, u32, u32, u32))
    ensures
        1 <= p.1 <= 12,
        1 <= p.2 <= 31,
        p.3 <= 23,
        p.4 <= 59,
        p.5 <= 59,
        p.6 < 2_000_000_000,
{
    let n = chrono::Utc::now();
    (n.year(), n.month(), n.day(), n.hour(), n.minute(), n.second(), n.nanosecond())
}

/// Open string-to-string context attached to an event. Keys are
/// case-sensitive and unique; inserting an existing key overwrites its value
/// in place (last write wins).
#[derive(Debug, Clone)]
pub struct DetailMap {
    entries: Vec<(String, String)>,
}

/// `s` has an entry whose key is `k`.
pub open spec fn has_key(s: Seq<(Seq<char>, Seq<char>)>, k: Seq<char>) -> bool {
    exists|i: int| 0 <= i < s.len() && s[i].0 == k
}

/// Keys are pairwise distinct.
pub open spec fn keys_unique(s: Seq<(Seq<char>, Seq<char>)>) -> bool {
    forall|i: int, j: int| 0 <= i < j < s.len() ==> s[i].0 != s[j].0
}

/// Last-write-wins insertion: the first entry with key `k` is overwritten in
/// place; absent that, the pair is appended.
pub open spec fn spec_insert(s: Seq<(Seq<char>, Seq<char>)>, k: Seq<char>, v: Seq<char>) -> Seq<
    (Seq<char>, Seq<char>),
>
    decreases s.len(),
{
    if s.len() == 0 {
        seq![(k, v)]
    } else if s[0].0 == k {
        seq![(k, v)] + s.drop_first()
    } else {
        seq![s[0]] + spec_insert(s.drop_first(), k, v)
    }
}

/// Value of the first entry with key `k`, if any.
pub open spec fn spec_get(s: Seq<(Seq<char>, Seq<char>)>, k: Seq<char>) -> Option<Seq<char>>
    decreases s.len(),
{
    if s.len() == 0 {
        None
    } else if s[0].0 == k {
        Some(s[0].1)
    } else {
        spec_get(s.drop_first(), k)
    }
}

proof fn lemma_insert_at(s: Seq<(Seq<char>, Seq<char>)>, k: Seq<char>, v: Seq<char>, i: int)
    requires
        0 <= i < s.len(),
        s[i].0 == k,
        forall|j: int| 0 <= j < i ==> s[j].0 != k,
    ensures
        spec_insert(s, k, v) =~= s.update(i, (k, v)),
    decreases i,
{
    if i == 0 {
    } else {
        lemma_insert_at(s.drop_first(), k, v, i - 1);
        assert(s.drop_first().update(i - 1, (k, v)) =~= s.update(i, (k, v)).drop_first());
    }
}

pub proof fn lemma_insert_absent(s: Seq<(Seq<char>, Seq<char>)>, k: Seq<char>, v: Seq<char>)
    requires
        forall|j: int| 0 <= j < s.len() ==> s[j].0 != k,
    ensures
        spec_insert(s, k, v) =~= s.push((k, v)),
    decreases s.len(),
{
    if s.len() > 0 {
        lemma_insert_absent(s.drop_first(), k, v);
        assert(s.drop_first().push((k, v)) =~= s.push((k, v)).drop_first());
    }
}

/// Inserting a second, distinct key appends its pair.
pub proof fn lemma_insert_second(k1: Seq<char>, v1: Seq<char>, k2: Seq<char>, v2: Seq<char>)
    requires
        k1 != k2,
    ensures
        spec_insert(seq![(k1, v1)], k2, v2) =~= seq![(k1, v1), (k2, v2)],
{
    let s = seq![(k1, v1)];
    assert forall|j: int| 0 <= j < s.len() implies s[j].0 != k2 by {
        assert(s[j] == (k1, v1));
    }
    lemma_insert_absent(s, k2, v2);
    assert(s.push((k2, v2)) =~= seq![(k1, v1), (k2, v2)]);
}

/// Inserting a third key distinct from the first two appends its pair.
pub proof fn lemma_insert_third(
    k1: Seq<char>,
    v1: Seq<char>,
    k2: Seq<char>,
    v2: Seq<char>,
    k3: Seq<char>,
    v3: Seq<char>,
)
    requires
        k1 != k3,
        k2 != k3,
    ensures
        spec_insert(seq![(k1, v1), (k2, v2)], k3, v3) =~= seq![(k1, v1), (k2, v2), (k3, v3)],
{
    let s = seq![(k1, v1), (k2, v2)];
    assert forall|j: int| 0 <= j < s.len() implies s[j].0 != k3 by {
        if j == 0 {
            assert(s[j] == (k1, v1));
        } else {
            assert(s[j] == (k2, v2));
        }
    }
    lemma_insert_absent(s, k3, v3);
    assert(s.push((k3, v3)) =~= seq![(k1, v1), (k2, v2), (k3, v3)]);
}

proof fn lemma_get_at(s: Seq<(Seq<char>, Seq<char>)>, k: Seq<char>, i: int)
    requires
        0 <= i < s.len(),
        s[i].0 == k,
        forall|j: int| 0 <= j < i ==> s[j].0 != k,
    ensures
        spec_get(s, k) == Some(s[i].1),
    decreases i,
{
    if i > 0 {
        lemma_get_at(s.drop_first(), k, i - 1);
    }
}

proof fn lemma_get_absent(s: Seq<(Seq<char>, Seq<char>)>, k: Seq<char>)
    requires
        forall|j: int| 0 <= j < s.len() ==> s[j].0 != k,
    ensures
        spec_get(s, k) is None,
    decreases s.len(),
{
    if s.len() > 0 {
        lemma_get_absent(s.drop_first(), k);
    }
}

impl View for DetailMap {
    type V = Seq<(Seq<char>, Seq<char>)>;

    closed spec fn view(&self) -> Seq<(Seq<char>, Seq<char>)> {
        Seq::new(self.entries@.len(), |i: int| (self.entries@[i].0@, self.entries@[i].1@))
    }
}

impl DetailMap {
    /// Keys are pairwise distinct; every map built through this interface
    /// stays that way.
    pub open spec fn wf(self) -> bool {
        keys_unique(self@)
    }

    /// An empty detail map.
    pub fn new() -> (d: DetailMap)
        ensures
            d@ =~= Seq::<(Seq<char>, Seq<char>)>::empty(),
            d.wf(),
    {
        let d = DetailMap { entries: Vec::new() };
        assert(d@ =~= Seq::<(Seq<char>, Seq<char>)>::empty());
        d
    }

    /// Number of entries.
    pub fn len(&self) -> (n: usize)
        ensures
            n == self@.len(),
    {
        self.entries.len()
    }

    /// Inserts `key` with `value`, last write wins.
    pub fn insert(&mut self, key: &str, value: &str)
        ensures
            final(self)@ == spec_insert(old(self)@, key@, value@),
            old(self).wf() ==> final(self).wf(),
    {
        let n = self.entries.len();
        let mut i: usize = 0;
        while i < n
            invariant
                i <= n,
                n == self.entries@.len(),
                *self == *old(self),
                forall|j: int| 0 <= j < i ==> self@[j].0 != key@,
            decreases n - i,
        {
            if crate::strutil::str_eq(self.entries[i].0.as_str(), key) {
                proof {
                    lemma_insert_at(self@, key@, value@, i as int);
                }
                let ghost pre = self@;
                self.entries.remove(i);
                self.entries.insert(i, (key.to_owned(), value.to_owned()));
                proof {
                    assert(self@ =~= pre.update(i as int, (key@, value@)));
                    if keys_unique(pre) {
                        assert(keys_unique(self@));
                    }
                }
                return;
            }
            i += 1;
        }
        proof {
            lemma_insert_absent(self@, key@, value@);
        }
        let ghost pre = self@;
        self.entries.push((key.to_owned(), value.to_owned()));
        proof {
            assert(self@ =~= pre.push((key@, value@)));
            if keys_unique(pre) {
                assert forall|a: int, b: int| 0 <= a < b < self@.len() implies self@[a].0
                    != self@[b].0 by {
                    if b == self@.len() - 1 {
                        assert(pre[a].0 != key@);
                    }
                }
            }
        }
    }

    /// Value stored under `key`, if any.
    pub fn get(&self, key: &str) -> (r: Option<String>)
        ensures
            match r {
                Some(v) => spec_get(self@, key@) == Some(v@),
                None => spec_get(self@, key@) is None,
            },
    {
        let n = self.entries.len();
        let mut i: usize = 0;
        while i < n
            invariant
                i <= n,
                n == self.entries@.len(),
                forall|j: int| 0 <= j < i ==> self@[j].0 != key@,
            decreases n - i,
        {
            if crate::strutil::str_eq(self.entries[i].0.as_str(), key) {
                proof {
                    lemma_get_at(self@, key@, i as int);
                }
                return Some(self.entries[i].1.clone());
            }
            i += 1;
        }
        proof {
            lemma_get_absent(self@, key@);
        }
        None
    }

    /// The entries in insertion order; the serializer walks them.
    pub fn pairs(&self) -> (r: &Vec<(String, String)>)
        ensures
            r@.len() == self@.len(),
            forall|i: int| 0 <= i < r@.len() ==> (#[trigger] r@[i].0)@ == self@[i].0 && r@[i].1@
                == self@[i].1,
    {
        &self.entries
    }
}

/// Ghost image of a `SecurityEvent`: the record with its strings read as
/// character sequences. Contracts and the JSON codec speak in this model.
#[verifier::ext_equal]
pub ghost struct EventModel {
    pub timestamp: Timestamp,
    pub event_type: EventType,
    pub severity: Severity,
    pub source: Seq<char>,
    pub description: Seq<char>,
    pub details: Seq<(Seq<char>, Seq<char>)>,
}

/// The canonical unit of telemetry. The timestamp is fixed at construction;
/// the description is derived from the defining parameters; `severity` may be
/// revised by the producing classifier before the event is handed off.
#[derive(Debug, Clone)]
pub struct SecurityEvent {
    pub timestamp: Timestamp,
    pub event_type: EventType,
    pub severity: Severity,
    pub source: String,
    pub description: String,
    pub details: DetailMap,
}

impl View for SecurityEvent {
    type V = EventModel;

    open spec fn view(&self) -> EventModel {
        EventModel {
            timestamp: self.timestamp,
            event_type: self.event_type,
            severity: self.severity,
            source: self.source@,
            description: self.description@,
            details: self.details@,
        }
    }
}

impl EventModel {
    /// Timestamp in range and detail keys unique.
    pub open spec fn wf(self) -> bool {
        self.timestamp.wf() && keys_unique(self.details)
    }
}

impl SecurityEvent {
    /// Timestamp in range and detail keys unique.
    pub open spec fn wf(self) -> bool {
        self@.wf()
    }

    /// A fresh event, stamped with the current time, with an empty detail map.
    pub fn new(event_type: EventType, severity: Severity, source: String, description: String) -> (e: SecurityEvent)
        ensures
            e.event_type == event_type,
            e.severity == severity,
            e.source@ == source@,
            e.description@ == description@,
            e@.details =~= Seq::<(Seq<char>, Seq<char>)>::empty(),
            e.wf(),
    {
        SecurityEvent {
            timestamp: Timestamp::now(),
            event_type,
            severity,
            source,
            description,
            details: DetailMap::new(),
        }
    }

    /// Attaches context under `key`, last write wins; nothing else changes.
    pub fn add_detail(&mut self, key: &str, value: &str)
        ensures
            final(self)@.details == spec_insert(old(self)@.details, key@, value@),
            final(self).timestamp == old(self).timestamp,
            final(self).event_type == old(self).event_type,
            final(self).severity == old(self).severity,
            final(self).source == old(self).source,
            final(self).description == old(self).description,
            old(self).wf() ==> final(self).wf(),
    {
        self.details.insert(key, value);
    }

    /// Revises the severity; nothing else changes.
    pub fn set_severity(&mut self, severity: Severity)
        ensures
            final(self).severity == severity,
            final(self).timestamp == old(self).timestamp,
            final(self).event_type == old(self).event_type,
            final(self).source == old(self).source,
            final(self).description == old(self).description,
            final(self).details == old(self).details,
            old(self).wf() ==> final(self).wf(),
    {
        self.severity = severity;
    }

    /// File activity: description `File operation on {path}`, detail
    /// `file_path`, severity `Info`.
    pub fn file_event(event_type: EventType, file_path: &str, source: String) -> (e: SecurityEvent)
        ensures
            e.event_type == event_type,
            e.severity == Severity::Info,
            e.source@ == source@,
            e.description@ == "File operation on "@ + file_path@,
            e@.details =~= seq![("file_path"@, file_path@)],
            e.wf(),
    {
        let mut description = String::from_str("File operation on ");
        description.append(file_path);
        let mut e = Self::new(event_type, Severity::Info, source, description);
        e.add_detail("file_path", file_path);
        e
    }

    /// Process activity: description `Process {name} (PID: {pid})`, details
    /// `process_name` and `pid`, severity `Info`.
    pub fn process_event(event_type: EventType, process_name: &str, pid: u32, source: String) -> (e: SecurityEvent)
        ensures
            e.event_type == event_type,
            e.severity == Severity::Info,
            e.source@ == source@,
            e.description@ == "Process "@ + process_name@ + " (PID: "@ + dec_digits(pid as nat)
                + ")"@,
            e@.details =~= seq![("process_name"@, process_name@), ("pid"@, dec_digits(pid as nat))],
            e.wf(),
    {
        let mut description = String::from_str("Process ");
        description.append(process_name);
        description.append(" (PID: ");
        let pid_text = crate::strutil::u32_to_decimal(pid);
        description.append(pid_text.as_str());
        description.append(")");
        let mut e = Self::new(event_type, Severity::Info, source, description);
        e.add_detail("process_name", process_name);
        e.add_detail("pid", pid_text.as_str());
        proof {
            reveal_strlit("process_name");
            reveal_strlit("pid");
            assert("process_name"@.len() == 12);
            assert("pid"@.len() == 3);
            lemma_insert_second("process_name"@, process_name@, "pid"@, dec_digits(pid as nat));
        }
        e
    }

    /// Network activity: description `Network connection {local} -> {remote}`,
    /// details `local_address` and `remote_address`, severity `Info`.
    pub fn network_event(event_type: EventType, local_addr: &str, remote_addr: &str, source: String) -> (e: SecurityEvent)
        ensures
            e.event_type == event_type,
            e.severity == Severity::Info,
            e.source@ == source@,
            e.description@ == "Network connection "@ + local_addr@ + " -> "@ + remote_addr@,
            e@.details =~= seq![("local_address"@, local_addr@), ("remote_address"@, remote_addr@)],
            e.wf(),
    {
        let mut description = String::from_str("Network connection ");
        description.append(local_addr);
        description.append(" -> ");
        description.append(remote_addr);
        let mut e = Self::new(event_type, Severity::Info, source, description);
        e.add_detail("local_address", local_addr);
        e.add_detail("remote_address", remote_addr);
        proof {
            reveal_strlit("local_address");
            reveal_strlit("remote_address");
            assert("local_address"@.len() == 13);
            assert("remote_address"@.len() == 14);
            lemma_insert_second("local_address"@, local_addr@, "remote_address"@, remote_addr@);
        }
        e
    }

    /// Authentication activity: description `Authentication event for user
    /// {user}`, detail `Username`, severity as given.
    pub fn auth_event(event_type: EventType, username: &str, severity: Severity, source: String) -> (e: SecurityEvent)
        ensures
            e.event_type == event_type,
            e.severity == severity,
            e.source@ == source@,
            e.description@ == "Authentication event for user "@ + username@,
            e@.details =~= seq![("Username"@, username@)],
            e.wf(),
    {
        let mut description = String::from_str("Authentication event for user ");
        description.append(username);
        let mut e = Self::new(event_type, severity, source, description);
        e.add_detail("Username", username);
        e
    }

    /// Registry activity: description `Registry operation on {path}`, detail
    /// `registry_path` and, when given, `value_name`; severity `Info`.
    pub fn registry_event(event_type: EventType, registry_path: &str, value_name: Option<&str>, source: String) -> (e: SecurityEvent)
        ensures
            e.event_type == event_type,
            e.severity == Severity::Info,
            e.source@ == source@,
            e.description@ == "Registry operation on "@ + registry_path@,
            match value_name {
                Some(v) => e@.details =~= seq![
                    ("registry_path"@, registry_path@),
                    ("value_name"@, v@),
                ],
                None => e@.details =~= seq![("registry_path"@, registry_path@)],
            },
            e.wf(),
    {
        let mut description = String::from_str("Registry operation on ");
        description.append(registry_path);
        let mut e = Self::new(event_type, Severity::Info, source, description);
        e.add_detail("registry_path", registry_path);
        if let Some(value) = value_name {
            e.add_detail("value_name", value);
            proof {
                reveal_strlit("registry_path");
                reveal_strlit("value_name");
                assert("registry_path"@.len() == 13);
                assert("value_name"@.len() == 10);
                lemma_insert_second("registry_path"@, registry_path@, "value_name"@, value@);
            }
        }
        e
    }

    /// Linux system activity: description `Linux system event: {details}`,
    /// detail `system_details`, severity as given.
    pub fn linux_sys_event(event_type: EventType, details: &str, severity: Severity, source: String) -> (e: SecurityEvent)
        ensures
            e.event_type == event_type,
            e.severity == severity,
            e.source@ == source@,
            e.description@ == "Linux system event: "@ + details@,
            e@.details =~= seq![("system_details"@, details@)],
            e.wf(),
    {
        let mut description = String::from_str("Linux system event: ");
        description.append(details);
        let mut e = Self::new(event_type, severity, source, description);
        e.add_detail("system_details", details);
        e
    }

    /// Security alert: description `Security alert: {threat}`, details
    /// `threat_name` and `alert_type = security`, severity as given.
    pub fn security_alert(event_type: EventType, threat_name: &str, severity: Severity, source: String) -> (e: SecurityEvent)
        ensures
            e.event_type == event_type,
            e.severity == severity,
            e.source@ == source@,
            e.description@ == "Security alert: "@ + threat_name@,
            e@.details =~= seq![("threat_name"@, threat_name@), ("alert_type"@, "security"@)],
            e.wf(),
    {
        let mut description = String::from_str("Security alert: ");
        description.append(threat_name);
        let mut e = Self::new(event_type, severity, source, description);
        e.add_detail("threat_name", threat_name);
        e.add_detail("alert_type", "security");
        proof {
            reveal_strlit("threat_name");
            reveal_strlit("alert_type");
            assert("threat_name"@.len() == 11);
            assert("alert_type"@.len() == 10);
            lemma_insert_second("threat_name"@, threat_name@, "alert_type"@, "security"@);
        }
        e
    }
}

} // verus!
