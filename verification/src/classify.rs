//! Classification of raw filesystem notifications: the name-only
//! suspicious-file heuristic, file-extension extraction, and the mapping from
//! a raw notification to a `SecurityEvent`.
use vstd::prelude::*;

use crate::events::{spec_insert, EventType, SecurityEvent, Severity};
use crate::monitor::{RawEventKind, RawNotification};
use crate::strutil::{
    chars_contain, chars_end_with, chars_to_string, contains_seq, lemma_lower_seq_upper_seq,
    lower_char, lower_seq, str_to_chars, suffix_of, to_lower_char, upper_seq,
};

verus! {

/// The name-only rule for elevated severity on file creation: the lowercased
/// path ends in one of the listed extensions, or contains one of the listed
/// file names. No other signal (size, content, hash) is consulted, so benign
/// names pass and renamed malware is missed by design.
pub open spec fn suspicious_path(path: Seq<char>) -> bool {
    let l = lower_seq(path);
    ||| suffix_of(".exe"@, l)
    ||| suffix_of(".bat"@, l)
    ||| suffix_of(".cmd"@, l)
    ||| suffix_of(".ps1"@, l)
    ||| suffix_of(".vbs"@, l)
    ||| suffix_of(".scr"@, l)
    ||| suffix_of(".dll"@, l)
    ||| contains_seq(l, "autorun.inf"@)
    ||| contains_seq(l, "desktop.ini"@)
}

/// Whether a path warrants elevated severity on creation, by name alone.
pub fn is_suspicious_file(path: &str) -> (r: bool)
    ensures
        r == suspicious_path(path@),
{
    let cs = str_to_chars(path);
    let mut low: Vec<char> = Vec::new();
    let mut i: usize = 0;
    while i < cs.len()
        invariant
            i <= cs@.len(),
            cs@ == path@,
            low@.len() == i,
            forall|k: int| 0 <= k < i ==> low@[k] == lower_char(path@[k]),
        decreases cs@.len() - i,
    {
        low.push(to_lower_char(cs[i]));
        i += 1;
    }
    assert(low@ =~= lower_seq(path@));
    let r = chars_end_with(&low, ".exe") || chars_end_with(&low, ".bat") || chars_end_with(
        &low,
        ".cmd",
    ) || chars_end_with(&low, ".ps1") || chars_end_with(&low, ".vbs") || chars_end_with(
        &low,
        ".scr",
    ) || chars_end_with(&low, ".dll") || chars_contain(&low, "autorun.inf") || chars_contain(
        &low,
        "desktop.ini",
    );
    r
}

/// The heuristic is case-insensitive: uppercasing a path never changes the
/// verdict.
pub proof fn lemma_suspicious_case_insensitive(path: Seq<char>)
    ensures
        suspicious_path(path) == suspicious_path(upper_seq(path)),
{
    lemma_lower_seq_upper_seq(path);
}

/// No false positives outside the rule: a path whose lowercased form neither
/// ends in a listed extension nor contains a listed file name is never
/// flagged.
pub proof fn lemma_suspicious_no_false_positives(path: Seq<char>)
    requires
        !suffix_of(".exe"@, lower_seq(path)),
        !suffix_of(".bat"@, lower_seq(path)),
        !suffix_of(".cmd"@, lower_seq(path)),
        !suffix_of(".ps1"@, lower_seq(path)),
        !suffix_of(".vbs"@, lower_seq(path)),
        !suffix_of(".scr"@, lower_seq(path)),
        !suffix_of(".dll"@, lower_seq(path)),
        !contains_seq(lower_seq(path), "autorun.inf"@),
        !contains_seq(lower_seq(path), "desktop.ini"@),
    ensures
        !suspicious_path(path),
{
}

/// Index of the last `'/'` in `s`, or `-1` if there is none.
pub open spec fn last_slash(s: Seq<char>) -> int
    decreases s.len(),
{
    if s.len() == 0 {
        -1
    } else if s[s.len() - 1] == '/' {
        s.len() - 1
    } else {
        last_slash(s.drop_last())
    }
}

/// Index of the last `'.'` in `s` that does not stand first, or `-1`: a name
/// whose only dot leads (a hidden file) has no extension.
pub open spec fn last_dot(s: Seq<char>) -> int
    decreases s.len(),
{
    if s.len() <= 1 {
        -1
    } else if s[s.len() - 1] == '.' {
        s.len() - 1
    } else {
        last_dot(s.drop_last())
    }
}

pub proof fn lemma_last_slash_bounds(s: Seq<char>)
    ensures
        -1 <= last_slash(s) < s.len(),
    decreases s.len(),
{
    if s.len() > 0 && s[s.len() - 1] != '/' {
        lemma_last_slash_bounds(s.drop_last());
    }
}

proof fn lemma_last_slash_skip(s: Seq<char>, j: int)
    requires
        0 <= j <= s.len(),
        forall|k: int| j <= k < s.len() ==> s[k] != '/',
    ensures
        last_slash(s) == last_slash(s.take(j)),
    decreases s.len() - j,
{
    if j < s.len() {
        assert(s.drop_last() =~= s.take(s.len() - 1));
        lemma_last_slash_skip(s.take(s.len() - 1), j);
        assert(s.take(s.len() - 1).take(j) =~= s.take(j));
    } else {
        assert(s.take(j) =~= s);
    }
}

proof fn lemma_last_dot_skip(s: Seq<char>, j: int)
    requires
        0 <= j <= s.len(),
        forall|k: int| j <= k < s.len() ==> s[k] != '.',
    ensures
        last_dot(s) == last_dot(s.take(j)),
    decreases s.len() - j,
{
    if j < s.len() && s.len() > 1 {
        assert(s.drop_last() =~= s.take(s.len() - 1));
        lemma_last_dot_skip(s.take(s.len() - 1), j);
        assert(s.take(s.len() - 1).take(j) =~= s.take(j));
    } else if j < s.len() {
        assert(last_dot(s) == -1);
        assert(last_dot(s.take(j)) == -1);
    } else {
        assert(s.take(j) =~= s);
    }
}

/// The final path component: everything after the last `'/'`.
pub open spec fn file_name_of(path: Seq<char>) -> Seq<char> {
    path.subrange(last_slash(path) + 1, path.len() as int)
}

/// The extension of the final path component, if it has one.
pub open spec fn ext_of(path: Seq<char>) -> Option<Seq<char>> {
    let name = file_name_of(path);
    let d = last_dot(name);
    if d >= 1 {
        Some(name.subrange(d + 1, name.len() as int))
    } else {
        None
    }
}

/// The extension as recorded in event details: the extension itself, or the
/// literal `unknown` when the path has none.
pub open spec fn ext_text(path: Seq<char>) -> Seq<char> {
    match ext_of(path) {
        Some(e) => e,
        None => "unknown"@,
    }
}

/// The extension of the final path component, or `"unknown"` if it has none.
pub fn get_file_extension(path: &str) -> (r: String)
    ensures
        r@ == ext_text(path@),
{
    let cs = str_to_chars(path);
    let n = cs.len();
    proof {
        lemma_last_slash_bounds(path@);
    }
    // Backward scan for the last '/'; `start` is the index after it.
    let mut j: usize = n;
    let mut start: usize = 0;
    let mut found: bool = false;
    while j > 0 && !found
        invariant
            cs@ == path@,
            n == path@.len(),
            j <= n,
            !found ==> start == 0 && forall|k: int| j <= k < n ==> path@[k] != '/',
            found ==> 1 <= j <= n && start == j && path@[j - 1] == '/' && forall|k: int|
                j <= k < n ==> path@[k] != '/',
        decreases j + if found { 0int } else { 1int },
    {
        if cs[j - 1] == '/' {
            start = j;
            found = true;
        } else {
            j -= 1;
        }
    }
    proof {
        if found {
            lemma_last_slash_skip(path@, start as int);
            assert(path@.take(start as int).drop_last() =~= path@.take(start as int).take(
                start as int - 1,
            ));
            assert(last_slash(path@) == start - 1);
        } else {
            lemma_last_slash_skip(path@, 0);
            assert(last_slash(path@) == -1);
            assert(start == 0);
        }
    }
    let ghost name: Seq<char> = file_name_of(path@);
    assert(name =~= path@.subrange(start as int, n as int));
    // Backward scan of the name for the last '.', skipping a leading dot.
    let mut d: usize = n;
    let mut dot: usize = 0;
    let mut has_dot: bool = false;
    while d - start > 1 && !has_dot
        invariant
            cs@ == path@,
            n == path@.len(),
            start <= n,
            start <= d,
            d <= n,
            name == file_name_of(path@),
            name =~= path@.subrange(start as int, n as int),
            !has_dot ==> forall|k: int| d <= k < n ==> path@[k] != '.',
            has_dot ==> start + 2 <= d <= n && dot == d - 1 && path@[d - 1] == '.' && forall|
                k: int,
            | d <= k < n ==> path@[k] != '.',
        decreases d + if has_dot { 0int } else { 1int },
    {
        if cs[d - 1] == '.' {
            dot = d - 1;
            has_dot = true;
        } else {
            d -= 1;
        }
    }
    if has_dot {
        // dot is an absolute index; relative to the name it is dot - start >= 1.
        let ghost rd: int = dot - start;
        proof {
            assert(forall|k: int| rd < k < name.len() ==> name[k] != '.');
            lemma_last_dot_skip(name, rd + 1);
            assert(name.take(rd + 1).drop_last() =~= name.take(rd + 1).take(rd));
            assert(name[rd] == '.');
            assert(last_dot(name) == rd);
        }
        let mut out: Vec<char> = Vec::new();
        let mut k: usize = dot + 1;
        while k < n
            invariant
                cs@ == path@,
                n == path@.len(),
                dot + 1 <= k <= n,
                out@.len() == k - dot - 1,
                forall|t: int| 0 <= t < out@.len() ==> out@[t] == path@[dot + 1 + t],
            decreases n - k,
        {
            out.push(cs[k]);
            k += 1;
        }
        proof {
            assert(out@ =~= name.subrange(rd + 1, name.len() as int));
        }
        chars_to_string(&out)
    } else {
        proof {
            lemma_last_dot_skip(name, if name.len() == 0 { 0int } else { 1int });
            assert(last_dot(name) == -1);
        }
        let r = String::from_str("unknown");
        assert(r@ == "unknown"@);
        r
    }
}

/// Event type a raw change kind maps to; `None` is discarded.
pub open spec fn classified_type(kind: RawEventKind) -> Option<EventType> {
    match kind {
        RawEventKind::Create => Some(EventType::FileCreated),
        RawEventKind::Modify => Some(EventType::FileModified),
        RawEventKind::Remove => Some(EventType::FileDeleted),
        RawEventKind::Other => None,
    }
}

/// Severity of a classified change: `High` only for the creation of a
/// suspicious path, `Info` everywhere else.
pub open spec fn classified_severity(kind: RawEventKind, path: Seq<char>) -> Severity {
    if kind is Create && suspicious_path(path) {
        Severity::High
    } else {
        Severity::Info
    }
}

/// The details seeded on a classified event, in insertion order.
pub open spec fn classified_details(raw: RawNotification, path: Seq<char>) -> Seq<
    (Seq<char>, Seq<char>),
> {
    seq![
        ("file_path"@, path),
        ("event_kind"@, raw.kind_text@),
        ("file_extension"@, ext_text(path)),
    ]
}

/// Creation of a suspicious path is always `High`; any other classified
/// notification is `Info`.
pub proof fn lemma_create_severity(kind: RawEventKind, path: Seq<char>)
    ensures
        kind is Create && suspicious_path(path) ==> classified_severity(kind, path)
            == Severity::High,
        !(kind is Create && suspicious_path(path)) ==> classified_severity(kind, path)
            == Severity::Info,
{
}

/// Modifications and removals are `Info` regardless of path content.
pub proof fn lemma_modify_remove_info(kind: RawEventKind, path: Seq<char>)
    ensures
        kind is Modify || kind is Remove ==> classified_severity(kind, path) == Severity::Info,
{
}

/// Translates one raw notification into zero or one `SecurityEvent`: the
/// first path is the path of record; notifications without a path or with an
/// unclassified kind are discarded, never an error.
pub fn convert_fs_event_to_security_event(raw: &RawNotification, agent_id: &str) -> (r: Option<
    SecurityEvent,
>)
    ensures
        r is Some <==> raw.paths@.len() > 0 && classified_type(raw.kind) is Some,
        r matches Some(e) ==> {
            &&& Some(e.event_type) == classified_type(raw.kind)
            &&& e.severity == classified_severity(raw.kind, raw.paths@[0]@)
            &&& e.source@ == agent_id@
            &&& e.description@ == "File operation on "@ + raw.paths@[0]@
            &&& e@.details =~= classified_details(*raw, raw.paths@[0]@)
            &&& e.wf()
        },
{
    if raw.paths.len() == 0 {
        return None;
    }
    let path: &String = &raw.paths[0];
    let (event_type, severity) = match raw.kind {
        RawEventKind::Create => {
            if is_suspicious_file(path.as_str()) {
                (EventType::FileCreated, Severity::High)
            } else {
                (EventType::FileCreated, Severity::Info)
            }
        },
        RawEventKind::Modify => (EventType::FileModified, Severity::Info),
        RawEventKind::Remove => (EventType::FileDeleted, Severity::Info),
        RawEventKind::Other => {
            return None;
        },
    };
    let mut event = SecurityEvent::file_event(event_type, path.as_str(), agent_id.to_owned());
    event.add_detail("event_kind", raw.kind_text.as_str());
    let ext = get_file_extension(path.as_str());
    event.add_detail("file_extension", ext.as_str());
    event.set_severity(severity);
    proof {
        reveal_strlit("file_path");
        reveal_strlit("event_kind");
        reveal_strlit("file_extension");
        assert("file_path"@.len() == 9);
        assert("event_kind"@.len() == 10);
        assert("file_extension"@.len() == 14);
        crate::events::lemma_insert_second("file_path"@, path@, "event_kind"@, raw.kind_text@);
        crate::events::lemma_insert_third(
            "file_path"@,
            path@,
            "event_kind"@,
            raw.kind_text@,
            "file_extension"@,
            ext@,
        );
        assert(seq![
            ("file_path"@, path@),
            ("event_kind"@, raw.kind_text@),
            ("file_extension"@, ext@),
        ] =~= classified_details(*raw, raw.paths@[0]@));
    }
    Some(event)
}

} // verus!
