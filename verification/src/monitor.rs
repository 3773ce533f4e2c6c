//! The filesystem observer: a watch session over filesystem subtrees whose
//! raw notifications are classified and pushed onto an unbounded output
//! queue. The watch mechanism and the queue are outside capabilities; the
//! classification between them is verified.
use vstd::prelude::*;

use crate::classify::{classified_type, convert_fs_event_to_security_event};
use crate::events::SecurityEvent;
use crate::PositronError;

verus! {

#[verifier::external_type_specification]
#[verifier::external_body]
pub struct ExNotifyError(notify::Error);

#[verifier::external_type_specification]
#[verifier::external_body]
pub struct ExNotifyEvent(notify::Event);

#[verifier::external_type_specification]
#[verifier::external_body]
pub struct ExINotifyWatcher(notify::INotifyWatcher);

#[verifier::external_type_specification]
#[verifier::external_body]
#[verifier::reject_recursive_types(T)]
pub struct ExUnboundedSender<T>(tokio::sync::mpsc::UnboundedSender<T>);

/// A raw filesystem change notification, reduced to the plain values the
/// classifier reads: the change kind, a rendering of the kind for the
/// `event_kind` detail, and the affected paths.
pub struct RawNotification {
    pub kind: RawEventKind,
    pub kind_text: String,
    pub paths: Vec<String>,
}

/// The change kinds the classifier distinguishes; everything else is
/// discarded.
#[derive(Clone, Copy, Debug, PartialEq, Eq, Structural)]
pub enum RawEventKind {
    Create,
    Modify,
    Remove,
    Other,
}

/// Relies on `notify::Error`'s `Display` implementation: a readable rendering
/// of the watch error.
#[verifier::external_body]
pub(crate) fn notify_error_text(e: &notify::Error) -> (r: String) {
    format!("{}", e)
}

/// Relies on the public `kind` and `paths` fields of `notify::Event`: tells
/// create, modify and remove apart, renders the kind in its `Debug` form, and
/// reads each path with `to_string_lossy`.
#[verifier::external_body]
fn raw_of_event(event: &notify::Event) -> (raw: RawNotification) {
    let kind = match event.kind {
        notify::EventKind::Create(_) => RawEventKind::Create,
        notify::EventKind::Modify(_) => RawEventKind::Modify,
        notify::EventKind::Remove(_) => RawEventKind::Remove,
        _ => RawEventKind::Other,
    };
    RawNotification {
        kind,
        kind_text: format!("{:?}", event.kind),
        paths: event.paths.iter().map(|p| p.to_string_lossy().to_string()).collect(),
    }
}

/// Relies on tokio's `UnboundedSender::send`: never blocks, queues the event
/// for the receiver in arrival order, and fails only when the receiver is
/// gone.
#[verifier::external_body]
fn send_event(sender: &tokio::sync::mpsc::UnboundedSender<SecurityEvent>, event: SecurityEvent) -> (delivered: bool) {
    sender.send(event).is_ok()
}

/// Relies on tokio's `UnboundedSender::clone`: another handle onto the same
/// queue.
#[verifier::external_body]
fn clone_sender(sender: &tokio::sync::mpsc::UnboundedSender<SecurityEvent>) -> (r:
    tokio::sync::mpsc::UnboundedSender<SecurityEvent>) {
    sender.clone()
}

/// Relies on `notify::recommended_watcher`: builds the platform watcher, whose
/// background delivery context invokes the given handler once per raw
/// notification or per watch-level error until the watcher is dropped.
#[verifier::external_body]
fn make_watcher(sender: tokio::sync::mpsc::UnboundedSender<SecurityEvent>, agent_id: String) -> (r:
    Result<notify::RecommendedWatcher, notify::Error>) {
    notify::recommended_watcher(move |res: Result<notify::Event, notify::Error>| {
        on_watch_result(&sender, res, agent_id.as_str());
    })
}

/// Relies on `notify::Watcher::watch` with `RecursiveMode::Recursive`: covers
/// the rooted subtree, nested directories present and future included, and
/// fails when the path does not exist or cannot be accessed.
#[verifier::external_body]
fn watch_recursive(w: &mut notify::RecommendedWatcher, path: &str) -> (r: Result<
    (),
    notify::Error,
>) {
    notify::Watcher::watch(w, std::path::Path::new(path), notify::RecursiveMode::Recursive)
}

/// Classifies one raw notification and, when it yields an event, pushes that
/// event onto the queue. Returns whether an event was produced; a failed push
/// (receiver gone) is not an error of the watch.
pub fn process_raw_notification(
    sender: &tokio::sync::mpsc::UnboundedSender<SecurityEvent>,
    raw: &RawNotification,
    agent_id: &str,
) -> (produced: bool)
    ensures
        produced == (raw.paths@.len() > 0 && classified_type(raw.kind) is Some),
{
    match convert_fs_event_to_security_event(raw, agent_id) {
        Some(event) => {
            let _delivered = send_event(sender, event);
            true
        },
        None => false,
    }
}

/// The handler run by the watch mechanism's delivery context: successful
/// notifications are classified and enqueued; per-notification watch errors
/// are non-fatal and swallowed, so a single bad notification never ends the
/// session.
pub fn on_watch_result(
    sender: &tokio::sync::mpsc::UnboundedSender<SecurityEvent>,
    res: Result<notify::Event, notify::Error>,
    agent_id: &str,
) {
    match res {
        Ok(event) => {
            let raw = raw_of_event(&event);
            let _produced = process_raw_notification(sender, &raw, agent_id);
        },
        Err(_) => {},
    }
}

/// A watch session over filesystem subtrees. Holds no active watch until
/// started; one watch at a time, replaced on a renewed start and released on
/// stop or drop.
pub struct FileMonitor {
    event_sender: tokio::sync::mpsc::UnboundedSender<SecurityEvent>,
    watcher: Option<notify::RecommendedWatcher>,
    agent_id: String,
}

impl FileMonitor {
    /// Whether a watch session is currently held.
    pub closed spec fn is_active(self) -> bool {
        self.watcher is Some
    }

    /// The agent identifier stamped into every produced event.
    pub closed spec fn agent(self) -> Seq<char> {
        self.agent_id@
    }

    /// A monitor bound to an output queue and an agent identifier, not yet
    /// watching anything.
    pub fn new(event_sender: tokio::sync::mpsc::UnboundedSender<SecurityEvent>, agent_id: String) -> (m: FileMonitor)
        ensures
            !m.is_active(),
            m.agent() == agent_id@,
    {
        FileMonitor { event_sender, watcher: None, agent_id }
    }

    /// Registers a recursive watch rooted at `path`, releasing any prior
    /// watch first. On success the monitor is active and every qualifying
    /// change under `path` is classified and enqueued until stopped; on
    /// failure the registration error is returned and the monitor is left
    /// inactive.
    pub fn start_monitoring(&mut self, path: &str) -> (r: Result<(), PositronError>)
        ensures
            r is Ok <==> final(self).is_active(),
            r matches Err(e) ==> e is Notify,
            final(self).agent() == old(self).agent(),
    {
        self.stop_monitoring();
        let sender = clone_sender(&self.event_sender);
        let agent_id = self.agent_id.clone();
        match make_watcher(sender, agent_id) {
            Ok(mut watcher) => {
                match watch_recursive(&mut watcher, path) {
                    Ok(()) => {
                        self.watcher = Some(watcher);
                        Ok(())
                    },
                    Err(e) => Err(PositronError::Notify(e)),
                }
            },
            Err(e) => Err(PositronError::Notify(e)),
        }
    }

    /// Releases the watch session; idempotent. No new raw notification is
    /// accepted afterwards, though callbacks already in flight may still
    /// complete and enqueue.
    pub fn stop_monitoring(&mut self)
        ensures
            !final(self).is_active(),
            final(self).agent() == old(self).agent(),
    {
        self.watcher = None;
    }
}

} // verus!
