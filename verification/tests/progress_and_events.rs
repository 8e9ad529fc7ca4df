//! Completion accounting on both sides of the boundary: the session-side
//! progress latch, the client-side one, and the lossy event flattening.

use spaces_sync::client::{map_sync_response, SyncProgress};
use spaces_sync::grouping::{Area, AreaOfInterest};
use spaces_sync::intents::{Completion, Event, EventKind, Intent, IntentProgress};
use spaces_sync::interest::Interests;
use spaces_sync::keys::NamespaceId;
use spaces_sync::proto::SyncWithPeerResponse;
use spaces_sync::session::{SessionError, SessionInit};

fn reconciled(n: u64) -> EventKind {
    EventKind::Reconciled {
        namespace: NamespaceId(n),
        area: AreaOfInterest::new(Area::full()),
    }
}

#[test]
fn verdict_nothing_partial_complete() {
    let mut t = IntentProgress::new();
    assert_eq!(t.verdict(), Ok(Completion::Nothing));
    t.handle_event(&reconciled(1));
    assert_eq!(t.verdict(), Ok(Completion::Partial));
    t.handle_event(&EventKind::ReconciledAll);
    assert_eq!(t.verdict(), Ok(Completion::Complete));
}

#[test]
fn abort_beats_partial_progress() {
    // One Reconciled observed, then an Abort: the verdict is the abort
    // error, not a partial completion.
    let mut t = IntentProgress::new();
    t.handle_event(&reconciled(1));
    t.handle_event(&EventKind::Abort { error: SessionError::ConnectionLost });
    assert_eq!(t.verdict(), Err(SessionError::ConnectionLost));
}

#[test]
fn first_abort_error_is_kept() {
    let mut t = IntentProgress::new();
    t.handle_event(&EventKind::Abort { error: SessionError::Cancelled });
    t.handle_event(&EventKind::Abort { error: SessionError::ConnectionLost });
    assert_eq!(t.verdict(), Err(SessionError::Cancelled));
}

#[test]
fn verdict_stable_after_stream_end() {
    // Once the stream has ended, no further events arrive; repeated
    // verdicts agree.
    let mut t = IntentProgress::new();
    t.handle_event(&reconciled(2));
    let first = t.verdict();
    let second = t.verdict();
    assert_eq!(first, second);
    assert_eq!(first, Ok(Completion::Partial));
}

#[test]
fn handle_latches_across_partial_consumption() {
    let (_intent, mut handle) = Intent::new(SessionInit::reconcile_once(Interests::builder()));
    handle.note_event(&reconciled(3));
    assert_eq!(handle.verdict(), Ok(Completion::Partial));
    handle.note_event(&EventKind::ReconciledAll);
    assert_eq!(handle.verdict(), Ok(Completion::Complete));
    assert_eq!(handle.verdict(), Ok(Completion::Complete));
}

#[test]
fn event_flattening_is_lossy_on_errors() {
    let flat = Event::from_kind(EventKind::Abort { error: SessionError::ConnectionLost });
    match flat {
        Event::Abort { error } => {
            assert_eq!(error, "connection to the peer was lost");
        },
        _ => panic!("expected an abort"),
    }
    let through = Event::from_kind(reconciled(4));
    match through {
        Event::Reconciled { namespace, .. } => assert_eq!(namespace, NamespaceId(4)),
        _ => panic!("expected a reconciled event"),
    }
}

#[test]
fn session_error_renderings() {
    let cases = [
        (SessionError::ConnectionLost, "connection to the peer was lost"),
        (SessionError::ProtocolViolation, "peer violated the protocol"),
        (SessionError::Cancelled, "session was cancelled"),
        (SessionError::Other(3), "session failed"),
    ];
    for (error, text) in cases {
        assert_eq!(error.text(), text);
    }
}

#[test]
fn event_namespace_accessor() {
    assert_eq!(reconciled(9).namespace(), Some(NamespaceId(9)));
    assert_eq!(EventKind::ReconciledAll.namespace(), None);
    assert_eq!(
        EventKind::Abort { error: SessionError::Cancelled }.namespace(),
        None
    );
}

#[test]
fn sync_progress_folds_stream_events() {
    let mut p = SyncProgress::default();
    assert!(!p.is_ready());
    p.handle_event(&Event::Reconciled {
        namespace: NamespaceId(1),
        area: AreaOfInterest::new(Area::full()),
    });
    assert!(!p.is_ready());
    p.handle_event(&Event::ReconciledAll);
    assert!(p.is_ready());
    assert_eq!(p.into_completion(), Ok(Completion::Complete));
}

#[test]
fn sync_progress_failure_short_circuits() {
    let mut p = SyncProgress::default();
    p.handle_event(&Event::Reconciled {
        namespace: NamespaceId(1),
        area: AreaOfInterest::new(Area::full()),
    });
    p.handle_event(&Event::Abort { error: "peer went away".to_owned() });
    assert!(p.is_ready());
    assert_eq!(p.into_completion(), Err("peer went away".to_owned()));
}

#[test]
fn sync_progress_partial_and_nothing() {
    let mut partial = SyncProgress::default();
    partial.handle_event(&Event::Reconciled {
        namespace: NamespaceId(2),
        area: AreaOfInterest::new(Area::full()),
    });
    assert!(!partial.is_ready());
    assert_eq!(partial.into_completion(), Ok(Completion::Partial));

    let nothing = SyncProgress::default();
    assert_eq!(nothing.into_completion(), Ok(Completion::Nothing));
}

#[test]
fn sync_response_mapping() {
    let passthrough = map_sync_response(Ok(SyncWithPeerResponse::Event(Event::ReconciledAll)));
    assert!(matches!(passthrough, Event::ReconciledAll));
    let started = map_sync_response(Ok(SyncWithPeerResponse::Started));
    assert!(matches!(started, Event::ReconciledAll));
    let failed = map_sync_response(Err("connection reset".to_owned()));
    match failed {
        Event::Abort { error } => assert_eq!(error, "connection reset"),
        _ => panic!("expected an abort"),
    }
}
