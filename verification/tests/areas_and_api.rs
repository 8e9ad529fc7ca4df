//! The area algebra on concrete rectangles, and the boundary data types.

use spaces_sync::client::{
    import_sync_init, share_ticket, sync_continuously_init, sync_once_init, ticket_namespace,
    EntryForm, HandleRegistry, IntentExistsError, TicketError,
};
use spaces_sync::grouping::{
    Area, AreaOfInterest, AreaSubspace, Path, RangeEnd, TimeRange,
};
use spaces_sync::interest::{AccessMode, AreaOfInterestSelector, CapabilityPack};
use spaces_sync::keys::{NamespaceId, NodeAddr, NodeId, SubspaceId, UserId};
use spaces_sync::proto::{EntryObsoleteError, InsertEntrySuccess, PayloadForm};
use spaces_sync::data_model::{
    AuthForm, AuthorisedEntry, Entry, PayloadDigest, SubspaceForm, TimestampForm,
};
use spaces_sync::session::SessionMode;

fn area(subspace: AreaSubspace, components: &[u64], start: u64, end: RangeEnd) -> Area {
    Area {
        subspace,
        path: Path::from_components(components.to_vec()),
        times: TimeRange { start, end },
    }
}

#[test]
fn full_area_contains_everything() {
    let full = Area::full();
    assert!(full.contains_point(SubspaceId(3), &Path::from_components(vec![1, 2, 3]), 77));
    assert!(full.contains_point(SubspaceId(0), &Path::empty(), 0));
}

#[test]
fn path_prefix_rules() {
    let root = Path::empty();
    let ab = Path::from_components(vec![10, 20]);
    let abc = Path::from_components(vec![10, 20, 30]);
    let ax = Path::from_components(vec![10, 99]);
    assert!(root.is_prefix_of(&abc));
    assert!(ab.is_prefix_of(&abc));
    assert!(ab.is_prefix_of(&ab));
    assert!(!abc.is_prefix_of(&ab));
    assert!(!ax.is_prefix_of(&abc));
}

#[test]
fn time_range_intersection_exact() {
    let a = TimeRange { start: 10, end: RangeEnd::Closed(20) };
    let b = TimeRange { start: 15, end: RangeEnd::Open };
    let c = a.intersection(&b).unwrap();
    assert_eq!(c.start, 15);
    assert_eq!(c.end, RangeEnd::Closed(20));
    let d = TimeRange { start: 20, end: RangeEnd::Closed(30) };
    assert!(a.intersection(&d).is_none());
}

#[test]
fn area_intersection_of_nested_areas() {
    let wide = area(AreaSubspace::Any, &[1], 0, RangeEnd::Open);
    let narrow = area(AreaSubspace::Id(SubspaceId(5)), &[1, 2], 10, RangeEnd::Closed(20));
    let both = wide.intersection(&narrow).expect("nested areas intersect");
    assert!(both.same_area(&narrow));
    assert!(wide.includes_area(&narrow));
    assert!(!narrow.includes_area(&wide));
}

#[test]
fn partial_overlap_intersects_without_inclusion() {
    let early = area(AreaSubspace::Any, &[1], 0, RangeEnd::Closed(15));
    let late = area(AreaSubspace::Any, &[1], 10, RangeEnd::Open);
    let cross = early.intersection(&late).expect("overlapping time ranges");
    assert_eq!(cross.times.start, 10);
    assert_eq!(cross.times.end, RangeEnd::Closed(15));
    assert!(!early.includes_area(&late));
    assert!(!late.includes_area(&early));
}

#[test]
fn disjoint_paths_do_not_intersect() {
    let left = area(AreaSubspace::Any, &[1], 0, RangeEnd::Open);
    let right = area(AreaSubspace::Any, &[2], 0, RangeEnd::Open);
    assert!(left.intersection(&right).is_none());
    let s1 = area(AreaSubspace::Id(SubspaceId(1)), &[], 0, RangeEnd::Open);
    let s2 = area(AreaSubspace::Id(SubspaceId(2)), &[], 0, RangeEnd::Open);
    assert!(s1.intersection(&s2).is_none());
}

#[test]
fn aoi_equality_by_value() {
    let a = AreaOfInterest::new(area(AreaSubspace::Any, &[7], 0, RangeEnd::Open));
    let b = AreaOfInterest::new(area(AreaSubspace::Any, &[7], 0, RangeEnd::Open));
    let c = AreaOfInterest::new(area(AreaSubspace::Any, &[8], 0, RangeEnd::Open));
    assert!(a.same_aoi(&b));
    assert!(!a.same_aoi(&c));
}

#[test]
fn ticket_namespace_rules() {
    let cap = |n: u64| CapabilityPack {
        namespace: NamespaceId(n),
        receiver: UserId(1),
        access: AccessMode::Read,
    };
    assert_eq!(ticket_namespace(&vec![]), Err(TicketError::NoCapabilities));
    assert_eq!(ticket_namespace(&vec![cap(4), cap(4)]), Ok(NamespaceId(4)));
    assert_eq!(
        ticket_namespace(&vec![cap(4), cap(5)]),
        Err(TicketError::MixedNamespaces)
    );
}

#[test]
fn session_init_builders() {
    let once = sync_once_init(NamespaceId(1), AreaOfInterestSelector::Widest);
    assert_eq!(once.mode, SessionMode::ReconcileOnce);
    assert_eq!(once.interests.entries.len(), 1);
    let live = sync_continuously_init(NamespaceId(1), AreaOfInterestSelector::Widest);
    assert_eq!(live.mode, SessionMode::Continuous);
    let import = import_sync_init(NamespaceId(2), SessionMode::Continuous);
    assert_eq!(import.mode, SessionMode::Continuous);
    assert_eq!(import.interests.entries[0].0.namespace, NamespaceId(2));
}

#[test]
fn share_ticket_holds_caps_and_node() {
    let caps = vec![CapabilityPack {
        namespace: NamespaceId(3),
        receiver: UserId(9),
        access: AccessMode::Write,
    }];
    let ticket = share_ticket(caps, NodeAddr { node_id: NodeId(42) });
    assert_eq!(ticket.caps.len(), 1);
    assert_eq!(ticket.nodes.len(), 1);
    assert_eq!(ticket.nodes[0].node_id, NodeId(42));
}

#[test]
fn entry_form_defaults_and_completion() {
    let form = EntryForm::new(UserId(7), Path::from_components(vec![1]));
    assert_eq!(form.auth, AuthForm::Any(UserId(7)));
    assert_eq!(form.subspace_id, SubspaceForm::User);
    assert_eq!(form.timestamp, TimestampForm::Now);
    let (full, auth) = form.into_full(
        NamespaceId(5),
        PayloadForm::Unchecked(PayloadDigest(11), 4),
    );
    assert_eq!(full.namespace_id, NamespaceId(5));
    assert_eq!(full.payload, PayloadForm::Unchecked(PayloadDigest(11), 4));
    assert_eq!(auth, AuthForm::Any(UserId(7)));
}

#[test]
fn handle_registry_refuses_duplicate_peer() {
    let mut reg: HandleRegistry<u64> = HandleRegistry::new();
    assert!(reg.insert(NodeId(1), 10).is_ok());
    assert!(reg.insert(NodeId(2), 20).is_ok());
    assert_eq!(reg.insert(NodeId(1), 30), Err(IntentExistsError(NodeId(1))));
    assert_eq!(reg.len(), 2);
    assert!(reg.contains(NodeId(1)));
    assert_eq!(reg.remove(NodeId(1)), Some(10));
    assert!(!reg.contains(NodeId(1)));
    assert_eq!(reg.remove(NodeId(1)), None);
}

#[test]
fn insert_entry_outcomes() {
    let entry = AuthorisedEntry {
        entry: Entry {
            namespace_id: NamespaceId(1),
            subspace_id: SubspaceId(2),
            path: Path::from_components(vec![3]),
            timestamp: 4,
            payload_length: 5,
            payload_digest: PayloadDigest(6),
        },
        token: 7,
    };
    let ok = InsertEntrySuccess::Inserted(entry).inserted();
    assert!(ok.is_ok());
    assert_eq!(ok.unwrap().token, 7);
    let obsolete = InsertEntrySuccess::Obsolete.inserted();
    assert_eq!(obsolete, Err(EntryObsoleteError));
}
