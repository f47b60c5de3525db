use std::collections::HashMap;

use crystory::index::{collect_usb_mount_points, MountIndex};
use crystory::mounts::{MountRecord, ReconciledVolume};
use crystory::reconcile::{
    eligible_mounts, reconciled_volumes, request_for, request_for_listed, requests_for_mounts,
    requests_for_topology,
};
use crystory::resolver::{show_identifier, Action, Event, IdentityRequest, Resolver};
use crystory::store::MARKER_FILE_NAME;
use crystory::topology::{DeviceTreeNode, MediaUnit, VolumeDescriptor};
use crystory::uuid_text::usable_identifier;

const NIL: &str = "00000000-0000-0000-0000-000000000000";
const GENUINE: &str = "ab12cd34-00ef-4a5b-8c6d-0123456789ab";
const STORED: &str = "67e55044-10b1-426f-9247-bb680e5fe0c8";

fn volume(uuid: Option<&str>, mount_point: Option<&str>) -> VolumeDescriptor {
    VolumeDescriptor {
        name: "vol".to_string(),
        file_system_kind: "exfat".to_string(),
        reported_uuid: uuid.map(|u| u.to_string()),
        mount_point: mount_point.map(|m| m.to_string()),
    }
}

fn device(volumes: Vec<VolumeDescriptor>, children: Vec<DeviceTreeNode>) -> DeviceTreeNode {
    DeviceTreeNode {
        name: "dev".to_string(),
        serial_number: None,
        media_units: vec![MediaUnit {
            block_device_name: "disk2".to_string(),
            size_bytes: 4096,
            volumes,
        }],
        children,
    }
}

fn mount(mount_point: &str) -> MountRecord {
    MountRecord {
        device_label: "label".to_string(),
        kind: "SSD".to_string(),
        file_system_kind: "exfat".to_string(),
        mount_point: mount_point.to_string(),
        total_bytes: 1000,
        available_bytes: 400,
    }
}

fn request(uuid: Option<&str>, root: Option<&str>) -> IdentityRequest {
    IdentityRequest {
        reported_uuid: uuid.map(|u| u.to_string()),
        marker_root: root.map(|r| r.to_string()),
    }
}

/// Marker files held in memory, keyed by their path; what was read and
/// written is recorded.
struct Volumes {
    files: HashMap<String, String>,
    read_only: bool,
    reads: Vec<String>,
    writes: Vec<(String, String)>,
}

impl Volumes {
    fn new() -> Volumes {
        Volumes { files: HashMap::new(), read_only: false, reads: vec![], writes: vec![] }
    }

    fn path(root: &str) -> String {
        format!("{}/{}", root, MARKER_FILE_NAME)
    }

    fn with(mut self, root: &str, contents: &str) -> Volumes {
        self.files.insert(Volumes::path(root), contents.to_string());
        self
    }

    fn marker(&self, root: &str) -> Option<String> {
        self.files.get(&Volumes::path(root)).cloned()
    }

    /// Runs a reconciliation to its end.
    fn run(&mut self, requests: Vec<IdentityRequest>) -> Vec<Option<String>> {
        let (mut resolver, mut action) = Resolver::start(requests);
        loop {
            let event = match action {
                Action::Finished => break,
                Action::ReadMarker { mount_root } => {
                    self.reads.push(mount_root.clone());
                    Event::MarkerRead(self.marker(&mount_root))
                }
                Action::WriteMarker { mount_root, text } => {
                    self.writes.push((mount_root.clone(), text.clone()));
                    if !self.read_only {
                        self.files.insert(Volumes::path(&mount_root), text);
                    }
                    Event::MarkerWritten(!self.read_only)
                }
            };
            let next = resolver.step(event);
            resolver = next.0;
            action = next.1;
        }
        assert!(resolver.is_finished());
        assert_eq!(resolver.pending(), Action::Finished);
        resolver.shown().clone()
    }

    fn reconcile(&mut self, tree: &Vec<DeviceTreeNode>, mounts: &Vec<MountRecord>) -> Vec<ReconciledVolume> {
        let mut index = MountIndex::new();
        collect_usb_mount_points(tree, &mut index);
        let shown = self.run(requests_for_mounts(&index, mounts));
        reconciled_volumes(mounts, &shown)
    }
}

#[test]
fn nil_report_without_marker_mints_and_persists() {
    let tree = vec![device(vec![volume(Some(NIL), Some("/Volumes/Backup"))], vec![])];
    let mounts = vec![mount("/Volumes/Backup")];
    let mut volumes = Volumes::new();
    let records = volumes.reconcile(&tree, &mounts);
    assert_eq!(records.len(), 1);
    let minted = volumes.marker("/Volumes/Backup").expect("marker written");
    assert!(usable_identifier(&minted));
    assert_eq!(minted, minted.trim());
    assert_eq!(volumes.writes, vec![("/Volumes/Backup".to_string(), minted.clone())]);
    assert_eq!(records[0].display_uuid(), Some(minted.to_uppercase().as_str()));
    assert_eq!(records[0].mount_point(), "/Volumes/Backup");
    assert_eq!(records[0].mount(), &mounts[0]);
}

#[test]
fn genuine_report_is_shown_upper_case_and_no_marker_is_touched() {
    let tree = vec![device(vec![volume(Some(GENUINE), Some("/Volumes/Data"))], vec![])];
    let mounts = vec![mount("/Volumes/Data")];
    let mut volumes = Volumes::new();
    let records = volumes.reconcile(&tree, &mounts);
    assert_eq!(records.len(), 1);
    assert_eq!(records[0].display_uuid(), Some("AB12CD34-00EF-4A5B-8C6D-0123456789AB"));
    assert!(volumes.reads.is_empty());
    assert!(volumes.writes.is_empty());
    assert!(volumes.files.is_empty());
}

#[test]
fn mount_is_kept_when_the_topology_is_empty() {
    let mounts = vec![mount("/Volumes/External")];
    let mut volumes = Volumes::new();
    let records = volumes.reconcile(&vec![], &mounts);
    assert_eq!(records.len(), 1);
    assert_eq!(records[0].mount_point(), "/Volumes/External");
    let minted = volumes.marker("/Volumes/External").expect("marker written");
    assert_eq!(records[0].display_uuid(), Some(minted.to_uppercase().as_str()));
    assert_eq!(volumes.reads, vec!["/Volumes/External".to_string()]);
}

#[test]
fn existing_marker_is_used_and_left_alone() {
    let tree = vec![device(vec![volume(None, Some("/Volumes/Old"))], vec![])];
    let mounts = vec![mount("/Volumes/Old")];
    let mut volumes = Volumes::new().with("/Volumes/Old", "67e55044-10b1-426f-9247-bb680e5fe0c8\n");
    let records = volumes.reconcile(&tree, &mounts);
    assert_eq!(records[0].display_uuid(), Some("67E55044-10B1-426F-9247-BB680E5FE0C8"));
    assert!(volumes.writes.is_empty());
    assert_eq!(volumes.marker("/Volumes/Old").unwrap(), "67e55044-10b1-426f-9247-bb680e5fe0c8\n");
}

#[test]
fn corrupt_marker_is_overwritten() {
    let mounts = vec![mount("/Volumes/Bad")];
    let mut volumes = Volumes::new().with("/Volumes/Bad", "this is not a uuid");
    let records = volumes.reconcile(&vec![], &mounts);
    let minted = volumes.marker("/Volumes/Bad").unwrap();
    assert!(usable_identifier(&minted));
    assert_eq!(records[0].display_uuid(), Some(minted.to_uppercase().as_str()));
}

#[test]
fn nil_marker_is_overwritten() {
    let mounts = vec![mount("/Volumes/Nil")];
    let mut volumes = Volumes::new().with("/Volumes/Nil", NIL);
    let records = volumes.reconcile(&vec![], &mounts);
    let minted = volumes.marker("/Volumes/Nil").unwrap();
    assert_ne!(minted, NIL);
    assert_eq!(records[0].display_uuid(), Some(minted.to_uppercase().as_str()));
}

#[test]
fn read_only_volume_is_listed_without_identifier() {
    let mounts = vec![mount("/Volumes/Locked"), mount("/Volumes/AlsoLocked")];
    let mut volumes = Volumes::new();
    volumes.read_only = true;
    let records = volumes.reconcile(&vec![], &mounts);
    assert_eq!(records.len(), 2);
    assert_eq!(records[0].display_uuid(), None);
    assert_eq!(records[1].display_uuid(), None);
    assert_eq!(records[1].mount_point(), "/Volumes/AlsoLocked");
    assert_eq!(volumes.writes.len(), 2);
}

#[test]
fn reconciling_twice_shows_the_same_identifiers() {
    let tree = vec![device(
        vec![volume(Some(NIL), Some("/Volumes/A")), volume(Some(GENUINE), Some("/Volumes/B"))],
        vec![device(vec![volume(None, Some("/Volumes/C"))], vec![])],
    )];
    let mounts = vec![mount("/Volumes/C"), mount("/Volumes/B"), mount("/Volumes/A"), mount("/")];
    let mut volumes = Volumes::new();
    let first = volumes.reconcile(&tree, &mounts);
    let writes = volumes.writes.len();
    let second = volumes.reconcile(&tree, &mounts);
    assert_eq!(first, second);
    assert_eq!(first.len(), 4);
    assert_eq!(writes, 3);
    assert_eq!(volumes.writes.len(), 3);
    assert_eq!(first[1].display_uuid(), Some("AB12CD34-00EF-4A5B-8C6D-0123456789AB"));
    for record in &first {
        let shown = record.display_uuid().unwrap();
        assert!(!shown.eq_ignore_ascii_case(NIL));
        assert_eq!(shown, shown.to_uppercase());
    }
}

#[test]
fn unmounted_volume_is_joined_to_no_mount() {
    let tree = vec![device(
        vec![volume(Some(GENUINE), None), volume(Some(GENUINE), Some(""))],
        vec![],
    )];
    let mut index = MountIndex::new();
    collect_usb_mount_points(&tree, &mut index);
    assert_eq!(index.len(), 0);
    let joined = request_for(&index, &mount(""));
    assert_eq!(joined, request(None, Some("")));
    let mounts = vec![mount("/Volumes/Other")];
    let mut volumes = Volumes::new().with("/Volumes/Other", STORED);
    let records = volumes.reconcile(&tree, &mounts);
    assert_eq!(records.len(), 1);
    assert_eq!(records[0].mount_point(), "/Volumes/Other");
    assert_eq!(records[0].display_uuid(), Some("67E55044-10B1-426F-9247-BB680E5FE0C8"));
}

#[test]
fn join_takes_the_reported_uuid_of_the_volume_at_the_mount_point() {
    let tree = vec![device(
        vec![volume(Some(GENUINE), Some("/Volumes/G")), volume(Some(NIL), Some("/Volumes/N"))],
        vec![],
    )];
    let mut index = MountIndex::new();
    collect_usb_mount_points(&tree, &mut index);
    let mounts = vec![mount("/Volumes/N"), mount("/Volumes/G"), mount("/Volumes/U")];
    let requests = requests_for_mounts(&index, &mounts);
    assert_eq!(
        requests,
        vec![
            request(Some(NIL), Some("/Volumes/N")),
            request(Some(GENUINE), Some("/Volumes/G")),
            request(None, Some("/Volumes/U")),
        ]
    );
    assert!(requests[0].needs_store());
    assert!(!requests[1].needs_store());
    assert!(requests[2].needs_store());
    assert_eq!(requests[0].shown_without_store(), None);
    assert_eq!(
        requests[1].shown_without_store(),
        Some("AB12CD34-00EF-4A5B-8C6D-0123456789AB".to_string())
    );
}

#[test]
fn reported_text_outside_ascii_is_shown_in_unicode_upper_case() {
    let mut volumes = Volumes::new();
    let shown = volumes.run(vec![request(Some("é1"), Some("/Volumes/E"))]);
    assert_eq!(shown, vec![Some("É1".to_string())]);
    assert!(volumes.reads.is_empty());
}

#[test]
fn the_nil_sentinel_is_never_shown() {
    assert_eq!(show_identifier(&Some(NIL.to_string())), None);
    assert_eq!(show_identifier(&None), None);
    assert_eq!(show_identifier(&Some("abc".to_string())), Some("ABC".to_string()));
    let record = ReconciledVolume::new(mount("/"), Some(NIL.to_string()));
    assert_eq!(record.display_uuid(), None);
    let record = ReconciledVolume::new(mount("/"), Some("ABC".to_string()));
    assert_eq!(record.display_uuid(), Some("ABC"));
    assert_eq!(record.duplicate(), record);
    let record = ReconciledVolume::new(mount("/"), None);
    assert_eq!(record.display_uuid(), None);
}

#[test]
fn volume_without_a_place_for_a_marker_is_decided_without_the_store() {
    let mut volumes = Volumes::new();
    let shown = volumes.run(vec![
        request(Some(NIL), None),
        request(None, None),
        request(Some(GENUINE), None),
    ]);
    assert_eq!(shown, vec![None, None, Some("AB12CD34-00EF-4A5B-8C6D-0123456789AB".to_string())]);
    assert!(volumes.reads.is_empty());
    assert!(volumes.writes.is_empty());
}

#[test]
fn resolver_asks_for_one_thing_at_a_time() {
    let requests = vec![
        request(Some(GENUINE), Some("/a")),
        request(None, Some("/b")),
        request(Some(NIL), Some("/c")),
    ];
    let (resolver, action) = Resolver::start(requests);
    assert_eq!(action, Action::ReadMarker { mount_root: "/b".to_string() });
    assert!(resolver.is_reading());
    assert!(!resolver.is_finished());
    assert_eq!(resolver.shown(), &vec![Some("AB12CD34-00EF-4A5B-8C6D-0123456789AB".to_string())]);

    // An event that answers nothing that was asked changes nothing.
    let (resolver, action) = resolver.step(Event::MarkerWritten(true));
    assert_eq!(action, Action::ReadMarker { mount_root: "/b".to_string() });
    assert_eq!(resolver.shown().len(), 1);

    let (resolver, action) = resolver.step_with(Event::MarkerRead(None), STORED.to_string());
    assert_eq!(
        action,
        Action::WriteMarker { mount_root: "/b".to_string(), text: STORED.to_string() }
    );
    assert_eq!(resolver.minted(), Some(STORED.to_string()));
    assert_eq!(resolver.shown().len(), 1);

    let (resolver, action) = resolver.step(Event::MarkerRead(Some(GENUINE.to_string())));
    assert_eq!(
        action,
        Action::WriteMarker { mount_root: "/b".to_string(), text: STORED.to_string() }
    );

    let (resolver, action) = resolver.step(Event::MarkerWritten(true));
    assert_eq!(action, Action::ReadMarker { mount_root: "/c".to_string() });
    assert_eq!(resolver.shown().len(), 2);
    assert_eq!(resolver.shown()[1], Some("67E55044-10B1-426F-9247-BB680E5FE0C8".to_string()));

    let (resolver, action) =
        resolver.step_with(Event::MarkerRead(Some(" ab12cd34-00ef-4a5b-8c6d-0123456789ab ".to_string())), STORED.to_string());
    assert_eq!(action, Action::Finished);
    assert!(resolver.is_finished());
    assert_eq!(resolver.minted(), None);
    assert_eq!(resolver.shown()[2], Some("AB12CD34-00EF-4A5B-8C6D-0123456789AB".to_string()));

    let (resolver, action) = resolver.step(Event::MarkerRead(None));
    assert_eq!(action, Action::Finished);
    assert_eq!(resolver.shown().len(), 3);
}

#[test]
fn resolver_of_nothing_is_finished_at_once() {
    let (resolver, action) = Resolver::start(vec![]);
    assert_eq!(action, Action::Finished);
    assert!(resolver.is_finished());
    assert!(resolver.shown().is_empty());
}

#[test]
fn records_are_made_for_the_mounts_that_have_an_answer() {
    let mounts = vec![mount("/a"), mount("/b")];
    let records = reconciled_volumes(&mounts, &vec![Some("X".to_string())]);
    assert_eq!(records.len(), 1);
    assert_eq!(records[0].display_uuid(), Some("X"));
    let records = reconciled_volumes(&mounts, &vec![None, Some(NIL.to_string()), None]);
    assert_eq!(records.len(), 2);
    assert_eq!(records[0].display_uuid(), None);
    assert_eq!(records[1].display_uuid(), None);
}

#[test]
fn topology_listing_asks_for_every_volume_in_walk_order() {
    let tree = vec![
        device(
            vec![volume(Some(NIL), Some("/Volumes/A")), volume(Some(NIL), None)],
            vec![device(vec![volume(Some(GENUINE), Some(""))], vec![])],
        ),
        device(vec![volume(None, Some("/Volumes/Z"))], vec![]),
    ];
    let requests = requests_for_topology(&tree);
    assert_eq!(
        requests,
        vec![
            request(Some(NIL), Some("/Volumes/A")),
            request(Some(NIL), None),
            request(Some(GENUINE), None),
            request(None, Some("/Volumes/Z")),
        ]
    );
    assert_eq!(
        request_for_listed(&volume(Some("x"), Some("/m"))),
        request(Some("x"), Some("/m"))
    );
    let mut volumes = Volumes::new().with("/Volumes/Z", STORED);
    volumes.read_only = true;
    let shown = volumes.run(requests);
    assert_eq!(
        shown,
        vec![
            None,
            None,
            Some("AB12CD34-00EF-4A5B-8C6D-0123456789AB".to_string()),
            Some("67E55044-10B1-426F-9247-BB680E5FE0C8".to_string()),
        ]
    );
}

#[test]
fn only_known_mounts_are_eligible_where_the_bus_was_enumerated() {
    let tree = vec![device(vec![volume(Some(GENUINE), Some("/Volumes/Usb"))], vec![])];
    let mut index = MountIndex::new();
    collect_usb_mount_points(&tree, &mut index);
    let mounts = vec![mount("/"), mount("/Volumes/Usb"), mount("/home")];
    assert_eq!(eligible_mounts(&index, true, &mounts), vec![mount("/Volumes/Usb")]);
    assert_eq!(eligible_mounts(&index, false, &mounts), mounts);
    assert_eq!(eligible_mounts(&MountIndex::new(), true, &mounts), vec![]);
    assert_eq!(eligible_mounts(&MountIndex::new(), false, &mounts), mounts);
}
