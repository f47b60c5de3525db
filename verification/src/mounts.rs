//! Mounted filesystems as the mount enumeration reports them, and the records
//! that reconciliation joins them into.

use vstd::prelude::*;
use crate::text::{same_ignoring_ascii_case, lemma_caseless_text};
use crate::topology::{copy_text, text_of};
use crate::uuid_text::{is_nil_uuid, nil_uuid};

verus! {

/// One entry of the flat mount enumeration. Device kind and filesystem kind
/// are opaque labels.
#[derive(Clone, Debug, PartialEq, Eq)]
pub struct MountRecord {
    pub device_label: String,
    pub kind: String,
    pub file_system_kind: String,
    pub mount_point: String,
    pub total_bytes: u64,
    pub available_bytes: u64,
}

/// What a [`MountRecord`] says, as plain values.
pub struct MountView {
    pub device_label: Seq<char>,
    pub kind: Seq<char>,
    pub file_system_kind: Seq<char>,
    pub mount_point: Seq<char>,
    pub total_bytes: u64,
    pub available_bytes: u64,
}

impl View for MountRecord {
    type V = MountView;

    open spec fn view(&self) -> MountView {
        MountView {
            device_label: self.device_label@,
            kind: self.kind@,
            file_system_kind: self.file_system_kind@,
            mount_point: self.mount_point@,
            total_bytes: self.total_bytes,
            available_bytes: self.available_bytes,
        }
    }
}

impl MountRecord {
    /// A copy that says the same as `self`.
    pub fn duplicate(&self) -> (r: MountRecord)
        ensures
            r@ == self@,
    {
        MountRecord {
            device_label: self.device_label.clone(),
            kind: self.kind.clone(),
            file_system_kind: self.file_system_kind.clone(),
            mount_point: self.mount_point.clone(),
            total_bytes: self.total_bytes,
            available_bytes: self.available_bytes,
        }
    }
}

/// A mounted volume with the identifier that is shown for it.
#[derive(Debug, PartialEq, Eq)]
pub struct ReconciledVolume {
    mount: MountRecord,
    display_uuid: Option<String>,
}

/// What a [`ReconciledVolume`] says, as plain values.
pub struct ReconciledView {
    pub mount: MountView,
    pub display_uuid: Option<Seq<char>>,
}

impl View for ReconciledVolume {
    type V = ReconciledView;

    closed spec fn view(&self) -> ReconciledView {
        ReconciledView { mount: self.mount@, display_uuid: text_of(self.display_uuid) }
    }
}

/// The identifier that may be shown in place of `shown`: `shown` itself,
/// unless it is the nil sentinel, for which none is shown.
pub open spec fn presentable(shown: Option<Seq<char>>) -> Option<Seq<char>> {
    if shown == Some(nil_uuid()) {
        None
    } else {
        shown
    }
}

impl ReconciledView {
    /// The record's invariant: the identifier shown is never the nil sentinel.
    pub open spec fn wf(self) -> bool {
        self.display_uuid != Some(nil_uuid())
    }
}

impl ReconciledVolume {
    /// Holds of every record, wherever it came from.
    #[verifier::type_invariant]
    spec fn never_nil(self) -> bool {
        text_of(self.display_uuid) != Some(nil_uuid())
    }

    /// Joins a mount with the identifier to show for it. The nil sentinel is
    /// never shown: given it, the record has no identifier.
    pub fn new(mount: MountRecord, shown: Option<String>) -> (r: ReconciledVolume)
        ensures
            r@.mount == mount@,
            r@.display_uuid == presentable(text_of(shown)),
            r@.wf(),
    {
        let display_uuid = match shown {
            Some(text) => {
                if is_nil_uuid(text.as_str()) {
                    None
                } else {
                    Some(text)
                }
            },
            None => None,
        };
        ReconciledVolume { mount, display_uuid }
    }

    /// The mount that this record was made for.
    pub fn mount(&self) -> (m: &MountRecord)
        ensures
            m@ == self@.mount,
    {
        &self.mount
    }

    /// The mount point of the volume.
    pub fn mount_point(&self) -> (p: &str)
        ensures
            p@ == self@.mount.mount_point,
    {
        self.mount.mount_point.as_str()
    }

    /// The identifier to show, if there is one. It is never the nil sentinel.
    pub fn display_uuid(&self) -> (d: Option<&str>)
        ensures
            d is Some <==> self@.display_uuid is Some,
            d is Some ==> d->0@ == self@.display_uuid->0,
            self@.wf(),
    {
        proof {
            use_type_invariant(self);
        }
        match &self.display_uuid {
            Some(text) => Some(text.as_str()),
            None => None,
        }
    }

    /// A copy that says the same as `self`.
    pub fn duplicate(&self) -> (r: ReconciledVolume)
        ensures
            r@ == self@,
    {
        proof {
            use_type_invariant(self);
        }
        ReconciledVolume {
            mount: self.mount.duplicate(),
            display_uuid: copy_text(&self.display_uuid),
        }
    }
}

/// The identifier shown for a volume is never the nil sentinel, in whatever
/// case its letters are written.
pub proof fn lemma_nil_is_never_shown(volume: ReconciledView)
    requires
        volume.wf(),
    ensures
        volume.display_uuid is Some ==> !same_ignoring_ascii_case(
            volume.display_uuid->0,
            nil_uuid(),
        ),
{
    reveal_strlit("00000000-0000-0000-0000-000000000000");
    if volume.display_uuid is Some {
        lemma_caseless_text(nil_uuid(), volume.display_uuid->0);
    }
}

} // verus!
