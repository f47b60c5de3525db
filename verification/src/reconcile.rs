//! The identity reconciler: joins the mounted filesystems with the bus
//! topology, and says for which volumes an identifier is to be decided.

use vstd::prelude::*;
use crate::index::{flattened, lemma_flattened_entries_are_mounted, MountIndex};
use crate::mounts::{presentable, MountRecord, MountView, ReconciledVolume, ReconciledView};
use crate::resolver::{genuine_uuid, requests_view, IdentityRequest, RequestView};
use crate::topology::{
    copy_text, forest_holds, forest_listing, media_listing, node_listing, text_of, volumes_view,
    DeviceTreeNode, MediaUnit, VolumeDescriptor, VolumeView,
};

verus! {

/// Whether a mount takes part in the reconciliation. Where the bus was
/// enumerated, the mounts that the topology knows do; where it could not be
/// enumerated at all, every mount does.
pub open spec fn is_eligible(
    index: Map<Seq<char>, VolumeView>,
    bus_enumerated: bool,
    mount: MountView,
) -> bool {
    !bus_enumerated || index.contains_key(mount.mount_point)
}

/// The eligible mounts among `mounts`, in order.
pub open spec fn eligible(
    index: Map<Seq<char>, VolumeView>,
    bus_enumerated: bool,
    mounts: Seq<MountRecord>,
) -> Seq<MountView>
    decreases mounts.len(),
{
    if mounts.len() == 0 {
        Seq::empty()
    } else {
        let before = eligible(index, bus_enumerated, mounts.drop_last());
        if is_eligible(index, bus_enumerated, mounts.last()@) {
            before.push(mounts.last()@)
        } else {
            before
        }
    }
}

/// What a list of mounts says, as plain values.
pub open spec fn mounts_view(mounts: Seq<MountRecord>) -> Seq<MountView> {
    Seq::new(mounts.len(), |i: int| mounts[i]@)
}

/// Keeps the mounts that take part in the reconciliation, in order.
/// `bus_enumerated` says whether the topology behind `index` was enumerated;
/// where it was not, no mount is left out.
pub fn eligible_mounts(index: &MountIndex, bus_enumerated: bool, mounts: &Vec<MountRecord>) -> (kept:
    Vec<MountRecord>)
    ensures
        mounts_view(kept@) == eligible(index@, bus_enumerated, mounts@),
{
    let mut kept: Vec<MountRecord> = Vec::new();
    let mut i: usize = 0;
    assert(mounts_view(kept@) =~= eligible(index@, bus_enumerated, mounts@.take(0)));
    while i < mounts.len()
        invariant
            i <= mounts.len(),
            mounts_view(kept@) == eligible(index@, bus_enumerated, mounts@.take(i as int)),
        decreases mounts.len() - i,
    {
        let mount = &mounts[i];
        proof {
            assert(mounts@.take(i + 1).drop_last() =~= mounts@.take(i as int));
            assert(mounts@.take(i + 1).last() == mounts@[i as int]);
        }
        if !bus_enumerated || index.contains(mount.mount_point.as_str()) {
            let ghost so_far = mounts_view(kept@);
            kept.push(mount.duplicate());
            assert(mounts_view(kept@) =~= so_far.push(mount@));
        }
        i += 1;
    }
    proof {
        assert(mounts@.take(mounts.len() as int) =~= mounts@);
    }
    kept
}

/// What the bus reports as the UUID of the volume mounted at `mount_point`:
/// that of the volume entered under it, none where no volume is.
pub open spec fn reported_for(
    index: Map<Seq<char>, VolumeView>,
    mount_point: Seq<char>,
) -> Option<Seq<char>> {
    if index.contains_key(mount_point) {
        index[mount_point].reported_uuid
    } else {
        None
    }
}

/// The request for a mounted filesystem: what the bus reports for its mount
/// point, and its mount point as the place of its marker.
pub open spec fn request_for_mount(index: Map<Seq<char>, VolumeView>, mount: MountView) -> RequestView {
    RequestView {
        reported_uuid: reported_for(index, mount.mount_point),
        marker_root: Some(mount.mount_point),
    }
}

/// Joins one mounted filesystem with the topology.
pub fn request_for(index: &MountIndex, mount: &MountRecord) -> (request: IdentityRequest)
    ensures
        request@ == request_for_mount(index@, mount@),
{
    let reported_uuid = match index.get(mount.mount_point.as_str()) {
        Some(volume) => copy_text(&volume.reported_uuid),
        None => None,
    };
    IdentityRequest { reported_uuid, marker_root: Some(mount.mount_point.clone()) }
}

/// Joins the mounted filesystems with the topology: one request for each
/// mount, in order, whether the topology knows its mount point or not.
pub fn requests_for_mounts(index: &MountIndex, mounts: &Vec<MountRecord>) -> (requests: Vec<
    IdentityRequest,
>)
    ensures
        requests.len() == mounts.len(),
        forall|i: int|
            0 <= i < mounts.len() ==> (#[trigger] requests[i])@ == request_for_mount(
                index@,
                mounts[i]@,
            ),
{
    let mut requests: Vec<IdentityRequest> = Vec::new();
    let mut i: usize = 0;
    while i < mounts.len()
        invariant
            i <= mounts.len(),
            requests.len() == i,
            forall|k: int|
                0 <= k < i ==> (#[trigger] requests[k])@ == request_for_mount(index@, mounts[k]@),
        decreases mounts.len() - i,
    {
        requests.push(request_for(index, &mounts[i]));
        i += 1;
    }
    requests
}

/// Joins the mounted filesystems with what is shown for them, one record for
/// each mount that has an answer, in order.
pub fn reconciled_volumes(mounts: &Vec<MountRecord>, shown: &Vec<Option<String>>) -> (volumes: Vec<
    ReconciledVolume,
>)
    ensures
        volumes.len() == if mounts.len() <= shown.len() {
            mounts.len()
        } else {
            shown.len()
        },
        forall|i: int|
            0 <= i < volumes.len() ==> (#[trigger] volumes[i])@ == (ReconciledView {
                mount: mounts[i]@,
                display_uuid: presentable(text_of(shown[i])),
            }),
        forall|i: int| 0 <= i < volumes.len() ==> (#[trigger] volumes[i])@.wf(),
{
    let mut volumes: Vec<ReconciledVolume> = Vec::new();
    let mut i: usize = 0;
    while i < mounts.len() && i < shown.len()
        invariant
            i <= mounts.len(),
            i <= shown.len(),
            volumes.len() == i,
            forall|k: int|
                0 <= k < i ==> (#[trigger] volumes[k])@ == (ReconciledView {
                    mount: mounts[k]@,
                    display_uuid: presentable(text_of(shown[k])),
                }),
            forall|k: int| 0 <= k < i ==> (#[trigger] volumes[k])@.wf(),
        decreases mounts.len() - i,
    {
        volumes.push(ReconciledVolume::new(mounts[i].duplicate(), copy_text(&shown[i])));
        i += 1;
    }
    volumes
}

/// The request for a volume of the topology: what the bus reports for it,
/// and its mount point as the place of its marker where it is mounted.
pub open spec fn request_for_volume(volume: VolumeView) -> RequestView {
    RequestView {
        reported_uuid: volume.reported_uuid,
        marker_root: if volume.is_mounted() {
            volume.mount_point
        } else {
            None
        },
    }
}

/// The requests for a list of volumes, in order.
pub open spec fn listing_requests(volumes: Seq<VolumeView>) -> Seq<RequestView> {
    Seq::new(volumes.len(), |i: int| request_for_volume(volumes[i]))
}

/// The request for one volume of the topology.
pub fn request_for_listed(volume: &VolumeDescriptor) -> (request: IdentityRequest)
    ensures
        request@ == request_for_volume(volume@),
{
    let marker_root = if volume.is_mounted() {
        copy_text(&volume.mount_point)
    } else {
        None
    };
    IdentityRequest { reported_uuid: copy_text(&volume.reported_uuid), marker_root }
}

/// Appends a request for every volume on `media`, unit by unit.
pub fn collect_media_requests(media: &Vec<MediaUnit>, requests: &mut Vec<IdentityRequest>)
    ensures
        requests_view(final(requests)@) == requests_view(old(requests)@) + listing_requests(
            media_listing(media@),
        ),
{
    let ghost before = requests_view(requests@);
    let mut m: usize = 0;
    assert(requests_view(requests@) =~= before + listing_requests(media_listing(media@.take(0))));
    while m < media.len()
        invariant
            m <= media.len(),
            requests_view(requests@) == before + listing_requests(
                media_listing(media@.take(m as int)),
            ),
        decreases media.len() - m,
    {
        let unit = &media[m];
        let ghost done = media_listing(media@.take(m as int));
        proof {
            assert(media@.take(m + 1).drop_last() =~= media@.take(m as int));
            assert(media@.take(m + 1).last() == media@[m as int]);
        }
        let mut k: usize = 0;
        assert(requests_view(requests@) =~= before + listing_requests(
            done + volumes_view(unit.volumes@.take(0)),
        ));
        while k < unit.volumes.len()
            invariant
                k <= unit.volumes.len(),
                requests_view(requests@) == before + listing_requests(
                    done + volumes_view(unit.volumes@.take(k as int)),
                ),
            decreases unit.volumes.len() - k,
        {
            let request = request_for_listed(&unit.volumes[k]);
            let ghost so_far = requests_view(requests@);
            requests.push(request);
            proof {
                assert(requests_view(requests@) =~= so_far.push(request@));
                assert(volumes_view(unit.volumes@.take(k + 1)) =~= volumes_view(
                    unit.volumes@.take(k as int),
                ).push(unit.volumes@[k as int]@));
                assert(listing_requests(done + volumes_view(unit.volumes@.take(k + 1)))
                    =~= listing_requests(done + volumes_view(unit.volumes@.take(k as int))).push(
                    request@,
                ));
            }
            k += 1;
        }
        proof {
            assert(unit.volumes@.take(unit.volumes.len() as int) =~= unit.volumes@);
        }
        m += 1;
    }
    proof {
        assert(media@.take(media.len() as int) =~= media@);
    }
}

/// Appends a request for every volume at or below `nodes`, mounted or not,
/// in the order of the walk.
pub fn collect_requests(nodes: &Vec<DeviceTreeNode>, requests: &mut Vec<IdentityRequest>)
    ensures
        requests_view(final(requests)@) == requests_view(old(requests)@) + listing_requests(
            forest_listing(nodes@),
        ),
    decreases nodes,
{
    let ghost before = requests_view(requests@);
    let mut i: usize = 0;
    assert(requests_view(requests@) =~= before + listing_requests(forest_listing(nodes@.take(0))));
    while i < nodes.len()
        invariant
            i <= nodes.len(),
            requests_view(requests@) == before + listing_requests(
                forest_listing(nodes@.take(i as int)),
            ),
        decreases nodes.len() - i,
    {
        let node = &nodes[i];
        let ghost done = forest_listing(nodes@.take(i as int));
        proof {
            assert(nodes@.take(i + 1).drop_last() =~= nodes@.take(i as int));
            assert(nodes@.take(i + 1).last() == nodes@[i as int]);
        }
        collect_media_requests(&node.media_units, requests);
        collect_requests(&node.children, requests);
        proof {
            let own = media_listing(node.media_units@);
            let below = forest_listing(node.children@);
            assert(listing_requests(done + node_listing(*node)) =~= listing_requests(done)
                + listing_requests(own) + listing_requests(below));
            assert(requests_view(requests@) =~= before + listing_requests(
                done + node_listing(*node),
            ));
        }
        i += 1;
    }
    proof {
        assert(nodes@.take(nodes.len() as int) =~= nodes@);
    }
}

/// The requests for the topology listing: one for every volume at or below
/// `nodes`, mounted or not, in the order of the walk.
pub fn requests_for_topology(nodes: &Vec<DeviceTreeNode>) -> (requests: Vec<IdentityRequest>)
    ensures
        requests_view(requests@) == listing_requests(forest_listing(nodes@)),
{
    let mut requests: Vec<IdentityRequest> = Vec::new();
    assert(requests_view(requests@) =~= Seq::empty());
    collect_requests(nodes, &mut requests);
    assert(requests_view(requests@) =~= listing_requests(forest_listing(nodes@)));
    requests
}

/// Where the bus could not be enumerated, every mount is eligible: none is
/// dropped, and each goes to the store.
pub proof fn lemma_every_mount_is_eligible_without_the_bus(
    index: Map<Seq<char>, VolumeView>,
    mounts: Seq<MountRecord>,
)
    ensures
        eligible(index, false, mounts) == mounts_view(mounts),
    decreases mounts.len(),
{
    if mounts.len() > 0 {
        lemma_every_mount_is_eligible_without_the_bus(index, mounts.drop_last());
        assert(mounts_view(mounts) =~= mounts_view(mounts.drop_last()).push(mounts.last()@));
    } else {
        assert(mounts_view(mounts) =~= Seq::empty());
    }
}

/// An eligible mount is one of the mounts, and where the bus was enumerated
/// its mount point is that of a mounted volume of the topology.
pub proof fn lemma_eligible_mounts_are_known(
    nodes: Seq<DeviceTreeNode>,
    mounts: Seq<MountRecord>,
    i: int,
)
    requires
        0 <= i < eligible(flattened(nodes), true, mounts).len(),
    ensures
        exists|k: int| 0 <= k < mounts.len() && (#[trigger] mounts[k])@ == eligible(
            flattened(nodes),
            true,
            mounts,
        )[i],
        exists|volume: VolumeView|
            forest_holds(nodes, volume) && #[trigger] volume.is_mounted() && volume.mount_point
                == Some(eligible(flattened(nodes), true, mounts)[i].mount_point),
    decreases mounts.len(),
{
    let index = flattened(nodes);
    let before = eligible(index, true, mounts.drop_last());
    if is_eligible(index, true, mounts.last()@) && i == before.len() {
        assert(mounts[mounts.len() - 1]@ == eligible(index, true, mounts)[i]);
        lemma_flattened_entries_are_mounted(nodes, mounts.last()@.mount_point);
        assert(index[mounts.last()@.mount_point].is_mounted());
    } else {
        lemma_eligible_mounts_are_known(nodes, mounts.drop_last(), i);
        let k = choose|k: int|
            0 <= k < mounts.drop_last().len() && (#[trigger] mounts.drop_last()[k])@ == before[i];
        assert(mounts[k]@ == before[i]);
    }
}

/// A mount whose volume reports no UUID or the nil sentinel, or which the
/// topology does not know at all, goes to the store.
pub proof fn lemma_mount_without_genuine_report_goes_to_store(
    index: Map<Seq<char>, VolumeView>,
    mount: MountView,
)
    ensures
        !index.contains_key(mount.mount_point) ==> request_for_mount(index, mount).needs_store(),
        index.contains_key(mount.mount_point) && genuine_uuid(
            index[mount.mount_point].reported_uuid,
        ) is None ==> request_for_mount(index, mount).needs_store(),
{
}

/// What the join takes from the topology comes from a mounted volume with
/// the mount's own mount point: a volume without a mount point, or with an
/// empty one, is joined to no mount.
pub proof fn lemma_join_takes_mounted_volumes_only(nodes: Seq<DeviceTreeNode>, mount: MountView)
    requires
        request_for_mount(flattened(nodes), mount).reported_uuid is Some,
    ensures
        exists|volume: VolumeView|
            forest_holds(nodes, volume) && #[trigger] volume.is_mounted() && volume.mount_point
                == Some(mount.mount_point) && volume.reported_uuid == request_for_mount(
                flattened(nodes),
                mount,
            ).reported_uuid,
{
    lemma_flattened_entries_are_mounted(nodes, mount.mount_point);
    assert(flattened(nodes)[mount.mount_point].is_mounted());
}

} // verus!
