//! The bus topology: a tree of devices, each with its storage media and the
//! volumes on them, and the order in which the tree is walked.

use vstd::prelude::*;

verus! {

/// One mountable volume, as the topology source reports it.
#[derive(Clone, Debug, PartialEq, Eq)]
pub struct VolumeDescriptor {
    pub name: String,
    pub file_system_kind: String,
    /// Absent, or present and possibly the nil sentinel.
    pub reported_uuid: Option<String>,
    /// Absent or empty for a volume that is not mounted.
    pub mount_point: Option<String>,
}

/// One physical or logical storage unit. Without volumes it is unpartitioned
/// or unmounted.
#[derive(Clone, Debug, PartialEq, Eq)]
pub struct MediaUnit {
    pub block_device_name: String,
    pub size_bytes: u64,
    pub volumes: Vec<VolumeDescriptor>,
}

/// One node of the bus topology. A node may carry media, children, both or
/// neither.
#[derive(Debug, PartialEq, Eq)]
pub struct DeviceTreeNode {
    pub name: String,
    pub serial_number: Option<String>,
    pub media_units: Vec<MediaUnit>,
    pub children: Vec<DeviceTreeNode>,
}

/// An optional text, as an optional sequence of characters.
pub open spec fn text_of(t: Option<String>) -> Option<Seq<char>> {
    match t {
        Some(s) => Some(s@),
        None => None,
    }
}

/// What a [`VolumeDescriptor`] says, as plain sequences of characters.
pub struct VolumeView {
    pub name: Seq<char>,
    pub file_system_kind: Seq<char>,
    pub reported_uuid: Option<Seq<char>>,
    pub mount_point: Option<Seq<char>>,
}

impl View for VolumeDescriptor {
    type V = VolumeView;

    open spec fn view(&self) -> VolumeView {
        VolumeView {
            name: self.name@,
            file_system_kind: self.file_system_kind@,
            reported_uuid: text_of(self.reported_uuid),
            mount_point: text_of(self.mount_point),
        }
    }
}

impl VolumeView {
    /// A volume is mounted when it has a mount point and that is not empty.
    pub open spec fn is_mounted(self) -> bool {
        self.mount_point is Some && self.mount_point->0.len() > 0
    }
}

/// A copy of an optional text.
pub fn copy_text(t: &Option<String>) -> (r: Option<String>)
    ensures
        text_of(r) == text_of(*t),
{
    match t {
        Some(s) => Some(s.clone()),
        None => None,
    }
}

impl VolumeDescriptor {
    /// Whether this volume has a mount point that is not empty.
    pub fn is_mounted(&self) -> (r: bool)
        ensures
            r == self@.is_mounted(),
    {
        match &self.mount_point {
            Some(mp) => !mp.as_str().is_empty(),
            None => false,
        }
    }

    /// A copy that says the same as `self`.
    pub fn duplicate(&self) -> (r: VolumeDescriptor)
        ensures
            r@ == self@,
    {
        VolumeDescriptor {
            name: self.name.clone(),
            file_system_kind: self.file_system_kind.clone(),
            reported_uuid: copy_text(&self.reported_uuid),
            mount_point: copy_text(&self.mount_point),
        }
    }
}

/// The mounted volumes among `volumes`, in order.
pub open spec fn mounted_volumes(volumes: Seq<VolumeDescriptor>) -> Seq<VolumeView>
    decreases volumes.len(),
{
    if volumes.len() == 0 {
        Seq::empty()
    } else {
        let before = mounted_volumes(volumes.drop_last());
        if volumes.last()@.is_mounted() {
            before.push(volumes.last()@)
        } else {
            before
        }
    }
}

/// The mounted volumes on `media`, unit by unit.
pub open spec fn media_volumes(media: Seq<MediaUnit>) -> Seq<VolumeView>
    decreases media.len(),
{
    if media.len() == 0 {
        Seq::empty()
    } else {
        media_volumes(media.drop_last()) + mounted_volumes(media.last().volumes@)
    }
}

/// The mounted volumes below `node`, at any depth: those on its own media
/// first, then those of its children in order.
pub open spec fn node_volumes(node: DeviceTreeNode) -> Seq<VolumeView>
    decreases node,
{
    media_volumes(node.media_units@) + forest_volumes(node.children@)
}

/// The mounted volumes below `nodes`, node by node.
pub open spec fn forest_volumes(nodes: Seq<DeviceTreeNode>) -> Seq<VolumeView>
    decreases nodes,
{
    if nodes.len() == 0 {
        Seq::empty()
    } else {
        forest_volumes(nodes.drop_last()) + node_volumes(nodes.last())
    }
}

/// Whether one of the media units holds a volume that says `volume`.
pub open spec fn media_hold(media: Seq<MediaUnit>, volume: VolumeView) -> bool {
    exists|m: int, k: int|
        0 <= m < media.len() && 0 <= k < media[m].volumes@.len()
            && (#[trigger] media[m].volumes@[k])@ == volume
}

/// Whether a volume that says `volume` is found at `node` or anywhere below it.
pub open spec fn node_holds(node: DeviceTreeNode, volume: VolumeView) -> bool
    decreases node,
{
    media_hold(node.media_units@, volume) || forest_holds(node.children@, volume)
}

/// Whether a volume that says `volume` is found at or below one of `nodes`.
pub open spec fn forest_holds(nodes: Seq<DeviceTreeNode>, volume: VolumeView) -> bool
    decreases nodes,
{
    if nodes.len() == 0 {
        false
    } else {
        forest_holds(nodes.drop_last(), volume) || node_holds(nodes.last(), volume)
    }
}

/// The walk keeps exactly the mounted volumes of a list.
pub proof fn lemma_mounted_volumes(volumes: Seq<VolumeDescriptor>, volume: VolumeView)
    ensures
        mounted_volumes(volumes).contains(volume) <==> volume.is_mounted() && exists|k: int|
            0 <= k < volumes.len() && (#[trigger] volumes[k])@ == volume,
    decreases volumes.len(),
{
    if volumes.len() > 0 {
        let before = volumes.drop_last();
        lemma_mounted_volumes(before, volume);
        let walked = mounted_volumes(volumes);
        if walked.contains(volume) {
            let i = choose|i: int| 0 <= i < walked.len() && walked[i] == volume;
            if volumes.last()@.is_mounted() && i == walked.len() - 1 {
                assert(volumes[volumes.len() - 1]@ == volume);
            } else {
                assert(mounted_volumes(before)[i] == volume);
                let k = choose|k: int| 0 <= k < before.len() && (#[trigger] before[k])@ == volume;
                assert(volumes[k]@ == volume);
            }
        }
        if volume.is_mounted() && exists|k: int|
            0 <= k < volumes.len() && (#[trigger] volumes[k])@ == volume {
            let k = choose|k: int| 0 <= k < volumes.len() && (#[trigger] volumes[k])@ == volume;
            if k == volumes.len() - 1 {
                assert(walked.last() == volume);
            } else {
                assert(before[k]@ == volume);
                let i = choose|i: int|
                    0 <= i < mounted_volumes(before).len() && mounted_volumes(before)[i] == volume;
                assert(walked[i] == volume);
            }
        }
    }
}

/// The walk over media keeps exactly the mounted volumes that the media hold.
pub proof fn lemma_media_volumes(media: Seq<MediaUnit>, volume: VolumeView)
    ensures
        media_volumes(media).contains(volume) <==> volume.is_mounted() && media_hold(media, volume),
    decreases media.len(),
{
    if media.len() > 0 {
        let before = media.drop_last();
        let unit = media.last();
        lemma_media_volumes(before, volume);
        lemma_mounted_volumes(unit.volumes@, volume);
        lemma_concat_contains(media_volumes(before), mounted_volumes(unit.volumes@), volume);
        if media_hold(before, volume) {
            let (m, k) = choose|m: int, k: int|
                0 <= m < before.len() && 0 <= k < before[m].volumes@.len()
                    && (#[trigger] before[m].volumes@[k])@ == volume;
            assert(media[m].volumes@[k]@ == volume);
        }
        if exists|k: int| 0 <= k < unit.volumes@.len() && (#[trigger] unit.volumes@[k])@ == volume {
            let k = choose|k: int|
                0 <= k < unit.volumes@.len() && (#[trigger] unit.volumes@[k])@ == volume;
            assert(media[media.len() - 1].volumes@[k]@ == volume);
        }
        if media_hold(media, volume) {
            let (m, k) = choose|m: int, k: int|
                0 <= m < media.len() && 0 <= k < media[m].volumes@.len()
                    && (#[trigger] media[m].volumes@[k])@ == volume;
            if m == media.len() - 1 {
                assert(unit.volumes@[k]@ == volume);
            } else {
                assert(before[m].volumes@[k]@ == volume);
            }
        }
    }
}

/// An element of `a + b` is an element of `a` or of `b`.
pub proof fn lemma_concat_contains<T>(a: Seq<T>, b: Seq<T>, x: T)
    ensures
        (a + b).contains(x) <==> a.contains(x) || b.contains(x),
{
    if a.contains(x) {
        let i = choose|i: int| 0 <= i < a.len() && a[i] == x;
        assert((a + b)[i] == x);
    }
    if b.contains(x) {
        let i = choose|i: int| 0 <= i < b.len() && b[i] == x;
        assert((a + b)[a.len() + i] == x);
    }
    if (a + b).contains(x) {
        let i = choose|i: int| 0 <= i < (a + b).len() && (a + b)[i] == x;
        if i < a.len() {
            assert(a[i] == x);
        } else {
            assert(b[i - a.len()] == x);
        }
    }
}

/// The walk below a node keeps exactly the mounted volumes found at the node
/// or below it, at whatever depth.
pub proof fn lemma_node_volumes(node: DeviceTreeNode, volume: VolumeView)
    ensures
        node_volumes(node).contains(volume) <==> volume.is_mounted() && node_holds(node, volume),
    decreases node,
{
    lemma_media_volumes(node.media_units@, volume);
    lemma_forest_volumes(node.children@, volume);
    lemma_concat_contains(
        media_volumes(node.media_units@),
        forest_volumes(node.children@),
        volume,
    );
}

/// The walk below a list of nodes keeps exactly the mounted volumes found at
/// or below one of them, at whatever depth.
pub proof fn lemma_forest_volumes(nodes: Seq<DeviceTreeNode>, volume: VolumeView)
    ensures
        forest_volumes(nodes).contains(volume) <==> volume.is_mounted() && forest_holds(
            nodes,
            volume,
        ),
    decreases nodes,
{
    if nodes.len() > 0 {
        lemma_forest_volumes(nodes.drop_last(), volume);
        lemma_node_volumes(nodes.last(), volume);
        lemma_concat_contains(
            forest_volumes(nodes.drop_last()),
            node_volumes(nodes.last()),
            volume,
        );
    }
}

/// What a list of volumes says, as plain values.
pub open spec fn volumes_view(volumes: Seq<VolumeDescriptor>) -> Seq<VolumeView> {
    Seq::new(volumes.len(), |i: int| volumes[i]@)
}

/// Every volume on `media`, mounted or not, unit by unit.
pub open spec fn media_listing(media: Seq<MediaUnit>) -> Seq<VolumeView>
    decreases media.len(),
{
    if media.len() == 0 {
        Seq::empty()
    } else {
        media_listing(media.drop_last()) + volumes_view(media.last().volumes@)
    }
}

/// Every volume at `node` or below it, mounted or not: those on its own
/// media first, then those of its children in order.
pub open spec fn node_listing(node: DeviceTreeNode) -> Seq<VolumeView>
    decreases node,
{
    media_listing(node.media_units@) + forest_listing(node.children@)
}

/// Every volume at or below `nodes`, mounted or not, node by node.
pub open spec fn forest_listing(nodes: Seq<DeviceTreeNode>) -> Seq<VolumeView>
    decreases nodes,
{
    if nodes.len() == 0 {
        Seq::empty()
    } else {
        forest_listing(nodes.drop_last()) + node_listing(nodes.last())
    }
}

} // verus!
