//! The lookup from mount point to volume descriptor, filled by walking the
//! bus topology.

use vstd::prelude::*;
use vstd::hash_map::StringHashMap;
use crate::topology::{
    forest_holds, forest_volumes, lemma_forest_volumes, media_volumes, mounted_volumes,
    node_volumes, DeviceTreeNode, MediaUnit, VolumeDescriptor, VolumeView,
};

verus! {

/// The mapping that results from entering `volumes` into `start` one after
/// the other, each under its mount point. Where two volumes claim one mount
/// point, the later one stays.
pub open spec fn with_volumes(
    start: Map<Seq<char>, VolumeView>,
    volumes: Seq<VolumeView>,
) -> Map<Seq<char>, VolumeView>
    decreases volumes.len(),
{
    if volumes.len() == 0 {
        start
    } else {
        with_volumes(start, volumes.drop_last()).insert(
            volumes.last().mount_point->0,
            volumes.last(),
        )
    }
}

/// Mount point to volume descriptor, for the mounted volumes of a topology.
pub struct MountIndex {
    entries: StringHashMap<VolumeDescriptor>,
}

impl View for MountIndex {
    type V = Map<Seq<char>, VolumeView>;

    closed spec fn view(&self) -> Map<Seq<char>, VolumeView> {
        self.entries@.map_values(|d: VolumeDescriptor| d@)
    }
}

impl MountIndex {
    /// An index without entries.
    pub fn new() -> (index: MountIndex)
        ensures
            index@ == Map::<Seq<char>, VolumeView>::empty(),
    {
        let index = MountIndex { entries: StringHashMap::new() };
        assert(index@ =~= Map::<Seq<char>, VolumeView>::empty());
        index
    }

    /// Enters `volume` under `mount_point`, in place of what was there.
    pub fn insert(&mut self, mount_point: String, volume: VolumeDescriptor)
        ensures
            final(self)@ == old(self)@.insert(mount_point@, volume@),
    {
        self.entries.insert(mount_point, volume);
        assert(self@ =~= old(self)@.insert(mount_point@, volume@));
    }

    /// Whether a volume is entered under `mount_point`.
    pub fn contains(&self, mount_point: &str) -> (r: bool)
        ensures
            r == self@.contains_key(mount_point@),
    {
        self.entries.contains_key(mount_point)
    }

    /// The volume entered under `mount_point`, if there is one.
    pub fn get(&self, mount_point: &str) -> (r: Option<&VolumeDescriptor>)
        ensures
            r is Some <==> self@.contains_key(mount_point@),
            r is Some ==> r->0@ == self@[mount_point@],
    {
        self.entries.get(mount_point)
    }

    /// The number of mount points entered.
    pub fn len(&self) -> (n: usize)
        ensures
            n == self@.len(),
    {
        broadcast use vstd::hash_map::group_hash_map_axioms;
        proof {
            lemma_view_domain(self.entries@);
        }
        self.entries.len()
    }
}

/// Entering `a + b` is entering `a`, then `b`.
pub proof fn lemma_with_volumes_concat(
    start: Map<Seq<char>, VolumeView>,
    a: Seq<VolumeView>,
    b: Seq<VolumeView>,
)
    ensures
        with_volumes(start, a + b) == with_volumes(with_volumes(start, a), b),
    decreases b.len(),
{
    if b.len() == 0 {
        assert(a + b =~= a);
    } else {
        assert((a + b).drop_last() =~= a + b.drop_last());
        assert((a + b).last() == b.last());
        lemma_with_volumes_concat(start, a, b.drop_last());
    }
}

/// Enters the mounted volumes among `volumes` into `index`, in order.
pub fn collect_volumes(volumes: &Vec<VolumeDescriptor>, index: &mut MountIndex)
    ensures
        final(index)@ == with_volumes(old(index)@, mounted_volumes(volumes@)),
{
    let mut i: usize = 0;
    while i < volumes.len()
        invariant
            i <= volumes.len(),
            index@ == with_volumes(old(index)@, mounted_volumes(volumes@.take(i as int))),
        decreases volumes.len() - i,
    {
        let volume = &volumes[i];
        proof {
            let before = mounted_volumes(volumes@.take(i as int));
            assert(volumes@.take(i + 1).drop_last() =~= volumes@.take(i as int));
            assert(volumes@.take(i + 1).last() == volumes@[i as int]);
            assert(before.push(volume@).drop_last() =~= before);
        }
        if volume.is_mounted() {
            match &volume.mount_point {
                Some(mount_point) => {
                    index.insert(mount_point.clone(), volume.duplicate());
                },
                None => {},
            }
        }
        i += 1;
    }
    proof {
        assert(volumes@.take(volumes.len() as int) =~= volumes@);
    }
}

/// Enters the mounted volumes on `media` into `index`, unit by unit.
pub fn collect_media(media: &Vec<MediaUnit>, index: &mut MountIndex)
    ensures
        final(index)@ == with_volumes(old(index)@, media_volumes(media@)),
{
    let mut i: usize = 0;
    while i < media.len()
        invariant
            i <= media.len(),
            index@ == with_volumes(old(index)@, media_volumes(media@.take(i as int))),
        decreases media.len() - i,
    {
        proof {
            assert(media@.take(i + 1).drop_last() =~= media@.take(i as int));
            assert(media@.take(i + 1).last() == media@[i as int]);
            lemma_with_volumes_concat(
                old(index)@,
                media_volumes(media@.take(i as int)),
                mounted_volumes(media@[i as int].volumes@),
            );
        }
        collect_volumes(&media[i].volumes, index);
        i += 1;
    }
    proof {
        assert(media@.take(media.len() as int) =~= media@);
    }
}

/// Walks the topology below `nodes` and enters every mounted volume into
/// `index` under its mount point, whatever its depth: for each node the
/// volumes on its own media, then those below its children.
pub fn collect_usb_mount_points(nodes: &Vec<DeviceTreeNode>, index: &mut MountIndex)
    ensures
        final(index)@ == with_volumes(old(index)@, forest_volumes(nodes@)),
    decreases nodes,
{
    let mut i: usize = 0;
    while i < nodes.len()
        invariant
            i <= nodes.len(),
            index@ == with_volumes(old(index)@, forest_volumes(nodes@.take(i as int))),
        decreases nodes.len() - i,
    {
        let node = &nodes[i];
        proof {
            assert(nodes@.take(i + 1).drop_last() =~= nodes@.take(i as int));
            assert(nodes@.take(i + 1).last() == nodes@[i as int]);
            lemma_with_volumes_concat(
                with_volumes(old(index)@, forest_volumes(nodes@.take(i as int))),
                media_volumes(node.media_units@),
                forest_volumes(node.children@),
            );
            lemma_with_volumes_concat(
                old(index)@,
                forest_volumes(nodes@.take(i as int)),
                node_volumes(*node),
            );
        }
        collect_media(&node.media_units, index);
        collect_usb_mount_points(&node.children, index);
        i += 1;
    }
    proof {
        assert(nodes@.take(nodes.len() as int) =~= nodes@);
    }
}

proof fn lemma_view_domain(m: Map<Seq<char>, VolumeDescriptor>)
    ensures
        m.map_values(|d: VolumeDescriptor| d@).dom() == m.dom(),
{
    assert(m.map_values(|d: VolumeDescriptor| d@).dom() =~= m.dom());
}

/// No two of `volumes` claim the same mount point.
pub open spec fn distinct_mount_points(volumes: Seq<VolumeView>) -> bool {
    forall|i: int, j: int|
        0 <= i < j < volumes.len() ==> (#[trigger] volumes[i]).mount_point != (
        #[trigger] volumes[j]).mount_point
}

/// Every one of `volumes` is mounted.
pub open spec fn all_mounted(volumes: Seq<VolumeView>) -> bool {
    forall|i: int| 0 <= i < volumes.len() ==> (#[trigger] volumes[i]).is_mounted()
}

/// Entering volumes changes nothing under a mount point that none of them claims.
pub proof fn lemma_other_mount_points_stay(
    start: Map<Seq<char>, VolumeView>,
    volumes: Seq<VolumeView>,
    mount_point: Seq<char>,
)
    requires
        forall|i: int| 0 <= i < volumes.len() ==> (#[trigger] volumes[i]).mount_point != Some(
            mount_point,
        ),
        all_mounted(volumes),
    ensures
        with_volumes(start, volumes).contains_key(mount_point) == start.contains_key(mount_point),
        start.contains_key(mount_point) ==> with_volumes(start, volumes)[mount_point]
            == start[mount_point],
    decreases volumes.len(),
{
    if volumes.len() > 0 {
        let before = volumes.drop_last();
        assert forall|i: int| 0 <= i < before.len() implies (#[trigger] before[i]).mount_point
            != Some(mount_point) by {
            assert(before[i] == volumes[i]);
        }
        assert forall|i: int| 0 <= i < before.len() implies (#[trigger] before[i]).is_mounted() by {
            assert(before[i] == volumes[i]);
        }
        lemma_other_mount_points_stay(start, before, mount_point);
        assert(volumes[volumes.len() - 1].is_mounted());
        assert(volumes.last().mount_point != Some(mount_point));
    }
}

/// Last write wins: under the mount point of `volumes[i]` stands the last of
/// `volumes` that claims that mount point.
pub proof fn lemma_last_claim_stays(
    start: Map<Seq<char>, VolumeView>,
    volumes: Seq<VolumeView>,
    i: int,
)
    requires
        0 <= i < volumes.len(),
        all_mounted(volumes),
        forall|j: int| i < j < volumes.len() ==> (#[trigger] volumes[j]).mount_point
            != volumes[i].mount_point,
    ensures
        with_volumes(start, volumes).contains_key(volumes[i].mount_point->0),
        with_volumes(start, volumes)[volumes[i].mount_point->0] == volumes[i],
    decreases volumes.len(),
{
    let before = volumes.drop_last();
    assert(volumes[i].is_mounted());
    if i < volumes.len() - 1 {
        assert forall|j: int| 0 <= j < before.len() implies (#[trigger] before[j]).is_mounted() by {
            assert(before[j] == volumes[j]);
        }
        assert forall|j: int| i < j < before.len() implies (#[trigger] before[j]).mount_point
            != before[i].mount_point by {
            assert(before[j] == volumes[j]);
        }
        lemma_last_claim_stays(start, before, i);
        assert(volumes[volumes.len() - 1].is_mounted());
        assert(volumes.last().mount_point != volumes[i].mount_point);
    }
}

/// Every mounted volume is found again: its mount point is entered, whatever
/// the order of the walk.
pub proof fn lemma_every_volume_is_entered(
    start: Map<Seq<char>, VolumeView>,
    volumes: Seq<VolumeView>,
    i: int,
)
    requires
        0 <= i < volumes.len(),
        all_mounted(volumes),
    ensures
        with_volumes(start, volumes).contains_key(volumes[i].mount_point->0),
    decreases volumes.len(),
{
    let before = volumes.drop_last();
    if i < volumes.len() - 1 {
        assert forall|j: int| 0 <= j < before.len() implies (#[trigger] before[j]).is_mounted() by {
            assert(before[j] == volumes[j]);
        }
        lemma_every_volume_is_entered(start, before, i);
    }
}

/// Whatever is entered was there at the start or is one of the volumes.
pub proof fn lemma_entries_are_volumes(
    start: Map<Seq<char>, VolumeView>,
    volumes: Seq<VolumeView>,
    mount_point: Seq<char>,
)
    requires
        with_volumes(start, volumes).contains_key(mount_point),
    ensures
        (start.contains_key(mount_point) && with_volumes(start, volumes)[mount_point]
            == start[mount_point]) || (exists|i: int|
            0 <= i < volumes.len() && (#[trigger] volumes[i]).mount_point->0 == mount_point
                && with_volumes(start, volumes)[mount_point] == volumes[i]),
    decreases volumes.len(),
{
    if volumes.len() > 0 {
        let before = volumes.drop_last();
        let last = volumes.last();
        if last.mount_point->0 == mount_point {
            assert(volumes[volumes.len() - 1].mount_point->0 == mount_point);
        } else {
            lemma_entries_are_volumes(start, before, mount_point);
            if !(start.contains_key(mount_point) && with_volumes(start, before)[mount_point]
                == start[mount_point]) {
                let i = choose|i: int|
                    0 <= i < before.len() && (#[trigger] before[i]).mount_point->0 == mount_point
                        && with_volumes(start, before)[mount_point] == before[i];
                assert(volumes[i] == before[i]);
            }
        }
    }
}

/// Where no two volumes claim one mount point, the order of the walk does not
/// matter: two walks that meet the same volumes give the same mapping.
pub proof fn lemma_order_does_not_matter(
    start: Map<Seq<char>, VolumeView>,
    a: Seq<VolumeView>,
    b: Seq<VolumeView>,
)
    requires
        all_mounted(a),
        distinct_mount_points(a),
        distinct_mount_points(b),
        forall|x: VolumeView| a.contains(x) <==> b.contains(x),
    ensures
        with_volumes(start, a) == with_volumes(start, b),
{
    assert forall|j: int| 0 <= j < b.len() implies (#[trigger] b[j]).is_mounted() by {
        assert(b.contains(b[j]));
        let i = choose|i: int| 0 <= i < a.len() && a[i] == b[j];
        assert(a[i].is_mounted());
    }
    let ma = with_volumes(start, a);
    let mb = with_volumes(start, b);
    assert forall|k: Seq<char>|
        (#[trigger] ma.dom().contains(k)) == mb.dom().contains(k) && (ma.dom().contains(k)
            ==> ma[k] == mb[k]) by {
        if exists|i: int| 0 <= i < a.len() && (#[trigger] a[i]).mount_point == Some(k) {
            let i = choose|i: int| 0 <= i < a.len() && (#[trigger] a[i]).mount_point == Some(k);
            assert(a.contains(a[i]));
            let j = choose|j: int| 0 <= j < b.len() && b[j] == a[i];
            lemma_last_claim_stays(start, a, i);
            lemma_last_claim_stays(start, b, j);
        } else {
            assert forall|j: int| 0 <= j < b.len() implies (#[trigger] b[j]).mount_point != Some(
                k,
            ) by {
                assert(b.contains(b[j]));
                let i = choose|i: int| 0 <= i < a.len() && a[i] == b[j];
                assert(a[i].mount_point != Some(k));
            }
            lemma_other_mount_points_stay(start, a, k);
            lemma_other_mount_points_stay(start, b, k);
        }
    }
    assert(ma =~= mb);
}

/// The mapping that walking the topology below `nodes` gives, starting from
/// an empty index.
pub open spec fn flattened(nodes: Seq<DeviceTreeNode>) -> Map<Seq<char>, VolumeView> {
    with_volumes(Map::empty(), forest_volumes(nodes))
}

/// The walk meets mounted volumes only.
pub proof fn lemma_walk_meets_mounted_only(nodes: Seq<DeviceTreeNode>)
    ensures
        all_mounted(forest_volumes(nodes)),
{
    let walked = forest_volumes(nodes);
    assert forall|i: int| 0 <= i < walked.len() implies (#[trigger] walked[i]).is_mounted() by {
        assert(walked.contains(walked[i]));
        lemma_forest_volumes(nodes, walked[i]);
    }
}

/// Flattening finds every mounted volume of the topology, at whatever depth
/// it stands: its mount point is in the mapping. Where no other volume claims
/// that mount point, the mapping holds the volume itself under it.
pub proof fn lemma_flattening_finds_every_volume(nodes: Seq<DeviceTreeNode>, volume: VolumeView)
    requires
        forest_holds(nodes, volume),
        volume.is_mounted(),
    ensures
        flattened(nodes).contains_key(volume.mount_point->0),
        distinct_mount_points(forest_volumes(nodes)) ==> flattened(nodes)[volume.mount_point->0]
            == volume,
{
    let walked = forest_volumes(nodes);
    lemma_forest_volumes(nodes, volume);
    lemma_walk_meets_mounted_only(nodes);
    let i = choose|i: int| 0 <= i < walked.len() && walked[i] == volume;
    lemma_every_volume_is_entered(Map::empty(), walked, i);
    if distinct_mount_points(walked) {
        lemma_last_claim_stays(Map::empty(), walked, i);
    }
}

/// Whatever the flattened mapping holds under a mount point is a mounted
/// volume of the topology with that mount point: a volume without a mount
/// point, or with an empty one, is never entered.
pub proof fn lemma_flattened_entries_are_mounted(
    nodes: Seq<DeviceTreeNode>,
    mount_point: Seq<char>,
)
    requires
        flattened(nodes).contains_key(mount_point),
    ensures
        flattened(nodes)[mount_point].is_mounted(),
        flattened(nodes)[mount_point].mount_point == Some(mount_point),
        forest_holds(nodes, flattened(nodes)[mount_point]),
{
    let walked = forest_volumes(nodes);
    lemma_entries_are_volumes(Map::empty(), walked, mount_point);
    lemma_walk_meets_mounted_only(nodes);
    let i = choose|i: int|
        0 <= i < walked.len() && (#[trigger] walked[i]).mount_point->0 == mount_point
            && flattened(nodes)[mount_point] == walked[i];
    assert(walked[i].is_mounted());
    assert(walked.contains(walked[i]));
    lemma_forest_volumes(nodes, walked[i]);
}

} // verus!
