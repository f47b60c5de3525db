//! The report renderer: the reconciled volumes, and the bus topology, as
//! lines of text. Pure formatting; nothing is decided here.

use vstd::prelude::*;
use vstd::string::StringExecFns;
use crate::mounts::{ReconciledVolume, ReconciledView};
use crate::resolver::texts_view;
use crate::topology::{
    forest_listing, media_listing, node_listing, text_of, DeviceTreeNode, MediaUnit, VolumeDescriptor,
    VolumeView,
};

verus! {

/// The line that separates one entry of a report from the next.
pub const RULE: &'static str = "--------------------------------------------------";

/// The first line of the storage report.
pub const STORAGE_HEADING: &'static str = "Listing all storage devices and partitions:";

/// What stands in place of an identifier where a volume has none.
pub const NOT_AVAILABLE: &'static str = "N/A";

/// The character for a single decimal digit.
pub open spec fn digit_char(d: nat) -> char {
    if d == 0 {
        '0'
    } else if d == 1 {
        '1'
    } else if d == 2 {
        '2'
    } else if d == 3 {
        '3'
    } else if d == 4 {
        '4'
    } else if d == 5 {
        '5'
    } else if d == 6 {
        '6'
    } else if d == 7 {
        '7'
    } else if d == 8 {
        '8'
    } else {
        '9'
    }
}

/// A number in decimal notation, without sign or leading zeros.
pub open spec fn decimal(n: nat) -> Seq<char>
    decreases n,
{
    if n < 10 {
        seq![digit_char(n)]
    } else {
        decimal(n / 10).push(digit_char(n % 10))
    }
}

/// The text of a single decimal digit.
fn digit_text(d: u64) -> (text: &'static str)
    requires
        d < 10,
    ensures
        text@ == seq![digit_char(d as nat)],
{
    proof {
        reveal_strlit("0");
        reveal_strlit("1");
        reveal_strlit("2");
        reveal_strlit("3");
        reveal_strlit("4");
        reveal_strlit("5");
        reveal_strlit("6");
        reveal_strlit("7");
        reveal_strlit("8");
        reveal_strlit("9");
    }
    let text = if d == 0 {
        "0"
    } else if d == 1 {
        "1"
    } else if d == 2 {
        "2"
    } else if d == 3 {
        "3"
    } else if d == 4 {
        "4"
    } else if d == 5 {
        "5"
    } else if d == 6 {
        "6"
    } else if d == 7 {
        "7"
    } else if d == 8 {
        "8"
    } else {
        "9"
    };
    assert(text@ =~= seq![digit_char(d as nat)]);
    text
}

/// Writes a number in decimal notation.
pub fn decimal_text(n: u64) -> (text: String)
    ensures
        text@ == decimal(n as nat),
    decreases n,
{
    if n < 10 {
        String::from_str(digit_text(n))
    } else {
        let mut text = decimal_text(n / 10);
        text.append(digit_text(n % 10));
        assert(text@ =~= decimal(n as nat));
        text
    }
}

/// `a` followed by `b`.
pub fn joined(a: &str, b: &str) -> (text: String)
    ensures
        text@ == a@ + b@,
{
    let mut text = String::from_str(a);
    text.append(b);
    text
}

/// `a` followed by `b` and `c`.
pub fn joined3(a: &str, b: &str, c: &str) -> (text: String)
    ensures
        text@ == a@ + b@ + c@,
{
    let mut text = String::from_str(a);
    text.append(b);
    text.append(c);
    text
}

/// What a list of lines says, as plain values.
pub open spec fn lines_view(lines: Seq<String>) -> Seq<Seq<char>> {
    Seq::new(lines.len(), |i: int| lines[i]@)
}

/// The text that stands for a volume's identifier in a report.
pub open spec fn identifier_text(shown: Option<Seq<char>>) -> Seq<char> {
    match shown {
        Some(text) => text,
        None => NOT_AVAILABLE@,
    }
}

/// The lines of the storage report for one volume.
pub open spec fn volume_lines(volume: ReconciledView) -> Seq<Seq<char>> {
    seq![
        RULE@,
        "  Device: "@ + volume.mount.device_label,
        "  Type: "@ + volume.mount.kind,
        "  File system: "@ + volume.mount.file_system_kind,
        "  Mount point: "@ + volume.mount.mount_point,
        "  Total space: "@ + decimal(volume.mount.total_bytes as nat) + " bytes"@,
        "  Available space: "@ + decimal(volume.mount.available_bytes as nat) + " bytes"@,
        "  UUID: "@ + identifier_text(volume.display_uuid),
    ]
}

/// The lines of the storage report for a list of volumes, one after the other.
pub open spec fn volumes_lines(volumes: Seq<ReconciledVolume>) -> Seq<Seq<char>>
    decreases volumes.len(),
{
    if volumes.len() == 0 {
        Seq::empty()
    } else {
        volumes_lines(volumes.drop_last()) + volume_lines(volumes.last()@)
    }
}

/// The storage report: its heading, then every volume in order.
pub open spec fn storage_report(volumes: Seq<ReconciledVolume>) -> Seq<Seq<char>> {
    seq![STORAGE_HEADING@] + volumes_lines(volumes)
}

/// Appends the lines of the storage report for one volume.
pub fn render_volume(volume: &ReconciledVolume, lines: &mut Vec<String>)
    ensures
        lines_view(final(lines)@) == lines_view(old(lines)@) + volume_lines(volume@),
{
    let ghost before = lines_view(lines@);
    let mount = volume.mount();
    let total = decimal_text(mount.total_bytes);
    let available = decimal_text(mount.available_bytes);
    let identifier = match volume.display_uuid() {
        Some(text) => text,
        None => NOT_AVAILABLE,
    };
    lines.push(String::from_str(RULE));
    lines.push(joined("  Device: ", mount.device_label.as_str()));
    lines.push(joined("  Type: ", mount.kind.as_str()));
    lines.push(joined("  File system: ", mount.file_system_kind.as_str()));
    lines.push(joined("  Mount point: ", mount.mount_point.as_str()));
    lines.push(joined3("  Total space: ", total.as_str(), " bytes"));
    lines.push(joined3("  Available space: ", available.as_str(), " bytes"));
    lines.push(joined("  UUID: ", identifier));
    assert(lines_view(lines@) =~= before + volume_lines(volume@));
}

/// Renders the storage report.
pub fn render_storage_report(volumes: &Vec<ReconciledVolume>) -> (lines: Vec<String>)
    ensures
        lines_view(lines@) == storage_report(volumes@),
{
    let mut lines: Vec<String> = Vec::new();
    lines.push(String::from_str(STORAGE_HEADING));
    assert(lines_view(lines@) =~= seq![STORAGE_HEADING@]);
    let mut i: usize = 0;
    while i < volumes.len()
        invariant
            i <= volumes.len(),
            lines_view(lines@) == seq![STORAGE_HEADING@] + volumes_lines(volumes@.take(i as int)),
        decreases volumes.len() - i,
    {
        proof {
            assert(volumes@.take(i + 1).drop_last() =~= volumes@.take(i as int));
            assert(volumes@.take(i + 1).last() == volumes@[i as int]);
        }
        render_volume(&volumes[i], &mut lines);
        i += 1;
    }
    proof {
        assert(volumes@.take(volumes.len() as int) =~= volumes@);
    }
    lines
}

/// What is shown for the volume at `position` of the walk; nothing where
/// `shown` does not reach that far.
pub open spec fn shown_at(shown: Seq<Option<Seq<char>>>, position: int) -> Option<Seq<char>> {
    if 0 <= position < shown.len() {
        shown[position]
    } else {
        None
    }
}

/// The lines for the only volume of a storage unit.
pub open spec fn sole_volume_lines(volume: VolumeView, shown: Option<Seq<char>>) -> Seq<Seq<char>> {
    seq![
        "  File System: "@ + volume.file_system_kind,
        "  Volume UUID: "@ + identifier_text(shown),
    ]
}

/// The lines for one of several volumes of a storage unit, `number` counting
/// from one.
pub open spec fn partition_lines(
    volume: VolumeView,
    number: nat,
    shown: Option<Seq<char>>,
) -> Seq<Seq<char>> {
    seq![
        "  - Partition "@ + decimal(number) + ":"@,
        "      Name: "@ + volume.name,
        "      File System: "@ + volume.file_system_kind,
        "      Volume UUID: "@ + identifier_text(shown),
    ]
}

/// The lines for the volumes of a storage unit that has none or several,
/// the first of them standing at `position` of the walk.
pub open spec fn partitions_lines(
    volumes: Seq<VolumeDescriptor>,
    shown: Seq<Option<Seq<char>>>,
    position: int,
) -> Seq<Seq<char>>
    decreases volumes.len(),
{
    if volumes.len() == 0 {
        Seq::empty()
    } else {
        partitions_lines(volumes.drop_last(), shown, position) + partition_lines(
            volumes.last()@,
            volumes.len(),
            shown_at(shown, position + volumes.len() - 1),
        )
    }
}

/// The lines for one storage unit: its size, the number of its volumes, and
/// the volumes. A unit with exactly one volume shows it without a number.
pub open spec fn unit_lines(
    unit: MediaUnit,
    shown: Seq<Option<Seq<char>>>,
    position: int,
) -> Seq<Seq<char>> {
    seq![
        "  Size: "@ + decimal(unit.size_bytes as nat) + " bytes"@,
        "  Partitions: "@ + decimal(unit.volumes@.len()),
    ] + if unit.volumes@.len() == 1 {
        sole_volume_lines(unit.volumes@[0]@, shown_at(shown, position))
    } else {
        partitions_lines(unit.volumes@, shown, position)
    }
}

/// The lines for a list of storage units, the first volume of the first
/// standing at `position` of the walk.
pub open spec fn media_lines(
    media: Seq<MediaUnit>,
    shown: Seq<Option<Seq<char>>>,
    position: int,
) -> Seq<Seq<char>>
    decreases media.len(),
{
    if media.len() == 0 {
        Seq::empty()
    } else {
        media_lines(media.drop_last(), shown, position) + unit_lines(
            media.last(),
            shown,
            position + media_listing(media.drop_last()).len(),
        )
    }
}

/// The lines that introduce a device: its name, and its serial number where
/// it has one.
pub open spec fn heading_lines(node: DeviceTreeNode) -> Seq<Seq<char>> {
    seq!["Device: "@ + node.name@] + if text_of(node.serial_number) is Some && text_of(
        node.serial_number,
    )->0.len() > 0 {
        seq!["  Serial Number: "@ + text_of(node.serial_number)->0]
    } else {
        Seq::empty()
    }
}

/// The lines for a node and everything below it: the node itself where it
/// carries media, then its children in order.
pub open spec fn node_lines(
    node: DeviceTreeNode,
    shown: Seq<Option<Seq<char>>>,
    position: int,
) -> Seq<Seq<char>>
    decreases node,
{
    (if node.media_units@.len() > 0 {
        heading_lines(node) + media_lines(node.media_units@, shown, position) + seq![RULE@]
    } else {
        Seq::empty()
    }) + forest_lines(node.children@, shown, position + media_listing(node.media_units@).len())
}

/// The lines for a list of nodes and everything below them.
pub open spec fn forest_lines(
    nodes: Seq<DeviceTreeNode>,
    shown: Seq<Option<Seq<char>>>,
    position: int,
) -> Seq<Seq<char>>
    decreases nodes,
{
    if nodes.len() == 0 {
        Seq::empty()
    } else {
        forest_lines(nodes.drop_last(), shown, position) + node_lines(
            nodes.last(),
            shown,
            position + forest_listing(nodes.drop_last()).len(),
        )
    }
}

/// The topology listing: every device that carries media, with its storage
/// units and volumes, `shown` giving what is shown for each volume in the
/// order of the walk.
pub open spec fn topology_report(
    nodes: Seq<DeviceTreeNode>,
    shown: Seq<Option<Seq<char>>>,
) -> Seq<Seq<char>> {
    forest_lines(nodes, shown, 0)
}

/// Where the walk stands in `shown` when it is at `position`: at `position`,
/// or at the end where `shown` does not reach that far.
pub open spec fn cursor_at(shown: Seq<Option<Seq<char>>>, position: int) -> int {
    if position < shown.len() {
        position
    } else {
        shown.len() as int
    }
}

/// The text for the volume at the cursor.
fn text_at(shown: &Vec<Option<String>>, cursor: usize, Ghost(position): Ghost<int>) -> (text: &str)
    requires
        0 <= position,
        cursor == cursor_at(texts_view(shown@), position),
    ensures
        text@ == identifier_text(shown_at(texts_view(shown@), position)),
{
    if cursor < shown.len() {
        match &shown[cursor] {
            Some(text) => text.as_str(),
            None => NOT_AVAILABLE,
        }
    } else {
        NOT_AVAILABLE
    }
}

/// The cursor one volume further.
fn cursor_after(shown: &Vec<Option<String>>, cursor: usize, Ghost(position): Ghost<int>) -> (next:
    usize)
    requires
        0 <= position,
        cursor == cursor_at(texts_view(shown@), position),
    ensures
        next == cursor_at(texts_view(shown@), position + 1),
{
    if cursor < shown.len() {
        cursor + 1
    } else {
        cursor
    }
}

/// Appends the lines for one storage unit and moves the cursor past its volumes.
fn render_unit(
    unit: &MediaUnit,
    shown: &Vec<Option<String>>,
    cursor: usize,
    Ghost(position): Ghost<int>,
    lines: &mut Vec<String>,
) -> (next: usize)
    requires
        0 <= position,
        cursor == cursor_at(texts_view(shown@), position),
    ensures
        lines_view(final(lines)@) == lines_view(old(lines)@) + unit_lines(
            *unit,
            texts_view(shown@),
            position,
        ),
        next == cursor_at(texts_view(shown@), position + unit.volumes@.len()),
{
    let ghost before = lines_view(lines@);
    let ghost all = texts_view(shown@);
    let size = decimal_text(unit.size_bytes);
    let count = decimal_text(unit.volumes.len() as u64);
    lines.push(joined3("  Size: ", size.as_str(), " bytes"));
    lines.push(joined("  Partitions: ", count.as_str()));
    let ghost head = seq![
        "  Size: "@ + decimal(unit.size_bytes as nat) + " bytes"@,
        "  Partitions: "@ + decimal(unit.volumes@.len()),
    ];
    assert(lines_view(lines@) =~= before + head);
    if unit.volumes.len() == 1 {
        let volume = &unit.volumes[0];
        let identifier = text_at(shown, cursor, Ghost(position));
        lines.push(joined("  File System: ", volume.file_system_kind.as_str()));
        lines.push(joined("  Volume UUID: ", identifier));
        assert(lines_view(lines@) =~= before + unit_lines(*unit, all, position));
        cursor_after(shown, cursor, Ghost(position))
    } else {
        let mut cursor = cursor;
        let mut k: usize = 0;
        assert(lines_view(lines@) =~= before + head + partitions_lines(
            unit.volumes@.take(0),
            all,
            position,
        ));
        while k < unit.volumes.len()
            invariant
                0 <= position,
                k <= unit.volumes.len(),
                all == texts_view(shown@),
                cursor == cursor_at(all, position + k),
                lines_view(lines@) == before + head + partitions_lines(
                    unit.volumes@.take(k as int),
                    all,
                    position,
                ),
            decreases unit.volumes.len() - k,
        {
            let volume = &unit.volumes[k];
            let ghost so_far = lines_view(lines@);
            proof {
                assert(unit.volumes@.take(k + 1).drop_last() =~= unit.volumes@.take(k as int));
                assert(unit.volumes@.take(k + 1).last() == unit.volumes@[k as int]);
            }
            let number = decimal_text((k + 1) as u64);
            let identifier = text_at(shown, cursor, Ghost(position + k));
            lines.push(joined3("  - Partition ", number.as_str(), ":"));
            lines.push(joined("      Name: ", volume.name.as_str()));
            lines.push(joined("      File System: ", volume.file_system_kind.as_str()));
            lines.push(joined("      Volume UUID: ", identifier));
            assert(lines_view(lines@) =~= so_far + partition_lines(
                volume@,
                (k + 1) as nat,
                shown_at(all, position + k),
            ));
            cursor = cursor_after(shown, cursor, Ghost(position + k));
            k += 1;
        }
        proof {
            assert(unit.volumes@.take(unit.volumes.len() as int) =~= unit.volumes@);
        }
        cursor
    }
}

/// Appends the lines for a list of storage units and moves the cursor past
/// their volumes.
fn render_media(
    media: &Vec<MediaUnit>,
    shown: &Vec<Option<String>>,
    cursor: usize,
    Ghost(position): Ghost<int>,
    lines: &mut Vec<String>,
) -> (next: usize)
    requires
        0 <= position,
        cursor == cursor_at(texts_view(shown@), position),
    ensures
        lines_view(final(lines)@) == lines_view(old(lines)@) + media_lines(
            media@,
            texts_view(shown@),
            position,
        ),
        next == cursor_at(texts_view(shown@), position + media_listing(media@).len()),
{
    let ghost before = lines_view(lines@);
    let ghost all = texts_view(shown@);
    let mut cursor = cursor;
    let mut m: usize = 0;
    assert(lines_view(lines@) =~= before + media_lines(media@.take(0), all, position));
    while m < media.len()
        invariant
            0 <= position,
            m <= media.len(),
            all == texts_view(shown@),
            cursor == cursor_at(all, position + media_listing(media@.take(m as int)).len()),
            lines_view(lines@) == before + media_lines(media@.take(m as int), all, position),
        decreases media.len() - m,
    {
        proof {
            assert(media@.take(m + 1).drop_last() =~= media@.take(m as int));
            assert(media@.take(m + 1).last() == media@[m as int]);
        }
        cursor =
        render_unit(
            &media[m],
            shown,
            cursor,
            Ghost(position + media_listing(media@.take(m as int)).len()),
            lines,
        );
        m += 1;
    }
    proof {
        assert(media@.take(media.len() as int) =~= media@);
    }
    cursor
}

/// Appends the lines for a list of nodes and everything below them, and
/// moves the cursor past their volumes.
fn render_forest(
    nodes: &Vec<DeviceTreeNode>,
    shown: &Vec<Option<String>>,
    cursor: usize,
    Ghost(position): Ghost<int>,
    lines: &mut Vec<String>,
) -> (next: usize)
    requires
        0 <= position,
        cursor == cursor_at(texts_view(shown@), position),
    ensures
        lines_view(final(lines)@) == lines_view(old(lines)@) + forest_lines(
            nodes@,
            texts_view(shown@),
            position,
        ),
        next == cursor_at(texts_view(shown@), position + forest_listing(nodes@).len()),
    decreases nodes,
{
    let ghost before = lines_view(lines@);
    let ghost all = texts_view(shown@);
    let mut cursor = cursor;
    let mut i: usize = 0;
    assert(lines_view(lines@) =~= before + forest_lines(nodes@.take(0), all, position));
    while i < nodes.len()
        invariant
            0 <= position,
            i <= nodes.len(),
            all == texts_view(shown@),
            cursor == cursor_at(all, position + forest_listing(nodes@.take(i as int)).len()),
            lines_view(lines@) == before + forest_lines(nodes@.take(i as int), all, position),
        decreases nodes.len() - i,
    {
        let node = &nodes[i];
        let ghost so_far = lines_view(lines@);
        let ghost here = position + forest_listing(nodes@.take(i as int)).len();
        proof {
            assert(nodes@.take(i + 1).drop_last() =~= nodes@.take(i as int));
            assert(nodes@.take(i + 1).last() == nodes@[i as int]);
        }
        if node.media_units.len() > 0 {
            lines.push(joined("Device: ", node.name.as_str()));
            match &node.serial_number {
                Some(serial) => {
                    if !serial.as_str().is_empty() {
                        lines.push(joined("  Serial Number: ", serial.as_str()));
                    }
                },
                None => {},
            }
            assert(lines_view(lines@) =~= so_far + heading_lines(*node));
            cursor = render_media(&node.media_units, shown, cursor, Ghost(here), lines);
            let ghost with_media = lines_view(lines@);
            lines.push(String::from_str(RULE));
            assert(lines_view(lines@) =~= with_media.push(RULE@));
            assert(lines_view(lines@) =~= so_far + (heading_lines(*node) + media_lines(
                node.media_units@,
                all,
                here,
            ) + seq![RULE@]));
        } else {
            assert(media_listing(node.media_units@).len() == 0);
        }
        cursor =
        render_forest(
            &node.children,
            shown,
            cursor,
            Ghost(here + media_listing(node.media_units@).len()),
            lines,
        );
        proof {
            assert(lines_view(lines@) =~= so_far + node_lines(*node, all, here));
            assert(forest_listing(nodes@.take(i + 1)) == forest_listing(nodes@.take(i as int))
                + node_listing(*node));
            assert(node_listing(*node) == media_listing(node.media_units@) + forest_listing(
                node.children@,
            ));
        }
        i += 1;
    }
    proof {
        assert(nodes@.take(nodes.len() as int) =~= nodes@);
    }
    cursor
}

/// Renders the topology listing, `shown` giving what is shown for each
/// volume in the order of the walk. A volume that `shown` does not reach is
/// listed without an identifier.
pub fn render_topology(nodes: &Vec<DeviceTreeNode>, shown: &Vec<Option<String>>) -> (lines: Vec<
    String,
>)
    ensures
        lines_view(lines@) == topology_report(nodes@, texts_view(shown@)),
{
    let mut lines: Vec<String> = Vec::new();
    assert(lines_view(lines@) =~= Seq::empty());
    let end = render_forest(nodes, shown, 0, Ghost(0), &mut lines);
    assert(lines_view(lines@) =~= topology_report(nodes@, texts_view(shown@)));
    lines
}

} // verus!
