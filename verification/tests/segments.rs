use storage_ui::segments::{
    compute_disk_segments, visible_disk_segments, DiskSegment, DiskSegmentKind, PartitionExtent,
    SegmentAnomaly, GPT_ALIGNMENT_BYTES,
};

const MIB: u64 = 1024 * 1024;

fn ext(id: usize, offset: u64, size: u64) -> PartitionExtent {
    PartitionExtent { id, offset, size }
}

fn assert_tiles(segments: &[DiskSegment], disk_size: u64) {
    let mut at = 0;
    for seg in segments {
        assert_eq!(seg.offset, at);
        at += seg.size;
    }
    assert_eq!(at, disk_size);
}

#[test]
fn segment_constructors() {
    assert_eq!(
        DiskSegment::free_space(5, 6),
        DiskSegment { kind: DiskSegmentKind::FreeSpace, offset: 5, size: 6, partition_id: None }
    );
    assert_eq!(
        DiskSegment::reserved(1, 2),
        DiskSegment { kind: DiskSegmentKind::Reserved, offset: 1, size: 2, partition_id: None }
    );
    assert_eq!(
        DiskSegment::partition(3, 4, 5),
        DiskSegment { kind: DiskSegmentKind::Partition, offset: 4, size: 5, partition_id: Some(3) }
    );
}

#[test]
fn empty_disk_is_one_free_segment() {
    let c = compute_disk_segments(100 * MIB, vec![], None);
    assert_eq!(c.segments, vec![DiskSegment::free_space(0, 100 * MIB)]);
    assert!(c.anomalies.is_empty());
}

#[test]
fn zero_sized_disk_without_partitions() {
    let c = compute_disk_segments(0, vec![], None);
    assert_eq!(c.segments, vec![DiskSegment::free_space(0, 0)]);
}

#[test]
fn empty_gpt_disk_reserves_the_headers() {
    let disk = 100 * MIB;
    let c = compute_disk_segments(disk, vec![], Some((17408, disk - 17408)));
    assert_eq!(
        c.segments,
        vec![
            DiskSegment::reserved(0, 17408),
            DiskSegment::reserved(17408, MIB - 17408),
            DiskSegment::free_space(MIB, disk - 17408 - MIB),
            DiskSegment::reserved(disk - 17408, 17408),
        ]
    );
    assert_tiles(&c.segments, disk);
    assert_eq!(GPT_ALIGNMENT_BYTES, MIB);
}

#[test]
fn partitions_are_sorted_and_gaps_filled() {
    let disk = 10 * MIB;
    let c = compute_disk_segments(disk, vec![ext(1, 6 * MIB, 2 * MIB), ext(0, MIB, 2 * MIB)], None);
    assert_eq!(
        c.segments,
        vec![
            DiskSegment::free_space(0, MIB),
            DiskSegment::partition(0, MIB, 2 * MIB),
            DiskSegment::free_space(3 * MIB, 3 * MIB),
            DiskSegment::partition(1, 6 * MIB, 2 * MIB),
            DiskSegment::free_space(8 * MIB, 2 * MIB),
        ]
    );
    assert!(c.anomalies.is_empty());
    assert_tiles(&c.segments, disk);
}

#[test]
fn aligned_gap_keeps_unaligned_head_reserved() {
    let disk = 10 * MIB;
    let c = compute_disk_segments(disk, vec![ext(0, MIB, MIB + 512)], Some((MIB, disk)));
    assert_eq!(
        c.segments,
        vec![
            DiskSegment::reserved(0, MIB),
            DiskSegment::partition(0, MIB, MIB + 512),
            DiskSegment::reserved(2 * MIB + 512, MIB - 512),
            DiskSegment::free_space(3 * MIB, 7 * MIB),
        ]
    );
    assert_tiles(&c.segments, disk);
}

#[test]
fn overlapping_partition_is_clamped_and_reported() {
    let disk = 10 * MIB;
    let c = compute_disk_segments(disk, vec![ext(0, 0, 4 * MIB), ext(1, 2 * MIB, 4 * MIB)], None);
    assert_eq!(
        c.segments,
        vec![
            DiskSegment::partition(0, 0, 4 * MIB),
            DiskSegment::partition(1, 4 * MIB, 2 * MIB),
            DiskSegment::free_space(6 * MIB, 4 * MIB),
        ]
    );
    assert_eq!(
        c.anomalies,
        vec![SegmentAnomaly::PartitionOverlapsPrevious {
            id: 1,
            partition_offset: 2 * MIB,
            previous_end: 4 * MIB
        }]
    );
}

#[test]
fn partition_ending_past_disk_is_clipped() {
    let disk = 10 * MIB;
    let c = compute_disk_segments(disk, vec![ext(7, 8 * MIB, 4 * MIB)], None);
    assert_eq!(
        c.segments,
        vec![DiskSegment::free_space(0, 8 * MIB), DiskSegment::partition(7, 8 * MIB, 2 * MIB)]
    );
    assert_eq!(
        c.anomalies,
        vec![SegmentAnomaly::PartitionEndPastDisk { id: 7, partition_end: 12 * MIB, disk_size: disk }]
    );
}

#[test]
fn partition_starting_past_disk_leaves_one_trailing_gap() {
    let disk = 10 * MIB;
    let c = compute_disk_segments(disk, vec![ext(0, 20 * MIB, MIB)], None);
    assert_eq!(c.segments, vec![DiskSegment::free_space(0, disk)]);
    assert_eq!(
        c.anomalies,
        vec![SegmentAnomaly::PartitionStartsPastDisk { id: 0, partition_offset: 20 * MIB, disk_size: disk }]
    );
}

#[test]
fn partition_after_a_partition_starting_past_disk_end() {
    let c = compute_disk_segments(100, vec![ext(0, 10, 10), ext(1, 150, 10)], None);
    assert_eq!(
        c.segments,
        vec![
            DiskSegment::free_space(0, 10),
            DiskSegment::partition(0, 10, 10),
            DiskSegment::free_space(20, 80),
        ]
    );
    assert_eq!(
        c.anomalies,
        vec![SegmentAnomaly::PartitionStartsPastDisk { id: 1, partition_offset: 150, disk_size: 100 }]
    );
}

#[test]
fn empty_partitions_are_skipped() {
    let c = compute_disk_segments(4 * MIB, vec![ext(0, MIB, 0)], None);
    assert_eq!(c.segments, vec![DiskSegment::free_space(0, 4 * MIB)]);
}

#[test]
fn view_hides_reserved_space_and_small_gaps() {
    let disk = 1024 * MIB;
    let parts = vec![ext(0, MIB, 100 * MIB), ext(1, 105 * MIB, 800 * MIB)];
    let shown = visible_disk_segments(disk, "gpt", Some((17408, disk - 17408)), parts.clone(), false);
    assert_eq!(
        shown,
        vec![
            DiskSegment::partition(0, MIB, 100 * MIB),
            DiskSegment::partition(1, 105 * MIB, 800 * MIB),
            DiskSegment::free_space(905 * MIB, disk - 17408 - 905 * MIB),
        ]
    );
    let all = visible_disk_segments(disk, "gpt", Some((17408, disk - 17408)), parts, true);
    assert_eq!(
        all,
        vec![
            DiskSegment::reserved(0, MIB),
            DiskSegment::partition(0, MIB, 100 * MIB),
            DiskSegment::reserved(101 * MIB, 4 * MIB),
            DiskSegment::partition(1, 105 * MIB, 800 * MIB),
            DiskSegment::free_space(905 * MIB, disk - 17408 - 905 * MIB),
            DiskSegment::reserved(disk - 17408, 17408),
        ]
    );
    assert_tiles(&all, disk);
}

#[test]
fn view_of_small_dos_disk_keeps_free_space() {
    let disk = 50 * MIB;
    let shown = visible_disk_segments(disk, "dos", None, vec![ext(0, MIB, 45 * MIB)], true);
    assert_eq!(
        shown,
        vec![
            DiskSegment::reserved(0, MIB),
            DiskSegment::partition(0, MIB, 45 * MIB),
            DiskSegment::free_space(46 * MIB, 4 * MIB),
        ]
    );
}

#[test]
fn view_always_shows_a_segment_on_a_non_empty_drive() {
    let shown = visible_disk_segments(512 * 1024, "", None, vec![], false);
    assert_eq!(shown, vec![DiskSegment::free_space(0, 512 * 1024)]);
    let none = visible_disk_segments(0, "", None, vec![], false);
    assert!(none.is_empty());
}

#[test]
fn empty_partitions_change_nothing() {
    let disk = 64 * MIB;
    let with_empty = vec![ext(0, MIB, 0), ext(1, 2 * MIB, 4 * MIB), ext(2, 3 * MIB, 0), ext(3, 100 * MIB, 0)];
    let without = vec![ext(1, 2 * MIB, 4 * MIB)];
    assert_eq!(compute_disk_segments(disk, with_empty.clone(), None), compute_disk_segments(disk, without.clone(), None));
    let range = Some((MIB, disk - MIB));
    assert_eq!(compute_disk_segments(disk, with_empty, range), compute_disk_segments(disk, without, range));
    assert_eq!(
        compute_disk_segments(disk, vec![ext(0, MIB, 0)], None),
        compute_disk_segments(disk, vec![], None)
    );
}
