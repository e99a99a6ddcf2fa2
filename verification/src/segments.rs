//! Splitting a disk into partition, free-space and reserved segments.
use vstd::prelude::*;
use vstd::arithmetic::div_mod::{lemma_fundamental_div_mod, lemma_mod_multiples_basic, lemma_mod_pos_bound};

verus! {

/// Alignment of newly created GPT partitions (1 MiB).
pub const GPT_ALIGNMENT_BYTES: u64 = 1048576;

#[derive(Clone, Copy, Debug, PartialEq, Eq, Structural)]
pub enum DiskSegmentKind {
    Partition,
    FreeSpace,
    Reserved,
}

/// The byte extent of one partition of a disk, `id` naming it for the caller.
#[derive(Clone, Copy, Debug, PartialEq, Eq, Structural)]
pub struct PartitionExtent {
    pub id: usize,
    pub offset: u64,
    pub size: u64,
}

#[derive(Clone, Copy, Debug, PartialEq, Eq, Structural)]
pub struct DiskSegment {
    pub kind: DiskSegmentKind,
    pub offset: u64,
    pub size: u64,
    pub partition_id: Option<usize>,
}

#[derive(Clone, Copy, Debug, PartialEq, Eq, Structural)]
pub enum SegmentAnomaly {
    PartitionOverlapsPrevious { id: usize, partition_offset: u64, previous_end: u64 },
    PartitionStartsPastDisk { id: usize, partition_offset: u64, disk_size: u64 },
    PartitionEndPastDisk { id: usize, partition_end: u64, disk_size: u64 },
}

#[derive(Clone, Debug, PartialEq, Eq)]
pub struct SegmentComputation {
    pub segments: Vec<DiskSegment>,
    pub anomalies: Vec<SegmentAnomaly>,
}

pub open spec fn free_seg(offset: u64, size: u64) -> DiskSegment {
    DiskSegment { kind: DiskSegmentKind::FreeSpace, offset, size, partition_id: None }
}

pub open spec fn reserved_seg(offset: u64, size: u64) -> DiskSegment {
    DiskSegment { kind: DiskSegmentKind::Reserved, offset, size, partition_id: None }
}

pub open spec fn partition_seg(id: usize, offset: u64, size: u64) -> DiskSegment {
    DiskSegment { kind: DiskSegmentKind::Partition, offset, size, partition_id: Some(id) }
}

impl DiskSegment {
    pub fn free_space(offset: u64, size: u64) -> (seg: Self)
        ensures
            seg == free_seg(offset, size),
    {
        Self { kind: DiskSegmentKind::FreeSpace, offset, size, partition_id: None }
    }

    pub fn reserved(offset: u64, size: u64) -> (seg: Self)
        ensures
            seg == reserved_seg(offset, size),
    {
        Self { kind: DiskSegmentKind::Reserved, offset, size, partition_id: None }
    }

    pub fn partition(id: usize, offset: u64, size: u64) -> (seg: Self)
        ensures
            seg == partition_seg(id, offset, size),
    {
        Self { kind: DiskSegmentKind::Partition, offset, size, partition_id: Some(id) }
    }
}

/// The smallest multiple of `alignment` that is at least `value` (`value` itself for a zero
/// alignment).
pub open spec fn spec_align_up(value: int, alignment: int) -> int {
    if alignment == 0 {
        value
    } else if value % alignment == 0 {
        value
    } else {
        value - value % alignment + alignment
    }
}

proof fn lemma_align_up_props(value: u64, alignment: u64)
    requires
        alignment > 0,
    ensures
        spec_align_up(value as int, alignment as int) % (alignment as int) == 0,
        value <= spec_align_up(value as int, alignment as int) < value + alignment,
{
    lemma_mod_pos_bound(value as int, alignment as int);
    lemma_fundamental_div_mod(value as int, alignment as int);
    if value % alignment == 0 {
    } else {
        let q = value as int / alignment as int;
        assert(alignment * (q + 1) == alignment * q + alignment) by (nonlinear_arith);
        assert(value - value % alignment + alignment == alignment * (q + 1));
        vstd::arithmetic::mul::lemma_mul_is_commutative(alignment as int, q + 1);
        lemma_mod_multiples_basic(q + 1, alignment as int);
    }
}

fn align_up(value: u64, alignment: u64) -> (res: u64)
    requires
        spec_align_up(value as int, alignment as int) <= u64::MAX,
    ensures
        res == spec_align_up(value as int, alignment as int),
        alignment > 0 ==> res % alignment == 0 && value <= res < value + alignment,
{
    if alignment == 0 {
        return value;
    }
    proof {
        lemma_align_up_props(value, alignment);
        lemma_mod_pos_bound(value as int, alignment as int);
        vstd::arithmetic::div_mod::lemma_mod_decreases(value as nat, alignment as nat);
    }
    let rem = value % alignment;
    if rem == 0 {
        value
    } else {
        value - rem + alignment
    }
}

/// The segments that fill the gap `[gap_start, gap_end)` when new partitions must start on an
/// `alignment` boundary: the unaligned head is reserved, the rest is free space.
pub open spec fn gap_segments(gap_start: u64, gap_end: u64, alignment: u64) -> Seq<DiskSegment> {
    if gap_end <= gap_start {
        seq![]
    } else {
        let aligned = spec_align_up(gap_start as int, alignment as int);
        if aligned >= gap_end {
            seq![reserved_seg(gap_start, (gap_end - gap_start) as u64)]
        } else if aligned > gap_start {
            seq![
                reserved_seg(gap_start, (aligned - gap_start) as u64),
                free_seg(aligned as u64, (gap_end - aligned) as u64),
            ]
        } else {
            seq![free_seg(aligned as u64, (gap_end - aligned) as u64)]
        }
    }
}

fn push_aligned_gap_segments(
    segments: &mut Vec<DiskSegment>,
    gap_start: u64,
    gap_end: u64,
    alignment_bytes: u64,
)
    requires
        gap_start < gap_end ==> spec_align_up(gap_start as int, alignment_bytes as int) <= u64::MAX,
    ensures
        final(segments)@ == old(segments)@ + gap_segments(gap_start, gap_end, alignment_bytes),
{
    if gap_end <= gap_start {
        assert(old(segments)@ + seq![] =~= old(segments)@);
        return;
    }
    let aligned_start = align_up(gap_start, alignment_bytes);
    if aligned_start >= gap_end {
        segments.push(DiskSegment::reserved(gap_start, gap_end - gap_start));
        assert(final(segments)@ =~= old(segments)@ + gap_segments(gap_start, gap_end, alignment_bytes));
        return;
    }
    if aligned_start > gap_start {
        segments.push(DiskSegment::reserved(gap_start, aligned_start - gap_start));
    }
    segments.push(DiskSegment::free_space(aligned_start, gap_end - aligned_start));
    assert(final(segments)@ =~= old(segments)@ + gap_segments(gap_start, gap_end, alignment_bytes));
}

/// The segments covering the gap `[start, end)`: aligned as [`gap_segments`] says, or one
/// free-space segment when no alignment applies.
pub open spec fn fill_gap(start: u64, end: u64, alignment: Option<u64>) -> Seq<DiskSegment> {
    match alignment {
        Some(a) => gap_segments(start, end, a),
        None => if start < end {
            seq![free_seg(start, (end - start) as u64)]
        } else {
            seq![]
        },
    }
}

/// Aligning the start of a non-empty gap does not leave the `u64` range.
pub open spec fn gap_align_fits(start: u64, end: u64, alignment: Option<u64>) -> bool {
    match alignment {
        Some(a) => start < end ==> spec_align_up(start as int, a as int) <= u64::MAX,
        None => true,
    }
}

fn push_gap(segments: &mut Vec<DiskSegment>, start: u64, end: u64, alignment: Option<u64>)
    requires
        gap_align_fits(start, end, alignment),
    ensures
        final(segments)@ == old(segments)@ + fill_gap(start, end, alignment),
{
    match alignment {
        Some(a) => push_aligned_gap_segments(segments, start, end, a),
        None => {
            if start < end {
                segments.push(DiskSegment::free_space(start, end - start));
            } else {
                assert(old(segments)@ + seq![] =~= old(segments)@);
            }
        },
    }
}

// ---------------------------------------------------------------------------
// Ordering the partitions by offset (stable).
/// Inserts `x` after every element of `s`, counted from the end, whose offset exceeds
/// `x`'s offset; on a sequence ordered by offset this keeps it ordered and keeps equal
/// offsets in arrival order.
pub open spec fn insert_by_offset(s: Seq<PartitionExtent>, x: PartitionExtent) -> Seq<PartitionExtent>
    decreases s.len(),
{
    if s.len() == 0 {
        seq![x]
    } else if s.last().offset <= x.offset {
        s.push(x)
    } else {
        insert_by_offset(s.drop_last(), x).push(s.last())
    }
}

/// `s` stably sorted by offset.
pub open spec fn sort_by_offset(s: Seq<PartitionExtent>) -> Seq<PartitionExtent>
    decreases s.len(),
{
    if s.len() == 0 {
        seq![]
    } else {
        insert_by_offset(sort_by_offset(s.drop_last()), s.last())
    }
}

pub open spec fn offsets_sorted(s: Seq<PartitionExtent>) -> bool {
    forall|i: int, j: int| 0 <= i <= j < s.len() ==> s[i].offset <= s[j].offset
}

proof fn lemma_insert_at(s: Seq<PartitionExtent>, x: PartitionExtent, j: int)
    requires
        0 <= j <= s.len(),
        j == 0 || s[j - 1].offset <= x.offset,
        forall|k: int| j <= k < s.len() ==> s[k].offset > x.offset,
    ensures
        insert_by_offset(s, x) == s.take(j).push(x) + s.skip(j),
    decreases s.len(),
{
    if s.len() == 0 {
        assert(s.take(j).push(x) + s.skip(j) =~= seq![x]);
    } else if s.last().offset <= x.offset {
        assert(j == s.len());
        assert(s.take(j).push(x) + s.skip(j) =~= s.push(x));
    } else {
        let d = s.drop_last();
        assert(j < s.len());
        lemma_insert_at(d, x, j);
        assert(d.take(j).push(x) + d.skip(j) + seq![s.last()] =~= s.take(j).push(x) + s.skip(j));
        assert(insert_by_offset(d, x).push(s.last()) =~= insert_by_offset(d, x) + seq![s.last()]);
    }
}

proof fn lemma_insert_contents(s: Seq<PartitionExtent>, x: PartitionExtent)
    ensures
        insert_by_offset(s, x).len() == s.len() + 1,
        forall|y: PartitionExtent| #[trigger] insert_by_offset(s, x).contains(y) <==> (s.contains(y) || y == x),
        offsets_sorted(s) ==> offsets_sorted(insert_by_offset(s, x)),
    decreases s.len(),
{
    if s.len() == 0 {
        assert(insert_by_offset(s, x) =~= seq![x]);
        assert(seq![x][0] == x);
    } else if s.last().offset <= x.offset {
        let r = s.push(x);
        assert forall|y: PartitionExtent| #[trigger] r.contains(y) <==> (s.contains(y) || y == x) by {
            if r.contains(y) {
                let k = choose|k: int| 0 <= k < r.len() && r[k] == y;
                if k < s.len() {
                    assert(s[k] == y);
                }
            }
            if s.contains(y) {
                let k = choose|k: int| 0 <= k < s.len() && s[k] == y;
                assert(r[k] == y);
            }
            if y == x {
                assert(r[s.len() as int] == y);
            }
        }
    } else {
        let d = s.drop_last();
        lemma_insert_contents(d, x);
        let m = insert_by_offset(d, x);
        let r = m.push(s.last());
        assert forall|y: PartitionExtent| #[trigger] r.contains(y) <==> (s.contains(y) || y == x) by {
            if r.contains(y) {
                let k = choose|k: int| 0 <= k < r.len() && r[k] == y;
                if k < m.len() {
                    assert(m[k] == y);
                    assert(m.contains(y));
                    if d.contains(y) {
                        let q = choose|q: int| 0 <= q < d.len() && d[q] == y;
                        assert(s[q] == y);
                    }
                } else {
                    assert(s[s.len() - 1] == y);
                }
            }
            if s.contains(y) {
                let k = choose|k: int| 0 <= k < s.len() && s[k] == y;
                if k < d.len() {
                    assert(d[k] == y);
                    assert(d.contains(y));
                    assert(m.contains(y));
                    let q = choose|q: int| 0 <= q < m.len() && m[q] == y;
                    assert(r[q] == y);
                } else {
                    assert(r[r.len() - 1] == y);
                }
            }
            if y == x {
                assert(m.contains(x));
                let q = choose|q: int| 0 <= q < m.len() && m[q] == x;
                assert(r[q] == x);
            }
        }
        if offsets_sorted(s) {
            assert(offsets_sorted(d));
            assert forall|i: int, j: int| 0 <= i <= j < r.len() implies r[i].offset <= r[j].offset by {
                if j == r.len() - 1 && i < j {
                    let y = m[i];
                    assert(m.contains(y));
                    if d.contains(y) {
                        let q = choose|q: int| 0 <= q < d.len() && d[q] == y;
                        assert(s[q] == y);
                    }
                }
            }
        }
    }
}

proof fn lemma_sort_contents(s: Seq<PartitionExtent>)
    ensures
        sort_by_offset(s).len() == s.len(),
        forall|y: PartitionExtent| #[trigger] sort_by_offset(s).contains(y) <==> s.contains(y),
        offsets_sorted(sort_by_offset(s)),
    decreases s.len(),
{
    if s.len() > 0 {
        let d = s.drop_last();
        lemma_sort_contents(d);
        lemma_insert_contents(sort_by_offset(d), s.last());
        assert forall|y: PartitionExtent| #[trigger] sort_by_offset(s).contains(y) <==> s.contains(y) by {
            if d.contains(y) {
                let q = choose|q: int| 0 <= q < d.len() && d[q] == y;
                assert(s[q] == y);
            }
            if s.contains(y) {
                let k = choose|k: int| 0 <= k < s.len() && s[k] == y;
                if k < d.len() {
                    assert(d[k] == y);
                }
            }
        }
    }
}

fn sort_partitions_by_offset(partitions: Vec<PartitionExtent>) -> (sorted: Vec<PartitionExtent>)
    ensures
        sorted@ == sort_by_offset(partitions@),
{
    let mut out: Vec<PartitionExtent> = Vec::new();
    let mut i: usize = 0;
    while i < partitions.len()
        invariant
            i <= partitions.len(),
            out@ == sort_by_offset(partitions@.take(i as int)),
        decreases partitions.len() - i,
    {
        let x = partitions[i];
        let mut j: usize = out.len();
        while j > 0 && out[j - 1].offset > x.offset
            invariant
                j <= out.len(),
                forall|k: int| j <= k < out.len() ==> out@[k].offset > x.offset,
            decreases j,
        {
            j = j - 1;
        }
        proof {
            lemma_insert_at(out@, x, j as int);
            assert(partitions@.take(i + 1).drop_last() =~= partitions@.take(i as int));
        }
        let ghost before = out@;
        out.insert(j, x);
        assert(out@ =~= before.take(j as int).push(x) + before.skip(j as int));
        i = i + 1;
    }
    assert(partitions@.take(partitions.len() as int) =~= partitions@);
    out
}


// ---------------------------------------------------------------------------
// The segment computation.

/// Scan state: segments so far, anomalies so far, the offset the next segment starts at, and
/// whether the scan has stopped.
pub type Scan = (Seq<DiskSegment>, Seq<SegmentAnomaly>, u64, bool);

/// Where the scan of the partitions runs: the reserved head in front of it, its start and end,
/// and the alignment of free space inside it. A partition table with a usable range
/// `[start, end)` (clipped to the disk) that is not empty scans that range with GPT alignment;
/// otherwise the whole disk is scanned without alignment.
pub open spec fn seg_layout(disk_size: u64, usable_range: Option<(u64, u64)>) -> (
    Seq<DiskSegment>,
    u64,
    u64,
    Option<u64>,
) {
    match usable_range {
        Some((start, end)) => {
            let end2 = if end < disk_size { end } else { disk_size };
            if start < end2 {
                (
                    if start > 0 { seq![reserved_seg(0, start)] } else { seq![] },
                    start,
                    end2,
                    Some(GPT_ALIGNMENT_BYTES),
                )
            } else {
                (seq![], 0, disk_size, None)
            }
        },
        None => (seq![], 0, disk_size, None),
    }
}

/// One partition (in offset order) processed by the scan over `[.., range_end)`.
pub open spec fn scan_step(st: Scan, p: PartitionExtent, range_end: u64, alignment: Option<u64>) -> Scan {
    let (segs, anoms, cur, stopped) = st;
    if stopped || p.size == 0 {
        st
    } else if p.offset >= range_end {
        (
            segs,
            anoms.push(
                SegmentAnomaly::PartitionStartsPastDisk {
                    id: p.id,
                    partition_offset: p.offset,
                    disk_size: range_end,
                },
            ),
            cur,
            true,
        )
    } else {
        let segs1 = if p.offset > cur { segs + fill_gap(cur, p.offset, alignment) } else { segs };
        let anoms1 = if p.offset < cur {
            anoms.push(
                SegmentAnomaly::PartitionOverlapsPrevious {
                    id: p.id,
                    partition_offset: p.offset,
                    previous_end: cur,
                },
            )
        } else {
            anoms
        };
        let cur1 = if p.offset > cur { p.offset } else { cur };
        let pend = p.offset.saturating_add(p.size);
        let anoms2 = if pend > range_end {
            anoms1.push(
                SegmentAnomaly::PartitionEndPastDisk {
                    id: p.id,
                    partition_end: pend,
                    disk_size: range_end,
                },
            )
        } else {
            anoms1
        };
        let eff_end = if pend > range_end { range_end } else { pend };
        let eff_size = eff_end.saturating_sub(cur1);
        let segs2 = if eff_size > 0 { segs1.push(partition_seg(p.id, cur1, eff_size)) } else { segs1 };
        let cur2 = if eff_size > 0 { eff_end } else { cur1 };
        (segs2, anoms2, cur2, cur2 >= range_end)
    }
}

/// The scan state after the first `n` partitions of `parts`.
pub open spec fn scan_prefix(
    parts: Seq<PartitionExtent>,
    n: nat,
    init: Scan,
    range_end: u64,
    alignment: Option<u64>,
) -> Scan
    decreases n,
{
    if n == 0 {
        init
    } else {
        scan_step(scan_prefix(parts, (n - 1) as nat, init, range_end, alignment), parts[n - 1], range_end, alignment)
    }
}

/// The segments and anomalies of a disk of `disk_size` bytes with the given partitions and
/// usable range: the partitions are scanned in offset order; free space fills the gaps; the
/// tail after the last partition is filled up to the end of the scanned range; what lies
/// outside the scanned range is reserved. A disk without partitions and without a usable range
/// is one free-space segment.
pub open spec fn disk_segments_spec(
    disk_size: u64,
    partitions: Seq<PartitionExtent>,
    usable_range: Option<(u64, u64)>,
) -> (Seq<DiskSegment>, Seq<SegmentAnomaly>) {
    let (prefix, range_start, range_end, alignment) = seg_layout(disk_size, usable_range);
    if partitions.len() == 0 && alignment is None {
        (seq![free_seg(0, disk_size)], seq![])
    } else {
        let st = scan_prefix(
            sort_by_offset(partitions),
            partitions.len(),
            (prefix, seq![], range_start, false),
            range_end,
            alignment,
        );
        let segs = st.0 + (if st.2 < range_end { fill_gap(st.2, range_end, alignment) } else { seq![] })
            + (if range_end < disk_size { seq![reserved_seg(range_end, (disk_size - range_end) as u64)] } else { seq![] });
        (segs, st.1)
    }
}

proof fn lemma_align_up_bound(v: u64, a: u64)
    requires
        a > 0,
    ensures
        v <= spec_align_up(v as int, a as int) < v + a,
{
    lemma_align_up_props(v, a);
}

proof fn lemma_scan_stopped(
    parts: Seq<PartitionExtent>,
    i: nat,
    n: nat,
    init: Scan,
    range_end: u64,
    alignment: Option<u64>,
)
    requires
        i <= n,
        scan_prefix(parts, i, init, range_end, alignment).3,
    ensures
        scan_prefix(parts, n, init, range_end, alignment) == scan_prefix(parts, i, init, range_end, alignment),
    decreases n - i,
{
    if i < n {
        lemma_scan_stopped(parts, i, (n - 1) as nat, init, range_end, alignment);
    }
}

/// One step of the scan (see [`scan_step`]) on a scan that has not stopped.
fn scan_partition(
    segments: &mut Vec<DiskSegment>,
    anomalies: &mut Vec<SegmentAnomaly>,
    current_offset: &mut u64,
    partition: PartitionExtent,
    range_end: u64,
    alignment_bytes: Option<u64>,
) -> (stopped: bool)
    requires
        *old(current_offset) <= range_end,
        alignment_bytes is Some ==> alignment_bytes == Some(GPT_ALIGNMENT_BYTES) && range_end <= u64::MAX
            - GPT_ALIGNMENT_BYTES,
    ensures
        (final(segments)@, final(anomalies)@, *final(current_offset), stopped) == scan_step(
            (old(segments)@, old(anomalies)@, *old(current_offset), false),
            partition,
            range_end,
            alignment_bytes,
        ),
        *final(current_offset) <= range_end,
{
    let ghost segs0 = segments@;
    let ghost anoms0 = anomalies@;
    let ghost cur0 = *current_offset;
    if partition.size == 0 {
        return false;
    }
    if partition.offset >= range_end {
        anomalies.push(SegmentAnomaly::PartitionStartsPastDisk {
            id: partition.id,
            partition_offset: partition.offset,
            disk_size: range_end,
        });
        return true;
    }
    if partition.offset > *current_offset {
        proof { lemma_align_up_bound(*current_offset, GPT_ALIGNMENT_BYTES); }
        push_gap(segments, *current_offset, partition.offset, alignment_bytes);
        *current_offset = partition.offset;
    } else if partition.offset < *current_offset {
        anomalies.push(SegmentAnomaly::PartitionOverlapsPrevious {
            id: partition.id,
            partition_offset: partition.offset,
            previous_end: *current_offset,
        });
    }
    let partition_end = partition.offset.saturating_add(partition.size);
    let effective_end = if partition_end > range_end {
        anomalies.push(SegmentAnomaly::PartitionEndPastDisk {
            id: partition.id,
            partition_end,
            disk_size: range_end,
        });
        range_end
    } else {
        partition_end
    };
    let effective_offset = if *current_offset > partition.offset {
        *current_offset
    } else {
        partition.offset
    };
    let effective_size = effective_end.saturating_sub(effective_offset);
    if effective_size > 0 {
        segments.push(DiskSegment::partition(partition.id, effective_offset, effective_size));
        *current_offset = effective_offset.saturating_add(effective_size);
    }
    let ghost next = scan_step((segs0, anoms0, cur0, false), partition, range_end, alignment_bytes);
    assert(segments@ =~= next.0);
    assert(anomalies@ =~= next.1);
    *current_offset >= range_end
}

/// Splits a disk into partition, free-space and reserved segments, in offset order, and
/// reports partitions that overlap, start past the end, or end past the end of the scanned
/// range.
#[verifier::spinoff_prover]
#[verifier::rlimit(40)]
pub fn compute_disk_segments(
    disk_size: u64,
    partitions: Vec<PartitionExtent>,
    usable_range: Option<(u64, u64)>,
) -> (res: SegmentComputation)
    requires
        usable_range is Some ==> disk_size <= u64::MAX - GPT_ALIGNMENT_BYTES,
    ensures
        (res.segments@, res.anomalies@) == disk_segments_spec(disk_size, partitions@, usable_range),
        tiles(res.segments@, 0, disk_size as int),
        segments_well_formed(res.segments@, partitions@, seg_layout(disk_size, usable_range).3),
        disk_size > 0 ==> segments_non_empty(res.segments@),
        anomalies_name_partitions(res.anomalies@, partitions@),
{
    proof { lemma_disk_segments_laws(disk_size, partitions@, usable_range); }
    let mut anomalies: Vec<SegmentAnomaly> = Vec::new();
    let ghost layout = seg_layout(disk_size, usable_range);

    if partitions.len() == 0 {
        if let Some((usable_start, usable_end)) = usable_range {
            let usable_end = if usable_end < disk_size { usable_end } else { disk_size };
            if usable_start < usable_end {
                let mut segments: Vec<DiskSegment> = Vec::new();
                if usable_start > 0 {
                    segments.push(DiskSegment::reserved(0, usable_start));
                }
                proof { lemma_align_up_bound(usable_start, GPT_ALIGNMENT_BYTES); }
                push_aligned_gap_segments(&mut segments, usable_start, usable_end, GPT_ALIGNMENT_BYTES);
                if usable_end < disk_size {
                    segments.push(DiskSegment::reserved(usable_end, disk_size.saturating_sub(usable_end)));
                }
                proof {
                    let spec = disk_segments_spec(disk_size, partitions@, usable_range);
                    assert(segments@ =~= spec.0);
                    assert(anomalies@ =~= spec.1);
                }
                return SegmentComputation { segments, anomalies };
            }
        }
        let segments = vec![DiskSegment::free_space(0, disk_size)];
        proof {
            let spec = disk_segments_spec(disk_size, partitions@, usable_range);
            assert(segments@ =~= spec.0);
            assert(anomalies@ =~= spec.1);
        }
        return SegmentComputation { segments, anomalies };
    }

    let ghost input = partitions@;
    let partitions = sort_partitions_by_offset(partitions);
    let mut segments: Vec<DiskSegment> = Vec::new();

    let (range_start, range_end, alignment_bytes) = match usable_range {
        Some((usable_start, usable_end)) if usable_start < usable_end => {
            let usable_end = if usable_end < disk_size { usable_end } else { disk_size };
            if usable_start < usable_end {
                if usable_start > 0 {
                    segments.push(DiskSegment::reserved(0, usable_start));
                }
                (usable_start, usable_end, Some(GPT_ALIGNMENT_BYTES))
            } else {
                (0u64, disk_size, None)
            }
        },
        _ => (0u64, disk_size, None),
    };
    assert(segments@ =~= layout.0);
    assert(range_start == layout.1 && range_end == layout.2 && alignment_bytes == layout.3);
    let ghost init: Scan = (segments@, anomalies@, range_start, false);
    assert(anomalies@ =~= seq![]);

    let mut current_offset = range_start;
    let mut stopped = false;
    let mut i: usize = 0;
    while i < partitions.len() && !stopped
        invariant
            i <= partitions.len(),
            range_start <= range_end <= disk_size,
            current_offset <= range_end,
            alignment_bytes is Some ==> alignment_bytes == Some(GPT_ALIGNMENT_BYTES)
                && disk_size <= u64::MAX - GPT_ALIGNMENT_BYTES,
            (segments@, anomalies@, current_offset, stopped)
                == scan_prefix(partitions@, i as nat, init, range_end, alignment_bytes),
        decreases partitions.len() - i,
    {
        let partition = partitions[i];
        stopped = scan_partition(&mut segments, &mut anomalies, &mut current_offset, partition, range_end, alignment_bytes);
        proof {
            let prev = scan_prefix(partitions@, i as nat, init, range_end, alignment_bytes);
            let next = scan_step(prev, partitions@[i as int], range_end, alignment_bytes);
            assert(scan_prefix(partitions@, (i + 1) as nat, init, range_end, alignment_bytes) == next);
            assert(segments@ =~= next.0);
            assert(anomalies@ =~= next.1);
        }
        i = i + 1;
    }
    proof {
        lemma_sort_contents(input);
        if stopped {
            lemma_scan_stopped(partitions@, i as nat, partitions.len() as nat, init, range_end, alignment_bytes);
        }
    }
    let ghost st = (segments@, anomalies@, current_offset, stopped);
    if current_offset < range_end {
        proof { lemma_align_up_bound(current_offset, GPT_ALIGNMENT_BYTES); }
        push_gap(&mut segments, current_offset, range_end, alignment_bytes);
    }
    let ghost mid = segments@;
    if range_end < disk_size {
        segments.push(DiskSegment::reserved(range_end, disk_size.saturating_sub(range_end)));
    }
    proof {
        let spec = disk_segments_spec(disk_size, input, usable_range);
        assert(partitions@ == sort_by_offset(input));
        assert(mid =~= st.0 + (if st.2 < range_end { fill_gap(st.2, range_end, alignment_bytes) } else { seq![] }));
        assert(segments@ =~= spec.0);
    }
    SegmentComputation { segments, anomalies }
}

// ---------------------------------------------------------------------------
// Laws of the segment computation.

/// `segs` lie back to back and cover exactly `[start, end)`.
pub open spec fn tiles(segs: Seq<DiskSegment>, start: int, end: int) -> bool
    decreases segs.len(),
{
    if segs.len() == 0 {
        start == end
    } else {
        segs[0].offset == start && tiles(segs.drop_first(), start + segs[0].size, end)
    }
}

pub open spec fn anomaly_id(a: SegmentAnomaly) -> usize {
    match a {
        SegmentAnomaly::PartitionOverlapsPrevious { id, .. } => id,
        SegmentAnomaly::PartitionStartsPastDisk { id, .. } => id,
        SegmentAnomaly::PartitionEndPastDisk { id, .. } => id,
    }
}

/// A segment names a partition exactly when it is a partition segment, and then lies inside a
/// non-empty partition of the input with that id; free space starts on the alignment boundary
/// when there is one.
pub open spec fn segment_well_formed(
    seg: DiskSegment,
    partitions: Seq<PartitionExtent>,
    alignment: Option<u64>,
) -> bool {
    &&& (seg.partition_id is Some <==> seg.kind == DiskSegmentKind::Partition)
    &&& seg.kind == DiskSegmentKind::Partition ==> exists|p: PartitionExtent|
        #[trigger] partitions.contains(p) && p.id == seg.partition_id->0 && p.size > 0 && p.offset
            <= seg.offset && seg.offset + seg.size <= p.offset.saturating_add(p.size)
    &&& (seg.kind == DiskSegmentKind::FreeSpace && alignment is Some && alignment->0 > 0)
        ==> seg.offset % alignment->0 == 0
}

pub open spec fn anomaly_names_partition(a: SegmentAnomaly, partitions: Seq<PartitionExtent>) -> bool {
    exists|p: PartitionExtent| #[trigger] partitions.contains(p) && p.id == anomaly_id(a)
}

pub open spec fn segments_well_formed(
    segs: Seq<DiskSegment>,
    partitions: Seq<PartitionExtent>,
    alignment: Option<u64>,
) -> bool {
    forall|i: int| 0 <= i < segs.len() ==> segment_well_formed(#[trigger] segs[i], partitions, alignment)
}

pub open spec fn segments_non_empty(segs: Seq<DiskSegment>) -> bool {
    forall|i: int| 0 <= i < segs.len() ==> #[trigger] segs[i].size > 0
}

proof fn lemma_tiles_concat(a: Seq<DiskSegment>, b: Seq<DiskSegment>, s: int, m: int, e: int)
    requires
        tiles(a, s, m),
        tiles(b, m, e),
    ensures
        tiles(a + b, s, e),
    decreases a.len(),
{
    if a.len() == 0 {
        assert(a + b =~= b);
    } else {
        lemma_tiles_concat(a.drop_first(), b, s + a[0].size, m, e);
        assert((a + b).drop_first() =~= a.drop_first() + b);
    }
}

proof fn lemma_tiles_one(x: DiskSegment)
    ensures
        tiles(seq![x], x.offset as int, x.offset + x.size),
{
    let s = seq![x];
    assert(s[0] == x);
    assert(s.drop_first() =~= Seq::<DiskSegment>::empty());
    assert(tiles(s.drop_first(), x.offset + x.size, x.offset + x.size));
}

proof fn lemma_tiles_two(x: DiskSegment, y: DiskSegment)
    requires
        x.offset + x.size == y.offset,
    ensures
        tiles(seq![x, y], x.offset as int, y.offset + y.size),
{
    lemma_tiles_one(x);
    lemma_tiles_one(y);
    lemma_tiles_concat(seq![x], seq![y], x.offset as int, y.offset as int, y.offset + y.size);
    assert(seq![x] + seq![y] =~= seq![x, y]);
}

proof fn lemma_fill_gap(start: u64, end: u64, alignment: Option<u64>, partitions: Seq<PartitionExtent>)
    requires
        start < end,
        alignment is Some ==> alignment->0 > 0 && end <= u64::MAX - alignment->0,
    ensures
        tiles(fill_gap(start, end, alignment), start as int, end as int),
        segments_well_formed(fill_gap(start, end, alignment), partitions, alignment),
        segments_non_empty(fill_gap(start, end, alignment)),
{
    let g = fill_gap(start, end, alignment);
    match alignment {
        Some(a) => {
            lemma_align_up_props(start, a);
            let al = spec_align_up(start as int, a as int);
            if al >= end {
                lemma_tiles_one(g[0]);
            } else if al > start {
                lemma_tiles_two(g[0], g[1]);
            } else {
                lemma_tiles_one(g[0]);
            }
        },
        None => {
            lemma_tiles_one(g[0]);
        },
    }
}

proof fn lemma_wf_concat(a: Seq<DiskSegment>, b: Seq<DiskSegment>, parts: Seq<PartitionExtent>, al: Option<u64>)
    requires
        segments_well_formed(a, parts, al),
        segments_well_formed(b, parts, al),
        segments_non_empty(a),
        segments_non_empty(b),
    ensures
        segments_well_formed(a + b, parts, al),
        segments_non_empty(a + b),
{
    assert forall|i: int| 0 <= i < (a + b).len() implies segment_well_formed(#[trigger] (a + b)[i], parts, al)
        && (a + b)[i].size > 0 by {
        if i < a.len() {
            assert((a + b)[i] == a[i]);
        } else {
            assert((a + b)[i] == b[i - a.len()]);
        }
    }
}

pub open spec fn anomalies_name_partitions(anoms: Seq<SegmentAnomaly>, parts: Seq<PartitionExtent>) -> bool {
    forall|i: int| 0 <= i < anoms.len() ==> anomaly_names_partition(#[trigger] anoms[i], parts)
}

proof fn lemma_anoms_push(anoms: Seq<SegmentAnomaly>, x: SegmentAnomaly, parts: Seq<PartitionExtent>)
    requires
        anomalies_name_partitions(anoms, parts),
        anomaly_names_partition(x, parts),
    ensures
        anomalies_name_partitions(anoms.push(x), parts),
{
    assert forall|i: int| 0 <= i < anoms.push(x).len() implies anomaly_names_partition(#[trigger] anoms.push(x)[i], parts) by {
        if i < anoms.len() {
            assert(anoms.push(x)[i] == anoms[i]);
        }
    }
}

pub open spec fn scan_inv(st: Scan, parts: Seq<PartitionExtent>, range_end: u64, al: Option<u64>) -> bool {
    &&& st.2 <= range_end
    &&& tiles(st.0, 0, st.2 as int)
    &&& segments_well_formed(st.0, parts, al)
    &&& segments_non_empty(st.0)
    &&& anomalies_name_partitions(st.1, parts)
}

proof fn lemma_scan_inv(parts: Seq<PartitionExtent>, n: nat, init: Scan, range_end: u64, al: Option<u64>)
    requires
        n <= parts.len(),
        scan_inv(init, parts, range_end, al),
        al is Some ==> al->0 > 0 && range_end <= u64::MAX - al->0,
    ensures
        scan_inv(scan_prefix(parts, n, init, range_end, al), parts, range_end, al),
    decreases n,
{
    if n > 0 {
        lemma_scan_inv(parts, (n - 1) as nat, init, range_end, al);
        let st = scan_prefix(parts, (n - 1) as nat, init, range_end, al);
        let p = parts[n - 1];
        assert(parts.contains(p));
        let (segs, anoms, cur, stopped) = st;
        if stopped || p.size == 0 {
        } else if p.offset >= range_end {
            let x = SegmentAnomaly::PartitionStartsPastDisk {
                id: p.id,
                partition_offset: p.offset,
                disk_size: range_end,
            };
            lemma_anoms_push(anoms, x, parts);
        } else {
            let segs1 = if p.offset > cur { segs + fill_gap(cur, p.offset, al) } else { segs };
            let cur1 = if p.offset > cur { p.offset } else { cur };
            if p.offset > cur {
                lemma_fill_gap(cur, p.offset, al, parts);
                lemma_wf_concat(segs, fill_gap(cur, p.offset, al), parts, al);
                lemma_tiles_concat(segs, fill_gap(cur, p.offset, al), 0, cur as int, p.offset as int);
            }
            let x1 = SegmentAnomaly::PartitionOverlapsPrevious {
                id: p.id,
                partition_offset: p.offset,
                previous_end: cur,
            };
            lemma_anoms_push(anoms, x1, parts);
            let anoms1 = if p.offset < cur { anoms.push(x1) } else { anoms };
            let pend = p.offset.saturating_add(p.size);
            let x2 = SegmentAnomaly::PartitionEndPastDisk { id: p.id, partition_end: pend, disk_size: range_end };
            lemma_anoms_push(anoms1, x2, parts);
            let eff_end = if pend > range_end { range_end } else { pend };
            let eff_size = eff_end.saturating_sub(cur1);
            if eff_size > 0 {
                let seg = partition_seg(p.id, cur1, eff_size);
                assert(segment_well_formed(seg, parts, al));
                assert(segments_well_formed(seq![seg], parts, al));
                lemma_wf_concat(segs1, seq![seg], parts, al);
                assert(segs1.push(seg) =~= segs1 + seq![seg]);
                lemma_tiles_one(seg);
                lemma_tiles_concat(segs1, seq![seg], 0, cur1 as int, eff_end as int);
            }
        }
    }
}

/// Laws of [`disk_segments_spec`]: the segments lie back to back and cover the whole disk; every segment is
/// well-formed (see [`segment_well_formed`]); on a non-empty disk no segment is empty; every
/// anomaly names an input partition.
pub proof fn lemma_disk_segments_laws(
    disk_size: u64,
    partitions: Seq<PartitionExtent>,
    usable_range: Option<(u64, u64)>,
)
    requires
        usable_range is Some ==> disk_size <= u64::MAX - GPT_ALIGNMENT_BYTES,
    ensures
        ({
            let (segs, anoms) = disk_segments_spec(disk_size, partitions, usable_range);
            &&& tiles(segs, 0, disk_size as int)
            &&& segments_well_formed(segs, partitions, seg_layout(disk_size, usable_range).3)
            &&& disk_size > 0 ==> segments_non_empty(segs)
            &&& anomalies_name_partitions(anoms, partitions)
        }),
{
    let (prefix, range_start, range_end, al) = seg_layout(disk_size, usable_range);
    let (segs, anoms) = disk_segments_spec(disk_size, partitions, usable_range);
    if partitions.len() == 0 && al is None {
        lemma_tiles_one(free_seg(0, disk_size));
        return;
    }
    let sorted = sort_by_offset(partitions);
    lemma_sort_contents(partitions);
    let init: Scan = (prefix, seq![], range_start, false);
    if range_start > 0 {
        lemma_tiles_one(reserved_seg(0, range_start));
    }
    assert(scan_inv(init, sorted, range_end, al));
    lemma_scan_inv(sorted, partitions.len(), init, range_end, al);
    let st = scan_prefix(sorted, partitions.len(), init, range_end, al);
    let tail1 = if st.2 < range_end { fill_gap(st.2, range_end, al) } else { seq![] };
    let tail2 = if range_end < disk_size { seq![reserved_seg(range_end, (disk_size - range_end) as u64)] } else { seq![] };
    if st.2 < range_end {
        lemma_fill_gap(st.2, range_end, al, sorted);
    }
    lemma_wf_concat(st.0, tail1, sorted, al);
    lemma_wf_concat(st.0 + tail1, tail2, sorted, al);
    if range_end < disk_size {
        lemma_tiles_one(tail2[0]);
    }
    assert(tiles(st.0, 0, st.2 as int));
    lemma_tiles_concat(st.0, tail1, 0, st.2 as int, range_end as int);
    lemma_tiles_concat(st.0 + tail1, tail2, 0, range_end as int, disk_size as int);
    // Stated over the sorted partitions; the same partitions occur in the input.
    assert forall|i: int| 0 <= i < segs.len() implies segment_well_formed(#[trigger] segs[i], partitions, al) by {
        assert(segment_well_formed(segs[i], sorted, al));
        if segs[i].kind == DiskSegmentKind::Partition {
            let p = choose|p: PartitionExtent| #[trigger] sorted.contains(p) && p.id == segs[i].partition_id->0
                && p.size > 0 && p.offset <= segs[i].offset && segs[i].offset + segs[i].size
                <= p.offset.saturating_add(p.size);
            assert(partitions.contains(p));
        }
    }
    assert forall|i: int| 0 <= i < anoms.len() implies anomaly_names_partition(#[trigger] anoms[i], partitions) by {
        assert(anomaly_names_partition(anoms[i], sorted));
        let p = choose|p: PartitionExtent| #[trigger] sorted.contains(p) && p.id == anomaly_id(anoms[i]);
        assert(partitions.contains(p));
    }
}

// ---------------------------------------------------------------------------
// Empty partitions.

/// The partitions of `s` that are not empty, in their order.
pub open spec fn nonempty_partitions(s: Seq<PartitionExtent>) -> Seq<PartitionExtent>
    decreases s.len(),
{
    if s.len() == 0 {
        seq![]
    } else {
        let r = nonempty_partitions(s.drop_last());
        if s.last().size > 0 { r.push(s.last()) } else { r }
    }
}

proof fn lemma_nonempty_contains(s: Seq<PartitionExtent>, y: PartitionExtent)
    ensures
        nonempty_partitions(s).contains(y) ==> s.contains(y),
    decreases s.len(),
{
    if s.len() > 0 {
        let d = s.drop_last();
        lemma_nonempty_contains(d, y);
        let r = nonempty_partitions(d);
        if nonempty_partitions(s).contains(y) {
            let k = choose|k: int| 0 <= k < nonempty_partitions(s).len() && nonempty_partitions(s)[k] == y;
            if k < r.len() {
                assert(r[k] == y);
                assert(r.contains(y));
                let q = choose|q: int| 0 <= q < d.len() && d[q] == y;
                assert(s[q] == y);
            } else {
                assert(s[s.len() - 1] == y);
            }
        }
    }
}

/// Inserting an empty partition changes nothing once empty partitions are left out.
proof fn lemma_insert_empty(t: Seq<PartitionExtent>, x: PartitionExtent)
    requires
        x.size == 0,
    ensures
        nonempty_partitions(insert_by_offset(t, x)) == nonempty_partitions(t),
    decreases t.len(),
{
    if t.len() == 0 {
        assert(seq![x].drop_last() =~= Seq::<PartitionExtent>::empty());
        assert(nonempty_partitions(seq![x]) == nonempty_partitions(Seq::<PartitionExtent>::empty()));
    } else if t.last().offset <= x.offset {
        assert(t.push(x).drop_last() =~= t);
        assert(t.push(x).last() == x);
    } else {
        lemma_insert_empty(t.drop_last(), x);
        let u = insert_by_offset(t.drop_last(), x);
        let v = u.push(t.last());
        assert(v.drop_last() =~= u);
        assert(v.last() == t.last());
        assert(insert_by_offset(t, x) == v);
        assert(nonempty_partitions(v) == if t.last().size > 0 { nonempty_partitions(u).push(t.last()) } else { nonempty_partitions(u) });
    }
}

/// Leaving out empty partitions commutes with inserting a non-empty one into a sorted list.
proof fn lemma_insert_nonempty(t: Seq<PartitionExtent>, x: PartitionExtent)
    requires
        x.size > 0,
        offsets_sorted(t),
    ensures
        nonempty_partitions(insert_by_offset(t, x)) == insert_by_offset(nonempty_partitions(t), x),
    decreases t.len(),
{
    let nt = nonempty_partitions(t);
    if t.len() == 0 {
        assert(seq![x].drop_last() =~= Seq::<PartitionExtent>::empty());
        assert(seq![x].last() == x);
        assert(nonempty_partitions(seq![x]) == nonempty_partitions(Seq::<PartitionExtent>::empty()).push(x));
        assert(Seq::<PartitionExtent>::empty().push(x) =~= seq![x]);
    } else if t.last().offset <= x.offset {
        assert(t.push(x).drop_last() =~= t);
        assert(t.push(x).last() == x);
        if nt.len() > 0 {
            assert(nt.contains(nt.last()));
            lemma_nonempty_contains(t, nt.last());
            let k = choose|k: int| 0 <= k < t.len() && t[k] == nt.last();
            assert(t[k].offset <= t[t.len() - 1].offset);
        } else {
            assert(nt.push(x) =~= seq![x]);
        }
    } else {
        let d = t.drop_last();
        assert(offsets_sorted(d));
        lemma_insert_nonempty(d, x);
        let u = insert_by_offset(d, x);
        let v = u.push(t.last());
        assert(v.drop_last() =~= u);
        assert(v.last() == t.last());
        assert(insert_by_offset(t, x) == v);
        assert(nonempty_partitions(v) == if t.last().size > 0 { nonempty_partitions(u).push(t.last()) } else { nonempty_partitions(u) });
        let nd = nonempty_partitions(d);
        if t.last().size > 0 {
            let w = nd.push(t.last());
            assert(w.drop_last() =~= nd);
            assert(w.last() == t.last());
            assert(insert_by_offset(w, x) == insert_by_offset(nd, x).push(t.last()));
        }
    }
}

/// Sorting by offset commutes with leaving out empty partitions.
proof fn lemma_sort_nonempty(s: Seq<PartitionExtent>)
    ensures
        sort_by_offset(nonempty_partitions(s)) == nonempty_partitions(sort_by_offset(s)),
    decreases s.len(),
{
    if s.len() > 0 {
        let d = s.drop_last();
        let x = s.last();
        lemma_sort_nonempty(d);
        lemma_sort_contents(d);
        if x.size > 0 {
            let nd = nonempty_partitions(d);
            assert(nd.push(x).drop_last() =~= nd);
            lemma_insert_nonempty(sort_by_offset(d), x);
        } else {
            lemma_insert_empty(sort_by_offset(d), x);
        }
    }
}

/// The scan of the first `k` partitions depends on those partitions only.
proof fn lemma_scan_prefix_agree(
    a: Seq<PartitionExtent>,
    b: Seq<PartitionExtent>,
    k: nat,
    init: Scan,
    range_end: u64,
    alignment: Option<u64>,
)
    requires
        k <= a.len(),
        k <= b.len(),
        forall|i: int| 0 <= i < k ==> a[i] == b[i],
    ensures
        scan_prefix(a, k, init, range_end, alignment) == scan_prefix(b, k, init, range_end, alignment),
    decreases k,
{
    if k > 0 {
        lemma_scan_prefix_agree(a, b, (k - 1) as nat, init, range_end, alignment);
    }
}

/// The scan skips empty partitions.
proof fn lemma_scan_nonempty(parts: Seq<PartitionExtent>, init: Scan, range_end: u64, alignment: Option<u64>)
    ensures
        scan_prefix(parts, parts.len(), init, range_end, alignment) == scan_prefix(
            nonempty_partitions(parts),
            nonempty_partitions(parts).len(),
            init,
            range_end,
            alignment,
        ),
    decreases parts.len(),
{
    if parts.len() > 0 {
        let d = parts.drop_last();
        let x = parts.last();
        let n = parts.len();
        lemma_scan_nonempty(d, init, range_end, alignment);
        lemma_scan_prefix_agree(parts, d, (n - 1) as nat, init, range_end, alignment);
        let nd = nonempty_partitions(d);
        if x.size > 0 {
            let np = nd.push(x);
            lemma_scan_prefix_agree(np, nd, nd.len(), init, range_end, alignment);
            assert(np[np.len() - 1] == x);
        }
    }
}

/// Empty partitions do not count: on a disk that is not empty, leaving them out of the
/// input gives the same segments and the same anomalies.
pub proof fn lemma_empty_partitions_ignored(
    disk_size: u64,
    partitions: Seq<PartitionExtent>,
    usable_range: Option<(u64, u64)>,
)
    requires
        disk_size > 0,
    ensures
        disk_segments_spec(disk_size, partitions, usable_range) == disk_segments_spec(
            disk_size,
            nonempty_partitions(partitions),
            usable_range,
        ),
{
    let (prefix, range_start, range_end, al) = seg_layout(disk_size, usable_range);
    let ne = nonempty_partitions(partitions);
    let init: Scan = (prefix, seq![], range_start, false);
    lemma_sort_nonempty(partitions);
    lemma_sort_contents(partitions);
    lemma_sort_contents(ne);
    let sorted = sort_by_offset(partitions);
    lemma_scan_nonempty(sorted, init, range_end, al);
    if partitions.len() == 0 && al is None {
    } else if ne.len() == 0 && al is None {
        assert(sort_by_offset(ne).len() == 0);
        assert(scan_prefix(sort_by_offset(ne), 0, init, range_end, al) == init);
        let spec = disk_segments_spec(disk_size, partitions, usable_range);
        assert(spec.0 =~= seq![free_seg(0, disk_size)]);
    }
}

// ---------------------------------------------------------------------------
// The segments a drive view shows.

/// The range the partition table leaves for partitions: the GPT usable range; for a DOS table
/// everything after the first MiB (when the disk is larger); none otherwise.
pub open spec fn table_usable_range(size: u64, table_type: Seq<char>, gpt_usable_range: Option<(u64, u64)>) -> Option<(u64, u64)> {
    if table_type == "gpt"@ {
        gpt_usable_range
    } else if table_type == "dos"@ {
        if size > 1048576 { Some((1048576u64, size)) } else { None }
    } else {
        None
    }
}

/// Drops partition segments that name no partition below `count`.
pub open spec fn known_partitions(segs: Seq<DiskSegment>, count: nat) -> Seq<DiskSegment>
    decreases segs.len(),
{
    if segs.len() == 0 {
        seq![]
    } else {
        let rest = known_partitions(segs.drop_last(), count);
        let seg = segs.last();
        if seg.kind == DiskSegmentKind::Partition && !(seg.partition_id matches Some(id) && id < count) {
            rest
        } else {
            rest.push(seg)
        }
    }
}

pub open spec fn all_free(segs: Seq<DiskSegment>) -> bool {
    forall|i: int| 0 <= i < segs.len() ==> (#[trigger] segs[i]).kind == DiskSegmentKind::FreeSpace
}

/// Free space below 10 MiB shown as reserved.
pub open spec fn tiny_free_as_reserved(seg: DiskSegment) -> DiskSegment {
    if seg.kind == DiskSegmentKind::FreeSpace && seg.size < 10485760 {
        DiskSegment { kind: DiskSegmentKind::Reserved, ..seg }
    } else {
        seg
    }
}

/// Reserved segments that touch are joined into one.
pub open spec fn merge_reserved(segs: Seq<DiskSegment>) -> Seq<DiskSegment>
    decreases segs.len(),
{
    if segs.len() == 0 {
        seq![]
    } else {
        let m = merge_reserved(segs.drop_last());
        let seg = segs.last();
        if m.len() > 0 && m.last().kind == DiskSegmentKind::Reserved && seg.kind == DiskSegmentKind::Reserved
            && m.last().offset.saturating_add(m.last().size) == seg.offset {
            m.update(m.len() - 1, DiskSegment { size: m.last().size.saturating_add(seg.size), ..m.last() })
        } else {
            m.push(seg)
        }
    }
}

/// Without reserved space shown: reserved segments and free space below 1 MiB are hidden.
pub open spec fn hide_reserved(segs: Seq<DiskSegment>) -> Seq<DiskSegment>
    decreases segs.len(),
{
    if segs.len() == 0 {
        seq![]
    } else {
        let rest = hide_reserved(segs.drop_last());
        let seg = segs.last();
        if seg.kind == DiskSegmentKind::Reserved || (seg.kind == DiskSegmentKind::FreeSpace && seg.size < 1048576) {
            rest
        } else {
            rest.push(seg)
        }
    }
}

/// The segments a drive view shows, in offset order: the disk segments, with tiny free space
/// shown as reserved (unless everything is free or the drive is below 100 MiB), touching
/// reserved segments joined, and, unless reserved space is shown, reserved and sub-MiB free
/// space hidden; a non-empty drive always shows at least one (free) segment.
pub open spec fn visible_segments_spec(
    size: u64,
    table_type: Seq<char>,
    gpt_usable_range: Option<(u64, u64)>,
    partitions: Seq<PartitionExtent>,
    show_reserved: bool,
) -> Seq<DiskSegment> {
    let usable = table_usable_range(size, table_type, gpt_usable_range);
    let base = known_partitions(disk_segments_spec(size, partitions, usable).0, partitions.len());
    let shown = if !all_free(base) && size >= 104857600 { base.map_values(|s: DiskSegment| tiny_free_as_reserved(s)) } else { base };
    let merged = if shown.len() > 1 { merge_reserved(shown) } else { shown };
    if show_reserved {
        merged
    } else {
        let visible = hide_reserved(merged);
        if visible.len() == 0 && size > 0 {
            match usable {
                Some((start, end)) => if end > start {
                    seq![free_seg(start, (end - start) as u64)]
                } else {
                    seq![free_seg(0, size)]
                },
                None => seq![free_seg(0, size)],
            }
        } else {
            visible
        }
    }
}

/// Lays out the segments of a drive view (see [`visible_segments_spec`]). The partitions are
/// given by extent, each with its index in the drive's partition list as id.
pub fn visible_disk_segments(
    size: u64,
    table_type: &str,
    gpt_usable_range: Option<(u64, u64)>,
    partitions: Vec<PartitionExtent>,
    show_reserved: bool,
) -> (segs: Vec<DiskSegment>)
    requires
        table_usable_range(size, table_type@, gpt_usable_range) is Some ==> size <= u64::MAX
            - GPT_ALIGNMENT_BYTES,
    ensures
        segs@ == visible_segments_spec(size, table_type@, gpt_usable_range, partitions@, show_reserved),
{
    let usable_range = if crate::text::str_equals(table_type, "gpt") {
        gpt_usable_range
    } else if crate::text::str_equals(table_type, "dos") {
        if size > 1048576 { Some((1048576u64, size)) } else { None }
    } else {
        None
    };
    let count = partitions.len();
    let ghost parts = partitions@;
    let computation = compute_disk_segments(size, partitions, usable_range);
    let computed = computation.segments;

    let mut segments: Vec<DiskSegment> = Vec::new();
    let mut i: usize = 0;
    while i < computed.len()
        invariant
            i <= computed@.len(),
            segments@ == known_partitions(computed@.take(i as int), count as nat),
        decreases computed.len() - i,
    {
        let seg = computed[i];
        proof { assert(computed@.take(i + 1).drop_last() =~= computed@.take(i as int)); }
        let known = match seg.partition_id {
            Some(id) => id < count,
            None => false,
        };
        if !(seg.kind == DiskSegmentKind::Partition && !known) {
            segments.push(seg);
        }
        i = i + 1;
    }
    assert(computed@.take(computed.len() as int) =~= computed@);
    let ghost base = segments@;

    let mut every_free = true;
    let mut k: usize = 0;
    while k < segments.len()
        invariant
            k <= segments@.len(),
            every_free == (forall|m: int| 0 <= m < k ==> (#[trigger] segments@[m]).kind == DiskSegmentKind::FreeSpace),
        decreases segments.len() - k,
    {
        if segments[k].kind != DiskSegmentKind::FreeSpace {
            every_free = false;
        }
        k = k + 1;
    }
    let is_small_drive = size < 104857600;
    if !every_free && !is_small_drive {
        let mut j: usize = 0;
        while j < segments.len()
            invariant
                j <= segments@.len(),
                segments@.len() == base.len(),
                forall|m: int| 0 <= m < j ==> segments@[m] == tiny_free_as_reserved(base[m]),
                forall|m: int| j <= m < base.len() ==> segments@[m] == base[m],
            decreases segments.len() - j,
        {
            let seg = segments[j];
            if seg.kind == DiskSegmentKind::FreeSpace && seg.size < 10485760 {
                segments.set(j, DiskSegment { kind: DiskSegmentKind::Reserved, ..seg });
            }
            j = j + 1;
        }
        assert(segments@ =~= base.map_values(|s: DiskSegment| tiny_free_as_reserved(s)));
    }
    let ghost shown = segments@;

    if segments.len() > 1 {
        let mut merged: Vec<DiskSegment> = Vec::new();
        let mut j: usize = 0;
        while j < segments.len()
            invariant
                j <= segments@.len(),
                merged@ == merge_reserved(segments@.take(j as int)),
            decreases segments.len() - j,
        {
            let seg = segments[j];
            proof { assert(segments@.take(j + 1).drop_last() =~= segments@.take(j as int)); }
            let n = merged.len();
            if n > 0 && merged[n - 1].kind == DiskSegmentKind::Reserved && seg.kind == DiskSegmentKind::Reserved
                && merged[n - 1].offset.saturating_add(merged[n - 1].size) == seg.offset {
                let last = merged[n - 1];
                merged.set(n - 1, DiskSegment { size: last.size.saturating_add(seg.size), ..last });
            } else {
                merged.push(seg);
            }
            j = j + 1;
        }
        assert(segments@.take(segments.len() as int) =~= segments@);
        segments = merged;
    }
    let ghost merged_view = segments@;

    if !show_reserved {
        let mut visible: Vec<DiskSegment> = Vec::new();
        let mut j: usize = 0;
        while j < segments.len()
            invariant
                j <= segments@.len(),
                visible@ == hide_reserved(segments@.take(j as int)),
            decreases segments.len() - j,
        {
            let seg = segments[j];
            proof { assert(segments@.take(j + 1).drop_last() =~= segments@.take(j as int)); }
            if !(seg.kind == DiskSegmentKind::Reserved || (seg.kind == DiskSegmentKind::FreeSpace && seg.size < 1048576)) {
                visible.push(seg);
            }
            j = j + 1;
        }
        assert(segments@.take(segments.len() as int) =~= segments@);
        if visible.len() == 0 && size > 0 {
            match usable_range {
                Some((start, end)) => {
                    if end > start {
                        visible.push(DiskSegment::free_space(start, end - start));
                    } else {
                        visible.push(DiskSegment::free_space(0, size));
                    }
                },
                None => visible.push(DiskSegment::free_space(0, size)),
            }
        }
        segments = visible;
    }
    proof {
        assert(usable_range == table_usable_range(size, table_type@, gpt_usable_range)) by {
            reveal_strlit("gpt");
            reveal_strlit("dos");
        }
    }
    segments
}
} // verus!
