//! The sidebar's logical section: the volumes that belong to a logical device (Btrfs, LVM,
//! RAID) become candidates, each shown by the logical roots it resolves to, every root once,
//! or by itself while nothing it resolves to is loaded.
use vstd::prelude::*;
use crate::logical::{LogicalEntity, LogicalEntityId, LogicalEntityKind};
use crate::ordering::{
    pair_before, pair_texts, sorted_positions, stable_order_pairs, stable_order_text, text_before,
};
use crate::text::{eq_ignoring_ascii_case, str_eq_ignore_ascii_case, str_equals, trim, trimmed};
use crate::volume_tree::{UiVolume, VolumeInfo, VolumeKind};
use crate::volumes_control::UiDrive;

verus! {

/// What a volume is a member of.
#[derive(Debug, Clone, Copy, PartialEq, Eq, Structural)]
pub enum LogicalCandidateKind {
    Btrfs,
    LvmPhysicalVolume,
    RaidMember,
}

/// How a candidate's kind is named.
pub fn candidate_kind_label(kind: LogicalCandidateKind) -> (r: &'static str)
    ensures
        r@ == match kind {
            LogicalCandidateKind::Btrfs => "Btrfs"@,
            LogicalCandidateKind::LvmPhysicalVolume => "LVM physical volume"@,
            LogicalCandidateKind::RaidMember => "RAID member"@,
        },
{
    match kind {
        LogicalCandidateKind::Btrfs => "Btrfs",
        LogicalCandidateKind::LvmPhysicalVolume => "LVM physical volume",
        LogicalCandidateKind::RaidMember => "RAID member",
    }
}

/// What a volume is a member of, by its content type (trimmed, without regard to ASCII case):
/// Btrfs, an LVM physical volume (also by its kind), or a RAID member.
pub open spec fn candidate_kind_of(v: VolumeInfo) -> Option<LogicalCandidateKind> {
    let id = trimmed(v.id_type@);
    if eq_ignoring_ascii_case(id, "btrfs"@) {
        Some(LogicalCandidateKind::Btrfs)
    } else if v.kind == VolumeKind::LvmPhysicalVolume || eq_ignoring_ascii_case(id, "lvm2_member"@) {
        Some(LogicalCandidateKind::LvmPhysicalVolume)
    } else if eq_ignoring_ascii_case(id, "linux_raid_member"@) {
        Some(LogicalCandidateKind::RaidMember)
    } else {
        None
    }
}

/// See [`candidate_kind_of`].
pub fn logical_candidate_kind(v: &VolumeInfo) -> (r: Option<LogicalCandidateKind>)
    ensures
        r == candidate_kind_of(*v),
{
    let id = trim(v.id_type.as_str());
    if str_eq_ignore_ascii_case(id, "btrfs") {
        Some(LogicalCandidateKind::Btrfs)
    } else if v.kind == VolumeKind::LvmPhysicalVolume || str_eq_ignore_ascii_case(id, "lvm2_member") {
        Some(LogicalCandidateKind::LvmPhysicalVolume)
    } else if str_eq_ignore_ascii_case(id, "linux_raid_member") {
        Some(LogicalCandidateKind::RaidMember)
    } else {
        None
    }
}

/// A volume that belongs to a logical device.
#[derive(Debug, Clone, PartialEq, Eq)]
pub struct LogicalCandidate {
    pub device_path: String,
    pub kind: LogicalCandidateKind,
}

pub open spec fn cand_view(c: LogicalCandidate) -> (Seq<char>, LogicalCandidateKind) {
    (c.device_path@, c.kind)
}

pub open spec fn cands_view(cs: Seq<LogicalCandidate>) -> Seq<(Seq<char>, LogicalCandidateKind)> {
    cs.map_values(|c: LogicalCandidate| cand_view(c))
}

/// The candidate a volume makes by itself, when it has a kind and a device path.
pub open spec fn own_candidate(v: VolumeInfo) -> Seq<(Seq<char>, LogicalCandidateKind)> {
    match (candidate_kind_of(v), v.device_path) {
        (Some(k), Some(d)) => seq![(d@, k)],
        _ => Seq::empty(),
    }
}

/// The candidates of a volume and of the volumes inside it, each before those inside it.
pub open spec fn tree_candidates(n: UiVolume) -> Seq<(Seq<char>, LogicalCandidateKind)>
    decreases n, 1int,
{
    proof {
        assert(decreases_to!(n => n.children));
        assert(decreases_to!(n.children => n.children@));
    }
    own_candidate(n.volume) + forest_candidates(n.children@)
}

pub open spec fn forest_candidates(vs: Seq<UiVolume>) -> Seq<(Seq<char>, LogicalCandidateKind)>
    decreases vs, 0int,
{
    if vs.len() == 0 {
        Seq::empty()
    } else {
        proof {
            assert(decreases_to!(vs => vs[0]));
        }
        tree_candidates(vs[0]) + forest_candidates(vs.subrange(1, vs.len() as int))
    }
}

/// The candidates of the drives, in order.
pub open spec fn drives_candidates(ds: Seq<UiDrive>) -> Seq<(Seq<char>, LogicalCandidateKind)>
    decreases ds.len(),
{
    if ds.len() == 0 {
        Seq::empty()
    } else {
        drives_candidates(ds.drop_last()) + forest_candidates(ds.last().volumes@)
    }
}

/// `s` without the entries whose device path is that of the entry before.
pub open spec fn dedup_adjacent(s: Seq<(Seq<char>, LogicalCandidateKind)>) -> Seq<(Seq<char>, LogicalCandidateKind)>
    decreases s.len(),
{
    if s.len() == 0 {
        s
    } else if s.len() >= 2 && s[s.len() - 2].0 == s.last().0 {
        dedup_adjacent(s.drop_last())
    } else {
        dedup_adjacent(s.drop_last()).push(s.last())
    }
}

/// The candidates ordered by device path (equal paths in their order), one per device path:
/// the first.
pub open spec fn unique_by_path(all: Seq<(Seq<char>, LogicalCandidateKind)>) -> Seq<(Seq<char>, LogicalCandidateKind)> {
    let keys = all.map_values(|c: (Seq<char>, LogicalCandidateKind)| c.0);
    let o = sorted_positions(all.len(), text_before(keys));
    dedup_adjacent(o.map_values(|i: usize| all[i as int]))
}

fn collect_tree(n: &UiVolume, out: &mut Vec<LogicalCandidate>)
    ensures
        cands_view(final(out)@) == cands_view(old(out)@) + tree_candidates(*n),
    decreases n, 1int,
{
    let ghost start = cands_view(out@);
    match (logical_candidate_kind(&n.volume), &n.volume.device_path) {
        (Some(kind), Some(d)) => {
            out.push(LogicalCandidate { device_path: d.clone(), kind });
            assert(cands_view(out@) =~= start + own_candidate(n.volume));
        },
        _ => {
            assert(cands_view(out@) =~= start + own_candidate(n.volume));
        },
    }
    proof {
        assert(decreases_to!(*n => n.children));
        assert(decreases_to!(n.children => n.children@));
    }
    collect_forest(n.children.as_slice(), out);
    assert(cands_view(out@) =~= start + tree_candidates(*n));
}

fn collect_forest(vs: &[UiVolume], out: &mut Vec<LogicalCandidate>)
    ensures
        cands_view(final(out)@) == cands_view(old(out)@) + forest_candidates(vs@),
    decreases vs@, 0int,
{
    let n = vs.len();
    let mut i: usize = 0;
    assert(vs@.subrange(0, n as int) =~= vs@);
    assert(cands_view(out@) =~= cands_view(old(out)@) + Seq::empty());
    while i < n
        invariant
            n == vs@.len(),
            i <= n,
            cands_view(out@) + forest_candidates(vs@.subrange(i as int, n as int))
                == cands_view(old(out)@) + forest_candidates(vs@),
        decreases n - i,
    {
        let ghost rest = vs@.subrange(i as int, n as int);
        let ghost before = cands_view(out@);
        assert(rest[0] == vs@[i as int]);
        assert(rest.subrange(1, rest.len() as int) =~= vs@.subrange(i + 1, n as int));
        proof {
            assert(decreases_to!(vs@ => vs@[i as int]));
        }
        collect_tree(&vs[i], out);
        assert(cands_view(out@) + forest_candidates(vs@.subrange(i + 1, n as int))
            =~= before + forest_candidates(rest));
        i = i + 1;
    }
    assert(vs@.subrange(n as int, n as int) =~= Seq::<UiVolume>::empty());
    assert(cands_view(out@) + Seq::empty() =~= cands_view(out@));
}

/// The logical candidates of the drives (see [`unique_by_path`] of [`drives_candidates`]).
pub fn logical_candidates(drives: &Vec<UiDrive>) -> (r: Vec<LogicalCandidate>)
    ensures
        cands_view(r@) == unique_by_path(drives_candidates(drives@)),
        forall|i: int, j: int| 0 <= i < j < r@.len() ==> crate::text::chars_lt(r@[i].device_path@, r@[j].device_path@),
{
    let mut all: Vec<LogicalCandidate> = Vec::new();
    let mut d: usize = 0;
    while d < drives.len()
        invariant
            d <= drives@.len(),
            cands_view(all@) == drives_candidates(drives@.take(d as int)),
        decreases drives.len() - d,
    {
        assert(drives@.take(d + 1).drop_last() =~= drives@.take(d as int));
        collect_forest(drives[d].volumes.as_slice(), &mut all);
        d = d + 1;
    }
    assert(drives@.take(drives@.len() as int) =~= drives@);
    let ghost av = cands_view(all@);
    let mut keys: Vec<String> = Vec::new();
    let mut i: usize = 0;
    while i < all.len()
        invariant
            i <= all@.len(),
            av == cands_view(all@),
            crate::ordering::texts(keys@) == av.map_values(|c: (Seq<char>, LogicalCandidateKind)| c.0).take(i as int),
        decreases all.len() - i,
    {
        let ghost prev = keys@;
        keys.push(all[i].device_path.clone());
        assert(crate::ordering::texts(keys@) =~= crate::ordering::texts(prev).push(all@[i as int].device_path@));
        assert(crate::ordering::texts(keys@) =~= av.map_values(|c: (Seq<char>, LogicalCandidateKind)| c.0).take(i + 1));
        i = i + 1;
    }
    let ghost kv = av.map_values(|c: (Seq<char>, LogicalCandidateKind)| c.0);
    assert(crate::ordering::texts(keys@) =~= kv);
    let order = stable_order_text(&keys);
    let ghost sorted = order@.map_values(|i: usize| av[i as int]);
    let mut r: Vec<LogicalCandidate> = Vec::new();
    let mut k: usize = 0;
    while k < order.len()
        invariant
            k <= order@.len(),
            order@.len() == all@.len(),
            keys@.len() == all@.len(),
            crate::ordering::texts(keys@) == kv,
            av == cands_view(all@),
            kv == av.map_values(|c: (Seq<char>, LogicalCandidateKind)| c.0),
            forall|j: int| 0 <= j < order@.len() ==> (#[trigger] order@[j]) < all@.len(),
            sorted == order@.map_values(|i: usize| av[i as int]),
            cands_view(r@) == dedup_adjacent(sorted.take(k as int)),
            crate::ordering::ascends(order@, text_before(kv)),
            forall|a: int, b: int| 0 <= a < b < r@.len() ==> crate::text::chars_lt(r@[a].device_path@, r@[b].device_path@),
            k > 0 ==> r@.len() > 0 && r@.last().device_path@ == kv[order@[k - 1] as int],
        decreases order.len() - k,
    {
        let idx = order[k];
        assert(sorted.take(k + 1).drop_last() =~= sorted.take(k as int));
        let repeat = k > 0 && str_equals(keys[idx].as_str(), keys[order[k - 1]].as_str());
        proof {
            assert(sorted.take(k + 1).last() == av[idx as int]);
            assert(keys@[idx as int]@ == kv[idx as int]);
            if k > 0 {
                assert(sorted.take(k + 1)[k - 1] == av[order@[k - 1] as int]);
                assert(keys@[order@[k - 1] as int]@ == kv[order@[k - 1] as int]);
            }
        }
        if !repeat {
            let c = &all[idx];
            let ghost prev = cands_view(r@);
            let ghost prev_r = r@;
            proof {
                if k > 0 {
                    let kp = kv[order@[k - 1] as int];
                    let kn = kv[idx as int];
                    assert(text_before(kv)(order@[k - 1] as int, order@[k as int] as int));
                    assert(crate::text::chars_lt(kp, kn));
                    assert forall|a: int| 0 <= a < prev_r.len() implies crate::text::chars_lt(#[trigger] prev_r[a].device_path@, kn) by {
                        if a < prev_r.len() - 1 {
                            crate::text::lemma_chars_lt_transitive(prev_r[a].device_path@, kp, kn);
                        }
                    }
                }
            }
            r.push(LogicalCandidate { device_path: c.device_path.clone(), kind: c.kind });
            assert(cands_view(r@) =~= prev.push(av[idx as int]));
            assert(av[idx as int].0 == kv[idx as int]);
        } else {
            proof {
                assert(kv[order@[k - 1] as int] == kv[idx as int]);
            }
        }
        k = k + 1;
    }
    assert(sorted.take(order@.len() as int) =~= sorted);
    r
}

/// The entity is the logical device of a candidate's kind that the candidate is a member of.
pub open spec fn matches_candidate(e: LogicalEntity, c: (Seq<char>, LogicalCandidateKind)) -> bool {
    let kind_fits = match c.1 {
        LogicalCandidateKind::Btrfs => e.kind == LogicalEntityKind::BtrfsFilesystem,
        LogicalCandidateKind::LvmPhysicalVolume => e.kind == LogicalEntityKind::LvmVolumeGroup,
        LogicalCandidateKind::RaidMember => e.kind == LogicalEntityKind::MdRaidArray,
    };
    kind_fits && crate::ordering::texts(e.member_paths@).contains(c.0)
}

/// See [`matches_candidate`].
pub fn logical_entity_matches_candidate(e: &LogicalEntity, c: &LogicalCandidate) -> (r: bool)
    ensures
        r == matches_candidate(*e, cand_view(*c)),
{
    let kind_fits = match c.kind {
        LogicalCandidateKind::Btrfs => e.kind == LogicalEntityKind::BtrfsFilesystem,
        LogicalCandidateKind::LvmPhysicalVolume => e.kind == LogicalEntityKind::LvmVolumeGroup,
        LogicalCandidateKind::RaidMember => e.kind == LogicalEntityKind::MdRaidArray,
    };
    if !kind_fits {
        return false;
    }
    let ghost t = crate::ordering::texts(e.member_paths@);
    let mut i: usize = 0;
    while i < e.member_paths.len()
        invariant
            i <= e.member_paths@.len(),
            t == crate::ordering::texts(e.member_paths@),
            forall|j: int| 0 <= j < i ==> t[j] != c.device_path@,
            match c.kind {
                LogicalCandidateKind::Btrfs => e.kind == LogicalEntityKind::BtrfsFilesystem,
                LogicalCandidateKind::LvmPhysicalVolume => e.kind == LogicalEntityKind::LvmVolumeGroup,
                LogicalCandidateKind::RaidMember => e.kind == LogicalEntityKind::MdRaidArray,
            },
        decreases e.member_paths.len() - i,
    {
        if str_equals(e.member_paths[i].as_str(), c.device_path.as_str()) {
            assert(t[i as int] == c.device_path@);
            assert(t.contains(c.device_path@));
            return true;
        }
        i = i + 1;
    }
    false
}

/// The positions of the entities without a parent that `c` resolves to, in order.
pub open spec fn root_positions(es: Seq<LogicalEntity>, c: (Seq<char>, LogicalCandidateKind)) -> Seq<usize>
    decreases es.len(),
{
    if es.len() == 0 {
        Seq::empty()
    } else {
        let r = root_positions(es.drop_last(), c);
        if es.last().parent_id is None && matches_candidate(es.last(), c) {
            r.push((es.len() - 1) as usize)
        } else {
            r
        }
    }
}

pub open spec fn root_keys(es: Seq<LogicalEntity>, roots: Seq<usize>) -> Seq<(Seq<char>, Seq<char>)> {
    roots.map_values(|i: usize| (es[i as int].name@, es[i as int].id@))
}

/// The roots of `c` ordered by name, then by id.
pub open spec fn sorted_roots(es: Seq<LogicalEntity>, c: (Seq<char>, LogicalCandidateKind)) -> Seq<usize> {
    let r = root_positions(es, c);
    sorted_positions(r.len(), pair_before(root_keys(es, r))).map_values(|k: usize| r[k as int])
}

/// The entities of `order` whose ids are not yet in `assigned`, each id taken once, and the
/// ids assigned after them.
pub open spec fn keep_unassigned(es: Seq<LogicalEntity>, order: Seq<usize>, assigned: Seq<Seq<char>>) -> (Seq<usize>, Seq<Seq<char>>)
    decreases order.len(),
{
    if order.len() == 0 {
        (Seq::empty(), assigned)
    } else {
        let (kept, a) = keep_unassigned(es, order.drop_last(), assigned);
        let id = es[order.last() as int].id@;
        if a.contains(id) {
            (kept, a)
        } else {
            (kept.push(order.last()), a.push(id))
        }
    }
}

/// A row of the logical section.
#[derive(Debug, Clone, PartialEq, Eq)]
pub enum LogicalRow {
    /// The entity at `index` of the loaded entities.
    Entity { index: usize, title: String, selected: bool },
    /// A candidate whose logical device is not loaded; opening it loads it.
    Candidate { device_path: String, kind: LogicalCandidateKind, selected: bool },
}

/// A row as plain values.
pub enum LogicalRowView {
    Entity { index: int, title: Seq<char>, selected: bool },
    Candidate { path: Seq<char>, kind: LogicalCandidateKind, selected: bool },
}

pub open spec fn logical_row_view(r: LogicalRow) -> LogicalRowView {
    match r {
        LogicalRow::Entity { index, title, selected } => LogicalRowView::Entity { index: index as int, title: title@, selected },
        LogicalRow::Candidate { device_path, kind, selected } => LogicalRowView::Candidate { path: device_path@, kind, selected },
    }
}

pub open spec fn logical_rows_view(rows: Seq<LogicalRow>) -> Seq<LogicalRowView> {
    rows.map_values(|r: LogicalRow| logical_row_view(r))
}

/// The title of an entity: a Btrfs filesystem by its first known device, else its name.
pub open spec fn entity_title(e: LogicalEntity) -> Seq<char> {
    if e.kind == LogicalEntityKind::BtrfsFilesystem && e.member_paths@.len() > 0 {
        e.member_paths@[0]@ + " — Btrfs"@
    } else {
        e.name@
    }
}

pub open spec fn opt_id(o: Option<LogicalEntityId>) -> Option<Seq<char>> {
    match o {
        Some(id) => Some(id@),
        None => None,
    }
}

pub open spec fn opt_text(o: Option<String>) -> Option<Seq<char>> {
    match o {
        Some(s) => Some(s@),
        None => None,
    }
}

pub open spec fn entity_rows(es: Seq<LogicalEntity>, kept: Seq<usize>, selected: Option<Seq<char>>) -> Seq<LogicalRowView> {
    kept.map_values(|i: usize| LogicalRowView::Entity {
        index: i as int,
        title: entity_title(es[i as int]),
        selected: selected == Some(es[i as int].id@),
    })
}

/// The rows of the logical section for candidates `cands`, and the ids shown: each candidate
/// in turn shows its roots not shown yet; a candidate without any root shows itself, selected
/// when no entity is and its device is the one selected; a candidate whose roots are all shown
/// already shows nothing.
pub open spec fn section_rows_spec(
    cands: Seq<(Seq<char>, LogicalCandidateKind)>,
    es: Seq<LogicalEntity>,
    selected: Option<Seq<char>>,
    selected_device: Option<Seq<char>>,
) -> (Seq<LogicalRowView>, Seq<Seq<char>>)
    decreases cands.len(),
{
    if cands.len() == 0 {
        (Seq::empty(), Seq::empty())
    } else {
        let (rows, a) = section_rows_spec(cands.drop_last(), es, selected, selected_device);
        let c = cands.last();
        let (kept, a2) = keep_unassigned(es, sorted_roots(es, c), a);
        if kept.len() > 0 {
            (rows + entity_rows(es, kept, selected), a2)
        } else if root_positions(es, c).len() > 0 {
            (rows, a2)
        } else {
            (rows.push(LogicalRowView::Candidate {
                path: c.0,
                kind: c.1,
                selected: selected is None && selected_device == Some(c.0),
            }), a2)
        }
    }
}

fn roots_of(es: &Vec<LogicalEntity>, c: &LogicalCandidate) -> (r: Vec<usize>)
    ensures
        r@ == root_positions(es@, cand_view(*c)),
{
    let mut r: Vec<usize> = Vec::new();
    let mut i: usize = 0;
    while i < es.len()
        invariant
            i <= es@.len(),
            r@ == root_positions(es@.take(i as int), cand_view(*c)),
        decreases es.len() - i,
    {
        assert(es@.take(i + 1).drop_last() =~= es@.take(i as int));
        if es[i].parent_id.is_none() && logical_entity_matches_candidate(&es[i], c) {
            r.push(i);
        }
        i = i + 1;
    }
    assert(es@.take(es@.len() as int) =~= es@);
    r
}

proof fn lemma_root_positions_bound(es: Seq<LogicalEntity>, c: (Seq<char>, LogicalCandidateKind))
    ensures
        forall|k: int| 0 <= k < root_positions(es, c).len() ==> (#[trigger] root_positions(es, c)[k]) < es.len(),
    decreases es.len(),
{
    if es.len() > 0 {
        lemma_root_positions_bound(es.drop_last(), c);
        let r = root_positions(es.drop_last(), c);
        assert forall|k: int| 0 <= k < root_positions(es, c).len() implies (#[trigger] root_positions(es, c)[k]) < es.len() by {
            if k < r.len() {
                assert(r[k] < es.drop_last().len());
            }
        }
    }
}

fn sorted_roots_of(es: &Vec<LogicalEntity>, c: &LogicalCandidate) -> (r: Vec<usize>)
    ensures
        r@ == sorted_roots(es@, cand_view(*c)),
        forall|k: int| 0 <= k < r@.len() ==> (#[trigger] r@[k]) < es@.len(),
{
    let roots = roots_of(es, c);
    proof { lemma_root_positions_bound(es@, cand_view(*c)); }
    let mut keys: Vec<(String, String)> = Vec::new();
    let mut i: usize = 0;
    while i < roots.len()
        invariant
            i <= roots@.len(),
            roots@ == root_positions(es@, cand_view(*c)),
            forall|k: int| 0 <= k < roots@.len() ==> (#[trigger] roots@[k]) < es@.len(),
            pair_texts(keys@) == root_keys(es@, roots@).take(i as int),
        decreases roots.len() - i,
    {
        let e = &es[roots[i]];
        let ghost prev = keys@;
        keys.push((e.name.clone(), e.id.0.clone()));
        assert(pair_texts(keys@) =~= pair_texts(prev).push((e.name@, e.id@)));
        assert(pair_texts(keys@) =~= root_keys(es@, roots@).take(i + 1));
        i = i + 1;
    }
    assert(pair_texts(keys@) =~= root_keys(es@, roots@));
    let order = stable_order_pairs(&keys);
    let mut r: Vec<usize> = Vec::new();
    let mut k: usize = 0;
    while k < order.len()
        invariant
            k <= order@.len(),
            order@.len() == roots@.len(),
            forall|j: int| 0 <= j < order@.len() ==> (#[trigger] order@[j]) < roots@.len(),
            forall|j: int| 0 <= j < roots@.len() ==> (#[trigger] roots@[j]) < es@.len(),
            r@ == order@.map_values(|x: usize| roots@[x as int]).take(k as int),
        decreases order.len() - k,
    {
        r.push(roots[order[k]]);
        assert(r@ =~= order@.map_values(|x: usize| roots@[x as int]).take(k + 1));
        k = k + 1;
    }
    assert(r@ =~= order@.map_values(|x: usize| roots@[x as int]));
    r
}

fn is_assigned(assigned: &Vec<String>, id: &str) -> (r: bool)
    ensures
        r == crate::ordering::texts(assigned@).contains(id@),
{
    let ghost t = crate::ordering::texts(assigned@);
    let mut i: usize = 0;
    while i < assigned.len()
        invariant
            i <= assigned@.len(),
            t == crate::ordering::texts(assigned@),
            forall|j: int| 0 <= j < i ==> t[j] != id@,
        decreases assigned.len() - i,
    {
        if str_equals(assigned[i].as_str(), id) {
            assert(t[i as int] == id@);
            return true;
        }
        i = i + 1;
    }
    false
}

fn entity_title_of(e: &LogicalEntity) -> (r: String)
    ensures
        r@ == entity_title(*e),
{
    if e.kind == LogicalEntityKind::BtrfsFilesystem && e.member_paths.len() > 0 {
        let mut t = e.member_paths[0].clone();
        t.append(" — Btrfs");
        t
    } else {
        e.name.clone()
    }
}

fn same_entity(selected: &Option<LogicalEntityId>, id: &LogicalEntityId) -> (r: bool)
    ensures
        r == (opt_id(*selected) == Some(id@)),
{
    match selected {
        Some(s) => str_equals(s.0.as_str(), id.0.as_str()),
        None => false,
    }
}

/// The rows of the logical section (see [`section_rows_spec`]) for the candidates, in order,
/// over the loaded entities.
pub fn logical_section(
    candidates: &Vec<LogicalCandidate>,
    entities: &Vec<LogicalEntity>,
    selected: &Option<LogicalEntityId>,
    selected_device: &Option<String>,
) -> (rows: Vec<LogicalRow>)
    ensures
        logical_rows_view(rows@) == section_rows_spec(cands_view(candidates@), entities@, opt_id(*selected), opt_text(*selected_device)).0,
{
    let ghost sel = opt_id(*selected);
    let ghost sel_dev = opt_text(*selected_device);
    let mut rows: Vec<LogicalRow> = Vec::new();
    let mut assigned: Vec<String> = Vec::new();
    let mut n: usize = 0;
    while n < candidates.len()
        invariant
            n <= candidates@.len(),
            sel == opt_id(*selected),
            sel_dev == opt_text(*selected_device),
            (logical_rows_view(rows@), crate::ordering::texts(assigned@))
                == section_rows_spec(cands_view(candidates@.take(n as int)), entities@, sel, sel_dev),
        decreases candidates.len() - n,
    {
        let c = &candidates[n];
        let ghost cv = cand_view(*c);
        assert(cands_view(candidates@.take(n + 1)).drop_last() =~= cands_view(candidates@.take(n as int)));
        assert(cands_view(candidates@.take(n + 1)).last() == cv);
        let ghost rows0 = logical_rows_view(rows@);
        let ghost a0 = crate::ordering::texts(assigned@);
        let sorted = sorted_roots_of(entities, c);
        let mut kept_any = false;
        let mut k: usize = 0;
        while k < sorted.len()
            invariant
                k <= sorted@.len(),
                sorted@ == sorted_roots(entities@, cv),
                forall|j: int| 0 <= j < sorted@.len() ==> (#[trigger] sorted@[j]) < entities@.len(),
                sel == opt_id(*selected),
                ({
                    let (kept, a) = keep_unassigned(entities@, sorted@.take(k as int), a0);
                    &&& logical_rows_view(rows@) == rows0 + entity_rows(entities@, kept, sel)
                    &&& crate::ordering::texts(assigned@) == a
                    &&& kept_any == (kept.len() > 0)
                }),
            decreases sorted.len() - k,
        {
            let i = sorted[k];
            let e = &entities[i];
            assert(sorted@.take(k + 1).drop_last() =~= sorted@.take(k as int));
            let ghost (kept0, _a) = keep_unassigned(entities@, sorted@.take(k as int), a0);
            if !is_assigned(&assigned, e.id.0.as_str()) {
                let ghost prev_a = assigned@;
                assigned.push(e.id.0.clone());
                assert(crate::ordering::texts(assigned@) =~= crate::ordering::texts(prev_a).push(e.id@));
                let ghost prev_rows = rows@;
                rows.push(LogicalRow::Entity { index: i, title: entity_title_of(e), selected: same_entity(selected, &e.id) });
                assert(entity_rows(entities@, kept0.push(i), sel) =~= entity_rows(entities@, kept0, sel).push(
                    LogicalRowView::Entity { index: i as int, title: entity_title(entities@[i as int]), selected: sel == Some(entities@[i as int].id@) }));
                assert(logical_rows_view(rows@) =~= logical_rows_view(prev_rows).push(logical_row_view(rows@.last())));
                kept_any = true;
            }
            k = k + 1;
        }
        assert(sorted@.take(sorted@.len() as int) =~= sorted@);
        if !kept_any {
            let roots = roots_of(entities, c);
            if roots.len() == 0 {
                let ghost prev_rows = rows@;
                let is_sel = selected.is_none() && match selected_device {
                    Some(d) => str_equals(d.as_str(), c.device_path.as_str()),
                    None => false,
                };
                rows.push(LogicalRow::Candidate { device_path: c.device_path.clone(), kind: c.kind, selected: is_sel });
                assert(logical_rows_view(rows@) =~= logical_rows_view(prev_rows).push(logical_row_view(rows@.last())));
            }
            assert(entity_rows(entities@, Seq::<usize>::empty(), sel) =~= Seq::<LogicalRowView>::empty());
        }
        n = n + 1;
    }
    assert(candidates@.take(candidates@.len() as int) =~= candidates@);
    rows
}

/// The ids of the entities that the rows show, in order.
pub open spec fn row_ids(es: Seq<LogicalEntity>, rows: Seq<LogicalRowView>) -> Seq<Seq<char>>
    decreases rows.len(),
{
    if rows.len() == 0 {
        Seq::empty()
    } else {
        let r = row_ids(es, rows.drop_last());
        match rows.last() {
            LogicalRowView::Entity { index, .. } => r.push(es[index].id@),
            LogicalRowView::Candidate { .. } => r,
        }
    }
}

pub open spec fn kept_ids(es: Seq<LogicalEntity>, kept: Seq<usize>) -> Seq<Seq<char>> {
    kept.map_values(|i: usize| es[i as int].id@)
}

proof fn lemma_row_ids_append(es: Seq<LogicalEntity>, a: Seq<LogicalRowView>, b: Seq<LogicalRowView>)
    ensures
        row_ids(es, a + b) == row_ids(es, a) + row_ids(es, b),
    decreases b.len(),
{
    if b.len() == 0 {
        assert(a + b =~= a);
        assert(row_ids(es, a) + row_ids(es, b) =~= row_ids(es, a));
    } else {
        lemma_row_ids_append(es, a, b.drop_last());
        assert((a + b).drop_last() =~= a + b.drop_last());
        assert((a + b).last() == b.last());
        match b.last() {
            LogicalRowView::Entity { index, .. } => {
                assert(row_ids(es, a) + row_ids(es, b) =~= (row_ids(es, a) + row_ids(es, b.drop_last())).push(es[index].id@));
            },
            LogicalRowView::Candidate { .. } => {},
        }
    }
}

proof fn lemma_entity_rows_ids(es: Seq<LogicalEntity>, kept: Seq<usize>, selected: Option<Seq<char>>)
    ensures
        row_ids(es, entity_rows(es, kept, selected)) == kept_ids(es, kept),
    decreases kept.len(),
{
    if kept.len() > 0 {
        lemma_entity_rows_ids(es, kept.drop_last(), selected);
        assert(entity_rows(es, kept, selected).drop_last() =~= entity_rows(es, kept.drop_last(), selected));
        assert(kept_ids(es, kept) =~= kept_ids(es, kept.drop_last()).push(es[kept.last() as int].id@));
    } else {
        assert(kept_ids(es, kept) =~= Seq::<Seq<char>>::empty());
    }
}

proof fn lemma_keep_unassigned(es: Seq<LogicalEntity>, order: Seq<usize>, assigned: Seq<Seq<char>>)
    requires
        assigned.no_duplicates(),
    ensures
        ({
            let (kept, a) = keep_unassigned(es, order, assigned);
            a == assigned + kept_ids(es, kept) && a.no_duplicates()
        }),
    decreases order.len(),
{
    if order.len() == 0 {
        assert(assigned + kept_ids(es, Seq::<usize>::empty()) =~= assigned);
    } else {
        lemma_keep_unassigned(es, order.drop_last(), assigned);
        let (kept, a) = keep_unassigned(es, order.drop_last(), assigned);
        let id = es[order.last() as int].id@;
        if !a.contains(id) {
            assert(kept_ids(es, kept.push(order.last())) =~= kept_ids(es, kept).push(id));
            assert(a.push(id) =~= assigned + kept_ids(es, kept.push(order.last())));
            assert forall|i: int, j: int| 0 <= i < a.push(id).len() && 0 <= j < a.push(id).len() && i != j
                implies a.push(id)[i] != a.push(id)[j] by {
                if i < a.len() && j < a.len() {
                } else if i == a.len() {
                    assert(a[j] != id);
                } else {
                    assert(a[i] != id);
                }
            }
        }
    }
}

proof fn lemma_section_ids(
    cands: Seq<(Seq<char>, LogicalCandidateKind)>,
    es: Seq<LogicalEntity>,
    selected: Option<Seq<char>>,
    selected_device: Option<Seq<char>>,
)
    ensures
        ({
            let (rows, a) = section_rows_spec(cands, es, selected, selected_device);
            row_ids(es, rows) == a && a.no_duplicates()
        }),
    decreases cands.len(),
{
    if cands.len() == 0 {
        assert(Seq::<Seq<char>>::empty().no_duplicates());
    } else {
        lemma_section_ids(cands.drop_last(), es, selected, selected_device);
        let (rows, a) = section_rows_spec(cands.drop_last(), es, selected, selected_device);
        let c = cands.last();
        lemma_keep_unassigned(es, sorted_roots(es, c), a);
        let (kept, a2) = keep_unassigned(es, sorted_roots(es, c), a);
        if kept.len() > 0 {
            lemma_row_ids_append(es, rows, entity_rows(es, kept, selected));
            lemma_entity_rows_ids(es, kept, selected);
        } else {
            assert(kept_ids(es, kept) =~= Seq::<Seq<char>>::empty());
            assert(a2 =~= a);
            if root_positions(es, c).len() == 0 {
                let row = LogicalRowView::Candidate { path: c.0, kind: c.1, selected: selected is None && selected_device == Some(c.0) };
                assert(rows.push(row).drop_last() =~= rows);
            }
        }
    }
}

/// Each logical entity is shown at most once in the logical section, however many of its
/// members are candidates.
pub proof fn lemma_section_shows_each_entity_once(
    cands: Seq<(Seq<char>, LogicalCandidateKind)>,
    es: Seq<LogicalEntity>,
    selected: Option<Seq<char>>,
    selected_device: Option<Seq<char>>,
)
    ensures
        row_ids(es, section_rows_spec(cands, es, selected, selected_device).0).no_duplicates(),
{
    lemma_section_ids(cands, es, selected, selected_device);
}

} // verus!
