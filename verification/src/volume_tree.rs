//! The tree of volumes under a drive: finding a volume, finding Btrfs inside containers, and
//! collecting what must be unmounted first.
use vstd::prelude::*;
use crate::text::{str_equals, str_eq_ignore_ascii_case, eq_ignoring_ascii_case};
use vstd::string::StringExecFns;

verus! {

/// What a volume is.
#[derive(Debug, Clone, Copy, PartialEq, Eq, Structural)]
pub enum VolumeKind {
    Filesystem,
    LvmLogicalVolume,
    LvmPhysicalVolume,
    CryptoContainer,
    Partition,
    Block,
}

/// What the library reads of a volume.
#[derive(Debug, Clone)]
pub struct VolumeInfo {
    pub kind: VolumeKind,
    pub label: String,
    pub device_path: Option<String>,
    /// The filesystem or content type, such as `btrfs` or `crypto_LUKS`.
    pub id_type: String,
    /// The volume holds a filesystem.
    pub has_filesystem: bool,
    /// The volume is an encrypted container that is locked.
    pub locked: bool,
    pub mount_points: Vec<String>,
    /// The volume holds a filesystem that can be mounted.
    pub can_mount: bool,
    /// The volume is mounted.
    pub mounted: bool,
    /// The size in bytes.
    pub size: u64,
    /// The bytes in use, when known.
    pub used_bytes: Option<u64>,
}

/// A volume with the volumes it contains.
#[derive(Debug)]
pub struct UiVolume {
    pub volume: VolumeInfo,
    pub children: Vec<UiVolume>,
}

pub open spec fn opt_text(o: Option<String>) -> Option<Seq<char>> {
    match o {
        Some(s) => Some(s@),
        None => None,
    }
}

pub open spec fn is_btrfs(v: VolumeInfo) -> bool {
    eq_ignoring_ascii_case(v.id_type@, "btrfs"@)
}

impl UiVolume {
    /// The device path of the volume.
    pub fn device(&self) -> (r: Option<&str>)
        ensures
            match r {
                Some(p) => self.volume.device_path matches Some(d) && p@ == d@,
                None => self.volume.device_path is None,
            },
    {
        match &self.volume.device_path {
            Some(p) => Some(p.as_str()),
            None => None,
        }
    }
}

/// The first volume, in the order of a walk that visits each volume before what it contains,
/// whose device path is `path`.
pub open spec fn find_in(vs: Seq<UiVolume>, path: Seq<char>) -> Option<UiVolume>
    decreases vs,
{
    if vs.len() == 0 {
        None
    } else {
        let v = vs[0];
        if opt_text(v.volume.device_path) == Some(path) {
            Some(v)
        } else {
            proof {
                assert(decreases_to!(vs => vs[0]));
                assert(decreases_to!(vs[0] => vs[0].children));
                assert(decreases_to!(vs[0].children => vs[0].children@));
            }
            match find_in(v.children@, path) {
                Some(found) => Some(found),
                None => find_in(vs.subrange(1, vs.len() as int), path),
            }
        }
    }
}

fn same_path(a: &Option<String>, b: &str) -> (r: bool)
    ensures
        r == (opt_text(*a) == Some(b@)),
{
    match a {
        Some(p) => str_equals(p.as_str(), b),
        None => false,
    }
}

/// The volume with device path `device_path`, searching each volume before what it contains.
pub fn find_volume_in_ui_tree<'a>(volumes: &'a [UiVolume], device_path: &str) -> (r: Option<&'a UiVolume>)
    ensures
        match r {
            Some(v) => find_in(volumes@, device_path@) == Some(*v),
            None => find_in(volumes@, device_path@) is None,
        },
    decreases volumes@,
{
    let n = volumes.len();
    let mut i: usize = 0;
    assert(volumes@.subrange(0, n as int) =~= volumes@);
    while i < n
        invariant
            n == volumes@.len(),
            i <= n,
            find_in(volumes@, device_path@) == find_in(volumes@.subrange(i as int, n as int), device_path@),
        decreases n - i,
    {
        let ghost rest = volumes@.subrange(i as int, n as int);
        assert(rest[0] == volumes@[i as int]);
        assert(rest.subrange(1, rest.len() as int) =~= volumes@.subrange(i + 1, n as int));
        let v = &volumes[i];
        if same_path(&v.volume.device_path, device_path) {
            return Some(v);
        }
        proof {
            assert(decreases_to!(volumes@ => volumes@[i as int]));
            assert(decreases_to!(volumes@[i as int] => volumes@[i as int].children));
            assert(decreases_to!(volumes@[i as int].children => volumes@[i as int].children@));
        }
        match find_volume_in_ui_tree(v.children.as_slice(), device_path) {
            Some(found) => { return Some(found); },
            None => {},
        }
        i = i + 1;
    }
    None
}

/// The volume for a partition: the one with the partition's device path, if it has one.
pub fn find_volume_for_partition<'a>(volumes: &'a [UiVolume], partition_volume: &VolumeInfo) -> (r: Option<&'a UiVolume>)
    ensures
        match partition_volume.device_path {
            Some(target) => match r {
                Some(v) => find_in(volumes@, target@) == Some(*v),
                None => find_in(volumes@, target@) is None,
            },
            None => r is None,
        },
{
    match &partition_volume.device_path {
        Some(target) => find_volume_in_ui_tree(volumes, target.as_str()),
        None => None,
    }
}

/// The first Btrfs volume among `vs` and what they contain, each before what it contains.
pub open spec fn btrfs_in(vs: Seq<UiVolume>) -> Option<UiVolume>
    decreases vs,
{
    if vs.len() == 0 {
        None
    } else if is_btrfs(vs[0].volume) {
        Some(vs[0])
    } else {
        proof {
            assert(decreases_to!(vs => vs[0]));
            assert(decreases_to!(vs[0] => vs[0].children));
            assert(decreases_to!(vs[0].children => vs[0].children@));
        }
        match btrfs_in(vs[0].children@) {
            Some(found) => Some(found),
            None => btrfs_in(vs.subrange(1, vs.len() as int)),
        }
    }
}

fn find_btrfs_in<'a>(vs: &'a [UiVolume]) -> (r: Option<&'a UiVolume>)
    ensures
        match r {
            Some(v) => btrfs_in(vs@) == Some(*v),
            None => btrfs_in(vs@) is None,
        },
    decreases vs@,
{
    let n = vs.len();
    let mut i: usize = 0;
    assert(vs@.subrange(0, n as int) =~= vs@);
    while i < n
        invariant
            n == vs@.len(),
            i <= n,
            btrfs_in(vs@) == btrfs_in(vs@.subrange(i as int, n as int)),
        decreases n - i,
    {
        let ghost rest = vs@.subrange(i as int, n as int);
        assert(rest[0] == vs@[i as int]);
        assert(rest.subrange(1, rest.len() as int) =~= vs@.subrange(i + 1, n as int));
        let child = &vs[i];
        if str_eq_ignore_ascii_case(child.volume.id_type.as_str(), "btrfs") {
            return Some(child);
        }
        proof {
            assert(decreases_to!(vs@ => vs@[i as int]));
            assert(decreases_to!(vs@[i as int] => vs@[i as int].children));
            assert(decreases_to!(vs@[i as int].children => vs@[i as int].children@));
        }
        match find_btrfs_in(child.children.as_slice()) {
            Some(found) => { return Some(found); },
            None => {},
        }
        i = i + 1;
    }
    None
}

/// The first Btrfs volume inside `node`, each volume searched before what it contains.
pub fn find_btrfs_child(node: &UiVolume) -> (r: Option<&UiVolume>)
    ensures
        match r {
            Some(v) => btrfs_in(node.children@) == Some(*v),
            None => btrfs_in(node.children@) is None,
        },
{
    find_btrfs_in(node.children.as_slice())
}

pub open spec fn first_mount_point(v: VolumeInfo) -> Option<Seq<char>> {
    if v.mount_points@.len() > 0 {
        Some(v.mount_points@[0]@)
    } else {
        None
    }
}

/// Where a Btrfs filesystem in `n` is mounted: a Btrfs volume gives its first mount point
/// (or none), an encrypted container gives what the first of its volumes that holds Btrfs
/// gives, and other volumes hold no Btrfs.
pub open spec fn btrfs_mount_in_node(n: UiVolume) -> Option<Option<Seq<char>>>
    decreases n, 1int,
{
    if is_btrfs(n.volume) {
        Some(first_mount_point(n.volume))
    } else if n.volume.kind == VolumeKind::CryptoContainer {
        proof {
            assert(decreases_to!(n => n.children));
            assert(decreases_to!(n.children => n.children@));
        }
        btrfs_mount_in(n.children@)
    } else {
        None
    }
}

pub open spec fn btrfs_mount_in(vs: Seq<UiVolume>) -> Option<Option<Seq<char>>>
    decreases vs, 0int,
{
    if vs.len() == 0 {
        None
    } else {
        proof {
            assert(decreases_to!(vs => vs[0]));
        }
        match btrfs_mount_in_node(vs[0]) {
            Some(m) => Some(m),
            None => btrfs_mount_in(vs.subrange(1, vs.len() as int)),
        }
    }
}

pub open spec fn opt_opt_text(o: Option<Option<String>>) -> Option<Option<Seq<char>>> {
    match o {
        Some(Some(s)) => Some(Some(s@)),
        Some(None) => Some(None),
        None => None,
    }
}

pub(crate) fn first_mount(v: &VolumeInfo) -> (r: Option<String>)
    ensures
        opt_text(r) == first_mount_point(*v),
{
    if v.mount_points.len() > 0 {
        Some(v.mount_points[0].clone())
    } else {
        None
    }
}

/// Where the Btrfs filesystem in a volume is mounted, looking inside encrypted containers.
pub fn detect_btrfs_in_node(node: &UiVolume) -> (r: Option<Option<String>>)
    ensures
        opt_opt_text(r) == btrfs_mount_in_node(*node),
    decreases node, 1int,
{
    if str_eq_ignore_ascii_case(node.volume.id_type.as_str(), "btrfs") {
        return Some(first_mount(&node.volume));
    }
    if node.volume.kind == VolumeKind::CryptoContainer {
        proof {
            assert(decreases_to!(*node => node.children));
            assert(decreases_to!(node.children => node.children@));
        }
        return detect_btrfs_in(node.children.as_slice());
    }
    None
}

fn detect_btrfs_in(vs: &[UiVolume]) -> (r: Option<Option<String>>)
    ensures
        opt_opt_text(r) == btrfs_mount_in(vs@),
    decreases vs@, 0int,
{
    let n = vs.len();
    let mut i: usize = 0;
    assert(vs@.subrange(0, n as int) =~= vs@);
    while i < n
        invariant
            n == vs@.len(),
            i <= n,
            btrfs_mount_in(vs@) == btrfs_mount_in(vs@.subrange(i as int, n as int)),
        decreases n - i,
    {
        let ghost rest = vs@.subrange(i as int, n as int);
        assert(rest[0] == vs@[i as int]);
        assert(rest.subrange(1, rest.len() as int) =~= vs@.subrange(i + 1, n as int));
        proof {
            assert(decreases_to!(vs@ => vs@[i as int]));
        }
        match detect_btrfs_in_node(&vs[i]) {
            Some(mp) => { return Some(mp); },
            None => {},
        }
        i = i + 1;
    }
    None
}

/// The Btrfs filesystem behind a volume: its mount point (if mounted) and the device path to
/// manage it through. A Btrfs volume stands for itself, and needs a device path; otherwise the
/// volume's node in the tree must hold Btrfs (looking inside encrypted containers) and a
/// Btrfs volume with a device path.
pub open spec fn btrfs_for_volume(volumes: Seq<UiVolume>, volume: VolumeInfo) -> Option<(Option<Seq<char>>, Seq<char>)> {
    if is_btrfs(volume) {
        match volume.device_path {
            Some(d) => Some((first_mount_point(volume), d@)),
            None => None,
        }
    } else {
        match volume.device_path {
            Some(target) => match find_in(volumes, target@) {
                Some(node) => match btrfs_mount_in_node(node) {
                    Some(mp) => match btrfs_in(node.children@) {
                        Some(child) => match child.volume.device_path {
                            Some(d) => Some((mp, d@)),
                            None => None,
                        },
                        None => None,
                    },
                    None => None,
                },
                None => None,
            },
            None => None,
        }
    }
}

pub open spec fn opt_pair_text(o: Option<(Option<String>, String)>) -> Option<(Option<Seq<char>>, Seq<char>)> {
    match o {
        Some((mp, d)) => Some((opt_text(mp), d@)),
        None => None,
    }
}

/// The Btrfs filesystem behind a volume, with its mount point and the device path to manage
/// it through.
pub fn detect_btrfs_for_volume(volumes: &[UiVolume], volume: &VolumeInfo) -> (r: Option<(Option<String>, String)>)
    ensures
        opt_pair_text(r) == btrfs_for_volume(volumes@, *volume),
{
    if str_eq_ignore_ascii_case(volume.id_type.as_str(), "btrfs") {
        let mount_point = first_mount(volume);
        return match &volume.device_path {
            Some(d) => Some((mount_point, d.clone())),
            None => None,
        };
    }
    let node = match find_volume_for_partition(volumes, volume) {
        Some(node) => node,
        None => { return None; },
    };
    let mp = match detect_btrfs_in_node(node) {
        Some(mp) => mp,
        None => { return None; },
    };
    let child = match find_btrfs_child(node) {
        Some(child) => child,
        None => { return None; },
    };
    match child.device() {
        Some(d) => Some((mp, String::from_str(d))),
        None => None,
    }
}

pub open spec fn texts(v: Seq<String>) -> Seq<Seq<char>> {
    v.map_values(|s: String| s@)
}

/// The device paths of the mounted volumes in `n`, each after those of the volumes it
/// contains: the order in which they can be unmounted.
pub open spec fn unmount_order(n: UiVolume) -> Seq<Seq<char>>
    decreases n, 1int,
{
    proof {
        assert(decreases_to!(n => n.children));
        assert(decreases_to!(n.children => n.children@));
    }
    unmount_order_all(n.children@) + if n.volume.can_mount && n.volume.mounted && n.volume.device_path is Some {
        seq![n.volume.device_path->0@]
    } else {
        Seq::<Seq<char>>::empty()
    }
}

pub open spec fn unmount_order_all(vs: Seq<UiVolume>) -> Seq<Seq<char>>
    decreases vs, 0int,
{
    if vs.len() == 0 {
        Seq::empty()
    } else {
        proof {
            assert(decreases_to!(vs => vs[0]));
        }
        unmount_order(vs[0]) + unmount_order_all(vs.subrange(1, vs.len() as int))
    }
}

fn visit_mounted(node: &UiVolume, out: &mut Vec<String>)
    ensures
        texts(final(out)@) == texts(old(out)@) + unmount_order(*node),
    decreases node, 1int,
{
    proof {
        assert(decreases_to!(*node => node.children));
        assert(decreases_to!(node.children => node.children@));
    }
    visit_all_mounted(node.children.as_slice(), out);
    let ghost mid = texts(out@);
    if node.volume.can_mount && node.volume.mounted {
        if let Some(device) = &node.volume.device_path {
            out.push(device.clone());
            assert(texts(out@) =~= mid + seq![device@]);
        }
    }
    assert(texts(out@) =~= texts(old(out)@) + unmount_order(*node));
}

fn visit_all_mounted(vs: &[UiVolume], out: &mut Vec<String>)
    ensures
        texts(final(out)@) == texts(old(out)@) + unmount_order_all(vs@),
    decreases vs@, 0int,
{
    let n = vs.len();
    let mut i: usize = 0;
    assert(vs@.subrange(0, n as int) =~= vs@);
    assert(texts(out@) =~= texts(old(out)@) + Seq::<Seq<char>>::empty());
    while i < n
        invariant
            n == vs@.len(),
            i <= n,
            texts(out@) + unmount_order_all(vs@.subrange(i as int, n as int)) == texts(old(out)@) + unmount_order_all(vs@),
        decreases n - i,
    {
        let ghost rest = vs@.subrange(i as int, n as int);
        let ghost before = texts(out@);
        assert(rest[0] == vs@[i as int]);
        assert(rest.subrange(1, rest.len() as int) =~= vs@.subrange(i + 1, n as int));
        proof {
            assert(decreases_to!(vs@ => vs@[i as int]));
        }
        visit_mounted(&vs[i], out);
        assert(texts(out@) + unmount_order_all(vs@.subrange(i + 1, n as int))
            =~= before + unmount_order_all(rest));
        i = i + 1;
    }
    assert(vs@.subrange(n as int, n as int) =~= Seq::<UiVolume>::empty());
    assert(texts(out@) + Seq::<Seq<char>>::empty() =~= texts(out@));
}

/// The device paths of the mounted volumes in `node`, each after those of the volumes it
/// contains, so that unmounting in this order never meets a busy parent.
pub fn collect_mounted_descendants_leaf_first(node: &UiVolume) -> (r: Vec<String>)
    ensures
        texts(r@) == unmount_order(*node),
{
    let mut out: Vec<String> = Vec::new();
    visit_mounted(node, &mut out);
    assert(texts(out@) =~= Seq::<Seq<char>>::empty() + unmount_order(*node));
    out
}

/// The bytes in use in the first `vs.len()` volumes, counting unknown usage as none.
pub open spec fn used_sum(vs: Seq<UiVolume>) -> nat
    decreases vs.len(),
{
    if vs.len() == 0 {
        0
    } else {
        used_sum(vs.drop_last()) + match vs.last().volume.used_bytes {
            Some(u) => u as nat,
            None => 0,
        }
    }
}

proof fn lemma_used_sum_prefix(vs: Seq<UiVolume>, i: int)
    requires
        0 <= i <= vs.len(),
    ensures
        used_sum(vs.take(i)) <= used_sum(vs),
    decreases vs.len(),
{
    if i < vs.len() {
        assert(vs.drop_last().take(i) =~= vs.take(i));
        lemma_used_sum_prefix(vs.drop_last(), i);
    } else {
        assert(vs.take(i) =~= vs);
    }
}

/// The bytes in use in the volumes that `node` contains directly.
pub fn aggregate_children_usage(node: &UiVolume) -> (total: u64)
    requires
        used_sum(node.children@) <= u64::MAX,
    ensures
        total == used_sum(node.children@),
{
    let ghost vs = node.children@;
    let mut total: u64 = 0;
    let mut i: usize = 0;
    assert(vs.take(0) =~= Seq::<UiVolume>::empty());
    while i < node.children.len()
        invariant
            vs == node.children@,
            i <= vs.len(),
            used_sum(vs) <= u64::MAX,
            total == used_sum(vs.take(i as int)),
        decreases node.children.len() - i,
    {
        assert(vs.take(i + 1).drop_last() =~= vs.take(i as int));
        proof { lemma_used_sum_prefix(vs, i + 1); }
        match node.children[i].volume.used_bytes {
            Some(u) => { total = total + u; },
            None => {},
        }
        i = i + 1;
    }
    assert(vs.take(i as int) =~= vs);
    total
}

} // verus!
