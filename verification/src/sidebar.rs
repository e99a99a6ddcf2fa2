//! Sidebar tree state: expanded nodes, the selected child, and drive-loading bookkeeping.
use vstd::prelude::*;
use crate::ids::new_random_id;
use crate::text::str_equals;
use crate::ordering::{pair_before, sorted_positions, stable_order_pairs, is_order};
use crate::volumes_control::UiDrive;

verus! {

/// A node of the sidebar tree.
#[derive(Clone, Debug, PartialEq, Eq, Hash)]
pub enum SidebarNodeKey {
    Drive(String),
    Volume(String),
    LogicalCandidate(String),
    LogicalEntity(String),
}

/// A node key as plain values: its variant and its text.
pub open spec fn key_view(k: SidebarNodeKey) -> (int, Seq<char>) {
    match k {
        SidebarNodeKey::Drive(s) => (0, s@),
        SidebarNodeKey::Volume(s) => (1, s@),
        SidebarNodeKey::LogicalCandidate(s) => (2, s@),
        SidebarNodeKey::LogicalEntity(s) => (3, s@),
    }
}

pub(crate) fn same_key(a: &SidebarNodeKey, b: &SidebarNodeKey) -> (r: bool)
    ensures
        r == (key_view(*a) == key_view(*b)),
{
    match (a, b) {
        (SidebarNodeKey::Drive(x), SidebarNodeKey::Drive(y)) => str_equals(x.as_str(), y.as_str()),
        (SidebarNodeKey::Volume(x), SidebarNodeKey::Volume(y)) => str_equals(x.as_str(), y.as_str()),
        (SidebarNodeKey::LogicalCandidate(x), SidebarNodeKey::LogicalCandidate(y)) => str_equals(x.as_str(), y.as_str()),
        (SidebarNodeKey::LogicalEntity(x), SidebarNodeKey::LogicalEntity(y)) => str_equals(x.as_str(), y.as_str()),
        _ => false,
    }
}

pub open spec fn keys_view(keys: Seq<SidebarNodeKey>) -> Set<(int, Seq<char>)> {
    keys.map_values(|k: SidebarNodeKey| key_view(k)).to_set()
}

pub open spec fn keys_distinct(keys: Seq<SidebarNodeKey>) -> bool {
    forall|i: int, j: int| 0 <= i < j < keys.len() ==> key_view(#[trigger] keys[i]) != key_view(#[trigger] keys[j])
}

/// The set of expanded sidebar nodes.
#[derive(Debug)]
pub struct ExpandedNodes {
    keys: Vec<SidebarNodeKey>,
}

impl View for ExpandedNodes {
    type V = Set<(int, Seq<char>)>;

    closed spec fn view(&self) -> Set<(int, Seq<char>)> {
        keys_view(self.keys@)
    }
}

proof fn lemma_keys_view_contains(keys: Seq<SidebarNodeKey>, k: (int, Seq<char>))
    ensures
        keys_view(keys).contains(k) <==> exists|i: int| 0 <= i < keys.len() && key_view(#[trigger] keys[i]) == k,
{
    let m = keys.map_values(|x: SidebarNodeKey| key_view(x));
    if keys_view(keys).contains(k) {
        let i = choose|i: int| 0 <= i < m.len() && m[i] == k;
        assert(key_view(keys[i]) == k);
    }
    if exists|i: int| 0 <= i < keys.len() && key_view(#[trigger] keys[i]) == k {
        let i = choose|i: int| 0 <= i < keys.len() && key_view(#[trigger] keys[i]) == k;
        assert(m[i] == k);
    }
}

impl ExpandedNodes {
    #[verifier::type_invariant]
    closed spec fn distinct(self) -> bool {
        keys_distinct(self.keys@)
    }

    pub fn new() -> (s: Self)
        ensures
            s@ == Set::<(int, Seq<char>)>::empty(),
    {
        let s = ExpandedNodes { keys: Vec::new() };
        assert(s@ =~= Set::<(int, Seq<char>)>::empty());
        s
    }

    fn position(&self, key: &SidebarNodeKey) -> (r: Option<usize>)
        ensures
            match r {
                Some(i) => i < self.keys@.len() && key_view(self.keys@[i as int]) == key_view(*key),
                None => !self@.contains(key_view(*key)),
            },
    {
        let mut i: usize = 0;
        while i < self.keys.len()
            invariant
                i <= self.keys@.len(),
                forall|k: int| 0 <= k < i ==> key_view(#[trigger] self.keys@[k]) != key_view(*key),
            decreases self.keys.len() - i,
        {
            if same_key(&self.keys[i], key) {
                return Some(i);
            }
            i = i + 1;
        }
        proof { lemma_keys_view_contains(self.keys@, key_view(*key)); }
        None
    }

    pub fn contains(&self, key: &SidebarNodeKey) -> (r: bool)
        ensures
            r == self@.contains(key_view(*key)),
    {
        match self.position(key) {
            Some(i) => {
                proof { lemma_keys_view_contains(self.keys@, key_view(*key)); }
                true
            },
            None => false,
        }
    }

    /// Expands a collapsed node and collapses an expanded one.
    pub fn toggle(&mut self, key: SidebarNodeKey)
        ensures
            old(self)@.contains(key_view(key)) ==> final(self)@ == old(self)@.remove(key_view(key)),
            !old(self)@.contains(key_view(key)) ==> final(self)@ == old(self)@.insert(key_view(key)),
    {
        proof { use_type_invariant(&*self); }
        let ghost old_keys = self.keys@;
        let ghost kv = key_view(key);
        match self.position(&key) {
            Some(i) => {
                proof { lemma_keys_view_contains(old_keys, kv); }
                let mut keys = Vec::new();
                std::mem::swap(&mut keys, &mut self.keys);
                keys.remove(i);
                proof {
                    let n = keys@;
                    assert(n =~= old_keys.remove(i as int));
                    assert forall|a: int, b: int| 0 <= a < b < n.len() implies key_view(#[trigger] n[a])
                        != key_view(#[trigger] n[b]) by {
                        let oa = if a < i { a } else { a + 1 };
                        let ob = if b < i { b } else { b + 1 };
                        assert(n[a] == old_keys[oa] && n[b] == old_keys[ob]);
                    }
                    assert forall|k: (int, Seq<char>)| keys_view(n).contains(k) <==> keys_view(old_keys).remove(kv).contains(k) by {
                        lemma_keys_view_contains(n, k);
                        lemma_keys_view_contains(old_keys, k);
                        if exists|m: int| 0 <= m < old_keys.len() && key_view(#[trigger] old_keys[m]) == k {
                            let m = choose|m: int| 0 <= m < old_keys.len() && key_view(#[trigger] old_keys[m]) == k;
                            if k != kv {
                                assert(m != i);
                                if m < i {
                                    assert(n[m] == old_keys[m]);
                                } else {
                                    assert(n[m - 1] == old_keys[m]);
                                }
                            }
                        }
                        if exists|m: int| 0 <= m < n.len() && key_view(#[trigger] n[m]) == k {
                            let m = choose|m: int| 0 <= m < n.len() && key_view(#[trigger] n[m]) == k;
                            let om = if m < i { m } else { m + 1 };
                            assert(n[m] == old_keys[om]);
                            assert(om != i as int);
                        }
                    }
                    assert(keys_view(n) =~= keys_view(old_keys).remove(kv));
                }
                self.keys = keys;
            },
            None => {
                let mut keys = Vec::new();
                std::mem::swap(&mut keys, &mut self.keys);
                keys.push(key);
                proof {
                    let n = keys@;
                    assert(n =~= old_keys.push(n[n.len() - 1]));
                    lemma_keys_view_contains(old_keys, kv);
                    assert forall|a: int, b: int| 0 <= a < b < n.len() implies key_view(#[trigger] n[a])
                        != key_view(#[trigger] n[b]) by {
                        if b == n.len() - 1 {
                            assert(n[a] == old_keys[a]);
                        } else {
                            assert(n[a] == old_keys[a] && n[b] == old_keys[b]);
                        }
                    }
                    assert forall|k: (int, Seq<char>)| keys_view(n).contains(k) <==> keys_view(old_keys).insert(kv).contains(k) by {
                        lemma_keys_view_contains(n, k);
                        lemma_keys_view_contains(old_keys, k);
                        if exists|m: int| 0 <= m < old_keys.len() && key_view(#[trigger] old_keys[m]) == k {
                            let m = choose|m: int| 0 <= m < old_keys.len() && key_view(#[trigger] old_keys[m]) == k;
                            assert(n[m] == old_keys[m]);
                        }
                        if k == kv {
                            assert(key_view(n[n.len() - 1]) == kv);
                        }
                        if exists|m: int| 0 <= m < n.len() && key_view(#[trigger] n[m]) == k {
                            let m = choose|m: int| 0 <= m < n.len() && key_view(#[trigger] n[m]) == k;
                            if m < old_keys.len() {
                                assert(n[m] == old_keys[m]);
                            }
                        }
                    }
                    assert(keys_view(n) =~= keys_view(old_keys).insert(kv));
                }
                self.keys = keys;
            },
        }
    }
}

/// Sidebar state that the tree and the drive loading share.
#[derive(Debug)]
pub struct SidebarState {
    /// Expanded nodes in the tree.
    pub expanded: ExpandedNodes,
    /// Selected (focused) child node; drive selection is kept by the navigation model.
    pub selected_child: Option<SidebarNodeKey>,
    pub drives_loading: bool,
    pub network_loading: bool,
    pub drive_builds_pending: usize,
    /// The id of the drive load in progress.
    pub load_id: Option<u128>,
    pub awaiting_drive_list: bool,
    /// Devices whose drive models are still being built for the load in progress.
    pub pending_devices: Vec<String>,
    /// Drive models built for the load in progress.
    pub pending_drives: Vec<UiDrive>,
    pub drive_load_error: Option<String>,
}

impl SidebarState {
    pub fn new() -> (s: Self)
        ensures
            s.expanded@ == Set::<(int, Seq<char>)>::empty(),
            s.selected_child is None,
            !s.drives_loading && !s.network_loading && s.drive_builds_pending == 0,
            s.load_id is None && !s.awaiting_drive_list && s.pending_devices@.len() == 0,
            s.pending_drives@.len() == 0,
            s.drive_load_error is None,
    {
        SidebarState {
            expanded: ExpandedNodes::new(),
            selected_child: None,
            drives_loading: false,
            network_loading: false,
            drive_builds_pending: 0,
            load_id: None,
            awaiting_drive_list: false,
            pending_devices: Vec::new(),
            pending_drives: Vec::new(),
            drive_load_error: None,
        }
    }

    pub fn set_network_loading(&mut self, loading: bool)
        ensures
            *final(self) == (SidebarState { network_loading: loading, ..*old(self) }),
    {
        self.network_loading = loading;
    }

    /// Starts a drive load under a fresh id, which is returned; the previous load's
    /// bookkeeping and error are dropped.
    pub fn start_drive_loading(&mut self) -> (load_id: u128)
        ensures
            *final(self) == (SidebarState {
                load_id: Some(load_id),
                awaiting_drive_list: true,
                drives_loading: true,
                drive_builds_pending: 0,
                pending_devices: final(self).pending_devices,
                pending_drives: final(self).pending_drives,
                drive_load_error: None,
                ..*old(self)
            }),
            final(self).pending_devices@.len() == 0,
            final(self).pending_drives@.len() == 0,
    {
        let load_id = new_random_id();
        self.load_id = Some(load_id);
        self.awaiting_drive_list = true;
        self.drives_loading = true;
        self.drive_builds_pending = 0;
        self.pending_devices.clear();
        self.pending_drives.clear();
        self.drive_load_error = None;
        load_id
    }

    /// Ends the drive load.
    pub fn finish_drive_loading(&mut self)
        ensures
            *final(self) == (SidebarState {
                load_id: None,
                awaiting_drive_list: false,
                pending_devices: final(self).pending_devices,
                pending_drives: final(self).pending_drives,
                drives_loading: false,
                drive_builds_pending: 0,
                ..*old(self)
            }),
            final(self).pending_devices@.len() == 0,
            final(self).pending_drives@.len() == 0,
    {
        self.load_id = None;
        self.awaiting_drive_list = false;
        self.pending_devices.clear();
        self.pending_drives.clear();
        self.drives_loading = false;
        self.drive_builds_pending = 0;
    }

    /// Hands out the drive models built for the load, sorted by device path and then by name
    /// (equal ones in the order they were built), and keeps none.
    pub fn take_pending_drives(&mut self) -> (r: Vec<UiDrive>)
        ensures
            r@ == drives_in_order(old(self).pending_drives@),
            final(self).pending_drives@.len() == 0,
            *final(self) == (SidebarState { pending_drives: final(self).pending_drives, ..*old(self) }),
    {
        let mut drives: Vec<UiDrive> = Vec::new();
        std::mem::swap(&mut drives, &mut self.pending_drives);
        sort_drives(drives)
    }

    pub fn is_expanded(&self, key: &SidebarNodeKey) -> (r: bool)
        ensures
            r == self.expanded@.contains(key_view(*key)),
    {
        self.expanded.contains(key)
    }

    /// Expands a collapsed node and collapses an expanded one.
    pub fn toggle_expanded(&mut self, key: SidebarNodeKey)
        ensures
            old(self).expanded@.contains(key_view(key)) ==> final(self).expanded@ == old(self).expanded@.remove(key_view(key)),
            !old(self).expanded@.contains(key_view(key)) ==> final(self).expanded@ == old(self).expanded@.insert(key_view(key)),
            final(self).selected_child == old(self).selected_child,
            final(self).load_id == old(self).load_id,
    {
        self.expanded.toggle(key);
    }
}

/// The sort key of a drive: its device path, then its name.
pub open spec fn drive_keys(ds: Seq<UiDrive>) -> Seq<(Seq<char>, Seq<char>)> {
    ds.map_values(|d: UiDrive| (d.device@, d.disk.display_name@))
}

/// The drives sorted by device path and then by name, equal ones in their order.
pub open spec fn drives_in_order(ds: Seq<UiDrive>) -> Seq<UiDrive> {
    sorted_positions(ds.len(), pair_before(drive_keys(ds))).map_values(|p: usize| ds[p as int])
}

/// The drives sorted by device path and then by name, equal ones in their order.
pub fn sort_drives(drives: Vec<UiDrive>) -> (r: Vec<UiDrive>)
    ensures
        r@ == drives_in_order(drives@),
{
    let mut drives = drives;
    let n = drives.len();
    let ghost orig = drives@;
    let mut keys: Vec<(String, String)> = Vec::new();
    let mut i: usize = 0;
    while i < n
        invariant
            n == drives@.len(),
            i <= n,
            keys@.len() == i,
            forall|k: int| 0 <= k < i ==> (#[trigger] keys@[k]).0@ == drives@[k].device@ && keys@[k].1@ == drives@[k].disk.display_name@,
        decreases n - i,
    {
        keys.push((drives[i].device.clone(), drives[i].disk.display_name.clone()));
        i = i + 1;
    }
    let order = stable_order_pairs(&keys);
    assert(crate::ordering::pair_texts(keys@) =~= drive_keys(orig));
    let ghost sorted = sorted_positions(n as nat, pair_before(drive_keys(orig)));
    assert(order@ == sorted);
    // Move the drives out, the last first: slot `k` holds drive `n - 1 - k`.
    let mut slots: Vec<Option<UiDrive>> = Vec::new();
    while drives.len() > 0
        invariant
            drives@.len() + slots@.len() == n,
            orig.len() == n,
            drives@ == orig.take(drives@.len() as int),
            forall|k: int| 0 <= k < slots@.len() ==> #[trigger] slots@[k] == Some(orig[n - 1 - k]),
        decreases drives@.len(),
    {
        let ghost before = drives@;
        let d = drives.pop();
        assert(drives@ =~= orig.take(drives@.len() as int));
        slots.push(d);
    }
    let mut out: Vec<UiDrive> = Vec::new();
    let mut t: usize = 0;
    while t < n
        invariant
            orig.len() == n,
            slots@.len() == n,
            is_order(order@, n as nat),
            t <= n,
            out@.len() == t,
            forall|a: int| 0 <= a < t ==> #[trigger] out@[a] == orig[order@[a] as int],
            forall|k: int| 0 <= k < n ==> (#[trigger] slots@[k] is None) == (exists|a: int| 0 <= a < t && order@[a] == n - 1 - k),
            forall|k: int| 0 <= k < n ==> #[trigger] slots@[k] is Some ==> slots@[k] == Some(orig[n - 1 - k]),
        decreases n - t,
    {
        let p = order[t];
        let k = n - 1 - p;
        assert(order@[t as int] < n);
        assert(slots@[k as int] is Some) by {
            if slots@[k as int] is None {
                let a = choose|a: int| 0 <= a < t && order@[a] == n - 1 - k;
                assert(order@[a] != order@[t as int]);
            }
        }
        let ghost before = slots@;
        let taken = slots[k].take();
        assert(slots@ == before.update(k as int, None));
        match taken {
            Some(d) => {
                out.push(d);
            },
            None => {},
        }
        assert forall|j: int| 0 <= j < n implies (#[trigger] slots@[j] is None) == (exists|a: int| 0 <= a < t + 1 && order@[a] == n - 1 - j) by {
            if j != k {
                if exists|a: int| 0 <= a < t + 1 && order@[a] == n - 1 - j {
                    let a = choose|a: int| 0 <= a < t + 1 && order@[a] == n - 1 - j;
                    assert(a != t);
                }
            } else {
                assert(order@[t as int] == n - 1 - j);
            }
        }
        t = t + 1;
    }
    assert(out@ =~= drives_in_order(orig));
    out
}

/// Toggling a node twice leaves the expanded set as it was.
pub proof fn lemma_toggle_twice(expanded: Set<(int, Seq<char>)>, k: (int, Seq<char>))
    ensures
        ({
            let once = if expanded.contains(k) { expanded.remove(k) } else { expanded.insert(k) };
            let twice = if once.contains(k) { once.remove(k) } else { once.insert(k) };
            twice == expanded
        }),
{
    let once = if expanded.contains(k) { expanded.remove(k) } else { expanded.insert(k) };
    let twice = if once.contains(k) { once.remove(k) } else { once.insert(k) };
    assert(twice =~= expanded);
}

} // verus!
