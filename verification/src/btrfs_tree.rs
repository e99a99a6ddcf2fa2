//! The subvolume tree of a Btrfs filesystem in the sidebar: each subvolume under its parent,
//! siblings by name, every subvolume shown once however its parent links run (even in a
//! circle), and subvolumes that no root reaches still shown at the top level.
use vstd::prelude::*;
use vstd::string::StringExecFns;
use crate::ordering::{pair_before, pair_texts, sorted_positions, stable_order_pairs};
use crate::sidebar::{key_view, ExpandedNodes, SidebarNodeKey};
use crate::text::str_equals;

verus! {

/// What the tree reads of a subvolume entity.
#[derive(Debug, Clone)]
pub struct SubvolumeEntity {
    /// The entity's id.
    pub id: String,
    /// The id of the entity it hangs under: the filesystem, or another subvolume.
    pub parent_id: Option<String>,
    /// The id of the filesystem it belongs to.
    pub filesystem: String,
    /// The name it is shown by, which orders siblings.
    pub name: String,
}

/// A row of the tree: the subvolume at `index` of the list, at `depth`.
#[derive(Debug, Clone, Copy, PartialEq, Eq, Structural)]
pub struct SubvolumeRow {
    pub index: usize,
    pub depth: u16,
    /// The subvolume has subvolumes under it.
    pub has_children: bool,
}

pub open spec fn opt_text(o: Option<String>) -> Option<Seq<char>> {
    match o {
        Some(s) => Some(s@),
        None => None,
    }
}

/// The positions of the subvolumes of filesystem `fs` whose parent is `parent`, in order.
pub open spec fn child_positions(subs: Seq<SubvolumeEntity>, fs: Seq<char>, parent: Seq<char>) -> Seq<usize>
    decreases subs.len(),
{
    if subs.len() == 0 {
        Seq::empty()
    } else {
        let r = child_positions(subs.drop_last(), fs, parent);
        let s = subs.last();
        if s.filesystem@ == fs && opt_text(s.parent_id) == Some(parent) {
            r.push((subs.len() - 1) as usize)
        } else {
            r
        }
    }
}

/// The positions of the subvolumes of filesystem `fs`, in order.
pub open spec fn fs_positions(subs: Seq<SubvolumeEntity>, fs: Seq<char>) -> Seq<usize>
    decreases subs.len(),
{
    if subs.len() == 0 {
        Seq::empty()
    } else {
        let r = fs_positions(subs.drop_last(), fs);
        if subs.last().filesystem@ == fs { r.push((subs.len() - 1) as usize) } else { r }
    }
}

pub open spec fn name_keys(subs: Seq<SubvolumeEntity>, pos: Seq<usize>) -> Seq<(Seq<char>, Seq<char>)> {
    pos.map_values(|i: usize| (subs[i as int].name@, subs[i as int].id@))
}

/// The positions `pos` ordered by name, then by id (equal ones in their order).
pub open spec fn by_name(subs: Seq<SubvolumeEntity>, pos: Seq<usize>) -> Seq<usize> {
    sorted_positions(pos.len(), pair_before(name_keys(subs, pos))).map_values(|k: usize| pos[k as int])
}

/// The children of the subvolume with id `id`, by name.
pub open spec fn children(subs: Seq<SubvolumeEntity>, fs: Seq<char>, id: Seq<char>) -> Seq<usize> {
    by_name(subs, child_positions(subs, fs, id))
}

proof fn lemma_child_positions_bound(subs: Seq<SubvolumeEntity>, fs: Seq<char>, parent: Seq<char>)
    ensures
        forall|k: int| 0 <= k < child_positions(subs, fs, parent).len() ==> (#[trigger] child_positions(subs, fs, parent)[k]) < subs.len(),
    decreases subs.len(),
{
    if subs.len() > 0 {
        lemma_child_positions_bound(subs.drop_last(), fs, parent);
        let r = child_positions(subs.drop_last(), fs, parent);
        assert forall|k: int| 0 <= k < child_positions(subs, fs, parent).len() implies (#[trigger] child_positions(subs, fs, parent)[k]) < subs.len() by {
            if k < r.len() {
                assert(r[k] < subs.drop_last().len());
            }
        }
    }
}

proof fn lemma_fs_positions_bound(subs: Seq<SubvolumeEntity>, fs: Seq<char>)
    ensures
        forall|k: int| 0 <= k < fs_positions(subs, fs).len() ==> (#[trigger] fs_positions(subs, fs)[k]) < subs.len(),
    decreases subs.len(),
{
    if subs.len() > 0 {
        lemma_fs_positions_bound(subs.drop_last(), fs);
        let r = fs_positions(subs.drop_last(), fs);
        assert forall|k: int| 0 <= k < fs_positions(subs, fs).len() implies (#[trigger] fs_positions(subs, fs)[k]) < subs.len() by {
            if k < r.len() {
                assert(r[k] < subs.drop_last().len());
            }
        }
    }
}

fn child_positions_of(subs: &Vec<SubvolumeEntity>, fs: &str, parent: &str) -> (r: Vec<usize>)
    ensures
        r@ == child_positions(subs@, fs@, parent@),
        forall|k: int| 0 <= k < r@.len() ==> (#[trigger] r@[k]) < subs@.len(),
{
    let mut r: Vec<usize> = Vec::new();
    let mut i: usize = 0;
    while i < subs.len()
        invariant
            i <= subs@.len(),
            r@ == child_positions(subs@.take(i as int), fs@, parent@),
        decreases subs.len() - i,
    {
        assert(subs@.take(i + 1).drop_last() =~= subs@.take(i as int));
        let s = &subs[i];
        let parent_matches = match &s.parent_id {
            Some(p) => str_equals(p.as_str(), parent),
            None => false,
        };
        if str_equals(s.filesystem.as_str(), fs) && parent_matches {
            r.push(i);
        }
        i = i + 1;
    }
    assert(subs@.take(subs@.len() as int) =~= subs@);
    proof { lemma_child_positions_bound(subs@, fs@, parent@); }
    r
}

fn fs_positions_of(subs: &Vec<SubvolumeEntity>, fs: &str) -> (r: Vec<usize>)
    ensures
        r@ == fs_positions(subs@, fs@),
        forall|k: int| 0 <= k < r@.len() ==> (#[trigger] r@[k]) < subs@.len(),
{
    let mut r: Vec<usize> = Vec::new();
    let mut i: usize = 0;
    while i < subs.len()
        invariant
            i <= subs@.len(),
            r@ == fs_positions(subs@.take(i as int), fs@),
        decreases subs.len() - i,
    {
        assert(subs@.take(i + 1).drop_last() =~= subs@.take(i as int));
        if str_equals(subs[i].filesystem.as_str(), fs) {
            r.push(i);
        }
        i = i + 1;
    }
    assert(subs@.take(subs@.len() as int) =~= subs@);
    proof { lemma_fs_positions_bound(subs@, fs@); }
    r
}

/// The positions `pos` by name (see [`by_name`]).
fn sort_by_name(subs: &Vec<SubvolumeEntity>, pos: &Vec<usize>) -> (r: Vec<usize>)
    requires
        forall|k: int| 0 <= k < pos@.len() ==> (#[trigger] pos@[k]) < subs@.len(),
    ensures
        r@ == by_name(subs@, pos@),
        forall|k: int| 0 <= k < r@.len() ==> (#[trigger] r@[k]) < subs@.len(),
{
    let mut keys: Vec<(String, String)> = Vec::new();
    let mut i: usize = 0;
    while i < pos.len()
        invariant
            i <= pos@.len(),
            forall|k: int| 0 <= k < pos@.len() ==> (#[trigger] pos@[k]) < subs@.len(),
            pair_texts(keys@) == name_keys(subs@, pos@).take(i as int),
        decreases pos.len() - i,
    {
        let s = &subs[pos[i]];
        let ghost prev = keys@;
        keys.push((s.name.clone(), s.id.clone()));
        assert(pair_texts(keys@) =~= pair_texts(prev).push((s.name@, s.id@)));
        assert(pair_texts(keys@) =~= name_keys(subs@, pos@).take(i + 1));
        i = i + 1;
    }
    assert(pair_texts(keys@) =~= name_keys(subs@, pos@));
    let order = stable_order_pairs(&keys);
    let mut r: Vec<usize> = Vec::new();
    let mut k: usize = 0;
    while k < order.len()
        invariant
            k <= order@.len(),
            order@.len() == pos@.len(),
            forall|j: int| 0 <= j < order@.len() ==> (#[trigger] order@[j]) < pos@.len(),
            forall|j: int| 0 <= j < pos@.len() ==> (#[trigger] pos@[j]) < subs@.len(),
            r@ == order@.map_values(|x: usize| pos@[x as int]).take(k as int),
        decreases order.len() - k,
    {
        r.push(pos[order[k]]);
        assert(r@ =~= order@.map_values(|x: usize| pos@[x as int]).take(k + 1));
        k = k + 1;
    }
    assert(r@ =~= order@.map_values(|x: usize| pos@[x as int]));
    r
}

pub open spec fn texts(v: Seq<String>) -> Seq<Seq<char>> {
    v.map_values(|s: String| s@)
}

/// How many subvolumes have an id that is not in `visited`.
pub open spec fn budget(subs: Seq<SubvolumeEntity>, visited: Seq<Seq<char>>) -> nat
    decreases subs.len(),
{
    if subs.len() == 0 {
        0
    } else {
        budget(subs.drop_last(), visited) + if visited.contains(subs.last().id@) { 0nat } else { 1nat }
    }
}

proof fn lemma_budget_bound(subs: Seq<SubvolumeEntity>, visited: Seq<Seq<char>>)
    ensures
        budget(subs, visited) <= subs.len(),
    decreases subs.len(),
{
    if subs.len() > 0 {
        lemma_budget_bound(subs.drop_last(), visited);
    }
}

proof fn lemma_budget_mono(subs: Seq<SubvolumeEntity>, v: Seq<Seq<char>>, w: Seq<Seq<char>>)
    requires
        forall|x: Seq<char>| v.contains(x) ==> w.contains(x),
    ensures
        budget(subs, w) <= budget(subs, v),
    decreases subs.len(),
{
    if subs.len() > 0 {
        lemma_budget_mono(subs.drop_last(), v, w);
    }
}

proof fn lemma_budget_visit(subs: Seq<SubvolumeEntity>, v: Seq<Seq<char>>, i: int)
    requires
        0 <= i < subs.len(),
        !v.contains(subs[i].id@),
    ensures
        budget(subs, v.push(subs[i].id@)) < budget(subs, v),
    decreases subs.len(),
{
    let w = v.push(subs[i].id@);
    assert forall|x: Seq<char>| v.contains(x) implies w.contains(x) by {
        let k = choose|k: int| 0 <= k < v.len() && v[k] == x;
        assert(w[k] == x);
    }
    assert(w[v.len() as int] == subs[i].id@);
    if i == subs.len() - 1 {
        lemma_budget_mono(subs.drop_last(), v, w);
    } else {
        assert(subs.drop_last()[i] == subs[i]);
        lemma_budget_visit(subs.drop_last(), v, i);
        if !w.contains(subs.last().id@) {
            assert(!v.contains(subs.last().id@));
        }
    }
}

/// One level deeper (the depth stops at the largest `u16`).
pub open spec fn deeper(d: u16) -> u16 {
    if d < u16::MAX { (d + 1) as u16 } else { d }
}

/// The rows of subvolume `i` and, when it is expanded, of its children by name at one level
/// deeper, skipping subvolumes already in `visited`; and the visited ids after them. `fuel`
/// bounds the nesting (it suffices when it exceeds [`budget`]).
pub open spec fn subvolume_rows(
    fuel: nat,
    subs: Seq<SubvolumeEntity>,
    fs: Seq<char>,
    i: usize,
    depth: u16,
    expanded: Set<(int, Seq<char>)>,
    visited: Seq<Seq<char>>,
) -> (Seq<SubvolumeRow>, Seq<Seq<char>>)
    decreases fuel, 0int, 0int,
{
    let id = subs[i as int].id@;
    if fuel == 0 || visited.contains(id) {
        (Seq::empty(), visited)
    } else {
        let kids = children(subs, fs, id);
        let row = SubvolumeRow { index: i, depth, has_children: kids.len() > 0 };
        let v1 = visited.push(id);
        if expanded.contains((3int, id)) {
            let (r, v2) = subvolume_forest((fuel - 1) as nat, subs, fs, kids, 0, deeper(depth), expanded, v1);
            (seq![row] + r, v2)
        } else {
            (seq![row], v1)
        }
    }
}

/// The rows of the subvolumes `order`, from its `k`-th entry on (see [`subvolume_rows`]).
pub open spec fn subvolume_forest(
    fuel: nat,
    subs: Seq<SubvolumeEntity>,
    fs: Seq<char>,
    order: Seq<usize>,
    k: int,
    depth: u16,
    expanded: Set<(int, Seq<char>)>,
    visited: Seq<Seq<char>>,
) -> (Seq<SubvolumeRow>, Seq<Seq<char>>)
    decreases fuel, 1int, order.len() - k,
{
    if k < 0 || k >= order.len() {
        (Seq::empty(), visited)
    } else {
        let (r1, v1) = subvolume_rows(fuel, subs, fs, order[k], depth, expanded, visited);
        let (r2, v2) = subvolume_forest(fuel, subs, fs, order, k + 1, depth, expanded, v1);
        (r1 + r2, v2)
    }
}

fn seen(v: &Vec<String>, id: &str) -> (r: bool)
    ensures
        r == texts(v@).contains(id@),
{
    let ghost t = texts(v@);
    let mut i: usize = 0;
    while i < v.len()
        invariant
            i <= v@.len(),
            t == texts(v@),
            forall|j: int| 0 <= j < i ==> t[j] != id@,
        decreases v.len() - i,
    {
        if str_equals(v[i].as_str(), id) {
            assert(t[i as int] == id@);
            return true;
        }
        i = i + 1;
    }
    false
}

pub open spec fn grows(a: Seq<Seq<char>>, b: Seq<Seq<char>>) -> bool {
    forall|x: Seq<char>| a.contains(x) ==> b.contains(x)
}

fn push_subvolume(
    out: &mut Vec<SubvolumeRow>,
    subs: &Vec<SubvolumeEntity>,
    fs: &str,
    i: usize,
    depth: u16,
    expanded: &ExpandedNodes,
    visited: &mut Vec<String>,
    Ghost(fuel): Ghost<nat>,
)
    requires
        i < subs@.len(),
        fuel > budget(subs@, texts(old(visited)@)),
    ensures
        final(out)@ == old(out)@ + subvolume_rows(fuel, subs@, fs@, i, depth, expanded@, texts(old(visited)@)).0,
        texts(final(visited)@) == subvolume_rows(fuel, subs@, fs@, i, depth, expanded@, texts(old(visited)@)).1,
        grows(texts(old(visited)@), texts(final(visited)@)),
    decreases fuel, 0int,
{
    let ghost v0 = texts(visited@);
    let id = &subs[i].id;
    if seen(visited, id.as_str()) {
        assert(out@ =~= old(out)@ + Seq::<SubvolumeRow>::empty());
        return;
    }
    let raw = child_positions_of(subs, fs, id.as_str());
    let kids = sort_by_name(subs, &raw);
    out.push(SubvolumeRow { index: i, depth, has_children: kids.len() > 0 });
    let ghost after_row = out@;
    visited.push(id.clone());
    let ghost v1 = texts(visited@);
    assert(v1 =~= v0.push(id@));
    proof {
        lemma_budget_visit(subs@, v0, i as int);
        assert forall|x: Seq<char>| v0.contains(x) implies v1.contains(x) by {
            let k = choose|k: int| 0 <= k < v0.len() && v0[k] == x;
            assert(v1[k] == x);
        }
        assert(v1[v0.len() as int] == id@);
    }
    let key = SidebarNodeKey::LogicalEntity(id.clone());
    if expanded.contains(&key) {
        let next = if depth < u16::MAX { depth + 1 } else { depth };
        push_forest(out, subs, fs, &kids, next, expanded, visited, Ghost((fuel - 1) as nat));
        assert(out@ =~= old(out)@ + subvolume_rows(fuel, subs@, fs@, i, depth, expanded@, v0).0);
    } else {
        assert(out@ =~= old(out)@ + subvolume_rows(fuel, subs@, fs@, i, depth, expanded@, v0).0);
    }
}

fn push_forest(
    out: &mut Vec<SubvolumeRow>,
    subs: &Vec<SubvolumeEntity>,
    fs: &str,
    order: &Vec<usize>,
    depth: u16,
    expanded: &ExpandedNodes,
    visited: &mut Vec<String>,
    Ghost(fuel): Ghost<nat>,
)
    requires
        forall|k: int| 0 <= k < order@.len() ==> (#[trigger] order@[k]) < subs@.len(),
        fuel > budget(subs@, texts(old(visited)@)),
    ensures
        final(out)@ == old(out)@ + subvolume_forest(fuel, subs@, fs@, order@, 0, depth, expanded@, texts(old(visited)@)).0,
        texts(final(visited)@) == subvolume_forest(fuel, subs@, fs@, order@, 0, depth, expanded@, texts(old(visited)@)).1,
        grows(texts(old(visited)@), texts(final(visited)@)),
    decreases fuel, 1int,
{
    let ghost v0 = texts(visited@);
    let ghost whole = subvolume_forest(fuel, subs@, fs@, order@, 0, depth, expanded@, v0);
    let mut k: usize = 0;
    assert(out@ =~= old(out)@ + Seq::<SubvolumeRow>::empty());
    while k < order.len()
        invariant
            k <= order@.len(),
            forall|j: int| 0 <= j < order@.len() ==> (#[trigger] order@[j]) < subs@.len(),
            fuel > budget(subs@, v0),
            grows(v0, texts(visited@)),
            whole == subvolume_forest(fuel, subs@, fs@, order@, 0, depth, expanded@, v0),
            out@ + subvolume_forest(fuel, subs@, fs@, order@, k as int, depth, expanded@, texts(visited@)).0
                == old(out)@ + whole.0,
            subvolume_forest(fuel, subs@, fs@, order@, k as int, depth, expanded@, texts(visited@)).1 == whole.1,
        decreases order.len() - k,
    {
        let ghost before_out = out@;
        let ghost vk = texts(visited@);
        proof { lemma_budget_mono(subs@, v0, vk); }
        push_subvolume(out, subs, fs, order[k], depth, expanded, visited, Ghost(fuel));
        proof {
            let (r1, v1) = subvolume_rows(fuel, subs@, fs@, order@[k as int], depth, expanded@, vk);
            assert(texts(visited@) == v1);
            assert(out@ + subvolume_forest(fuel, subs@, fs@, order@, k + 1, depth, expanded@, v1).0
                =~= before_out + subvolume_forest(fuel, subs@, fs@, order@, k as int, depth, expanded@, vk).0);
        }
        k = k + 1;
    }
    assert(out@ + Seq::<SubvolumeRow>::empty() =~= out@);
}

/// The ids reached from subvolume `i` through children links (each subvolume once), added to
/// `reached`.
pub open spec fn mark(fuel: nat, subs: Seq<SubvolumeEntity>, fs: Seq<char>, i: usize, reached: Seq<Seq<char>>) -> Seq<Seq<char>>
    decreases fuel, 0int, 0int,
{
    let id = subs[i as int].id@;
    if fuel == 0 || reached.contains(id) {
        reached
    } else {
        mark_all((fuel - 1) as nat, subs, fs, child_positions(subs, fs, id), 0, reached.push(id))
    }
}

pub open spec fn mark_all(
    fuel: nat,
    subs: Seq<SubvolumeEntity>,
    fs: Seq<char>,
    order: Seq<usize>,
    k: int,
    reached: Seq<Seq<char>>,
) -> Seq<Seq<char>>
    decreases fuel, 1int, order.len() - k,
{
    if k < 0 || k >= order.len() {
        reached
    } else {
        mark_all(fuel, subs, fs, order, k + 1, mark(fuel, subs, fs, order[k], reached))
    }
}

fn mark_from(subs: &Vec<SubvolumeEntity>, fs: &str, i: usize, reached: &mut Vec<String>, Ghost(fuel): Ghost<nat>)
    requires
        i < subs@.len(),
        fuel > budget(subs@, texts(old(reached)@)),
    ensures
        texts(final(reached)@) == mark(fuel, subs@, fs@, i, texts(old(reached)@)),
        grows(texts(old(reached)@), texts(final(reached)@)),
    decreases fuel, 0int,
{
    let ghost v0 = texts(reached@);
    let id = &subs[i].id;
    if seen(reached, id.as_str()) {
        return;
    }
    let kids = child_positions_of(subs, fs, id.as_str());
    reached.push(id.clone());
    let ghost v1 = texts(reached@);
    assert(v1 =~= v0.push(id@));
    proof {
        lemma_budget_visit(subs@, v0, i as int);
        assert forall|x: Seq<char>| v0.contains(x) implies v1.contains(x) by {
            let k = choose|k: int| 0 <= k < v0.len() && v0[k] == x;
            assert(v1[k] == x);
        }
    }
    mark_each(subs, fs, &kids, reached, Ghost((fuel - 1) as nat));
}

fn mark_each(subs: &Vec<SubvolumeEntity>, fs: &str, order: &Vec<usize>, reached: &mut Vec<String>, Ghost(fuel): Ghost<nat>)
    requires
        forall|k: int| 0 <= k < order@.len() ==> (#[trigger] order@[k]) < subs@.len(),
        fuel > budget(subs@, texts(old(reached)@)),
    ensures
        texts(final(reached)@) == mark_all(fuel, subs@, fs@, order@, 0, texts(old(reached)@)),
        grows(texts(old(reached)@), texts(final(reached)@)),
    decreases fuel, 1int,
{
    let ghost v0 = texts(reached@);
    let ghost whole = mark_all(fuel, subs@, fs@, order@, 0, v0);
    let mut k: usize = 0;
    while k < order.len()
        invariant
            k <= order@.len(),
            forall|j: int| 0 <= j < order@.len() ==> (#[trigger] order@[j]) < subs@.len(),
            fuel > budget(subs@, v0),
            grows(v0, texts(reached@)),
            whole == mark_all(fuel, subs@, fs@, order@, 0, v0),
            mark_all(fuel, subs@, fs@, order@, k as int, texts(reached@)) == whole,
        decreases order.len() - k,
    {
        let ghost vk = texts(reached@);
        proof { lemma_budget_mono(subs@, v0, vk); }
        mark_from(subs, fs, order[k], reached, Ghost(fuel));
        k = k + 1;
    }
}

/// The positions of `order` whose ids are not in `reached`, in order.
pub open spec fn not_reached(subs: Seq<SubvolumeEntity>, order: Seq<usize>, reached: Seq<Seq<char>>) -> Seq<usize>
    decreases order.len(),
{
    if order.len() == 0 {
        Seq::empty()
    } else {
        let r = not_reached(subs, order.drop_last(), reached);
        if reached.contains(subs[order.last() as int].id@) { r } else { r.push(order.last()) }
    }
}

/// The rows of the subvolume tree of filesystem `fs` (of the subvolumes `subs`): the
/// subvolumes right under the filesystem by name, each with (when expanded) its children by
/// name below it, then, by name, the subvolumes that none of those reaches through children
/// links; every subvolume once.
pub open spec fn subvolume_tree_rows(subs: Seq<SubvolumeEntity>, fs: Seq<char>, expanded: Set<(int, Seq<char>)>) -> Seq<SubvolumeRow> {
    let fuel = (subs.len() + 1) as nat;
    let roots = children(subs, fs, fs);
    let reached = mark_all(fuel, subs, fs, roots, 0, Seq::empty());
    let (r1, v1) = subvolume_forest(fuel, subs, fs, roots, 0, 0, expanded, Seq::empty());
    let rest = not_reached(subs, by_name(subs, fs_positions(subs, fs)), reached);
    r1 + subvolume_forest(fuel, subs, fs, rest, 0, 0, expanded, v1).0
}

/// See [`subvolume_tree_rows`].
pub fn subvolume_tree(subs: &Vec<SubvolumeEntity>, fs: &str, expanded: &ExpandedNodes) -> (rows: Vec<SubvolumeRow>)
    ensures
        rows@ == subvolume_tree_rows(subs@, fs@, expanded@),
{
    let ghost fuel = (subs@.len() + 1) as nat;
    let raw_roots = child_positions_of(subs, fs, fs);
    let roots = sort_by_name(subs, &raw_roots);
    let mut reached: Vec<String> = Vec::new();
    proof {
        assert(texts(reached@) =~= Seq::<Seq<char>>::empty());
        lemma_budget_bound(subs@, texts(reached@));
    }
    mark_each(subs, fs, &roots, &mut reached, Ghost(fuel));
    let mut rows: Vec<SubvolumeRow> = Vec::new();
    let mut visited: Vec<String> = Vec::new();
    proof {
        assert(texts(visited@) =~= Seq::<Seq<char>>::empty());
        lemma_budget_bound(subs@, texts(visited@));
    }
    push_forest(&mut rows, subs, fs, &roots, 0, expanded, &mut visited, Ghost(fuel));
    assert(rows@ =~= subvolume_forest(fuel, subs@, fs@, roots@, 0, 0, expanded@, Seq::empty()).0);
    let all = fs_positions_of(subs, fs);
    let sorted = sort_by_name(subs, &all);
    let mut rest: Vec<usize> = Vec::new();
    let mut k: usize = 0;
    while k < sorted.len()
        invariant
            k <= sorted@.len(),
            forall|j: int| 0 <= j < sorted@.len() ==> (#[trigger] sorted@[j]) < subs@.len(),
            rest@ == not_reached(subs@, sorted@.take(k as int), texts(reached@)),
            forall|j: int| 0 <= j < rest@.len() ==> (#[trigger] rest@[j]) < subs@.len(),
        decreases sorted.len() - k,
    {
        assert(sorted@.take(k + 1).drop_last() =~= sorted@.take(k as int));
        let i = sorted[k];
        if !seen(&reached, subs[i].id.as_str()) {
            rest.push(i);
        }
        k = k + 1;
    }
    assert(sorted@.take(sorted@.len() as int) =~= sorted@);
    proof { lemma_budget_bound(subs@, texts(visited@)); }
    push_forest(&mut rows, subs, fs, &rest, 0, expanded, &mut visited, Ghost(fuel));
    rows
}

/// The ids of the subvolumes that `rows` show, in order.
pub open spec fn row_ids(subs: Seq<SubvolumeEntity>, rows: Seq<SubvolumeRow>) -> Seq<Seq<char>> {
    rows.map_values(|r: SubvolumeRow| subs[r.index as int].id@)
}

proof fn lemma_no_dup_push(v: Seq<Seq<char>>, x: Seq<char>)
    requires
        v.no_duplicates(),
        !v.contains(x),
    ensures
        v.push(x).no_duplicates(),
{
    let w = v.push(x);
    assert forall|a: int, b: int| 0 <= a < w.len() && 0 <= b < w.len() && a != b implies w[a] != w[b] by {
        if a == v.len() {
            assert(v[b] != x);
        } else if b == v.len() {
            assert(v[a] != x);
        }
    }
}

proof fn lemma_rows_visit(
    fuel: nat,
    subs: Seq<SubvolumeEntity>,
    fs: Seq<char>,
    i: usize,
    depth: u16,
    expanded: Set<(int, Seq<char>)>,
    v: Seq<Seq<char>>,
)
    ensures
        ({
            let (r, w) = subvolume_rows(fuel, subs, fs, i, depth, expanded, v);
            &&& w == v + row_ids(subs, r)
            &&& v.no_duplicates() ==> w.no_duplicates()
        }),
    decreases fuel, 0int, 0int,
{
    let id = subs[i as int].id@;
    let (r, w) = subvolume_rows(fuel, subs, fs, i, depth, expanded, v);
    if fuel == 0 || v.contains(id) {
        assert(v + row_ids(subs, r) =~= v);
    } else {
        let kids = children(subs, fs, id);
        let row = SubvolumeRow { index: i, depth, has_children: kids.len() > 0 };
        let v1 = v.push(id);
        if v.no_duplicates() {
            lemma_no_dup_push(v, id);
        }
        if expanded.contains((3int, id)) {
            lemma_forest_visit((fuel - 1) as nat, subs, fs, kids, 0, deeper(depth), expanded, v1);
            let (r2, _w2) = subvolume_forest((fuel - 1) as nat, subs, fs, kids, 0, deeper(depth), expanded, v1);
            assert(row_ids(subs, seq![row] + r2) =~= seq![id] + row_ids(subs, r2));
            assert(v1 + row_ids(subs, r2) =~= v + (seq![id] + row_ids(subs, r2)));
        } else {
            assert(row_ids(subs, seq![row]) =~= seq![id]);
            assert(v1 =~= v + seq![id]);
        }
    }
}

proof fn lemma_forest_visit(
    fuel: nat,
    subs: Seq<SubvolumeEntity>,
    fs: Seq<char>,
    order: Seq<usize>,
    k: int,
    depth: u16,
    expanded: Set<(int, Seq<char>)>,
    v: Seq<Seq<char>>,
)
    ensures
        ({
            let (r, w) = subvolume_forest(fuel, subs, fs, order, k, depth, expanded, v);
            &&& w == v + row_ids(subs, r)
            &&& v.no_duplicates() ==> w.no_duplicates()
        }),
    decreases fuel, 1int, order.len() - k,
{
    if k < 0 || k >= order.len() {
        assert(v + row_ids(subs, Seq::<SubvolumeRow>::empty()) =~= v);
    } else {
        lemma_rows_visit(fuel, subs, fs, order[k], depth, expanded, v);
        let (r1, v1) = subvolume_rows(fuel, subs, fs, order[k], depth, expanded, v);
        lemma_forest_visit(fuel, subs, fs, order, k + 1, depth, expanded, v1);
        let (r2, _v2) = subvolume_forest(fuel, subs, fs, order, k + 1, depth, expanded, v1);
        assert(row_ids(subs, r1 + r2) =~= row_ids(subs, r1) + row_ids(subs, r2));
        assert(v + row_ids(subs, r1) + row_ids(subs, r2) =~= v + (row_ids(subs, r1) + row_ids(subs, r2)));
    }
}

/// Every subvolume is shown at most once in the tree, however its parent links run.
pub proof fn lemma_subvolume_tree_shows_each_once(subs: Seq<SubvolumeEntity>, fs: Seq<char>, expanded: Set<(int, Seq<char>)>)
    ensures
        row_ids(subs, subvolume_tree_rows(subs, fs, expanded)).no_duplicates(),
{
    let fuel = (subs.len() + 1) as nat;
    let roots = children(subs, fs, fs);
    let reached = mark_all(fuel, subs, fs, roots, 0, Seq::empty());
    let empty = Seq::<Seq<char>>::empty();
    lemma_forest_visit(fuel, subs, fs, roots, 0, 0, expanded, empty);
    let (r1, v1) = subvolume_forest(fuel, subs, fs, roots, 0, 0, expanded, empty);
    let rest = not_reached(subs, by_name(subs, fs_positions(subs, fs)), reached);
    lemma_forest_visit(fuel, subs, fs, rest, 0, 0, expanded, v1);
    let (r2, _v2) = subvolume_forest(fuel, subs, fs, rest, 0, 0, expanded, v1);
    assert(empty.no_duplicates());
    assert(empty + row_ids(subs, r1) =~= row_ids(subs, r1));
    assert(row_ids(subs, r1 + r2) =~= row_ids(subs, r1) + row_ids(subs, r2));
}

/// The second line of a subvolume's row: its id, marked when it is the default subvolume.
pub fn subvolume_subtitle(subvolume_id: u64, is_default: bool) -> (r: String)
    ensures
        r@ == (if is_default { "Default subvolume · ID "@ } else { "ID "@ }) + crate::decimal::decimal_digits(subvolume_id as nat),
{
    let mut r = if is_default {
        String::from_str("Default subvolume · ID ")
    } else {
        String::from_str("ID ")
    };
    let digits = crate::decimal::decimal_text(subvolume_id);
    r.append(digits.as_str());
    r
}

} // verus!
