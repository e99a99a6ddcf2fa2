//! The usage tab: what a usage scan found, which files are listed, and how they are selected.
//! Categories are carried as their codes.
use vstd::prelude::*;
use vstd::string::{StrSliceExecFns, StringExecFns};
use crate::text::{chars_lt, str_less, str_equals, lemma_chars_lt_irreflexive, lemma_chars_lt_transitive, lemma_chars_lt_total};
use crate::keyed_map::{sorted_keys, strictly_ascending, lemma_ascending_unique};

verus! {

broadcast use vstd::seq_lib::group_to_multiset_ensures;

/// A file of a category, with its size.
#[derive(Debug, Clone)]
pub struct UsageFile {
    pub path: String,
    pub bytes: u64,
}

/// The bytes a category takes.
#[derive(Debug, Clone)]
pub struct CategoryUsage {
    pub category: u32,
    pub bytes: u64,
}

/// The largest files of a category.
#[derive(Debug, Clone)]
pub struct CategoryTopFiles {
    pub category: u32,
    pub files: Vec<UsageFile>,
}

/// What a usage scan found.
#[derive(Debug, Clone)]
pub struct UsageScanResult {
    pub categories: Vec<CategoryUsage>,
    pub top_files_by_category: Vec<CategoryTopFiles>,
    pub total_bytes: u64,
    pub total_free_bytes: u64,
}

pub open spec fn texts(v: Seq<String>) -> Seq<Seq<char>> {
    v.map_values(|s: String| s@)
}

/// The categories that take some bytes, in the order of the result.
pub open spec fn visible_categories(cats: Seq<CategoryUsage>) -> Seq<u32>
    decreases cats.len(),
{
    if cats.len() == 0 {
        Seq::empty()
    } else {
        visible_categories(cats.drop_last()) + if cats.last().bytes > 0 {
            seq![cats.last().category]
        } else {
            Seq::<u32>::empty()
        }
    }
}

/// Law: a category is shown exactly when some entry of the result gives it a non-zero
/// number of bytes, and no more categories are shown than there are entries.
pub proof fn lemma_visible_categories(cats: Seq<CategoryUsage>)
    ensures
        forall|c: u32| #[trigger] visible_categories(cats).contains(c)
            <==> exists|i: int| 0 <= i < cats.len() && (#[trigger] cats[i]).bytes > 0 && cats[i].category == c,
        visible_categories(cats).len() <= cats.len(),
    decreases cats.len(),
{
    if cats.len() > 0 {
        let d = cats.drop_last();
        lemma_visible_categories(d);
        let v = visible_categories(d);
        let tail = if cats.last().bytes > 0 { seq![cats.last().category] } else { Seq::<u32>::empty() };
        assert forall|c: u32| #[trigger] visible_categories(cats).contains(c)
            <==> exists|i: int| 0 <= i < cats.len() && (#[trigger] cats[i]).bytes > 0 && cats[i].category == c by {
            let w = v + tail;
            if w.contains(c) {
                let k = choose|k: int| 0 <= k < w.len() && w[k] == c;
                if k < v.len() {
                    assert(v[k] == c);
                    assert(v.contains(c));
                    let i = choose|i: int| 0 <= i < d.len() && (#[trigger] d[i]).bytes > 0 && d[i].category == c;
                    assert(cats[i] == d[i]);
                } else {
                    assert(cats[cats.len() - 1].bytes > 0 && cats[cats.len() - 1].category == c);
                }
            }
            if exists|i: int| 0 <= i < cats.len() && (#[trigger] cats[i]).bytes > 0 && cats[i].category == c {
                let i = choose|i: int| 0 <= i < cats.len() && (#[trigger] cats[i]).bytes > 0 && cats[i].category == c;
                if i < d.len() {
                    assert(d[i] == cats[i]);
                    assert(v.contains(c));
                    let k = choose|k: int| 0 <= k < v.len() && v[k] == c;
                    assert(w[k] == c);
                } else {
                    assert(w[v.len() as int] == c);
                }
            }
        }
    }
}

/// The categories of a scan result that take some bytes, in the order of the result.
pub fn visible_usage_categories(result: &UsageScanResult) -> (r: Vec<u32>)
    ensures
        r@ == visible_categories(result.categories@),
        forall|c: u32| #[trigger] r@.contains(c) <==> exists|i: int| 0 <= i < result.categories@.len()
            && (#[trigger] result.categories@[i]).bytes > 0 && result.categories@[i].category == c,
{
    proof { lemma_visible_categories(result.categories@); }
    let cats = &result.categories;
    let mut r: Vec<u32> = Vec::new();
    let mut i: usize = 0;
    assert(cats@.take(0) =~= Seq::<CategoryUsage>::empty());
    while i < cats.len()
        invariant
            i <= cats@.len(),
            r@ == visible_categories(cats@.take(i as int)),
        decreases cats.len() - i,
    {
        assert(cats@.take(i + 1).drop_last() =~= cats@.take(i as int));
        if cats[i].bytes > 0 {
            r.push(cats[i].category);
        }
        i = i + 1;
        assert(r@ =~= visible_categories(cats@.take(i as int)));
    }
    assert(cats@.take(cats@.len() as int) =~= cats@);
    r
}

/// The position of the first top-file list of category `c`.
pub open spec fn first_top(tops: Seq<CategoryTopFiles>, c: u32) -> Option<int> {
    if exists|i: int| 0 <= i < tops.len() && (#[trigger] tops[i]).category == c {
        Some(choose|i: int| 0 <= i < tops.len() && (#[trigger] tops[i]).category == c
            && forall|j: int| 0 <= j < i ==> (#[trigger] tops[j]).category != c)
    } else {
        None
    }
}

pub type FileV = (u64, Seq<char>);

pub open spec fn file_views(files: Seq<UsageFile>) -> Seq<FileV> {
    files.map_values(|f: UsageFile| (f.bytes, f.path@))
}

/// The files listed for category `c`: those of its first top-file list.
pub open spec fn category_files(tops: Seq<CategoryTopFiles>, c: u32) -> Seq<FileV> {
    match first_top(tops, c) {
        Some(i) => file_views(tops[i].files@),
        None => Seq::empty(),
    }
}

/// The files of the selected categories that take some bytes, category by category.
pub open spec fn listed_files(cats: Seq<CategoryUsage>, tops: Seq<CategoryTopFiles>, selected: Seq<u32>) -> Seq<FileV>
    decreases cats.len(),
{
    if cats.len() == 0 {
        Seq::empty()
    } else {
        listed_files(cats.drop_last(), tops, selected) + if cats.last().bytes > 0 && selected.contains(cats.last().category) {
            category_files(tops, cats.last().category)
        } else {
            Seq::<FileV>::empty()
        }
    }
}

/// `a` is listed no later than `b`: larger files first, then by path.
pub open spec fn file_before(a: FileV, b: FileV) -> bool {
    a.0 > b.0 || (a.0 == b.0 && (a.1 == b.1 || chars_lt(a.1, b.1)))
}

/// `a` is listed strictly before `b`.
pub open spec fn file_strictly_before(a: FileV, b: FileV) -> bool {
    a.0 > b.0 || (a.0 == b.0 && chars_lt(a.1, b.1))
}

pub open spec fn files_sorted(q: Seq<FileV>) -> bool {
    forall|i: int, j: int| 0 <= i < j < q.len() ==> file_before(#[trigger] q[i], #[trigger] q[j])
}

pub open spec fn paths_of(q: Seq<FileV>) -> Seq<Seq<char>> {
    q.map_values(|f: FileV| f.1)
}

/// The listed files in their order: larger files first, then by path.
pub open spec fn ordered_files(listed: Seq<FileV>) -> Seq<FileV> {
    choose|q: Seq<FileV>| q.to_multiset() == listed.to_multiset() && files_sorted(q)
}

/// The paths of the files of the selected categories, in their listed order.
pub open spec fn filtered_paths(result: UsageScanResult, selected: Seq<u32>) -> Seq<Seq<char>> {
    paths_of(ordered_files(listed_files(result.categories@, result.top_files_by_category@, selected)))
}

/// Two sorted lists of the same files are the same list.
proof fn lemma_sorted_files_unique(a: Seq<FileV>, b: Seq<FileV>)
    requires
        files_sorted(a),
        files_sorted(b),
        a.to_multiset() == b.to_multiset(),
    ensures
        a == b,
    decreases a.len(),
{
    a.to_multiset_ensures();
    b.to_multiset_ensures();
    if a.len() == 0 {
        assert(b.len() == 0);
        assert(a =~= b);
    } else {
        assert(b.len() == a.len());
        assert(a.to_multiset().count(a[0]) > 0);
        assert(b.contains(a[0]));
        assert(b.to_multiset().count(b[0]) > 0);
        assert(a.contains(b[0]));
        let j = choose|j: int| 0 <= j < b.len() && b[j] == a[0];
        let i = choose|i: int| 0 <= i < a.len() && a[i] == b[0];
        assert(file_before(b[0], a[0])) by {
            if j > 0 {
                assert(file_before(b[0], b[j]));
            }
        }
        assert(file_before(a[0], b[0])) by {
            if i > 0 {
                assert(file_before(a[0], a[i]));
            }
        }
        lemma_chars_lt_total(a[0].1, b[0].1);
        assert(a[0] == b[0]);
        assert(a.remove(0) =~= a.drop_first());
        assert(b.remove(0) =~= b.drop_first());
        assert(a.drop_first().to_multiset() == b.drop_first().to_multiset());
        assert(files_sorted(a.drop_first())) by {
            assert forall|x: int, y: int| 0 <= x < y < a.drop_first().len() implies file_before(#[trigger] a.drop_first()[x], #[trigger] a.drop_first()[y]) by {
                assert(a.drop_first()[x] == a[x + 1] && a.drop_first()[y] == a[y + 1]);
            }
        }
        assert(files_sorted(b.drop_first())) by {
            assert forall|x: int, y: int| 0 <= x < y < b.drop_first().len() implies file_before(#[trigger] b.drop_first()[x], #[trigger] b.drop_first()[y]) by {
                assert(b.drop_first()[x] == b[x + 1] && b.drop_first()[y] == b[y + 1]);
            }
        }
        lemma_sorted_files_unique(a.drop_first(), b.drop_first());
        assert(a =~= seq![a[0]] + a.drop_first());
        assert(b =~= seq![b[0]] + b.drop_first());
    }
}

proof fn lemma_file_order(a: FileV, b: FileV, c: FileV)
    ensures
        !file_strictly_before(a, b) ==> file_before(b, a),
        file_strictly_before(a, b) && file_before(b, c) ==> file_strictly_before(a, c),
{
    lemma_chars_lt_total(a.1, b.1);
    if file_strictly_before(a, b) && file_before(b, c) && a.0 == c.0 {
        if b.1 != c.1 {
            lemma_chars_lt_transitive(a.1, b.1, c.1);
        }
    }
}

fn find_top(tops: &Vec<CategoryTopFiles>, c: u32) -> (r: Option<usize>)
    ensures
        match r {
            Some(i) => first_top(tops@, c) == Some(i as int) && i < tops@.len(),
            None => first_top(tops@, c) is None,
        },
{
    let mut i: usize = 0;
    while i < tops.len()
        invariant
            i <= tops@.len(),
            forall|j: int| 0 <= j < i ==> (#[trigger] tops@[j]).category != c,
        decreases tops.len() - i,
    {
        if tops[i].category == c {
            proof {
                let ii = i as int;
                assert(0 <= ii < tops@.len() && tops@[ii].category == c && forall|j: int| 0 <= j < ii ==> (#[trigger] tops@[j]).category != c);
                let k = first_top(tops@, c)->0;
                if k < ii {
                    assert(tops@[k].category != c);
                } else if k > ii {
                    assert(tops@[ii].category != c);
                }
            }
            return Some(i);
        }
        i = i + 1;
    }
    None
}

fn contains_category(selected: &Vec<u32>, c: u32) -> (r: bool)
    ensures
        r == selected@.contains(c),
{
    let mut i: usize = 0;
    while i < selected.len()
        invariant
            i <= selected@.len(),
            forall|j: int| 0 <= j < i ==> selected@[j] != c,
        decreases selected.len() - i,
    {
        if selected[i] == c {
            assert(selected@[i as int] == c);
            return true;
        }
        i = i + 1;
    }
    false
}

pub open spec fn pair_views(v: Seq<(u64, String)>) -> Seq<FileV> {
    v.map_values(|p: (u64, String)| (p.0, p.1@))
}

/// Inserts `x` among sorted files where it belongs.
fn insert_sorted(out: &mut Vec<(u64, String)>, x: (u64, String))
    requires
        files_sorted(pair_views(old(out)@)),
    ensures
        files_sorted(pair_views(final(out)@)),
        pair_views(final(out)@).to_multiset() == pair_views(old(out)@).to_multiset().insert((x.0, x.1@)),
{
    let ghost before = pair_views(out@);
    let ghost xv: FileV = (x.0, x.1@);
    let mut j: usize = 0;
    while j < out.len()
        && !(x.0 > out[j].0 || (x.0 == out[j].0 && str_less(x.1.as_str(), out[j].1.as_str())))
        invariant
            before == pair_views(out@),
            xv == (x.0, x.1@),
            j <= out@.len(),
            forall|t: int| 0 <= t < j ==> !file_strictly_before(xv, #[trigger] before[t]),
        decreases out.len() - j,
    {
        assert(before[j as int] == (out@[j as int].0, out@[j as int].1@));
        j = j + 1;
    }
    proof {
        if j < out@.len() {
            assert(before[j as int] == (out@[j as int].0, out@[j as int].1@));
            assert(file_strictly_before(xv, before[j as int]));
        }
    }
    out.insert(j, x);
    proof {
        let after = pair_views(out@);
        assert(after =~= before.insert(j as int, xv));
        assert forall|a: int, b: int| 0 <= a < b < after.len() implies file_before(#[trigger] after[a], #[trigger] after[b]) by {
            if b < j {
                assert(after[a] == before[a] && after[b] == before[b]);
            } else if b == j {
                assert(after[a] == before[a]);
                lemma_file_order(xv, before[a], xv);
            } else if a < j {
                assert(after[a] == before[a] && after[b] == before[b - 1]);
                lemma_file_order(xv, before[a], xv);
                lemma_file_order(xv, before[j as int], before[b - 1]);
                if j < b - 1 {
                    assert(file_before(before[j as int], before[b - 1]));
                }
                lemma_file_order(before[a], xv, before[b - 1]);
                assert(file_before(before[a], xv));
                if before[a].0 == before[b - 1].0 && before[a].1 != before[b - 1].1 {
                    lemma_chars_lt_total(before[a].1, xv.1);
                    if xv.1 != before[b - 1].1 && before[a].1 != xv.1 {
                        lemma_chars_lt_transitive(before[a].1, xv.1, before[b - 1].1);
                    }
                }
            } else if a == j {
                assert(after[a] == xv && after[b] == before[b - 1]);
                if j < b - 1 {
                    assert(file_before(before[j as int], before[b - 1]));
                }
                lemma_file_order(xv, before[j as int], before[b - 1]);
            } else {
                assert(after[a] == before[a - 1] && after[b] == before[b - 1]);
            }
        }
    }
}

/// The paths of the files listed for the selected categories, larger files first, then by path.
pub fn usage_filtered_file_paths(result: &UsageScanResult, selected: &Vec<u32>) -> (r: Vec<String>)
    ensures
        texts(r@) == filtered_paths(*result, selected@),
{
    let cats = &result.categories;
    let tops = &result.top_files_by_category;
    let ghost listed = listed_files(cats@, tops@, selected@);
    let mut files: Vec<(u64, String)> = Vec::new();
    let mut i: usize = 0;
    assert(cats@.take(0) =~= Seq::<CategoryUsage>::empty());
    assert(pair_views(files@).to_multiset() =~= vstd::multiset::Multiset::<FileV>::empty());
    while i < cats.len()
        invariant
            i <= cats@.len(),
            files_sorted(pair_views(files@)),
            pair_views(files@).to_multiset() == listed_files(cats@.take(i as int), tops@, selected@).to_multiset(),
        decreases cats.len() - i,
    {
        let ghost prefix = cats@.take(i as int);
        assert(cats@.take(i + 1).drop_last() =~= prefix);
        assert(cats@.take(i + 1).last() == cats@[i as int]);
        let entry = &cats[i];
        if entry.bytes > 0 && contains_category(selected, entry.category) {
            match find_top(tops, entry.category) {
                Some(t) => {
                    let top_files = &tops[t].files;
                    let ghost part = file_views(top_files@);
                    let ghost start = pair_views(files@).to_multiset();
                    let mut k: usize = 0;
                    assert(part.take(0) =~= Seq::<FileV>::empty());
                    while k < top_files.len()
                        invariant
                            part == file_views(top_files@),
                            k <= top_files@.len(),
                            files_sorted(pair_views(files@)),
                            pair_views(files@).to_multiset() == start.add(part.take(k as int).to_multiset()),
                        decreases top_files.len() - k,
                    {
                        let f = &top_files[k];
                        insert_sorted(&mut files, (f.bytes, f.path.clone()));
                        proof {
                            assert(part.take(k + 1) =~= part.take(k as int).push(part[k as int]));
                            assert(part[k as int] == (f.bytes, f.path@));
                        }
                        k = k + 1;
                    }
                    proof {
                        assert(part.take(k as int) =~= part);
                        vstd::seq_lib::lemma_multiset_commutative(listed_files(prefix, tops@, selected@), part);
                    }
                },
                None => {
                    assert(category_files(tops@, entry.category) =~= Seq::<FileV>::empty());
                    assert(listed_files(prefix, tops@, selected@) + Seq::<FileV>::empty() =~= listed_files(prefix, tops@, selected@));
                },
            }
        } else {
            assert(listed_files(prefix, tops@, selected@) + Seq::<FileV>::empty() =~= listed_files(prefix, tops@, selected@));
        }
        i = i + 1;
    }
    assert(cats@.take(cats@.len() as int) =~= cats@);
    let ghost q = pair_views(files@);
    let mut r: Vec<String> = Vec::new();
    let mut m: usize = 0;
    while m < files.len()
        invariant
            q == pair_views(files@),
            m <= files@.len(),
            texts(r@) == paths_of(q).take(m as int),
        decreases files.len() - m,
    {
        let path = files[m].1.clone();
        proof {
            assert(q[m as int] == (files@[m as int].0, files@[m as int].1@));
            assert(paths_of(q)[m as int] == path@);
        }
        let ghost before = r@;
        r.push(path);
        assert(texts(r@) =~= texts(before).push(path@));
        m = m + 1;
        assert(texts(r@) =~= paths_of(q).take(m as int));
    }
    assert(paths_of(q).take(m as int) =~= paths_of(q));
    proof {
        let listed_all = listed_files(cats@, tops@, selected@);
        assert(q.to_multiset() == listed_all.to_multiset() && files_sorted(q));
        lemma_sorted_files_unique(q, ordered_files(listed_all));
    }
    r
}

/// The strings of `v` in ascending order, each once.
pub fn sorted_unique(v: &Vec<String>) -> (r: Vec<String>)
    ensures
        texts(r@) == sorted_keys(texts(v@).to_set()),
{
    let ghost tv = texts(v@);
    let mut out: Vec<String> = Vec::new();
    let mut i: usize = 0;
    assert(texts(out@).to_set() =~= tv.take(0).to_set());
    while i < v.len()
        invariant
            tv == texts(v@),
            i <= v@.len(),
            strictly_ascending(texts(out@)),
            texts(out@).to_set() == tv.take(i as int).to_set(),
        decreases v.len() - i,
    {
        let ghost before = texts(out@);
        let ghost x = tv[i as int];
        assert(v@[i as int]@ == x);
        let mut j: usize = 0;
        while j < out.len() && str_less(out[j].as_str(), v[i].as_str())
            invariant
                before == texts(out@),
                x == v@[i as int]@,
                i < v@.len(),
                j <= out@.len(),
                forall|t: int| 0 <= t < j ==> chars_lt(#[trigger] before[t], x),
            decreases out.len() - j,
        {
            assert(before[j as int] == out@[j as int]@);
            j = j + 1;
        }
        let duplicate = j < out.len() && str_equals(out[j].as_str(), v[i].as_str());
        proof {
            if j < out@.len() {
                assert(before[j as int] == out@[j as int]@);
            }
            assert(tv.take(i + 1) =~= tv.take(i as int).push(x));
        }
        if duplicate {
            assert(before.to_set().contains(x));
            proof { tv.take(i as int).lemma_push_to_set_commute(x); }
            assert(tv.take(i + 1).to_set() =~= tv.take(i as int).to_set().insert(x));
        } else {
            out.insert(j, v[i].clone());
            proof {
                let after = texts(out@);
                assert(after =~= before.insert(j as int, x));
                if j < before.len() {
                    lemma_chars_lt_total(before[j as int], x);
                    assert(chars_lt(x, before[j as int]));
                }
                assert forall|t: int| j <= t < before.len() implies chars_lt(x, #[trigger] before[t]) by {
                    if t > j {
                        lemma_chars_lt_transitive(x, before[j as int], before[t]);
                    }
                }
                assert forall|a: int, b: int| 0 <= a < b < after.len() implies chars_lt(#[trigger] after[a], #[trigger] after[b]) by {
                    if b < j {
                        assert(after[a] == before[a] && after[b] == before[b]);
                    } else if b == j {
                        assert(after[a] == before[a]);
                    } else if a < j {
                        assert(after[a] == before[a] && after[b] == before[b - 1]);
                        lemma_chars_lt_transitive(before[a], x, before[b - 1]);
                    } else if a == j {
                        assert(after[b] == before[b - 1]);
                    } else {
                        assert(after[a] == before[a - 1] && after[b] == before[b - 1]);
                    }
                }
                assert forall|k: Seq<char>| after.to_set().contains(k) <==> before.to_set().insert(x).contains(k) by {
                    if after.to_set().contains(k) {
                        let t = choose|t: int| 0 <= t < after.len() && after[t] == k;
                        if t < j {
                            assert(before[t] == k);
                        } else if t > j {
                            assert(before[t - 1] == k);
                        }
                    }
                    if before.to_set().contains(k) {
                        let t = choose|t: int| 0 <= t < before.len() && before[t] == k;
                        if t < j {
                            assert(after[t] == k);
                        } else {
                            assert(after[t + 1] == k);
                        }
                    }
                    if k == x {
                        assert(after[j as int] == x);
                    }
                }
                assert(after.to_set() =~= before.to_set().insert(x));
                tv.take(i as int).lemma_push_to_set_commute(x);
            }
        }
        i = i + 1;
    }
    proof {
        assert(tv.take(i as int) =~= tv);
        lemma_ascending_unique(texts(out@), sorted_keys(tv.to_set()));
    }
    out
}

/// The smallest number of top files per category a scan asks for.
pub const USAGE_TOP_FILES_MIN: u32 = 1;

/// The largest number of top files per category a scan asks for.
pub const USAGE_TOP_FILES_MAX: u32 = 1000;

/// State of the usage tab. The scan parallelism is carried as it comes (`P`).
#[derive(Debug, Clone)]
pub struct UsageTabState<P> {
    pub loading: bool,
    pub progress_processed_bytes: u64,
    pub progress_estimated_total_bytes: u64,
    /// The scan whose results are awaited; results of other scans are dropped.
    pub active_scan_id: Option<String>,
    pub result: Option<UsageScanResult>,
    pub selected_categories: Vec<u32>,
    pub show_all_files: bool,
    pub show_all_files_authorized_for_session: bool,
    pub top_files_per_category: u32,
    pub selected_paths: Vec<String>,
    pub selection_anchor_index: Option<usize>,
    pub deleting: bool,
    pub error: Option<String>,
    pub operation_status: Option<String>,
    pub wizard_open: bool,
    pub wizard_loading_mounts: bool,
    pub wizard_mount_points: Vec<String>,
    pub wizard_selected_mount_points: Vec<String>,
    pub wizard_show_all_files: bool,
    pub wizard_parallelism_preset: P,
    pub wizard_error: Option<String>,
    pub scan_mount_points: Vec<String>,
    pub scan_parallelism_preset: P,
}

/// How a request for a scan goes on.
#[derive(Debug, Clone, PartialEq, Eq)]
pub enum ScanStart<P> {
    /// A scan or a mount listing runs; nothing happens.
    Busy,
    /// No mount points are chosen yet; the scan wizard is to be opened.
    Configure,
    /// The wizard has no mount point selected; the error is shown.
    NoMountPoints,
    /// Listing all files needs an authorization first.
    NeedsAuthorization,
    /// Start this scan.
    Scan { scan_id: String, top_files_per_category: u32, mount_points: Vec<String>, show_all_files: bool, parallelism_preset: P },
}

/// What turning the listing of all files on or off leads to.
#[derive(Debug, Clone, Copy, PartialEq, Eq, Structural)]
pub enum ShowAllFilesNext {
    /// Scan again.
    Refresh,
    /// Ask for the authorization first.
    Authorize,
}

pub open spec fn opt_text(o: Option<String>) -> Option<Seq<char>> {
    match o {
        Some(s) => Some(s@),
        None => None,
    }
}

/// The first position of `x` in `v`.
pub open spec fn position_of<A>(v: Seq<A>, x: A) -> Option<int> {
    if v.contains(x) {
        Some(choose|i: int| 0 <= i < v.len() && v[i] == x && forall|j: int| 0 <= j < i ==> v[j] != x)
    } else {
        None
    }
}

proof fn lemma_position_at<A>(v: Seq<A>, x: A, i: int)
    requires
        0 <= i < v.len(),
        v[i] == x,
        forall|j: int| 0 <= j < i ==> v[j] != x,
    ensures
        position_of(v, x) == Some(i),
{
    assert(v.contains(x));
    assert(0 <= i < v.len() && v[i] == x && forall|j: int| 0 <= j < i ==> v[j] != x);
    let k = position_of(v, x)->0;
    if k < i {
        assert(v[k] != x);
    } else if k > i {
        assert(v[i] != x);
    }
}

/// The selected categories after one is toggled: a selected category is dropped unless it is
/// the last one, another is added at the end.
pub open spec fn toggled_categories(v: Seq<u32>, c: u32) -> Seq<u32> {
    match position_of(v, c) {
        Some(i) => if v.len() > 1 { v.remove(i) } else { v },
        None => v.push(c),
    }
}

/// The selected paths after one is toggled: a selected path is dropped, another is added at
/// the end.
pub open spec fn toggled_paths(v: Seq<Seq<char>>, p: Seq<char>) -> Seq<Seq<char>> {
    match position_of(v, p) {
        Some(i) => v.remove(i),
        None => v.push(p),
    }
}

proof fn lemma_remove_keeps_others<A>(v: Seq<A>, i: int)
    requires
        0 <= i < v.len(),
    ensures
        forall|q: A| q != v[i] ==> (#[trigger] v.remove(i).contains(q) == v.contains(q)),
        forall|q: A| #[trigger] v.push(q).contains(q),
{
    assert forall|q: A| q != v[i] implies (#[trigger] v.remove(i).contains(q) == v.contains(q)) by {
        let r = v.remove(i);
        if v.contains(q) {
            let k = choose|k: int| 0 <= k < v.len() && v[k] == q;
            if k < i {
                assert(r[k] == q);
            } else {
                assert(k != i);
                assert(r[k - 1] == q);
            }
        }
        if r.contains(q) {
            let k = choose|k: int| 0 <= k < r.len() && r[k] == q;
            if k < i {
                assert(v[k] == q);
            } else {
                assert(v[k + 1] == q);
            }
        }
    }
    assert forall|q: A| #[trigger] v.push(q).contains(q) by {
        assert(v.push(q)[v.len() as int] == q);
    }
}

proof fn lemma_push_keeps_others<A>(v: Seq<A>, x: A)
    ensures
        forall|q: A| q != x ==> (#[trigger] v.push(x).contains(q) == v.contains(q)),
{
    assert forall|q: A| q != x implies (#[trigger] v.push(x).contains(q) == v.contains(q)) by {
        if v.contains(q) {
            let k = choose|k: int| 0 <= k < v.len() && v[k] == q;
            assert(v.push(x)[k] == q);
        }
        if v.push(x).contains(q) {
            let k = choose|k: int| 0 <= k < v.push(x).len() && v.push(x)[k] == q;
            assert(k < v.len());
            assert(v[k] == q);
        }
    }
}

fn position_of_path(v: &Vec<String>, p: &str) -> (r: Option<usize>)
    ensures
        match r {
            Some(i) => i < v@.len() && position_of(texts(v@), p@) == Some(i as int) && v@[i as int]@ == p@,
            None => position_of(texts(v@), p@) is None,
        },
{
    let ghost tv = texts(v@);
    let mut i: usize = 0;
    while i < v.len()
        invariant
            tv == texts(v@),
            i <= v@.len(),
            forall|j: int| 0 <= j < i ==> tv[j] != p@,
        decreases v.len() - i,
    {
        assert(tv[i as int] == v@[i as int]@);
        if str_equals(v[i].as_str(), p) {
            proof { lemma_position_at(tv, p@, i as int); }
            return Some(i);
        }
        i = i + 1;
    }
    proof {
        if tv.contains(p@) {
            let k = choose|k: int| 0 <= k < tv.len() && tv[k] == p@;
        }
    }
    None
}

impl<P: Copy> UsageTabState<P> {
    /// The state is the one before any scan, with these categories selected and this
    /// parallelism.
    pub open spec fn is_fresh(self, all_categories: Vec<u32>, preset: P) -> bool {
        &&& !self.loading
        &&& self.progress_processed_bytes == 0
        &&& self.progress_estimated_total_bytes == 0
        &&& self.active_scan_id is None
        &&& self.result is None
        &&& self.selected_categories == all_categories
        &&& !self.show_all_files
        &&& !self.show_all_files_authorized_for_session
        &&& self.top_files_per_category == 20
        &&& self.selected_paths@.len() == 0
        &&& self.selection_anchor_index is None
        &&& !self.deleting
        &&& self.error is None
        &&& self.operation_status is None
        &&& !self.wizard_open
        &&& !self.wizard_loading_mounts
        &&& self.wizard_mount_points@.len() == 0
        &&& self.wizard_selected_mount_points@.len() == 0
        &&& !self.wizard_show_all_files
        &&& self.wizard_parallelism_preset == preset
        &&& self.wizard_error is None
        &&& self.scan_mount_points@.len() == 0
        &&& self.scan_parallelism_preset == preset
    }

    /// The state before any scan: every category is selected, twenty top files per category.
    pub fn new(all_categories: Vec<u32>, preset: P) -> (s: Self)
        ensures
            s.is_fresh(all_categories, preset),
    {
        UsageTabState {
            loading: false,
            progress_processed_bytes: 0,
            progress_estimated_total_bytes: 0,
            active_scan_id: None,
            result: None,
            selected_categories: all_categories,
            show_all_files: false,
            show_all_files_authorized_for_session: false,
            top_files_per_category: 20,
            selected_paths: Vec::new(),
            selection_anchor_index: None,
            deleting: false,
            error: None,
            operation_status: None,
            wizard_open: false,
            wizard_loading_mounts: false,
            wizard_mount_points: Vec::new(),
            wizard_selected_mount_points: Vec::new(),
            wizard_show_all_files: false,
            wizard_parallelism_preset: preset,
            wizard_error: None,
            scan_mount_points: Vec::new(),
            scan_parallelism_preset: preset,
        }
    }

    fn awaits(&self, scan_id: &str) -> (r: bool)
        ensures
            r == (opt_text(self.active_scan_id) == Some(scan_id@)),
    {
        match &self.active_scan_id {
            Some(active) => str_equals(active.as_str(), scan_id),
            None => false,
        }
    }

    /// Takes the result of the awaited scan: the categories that take bytes become the
    /// selected ones. A result of another scan is dropped.
    pub fn scan_loaded(&mut self, scan_id: &str, result: Result<UsageScanResult, String>)
        ensures
            opt_text(old(self).active_scan_id) != Some(scan_id@) ==> *final(self) == *old(self),
            opt_text(old(self).active_scan_id) == Some(scan_id@) ==> match result {
                Ok(scan) => {
                    &&& final(self).selected_categories@ == visible_categories(scan.categories@)
                    &&& *final(self) == (UsageTabState {
                        loading: false,
                        active_scan_id: None,
                        operation_status: None,
                        result: Some(scan),
                        selected_categories: final(self).selected_categories,
                        error: None,
                        ..*old(self)
                    })
                },
                Err(e) => *final(self) == (UsageTabState {
                    loading: false,
                    active_scan_id: None,
                    operation_status: None,
                    result: None,
                    error: Some(e),
                    ..*old(self)
                }),
            },
    {
        if !self.awaits(scan_id) {
            return;
        }
        self.loading = false;
        self.active_scan_id = None;
        self.operation_status = None;
        match result {
            Ok(scan) => {
                let visible = visible_usage_categories(&scan);
                self.result = Some(scan);
                self.selected_categories = visible;
                self.error = None;
            },
            Err(e) => {
                self.error = Some(e);
                self.result = None;
            },
        }
    }

    /// Takes the progress of the awaited scan; progress of another scan is dropped.
    pub fn scan_progress(&mut self, scan_id: &str, processed_bytes: u64, estimated_total_bytes: u64)
        ensures
            *final(self) == if opt_text(old(self).active_scan_id) == Some(scan_id@) {
                UsageTabState {
                    progress_processed_bytes: processed_bytes,
                    progress_estimated_total_bytes: estimated_total_bytes,
                    ..*old(self)
                }
            } else {
                *old(self)
            },
    {
        if self.awaits(scan_id) {
            self.progress_processed_bytes = processed_bytes;
            self.progress_estimated_total_bytes = estimated_total_bytes;
        }
    }

    /// Toggles a category filter (the last selected category stays), clearing the selection.
    pub fn toggle_category(&mut self, category: u32)
        ensures
            final(self).selected_categories@ == toggled_categories(old(self).selected_categories@, category),
            // An unselected category is added at the end; a selected one is dropped unless it
            // is the only one; the other categories keep whether they are selected.
            !old(self).selected_categories@.contains(category) ==> final(self).selected_categories@
                == old(self).selected_categories@.push(category),
            old(self).selected_categories@.contains(category) && old(self).selected_categories@.len() > 1
                ==> final(self).selected_categories@.len() == old(self).selected_categories@.len() - 1,
            old(self).selected_categories@.contains(category) && old(self).selected_categories@.len() <= 1
                ==> final(self).selected_categories@ == old(self).selected_categories@,
            forall|d: u32| d != category ==> (#[trigger] final(self).selected_categories@.contains(d)
                == old(self).selected_categories@.contains(d)),
            final(self).selected_paths@.len() == 0,
            *final(self) == (UsageTabState {
                selected_categories: final(self).selected_categories,
                selected_paths: final(self).selected_paths,
                selection_anchor_index: None,
                ..*old(self)
            }),
    {
        let ghost before = self.selected_categories@;
        match category_position(&self.selected_categories, category) {
            Some(i) => {
                proof {
                    lemma_remove_keeps_others(before, i as int);
                    assert(before[i as int] == category);
                }
                if self.selected_categories.len() > 1 {
                    self.selected_categories.remove(i);
                }
            },
            None => {
                proof { lemma_push_keeps_others(before, category); }
                self.selected_categories.push(category);
            },
        }
        self.selected_paths.clear();
        self.selection_anchor_index = None;
    }

    /// Sets how many top files per category a scan asks for, within the allowed range.
    pub fn set_top_files_per_category(&mut self, n: u32)
        ensures
            *final(self) == (UsageTabState {
                top_files_per_category: if n < USAGE_TOP_FILES_MIN {
                    USAGE_TOP_FILES_MIN
                } else if n > USAGE_TOP_FILES_MAX {
                    USAGE_TOP_FILES_MAX
                } else {
                    n
                },
                ..*old(self)
            }),
    {
        self.top_files_per_category = if n < USAGE_TOP_FILES_MIN {
            USAGE_TOP_FILES_MIN
        } else if n > USAGE_TOP_FILES_MAX {
            USAGE_TOP_FILES_MAX
        } else {
            n
        };
    }

    /// Marks a scan as started under `scan_id`, dropping the previous result and selection.
    fn start_scan(&mut self, scan_id: String)
        ensures
            final(self).selected_paths@.len() == 0,
            *final(self) == (UsageTabState {
                loading: true,
                progress_processed_bytes: 0,
                progress_estimated_total_bytes: 0,
                active_scan_id: Some(scan_id),
                error: None,
                operation_status: None,
                result: None,
                selected_paths: final(self).selected_paths,
                selection_anchor_index: None,
                ..*old(self)
            }),
    {
        self.loading = true;
        self.progress_processed_bytes = 0;
        self.progress_estimated_total_bytes = 0;
        self.active_scan_id = Some(scan_id);
        self.error = None;
        self.operation_status = None;
        self.result = None;
        self.selected_paths.clear();
        self.selection_anchor_index = None;
    }

    /// Scans again the chosen mount points under `scan_id`, unless a scan runs; without chosen
    /// mount points the wizard is to be opened instead.
    pub fn begin_refresh(&mut self, scan_id: String) -> (r: ScanStart<P>)
        ensures
            old(self).loading ==> r == ScanStart::<P>::Busy && *final(self) == *old(self),
            !old(self).loading && old(self).scan_mount_points@.len() == 0
                ==> r == ScanStart::<P>::Configure && *final(self) == *old(self),
            !old(self).loading && old(self).scan_mount_points@.len() > 0 ==> {
                &&& final(self).selected_paths@.len() == 0
                &&& *final(self) == (UsageTabState {
                    loading: true,
                    progress_processed_bytes: 0,
                    progress_estimated_total_bytes: 0,
                    active_scan_id: Some(scan_id),
                    error: None,
                    operation_status: None,
                    result: None,
                    selected_paths: final(self).selected_paths,
                    selection_anchor_index: None,
                    ..*old(self)
                })
                &&& r matches ScanStart::Scan { scan_id: id, top_files_per_category, mount_points, show_all_files, parallelism_preset }
                    && id@ == scan_id@
                    && top_files_per_category == old(self).top_files_per_category
                    && texts(mount_points@) == texts(old(self).scan_mount_points@)
                    && show_all_files == old(self).show_all_files
                    && parallelism_preset == old(self).scan_parallelism_preset
            },
    {
        if self.loading {
            return ScanStart::Busy;
        }
        if self.scan_mount_points.len() == 0 {
            return ScanStart::Configure;
        }
        let mount_points = clone_strings(&self.scan_mount_points);
        let id = String::from_str(scan_id.as_str());
        self.start_scan(scan_id);
        ScanStart::Scan {
            scan_id: id,
            top_files_per_category: self.top_files_per_category,
            mount_points,
            show_all_files: self.show_all_files,
            parallelism_preset: self.scan_parallelism_preset,
        }
    }
}

fn category_position(v: &Vec<u32>, c: u32) -> (r: Option<usize>)
    ensures
        match r {
            Some(i) => i < v@.len() && position_of(v@, c) == Some(i as int) && v@[i as int] == c,
            None => position_of(v@, c) is None,
        },
{
    let mut i: usize = 0;
    while i < v.len()
        invariant
            i <= v@.len(),
            forall|j: int| 0 <= j < i ==> v@[j] != c,
        decreases v.len() - i,
    {
        if v[i] == c {
            proof { lemma_position_at(v@, c, i as int); }
            return Some(i);
        }
        i = i + 1;
    }
    proof {
        if v@.contains(c) {
            let k = choose|k: int| 0 <= k < v@.len() && v@[k] == c;
        }
    }
    None
}

fn clone_strings(v: &Vec<String>) -> (r: Vec<String>)
    ensures
        texts(r@) == texts(v@),
{
    let mut r: Vec<String> = Vec::new();
    let mut i: usize = 0;
    while i < v.len()
        invariant
            i <= v@.len(),
            texts(r@) == texts(v@).take(i as int),
        decreases v.len() - i,
    {
        let s = v[i].clone();
        let ghost before = r@;
        assert(texts(v@)[i as int] == s@);
        r.push(s);
        assert(texts(r@) =~= texts(before).push(s@));
        assert(texts(r@) =~= texts(v@).take(i + 1));
        i = i + 1;
    }
    assert(texts(v@).take(i as int) =~= texts(v@));
    r
}

/// The strings of `v` that are in `keep`, in order.
pub open spec fn kept(v: Seq<Seq<char>>, keep: Set<Seq<char>>) -> Seq<Seq<char>>
    decreases v.len(),
{
    if v.len() == 0 {
        Seq::empty()
    } else {
        kept(v.drop_last(), keep) + if keep.contains(v.last()) { seq![v.last()] } else { Seq::<Seq<char>>::empty() }
    }
}

/// The strings of `v` other than `x`, in order.
pub open spec fn without(v: Seq<Seq<char>>, x: Seq<char>) -> Seq<Seq<char>>
    decreases v.len(),
{
    if v.len() == 0 {
        Seq::empty()
    } else {
        without(v.drop_last(), x) + if v.last() != x { seq![v.last()] } else { Seq::<Seq<char>>::empty() }
    }
}

fn contains_string(v: &Vec<String>, x: &str) -> (r: bool)
    ensures
        r == texts(v@).contains(x@),
{
    position_of_path(v, x).is_some()
}

fn keep_listed(v: &Vec<String>, listed: &Vec<String>) -> (r: Vec<String>)
    ensures
        texts(r@) == kept(texts(v@), texts(listed@).to_set()),
{
    let ghost tv = texts(v@);
    let mut r: Vec<String> = Vec::new();
    let mut i: usize = 0;
    assert(tv.take(0) =~= Seq::<Seq<char>>::empty());
    while i < v.len()
        invariant
            tv == texts(v@),
            i <= v@.len(),
            texts(r@) == kept(tv.take(i as int), texts(listed@).to_set()),
        decreases v.len() - i,
    {
        assert(tv.take(i + 1).drop_last() =~= tv.take(i as int));
        assert(tv[i as int] == v@[i as int]@);
        let ghost before = texts(r@);
        if contains_string(listed, v[i].as_str()) {
            let s = v[i].clone();
            r.push(s);
            assert(texts(r@) =~= before.push(tv[i as int]));
        }
        i = i + 1;
        assert(texts(r@) =~= kept(tv.take(i as int), texts(listed@).to_set()));
    }
    assert(tv.take(i as int) =~= tv);
    r
}

fn remove_string(v: &Vec<String>, x: &str) -> (r: Vec<String>)
    ensures
        texts(r@) == without(texts(v@), x@),
{
    let ghost tv = texts(v@);
    let mut r: Vec<String> = Vec::new();
    let mut i: usize = 0;
    assert(tv.take(0) =~= Seq::<Seq<char>>::empty());
    while i < v.len()
        invariant
            tv == texts(v@),
            i <= v@.len(),
            texts(r@) == without(tv.take(i as int), x@),
        decreases v.len() - i,
    {
        assert(tv.take(i + 1).drop_last() =~= tv.take(i as int));
        assert(tv[i as int] == v@[i as int]@);
        let ghost before = texts(r@);
        if !str_equals(v[i].as_str(), x) {
            let s = v[i].clone();
            r.push(s);
            assert(texts(r@) =~= before.push(tv[i as int]));
        }
        i = i + 1;
        assert(texts(r@) =~= without(tv.take(i as int), x@));
    }
    assert(tv.take(i as int) =~= tv);
    r
}

/// The selection that extends from the anchor to `index`, both held within the listed paths,
/// with the anchor it keeps.
pub open spec fn range_selection(paths: Seq<Seq<char>>, anchor: Option<usize>, index: usize) -> (Seq<Seq<char>>, int) {
    let last = paths.len() - 1;
    let clamped = if index < last { index as int } else { last };
    let a0: int = match anchor {
        Some(a) => a as int,
        None => clamped,
    };
    let a = if a0 < last { a0 } else { last };
    let start = if a < clamped { a } else { clamped };
    let end = if a < clamped { clamped } else { a };
    (paths.subrange(start, end + 1), a)
}

/// Laws of a range selection over a non-empty list: the clicked row (held within the list)
/// is always selected, and so is the anchor row; the selection runs without gaps between
/// them, so it holds one more path than the rows between them; an anchor within the list is
/// kept; and with no anchor only the clicked row is selected and becomes the anchor.
pub proof fn lemma_range_selection_laws(paths: Seq<Seq<char>>, anchor: Option<usize>, index: usize)
    requires
        paths.len() > 0,
    ensures
        ({
            let (selection, kept) = range_selection(paths, anchor, index);
            let last = paths.len() - 1;
            let clicked: int = if index < last { index as int } else { last };
            &&& 0 <= kept < paths.len()
            &&& selection.contains(paths[clicked])
            &&& selection.contains(paths[kept])
            &&& selection.len() == (if kept < clicked { clicked - kept } else { kept - clicked }) + 1
            &&& (anchor matches Some(a) && a < paths.len()) ==> kept == anchor->0
            &&& anchor is None ==> selection == seq![paths[clicked]] && kept == clicked
        }),
{
    let (selection, kept) = range_selection(paths, anchor, index);
    let last = paths.len() - 1;
    let clicked: int = if index < last { index as int } else { last };
    let start = if kept < clicked { kept } else { clicked };
    assert(selection[clicked - start] == paths[clicked]);
    assert(selection[kept - start] == paths[kept]);
    if anchor is None {
        assert(selection =~= seq![paths[clicked]]);
    }
}

impl<P: Copy> UsageTabState<P> {
    /// Opens the scan wizard, unless a scan runs: it starts from the current choice of listing
    /// all files, and from the current parallelism once mount points were chosen
    /// (`configured_preset` before). Gives whether the mount points are to be listed.
    pub fn begin_configure(&mut self, configured_preset: P) -> (list_mounts: bool)
        ensures
            old(self).loading ==> !list_mounts && *final(self) == *old(self),
            !old(self).loading ==> list_mounts && *final(self) == (UsageTabState {
                wizard_open: true,
                wizard_loading_mounts: true,
                wizard_error: None,
                wizard_show_all_files: old(self).show_all_files,
                wizard_parallelism_preset: if old(self).scan_mount_points@.len() == 0 {
                    configured_preset
                } else {
                    old(self).scan_parallelism_preset
                },
                ..*old(self)
            }),
    {
        if self.loading {
            return false;
        }
        self.wizard_open = true;
        self.wizard_loading_mounts = true;
        self.wizard_error = None;
        self.wizard_show_all_files = self.show_all_files;
        self.wizard_parallelism_preset = if self.scan_mount_points.len() == 0 {
            configured_preset
        } else {
            self.scan_parallelism_preset
        };
        true
    }

    /// Takes the listed mount points: sorted without repeats; all are selected the first time,
    /// later only the chosen ones that are still listed. A failure empties both lists.
    pub fn wizard_mounts_loaded(&mut self, result: Result<Vec<String>, String>)
        ensures
            match result {
                Ok(mounts) => {
                    let listed = sorted_keys(texts(mounts@).to_set());
                    &&& texts(final(self).wizard_mount_points@) == listed
                    &&& texts(final(self).wizard_selected_mount_points@) == if old(self).scan_mount_points@.len() == 0 {
                        listed
                    } else {
                        kept(texts(old(self).scan_mount_points@), listed.to_set())
                    }
                    &&& *final(self) == (UsageTabState {
                        wizard_loading_mounts: false,
                        wizard_mount_points: final(self).wizard_mount_points,
                        wizard_selected_mount_points: final(self).wizard_selected_mount_points,
                        wizard_error: None,
                        ..*old(self)
                    })
                },
                Err(e) => {
                    &&& final(self).wizard_mount_points@.len() == 0
                    &&& final(self).wizard_selected_mount_points@.len() == 0
                    &&& *final(self) == (UsageTabState {
                        wizard_loading_mounts: false,
                        wizard_mount_points: final(self).wizard_mount_points,
                        wizard_selected_mount_points: final(self).wizard_selected_mount_points,
                        wizard_error: Some(e),
                        ..*old(self)
                    })
                },
            },
    {
        self.wizard_loading_mounts = false;
        match result {
            Ok(mounts) => {
                let listed = sorted_unique(&mounts);
                let selected = if self.scan_mount_points.len() == 0 {
                    clone_strings(&listed)
                } else {
                    keep_listed(&self.scan_mount_points, &listed)
                };
                self.wizard_mount_points = listed;
                self.wizard_selected_mount_points = selected;
                self.wizard_error = None;
            },
            Err(e) => {
                self.wizard_mount_points = Vec::new();
                self.wizard_selected_mount_points = Vec::new();
                self.wizard_error = Some(e);
            },
        }
    }

    /// Selects a mount point (once) or drops it from the selection.
    pub fn wizard_mount_toggled(&mut self, mount_point: String, selected: bool)
        ensures
            texts(final(self).wizard_selected_mount_points@) == if selected {
                if texts(old(self).wizard_selected_mount_points@).contains(mount_point@) {
                    texts(old(self).wizard_selected_mount_points@)
                } else {
                    texts(old(self).wizard_selected_mount_points@).push(mount_point@)
                }
            } else {
                without(texts(old(self).wizard_selected_mount_points@), mount_point@)
            },
            *final(self) == (UsageTabState { wizard_selected_mount_points: final(self).wizard_selected_mount_points, ..*old(self) }),
    {
        if selected {
            if !contains_string(&self.wizard_selected_mount_points, mount_point.as_str()) {
                let ghost before = self.wizard_selected_mount_points@;
                let ghost m = mount_point@;
                self.wizard_selected_mount_points.push(mount_point);
                assert(texts(self.wizard_selected_mount_points@) =~= texts(before).push(m));
            }
        } else {
            self.wizard_selected_mount_points = remove_string(&self.wizard_selected_mount_points, mount_point.as_str());
        }
    }

    /// Closes the scan wizard.
    pub fn wizard_cancel(&mut self)
        ensures
            *final(self) == (UsageTabState {
                wizard_open: false,
                wizard_loading_mounts: false,
                wizard_error: None,
                ..*old(self)
            }),
    {
        self.wizard_open = false;
        self.wizard_loading_mounts = false;
        self.wizard_error = None;
    }

    /// Starts the scan that the wizard describes, under `scan_id`: nothing while the mount
    /// points are listed; at least one mount point must be selected (else `no_mount_points`
    /// is shown); listing all files needs the authorization of this session first. The wizard
    /// then closes and its choices become the current ones.
    pub fn wizard_start_scan(&mut self, scan_id: String, no_mount_points: &str) -> (r: ScanStart<P>)
        ensures
            old(self).wizard_loading_mounts ==> r == ScanStart::<P>::Busy && *final(self) == *old(self),
            !old(self).wizard_loading_mounts && old(self).wizard_selected_mount_points@.len() == 0 ==> {
                &&& r == ScanStart::<P>::NoMountPoints
                &&& opt_text(final(self).wizard_error) == Some(no_mount_points@)
                &&& *final(self) == (UsageTabState { wizard_error: final(self).wizard_error, ..*old(self) })
            },
            !old(self).wizard_loading_mounts && old(self).wizard_selected_mount_points@.len() > 0
                && old(self).wizard_show_all_files && !old(self).show_all_files_authorized_for_session
                ==> r == ScanStart::<P>::NeedsAuthorization && *final(self) == *old(self),
            !old(self).wizard_loading_mounts && old(self).wizard_selected_mount_points@.len() > 0
                && !(old(self).wizard_show_all_files && !old(self).show_all_files_authorized_for_session) ==> {
                &&& texts(final(self).scan_mount_points@) == texts(old(self).wizard_selected_mount_points@)
                &&& final(self).selected_paths@.len() == 0
                &&& *final(self) == (UsageTabState {
                    wizard_open: false,
                    wizard_loading_mounts: false,
                    wizard_error: None,
                    show_all_files: old(self).wizard_show_all_files,
                    scan_mount_points: final(self).scan_mount_points,
                    scan_parallelism_preset: old(self).wizard_parallelism_preset,
                    loading: true,
                    progress_processed_bytes: 0,
                    progress_estimated_total_bytes: 0,
                    active_scan_id: Some(scan_id),
                    error: None,
                    operation_status: None,
                    result: None,
                    selected_paths: final(self).selected_paths,
                    selection_anchor_index: None,
                    ..*old(self)
                })
                &&& r matches ScanStart::Scan { scan_id: id, top_files_per_category, mount_points, show_all_files, parallelism_preset }
                    && id@ == scan_id@
                    && top_files_per_category == old(self).top_files_per_category
                    && texts(mount_points@) == texts(old(self).wizard_selected_mount_points@)
                    && show_all_files == old(self).wizard_show_all_files
                    && parallelism_preset == old(self).wizard_parallelism_preset
            },
    {
        if self.wizard_loading_mounts {
            return ScanStart::Busy;
        }
        if self.wizard_selected_mount_points.len() == 0 {
            self.wizard_error = Some(String::from_str(no_mount_points));
            return ScanStart::NoMountPoints;
        }
        if self.wizard_show_all_files && !self.show_all_files_authorized_for_session {
            return ScanStart::NeedsAuthorization;
        }
        let mount_points = clone_strings(&self.wizard_selected_mount_points);
        let scan_mounts = clone_strings(&self.wizard_selected_mount_points);
        self.wizard_open = false;
        self.wizard_loading_mounts = false;
        self.wizard_error = None;
        self.show_all_files = self.wizard_show_all_files;
        self.scan_mount_points = scan_mounts;
        self.scan_parallelism_preset = self.wizard_parallelism_preset;
        let id = String::from_str(scan_id.as_str());
        self.start_scan(scan_id);
        ScanStart::Scan {
            scan_id: id,
            top_files_per_category: self.top_files_per_category,
            mount_points,
            show_all_files: self.show_all_files,
            parallelism_preset: self.scan_parallelism_preset,
        }
    }

    /// Takes the outcome of authorizing the wizard's listing of all files; gives whether the
    /// wizard's scan is to be started again.
    pub fn wizard_auth_completed(&mut self, result: Result<(), String>) -> (restart: bool)
        ensures
            match result {
                Ok(()) => restart && *final(self) == (UsageTabState {
                    show_all_files_authorized_for_session: true,
                    wizard_error: None,
                    ..*old(self)
                }),
                Err(e) => !restart && *final(self) == (UsageTabState { wizard_error: Some(e), ..*old(self) }),
            },
    {
        match result {
            Ok(()) => {
                self.show_all_files_authorized_for_session = true;
                self.wizard_error = None;
                true
            },
            Err(e) => {
                self.wizard_error = Some(e);
                false
            },
        }
    }

    /// Turns the listing of all files on or off. Turning it off, or on once authorized in this
    /// session, scans again; otherwise it stays off until authorized.
    pub fn show_all_files_toggled(&mut self, show: bool) -> (next: ShowAllFilesNext)
        ensures
            !show ==> next == ShowAllFilesNext::Refresh && *final(self) == (UsageTabState { show_all_files: false, ..*old(self) }),
            show && old(self).show_all_files_authorized_for_session
                ==> next == ShowAllFilesNext::Refresh && *final(self) == (UsageTabState { show_all_files: true, ..*old(self) }),
            show && !old(self).show_all_files_authorized_for_session
                ==> next == ShowAllFilesNext::Authorize && *final(self) == (UsageTabState { show_all_files: false, ..*old(self) }),
    {
        if !show {
            self.show_all_files = false;
            return ShowAllFilesNext::Refresh;
        }
        if self.show_all_files_authorized_for_session {
            self.show_all_files = true;
            return ShowAllFilesNext::Refresh;
        }
        self.show_all_files = false;
        ShowAllFilesNext::Authorize
    }

    /// Takes the outcome of authorizing the listing of all files; gives whether to scan again.
    pub fn show_all_files_auth_completed(&mut self, result: Result<(), String>) -> (refresh: bool)
        ensures
            match result {
                Ok(()) => refresh && *final(self) == (UsageTabState {
                    show_all_files_authorized_for_session: true,
                    show_all_files: true,
                    error: None,
                    ..*old(self)
                }),
                Err(e) => !refresh && *final(self) == (UsageTabState {
                    show_all_files: false,
                    error: Some(e),
                    ..*old(self)
                }),
            },
    {
        match result {
            Ok(()) => {
                self.show_all_files_authorized_for_session = true;
                self.show_all_files = true;
                self.error = None;
                true
            },
            Err(e) => {
                self.show_all_files = false;
                self.error = Some(e);
                false
            },
        }
    }

    /// Selects one path alone; it becomes the anchor of range selections.
    pub fn select_single(&mut self, path: String, index: usize)
        ensures
            texts(final(self).selected_paths@) == seq![path@],
            *final(self) == (UsageTabState {
                selected_paths: final(self).selected_paths,
                selection_anchor_index: Some(index),
                ..*old(self)
            }),
    {
        let ghost p = path@;
        let mut v = Vec::new();
        v.push(path);
        assert(texts(v@) =~= seq![p]);
        self.selected_paths = v;
        self.selection_anchor_index = Some(index);
    }

    /// Adds a path to the selection or drops it; it becomes the anchor.
    pub fn select_toggle(&mut self, path: String, index: usize)
        ensures
            texts(final(self).selected_paths@) == toggled_paths(texts(old(self).selected_paths@), path@),
            // A path that was not selected becomes selected, at the end; a selected one loses
            // one occurrence; every other path keeps whether it is selected.
            !texts(old(self).selected_paths@).contains(path@) ==> texts(final(self).selected_paths@)
                == texts(old(self).selected_paths@).push(path@),
            texts(old(self).selected_paths@).contains(path@) ==> final(self).selected_paths@.len()
                == old(self).selected_paths@.len() - 1,
            forall|q: Seq<char>| q != path@ ==> (#[trigger] texts(final(self).selected_paths@).contains(q)
                == texts(old(self).selected_paths@).contains(q)),
            *final(self) == (UsageTabState {
                selected_paths: final(self).selected_paths,
                selection_anchor_index: Some(index),
                ..*old(self)
            }),
    {
        let ghost before = self.selected_paths@;
        match position_of_path(&self.selected_paths, path.as_str()) {
            Some(i) => {
                self.selected_paths.remove(i);
                assert(texts(self.selected_paths@) =~= texts(before).remove(i as int));
                proof {
                    lemma_remove_keeps_others(texts(before), i as int);
                    assert(texts(before)[i as int] == path@);
                }
            },
            None => {
                let ghost p = path@;
                self.selected_paths.push(path);
                assert(texts(self.selected_paths@) =~= texts(before).push(p));
                proof { lemma_push_keeps_others(texts(before), p); }
            },
        }
        self.selection_anchor_index = Some(index);
    }

    /// Selects the listed paths from the anchor (or `index` without one) to `index`, both held
    /// within the list; gives whether anything was listed.
    pub fn select_range(&mut self, index: usize) -> (listed: bool)
        ensures
            ({
                let paths = match old(self).result {
                    Some(r) => filtered_paths(r, old(self).selected_categories@),
                    None => Seq::<Seq<char>>::empty(),
                };
                &&& listed == (paths.len() > 0)
                &&& !listed ==> *final(self) == *old(self)
                &&& listed ==> {
                    let last = paths.len() - 1;
                    let clicked: int = if index < last { index as int } else { last };
                    &&& old(self).selection_anchor_index is None ==> {
                        // Without an anchor, only the clicked row is selected and it becomes
                        // the anchor.
                        &&& texts(final(self).selected_paths@) == seq![paths[clicked]]
                        &&& final(self).selection_anchor_index == Some(clicked as usize)
                    }
                    &&& old(self).selection_anchor_index matches Some(a) ==> {
                        // From the anchor (held within the list) to the clicked row, in list
                        // order; the anchor stays.
                        let kept: int = if a < last { a as int } else { last };
                        &&& final(self).selection_anchor_index == Some(kept as usize)
                        &&& texts(final(self).selected_paths@) == paths.subrange(
                            if kept < clicked { kept } else { clicked },
                            (if kept < clicked { clicked } else { kept }) + 1,
                        )
                    }
                }
                &&& listed ==> {
                    let (selection, anchor) = range_selection(paths, old(self).selection_anchor_index, index);
                    &&& texts(final(self).selected_paths@) == selection
                    &&& final(self).selection_anchor_index == Some(anchor as usize)
                    &&& *final(self) == (UsageTabState {
                        selected_paths: final(self).selected_paths,
                        selection_anchor_index: final(self).selection_anchor_index,
                        ..*old(self)
                    })
                }
            }),
    {
        let paths = match &self.result {
            Some(r) => usage_filtered_file_paths(r, &self.selected_categories),
            None => Vec::new(),
        };
        if paths.len() == 0 {
            return false;
        }
        let last = paths.len() - 1;
        let clamped = if index < last { index } else { last };
        let a0 = match self.selection_anchor_index {
            Some(a) => a,
            None => clamped,
        };
        let anchor = if a0 < last { a0 } else { last };
        let start = if anchor < clamped { anchor } else { clamped };
        let end = if anchor < clamped { clamped } else { anchor };
        let mut selection: Vec<String> = Vec::new();
        let stop = end + 1;
        let mut k: usize = start;
        let ghost tp = texts(paths@);
        while k < stop
            invariant
                tp == texts(paths@),
                start <= k <= stop,
                stop == end + 1,
                end < paths@.len(),
                texts(selection@) == tp.subrange(start as int, k as int),
            decreases stop - k,
        {
            let s = paths[k].clone();
            let ghost before = selection@;
            assert(tp[k as int] == s@);
            selection.push(s);
            assert(texts(selection@) =~= texts(before).push(s@));
            assert(texts(selection@) =~= tp.subrange(start as int, k + 1));
            k = k + 1;
        }
        self.selected_paths = selection;
        self.selection_anchor_index = Some(anchor);
        true
    }

    /// Clears the selection and its anchor.
    pub fn clear_selection(&mut self)
        ensures
            final(self).selected_paths@.len() == 0,
            *final(self) == (UsageTabState {
                selected_paths: final(self).selected_paths,
                selection_anchor_index: None,
                ..*old(self)
            }),
    {
        self.selected_paths.clear();
        self.selection_anchor_index = None;
    }

    /// Starts deleting the selected files, unless a deletion runs or nothing is selected; gives
    /// the paths to delete.
    pub fn begin_delete(&mut self) -> (r: Option<Vec<String>>)
        ensures
            (old(self).deleting || old(self).selected_paths@.len() == 0) ==> r is None && *final(self) == *old(self),
            !(old(self).deleting || old(self).selected_paths@.len() == 0) ==> {
                &&& r is Some
                &&& texts(r->0@) == texts(old(self).selected_paths@)
                &&& *final(self) == (UsageTabState { deleting: true, operation_status: None, ..*old(self) })
            },
    {
        if self.deleting || self.selected_paths.len() == 0 {
            return None;
        }
        self.deleting = true;
        self.operation_status = None;
        Some(clone_strings(&self.selected_paths))
    }
}

pub open spec fn sat_add(a: int, b: int) -> int {
    if a + b > u64::MAX { u64::MAX as int } else { a + b }
}

pub open spec fn sat_sub(a: int, b: int) -> int {
    if a - b < 0 { 0 } else { a - b }
}

/// The files that were not deleted.
pub open spec fn kept_files(fs: Seq<FileV>, deleted: Set<Seq<char>>) -> Seq<FileV>
    decreases fs.len(),
{
    if fs.len() == 0 {
        Seq::empty()
    } else {
        kept_files(fs.drop_last(), deleted) + if deleted.contains(fs.last().1) { Seq::<FileV>::empty() } else { seq![fs.last()] }
    }
}

/// The bytes of the deleted files, added without passing the largest `u64`.
pub open spec fn removed_bytes(fs: Seq<FileV>, deleted: Set<Seq<char>>) -> int
    decreases fs.len(),
{
    if fs.len() == 0 {
        0
    } else {
        sat_add(removed_bytes(fs.drop_last(), deleted), if deleted.contains(fs.last().1) { fs.last().0 as int } else { 0 })
    }
}

pub type TopV = (u32, Seq<FileV>);

pub open spec fn top_views(tops: Seq<CategoryTopFiles>) -> Seq<TopV> {
    tops.map_values(|t: CategoryTopFiles| (t.category, file_views(t.files@)))
}

/// The bytes deleted from the top-file lists of category `c`, added without passing the
/// largest `u64`.
pub open spec fn removed_in(tops: Seq<TopV>, deleted: Set<Seq<char>>, c: u32) -> int
    decreases tops.len(),
{
    if tops.len() == 0 {
        0
    } else {
        sat_add(removed_in(tops.drop_last(), deleted, c), if tops.last().0 == c { removed_bytes(tops.last().1, deleted) } else { 0 })
    }
}

/// The categories that lost bytes, each once, in the order of the lists.
pub open spec fn removal_categories(tops: Seq<TopV>, deleted: Set<Seq<char>>) -> Seq<u32>
    decreases tops.len(),
{
    if tops.len() == 0 {
        Seq::empty()
    } else {
        let prev = removal_categories(tops.drop_last(), deleted);
        if removed_bytes(tops.last().1, deleted) > 0 && !prev.contains(tops.last().0) {
            prev.push(tops.last().0)
        } else {
            prev
        }
    }
}

/// The bytes deleted over all categories.
pub open spec fn removed_sum(cs: Seq<u32>, tops: Seq<TopV>, deleted: Set<Seq<char>>) -> int
    decreases cs.len(),
{
    if cs.len() == 0 {
        0
    } else {
        removed_sum(cs.drop_last(), tops, deleted) + removed_in(tops, deleted, cs.last())
    }
}

pub open spec fn removed_total(tops: Seq<TopV>, deleted: Set<Seq<char>>) -> int {
    removed_sum(removal_categories(tops, deleted), tops, deleted)
}

pub type CatV = (u32, u64);

pub open spec fn cat_views(cats: Seq<CategoryUsage>) -> Seq<CatV> {
    cats.map_values(|c: CategoryUsage| (c.category, c.bytes))
}

/// A scan result after files were deleted: the deleted files leave the lists, and each
/// category, and the whole, lose their bytes (never below zero).
pub open spec fn after_deletion(scan: UsageScanResult, deleted: Set<Seq<char>>, next: UsageScanResult) -> bool {
    let tops = top_views(scan.top_files_by_category@);
    &&& top_views(next.top_files_by_category@).len() == tops.len()
    &&& forall|i: int| 0 <= i < tops.len() ==> #[trigger] top_views(next.top_files_by_category@)[i] == (tops[i].0, kept_files(tops[i].1, deleted))
    &&& cat_views(next.categories@).len() == scan.categories@.len()
    &&& forall|i: int| 0 <= i < scan.categories@.len() ==> #[trigger] cat_views(next.categories@)[i] == (
        scan.categories@[i].category,
        sat_sub(scan.categories@[i].bytes as int, removed_in(tops, deleted, scan.categories@[i].category)) as u64,
    )
    &&& next.total_bytes == sat_sub(scan.total_bytes as int, removed_total(tops, deleted))
    &&& next.total_free_bytes == scan.total_free_bytes
}

fn copy_file(f: &UsageFile) -> (r: UsageFile)
    ensures
        r.path@ == f.path@,
        r.bytes == f.bytes,
{
    UsageFile { path: f.path.clone(), bytes: f.bytes }
}

/// The files of a list that were not deleted, and the bytes of those that were.
fn remove_deleted(files: &Vec<UsageFile>, deleted: &Vec<String>) -> (r: (Vec<UsageFile>, u64))
    ensures
        file_views(r.0@) == kept_files(file_views(files@), texts(deleted@).to_set()),
        r.1 == removed_bytes(file_views(files@), texts(deleted@).to_set()),
{
    let ghost fv = file_views(files@);
    let ghost d = texts(deleted@).to_set();
    let mut kept: Vec<UsageFile> = Vec::new();
    let mut removed: u64 = 0;
    let mut i: usize = 0;
    assert(fv.take(0) =~= Seq::<FileV>::empty());
    while i < files.len()
        invariant
            fv == file_views(files@),
            d == texts(deleted@).to_set(),
            i <= files@.len(),
            file_views(kept@) == kept_files(fv.take(i as int), d),
            removed == removed_bytes(fv.take(i as int), d),
        decreases files.len() - i,
    {
        assert(fv.take(i + 1).drop_last() =~= fv.take(i as int));
        assert(fv[i as int] == (files@[i as int].bytes, files@[i as int].path@));
        let ghost before = kept@;
        if contains_string(deleted, files[i].path.as_str()) {
            removed = removed.saturating_add(files[i].bytes);
            assert(file_views(kept@) =~= kept_files(fv.take(i + 1), d));
        } else {
            let f = copy_file(&files[i]);
            kept.push(f);
            assert(file_views(kept@) =~= file_views(before).push(fv[i as int]));
            assert(file_views(kept@) =~= kept_files(fv.take(i + 1), d));
        }
        i = i + 1;
    }
    assert(fv.take(i as int) =~= fv);
    (kept, removed)
}

/// The bytes removed from category `c`, given each list's category and removed bytes.
fn removed_for(removed: &Vec<(u32, u64)>, c: u32, Ghost(tops): Ghost<Seq<TopV>>, Ghost(d): Ghost<Set<Seq<char>>>) -> (r: u64)
    requires
        removed@.len() == tops.len(),
        forall|i: int| 0 <= i < tops.len() ==> (#[trigger] removed@[i]).0 == tops[i].0 && removed@[i].1 == removed_bytes(tops[i].1, d),
    ensures
        r == removed_in(tops, d, c),
{
    let mut acc: u64 = 0;
    let mut i: usize = 0;
    assert(tops.take(0) =~= Seq::<TopV>::empty());
    while i < removed.len()
        invariant
            removed@.len() == tops.len(),
            forall|k: int| 0 <= k < tops.len() ==> (#[trigger] removed@[k]).0 == tops[k].0 && removed@[k].1 == removed_bytes(tops[k].1, d),
            i <= tops.len(),
            acc == removed_in(tops.take(i as int), d, c),
        decreases removed.len() - i,
    {
        assert(tops.take(i + 1).drop_last() =~= tops.take(i as int));
        assert(removed@[i as int].0 == tops[i as int].0);
        if removed[i].0 == c {
            acc = acc.saturating_add(removed[i].1);
        } else {
            acc = acc.saturating_add(0);
        }
        i = i + 1;
    }
    assert(tops.take(i as int) =~= tops);
    acc
}

proof fn lemma_removed_bytes_bounds(fs: Seq<FileV>, d: Set<Seq<char>>)
    ensures
        0 <= removed_bytes(fs, d) <= u64::MAX,
    decreases fs.len(),
{
    if fs.len() > 0 {
        lemma_removed_bytes_bounds(fs.drop_last(), d);
    }
}

proof fn lemma_removed_in_bounds(tops: Seq<TopV>, d: Set<Seq<char>>, c: u32)
    ensures
        0 <= removed_in(tops, d, c) <= u64::MAX,
    decreases tops.len(),
{
    if tops.len() > 0 {
        lemma_removed_in_bounds(tops.drop_last(), d, c);
        lemma_removed_bytes_bounds(tops.last().1, d);
    }
}

proof fn lemma_removed_sum_prefix(cs: Seq<u32>, tops: Seq<TopV>, d: Set<Seq<char>>, i: int)
    requires
        0 <= i <= cs.len(),
    ensures
        0 <= removed_sum(cs.take(i), tops, d) <= removed_sum(cs, tops, d),
    decreases cs.len(),
{
    if i < cs.len() {
        assert(cs.drop_last().take(i) =~= cs.take(i));
        lemma_removed_sum_prefix(cs.drop_last(), tops, d, i);
        lemma_removed_in_bounds(tops, d, cs.last());
    } else {
        assert(cs.take(i) =~= cs);
        if cs.len() > 0 {
            lemma_removed_sum_prefix(cs.drop_last(), tops, d, cs.len() - 1);
            assert(cs.drop_last().take(cs.len() - 1) =~= cs.drop_last());
            lemma_removed_in_bounds(tops, d, cs.last());
        }
    }
}

/// The categories that lost bytes, each once, in the order of the lists.
fn categories_with_removal(removed: &Vec<(u32, u64)>, Ghost(tops): Ghost<Seq<TopV>>, Ghost(d): Ghost<Set<Seq<char>>>) -> (r: Vec<u32>)
    requires
        removed@.len() == tops.len(),
        forall|i: int| 0 <= i < tops.len() ==> (#[trigger] removed@[i]).0 == tops[i].0 && removed@[i].1 == removed_bytes(tops[i].1, d),
    ensures
        r@ == removal_categories(tops, d),
{
    let mut out: Vec<u32> = Vec::new();
    let mut i: usize = 0;
    assert(tops.take(0) =~= Seq::<TopV>::empty());
    while i < removed.len()
        invariant
            removed@.len() == tops.len(),
            forall|k: int| 0 <= k < tops.len() ==> (#[trigger] removed@[k]).0 == tops[k].0 && removed@[k].1 == removed_bytes(tops[k].1, d),
            i <= tops.len(),
            out@ == removal_categories(tops.take(i as int), d),
        decreases removed.len() - i,
    {
        assert(tops.take(i + 1).drop_last() =~= tops.take(i as int));
        assert(tops.take(i + 1).last() == tops[i as int]);
        let (c, bytes) = removed[i];
        if bytes > 0 && !contains_u32(&out, c) {
            out.push(c);
        }
        i = i + 1;
    }
    assert(tops.take(i as int) =~= tops);
    out
}

fn contains_u32(v: &Vec<u32>, c: u32) -> (r: bool)
    ensures
        r == v@.contains(c),
{
    category_position(v, c).is_some()
}

/// The deletion of `deleted` from a scan result, by the views of the lists.
pub open spec fn deletion_total(scan: UsageScanResult, deleted: Seq<String>) -> int {
    removed_total(top_views(scan.top_files_by_category@), texts(deleted).to_set())
}

fn removed_per_list(scan: &UsageScanResult, deleted: &Vec<String>) -> (r: (Vec<CategoryTopFiles>, Vec<(u32, u64)>))
    ensures
        ({
            let tops = top_views(scan.top_files_by_category@);
            let d = texts(deleted@).to_set();
            &&& r.1@.len() == tops.len()
            &&& forall|i: int| 0 <= i < tops.len() ==> (#[trigger] r.1@[i]).0 == tops[i].0 && r.1@[i].1 == removed_bytes(tops[i].1, d)
            &&& top_views(r.0@).len() == tops.len()
            &&& forall|i: int| 0 <= i < tops.len() ==> #[trigger] top_views(r.0@)[i] == (tops[i].0, kept_files(tops[i].1, d))
        }),
{
    let ghost tops = top_views(scan.top_files_by_category@);
    let ghost d = texts(deleted@).to_set();
    let mut new_tops: Vec<CategoryTopFiles> = Vec::new();
    let mut removed: Vec<(u32, u64)> = Vec::new();
    let mut i: usize = 0;
    while i < scan.top_files_by_category.len()
        invariant
            tops == top_views(scan.top_files_by_category@),
            d == texts(deleted@).to_set(),
            i <= tops.len(),
            removed@.len() == i,
            forall|k: int| 0 <= k < i ==> (#[trigger] removed@[k]).0 == tops[k].0 && removed@[k].1 == removed_bytes(tops[k].1, d),
            top_views(new_tops@).len() == i,
            forall|k: int| 0 <= k < i ==> #[trigger] top_views(new_tops@)[k] == (tops[k].0, kept_files(tops[k].1, d)),
        decreases scan.top_files_by_category.len() - i,
    {
        let top = &scan.top_files_by_category[i];
        assert(tops[i as int] == (top.category, file_views(top.files@)));
        let (files, bytes) = remove_deleted(&top.files, deleted);
        let ghost before = new_tops@;
        let ghost fv = file_views(files@);
        new_tops.push(CategoryTopFiles { category: top.category, files });
        removed.push((top.category, bytes));
        assert forall|k: int| 0 <= k < i + 1 implies #[trigger] top_views(new_tops@)[k] == (tops[k].0, kept_files(tops[k].1, d)) by {
            assert(top_views(new_tops@)[k] == (new_tops@[k].category, file_views(new_tops@[k].files@)));
            if k < i {
                assert(new_tops@[k] == before[k]);
                assert(top_views(before)[k] == (before[k].category, file_views(before[k].files@)));
            } else {
                assert(file_views(new_tops@[k].files@) == fv);
            }
        }
        i = i + 1;
    }
    (new_tops, removed)
}

/// The bytes that deleting `deleted` removes from a scan result, over all categories; `None`
/// when the total does not fit a `u64`.
pub fn deleted_bytes_total(scan: &UsageScanResult, deleted: &Vec<String>) -> (r: Option<u64>)
    ensures
        match r {
            Some(t) => t == deletion_total(*scan, deleted@),
            None => deletion_total(*scan, deleted@) > u64::MAX,
        },
{
    let ghost tops = top_views(scan.top_files_by_category@);
    let ghost d = texts(deleted@).to_set();
    let (_, removed) = removed_per_list(scan, deleted);
    let cats = categories_with_removal(&removed, Ghost(tops), Ghost(d));
    let ghost cs = cats@;
    let mut total: u64 = 0;
    let mut i: usize = 0;
    assert(cs.take(0) =~= Seq::<u32>::empty());
    while i < cats.len()
        invariant
            removed@.len() == tops.len(),
            forall|k: int| 0 <= k < tops.len() ==> (#[trigger] removed@[k]).0 == tops[k].0 && removed@[k].1 == removed_bytes(tops[k].1, d),
            tops == top_views(scan.top_files_by_category@),
            d == texts(deleted@).to_set(),
            cs == cats@,
            cs == removal_categories(tops, d),
            i <= cs.len(),
            total == removed_sum(cs.take(i as int), tops, d),
        decreases cats.len() - i,
    {
        assert(cs.take(i + 1).drop_last() =~= cs.take(i as int));
        assert(cs.take(i + 1).last() == cs[i as int]);
        let part = removed_for(&removed, cats[i], Ghost(tops), Ghost(d));
        assert(removed_sum(cs.take(i + 1), tops, d) == total + part);
        match total.checked_add(part) {
            Some(t) => { total = t; },
            None => {
                proof {
                    lemma_removed_sum_prefix(cs, tops, d, i + 1);
                    assert(total + part > u64::MAX);
                    assert(removed_sum(cs, tops, d) > u64::MAX);
                    assert(deletion_total(*scan, deleted@) == removed_sum(cs, tops, d));
                }
                return None;
            },
        }
        i = i + 1;
    }
    assert(cs.take(i as int) =~= cs);
    Some(total)
}

/// Applies the deletion of `deleted` to a scan result.
fn apply_deletion(scan: &UsageScanResult, deleted: &Vec<String>, total: u64) -> (r: UsageScanResult)
    requires
        total == deletion_total(*scan, deleted@),
    ensures
        after_deletion(*scan, texts(deleted@).to_set(), r),
{
    let ghost tops = top_views(scan.top_files_by_category@);
    let ghost d = texts(deleted@).to_set();
    let (new_tops, removed) = removed_per_list(scan, deleted);
    let mut cats: Vec<CategoryUsage> = Vec::new();
    let mut i: usize = 0;
    while i < scan.categories.len()
        invariant
            removed@.len() == tops.len(),
            forall|k: int| 0 <= k < tops.len() ==> (#[trigger] removed@[k]).0 == tops[k].0 && removed@[k].1 == removed_bytes(tops[k].1, d),
            i <= scan.categories@.len(),
            cat_views(cats@).len() == i,
            forall|k: int| 0 <= k < i ==> #[trigger] cat_views(cats@)[k] == (
                scan.categories@[k].category,
                sat_sub(scan.categories@[k].bytes as int, removed_in(tops, d, scan.categories@[k].category)) as u64,
            ),
        decreases scan.categories.len() - i,
    {
        let entry = &scan.categories[i];
        let part = removed_for(&removed, entry.category, Ghost(tops), Ghost(d));
        let ghost before = cats@;
        let bytes = entry.bytes.saturating_sub(part);
        assert(bytes == sat_sub(entry.bytes as int, part as int));
        cats.push(CategoryUsage { category: entry.category, bytes });
        assert forall|k: int| 0 <= k < i + 1 implies #[trigger] cat_views(cats@)[k] == (
            scan.categories@[k].category,
            sat_sub(scan.categories@[k].bytes as int, removed_in(tops, d, scan.categories@[k].category)) as u64,
        ) by {
            assert(cat_views(cats@)[k] == (cats@[k].category, cats@[k].bytes));
            if k < i {
                assert(cats@[k] == before[k]);
                assert(cat_views(before)[k] == (before[k].category, before[k].bytes));
            } else {
                assert(scan.categories@[k] == *entry);
            }
        }
        i = i + 1;
    }
    UsageScanResult {
        categories: cats,
        top_files_by_category: new_tops,
        total_bytes: scan.total_bytes.saturating_sub(total),
        total_free_bytes: scan.total_free_bytes,
    }
}

/// What deleting files reports: the paths deleted and those that failed.
#[derive(Debug, Clone)]
pub struct UsageDeleteResult {
    pub deleted: Vec<String>,
    pub failed: Vec<String>,
}

pub open spec fn opt_index(o: Option<int>) -> Option<usize> {
    match o {
        Some(i) => Some(i as usize),
        None => None,
    }
}

impl<P: Copy> UsageTabState<P> {
    /// Takes the outcome of deleting files. When files were deleted from a shown result, they
    /// leave it (see `after_deletion`), the selection keeps only the paths whose deletion
    /// failed, and the first of them becomes the anchor where it is listed. The summary (or the
    /// error) is shown.
    pub fn delete_completed(&mut self, result: Result<UsageDeleteResult, String>, summary: String)
        requires
            match (result, old(self).result) {
                (Ok(dr), Some(scan)) => dr.deleted@.len() > 0 ==> deletion_total(scan, dr.deleted@) <= u64::MAX,
                _ => true,
            },
        ensures
            match result {
                Err(e) => *final(self) == (UsageTabState {
                    deleting: false,
                    error: Some(e),
                    operation_status: None,
                    ..*old(self)
                }),
                Ok(dr) => if dr.deleted@.len() > 0 && old(self).result is Some {
                    &&& final(self).result is Some
                    &&& after_deletion(old(self).result->0, texts(dr.deleted@).to_set(), final(self).result->0)
                    &&& texts(final(self).selected_paths@) == kept(texts(old(self).selected_paths@), texts(dr.failed@).to_set())
                    &&& final(self).selection_anchor_index == if final(self).selected_paths@.len() > 0 {
                        opt_index(position_of(
                            filtered_paths(final(self).result->0, old(self).selected_categories@),
                            final(self).selected_paths@[0]@,
                        ))
                    } else {
                        None
                    }
                    &&& *final(self) == (UsageTabState {
                        deleting: false,
                        result: final(self).result,
                        selected_paths: final(self).selected_paths,
                        selection_anchor_index: final(self).selection_anchor_index,
                        error: None,
                        operation_status: Some(summary),
                        ..*old(self)
                    })
                } else {
                    *final(self) == (UsageTabState {
                        deleting: false,
                        error: None,
                        operation_status: Some(summary),
                        ..*old(self)
                    })
                },
            },
    {
        self.deleting = false;
        match result {
            Err(e) => {
                self.error = Some(e);
                self.operation_status = None;
            },
            Ok(dr) => {
                if dr.deleted.len() > 0 {
                    let updated = match &self.result {
                        Some(scan) => {
                            let total = match deleted_bytes_total(scan, &dr.deleted) {
                                Some(t) => t,
                                None => { return; },
                            };
                            Some(apply_deletion(scan, &dr.deleted, total))
                        },
                        None => None,
                    };
                    if let Some(next) = updated {
                        let selected = keep_listed(&self.selected_paths, &dr.failed);
                        let current = usage_filtered_file_paths(&next, &self.selected_categories);
                        let anchor = if selected.len() > 0 {
                            position_of_path(&current, selected[0].as_str())
                        } else {
                            None
                        };
                        self.result = Some(next);
                        self.selected_paths = selected;
                        self.selection_anchor_index = anchor;
                    }
                }
                self.error = None;
                self.operation_status = Some(summary);
            },
        }
    }
}

// ---------------------------------------------------------------------------
// Row clicks.

/// The keyboard modifiers held during a click, as plain flags: `command` is the platform's
/// command modifier (Ctrl, or the logo key on macOS).
#[derive(Debug, Clone, Copy, PartialEq, Eq, Structural)]
pub struct KeyModifiers {
    pub shift: bool,
    pub command: bool,
}

impl KeyModifiers {
    /// No modifier held.
    pub fn empty() -> (m: Self)
        ensures
            !m.shift && !m.command,
    {
        KeyModifiers { shift: false, command: false }
    }
}

/// What a click on a listed file asks of the selection.
#[derive(Debug, Clone, PartialEq, Eq)]
pub enum UsageSelectionMessage {
    /// Select only this file.
    UsageSelectionSingle { path: String, index: usize },
    /// Add or remove this file.
    UsageSelectionCtrl { path: String, index: usize },
    /// Select the run from the anchor to this row.
    UsageSelectionShift { index: usize },
}

/// The selection a click on row `index` (file `path`) asks for: Shift selects a range, the
/// command modifier toggles the file, a plain click selects it alone. Shift wins over the
/// command modifier.
pub fn usage_row_selection_message(path: String, index: usize, modifiers: KeyModifiers) -> (r: UsageSelectionMessage)
    ensures
        modifiers.shift ==> r == (UsageSelectionMessage::UsageSelectionShift { index }),
        !modifiers.shift && modifiers.command ==> r == (UsageSelectionMessage::UsageSelectionCtrl { path, index }),
        !modifiers.shift && !modifiers.command ==> r == (UsageSelectionMessage::UsageSelectionSingle { path, index }),
{
    if modifiers.shift {
        UsageSelectionMessage::UsageSelectionShift { index }
    } else if modifiers.command {
        UsageSelectionMessage::UsageSelectionCtrl { path, index }
    } else {
        UsageSelectionMessage::UsageSelectionSingle { path, index }
    }
}

} // verus!
