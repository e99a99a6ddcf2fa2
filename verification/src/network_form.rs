//! The decisions of the remote editor form: which provider options it shows and in which
//! sections, which options are additional to the provider's, and which remote type is chosen.
use vstd::prelude::*;
use crate::keyed_map::{KeyedMap, keys_at, sorted_keys, strictly_ascending};
use crate::network::ProviderOption;
use crate::text::{chars_lt, eq_ignoring_ascii_case, str_eq_ignore_ascii_case, str_equals};

verus! {

/// The views of a list of strings.
pub open spec fn names_view(v: Seq<String>) -> Seq<Seq<char>> {
    v.map_values(|s: String| s@)
}

/// The position of a section in the form's order; sections the form does not know come last.
pub open spec fn section_rank(section: Seq<char>) -> nat {
    if section == "authentication"@ {
        0
    } else if section == "connection"@ {
        1
    } else if section == "security"@ {
        2
    } else if section == "storage"@ {
        3
    } else if section == "transfers"@ {
        4
    } else if section == "behavior"@ {
        5
    } else if section == "other"@ {
        6
    } else {
        7
    }
}

/// The number of positions a section can have.
pub const SECTION_RANKS: usize = 8;

fn section_rank_of(section: &str) -> (r: usize)
    ensures
        r == section_rank(section@),
{
    if str_equals(section, "authentication") {
        0
    } else if str_equals(section, "connection") {
        1
    } else if str_equals(section, "security") {
        2
    } else if str_equals(section, "storage") {
        3
    } else if str_equals(section, "transfers") {
        4
    } else if str_equals(section, "behavior") {
        5
    } else if str_equals(section, "other") {
        6
    } else {
        7
    }
}

/// The form shows the option: a hidden one only with hidden options shown, an advanced one
/// that is not hidden only with advanced options shown.
pub open spec fn option_shown(o: ProviderOption, show_advanced: bool, show_hidden: bool) -> bool {
    &&& o.hidden ==> show_hidden
    &&& (o.advanced && !o.hidden) ==> show_advanced
}

/// The names of the shown options whose section has position `rank`, in provider order.
pub open spec fn shown_with_rank(opts: Seq<ProviderOption>, show_advanced: bool, show_hidden: bool, rank: nat) -> Seq<Seq<char>>
    decreases opts.len(),
{
    if opts.len() == 0 {
        seq![]
    } else {
        let rest = shown_with_rank(opts.drop_last(), show_advanced, show_hidden, rank);
        let o = opts.last();
        if option_shown(o, show_advanced, show_hidden) && section_rank(o.section@) == rank {
            rest.push(o.name@)
        } else {
            rest
        }
    }
}

/// The section id of the first shown option whose section has position `rank`.
pub open spec fn rank_section(opts: Seq<ProviderOption>, show_advanced: bool, show_hidden: bool, rank: nat) -> Seq<char>
    decreases opts.len(),
{
    if opts.len() == 0 {
        seq![]
    } else if shown_with_rank(opts.drop_last(), show_advanced, show_hidden, rank).len() > 0 {
        rank_section(opts.drop_last(), show_advanced, show_hidden, rank)
    } else {
        opts.last().section@
    }
}

/// The sections of positions below `k` that have shown options, in order of position: each
/// with the id of its first shown option's section and the names of its shown options.
pub open spec fn option_groups_upto(opts: Seq<ProviderOption>, show_advanced: bool, show_hidden: bool, k: nat) -> Seq<(Seq<char>, Seq<Seq<char>>)>
    decreases k,
{
    if k == 0 {
        seq![]
    } else {
        let prev = option_groups_upto(opts, show_advanced, show_hidden, (k - 1) as nat);
        let names = shown_with_rank(opts, show_advanced, show_hidden, (k - 1) as nat);
        if names.len() > 0 {
            prev.push((rank_section(opts, show_advanced, show_hidden, (k - 1) as nat), names))
        } else {
            prev
        }
    }
}

/// The sections of the form, in the form's order, unknown sections last under the id of the
/// first of them; each with the names of its shown options in provider order.
pub open spec fn option_groups(opts: Seq<ProviderOption>, show_advanced: bool, show_hidden: bool) -> Seq<(Seq<char>, Seq<Seq<char>>)> {
    option_groups_upto(opts, show_advanced, show_hidden, SECTION_RANKS as nat)
}

pub open spec fn groups_view(g: Seq<(String, Vec<String>)>) -> Seq<(Seq<char>, Seq<Seq<char>>)> {
    g.map_values(|x: (String, Vec<String>)| (x.0@, names_view(x.1@)))
}

fn collect_rank(options: &Vec<ProviderOption>, show_advanced: bool, show_hidden: bool, rank: usize) -> (res: (String, Vec<String>))
    ensures
        names_view(res.1@) == shown_with_rank(options@, show_advanced, show_hidden, rank as nat),
        res.1@.len() > 0 ==> res.0@ == rank_section(options@, show_advanced, show_hidden, rank as nat),
{
    let mut section = String::new();
    let mut names: Vec<String> = Vec::new();
    let mut i: usize = 0;
    assert(names_view(names@) =~= shown_with_rank(options@.take(0), show_advanced, show_hidden, rank as nat));
    while i < options.len()
        invariant
            i <= options@.len(),
            names_view(names@) == shown_with_rank(options@.take(i as int), show_advanced, show_hidden, rank as nat),
            names@.len() > 0 ==> section@ == rank_section(options@.take(i as int), show_advanced, show_hidden, rank as nat),
        decreases options.len() - i,
    {
        let o = &options[i];
        let ghost t = options@.take(i + 1);
        assert(t.drop_last() =~= options@.take(i as int));
        assert(t.last() == *o);
        let shown = (!o.hidden || show_hidden) && (!(o.advanced && !o.hidden) || show_advanced);
        if shown && section_rank_of(o.section.as_str()) == rank {
            if names.len() == 0 {
                section = o.section.clone();
            }
            names.push(o.name.clone());
            assert(names_view(names@) =~= shown_with_rank(t, show_advanced, show_hidden, rank as nat));
        }
        i = i + 1;
    }
    assert(options@.take(options@.len() as int) =~= options@);
    (section, names)
}

/// The sections of the remote form and the options each shows (see [`option_groups`]).
pub fn visible_option_sections(options: &Vec<ProviderOption>, show_advanced: bool, show_hidden: bool) -> (r: Vec<(String, Vec<String>)>)
    ensures
        groups_view(r@) == option_groups(options@, show_advanced, show_hidden),
{
    let mut r: Vec<(String, Vec<String>)> = Vec::new();
    let mut rank: usize = 0;
    assert(groups_view(r@) =~= option_groups_upto(options@, show_advanced, show_hidden, 0));
    while rank < SECTION_RANKS
        invariant
            rank <= SECTION_RANKS,
            groups_view(r@) == option_groups_upto(options@, show_advanced, show_hidden, rank as nat),
        decreases SECTION_RANKS - rank,
    {
        let (section, names) = collect_rank(options, show_advanced, show_hidden, rank);
        let ghost before = r@;
        if names.len() > 0 {
            r.push((section, names));
            assert(groups_view(r@) =~= groups_view(before).push(groups_view(r@).last()));
        }
        rank = rank + 1;
    }
    r
}

/// Whether the form offers the toggles: one for advanced options (some option is advanced and
/// not hidden) and one for hidden options (some option is hidden).
pub fn option_toggles(options: &Vec<ProviderOption>) -> (r: (bool, bool))
    ensures
        r.0 == exists|j: int| 0 <= j < options@.len() && #[trigger] options@[j].advanced && !options@[j].hidden,
        r.1 == exists|j: int| 0 <= j < options@.len() && #[trigger] options@[j].hidden,
{
    let mut advanced = false;
    let mut hidden = false;
    let mut i: usize = 0;
    while i < options.len()
        invariant
            i <= options@.len(),
            advanced == exists|j: int| 0 <= j < i && #[trigger] options@[j].advanced && !options@[j].hidden,
            hidden == exists|j: int| 0 <= j < i && #[trigger] options@[j].hidden,
        decreases options.len() - i,
    {
        if options[i].advanced && !options[i].hidden {
            advanced = true;
        }
        if options[i].hidden {
            hidden = true;
        }
        i = i + 1;
    }
    (advanced, hidden)
}

/// The option is named `k`, ignoring ASCII case.
pub open spec fn option_named(o: ProviderOption, k: Seq<char>) -> bool {
    eq_ignoring_ascii_case(o.name@, k)
}

/// A stored option key that is no option of the provider, ignoring ASCII case.
pub open spec fn is_custom_key(provider: Option<Seq<ProviderOption>>, k: Seq<char>) -> bool {
    match provider {
        Some(ps) => !exists|j: int| 0 <= j < ps.len() && #[trigger] option_named(ps[j], k),
        None => true,
    }
}

pub open spec fn opt_options(provider: Option<&Vec<ProviderOption>>) -> Option<Seq<ProviderOption>> {
    match provider {
        Some(v) => Some(v@),
        None => None,
    }
}

fn custom_key(provider: Option<&Vec<ProviderOption>>, key: &str) -> (r: bool)
    ensures
        r == is_custom_key(opt_options(provider), key@),
{
    match provider {
        Some(ps) => {
            let mut j: usize = 0;
            while j < ps.len()
                invariant
                    j <= ps@.len(),
                    provider == Some(ps),
                    forall|t: int| 0 <= t < j ==> !#[trigger] option_named(ps@[t], key@),
                decreases ps.len() - j,
            {
                if str_eq_ignore_ascii_case(ps[j].name.as_str(), key) {
                    assert(opt_options(provider) == Some(ps@));
                    let ghost sp: Option<Seq<ProviderOption>> = Some(ps@);
                    assert(option_named(sp->0[j as int], key@));
                    assert(opt_options(provider) == sp);
                    return false;
                }
                j = j + 1;
            }
            true
        },
        None => true,
    }
}

/// The additional options of the form: the stored keys that are no option of the provider
/// (ignoring ASCII case), in ascending order.
pub fn custom_option_keys(options: &KeyedMap<String>, provider: Option<&Vec<ProviderOption>>) -> (r: Vec<String>)
    ensures
        strictly_ascending(names_view(r@)),
        forall|k: Seq<char>| names_view(r@).contains(k) <==> (options@.dom().contains(k) && is_custom_key(opt_options(provider), k)),
{
    let positions = options.positions_by_key();
    let ghost sorted = sorted_keys(options@.dom());
    let mut r: Vec<String> = Vec::new();
    let mut i: usize = 0;
    while i < positions.len()
        invariant
            positions@.len() == options.pairs().len(),
            forall|t: int| 0 <= t < positions@.len() ==> (#[trigger] positions@[t]) < options.pairs().len(),
            keys_at(options.pairs(), positions@) == sorted,
            strictly_ascending(sorted),
            sorted.to_set() == options@.dom(),
            i <= positions@.len(),
            strictly_ascending(names_view(r@)),
            forall|a: int| #![trigger names_view(r@)[a]] 0 <= a < r@.len() ==> exists|t: int| 0 <= t < i && #[trigger] sorted[t] == names_view(r@)[a],
            forall|k: Seq<char>| names_view(r@).contains(k) <==> (exists|t: int| 0 <= t < i && #[trigger] sorted[t] == k && is_custom_key(opt_options(provider), k)),
        decreases positions.len() - i,
    {
        let key = options.key_at(positions[i]);
        assert(key@ == sorted[i as int]);
        if custom_key(provider, key.as_str()) {
            let ghost before = names_view(r@);
            r.push(key.clone());
            let ghost after = names_view(r@);
            assert(after =~= before.push(key@));
            assert forall|a: int, b: int| 0 <= a < b < after.len() implies chars_lt(#[trigger] after[a], #[trigger] after[b]) by {
                if b == after.len() - 1 {
                    let t = choose|t: int| 0 <= t < i && #[trigger] sorted[t] == before[a];
                    assert(chars_lt(sorted[t], sorted[i as int]));
                } else {
                    assert(after[a] == before[a] && after[b] == before[b]);
                }
            }
            assert forall|a: int| #![trigger after[a]] 0 <= a < after.len() implies exists|t: int| 0 <= t < i + 1 && #[trigger] sorted[t] == after[a] by {
                if a == after.len() - 1 {
                    assert(sorted[i as int] == after[a]);
                } else {
                    assert(after[a] == before[a]);
                    let t = choose|t: int| 0 <= t < i && #[trigger] sorted[t] == before[a];
                    assert(sorted[t] == after[a]);
                }
            }
            assert forall|k: Seq<char>| after.contains(k) <==> (exists|t: int| 0 <= t < i + 1 && #[trigger] sorted[t] == k && is_custom_key(opt_options(provider), k)) by {
                if after.contains(k) {
                    let a = choose|a: int| 0 <= a < after.len() && after[a] == k;
                    if a < before.len() {
                        assert(before[a] == k);
                        assert(before.contains(k));
                    } else {
                        assert(sorted[i as int] == k);
                    }
                }
                if exists|t: int| 0 <= t < i + 1 && #[trigger] sorted[t] == k && is_custom_key(opt_options(provider), k) {
                    let t = choose|t: int| 0 <= t < i + 1 && #[trigger] sorted[t] == k && is_custom_key(opt_options(provider), k);
                    if t < i {
                        assert(before.contains(k));
                        let a = choose|a: int| 0 <= a < before.len() && before[a] == k;
                        assert(after[a] == k);
                    } else {
                        assert(after[after.len() - 1] == k);
                    }
                }
            }
        } else {
            assert forall|k: Seq<char>| names_view(r@).contains(k) <==> (exists|t: int| 0 <= t < i + 1 && #[trigger] sorted[t] == k && is_custom_key(opt_options(provider), k)) by {
                if exists|t: int| 0 <= t < i + 1 && #[trigger] sorted[t] == k && is_custom_key(opt_options(provider), k) {
                    let t = choose|t: int| 0 <= t < i + 1 && #[trigger] sorted[t] == k && is_custom_key(opt_options(provider), k);
                    if t == i {
                        assert(false);
                    }
                }
            }
        }
        i = i + 1;
    }
    assert forall|k: Seq<char>| names_view(r@).contains(k) <==> (options@.dom().contains(k) && is_custom_key(opt_options(provider), k)) by {
        if options@.dom().contains(k) {
            assert(sorted.to_set().contains(k));
            let t = choose|t: int| 0 <= t < sorted.len() && sorted[t] == k;
        }
        if exists|t: int| 0 <= t < i && #[trigger] sorted[t] == k && is_custom_key(opt_options(provider), k) {
            let t = choose|t: int| 0 <= t < i && #[trigger] sorted[t] == k && is_custom_key(opt_options(provider), k);
            assert(sorted.to_set().contains(k));
        }
    }
    r
}

/// The type the form's type list selects: the first equal to `remote_type` ignoring ASCII
/// case, or the first type when none is.
pub fn remote_type_index(types: &Vec<String>, remote_type: &str) -> (r: usize)
    ensures
        (exists|j: int| 0 <= j < types@.len() && eq_ignoring_ascii_case(#[trigger] types@[j]@, remote_type@)) ==> {
            &&& r < types@.len()
            &&& eq_ignoring_ascii_case(types@[r as int]@, remote_type@)
            &&& forall|j: int| 0 <= j < r ==> !eq_ignoring_ascii_case(#[trigger] types@[j]@, remote_type@)
        },
        !(exists|j: int| 0 <= j < types@.len() && eq_ignoring_ascii_case(#[trigger] types@[j]@, remote_type@)) ==> r == 0,
{
    let mut i: usize = 0;
    while i < types.len()
        invariant
            i <= types@.len(),
            forall|j: int| 0 <= j < i ==> !eq_ignoring_ascii_case(#[trigger] types@[j]@, remote_type@),
        decreases types.len() - i,
    {
        if str_eq_ignore_ascii_case(types[i].as_str(), remote_type) {
            return i;
        }
        i = i + 1;
    }
    0
}

} // verus!
