//! The pure parts of the workflow test harness: fixture secrets, fixture references, the
//! integrity check of staged overlays, and the check that a trace does not reveal a secret.
use vstd::prelude::*;
use vstd::string::StrSliceExecFns;
use vstd::string::StringSliceAdditionalSpecFns;
use base64::Engine as _;
use sha2::Digest as _;
use crate::text::{chars_lt, str_equals, str_less};

verus! {

#[derive(Debug, Clone, Copy, PartialEq, Eq, Structural)]
pub enum WorkflowHarnessError {
    InvalidFixtureReference,
    FixtureIntegrityMismatch,
    TemporaryRootUnavailable,
    ScenarioBootstrapFailed,
    ScenarioControlUnavailable,
    SchedulerProtocolViolation,
    TraceContainsSensitiveInput,
}

pub open spec fn error_message(e: WorkflowHarnessError) -> Seq<char> {
    match e {
        WorkflowHarnessError::InvalidFixtureReference => "invalid workflow fixture reference"@,
        WorkflowHarnessError::FixtureIntegrityMismatch => "workflow fixture integrity mismatch"@,
        WorkflowHarnessError::TemporaryRootUnavailable => "workflow temporary root unavailable"@,
        WorkflowHarnessError::ScenarioBootstrapFailed => "workflow scenario bootstrap failed"@,
        WorkflowHarnessError::ScenarioControlUnavailable => "workflow scenario control unavailable"@,
        WorkflowHarnessError::SchedulerProtocolViolation => "workflow scheduler protocol violation"@,
        WorkflowHarnessError::TraceContainsSensitiveInput => "trace contains sensitive input"@,
    }
}

impl WorkflowHarnessError {
    /// The human-readable message of the error.
    pub fn message(&self) -> (s: &'static str)
        ensures
            s@ == error_message(*self),
    {
        match self {
            Self::InvalidFixtureReference => "invalid workflow fixture reference",
            Self::FixtureIntegrityMismatch => "workflow fixture integrity mismatch",
            Self::TemporaryRootUnavailable => "workflow temporary root unavailable",
            Self::ScenarioBootstrapFailed => "workflow scenario bootstrap failed",
            Self::ScenarioControlUnavailable => "workflow scenario control unavailable",
            Self::SchedulerProtocolViolation => "workflow scheduler protocol violation",
            Self::TraceContainsSensitiveInput => "trace contains sensitive input",
        }
    }
}

/// A secret handed to the scenario runtime.
pub struct SecretInput {
    value: String,
}

impl View for SecretInput {
    type V = Seq<char>;

    closed spec fn view(&self) -> Seq<char> {
        self.value@
    }
}

impl SecretInput {
    pub fn new(value: String) -> (s: Self)
        ensures
            s@ == value@,
    {
        SecretInput { value }
    }

    /// The secret in plain text.
    pub fn expose(&self) -> (s: &str)
        ensures
            s@ == self@,
    {
        self.value.as_str()
    }

    pub fn into_string(self) -> (s: String)
        ensures
            s@ == self@,
    {
        self.value
    }
}

/// Out-of-band fixture secrets, by secret id. They cannot be printed or cloned, and are read
/// back only by handing them to the scenario runtime.
pub struct FixtureSecrets(Vec<(String, SecretInput)>);

/// Ids strictly ascending.
pub open spec fn ids_ascending(entries: Seq<(String, SecretInput)>) -> bool {
    forall|i: int, j: int| 0 <= i < j < entries.len() ==> chars_lt(#[trigger] entries[i].0@, #[trigger] entries[j].0@)
}

pub open spec fn pairs_ascending(entries: Seq<(String, String)>) -> bool {
    forall|i: int, j: int| 0 <= i < j < entries.len() ==> chars_lt(#[trigger] entries[i].0@, #[trigger] entries[j].0@)
}

proof fn lemma_chars_lt_irreflexive(a: Seq<char>)
    ensures
        !chars_lt(a, a),
    decreases a.len(),
{
    if a.len() > 0 {
        lemma_chars_lt_irreflexive(a.drop_first());
    }
}

proof fn lemma_chars_lt_trans(a: Seq<char>, b: Seq<char>, c: Seq<char>)
    requires
        chars_lt(a, b),
        chars_lt(b, c),
    ensures
        chars_lt(a, c),
    decreases a.len(),
{
    if a.len() > 0 && b.len() > 0 && c.len() > 0 && a[0] == b[0] && b[0] == c[0] {
        lemma_chars_lt_trans(a.drop_first(), b.drop_first(), c.drop_first());
    }
}

proof fn lemma_chars_lt_total(a: Seq<char>, b: Seq<char>)
    ensures
        chars_lt(a, b) || chars_lt(b, a) || a == b,
    decreases a.len(),
{
    if a.len() > 0 && b.len() > 0 {
        if a[0] == b[0] {
            lemma_chars_lt_total(a.drop_first(), b.drop_first());
            if a.drop_first() == b.drop_first() {
                assert(a =~= seq![a[0]] + a.drop_first());
                assert(b =~= seq![b[0]] + b.drop_first());
            }
        } else {
            assert((a[0] as int) != (b[0] as int));
        }
    } else if a.len() == 0 && b.len() == 0 {
        assert(a =~= b);
    }
}

/// The secrets as a map from id to value.
pub open spec fn secrets_map(entries: Seq<(String, SecretInput)>) -> Map<Seq<char>, Seq<char>>
    decreases entries.len(),
{
    if entries.len() == 0 {
        Map::empty()
    } else {
        secrets_map(entries.drop_last()).insert(entries.last().0@, entries.last().1@)
    }
}

pub open spec fn pairs_map(entries: Seq<(String, String)>) -> Map<Seq<char>, Seq<char>>
    decreases entries.len(),
{
    if entries.len() == 0 {
        Map::empty()
    } else {
        pairs_map(entries.drop_last()).insert(entries.last().0@, entries.last().1@)
    }
}

proof fn lemma_secrets_map_dom(entries: Seq<(String, SecretInput)>)
    ensures
        forall|k: Seq<char>| #[trigger] secrets_map(entries).contains_key(k)
            <==> exists|i: int| 0 <= i < entries.len() && entries[i].0@ == k,
    decreases entries.len(),
{
    if entries.len() > 0 {
        let d = entries.drop_last();
        lemma_secrets_map_dom(d);
        assert forall|k: Seq<char>| #[trigger] secrets_map(entries).contains_key(k)
            <==> exists|i: int| 0 <= i < entries.len() && entries[i].0@ == k by {
            if secrets_map(entries).contains_key(k) {
                if k == entries.last().0@ {
                    assert(entries[entries.len() - 1].0@ == k);
                } else {
                    assert(secrets_map(d).contains_key(k));
                    let i = choose|i: int| 0 <= i < d.len() && d[i].0@ == k;
                    assert(d[i] == entries[i]);
                }
            }
            if exists|i: int| 0 <= i < entries.len() && entries[i].0@ == k {
                let i = choose|i: int| 0 <= i < entries.len() && entries[i].0@ == k;
                if i < d.len() {
                    assert(d[i] == entries[i]);
                    assert(secrets_map(d).contains_key(k));
                }
            }
        }
    }
}

impl View for FixtureSecrets {
    type V = Map<Seq<char>, Seq<char>>;

    closed spec fn view(&self) -> Map<Seq<char>, Seq<char>> {
        secrets_map(self.0@)
    }
}

impl FixtureSecrets {
    #[verifier::type_invariant]
    closed spec fn ordered(self) -> bool {
        ids_ascending(self.0@)
    }

    /// No secrets.
    pub fn none() -> (s: Self)
        ensures
            s@ == Map::<Seq<char>, Seq<char>>::empty(),
    {
        FixtureSecrets(Vec::new())
    }

    /// Adds a secret under a new, non-empty id; an empty or repeated id is refused and
    /// changes nothing.
    pub fn insert(&mut self, secret_id: String, value: SecretInput) -> (r: Result<(), WorkflowHarnessError>)
        ensures
            r is Err <==> (secret_id@.len() == 0 || old(self)@.contains_key(secret_id@)),
            r matches Err(e) ==> e == WorkflowHarnessError::ScenarioBootstrapFailed && final(self)@ == old(self)@,
            r is Ok ==> final(self)@ == old(self)@.insert(secret_id@, value@),
    {
        proof {
            use_type_invariant(&*self);
            lemma_secrets_map_dom(self.0@);
        }
        if secret_id.as_str().unicode_len() == 0 {
            return Err(WorkflowHarnessError::ScenarioBootstrapFailed);
        }
        let ghost old_entries = self.0@;
        let mut j: usize = 0;
        while j < self.0.len() && str_less(self.0[j].0.as_str(), secret_id.as_str())
            invariant
                j <= self.0@.len(),
                self.0@ == old_entries,
                ids_ascending(old_entries),
                forall|k: int| 0 <= k < j ==> chars_lt(#[trigger] old_entries[k].0@, secret_id@),
            decreases self.0.len() - j,
        {
            j = j + 1;
        }
        let duplicate = j < self.0.len() && str_equals(self.0[j].0.as_str(), secret_id.as_str());
        if duplicate {
            proof {
                assert(old_entries[j as int].0@ == secret_id@);
            }
            return Err(WorkflowHarnessError::ScenarioBootstrapFailed);
        }
        proof {
            // Every id from `j` on lies above the new one.
            if j < old_entries.len() {
                assert(!chars_lt(old_entries[j as int].0@, secret_id@));
                assert(old_entries[j as int].0@ != secret_id@);
                lemma_chars_lt_total(old_entries[j as int].0@, secret_id@);
                assert(chars_lt(secret_id@, old_entries[j as int].0@));
            }
            assert forall|k: int| j <= k < old_entries.len() implies chars_lt(secret_id@, #[trigger] old_entries[k].0@) by {
                if k > j {
                    assert(chars_lt(old_entries[j as int].0@, old_entries[k].0@));
                    lemma_chars_lt_trans(secret_id@, old_entries[j as int].0@, old_entries[k].0@);
                }
            }
            assert forall|k: int| 0 <= k < old_entries.len() implies old_entries[k].0@ != secret_id@ by {
                lemma_chars_lt_irreflexive(secret_id@);
                if k < j {
                    assert(chars_lt(old_entries[k].0@, secret_id@));
                } else {
                    assert(chars_lt(secret_id@, old_entries[k].0@));
                }
            }
            assert(!secrets_map(old_entries).contains_key(secret_id@));
        }
        let ghost id_view = secret_id@;
        let ghost value_view = value@;
        let mut entries = Vec::new();
        std::mem::swap(&mut entries, &mut self.0);
        entries.insert(j, (secret_id, value));
        proof {
            let n = entries@;
            assert(n =~= old_entries.take(j as int).push(n[j as int]) + old_entries.skip(j as int));
            assert(n[j as int].0@ == id_view);
            assert forall|a: int, b: int| 0 <= a < b < n.len() implies chars_lt(#[trigger] n[a].0@, #[trigger] n[b].0@) by {
                if a < j {
                    assert(n[a] == old_entries[a]);
                    if b < j {
                        assert(n[b] == old_entries[b]);
                    } else if b == j {
                    } else {
                        assert(n[b] == old_entries[b - 1]);
                        lemma_chars_lt_trans(old_entries[a].0@, id_view, old_entries[b - 1].0@);
                    }
                } else if a == j {
                    assert(n[b] == old_entries[b - 1]);
                } else {
                    assert(n[a] == old_entries[a - 1]);
                    assert(n[b] == old_entries[b - 1]);
                }
            }
            lemma_map_insert_ordered(old_entries, j as int, n);
        }
        self.0 = entries;
        Ok(())
    }

    /// Hands the secrets over, as (id, value) pairs in ascending id order.
    pub fn consume(self) -> (r: Result<Vec<(String, String)>, WorkflowHarnessError>)
        ensures
            r matches Ok(pairs) && pairs_ascending(pairs@) && pairs_map(pairs@) == self@,
    {
        proof { use_type_invariant(&self); }
        let FixtureSecrets(entries) = self;
        let ghost all = entries@;
        let mut out: Vec<(String, String)> = Vec::new();
        let mut rest = entries;
        while rest.len() > 0
            invariant
                ids_ascending(all),
                rest@ == all.skip(out@.len() as int),
                out@.len() <= all.len(),
                forall|k: int| 0 <= k < out@.len() ==> (#[trigger] out@[k]).0@ == all[k].0@ && out@[k].1@ == all[k].1@,
            decreases rest.len(),
        {
            let ghost k: int = out@.len() as int;
            let (id, secret) = rest.remove(0);
            assert(rest@ =~= all.skip(k + 1));
            out.push((id, secret.into_string()));
        }
        proof { lemma_pairs_match(all, out@); }
        Ok(out)
    }
}

proof fn lemma_pairs_match(all: Seq<(String, SecretInput)>, out: Seq<(String, String)>)
    requires
        ids_ascending(all),
        out.len() == all.len(),
        forall|k: int| 0 <= k < out.len() ==> (#[trigger] out[k]).0@ == all[k].0@ && out[k].1@ == all[k].1@,
    ensures
        pairs_ascending(out),
        pairs_map(out) == secrets_map(all),
    decreases all.len(),
{
    assert forall|i: int, j: int| 0 <= i < j < out.len() implies chars_lt(#[trigger] out[i].0@, #[trigger] out[j].0@) by {
        assert(chars_lt(all[i].0@, all[j].0@));
    }
    if all.len() > 0 {
        lemma_pairs_match(all.drop_last(), out.drop_last());
        assert(out.last().0@ == all.last().0@);
    }
}

proof fn lemma_map_insert_ordered(old_entries: Seq<(String, SecretInput)>, j: int, n: Seq<(String, SecretInput)>)
    requires
        0 <= j <= old_entries.len(),
        n.len() == old_entries.len() + 1,
        forall|k: int| 0 <= k < j ==> n[k] == old_entries[k],
        forall|k: int| j < k < n.len() ==> n[k] == old_entries[k - 1],
        forall|k: int| 0 <= k < old_entries.len() ==> old_entries[k].0@ != n[j].0@,
    ensures
        secrets_map(n) == secrets_map(old_entries).insert(n[j].0@, n[j].1@),
    decreases old_entries.len(),
{
    if j == old_entries.len() {
        assert(n.drop_last() =~= old_entries);
    } else {
        let od = old_entries.drop_last();
        let nd = n.drop_last();
        lemma_map_insert_ordered(od, j, nd);
        assert(n.last() == old_entries.last());
        assert(secrets_map(n) =~= secrets_map(old_entries).insert(n[j].0@, n[j].1@));
    }
}

/// A projection of one trace entry.
#[derive(Debug, Clone, PartialEq, Eq)]
pub struct TraceProjection {
    pub sequence: u64,
    pub virtual_tick: u64,
    pub operation: String,
    pub generation: u64,
    pub status: String,
}


/// The five typed workflow entry points of the test facade.
pub open spec fn facade_routes() -> Seq<Seq<char>> {
    seq!["logical"@, "physical"@, "network"@, "image_usage"@, "reload"@]
}

/// The public test facade has no `Message` input: its five typed workflow entry points are
/// closed and distinct. Checks that the routes are five, none empty and none repeated.
pub fn verify_workflow_facade_contract() -> (r: Result<(), WorkflowHarnessError>)
    ensures
        r is Ok,
        facade_routes().len() == 5,
        forall|i: int, j: int| 0 <= i < j < 5 ==> facade_routes()[i] != facade_routes()[j],
        forall|i: int| 0 <= i < 5 ==> facade_routes()[i].len() > 0,
{
    proof {
        reveal_strlit("logical");
        reveal_strlit("physical");
        reveal_strlit("network");
        reveal_strlit("image_usage");
        reveal_strlit("reload");
    }
    let mut routes: Vec<&str> = Vec::new();
    routes.push("logical");
    routes.push("physical");
    routes.push("network");
    routes.push("image_usage");
    routes.push("reload");
    assert(routes@.len() == 5);
    assert(forall|i: int| 0 <= i < 5 ==> (#[trigger] routes@[i])@ == facade_routes()[i]);
    assert(forall|i: int, j: int| 0 <= i < j < 5 ==> facade_routes()[i] != facade_routes()[j]) by {
        assert(facade_routes()[0].len() == 7);
        assert(facade_routes()[1].len() == 8);
        assert(facade_routes()[2].len() == 7);
        assert(facade_routes()[3].len() == 11);
        assert(facade_routes()[4].len() == 6);
        assert(facade_routes()[0][0] != facade_routes()[2][0]);
    }
    if routes.len() != 5 {
        return Err(WorkflowHarnessError::SchedulerProtocolViolation);
    }
    assert(forall|k: int| 0 <= k < 5 ==> (#[trigger] facade_routes()[k]).len() > 0);
    let mut i: usize = 0;
    while i < routes.len()
        invariant
            routes@.len() == 5,
            forall|k: int| 0 <= k < 5 ==> (#[trigger] routes@[k])@ == facade_routes()[k],
            forall|k: int| 0 <= k < 5 ==> (#[trigger] facade_routes()[k]).len() > 0,
            forall|a: int, b: int| 0 <= a < b < 5 ==> facade_routes()[a] != facade_routes()[b],
            facade_routes().len() == 5,
            i <= 5,
        decreases 5 - i,
    {
        if routes[i].unicode_len() == 0 {
            return Err(WorkflowHarnessError::SchedulerProtocolViolation);
        }
        i = i + 1;
    }
    let mut index: usize = 0;
    while index < routes.len()
        invariant
            routes@.len() == 5,
            forall|k: int| 0 <= k < 5 ==> (#[trigger] routes@[k])@ == facade_routes()[k],
            forall|a: int, b: int| 0 <= a < b < 5 ==> facade_routes()[a] != facade_routes()[b],
            forall|k: int| 0 <= k < 5 ==> (#[trigger] facade_routes()[k]).len() > 0,
            facade_routes().len() == 5,
            index <= 5,
        decreases 5 - index,
    {
        let mut earlier: usize = 0;
        while earlier < index
            invariant
                routes@.len() == 5,
                forall|k: int| 0 <= k < 5 ==> (#[trigger] routes@[k])@ == facade_routes()[k],
                forall|a: int, b: int| 0 <= a < b < 5 ==> facade_routes()[a] != facade_routes()[b],
                earlier <= index < 5,
            decreases index - earlier,
        {
            if str_equals(routes[earlier], routes[index]) {
                return Err(WorkflowHarnessError::SchedulerProtocolViolation);
            }
            earlier = earlier + 1;
        }
        index = index + 1;
    }
    Ok(())
}

/// A fixture reference that can only name a plain relative file: not empty, ASCII, and without
/// backslashes.
pub open spec fn plain_fixture_reference(relative: Seq<char>) -> bool {
    &&& relative.len() > 0
    &&& forall|i: int| 0 <= i < relative.len() ==> (#[trigger] relative[i] as int) < 128
    &&& forall|i: int| 0 <= i < relative.len() ==> #[trigger] relative[i] != '\\'
}

/// Refuses fixture references that are empty, not ASCII, or hold a backslash.
pub fn check_plain_fixture_reference(relative: &str) -> (r: Result<(), WorkflowHarnessError>)
    ensures
        r is Ok <==> plain_fixture_reference(relative@),
        r matches Err(e) ==> e == WorkflowHarnessError::InvalidFixtureReference,
{
    let n = relative.unicode_len();
    if n == 0 {
        return Err(WorkflowHarnessError::InvalidFixtureReference);
    }
    let mut i: usize = 0;
    while i < n
        invariant
            n == relative@.len(),
            i <= n,
            forall|k: int| 0 <= k < i ==> (#[trigger] relative@[k] as int) < 128,
        decreases n - i,
    {
        let c = relative.get_char(i);
        if (c as u32) >= 128 {
            return Err(WorkflowHarnessError::InvalidFixtureReference);
        }
        i = i + 1;
    }
    let mut j: usize = 0;
    while j < n
        invariant
            n == relative@.len(),
            j <= n,
            forall|k: int| 0 <= k < j ==> #[trigger] relative@[k] != '\\',
        decreases n - j,
    {
        if relative.get_char(j) == '\\' {
            return Err(WorkflowHarnessError::InvalidFixtureReference);
        }
        j = j + 1;
    }
    Ok(())
}

/// The parts of a path between its `/` separators, empty ones included.
pub open spec fn path_parts(s: Seq<char>) -> Seq<Seq<char>>
    decreases s.len(),
{
    if s.len() == 0 {
        seq![Seq::empty()]
    } else {
        let ps = path_parts(s.drop_last());
        if s.last() == '/' {
            ps.push(Seq::empty())
        } else {
            ps.drop_last().push(ps.last().push(s.last()))
        }
    }
}

/// The name of the file a path names: its last part that is neither empty nor `.`.
pub open spec fn last_name(parts: Seq<Seq<char>>) -> Option<Seq<char>>
    decreases parts.len(),
{
    if parts.len() == 0 {
        None
    } else if parts.last().len() > 0 && parts.last() != "."@ {
        Some(parts.last())
    } else {
        last_name(parts.drop_last())
    }
}

/// A file name whose extension is `toml`: it ends in `.toml` after at least one character.
pub open spec fn toml_file_name(n: Seq<char>) -> bool {
    n.len() > 5 && n.subrange(n.len() - 5, n.len() as int) == ".toml"@
}

/// A fixture reference that is a plain reference (see [`plain_fixture_reference`]) and, read as
/// a path, is relative (its first part is neither empty nor `.`), never goes up (no part is
/// `..`), and names a `.toml` file.
pub open spec fn relative_toml_path(relative: Seq<char>) -> bool {
    let parts = path_parts(relative);
    &&& plain_fixture_reference(relative)
    &&& parts[0].len() > 0
    &&& parts[0] != "."@
    &&& forall|k: int| 0 <= k < parts.len() ==> #[trigger] parts[k] != ".."@
    &&& last_name(parts) matches Some(n) && toml_file_name(n)
}

pub open spec fn spans_view(s: Seq<char>, spans: Seq<(usize, usize)>) -> Seq<Seq<char>> {
    spans.map_values(|p: (usize, usize)| s.subrange(p.0 as int, p.1 as int))
}

fn path_spans(s: &str) -> (spans: Vec<(usize, usize)>)
    ensures
        spans_view(s@, spans@) == path_parts(s@),
        forall|k: int| 0 <= k < spans@.len() ==> (#[trigger] spans@[k]).0 <= spans@[k].1 <= s@.len(),
{
    let n = s.unicode_len();
    let mut spans: Vec<(usize, usize)> = Vec::new();
    let mut start: usize = 0;
    let mut i: usize = 0;
    assert(s@.take(0).len() == 0);
    assert(path_parts(s@.take(0)) == seq![Seq::<char>::empty()]);
    assert(spans_view(s@, spans@) =~= Seq::<Seq<char>>::empty());
    assert(s@.subrange(0, 0) =~= Seq::<char>::empty());
    assert(spans_view(s@, spans@).push(s@.subrange(0, 0)) =~= path_parts(s@.take(0)));
    while i < n
        invariant
            n == s@.len(),
            start <= i <= n,
            spans_view(s@, spans@).push(s@.subrange(start as int, i as int)) == path_parts(s@.take(i as int)),
            forall|k: int| 0 <= k < spans@.len() ==> (#[trigger] spans@[k]).0 <= spans@[k].1 <= i,
        decreases n - i,
    {
        let c = s.get_char(i);
        let ghost prev = spans_view(s@, spans@);
        assert(s@.take(i + 1).drop_last() =~= s@.take(i as int));
        assert(s@.take(i + 1).last() == c);
        assert(path_parts(s@.take(i + 1)) == if c == '/' {
            path_parts(s@.take(i as int)).push(Seq::empty())
        } else {
            path_parts(s@.take(i as int)).drop_last().push(path_parts(s@.take(i as int)).last().push(c))
        });
        if c == '/' {
            spans.push((start, i));
            assert(spans_view(s@, spans@) =~= prev.push(s@.subrange(start as int, i as int)));
            start = i + 1;
            assert(s@.subrange(start as int, i + 1) =~= Seq::<char>::empty());
            assert(spans_view(s@, spans@).push(s@.subrange(start as int, i + 1)) =~= path_parts(s@.take(i + 1)));
        } else {
            assert(s@.subrange(start as int, i + 1) =~= s@.subrange(start as int, i as int).push(c));
            assert(prev.push(s@.subrange(start as int, i as int)).drop_last() =~= prev);
            assert(prev.push(s@.subrange(start as int, i + 1)) =~= path_parts(s@.take(i + 1)));
        }
        i = i + 1;
    }
    let ghost prev = spans_view(s@, spans@);
    spans.push((start, n));
    assert(spans_view(s@, spans@) =~= prev.push(s@.subrange(start as int, n as int)));
    assert(s@.take(n as int) =~= s@);
    spans
}

/// Refuses a fixture reference unless it is a plain relative path of a `.toml` file that
/// never goes up (see [`relative_toml_path`]).
pub fn check_relative_toml_path(relative: &str) -> (r: Result<(), WorkflowHarnessError>)
    ensures
        r is Ok <==> relative_toml_path(relative@),
        r matches Err(e) ==> e == WorkflowHarnessError::InvalidFixtureReference,
{
    if check_plain_fixture_reference(relative).is_err() {
        return Err(WorkflowHarnessError::InvalidFixtureReference);
    }
    let spans = path_spans(relative);
    let ghost parts = path_parts(relative@);
    assert(spans@.len() == parts.len());
    assert(spans@.len() > 0) by {
        lemma_path_parts_non_empty(relative@);
    }
    let (a0, b0) = spans[0];
    assert(parts[0] == relative@.subrange(a0 as int, b0 as int));
    let first = relative.substring_char(a0, b0);
    if first.unicode_len() == 0 || str_equals(first, ".") {
        return Err(WorkflowHarnessError::InvalidFixtureReference);
    }
    let mut k: usize = 0;
    while k < spans.len()
        invariant
            parts == path_parts(relative@),
            plain_fixture_reference(relative@),
            parts[0].len() > 0 && parts[0] != "."@,
            spans_view(relative@, spans@) == parts,
            forall|t: int| 0 <= t < spans@.len() ==> (#[trigger] spans@[t]).0 <= spans@[t].1 <= relative@.len(),
            k <= spans@.len(),
            forall|t: int| 0 <= t < k ==> #[trigger] parts[t] != ".."@,
        decreases spans.len() - k,
    {
        let (a, b) = spans[k];
        assert(parts[k as int] == relative@.subrange(a as int, b as int));
        if str_equals(relative.substring_char(a, b), "..") {
            assert(parts[k as int] == ".."@);
            return Err(WorkflowHarnessError::InvalidFixtureReference);
        }
        k = k + 1;
    }
    // The last part that is neither empty nor `.`.
    let mut j: usize = spans.len();
    assert(parts.take(j as int) =~= parts);
    while j > 0
        invariant
            parts == path_parts(relative@),
            plain_fixture_reference(relative@),
            parts[0].len() > 0 && parts[0] != "."@,
            forall|t: int| 0 <= t < parts.len() ==> #[trigger] parts[t] != ".."@,
            spans_view(relative@, spans@) == parts,
            forall|t: int| 0 <= t < spans@.len() ==> (#[trigger] spans@[t]).0 <= spans@[t].1 <= relative@.len(),
            j <= spans@.len(),
            last_name(parts) == last_name(parts.take(j as int)),
        decreases j,
    {
        let (a, b) = spans[j - 1];
        let ghost t = parts.take(j as int);
        assert(t.last() == parts[j - 1]);
        assert(t.drop_last() =~= parts.take(j - 1));
        assert(parts[j - 1] == relative@.subrange(a as int, b as int));
        let part = relative.substring_char(a, b);
        let len = part.unicode_len();
        if len > 0 && !str_equals(part, ".") {
            assert(last_name(t) == Some(part@));
            if len <= 5 {
                return Err(WorkflowHarnessError::InvalidFixtureReference);
            }
            let tail = part.substring_char(len - 5, len);
            if str_equals(tail, ".toml") {
                return Ok(());
            }
            return Err(WorkflowHarnessError::InvalidFixtureReference);
        }
        j = j - 1;
    }
    assert(parts.take(0).len() == 0);
    Err(WorkflowHarnessError::InvalidFixtureReference)
}

proof fn lemma_path_parts_non_empty(s: Seq<char>)
    ensures
        path_parts(s).len() > 0,
    decreases s.len(),
{
    if s.len() > 0 {
        lemma_path_parts_non_empty(s.drop_last());
    }
}

/// The directory, below the repository, that a staged fixture is read from.
#[derive(Debug, Clone, Copy, PartialEq, Eq, Structural)]
pub enum FixtureRoot {
    Scenarios,
    WorkflowOverlays,
}

impl FixtureRoot {
    pub fn directory(&self) -> (s: &'static str)
        ensures
            s@ == match self {
                FixtureRoot::Scenarios => "tests/ui/scenarios"@,
                FixtureRoot::WorkflowOverlays => "tests/ui/workflow-overlays"@,
            },
    {
        match self {
            FixtureRoot::Scenarios => "tests/ui/scenarios",
            FixtureRoot::WorkflowOverlays => "tests/ui/workflow-overlays",
        }
    }
}

/// The index of the first `:` in `s`, if any.
pub open spec fn first_colon(s: Seq<char>) -> Option<int> {
    if exists|i: int| 0 <= i < s.len() && s[i] == ':' {
        Some(choose|i: int| 0 <= i < s.len() && s[i] == ':' && forall|k: int| 0 <= k < i ==> s[k] != ':')
    } else {
        None
    }
}

/// Splits an overlay source reference `kind:path` at its first colon; `scenario` reads from
/// the scenarios, `overlay` from the workflow overlays; anything else is refused.
pub fn overlay_source(relative_fixture: &str) -> (r: Result<(FixtureRoot, &str), WorkflowHarnessError>)
    ensures
        match r {
            Ok((root, path)) => exists|i: int| {
                &&& 0 <= i < relative_fixture@.len()
                &&& relative_fixture@[i] == ':'
                &&& forall|k: int| 0 <= k < i ==> relative_fixture@[k] != ':'
                &&& path@ == relative_fixture@.skip(i + 1)
                &&& (root == FixtureRoot::Scenarios ==> relative_fixture@.take(i) == "scenario"@)
                &&& (root == FixtureRoot::WorkflowOverlays ==> relative_fixture@.take(i) == "overlay"@)
            },
            Err(e) => e == WorkflowHarnessError::InvalidFixtureReference && forall|i: int|
                0 <= i < relative_fixture@.len() && relative_fixture@[i] == ':' && (forall|k: int|
                    0 <= k < i ==> relative_fixture@[k] != ':') ==> relative_fixture@.take(i)
                    != "scenario"@ && relative_fixture@.take(i) != "overlay"@,
        },
{
    let n = relative_fixture.unicode_len();
    let mut i: usize = 0;
    while i < n && relative_fixture.get_char(i) != ':'
        invariant
            n == relative_fixture@.len(),
            i <= n,
            forall|k: int| 0 <= k < i ==> relative_fixture@[k] != ':',
        decreases n - i,
    {
        i = i + 1;
    }
    if i == n {
        return Err(WorkflowHarnessError::InvalidFixtureReference);
    }
    let kind = relative_fixture.substring_char(0, i);
    let path = relative_fixture.substring_char(i + 1, n);
    assert(kind@ =~= relative_fixture@.take(i as int));
    assert(path@ =~= relative_fixture@.skip(i + 1));
    proof {
        assert forall|j: int| 0 <= j < relative_fixture@.len() && relative_fixture@[j] == ':' && (forall|k: int|
            0 <= k < j ==> relative_fixture@[k] != ':') implies j == i by {
            if j < i {
            } else if j > i {
                assert(relative_fixture@[i as int] == ':');
            }
        }
    }
    if str_equals(kind, "scenario") {
        Ok((FixtureRoot::Scenarios, path))
    } else if str_equals(kind, "overlay") {
        Ok((FixtureRoot::WorkflowOverlays, path))
    } else {
        Err(WorkflowHarnessError::InvalidFixtureReference)
    }
}

// ---------------------------------------------------------------------------
// Digests and encodings.

/// SHA-256 of `data`, as `sha2::Sha256::digest` computes it.
pub uninterp spec fn sha256(data: Seq<u8>) -> Seq<u8>;

/// Standard base64 (with padding) of `data`, as `base64::engine::general_purpose::STANDARD`
/// encodes it.
pub uninterp spec fn base64_standard(data: Seq<u8>) -> Seq<char>;

/// Calls `sha2::Sha256::digest`. The digest is named; SHA-256 digests are 32 bytes long.
#[verifier::external_body]
fn sha256_digest(data: &[u8]) -> (digest: Vec<u8>)
    ensures
        digest@ == sha256(data@),
        digest@.len() == 32,
{
    sha2::Sha256::digest(data).to_vec()
}

/// Calls `Engine::encode` of `base64::engine::general_purpose::STANDARD`. The encoding is
/// named; nothing else is stated of it.
#[verifier::external_body]
fn base64_encode(data: &[u8]) -> (encoded: String)
    ensures
        encoded@ == base64_standard(data@),
{
    base64::engine::general_purpose::STANDARD.encode(data)
}

/// The ASCII byte of a lowercase hexadecimal digit.
pub open spec fn hex_digit(n: int) -> u8 {
    if n < 10 { (48 + n) as u8 } else { (87 + n) as u8 }
}

/// Lowercase hexadecimal of `data`, two ASCII digits per byte, as ASCII bytes.
pub open spec fn hex_lower(data: Seq<u8>) -> Seq<u8>
    decreases data.len(),
{
    if data.len() == 0 {
        seq![]
    } else {
        hex_lower(data.drop_last()) + seq![hex_digit(data.last() as int / 16), hex_digit(data.last() as int % 16)]
    }
}

fn hex_encode(data: &[u8]) -> (out: Vec<u8>)
    ensures
        out@ == hex_lower(data@),
{
    let mut out: Vec<u8> = Vec::new();
    let mut i: usize = 0;
    while i < data.len()
        invariant
            i <= data@.len(),
            out@ == hex_lower(data@.take(i as int)),
        decreases data.len() - i,
    {
        let b = data[i];
        let hi = b / 16;
        let lo = b % 16;
        let hi_digit: u8 = if hi < 10 { 48 + hi } else { 87 + hi };
        let lo_digit: u8 = if lo < 10 { 48 + lo } else { 87 + lo };
        out.push(hi_digit);
        out.push(lo_digit);
        proof {
            let t = data@.take(i + 1);
            assert(t.drop_last() =~= data@.take(i as int));
            assert(t.last() == b);
            assert(out@ =~= hex_lower(t));
        }
        i = i + 1;
    }
    assert(data@.take(data.len() as int) =~= data@);
    out
}

/// A well-formed expected SHA-256: 64 bytes, each a decimal digit or a lowercase `a`-`f`.
pub open spec fn lowercase_sha256_text(bytes: Seq<u8>) -> bool {
    &&& bytes.len() == 64
    &&& forall|i: int| 0 <= i < 64 ==> {
        let b = #[trigger] bytes[i];
        (48 <= b <= 57) || (97 <= b <= 102)
    }
}

/// Refuses an expected digest that is not 64 lowercase hexadecimal digits.
pub fn check_expected_sha256(expected_sha256: &str) -> (r: Result<(), WorkflowHarnessError>)
    ensures
        r is Ok <==> lowercase_sha256_text(expected_sha256.spec_bytes()),
        r matches Err(e) ==> e == WorkflowHarnessError::FixtureIntegrityMismatch,
{
    let bytes = expected_sha256.as_bytes();
    if bytes.len() != 64 {
        return Err(WorkflowHarnessError::FixtureIntegrityMismatch);
    }
    let mut i: usize = 0;
    while i < 64
        invariant
            bytes@ == expected_sha256.spec_bytes(),
            bytes@.len() == 64,
            i <= 64,
            forall|k: int| 0 <= k < i ==> {
                let b = #[trigger] bytes@[k];
                (48 <= b <= 57) || (97 <= b <= 102)
            },
        decreases 64 - i,
    {
        let b = bytes[i];
        if !((48 <= b && b <= 57) || (97 <= b && b <= 102)) {
            return Err(WorkflowHarnessError::FixtureIntegrityMismatch);
        }
        i = i + 1;
    }
    Ok(())
}

fn bytes_equal(a: &[u8], b: &[u8]) -> (r: bool)
    ensures
        r == (a@ == b@),
{
    if a.len() != b.len() {
        return false;
    }
    let mut i: usize = 0;
    while i < a.len()
        invariant
            a@.len() == b@.len(),
            i <= a@.len(),
            forall|k: int| 0 <= k < i ==> a@[k] == b@[k],
        decreases a.len() - i,
    {
        if a[i] != b[i] {
            return false;
        }
        i = i + 1;
    }
    assert(a@ =~= b@);
    true
}

/// Checks staged overlay bytes against their expected SHA-256 (lowercase hexadecimal text).
pub fn check_overlay_digest(bytes: &[u8], expected_sha256: &str) -> (r: Result<(), WorkflowHarnessError>)
    ensures
        r is Ok <==> hex_lower(sha256(bytes@)) == expected_sha256.spec_bytes(),
        r matches Err(e) ==> e == WorkflowHarnessError::FixtureIntegrityMismatch,
{
    let digest = sha256_digest(bytes);
    let hex = hex_encode(digest.as_slice());
    if bytes_equal(hex.as_slice(), expected_sha256.as_bytes()) {
        Ok(())
    } else {
        Err(WorkflowHarnessError::FixtureIntegrityMismatch)
    }
}

/// `needle` occurs in `hay` as a run of consecutive bytes.
pub open spec fn occurs_in(hay: Seq<u8>, needle: Seq<u8>) -> bool {
    exists|i: int| 0 <= i && i + needle.len() <= hay.len() && #[trigger] hay.subrange(i, i + needle.len()) == needle
}

fn window_matches(hay: &[u8], start: usize, needle: &[u8]) -> (r: bool)
    requires
        start + needle@.len() <= hay@.len(),
    ensures
        r == (hay@.subrange(start as int, start + needle@.len()) == needle@),
{
    let hay_len = hay.len();
    let mut k: usize = 0;
    while k < needle.len()
        invariant
            hay_len == hay@.len(),
            start + needle@.len() <= hay@.len(),
            k <= needle@.len(),
            forall|m: int| 0 <= m < k ==> hay@[start + m] == needle@[m],
        decreases needle.len() - k,
    {
        if hay[start + k] != needle[k] {
            assert(hay@.subrange(start as int, start + needle@.len())[k as int] != needle@[k as int]);
            return false;
        }
        k = k + 1;
    }
    assert(hay@.subrange(start as int, start + needle@.len()) =~= needle@);
    true
}

fn occurs(hay: &[u8], needle: &[u8]) -> (r: bool)
    ensures
        r == occurs_in(hay@, needle@),
{
    if needle.len() == 0 {
        assert(hay@.subrange(0int, 0int + needle@.len()) =~= needle@);
        return true;
    }
    if needle.len() > hay.len() {
        return false;
    }
    let hay_len = hay.len();
    let last = hay_len - needle.len();
    let mut i: usize = 0;
    while i <= last
        invariant
            hay_len == hay@.len(),
            needle@.len() >= 1,
            last + needle@.len() == hay@.len(),
            i <= last + 1,
            forall|k: int| 0 <= k < i ==> #[trigger] hay@.subrange(k, k + needle@.len()) != needle@,
        decreases last + 1 - i,
    {
        if window_matches(hay, i, needle) {
            return true;
        }
        i = i + 1;
    }
    false
}

/// The forms of a secret that a trace must not hold: its bytes, their lowercase hexadecimal,
/// their standard base64, and the lowercase hexadecimal of their SHA-256.
pub open spec fn secret_forms(plain: Seq<char>) -> Seq<Seq<u8>> {
    let bytes = vstd::utf8::encode_utf8(plain);
    seq![
        bytes,
        hex_lower(bytes),
        vstd::utf8::encode_utf8(base64_standard(bytes)),
        hex_lower(sha256(bytes)),
    ]
}

/// The trace reveals the secret: one of its non-empty forms occurs in the trace.
pub open spec fn trace_reveals(trace: Seq<u8>, plain: Seq<char>) -> bool {
    exists|i: int| 0 <= i < 4 && (#[trigger] secret_forms(plain)[i]).len() > 0 && occurs_in(trace, secret_forms(plain)[i])
}

/// Checks that the trace bytes do not hold the secret in any of the forms of
/// [`secret_forms`].
pub fn check_trace_redacted(trace: &[u8], plain: &str) -> (r: Result<(), WorkflowHarnessError>)
    ensures
        r is Ok <==> !trace_reveals(trace@, plain@),
        r matches Err(e) ==> e == WorkflowHarnessError::TraceContainsSensitiveInput,
{
    let bytes = plain.as_bytes();
    let hex = hex_encode(bytes);
    let encoded = base64_encode(bytes);
    let digest = hex_encode(sha256_digest(bytes).as_slice());
    let ghost forms = secret_forms(plain@);
    let mut needles: Vec<&[u8]> = Vec::new();
    needles.push(bytes);
    needles.push(hex.as_slice());
    needles.push(encoded.as_str().as_bytes());
    needles.push(digest.as_slice());
    assert(forall|k: int| 0 <= k < 4 ==> (#[trigger] needles@[k])@ == forms[k]);
    let mut i: usize = 0;
    while i < 4
        invariant
            needles@.len() == 4,
            forms == secret_forms(plain@),
            forall|k: int| 0 <= k < 4 ==> (#[trigger] needles@[k])@ == forms[k],
            i <= 4,
            forall|k: int| 0 <= k < i ==> !((#[trigger] forms[k]).len() > 0 && occurs_in(trace@, forms[k])),
        decreases 4 - i,
    {
        let needle = needles[i];
        if needle.len() > 0 && occurs(trace, needle) {
            return Err(WorkflowHarnessError::TraceContainsSensitiveInput);
        }
        i = i + 1;
    }
    Ok(())
}
} // verus!
