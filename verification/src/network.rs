//! State of the network section: configured remotes, their mounts, the editor and the wizard.
use vstd::prelude::*;
use crate::keyed_map::{KeyedMap, text_view, entries_map, lemma_entries_prefix, sorted_keys, keys_at, strictly_ascending};
use crate::network_wizard::{ConfigScope, NetworkWizardState, wizard_fresh};
use crate::text::{str_equals, trim, trimmed, str_eq_ignore_ascii_case, eq_ignoring_ascii_case};
use vstd::string::StringExecFns;
use vstd::string::StrSliceExecFns;
use crate::ids::new_random_id;

verus! {

/// The mount status of a remote.
#[derive(Debug, Clone)]
pub enum MountStatus {
    Mounted,
    Unmounted,
    Mounting,
    Unmounting,
    Error(String),
}

impl MountStatus {
    /// Whether the remote is mounted.
    pub fn is_mounted(&self) -> (r: bool)
        ensures
            r == (*self is Mounted),
    {
        match self {
            MountStatus::Mounted => true,
            _ => false,
        }
    }
}

/// The configuration of a remote.
#[derive(Debug, Clone)]
pub struct RemoteConfig {
    pub name: String,
    pub remote_type: String,
    pub scope: ConfigScope,
    pub options: KeyedMap<String>,
    pub has_secrets: bool,
}

/// A remote configuration by the characters of its strings.
pub type RemoteV = (Seq<char>, Seq<char>, ConfigScope, Map<Seq<char>, Seq<char>>, bool);

impl View for RemoteConfig {
    type V = RemoteV;

    open spec fn view(&self) -> RemoteV {
        (self.name@, self.remote_type@, self.scope, text_view(self.options@), self.has_secrets)
    }
}

impl RemoteConfig {
    /// A copy of the configuration.
    pub fn duplicate(&self) -> (r: Self)
        ensures
            r@ == self@,
    {
        RemoteConfig {
            name: self.name.clone(),
            remote_type: self.remote_type.clone(),
            scope: self.scope,
            options: self.options.clone(),
            has_secrets: self.has_secrets,
        }
    }
}

/// Runtime state of a network mount.
#[derive(Debug, Clone)]
pub struct NetworkMountState {
    /// The remote configuration.
    pub config: RemoteConfig,
    /// Current mount status.
    pub status: MountStatus,
    /// Whether an operation is in progress.
    pub loading: bool,
    /// Last error message, if any.
    pub error: Option<String>,
}

impl NetworkMountState {
    /// A mount of `config` that is not mounted and has nothing in progress.
    pub fn new(config: RemoteConfig) -> (m: Self)
        ensures
            m == (NetworkMountState { config, status: MountStatus::Unmounted, loading: false, error: None }),
    {
        NetworkMountState { config, status: MountStatus::Unmounted, loading: false, error: None }
    }

    /// Whether this mount is currently mounted.
    pub fn is_mounted(&self) -> (r: bool)
        ensures
            r == (self.status is Mounted),
    {
        self.status.is_mounted()
    }
}

/// The mounts of the configured remotes, each under its name and scope.
#[derive(Debug)]
pub struct MountTable {
    user: KeyedMap<NetworkMountState>,
    system: KeyedMap<NetworkMountState>,
}

pub type MountKey = (Seq<char>, ConfigScope);

impl MountTable {
    /// Each mount is kept under the name and scope of its configuration.
    #[verifier::type_invariant]
    closed spec fn keyed_by_config(self) -> bool {
        &&& forall|k: Seq<char>| #[trigger] self.user@.dom().contains(k)
            ==> self.user@[k].config.name@ == k && self.user@[k].config.scope == ConfigScope::User
        &&& forall|k: Seq<char>| #[trigger] self.system@.dom().contains(k)
            ==> self.system@[k].config.name@ == k && self.system@[k].config.scope == ConfigScope::System
    }

    /// The mounts of one scope, by name.
    pub closed spec fn scope_map(&self, scope: ConfigScope) -> Map<Seq<char>, NetworkMountState> {
        match scope {
            ConfigScope::User => self.user@,
            ConfigScope::System => self.system@,
        }
    }
}

impl View for MountTable {
    type V = Map<MountKey, NetworkMountState>;

    closed spec fn view(&self) -> Map<MountKey, NetworkMountState> {
        Map::new(
            |k: MountKey| self.scope_map(k.1).dom().contains(k.0),
            |k: MountKey| self.scope_map(k.1)[k.0],
        )
    }
}

impl MountTable {
    pub fn new() -> (t: Self)
        ensures
            t@ == Map::<MountKey, NetworkMountState>::empty(),
    {
        let t = MountTable { user: KeyedMap::new(), system: KeyedMap::new() };
        assert(t@ =~= Map::<MountKey, NetworkMountState>::empty());
        t
    }

    /// The mount of `name` in `scope`, if there is one.
    pub fn get(&self, name: &str, scope: ConfigScope) -> (r: Option<&NetworkMountState>)
        ensures
            match r {
                Some(m) => {
                    &&& self@.dom().contains((name@, scope))
                    &&& *m == self@[(name@, scope)]
                    &&& m.config.name@ == name@
                    &&& m.config.scope == scope
                },
                None => !self@.dom().contains((name@, scope)),
            },
    {
        proof { use_type_invariant(self); }
        match scope {
            ConfigScope::User => self.user.get(name),
            ConfigScope::System => self.system.get(name),
        }
    }

    /// Whether there is a mount of `name` in `scope`.
    pub fn contains(&self, name: &str, scope: ConfigScope) -> (r: bool)
        ensures
            r == self@.dom().contains((name@, scope)),
    {
        match scope {
            ConfigScope::User => self.user.contains_key(name),
            ConfigScope::System => self.system.contains_key(name),
        }
    }

    /// Puts `mount` under `name` and `scope`, in place of any mount there. A mount is kept
    /// under the name and scope of its configuration.
    pub fn insert(&mut self, name: String, scope: ConfigScope, mount: NetworkMountState)
        requires
            mount.config.name@ == name@,
            mount.config.scope == scope,
        ensures
            final(self)@ == old(self)@.insert((name@, scope), mount),
    {
        proof { use_type_invariant(&*self); }
        let ghost k = name@;
        match scope {
            ConfigScope::User => {
                let mut m = KeyedMap::new();
                std::mem::swap(&mut m, &mut self.user);
                m.insert(name, mount);
                self.user = m;
            },
            ConfigScope::System => {
                let mut m = KeyedMap::new();
                std::mem::swap(&mut m, &mut self.system);
                m.insert(name, mount);
                self.system = m;
            },
        }
        assert(final(self)@ =~= old(self)@.insert((k, scope), mount));
    }

    /// Takes out the mount of `name` in `scope`, if there is one.
    pub fn remove(&mut self, name: &str, scope: ConfigScope) -> (r: Option<NetworkMountState>)
        ensures
            final(self)@ == old(self)@.remove((name@, scope)),
            match r {
                Some(m) => {
                    &&& old(self)@.dom().contains((name@, scope))
                    &&& m == old(self)@[(name@, scope)]
                    &&& m.config.name@ == name@
                    &&& m.config.scope == scope
                },
                None => !old(self)@.dom().contains((name@, scope)),
            },
    {
        proof { use_type_invariant(&*self); }
        let r = match scope {
            ConfigScope::User => {
                let mut m = KeyedMap::new();
                std::mem::swap(&mut m, &mut self.user);
                let r = m.remove(name);
                self.user = m;
                r
            },
            ConfigScope::System => {
                let mut m = KeyedMap::new();
                std::mem::swap(&mut m, &mut self.system);
                let r = m.remove(name);
                self.system = m;
                r
            },
        };
        assert(final(self)@ =~= old(self)@.remove((name@, scope)));
        r
    }

    /// The mounts of one scope, in the order of their names.
    pub fn by_name(&self, scope: ConfigScope) -> (r: Vec<&NetworkMountState>)
        ensures
            r@.len() == sorted_keys(scope_names(self@, scope)).len(),
            forall|i: int| 0 <= i < r@.len() ==> *(#[trigger] r@[i]) == self@[(sorted_keys(scope_names(self@, scope))[i], scope)],
            strictly_ascending(sorted_keys(scope_names(self@, scope))),
            sorted_keys(scope_names(self@, scope)).to_set() == scope_names(self@, scope),
    {
        let table = match scope {
            ConfigScope::User => &self.user,
            ConfigScope::System => &self.system,
        };
        let n = table.len();
        let positions = table.positions_by_key();
        let ghost names = keys_at(table.pairs(), positions@);
        assert(scope_names(self@, scope) =~= table@.dom());
        let mut r: Vec<&NetworkMountState> = Vec::new();
        let mut i: usize = 0;
        while i < positions.len()
            invariant
                n == table.pairs().len(),
                table.entries_agree(),
                positions@.len() == n,
                forall|t: int| 0 <= t < positions@.len() ==> (#[trigger] positions@[t]) < n,
                names == keys_at(table.pairs(), positions@),
                names == sorted_keys(scope_names(self@, scope)),
                table@ == self.scope_map(scope),
                i <= n,
                r@.len() == i,
                forall|t: int| 0 <= t < i ==> *(#[trigger] r@[t]) == self@[(names[t], scope)],
            decreases positions.len() - i,
        {
            let p = positions[i];
            let v = table.value_at(p);
            proof {
                assert(names[i as int] == table.pairs()[p as int].0);
                assert(table@.dom().contains(table.pairs()[p as int].0));
            }
            r.push(v);
            i = i + 1;
        }
        r
    }
}

/// The names of the mounts in one scope.
pub open spec fn scope_names(m: Map<MountKey, NetworkMountState>, scope: ConfigScope) -> Set<Seq<char>> {
    Set::new(|n: Seq<char>| m.dom().contains((n, scope)))
}

/// Why the remote form cannot be saved or extended.
#[derive(Debug, Clone, PartialEq, Eq)]
pub enum RemoteFormError {
    /// The remote name is blank.
    EmptyName,
    /// The remote type has no provider.
    UnsupportedType,
    /// A required option of the provider is missing or blank.
    MissingField(String),
    /// The custom option key is blank.
    EmptyOptionKey,
    /// The custom option key is `type`, in any case.
    ReservedOptionKey,
    /// An option with the custom key exists already, in any case.
    DuplicateOptionKey,
}

/// The message shown for a form error.
pub open spec fn form_error_text(e: RemoteFormError) -> Seq<char> {
    match e {
        RemoteFormError::EmptyName => "Remote name cannot be empty"@,
        RemoteFormError::UnsupportedType => "Unsupported remote type"@,
        RemoteFormError::MissingField(name) => "Missing required field '"@ + name@ + "'"@,
        RemoteFormError::EmptyOptionKey => "Option key cannot be empty"@,
        RemoteFormError::ReservedOptionKey => "Option key cannot be 'type'"@,
        RemoteFormError::DuplicateOptionKey => "Option already exists"@,
    }
}

impl RemoteFormError {
    /// The message shown for the error.
    pub fn message(&self) -> (s: String)
        ensures
            s@ == form_error_text(*self),
    {
        match self {
            RemoteFormError::EmptyName => String::from_str("Remote name cannot be empty"),
            RemoteFormError::UnsupportedType => String::from_str("Unsupported remote type"),
            RemoteFormError::MissingField(name) => {
                let mut s = String::from_str("Missing required field '");
                s.append(name.as_str());
                s.append("'");
                s
            },
            RemoteFormError::EmptyOptionKey => String::from_str("Option key cannot be empty"),
            RemoteFormError::ReservedOptionKey => String::from_str("Option key cannot be 'type'"),
            RemoteFormError::DuplicateOptionKey => String::from_str("Option already exists"),
        }
    }
}

pub open spec fn opt_text(o: Option<String>) -> Option<Seq<char>> {
    match o {
        Some(s) => Some(s@),
        None => None,
    }
}

/// The sections expanded in a new editor.
pub open spec fn default_sections() -> Set<Seq<char>> {
    set!["authentication"@, "connection"@]
}

/// The editor of one remote's configuration.
#[derive(Debug, Clone)]
pub struct NetworkEditorState {
    pub name: String,
    pub remote_type: String,
    pub scope: ConfigScope,
    pub options: KeyedMap<String>,
    pub original_name: Option<String>,
    pub original_scope: Option<ConfigScope>,
    pub is_new: bool,
    pub running: bool,
    pub error: Option<String>,
    pub new_option_key: String,
    pub new_option_value: String,
    pub show_advanced: bool,
    pub show_hidden: bool,
    pub mount_on_boot: Option<bool>,
    /// Which sections are expanded.
    pub expanded_sections: KeyedMap<()>,
    /// The id of the save in progress; a completion for another id is stale.
    pub operation_id: Option<u128>,
}

fn default_expanded_sections() -> (s: KeyedMap<()>)
    ensures
        s@.dom() == default_sections(),
{
    let mut s = KeyedMap::new();
    s.insert(String::from_str("authentication"), ());
    s.insert(String::from_str("connection"), ());
    assert(s@.dom() =~= default_sections());
    s
}

/// An editor just opened on an existing remote's configuration.
pub open spec fn editor_opened(e: NetworkEditorState, c: RemoteV) -> bool {
    &&& e.name@ == c.0
    &&& e.remote_type@ == c.1
    &&& e.scope == c.2
    &&& text_view(e.options@) == c.3
    &&& opt_text(e.original_name) == Some(c.0)
    &&& e.original_scope == Some(c.2)
    &&& !e.is_new
    &&& !e.running
    &&& e.error is None
    &&& e.new_option_key@ == Seq::<char>::empty()
    &&& e.new_option_value@ == Seq::<char>::empty()
    &&& !e.show_advanced
    &&& !e.show_hidden
    &&& e.mount_on_boot is None
    &&& e.expanded_sections@.dom() == default_sections()
    &&& e.operation_id is None
}

impl NetworkEditorState {
    /// An editor for a new remote of type `default_type`.
    pub fn new(default_type: String) -> (e: Self)
        ensures
            e.name@ == Seq::<char>::empty(),
            e.remote_type == default_type,
            e.scope == ConfigScope::User,
            e.options@ == Map::<Seq<char>, String>::empty(),
            e.original_name is None,
            e.original_scope is None,
            e.is_new,
            !e.running,
            e.error is None,
            e.new_option_key@ == Seq::<char>::empty(),
            e.new_option_value@ == Seq::<char>::empty(),
            !e.show_advanced,
            !e.show_hidden,
            e.mount_on_boot is None,
            e.expanded_sections@.dom() == default_sections(),
            e.operation_id is None,
    {
        NetworkEditorState {
            name: String::new(),
            remote_type: default_type,
            scope: ConfigScope::User,
            options: KeyedMap::new(),
            original_name: None,
            original_scope: None,
            is_new: true,
            running: false,
            error: None,
            new_option_key: String::new(),
            new_option_value: String::new(),
            show_advanced: false,
            show_hidden: false,
            mount_on_boot: None,
            expanded_sections: default_expanded_sections(),
            operation_id: None,
        }
    }

    /// An editor of an existing remote's configuration.
    pub fn from_config(config: RemoteConfig) -> (e: Self)
        ensures
            editor_opened(e, config@),
    {
        NetworkEditorState {
            name: config.name.clone(),
            remote_type: config.remote_type.clone(),
            scope: config.scope,
            options: config.options.clone(),
            original_name: Some(config.name),
            original_scope: Some(config.scope),
            is_new: false,
            running: false,
            error: None,
            new_option_key: String::new(),
            new_option_value: String::new(),
            show_advanced: false,
            show_hidden: false,
            mount_on_boot: None,
            expanded_sections: default_expanded_sections(),
            operation_id: None,
        }
    }

    /// Sets the value of an option and clears the error.
    pub fn set_option(&mut self, key: String, value: String)
        ensures
            final(self).options@ == old(self).options@.insert(key@, value),
            *final(self) == (NetworkEditorState { options: final(self).options, error: None, ..*old(self) }),
    {
        self.options.insert(key, value);
        self.error = None;
    }

    /// Removes a custom option.
    pub fn remove_option(&mut self, key: &str)
        ensures
            final(self).options@ == old(self).options@.remove(key@),
            *final(self) == (NetworkEditorState { options: final(self).options, ..*old(self) }),
    {
        self.options.remove(key);
    }

    /// Expands a collapsed section, or collapses an expanded one.
    pub fn toggle_section(&mut self, section: String)
        ensures
            final(self).expanded_sections@.dom() == if old(self).expanded_sections@.dom().contains(section@) {
                old(self).expanded_sections@.dom().remove(section@)
            } else {
                old(self).expanded_sections@.dom().insert(section@)
            },
            *final(self) == (NetworkEditorState { expanded_sections: final(self).expanded_sections, ..*old(self) }),
    {
        if self.expanded_sections.contains_key(section.as_str()) {
            self.expanded_sections.remove(section.as_str());
        } else {
            self.expanded_sections.insert(section, ());
        }
    }

    /// Adds the custom option that the key and value fields hold. The key is trimmed; it may
    /// not be blank, be `type`, or match an existing key, all without regard to ASCII case.
    /// On success both fields are cleared; on failure the error is shown.
    pub fn add_custom_option(&mut self) -> (r: Result<(), RemoteFormError>)
        ensures
            r == custom_option_outcome(trimmed(old(self).new_option_key@), old(self).options@),
            match r {
                Ok(()) => {
                    &&& final(self).options@ == old(self).options@.insert(
                        trimmed(old(self).new_option_key@), old(self).new_option_value)
                    &&& *final(self) == (NetworkEditorState {
                        options: final(self).options,
                        new_option_key: final(self).new_option_key,
                        new_option_value: final(self).new_option_value,
                        error: None,
                        ..*old(self)
                    })
                    &&& final(self).new_option_key@ == Seq::<char>::empty()
                    &&& final(self).new_option_value@ == Seq::<char>::empty()
                },
                Err(e) => {
                    &&& *final(self) == (NetworkEditorState { error: final(self).error, ..*old(self) })
                    &&& opt_text(final(self).error) == Some(form_error_text(e))
                },
            },
    {
        let key = String::from_str(trim(self.new_option_key.as_str()));
        let outcome = check_custom_key(key.as_str(), &self.options);
        match outcome {
            Err(e) => {
                self.error = Some(e.message());
                Err(e)
            },
            Ok(()) => {
                let mut value = String::new();
                std::mem::swap(&mut value, &mut self.new_option_value);
                self.options.insert(key, value);
                self.new_option_key = String::new();
                self.error = None;
                Ok(())
            },
        }
    }
}

/// Whether some key of `options` equals `key` without regard to ASCII case.
pub open spec fn has_key_ignoring_case<V>(options: Map<Seq<char>, V>, key: Seq<char>) -> bool {
    exists|k: Seq<char>| #[trigger] options.dom().contains(k) && eq_ignoring_ascii_case(k, key)
}

/// What adding a custom option under the (trimmed) `key` gives.
pub open spec fn custom_option_outcome<V>(key: Seq<char>, options: Map<Seq<char>, V>) -> Result<(), RemoteFormError> {
    if key.len() == 0 {
        Err(RemoteFormError::EmptyOptionKey)
    } else if eq_ignoring_ascii_case(key, "type"@) {
        Err(RemoteFormError::ReservedOptionKey)
    } else if has_key_ignoring_case(options, key) {
        Err(RemoteFormError::DuplicateOptionKey)
    } else {
        Ok(())
    }
}

fn check_custom_key(key: &str, options: &KeyedMap<String>) -> (r: Result<(), RemoteFormError>)
    ensures
        r == custom_option_outcome(key@, options@),
{
    if key.unicode_len() == 0 {
        return Err(RemoteFormError::EmptyOptionKey);
    }
    if str_eq_ignore_ascii_case(key, "type") {
        return Err(RemoteFormError::ReservedOptionKey);
    }
    let n = options.len();
    let mut i: usize = 0;
    while i < n
        invariant
            n == options.pairs().len(),
            options.entries_agree(),
            key@.len() > 0,
            !eq_ignoring_ascii_case(key@, "type"@),
            i <= n,
            forall|j: int| 0 <= j < i ==> !eq_ignoring_ascii_case((#[trigger] options.pairs()[j]).0, key@),
        decreases n - i,
    {
        if str_eq_ignore_ascii_case(options.key_at(i).as_str(), key) {
            let ghost k = options.pairs()[i as int].0;
            assert(options@.dom().contains(k));
            assert(eq_ignoring_ascii_case(k, key@));
            assert(has_key_ignoring_case(options@, key@));
            return Err(RemoteFormError::DuplicateOptionKey);
        }
        i = i + 1;
    }
    assert(!has_key_ignoring_case(options@, key@)) by {
        if has_key_ignoring_case(options@, key@) {
            let k = choose|k: Seq<char>| #[trigger] options@.dom().contains(k) && eq_ignoring_ascii_case(k, key@);
            let j = choose|j: int| 0 <= j < options.pairs().len() && (#[trigger] options.pairs()[j]).0 == k;
        }
    }
    Ok(())
}

/// What the remote form reads of a provider option.
#[derive(Debug, Clone)]
pub struct ProviderOption {
    pub name: String,
    /// The option must have a value.
    pub required: bool,
    /// The option is not shown in the form.
    pub hidden: bool,
    /// The option holds a secret.
    pub secure: bool,
    /// The option is for advanced use.
    pub advanced: bool,
    /// The id of the form section the option is shown in, such as `connection`.
    pub section: String,
}

pub type ProviderOptionV = (Seq<char>, bool, bool, bool);

pub open spec fn provider_view(opts: Seq<ProviderOption>) -> Seq<ProviderOptionV> {
    opts.map_values(|o: ProviderOption| (o.name@, o.required, o.hidden, o.secure))
}

pub open spec fn opt_provider_view(p: Option<&Vec<ProviderOption>>) -> Option<Seq<ProviderOptionV>> {
    match p {
        Some(v) => Some(provider_view(v@)),
        None => None,
    }
}

/// The option `key` has no value, or a blank one.
pub open spec fn value_blank(values: Map<Seq<char>, Seq<char>>, key: Seq<char>) -> bool {
    !values.dom().contains(key) || trimmed(values[key]).len() == 0
}

/// The first required, shown option of the provider that has no value, if any.
pub open spec fn first_missing(opts: Seq<ProviderOptionV>, values: Map<Seq<char>, Seq<char>>) -> Option<Seq<char>>
    decreases opts.len(),
{
    if opts.len() == 0 {
        None
    } else if opts[0].1 && !opts[0].2 && value_blank(values, opts[0].0) {
        Some(opts[0].0)
    } else {
        first_missing(opts.drop_first(), values)
    }
}

/// The message that stops the form from being saved, if any: a blank name, an unsupported
/// type, then the first missing required option.
pub open spec fn form_error(name: Seq<char>, provider: Option<Seq<ProviderOptionV>>, values: Map<Seq<char>, Seq<char>>) -> Option<Seq<char>> {
    if trimmed(name).len() == 0 {
        Some(form_error_text(RemoteFormError::EmptyName))
    } else if provider is None {
        Some(form_error_text(RemoteFormError::UnsupportedType))
    } else {
        match first_missing(provider->0, values) {
            Some(field) => Some("Missing required field '"@ + field + "'"@),
            None => None,
        }
    }
}

/// The options whose values are not blank.
pub open spec fn nonblank(values: Map<Seq<char>, Seq<char>>) -> Map<Seq<char>, Seq<char>> {
    Map::new(|k: Seq<char>| values.dom().contains(k) && trimmed(values[k]).len() > 0, |k: Seq<char>| values[k])
}

/// Some secure option of the provider has a value.
pub open spec fn has_secret(provider: Option<Seq<ProviderOptionV>>, values: Map<Seq<char>, Seq<char>>) -> bool {
    &&& provider is Some
    &&& exists|j: int| 0 <= j < provider->0.len() && secret_set(provider->0[j], values)
}

/// A secure option with a value.
pub open spec fn secret_set(option: ProviderOptionV, values: Map<Seq<char>, Seq<char>>) -> bool {
    option.3 && values.dom().contains(option.0)
}

fn is_blank(s: &str) -> (r: bool)
    ensures
        r == (trimmed(s@).len() == 0),
{
    trim(s).unicode_len() == 0
}

/// Checks the name, the type's provider and the provider's required options.
pub fn check_remote_form(name: &str, provider: Option<&Vec<ProviderOption>>, options: &KeyedMap<String>) -> (r: Result<(), RemoteFormError>)
    ensures
        match r {
            Ok(()) => form_error(name@, opt_provider_view(provider), text_view(options@)) is None,
            Err(e) => form_error(name@, opt_provider_view(provider), text_view(options@)) == Some(form_error_text(e)),
        },
{
    if is_blank(name) {
        return Err(RemoteFormError::EmptyName);
    }
    let opts = match provider {
        Some(p) => p,
        None => { return Err(RemoteFormError::UnsupportedType); },
    };
    let ghost ov = provider_view(opts@);
    let ghost values = text_view(options@);
    let mut i: usize = 0;
    assert(ov.skip(0) =~= ov);
    while i < opts.len()
        invariant
            ov == provider_view(opts@),
            opt_provider_view(provider) == Some(ov),
            trimmed(name@).len() != 0,
            values == text_view(options@),
            i <= opts@.len(),
            first_missing(ov, values) == first_missing(ov.skip(i as int), values),
        decreases opts.len() - i,
    {
        let o = &opts[i];
        assert(ov.skip(i as int)[0] == (o.name@, o.required, o.hidden, o.secure));
        assert(ov.skip(i as int).drop_first() =~= ov.skip(i + 1));
        if o.required && !o.hidden {
            let blank = match options.get(o.name.as_str()) {
                Some(v) => is_blank(v.as_str()),
                None => true,
            };
            if blank {
                assert(value_blank(values, o.name@));
                return Err(RemoteFormError::MissingField(o.name.clone()));
            }
        }
        i = i + 1;
    }
    assert(ov.skip(i as int).len() == 0);
    Ok(())
}

/// The options whose values are not blank.
pub fn nonblank_options(options: &KeyedMap<String>) -> (r: KeyedMap<String>)
    ensures
        text_view(r@) == nonblank(text_view(options@)),
{
    let n = options.len();
    let ghost ps = options.pairs();
    let mut r: KeyedMap<String> = KeyedMap::new();
    let mut i: usize = 0;
    assert(text_view(entries_map(ps.take(0))) =~= Map::<Seq<char>, Seq<char>>::empty());
    assert(text_view(r@) =~= nonblank(text_view(entries_map(ps.take(0)))));
    while i < n
        invariant
            n == ps.len(),
            ps == options.pairs(),
            options.entries_agree(),
            i <= n,
            text_view(r@) == nonblank(text_view(entries_map(ps.take(i as int)))),
        decreases n - i,
    {
        proof { lemma_entries_prefix(ps, i as int); }
        let ghost before = entries_map(ps.take(i as int));
        let ghost k = ps[i as int].0;
        let ghost v = ps[i as int].1;
        let value = options.value_at(i);
        if !is_blank(value.as_str()) {
            let ghost old_r = r@;
            let key = options.key_at(i).clone();
            let val = value.clone();
            r.insert(key, val);
            assert(!before.dom().contains(k));
            assert(text_view(r@) =~= text_view(old_r).insert(k, v@));
            assert(text_view(before.insert(k, v)) =~= text_view(before).insert(k, v@));
            assert(text_view(r@) =~= nonblank(text_view(before.insert(k, v))));
        } else {
            assert(!before.dom().contains(k));
            assert(text_view(before.insert(k, v)) =~= text_view(before).insert(k, v@));
            assert(nonblank(text_view(before.insert(k, v))) =~= nonblank(text_view(before)));
        }
        i = i + 1;
    }
    assert(ps.take(n as int) =~= ps);
    r
}

/// Whether some secure option of the provider has a value among `values`.
fn provider_has_secret(provider: Option<&Vec<ProviderOption>>, values: &KeyedMap<String>) -> (r: bool)
    ensures
        r == has_secret(opt_provider_view(provider), text_view(values@)),
{
    match provider {
        None => false,
        Some(opts) => {
            let ghost ov = provider_view(opts@);
            let mut j: usize = 0;
            while j < opts.len()
                invariant
                    ov == provider_view(opts@),
                    opt_provider_view(provider) == Some(ov),
                    j <= opts@.len(),
                    forall|k: int| 0 <= k < j ==> !secret_set(#[trigger] ov[k], text_view(values@)),
                decreases opts.len() - j,
            {
                if opts[j].secure && values.contains_key(opts[j].name.as_str()) {
                    assert(secret_set(ov[j as int], text_view(values@)));
                    assert(ov.len() == opts@.len());
                    assert(exists|x: int| 0 <= x < ov.len() && secret_set(ov[x], text_view(values@)));
                    let ghost pv = opt_provider_view(provider);
                    assert(pv is Some);
                    assert(pv->0 == ov);
                    assert(has_secret(pv, text_view(values@)));
                    return true;
                }
                j = j + 1;
            }
            false
        },
    }
}

/// A save that the editor started: the configuration to write, and what it replaces.
#[derive(Debug)]
pub struct RemoteSaveRequest {
    pub config: RemoteConfig,
    /// The remote existed before the editor opened.
    pub is_edit: bool,
    pub original_name: Option<String>,
    pub original_scope: Option<ConfigScope>,
}

/// How a save reaches the remote configuration.
#[derive(Debug, Clone, PartialEq, Eq)]
pub enum SavePlan {
    /// Create a new remote.
    Create,
    /// Update the remote in place.
    Update,
    /// Delete the remote under its original name and scope, then create the new one.
    Replace { original_name: String, original_scope: ConfigScope },
}

impl RemoteSaveRequest {
    /// A new remote is created; a renamed remote, or one moved to another scope, is deleted and
    /// created again; otherwise it is updated.
    pub fn plan(&self) -> (p: SavePlan)
        ensures
            !self.is_edit ==> p == SavePlan::Create,
            self.is_edit && self.original_name is None ==> p == SavePlan::Update,
            self.is_edit && self.original_name is Some ==> {
                let original = self.original_name->0;
                let scope_changed = self.original_scope is Some && self.original_scope->0 != self.config.scope;
                if original@ != self.config.name@ || scope_changed {
                    p matches SavePlan::Replace { original_name, original_scope }
                        && original_name@ == original@
                        && original_scope == match self.original_scope {
                            Some(s) => s,
                            None => self.config.scope,
                        }
                } else {
                    p == SavePlan::Update
                }
            },
    {
        if !self.is_edit {
            return SavePlan::Create;
        }
        match &self.original_name {
            None => SavePlan::Update,
            Some(original) => {
                let scope_changed = match self.original_scope {
                    Some(s) => s != self.config.scope,
                    None => false,
                };
                if !str_equals(original.as_str(), self.config.name.as_str()) || scope_changed {
                    SavePlan::Replace {
                        original_name: original.clone(),
                        original_scope: match self.original_scope {
                            Some(s) => s,
                            None => self.config.scope,
                        },
                    }
                } else {
                    SavePlan::Update
                }
            },
        }
    }
}

impl NetworkEditorState {
    /// Starts saving the edited remote. A save already in progress, or a form error, gives
    /// `None`; the error is shown. Otherwise the editor is marked as saving under a fresh id,
    /// and the request holds the options that are not blank.
    pub fn begin_save(&mut self, provider: Option<&Vec<ProviderOption>>) -> (r: Option<RemoteSaveRequest>)
        ensures
            old(self).running ==> r is None && *final(self) == *old(self),
            !old(self).running ==> match form_error(old(self).name@, opt_provider_view(provider), text_view(old(self).options@)) {
                Some(msg) => {
                    &&& r is None
                    &&& *final(self) == (NetworkEditorState { error: final(self).error, ..*old(self) })
                    &&& opt_text(final(self).error) == Some(msg)
                },
                None => {
                    &&& r is Some
                    &&& r->0.config@ == (
                        old(self).name@,
                        old(self).remote_type@,
                        old(self).scope,
                        nonblank(text_view(old(self).options@)),
                        has_secret(opt_provider_view(provider), nonblank(text_view(old(self).options@))),
                    )
                    &&& r->0.is_edit == !old(self).is_new
                    &&& opt_text(r->0.original_name) == opt_text(old(self).original_name)
                    &&& r->0.original_scope == old(self).original_scope
                    &&& *final(self) == (NetworkEditorState {
                        running: true,
                        error: None,
                        operation_id: final(self).operation_id,
                        ..*old(self)
                    })
                    &&& final(self).operation_id is Some
                },
            },
    {
        if self.running {
            return None;
        }
        match check_remote_form(self.name.as_str(), provider, &self.options) {
            Err(e) => {
                self.error = Some(e.message());
                None
            },
            Ok(()) => {
                let options = nonblank_options(&self.options);
                let has_secrets = provider_has_secret(provider, &options);
                let config = RemoteConfig {
                    name: self.name.clone(),
                    remote_type: self.remote_type.clone(),
                    scope: self.scope,
                    options,
                    has_secrets,
                };
                let original_name = match &self.original_name {
                    Some(n) => Some(n.clone()),
                    None => None,
                };
                self.running = true;
                self.error = None;
                self.operation_id = Some(new_random_id());
                Some(RemoteSaveRequest {
                    config,
                    is_edit: !self.is_new,
                    original_name,
                    original_scope: self.original_scope,
                })
            },
        }
    }

    /// Applies the outcome of the save started under `operation_id`; an outcome for another
    /// save, or when none is in progress, changes nothing. Gives whether the remotes should be
    /// reloaded (the save succeeded).
    pub fn finish_save(&mut self, operation_id: u128, result: Result<(), String>) -> (reload: bool)
        ensures
            !(old(self).running && old(self).operation_id == Some(operation_id)) ==> !reload && *final(self) == *old(self),
            old(self).running && old(self).operation_id == Some(operation_id) ==> match result {
                Ok(()) => {
                    &&& reload
                    &&& *final(self) == (NetworkEditorState {
                        running: false,
                        operation_id: None,
                        error: None,
                        is_new: false,
                        original_name: final(self).original_name,
                        original_scope: Some(old(self).scope),
                        mount_on_boot: Some(false),
                        ..*old(self)
                    })
                    &&& opt_text(final(self).original_name) == Some(old(self).name@)
                },
                Err(e) => {
                    &&& !reload
                    &&& *final(self) == (NetworkEditorState {
                        running: false,
                        operation_id: None,
                        error: Some(e),
                        ..*old(self)
                    })
                },
            },
    {
        if !(self.running && self.operation_id == Some(operation_id)) {
            return false;
        }
        self.running = false;
        self.operation_id = None;
        match result {
            Ok(()) => {
                self.error = None;
                self.is_new = false;
                self.original_name = Some(self.name.clone());
                self.original_scope = Some(self.scope);
                self.mount_on_boot = Some(false);
                true
            },
            Err(e) => {
                self.error = Some(e);
                false
            },
        }
    }
}

/// The key of a remote's mount: its name and scope.
pub open spec fn mount_key(c: RemoteConfig) -> MountKey {
    (c.name@, c.scope)
}

/// The mount of a freshly loaded configuration: the status and activity of the mount it
/// replaces are kept, and the error is cleared.
pub open spec fn merged_mount(old: Map<MountKey, NetworkMountState>, c: RemoteConfig) -> NetworkMountState {
    if old.dom().contains(mount_key(c)) {
        NetworkMountState {
            config: c,
            status: old[mount_key(c)].status,
            loading: old[mount_key(c)].loading,
            error: None,
        }
    } else {
        NetworkMountState { config: c, status: MountStatus::Unmounted, loading: false, error: None }
    }
}

/// No later configuration in `rs` has the key of the one at `j`.
pub open spec fn last_with_key(rs: Seq<RemoteConfig>, j: int) -> bool {
    forall|j2: int| j < j2 < rs.len() ==> mount_key(#[trigger] rs[j2]) != mount_key(rs[j])
}

/// `m` holds a mount for each key of `rs`, made by `merged_mount` from the last configuration
/// with that key, and nothing else.
pub open spec fn loaded_table(old: Map<MountKey, NetworkMountState>, rs: Seq<RemoteConfig>, m: Map<MountKey, NetworkMountState>) -> bool {
    &&& forall|k: MountKey| #[trigger] m.dom().contains(k) <==> exists|j: int| 0 <= j < rs.len() && mount_key(#[trigger] rs[j]) == k
    &&& forall|j: int| 0 <= j < rs.len() && last_with_key(rs, j) ==> m[mount_key(#[trigger] rs[j])] == merged_mount(old, rs[j])
}

/// A remote named `name` is selected, in either scope.
pub open spec fn selected_name_is(o: Option<(String, ConfigScope)>, name: Seq<char>) -> bool {
    match o {
        Some((n, _)) => n@ == name,
        None => false,
    }
}

pub open spec fn selected_key(o: Option<(String, ConfigScope)>) -> Option<MountKey> {
    match o {
        Some((n, s)) => Some((n@, s)),
        None => None,
    }
}

/// State of the network section of the sidebar.
#[derive(Debug)]
pub struct NetworkState {
    /// The configured remotes with their state.
    pub mounts: MountTable,
    /// The selected remote (name, scope).
    pub selected: Option<(String, ConfigScope)>,
    /// Whether the remotes are being loaded.
    pub loading: bool,
    /// Whether rclone is available.
    pub rclone_available: bool,
    /// Last error message.
    pub error: Option<String>,
    /// The editor of an existing remote.
    pub editor: Option<NetworkEditorState>,
    /// The guided creation of a new remote.
    pub wizard: Option<NetworkWizardState>,
}

impl NetworkState {
    pub fn new() -> (s: Self)
        ensures
            s.mounts@ == Map::<MountKey, NetworkMountState>::empty(),
            s.selected is None,
            !s.loading,
            !s.rclone_available,
            s.error is None,
            s.editor is None,
            s.wizard is None,
    {
        NetworkState {
            mounts: MountTable::new(),
            selected: None,
            loading: false,
            rclone_available: false,
            error: None,
            editor: None,
            wizard: None,
        }
    }

    /// Opens the editor on a remote configuration.
    pub fn start_edit(&mut self, config: RemoteConfig)
        ensures
            final(self).editor is Some,
            editor_opened(final(self).editor->0, config@),
            *final(self) == (NetworkState { editor: final(self).editor, ..*old(self) }),
    {
        self.editor = Some(NetworkEditorState::from_config(config));
    }

    /// Closes the editor.
    pub fn clear_editor(&mut self)
        ensures
            *final(self) == (NetworkState { editor: None, ..*old(self) }),
    {
        self.editor = None;
    }

    /// Starts the creation wizard, closing the editor.
    pub fn start_wizard(&mut self)
        ensures
            final(self).wizard is Some,
            wizard_fresh(final(self).wizard->0),
            *final(self) == (NetworkState { editor: None, wizard: final(self).wizard, ..*old(self) }),
    {
        self.editor = None;
        self.wizard = Some(NetworkWizardState::new());
    }

    /// Closes the wizard.
    pub fn clear_wizard(&mut self)
        ensures
            *final(self) == (NetworkState { wizard: None, ..*old(self) }),
    {
        self.wizard = None;
    }

    /// Turns the wizard into the full editor of a new remote, with what the wizard holds; a
    /// wizard without a type gives the editor `fallback_type`.
    pub fn wizard_to_editor(&mut self, fallback_type: String)
        ensures
            old(self).wizard is None ==> *final(self) == *old(self),
            old(self).wizard is Some ==> {
                let w = old(self).wizard->0;
                let e = final(self).editor->0;
                &&& final(self).editor is Some
                &&& *final(self) == (NetworkState { editor: final(self).editor, wizard: None, ..*old(self) })
                &&& e.remote_type == if w.remote_type@.len() == 0 { fallback_type } else { w.remote_type }
                &&& e.name == w.name
                &&& e.scope == w.scope
                &&& e.options == w.options
                &&& e.original_name is None
                &&& e.original_scope is None
                &&& e.is_new
                &&& !e.running
                &&& e.error is None
                &&& e.new_option_key@ == Seq::<char>::empty()
                &&& e.new_option_value@ == Seq::<char>::empty()
                &&& !e.show_advanced
                &&& !e.show_hidden
                &&& e.mount_on_boot is None
                &&& e.expanded_sections@.dom() == default_sections()
                &&& e.operation_id is None
            },
    {
        let wizard = self.wizard.take();
        match wizard {
            None => {},
            Some(w) => {
                let remote_type = if w.remote_type.as_str().unicode_len() == 0 {
                    fallback_type
                } else {
                    w.remote_type
                };
                let mut editor = NetworkEditorState::new(remote_type);
                editor.name = w.name;
                editor.scope = w.scope;
                editor.options = w.options;
                self.editor = Some(editor);
            },
        }
    }

    /// Replaces the remotes by freshly loaded configurations, keeping the status and activity of
    /// the mounts that stay.
    pub fn set_remotes(&mut self, remotes: Vec<RemoteConfig>)
        ensures
            loaded_table(old(self).mounts@, remotes@, final(self).mounts@),
            *final(self) == (NetworkState { mounts: final(self).mounts, ..*old(self) }),
    {
        let mut old_mounts = MountTable::new();
        std::mem::swap(&mut old_mounts, &mut self.mounts);
        let ghost old_m = old_mounts@;
        let ghost rs = remotes@;
        let mut remotes = remotes;
        let mut table = MountTable::new();
        while remotes.len() > 0
            invariant
                remotes@.len() <= rs.len(),
                remotes@ == rs.take(remotes@.len() as int),
                forall|k: MountKey| #[trigger] table@.dom().contains(k) <==> exists|j: int|
                    remotes@.len() <= j < rs.len() && mount_key(#[trigger] rs[j]) == k,
                forall|j: int| remotes@.len() <= j < rs.len() && last_with_key(rs, j)
                    ==> table@[mount_key(#[trigger] rs[j])] == merged_mount(old_m, rs[j]),
                forall|k: MountKey| #[trigger] old_mounts@.dom().contains(k) <==> old_m.dom().contains(k) && !table@.dom().contains(k),
                forall|k: MountKey| #[trigger] old_mounts@.dom().contains(k) ==> old_mounts@[k] == old_m[k],
            decreases remotes.len(),
        {
            let ghost i = remotes@.len() - 1;
            let c = remotes.pop().unwrap();
            assert(c == rs[i]);
            assert(remotes@ =~= rs.take(i));
            let ghost k = mount_key(c);
            if !table.contains(c.name.as_str(), c.scope) {
                assert forall|j2: int| i < j2 < rs.len() implies mount_key(#[trigger] rs[j2]) != mount_key(rs[i]) by {
                    if mount_key(rs[j2]) == k {
                        assert(table@.dom().contains(k));
                    }
                }
                let name = c.name.clone();
                let scope = c.scope;
                let mount = match old_mounts.remove(c.name.as_str(), c.scope) {
                    Some(existing) => NetworkMountState {
                        config: c,
                        status: existing.status,
                        loading: existing.loading,
                        error: None,
                    },
                    None => NetworkMountState::new(c),
                };
                table.insert(name, scope, mount);
                assert forall|j: int| i <= j < rs.len() && last_with_key(rs, j)
                    implies table@[mount_key(#[trigger] rs[j])] == merged_mount(old_m, rs[j]) by {
                    if j > i && mount_key(rs[j]) == k {
                        assert(mount_key(rs[j]) != mount_key(rs[i]));
                    }
                }
                assert forall|k2: MountKey| #[trigger] table@.dom().contains(k2) <==> exists|j: int|
                    i <= j < rs.len() && mount_key(#[trigger] rs[j]) == k2 by {
                    if k2 == k {
                        assert(mount_key(rs[i]) == k2);
                    }
                }
            } else {
                assert(exists|j: int| i < j < rs.len() && mount_key(#[trigger] rs[j]) == k);
                assert(!last_with_key(rs, i));
                assert forall|k2: MountKey| #[trigger] table@.dom().contains(k2) <==> exists|j: int|
                    i <= j < rs.len() && mount_key(#[trigger] rs[j]) == k2 by {
                    if k2 == k {
                        assert(mount_key(rs[i]) == k2);
                    }
                    if exists|j: int| i <= j < rs.len() && mount_key(#[trigger] rs[j]) == k2 {
                        let j = choose|j: int| i <= j < rs.len() && mount_key(#[trigger] rs[j]) == k2;
                        if j == i {
                            assert(k2 == k);
                        }
                    }
                }
            }
        }
        self.mounts = table;
    }

    /// The mount of `name` in `scope`, if there is one.
    pub fn get_mount(&self, name: &str, scope: ConfigScope) -> (r: Option<&NetworkMountState>)
        ensures
            match r {
                Some(m) => self.mounts@.dom().contains((name@, scope)) && *m == self.mounts@[(name@, scope)],
                None => !self.mounts@.dom().contains((name@, scope)),
            },
    {
        self.mounts.get(name, scope)
    }

    /// Sets the status of a mount, which is then no longer busy; an unknown mount is left alone.
    pub fn set_mount_status(&mut self, name: &str, scope: ConfigScope, status: MountStatus)
        ensures
            old(self).mounts@.dom().contains((name@, scope)) ==> final(self).mounts@ == old(self).mounts@.insert(
                (name@, scope),
                NetworkMountState { status, loading: false, ..old(self).mounts@[(name@, scope)] },
            ),
            !old(self).mounts@.dom().contains((name@, scope)) ==> final(self).mounts@ == old(self).mounts@,
            *final(self) == (NetworkState { mounts: final(self).mounts, ..*old(self) }),
    {
        if let Some(m) = self.mounts.remove(name, scope) {
            let key = String::from_str(name);
            self.mounts.insert(key, scope, NetworkMountState { status, loading: false, ..m });
            assert(final(self).mounts@ =~= old(self).mounts@.insert(
                (name@, scope),
                NetworkMountState { status, loading: false, ..old(self).mounts@[(name@, scope)] },
            ));
        }
    }

    /// Sets whether an operation on a mount is in progress; an unknown mount is left alone.
    pub fn set_loading(&mut self, name: &str, scope: ConfigScope, loading: bool)
        ensures
            old(self).mounts@.dom().contains((name@, scope)) ==> final(self).mounts@ == old(self).mounts@.insert(
                (name@, scope),
                NetworkMountState { loading, ..old(self).mounts@[(name@, scope)] },
            ),
            !old(self).mounts@.dom().contains((name@, scope)) ==> final(self).mounts@ == old(self).mounts@,
            *final(self) == (NetworkState { mounts: final(self).mounts, ..*old(self) }),
    {
        if let Some(m) = self.mounts.remove(name, scope) {
            let key = String::from_str(name);
            self.mounts.insert(key, scope, NetworkMountState { loading, ..m });
            assert(final(self).mounts@ =~= old(self).mounts@.insert(
                (name@, scope),
                NetworkMountState { loading, ..old(self).mounts@[(name@, scope)] },
            ));
        }
    }

    /// Records the result of a mount operation on `name` in `scope`: the mount is no longer
    /// busy; a status is taken and the error cleared, a failure becomes the `Error` status and
    /// the error. When the mount was busy (the result answers an operation that changes it), a
    /// failure is reported: the body of the "Network operation failed" dialog is returned. An
    /// unknown mount is left alone.
    pub fn mount_result(&mut self, name: &str, scope: ConfigScope, result: Result<MountStatus, String>) -> (failure: Option<String>)
        ensures
            !old(self).mounts@.dom().contains((name@, scope)) ==> {
                &&& final(self).mounts@ == old(self).mounts@
                &&& failure is None
            },
            old(self).mounts@.dom().contains((name@, scope)) ==> {
                let m = old(self).mounts@[(name@, scope)];
                &&& final(self).mounts@ == old(self).mounts@.insert((name@, scope), mount_after_result(m, result))
                &&& match result {
                    Err(e) => if m.loading {
                        failure is Some && failure->0@ == "Remote '"@ + name@ + "': "@ + e@
                    } else {
                        failure is None
                    },
                    Ok(_) => failure is None,
                }
            },
            *final(self) == (NetworkState { mounts: final(self).mounts, ..*old(self) }),
    {
        match self.mounts.remove(name, scope) {
            Some(m) => {
                let mutating = m.loading;
                let key = String::from_str(name);
                let ghost updated = mount_after_result(m, result);
                let failure = match result {
                    Ok(status) => {
                        self.mounts.insert(key, scope, NetworkMountState { status, loading: false, error: None, ..m });
                        None
                    },
                    Err(e) => {
                        let reported = if mutating {
                            let mut body = String::from_str("Remote '");
                            body.append(name);
                            body.append("': ");
                            body.append(e.as_str());
                            Some(body)
                        } else {
                            None
                        };
                        self.mounts.insert(
                            key,
                            scope,
                            NetworkMountState { status: MountStatus::Error(e.clone()), loading: false, error: Some(e), ..m },
                        );
                        reported
                    },
                };
                assert(final(self).mounts@ =~= old(self).mounts@.insert((name@, scope), updated));
                failure
            },
            None => None,
        }
    }

    /// Sets the error of a mount; an unknown mount is left alone.
    pub fn set_error(&mut self, name: &str, scope: ConfigScope, error: Option<String>)
        ensures
            old(self).mounts@.dom().contains((name@, scope)) ==> final(self).mounts@ == old(self).mounts@.insert(
                (name@, scope),
                NetworkMountState { error, ..old(self).mounts@[(name@, scope)] },
            ),
            !old(self).mounts@.dom().contains((name@, scope)) ==> final(self).mounts@ == old(self).mounts@,
            *final(self) == (NetworkState { mounts: final(self).mounts, ..*old(self) }),
    {
        if let Some(m) = self.mounts.remove(name, scope) {
            let key = String::from_str(name);
            self.mounts.insert(key, scope, NetworkMountState { error, ..m });
            assert(final(self).mounts@ =~= old(self).mounts@.insert(
                (name@, scope),
                NetworkMountState { error, ..old(self).mounts@[(name@, scope)] },
            ));
        }
    }

    /// The user-scope remotes, by name.
    pub fn user_mounts(&self) -> (r: Vec<&NetworkMountState>)
        ensures
            r@.len() == sorted_keys(scope_names(self.mounts@, ConfigScope::User)).len(),
            forall|i: int| 0 <= i < r@.len() ==> *(#[trigger] r@[i])
                == self.mounts@[(sorted_keys(scope_names(self.mounts@, ConfigScope::User))[i], ConfigScope::User)],
            strictly_ascending(sorted_keys(scope_names(self.mounts@, ConfigScope::User))),
            sorted_keys(scope_names(self.mounts@, ConfigScope::User)).to_set() == scope_names(self.mounts@, ConfigScope::User),
    {
        self.mounts.by_name(ConfigScope::User)
    }

    /// The system-scope remotes, by name.
    pub fn system_mounts(&self) -> (r: Vec<&NetworkMountState>)
        ensures
            r@.len() == sorted_keys(scope_names(self.mounts@, ConfigScope::System)).len(),
            forall|i: int| 0 <= i < r@.len() ==> *(#[trigger] r@[i])
                == self.mounts@[(sorted_keys(scope_names(self.mounts@, ConfigScope::System))[i], ConfigScope::System)],
            strictly_ascending(sorted_keys(scope_names(self.mounts@, ConfigScope::System))),
            sorted_keys(scope_names(self.mounts@, ConfigScope::System)).to_set() == scope_names(self.mounts@, ConfigScope::System),
    {
        self.mounts.by_name(ConfigScope::System)
    }

    /// All remotes: the user-scope ones by name, then the system-scope ones by name.
    pub fn sorted_mounts(&self) -> (r: Vec<&NetworkMountState>)
        ensures
            ({
                let users = sorted_keys(scope_names(self.mounts@, ConfigScope::User));
                let systems = sorted_keys(scope_names(self.mounts@, ConfigScope::System));
                &&& r@.len() == users.len() + systems.len()
                &&& forall|i: int| 0 <= i < users.len() ==> *(#[trigger] r@[i]) == self.mounts@[(users[i], ConfigScope::User)]
                &&& forall|i: int| 0 <= i < systems.len() ==> *(#[trigger] r@[users.len() + i])
                    == self.mounts@[(systems[i], ConfigScope::System)]
                &&& strictly_ascending(users) && users.to_set() == scope_names(self.mounts@, ConfigScope::User)
                &&& strictly_ascending(systems) && systems.to_set() == scope_names(self.mounts@, ConfigScope::System)
            }),
    {
        let mut r = self.mounts.by_name(ConfigScope::User);
        let ghost users = r@;
        let systems = self.mounts.by_name(ConfigScope::System);
        let mut i: usize = 0;
        while i < systems.len()
            invariant
                i <= systems@.len(),
                r@ == users + systems@.take(i as int),
            decreases systems.len() - i,
        {
            r.push(systems[i]);
            i = i + 1;
            assert(r@ =~= users + systems@.take(i as int));
        }
        assert(systems@.take(systems@.len() as int) =~= systems@);
        r
    }

    /// Whether the remote `name` in `scope` is the selected one.
    pub fn is_selected(&self, name: &str, scope: ConfigScope) -> (r: bool)
        ensures
            r == (selected_key(self.selected) == Some((name@, scope))),
    {
        match &self.selected {
            Some((n, s)) => *s == scope && str_equals(n.as_str(), name),
            None => false,
        }
    }

    /// Selects a remote; without both a name and a scope nothing is selected.
    pub fn select(&mut self, name: Option<String>, scope: Option<ConfigScope>)
        ensures
            final(self).selected == match (name, scope) {
                (Some(n), Some(s)) => Some((n, s)),
                _ => None,
            },
            *final(self) == (NetworkState { selected: final(self).selected, ..*old(self) }),
    {
        self.selected = match (name, scope) {
            (Some(n), Some(s)) => Some((n, s)),
            _ => None,
        };
    }
}

impl NetworkState {
    /// Applies the outcome of loading the remotes. On success rclone is available, the remotes
    /// replace the known ones (see `set_remotes`), and the keys of all loaded remotes are given
    /// back, in order, for their status to be refreshed. On failure rclone is unavailable and
    /// the error is kept.
    pub fn remotes_loaded(&mut self, result: Result<Vec<RemoteConfig>, String>) -> (refresh: Vec<(String, ConfigScope)>)
        ensures
            match result {
                Ok(rs) => {
                    &&& loaded_table(old(self).mounts@, rs@, final(self).mounts@)
                    &&& *final(self) == (NetworkState {
                        mounts: final(self).mounts,
                        loading: false,
                        rclone_available: true,
                        ..*old(self)
                    })
                    &&& refresh@.len() == rs@.len()
                    &&& forall|i: int| 0 <= i < rs@.len() ==> ((#[trigger] refresh@[i]).0@, refresh@[i].1) == mount_key(rs@[i])
                },
                Err(e) => {
                    &&& refresh@.len() == 0
                    &&& *final(self) == (NetworkState {
                        loading: false,
                        rclone_available: false,
                        error: Some(e),
                        ..*old(self)
                    })
                },
            },
    {
        self.loading = false;
        match result {
            Ok(remotes) => {
                self.rclone_available = true;
                let mut refresh: Vec<(String, ConfigScope)> = Vec::new();
                let mut i: usize = 0;
                while i < remotes.len()
                    invariant
                        i <= remotes@.len(),
                        refresh@.len() == i,
                        forall|j: int| 0 <= j < i ==> ((#[trigger] refresh@[j]).0@, refresh@[j].1) == mount_key(remotes@[j]),
                    decreases remotes.len() - i,
                {
                    refresh.push((remotes[i].name.clone(), remotes[i].scope));
                    i = i + 1;
                }
                self.set_remotes(remotes);
                refresh
            },
            Err(e) => {
                self.rclone_available = false;
                self.error = Some(e);
                Vec::new()
            },
        }
    }

    /// Selects a remote and opens the editor on its configuration; gives whether there is such
    /// a remote, whose mount-on-login setting is then to be loaded. Without one the editor is
    /// closed.
    pub fn select_remote(&mut self, name: String, scope: ConfigScope) -> (found: bool)
        ensures
            final(self).selected == Some((name, scope)),
            found == old(self).mounts@.dom().contains((name@, scope)),
            found ==> {
                &&& final(self).editor is Some
                &&& editor_opened(final(self).editor->0, old(self).mounts@[(name@, scope)].config@)
            },
            !found ==> final(self).editor is None,
            *final(self) == (NetworkState { selected: final(self).selected, editor: final(self).editor, ..*old(self) }),
    {
        let config = match self.mounts.get(name.as_str(), scope) {
            Some(m) => Some(m.config.duplicate()),
            None => None,
        };
        self.selected = Some((name, scope));
        match config {
            Some(c) => {
                self.start_edit(c);
                true
            },
            None => {
                self.clear_editor();
                false
            },
        }
    }

    /// Starts creating a remote: nothing is selected, the editor closes and a fresh wizard opens.
    pub fn begin_create_remote(&mut self)
        ensures
            final(self).wizard is Some,
            wizard_fresh(final(self).wizard->0),
            *final(self) == (NetworkState { selected: None, editor: None, wizard: final(self).wizard, ..*old(self) }),
    {
        self.select(None, None);
        self.clear_editor();
        self.start_wizard();
    }

    /// Starts creating the remote that the wizard describes. Without a wizard, or while it is
    /// saving, nothing happens; a form error is shown in the wizard. Otherwise the wizard is
    /// marked as saving under a fresh id, and the configuration to create is given back, with
    /// the options that are not blank.
    pub fn begin_wizard_create(&mut self, provider: Option<&Vec<ProviderOption>>) -> (r: Option<RemoteConfig>)
        ensures
            (old(self).wizard is None || old(self).wizard->0.running) ==> r is None && *final(self) == *old(self),
            old(self).wizard is Some && !old(self).wizard->0.running ==> {
                let w = old(self).wizard->0;
                match form_error(w.name@, opt_provider_view(provider), text_view(w.options@)) {
                    Some(msg) => {
                        &&& r is None
                        &&& final(self).wizard is Some
                        &&& final(self).wizard->0 == (NetworkWizardState { error: final(self).wizard->0.error, ..w })
                        &&& opt_text(final(self).wizard->0.error) == Some(msg)
                        &&& *final(self) == (NetworkState { wizard: final(self).wizard, ..*old(self) })
                    },
                    None => {
                        &&& r is Some
                        &&& r->0@ == (
                            w.name@,
                            w.remote_type@,
                            w.scope,
                            nonblank(text_view(w.options@)),
                            has_secret(opt_provider_view(provider), nonblank(text_view(w.options@))),
                        )
                        &&& final(self).wizard is Some
                        &&& final(self).wizard->0 == (NetworkWizardState {
                            running: true,
                            error: None,
                            operation_id: final(self).wizard->0.operation_id,
                            ..w
                        })
                        &&& final(self).wizard->0.operation_id is Some
                        &&& *final(self) == (NetworkState { wizard: final(self).wizard, ..*old(self) })
                    },
                }
            },
    {
        let mut wizard = match self.wizard.take() {
            Some(w) => w,
            None => { return None; },
        };
        if wizard.running {
            self.wizard = Some(wizard);
            return None;
        }
        let r = match check_remote_form(wizard.name.as_str(), provider, &wizard.options) {
            Err(e) => {
                wizard.error = Some(e.message());
                None
            },
            Ok(()) => {
                let options = nonblank_options(&wizard.options);
                let has_secrets = provider_has_secret(provider, &options);
                let config = RemoteConfig {
                    name: wizard.name.clone(),
                    remote_type: wizard.remote_type.clone(),
                    scope: wizard.scope,
                    options,
                    has_secrets,
                };
                wizard.running = true;
                wizard.error = None;
                wizard.operation_id = Some(new_random_id());
                Some(config)
            },
        };
        self.wizard = Some(wizard);
        r
    }

    /// Applies the outcome of the creation started under `operation_id`; an outcome for another
    /// creation, or when the wizard is not saving, changes nothing. On success the wizard closes,
    /// the new remote joins the mounts and is selected in the editor, and `true` is given back
    /// (the remotes and the remote's mount-on-login setting are then to be loaded). On failure
    /// the wizard stops saving and shows the error.
    pub fn finish_wizard_create(&mut self, operation_id: u128, result: Result<RemoteConfig, String>) -> (created: bool)
        ensures
            !(old(self).wizard is Some && old(self).wizard->0.running && old(self).wizard->0.operation_id == Some(operation_id))
                ==> !created && *final(self) == *old(self),
            old(self).wizard is Some && old(self).wizard->0.running && old(self).wizard->0.operation_id == Some(operation_id)
                ==> match result {
                Ok(config) => {
                    &&& created
                    &&& final(self).wizard is None
                    &&& final(self).mounts@ == old(self).mounts@.insert(mount_key(config), NetworkMountState {
                        config,
                        status: MountStatus::Unmounted,
                        loading: false,
                        error: None,
                    })
                    &&& selected_key(final(self).selected) == Some(mount_key(config))
                    &&& final(self).editor is Some
                    &&& editor_opened(final(self).editor->0, config@)
                    &&& *final(self) == (NetworkState {
                        mounts: final(self).mounts,
                        selected: final(self).selected,
                        editor: final(self).editor,
                        wizard: None,
                        ..*old(self)
                    })
                },
                Err(e) => {
                    &&& !created
                    &&& final(self).wizard == Some(NetworkWizardState {
                        running: false,
                        operation_id: None,
                        error: Some(e),
                        ..old(self).wizard->0
                    })
                    &&& *final(self) == (NetworkState { wizard: final(self).wizard, ..*old(self) })
                },
            },
    {
        let mut wizard = match self.wizard.take() {
            Some(w) => w,
            None => { return false; },
        };
        if !(wizard.running && wizard.operation_id == Some(operation_id)) {
            self.wizard = Some(wizard);
            return false;
        }
        match result {
            Ok(config) => {
                let name = config.name.clone();
                let selected_name = config.name.clone();
                let scope = config.scope;
                self.mounts.insert(name, scope, NetworkMountState::new(config));
                let found = self.select_remote(selected_name, scope);
                assert(found);
                true
            },
            Err(e) => {
                wizard.running = false;
                wizard.operation_id = None;
                wizard.error = Some(e);
                self.wizard = Some(wizard);
                false
            },
        }
    }

    /// Applies the loaded mount-on-login setting of a remote, when that remote is still the
    /// selected one in the editor; a failure reads as disabled, and `true` is given back so that
    /// the failure is reported.
    pub fn mount_on_boot_loaded(&mut self, name: &str, scope: ConfigScope, result: Result<bool, String>) -> (failed: bool)
        ensures
            (selected_key(old(self).selected) == Some((name@, scope)) && old(self).editor is Some) ==> {
                &&& final(self).editor == Some(NetworkEditorState {
                    mount_on_boot: Some(match result { Ok(b) => b, Err(_) => false }),
                    ..old(self).editor->0
                })
                &&& failed == (result is Err)
                &&& *final(self) == (NetworkState { editor: final(self).editor, ..*old(self) })
            },
            !(selected_key(old(self).selected) == Some((name@, scope)) && old(self).editor is Some)
                ==> !failed && *final(self) == *old(self),
    {
        if !self.is_selected(name, scope) {
            return false;
        }
        let mut editor = match self.editor.take() {
            Some(e) => e,
            None => { return false; },
        };
        let failed = match result {
            Ok(enabled) => {
                editor.mount_on_boot = Some(enabled);
                false
            },
            Err(_) => {
                editor.mount_on_boot = Some(false);
                true
            },
        };
        self.editor = Some(editor);
        failed
    }

    /// Starts changing the mount-on-login setting of the remote in the editor: the editor must
    /// hold an existing remote and a remote must be selected. The editor is marked busy, and the
    /// selected remote with the setting before the change is given back.
    pub fn begin_toggle_mount_on_boot(&mut self) -> (r: Option<(String, ConfigScope, bool)>)
        ensures
            (old(self).editor is None || old(self).editor->0.is_new || old(self).selected is None)
                ==> r is None && *final(self) == *old(self),
            !(old(self).editor is None || old(self).editor->0.is_new || old(self).selected is None) ==> {
                let (name, scope, previous) = r->0;
                &&& r is Some
                &&& (name@, scope) == selected_key(old(self).selected)->0
                &&& previous == match old(self).editor->0.mount_on_boot { Some(b) => b, None => false }
                &&& final(self).editor == Some(NetworkEditorState {
                    running: true,
                    error: None,
                    ..old(self).editor->0
                })
                &&& *final(self) == (NetworkState { editor: final(self).editor, ..*old(self) })
            },
    {
        let (name, scope) = match &self.selected {
            Some((n, s)) => (n.clone(), *s),
            None => { return None; },
        };
        let mut editor = match self.editor.take() {
            Some(e) => e,
            None => { return None; },
        };
        if editor.is_new {
            self.editor = Some(editor);
            return None;
        }
        let previous = match editor.mount_on_boot {
            Some(b) => b,
            None => false,
        };
        editor.running = true;
        editor.error = None;
        self.editor = Some(editor);
        Some((name, scope, previous))
    }

    /// Applies the outcome of changing the mount-on-login setting, when that remote is still
    /// the selected one in the editor: the editor is no longer busy, and holds the new setting,
    /// or the previous one on failure; `true` is given back on failure so that it is reported.
    pub fn mount_on_boot_updated(
        &mut self,
        name: &str,
        scope: ConfigScope,
        enabled: bool,
        previous: bool,
        result: Result<(), String>,
    ) -> (failed: bool)
        ensures
            (selected_key(old(self).selected) == Some((name@, scope)) && old(self).editor is Some) ==> {
                &&& final(self).editor == Some(NetworkEditorState {
                    running: false,
                    mount_on_boot: Some(if result is Ok { enabled } else { previous }),
                    ..old(self).editor->0
                })
                &&& failed == (result is Err)
                &&& *final(self) == (NetworkState { editor: final(self).editor, ..*old(self) })
            },
            !(selected_key(old(self).selected) == Some((name@, scope)) && old(self).editor is Some)
                ==> !failed && *final(self) == *old(self),
    {
        if !self.is_selected(name, scope) {
            return false;
        }
        let mut editor = match self.editor.take() {
            Some(e) => e,
            None => { return false; },
        };
        editor.running = false;
        let failed = match result {
            Ok(()) => {
                editor.mount_on_boot = Some(enabled);
                false
            },
            Err(_) => {
                editor.mount_on_boot = Some(previous);
                true
            },
        };
        self.editor = Some(editor);
        failed
    }

    /// Applies the outcome of deleting a remote. On success the remote leaves the mounts in both
    /// scopes, and if a remote of that name was selected, nothing is selected any more and the
    /// editor closes. On failure the message to show is given back.
    pub fn delete_completed(&mut self, name: &str, result: Result<(), String>) -> (failure: Option<String>)
        ensures
            match result {
                Ok(()) => {
                    &&& failure is None
                    &&& final(self).mounts@ == old(self).mounts@.remove((name@, ConfigScope::User)).remove((name@, ConfigScope::System))
                    &&& if selected_name_is(old(self).selected, name@) {
                        *final(self) == (NetworkState { mounts: final(self).mounts, selected: None, editor: None, ..*old(self) })
                    } else {
                        *final(self) == (NetworkState { mounts: final(self).mounts, ..*old(self) })
                    }
                },
                Err(e) => {
                    &&& failure is Some
                    &&& failure->0@ == "Failed to delete remote '"@ + name@ + "': "@ + e@
                    &&& *final(self) == *old(self)
                },
            },
    {
        match result {
            Ok(()) => {
                self.mounts.remove(name, ConfigScope::User);
                self.mounts.remove(name, ConfigScope::System);
                let was_selected = match &self.selected {
                    Some((n, _)) => str_equals(n.as_str(), name),
                    None => false,
                };
                if was_selected {
                    self.select(None, None);
                    self.clear_editor();
                }
                None
            },
            Err(e) => {
                let mut body = String::from_str("Failed to delete remote '");
                body.append(name);
                body.append("': ");
                body.append(e.as_str());
                Some(body)
            },
        }
    }
}

/// A mount after the result of an operation on it: no longer busy; a status is taken with no
/// error, a failure becomes the `Error` status and the error.
pub open spec fn mount_after_result(m: NetworkMountState, result: Result<MountStatus, String>) -> NetworkMountState {
    match result {
        Ok(status) => NetworkMountState { status, loading: false, error: None, ..m },
        Err(e) => NetworkMountState { status: MountStatus::Error(e), loading: false, error: Some(e), ..m },
    }
}

/// The title and body of the dialog that shows the outcome of a connection test.
pub fn connection_test_dialog(result: Result<String, String>) -> (dialog: (String, String))
    ensures
        match result {
            Ok(msg) => dialog.0@ == "Connection Test"@ && dialog.1 == msg,
            Err(e) => dialog.0@ == "Connection Test Failed"@ && dialog.1 == e,
        },
{
    match result {
        Ok(msg) => (String::from_str("Connection Test"), msg),
        Err(e) => (String::from_str("Connection Test Failed"), e),
    }
}

} // verus!
