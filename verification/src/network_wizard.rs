//! The guided creation wizard for network remotes.
use vstd::prelude::*;
use vstd::string::StrSliceExecFns;
use crate::text::str_equals;
use crate::keyed_map::KeyedMap;

verus! {

/// Wizard step for guided remote creation.
#[derive(Debug, Clone, Copy, PartialEq, Eq, Structural)]
pub enum WizardStep {
    /// Pick the provider type.
    SelectType,
    /// Name the remote.
    NameAndScope,
    /// Connection settings (host, port, endpoint, ...).
    Connection,
    /// Authentication settings (user, password, key, ...).
    Authentication,
    /// Review the summary and create.
    Review,
}

pub open spec fn step_number(step: WizardStep) -> nat {
    match step {
        WizardStep::SelectType => 1,
        WizardStep::NameAndScope => 2,
        WizardStep::Connection => 3,
        WizardStep::Authentication => 4,
        WizardStep::Review => 5,
    }
}

pub open spec fn step_label(step: WizardStep) -> Seq<char> {
    match step {
        WizardStep::SelectType => "Select Type"@,
        WizardStep::NameAndScope => "Name"@,
        WizardStep::Connection => "Connection"@,
        WizardStep::Authentication => "Authentication"@,
        WizardStep::Review => "Review"@,
    }
}

/// The step after `step`; the review step is the last.
pub open spec fn step_after(step: WizardStep) -> WizardStep {
    match step {
        WizardStep::SelectType => WizardStep::NameAndScope,
        WizardStep::NameAndScope => WizardStep::Connection,
        WizardStep::Connection => WizardStep::Authentication,
        WizardStep::Authentication => WizardStep::Review,
        WizardStep::Review => WizardStep::Review,
    }
}

/// The step before `step`; the type selection is the first.
pub open spec fn step_before(step: WizardStep) -> WizardStep {
    match step {
        WizardStep::SelectType => WizardStep::SelectType,
        WizardStep::NameAndScope => WizardStep::SelectType,
        WizardStep::Connection => WizardStep::NameAndScope,
        WizardStep::Authentication => WizardStep::Connection,
        WizardStep::Review => WizardStep::Authentication,
    }
}

impl WizardStep {
    /// The 1-based step number.
    pub fn number(&self) -> (n: usize)
        ensures
            n == step_number(*self),
    {
        match self {
            WizardStep::SelectType => 1,
            WizardStep::NameAndScope => 2,
            WizardStep::Connection => 3,
            WizardStep::Authentication => 4,
            WizardStep::Review => 5,
        }
    }

    /// The display label of the step.
    pub fn label(&self) -> (s: &'static str)
        ensures
            s@ == step_label(*self),
    {
        match self {
            WizardStep::SelectType => "Select Type",
            WizardStep::NameAndScope => "Name",
            WizardStep::Connection => "Connection",
            WizardStep::Authentication => "Authentication",
            WizardStep::Review => "Review",
        }
    }
}

/// Quick-setup provider shown in the wizard's type selection grid.
pub struct QuickSetupProvider {
    /// rclone type name (such as "s3" or "ftp").
    pub rclone_type: &'static str,
    /// Display label (such as "Amazon S3").
    pub label: &'static str,
    /// Short description.
    pub description: &'static str,
}

/// A quick-setup provider as (rclone type, label, description).
pub open spec fn provider_view(p: QuickSetupProvider) -> (Seq<char>, Seq<char>, Seq<char>) {
    (p.rclone_type@, p.label@, p.description@)
}

/// The providers of the quick-setup grid, in display order.
pub open spec fn quick_setup_entries() -> Seq<(Seq<char>, Seq<char>, Seq<char>)> {
    seq![
        ("s3"@, "Amazon S3"@, "S3 compatible storage"@),
        ("ftp"@, "FTP"@, "File Transfer Protocol"@),
        ("sftp"@, "SSH / SFTP"@, "Secure file transfer"@),
        ("smb"@, "SMB / CIFS"@, "Windows file sharing"@),
        ("drive"@, "Google Drive"@, "Cloud storage by Google"@),
        ("dropbox"@, "Dropbox"@, "Cloud storage by Dropbox"@),
        ("onedrive"@, "OneDrive"@, "Cloud storage by Microsoft"@),
        ("webdav"@, "WebDAV"@, "Web-based file access"@),
        ("b2"@, "Backblaze B2"@, "Cloud object storage"@),
        ("protondrive"@, "Proton Drive"@, "Encrypted cloud storage"@),
    ]
}

/// The providers of the quick-setup grid, in display order.
pub fn quick_setup_providers() -> (v: Vec<QuickSetupProvider>)
    ensures
        v@.map_values(|p: QuickSetupProvider| provider_view(p)) == quick_setup_entries(),
{
    let mut v = Vec::new();
    v.push(QuickSetupProvider { rclone_type: "s3", label: "Amazon S3", description: "S3 compatible storage" });
    v.push(QuickSetupProvider { rclone_type: "ftp", label: "FTP", description: "File Transfer Protocol" });
    v.push(QuickSetupProvider { rclone_type: "sftp", label: "SSH / SFTP", description: "Secure file transfer" });
    v.push(QuickSetupProvider { rclone_type: "smb", label: "SMB / CIFS", description: "Windows file sharing" });
    v.push(QuickSetupProvider { rclone_type: "drive", label: "Google Drive", description: "Cloud storage by Google" });
    v.push(QuickSetupProvider { rclone_type: "dropbox", label: "Dropbox", description: "Cloud storage by Dropbox" });
    v.push(QuickSetupProvider { rclone_type: "onedrive", label: "OneDrive", description: "Cloud storage by Microsoft" });
    v.push(QuickSetupProvider { rclone_type: "webdav", label: "WebDAV", description: "Web-based file access" });
    v.push(QuickSetupProvider { rclone_type: "b2", label: "Backblaze B2", description: "Cloud object storage" });
    v.push(QuickSetupProvider { rclone_type: "protondrive", label: "Proton Drive", description: "Encrypted cloud storage" });
    assert(v@.map_values(|p: QuickSetupProvider| provider_view(p)) =~= quick_setup_entries());
    v
}

/// The editor's option sections, in display order.
pub fn section_order() -> (v: Vec<&'static str>)
    ensures
        v@.len() == 7,
        v@[0]@ == "authentication"@,
        v@[1]@ == "connection"@,
        v@[2]@ == "security"@,
        v@[3]@ == "storage"@,
        v@[4]@ == "transfers"@,
        v@[5]@ == "behavior"@,
        v@[6]@ == "other"@,
{
    let mut v = Vec::new();
    v.push("authentication");
    v.push("connection");
    v.push("security");
    v.push("storage");
    v.push("transfers");
    v.push("behavior");
    v.push("other");
    v
}

/// The display name of a section id; unknown ids are shown as "Other".
pub open spec fn section_name(section: Seq<char>) -> Seq<char> {
    if section == "authentication"@ {
        "Authentication"@
    } else if section == "connection"@ {
        "Connection"@
    } else if section == "security"@ {
        "Security"@
    } else if section == "storage"@ {
        "Storage"@
    } else if section == "transfers"@ {
        "Transfers"@
    } else if section == "behavior"@ {
        "Behavior"@
    } else {
        "Other"@
    }
}

/// Get the display name for a section id.
pub fn section_display_name(section: &str) -> (s: &'static str)
    ensures
        s@ == section_name(section@),
{
    if str_equals(section, "authentication") {
        "Authentication"
    } else if str_equals(section, "connection") {
        "Connection"
    } else if str_equals(section, "security") {
        "Security"
    } else if str_equals(section, "storage") {
        "Storage"
    } else if str_equals(section, "transfers") {
        "Transfers"
    } else if str_equals(section, "behavior") {
        "Behavior"
    } else {
        "Other"
    }
}

/// Whether `char::is_alphanumeric` holds of a character (Unicode alphabetic or numeric).
pub uninterp spec fn unicode_alphanumeric(c: char) -> bool;

pub open spec fn ascii_alphanumeric(c: char) -> bool {
    ('a' <= c && c <= 'z') || ('A' <= c && c <= 'Z') || ('0' <= c && c <= '9')
}

/// Calls `char::is_alphanumeric`. Its result is named; on ASCII characters it is true exactly
/// for letters and digits, as the Unicode categories that std consults give.
#[verifier::external_body]
fn char_is_alphanumeric(c: char) -> (r: bool)
    ensures
        r == unicode_alphanumeric(c),
        (c as u32) < 128 ==> (r == ascii_alphanumeric(c)),
{
    c.is_alphanumeric()
}

/// A remote name: not empty, and made of alphanumeric characters, `-` and `_`.
pub open spec fn valid_remote_name(name: Seq<char>) -> bool {
    &&& name.len() > 0
    &&& forall|i: int| 0 <= i < name.len() ==> {
        let c = #[trigger] name[i];
        unicode_alphanumeric(c) || c == '-' || c == '_'
    }
}

/// The configuration scope of a remote.
#[derive(Debug, Clone, Copy, PartialEq, Eq, Hash, Structural)]
pub enum ConfigScope {
    User,
    System,
}

/// State of the creation wizard.
#[derive(Debug, Clone)]
pub struct NetworkWizardState {
    /// Current wizard step.
    pub step: WizardStep,
    /// Selected remote type.
    pub remote_type: String,
    /// Remote name.
    pub name: String,
    /// Configuration scope.
    pub scope: ConfigScope,
    /// Options filled in during the wizard steps.
    pub options: KeyedMap<String>,
    /// Error message, if any.
    pub error: Option<String>,
    /// Whether a save operation is in progress.
    pub running: bool,
    /// The id of the save in progress; a completion for another id is stale.
    pub operation_id: Option<u128>,
}

/// Whether the wizard may advance from its current step: a type must be selected, the name
/// must be a valid remote name, and the review cannot be left while saving.
pub open spec fn wizard_can_advance(step: WizardStep, remote_type: Seq<char>, name: Seq<char>, running: bool) -> bool {
    match step {
        WizardStep::SelectType => remote_type.len() > 0,
        WizardStep::NameAndScope => valid_remote_name(name),
        WizardStep::Connection => true,
        WizardStep::Authentication => true,
        WizardStep::Review => !running,
    }
}

/// A wizard at the type selection step, with nothing filled in.
pub open spec fn wizard_fresh(w: NetworkWizardState) -> bool {
    &&& w.step == WizardStep::SelectType
    &&& w.remote_type@ == Seq::<char>::empty()
    &&& w.name@ == Seq::<char>::empty()
    &&& w.scope == ConfigScope::User
    &&& w.options@ == Map::<Seq<char>, String>::empty()
    &&& w.error is None
    &&& !w.running
    &&& w.operation_id is None
}

impl NetworkWizardState {
    /// A wizard at the type selection step, with nothing filled in.
    pub fn new() -> (w: Self)
        ensures
            wizard_fresh(w),
    {
        NetworkWizardState {
            step: WizardStep::SelectType,
            remote_type: String::new(),
            name: String::new(),
            scope: ConfigScope::User,
            options: KeyedMap::new(),
            error: None,
            running: false,
            operation_id: None,
        }
    }

    /// Check whether the wizard can advance to the next step.
    pub fn can_advance(&self) -> (r: bool)
        ensures
            r == wizard_can_advance(self.step, self.remote_type@, self.name@, self.running),
    {
        match self.step {
            WizardStep::SelectType => self.remote_type.as_str().unicode_len() > 0,
            WizardStep::NameAndScope => {
                let name = self.name.as_str();
                let n = name.unicode_len();
                if n == 0 {
                    return false;
                }
                let mut i: usize = 0;
                while i < n
                    invariant
                        n == name@.len(),
                        name@ == self.name@,
                        self.step == WizardStep::NameAndScope,
                        i <= n,
                        forall|k: int| 0 <= k < i ==> {
                            let c = #[trigger] name@[k];
                            unicode_alphanumeric(c) || c == '-' || c == '_'
                        },
                    decreases n - i,
                {
                    let c = name.get_char(i);
                    if !(char_is_alphanumeric(c) || c == '-' || c == '_') {
                        assert(name@[i as int] == c);
                        assert(!valid_remote_name(self.name@));
                        return false;
                    }
                    i = i + 1;
                }
                true
            },
            WizardStep::Connection => true,
            WizardStep::Authentication => true,
            WizardStep::Review => !self.running,
        }
    }

    /// Advance to the next step, clearing the error.
    pub fn next_step(&mut self)
        ensures
            *final(self) == (NetworkWizardState {
                step: step_after(old(self).step),
                error: None,
                ..*old(self)
            }),
    {
        self.error = None;
        self.step = match self.step {
            WizardStep::SelectType => WizardStep::NameAndScope,
            WizardStep::NameAndScope => WizardStep::Connection,
            WizardStep::Connection => WizardStep::Authentication,
            WizardStep::Authentication => WizardStep::Review,
            WizardStep::Review => WizardStep::Review,
        };
    }

    /// Go back to the previous step, clearing the error.
    pub fn prev_step(&mut self)
        ensures
            *final(self) == (NetworkWizardState {
                step: step_before(old(self).step),
                error: None,
                ..*old(self)
            }),
    {
        self.error = None;
        self.step = match self.step {
            WizardStep::SelectType => WizardStep::SelectType,
            WizardStep::NameAndScope => WizardStep::SelectType,
            WizardStep::Connection => WizardStep::NameAndScope,
            WizardStep::Authentication => WizardStep::Connection,
            WizardStep::Review => WizardStep::Authentication,
        };
    }

    /// Selects the provider type and clears the error.
    pub fn select_type(&mut self, remote_type: String)
        ensures
            *final(self) == (NetworkWizardState { remote_type, error: None, ..*old(self) }),
    {
        self.remote_type = remote_type;
        self.error = None;
    }

    /// Sets the remote name and clears the error.
    pub fn set_name(&mut self, name: String)
        ensures
            *final(self) == (NetworkWizardState { name, error: None, ..*old(self) }),
    {
        self.name = name;
        self.error = None;
    }

    /// Sets the value of an option and clears the error.
    pub fn set_option(&mut self, key: String, value: String)
        ensures
            final(self).options@ == old(self).options@.insert(key@, value),
            *final(self) == (NetworkWizardState { options: final(self).options, error: None, ..*old(self) }),
    {
        self.options.insert(key, value);
        self.error = None;
    }

    /// Moves to the next step when the current one allows it; gives whether it moved.
    pub fn advance(&mut self) -> (moved: bool)
        ensures
            moved == wizard_can_advance(old(self).step, old(self).remote_type@, old(self).name@, old(self).running),
            moved ==> *final(self) == (NetworkWizardState { step: step_after(old(self).step), error: None, ..*old(self) }),
            !moved ==> *final(self) == *old(self),
    {
        if self.can_advance() {
            self.next_step();
            true
        } else {
            false
        }
    }
}

/// Going forward then back returns to the same step everywhere but at the review step, and
/// going back then forward returns to the same step everywhere but at the first step; the
/// number of a step moves by one with each move.
pub proof fn lemma_wizard_steps(step: WizardStep)
    ensures
        step != WizardStep::Review ==> step_before(step_after(step)) == step,
        step != WizardStep::SelectType ==> step_after(step_before(step)) == step,
        step != WizardStep::Review ==> step_number(step_after(step)) == step_number(step) + 1,
        step != WizardStep::SelectType ==> step_number(step_before(step)) + 1 == step_number(step),
        1 <= step_number(step) <= 5,
{
}

} // verus!
