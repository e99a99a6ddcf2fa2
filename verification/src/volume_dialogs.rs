//! The dialogs that edit a partition and its encryption: steps, checks and the requests they
//! start.
use vstd::prelude::*;
use vstd::string::{StrSliceExecFns, StringExecFns};
use crate::dialogs::{EditEncryptionOptionsStep, EditPartitionStep};
use crate::text::{after_last_slash, last_path_part, str_equals, trim, trimmed};
use crate::volume_tree::VolumeInfo;

verus! {

pub open spec fn opt_text(o: Option<String>) -> Option<Seq<char>> {
    match o {
        Some(s) => Some(s@),
        None => None,
    }
}

/// The dialog that edits a partition's type, name and flags.
#[derive(Debug, Clone)]
pub struct EditPartitionDialog {
    /// The device path of the partition, if it has one.
    pub device_path: Option<String>,
    pub step: EditPartitionStep,
    /// The partition type ids offered, in the order of the list.
    pub partition_types: Vec<String>,
    pub selected_type_index: usize,
    pub name: String,
    pub legacy_bios_bootable: bool,
    pub system_partition: bool,
    pub hidden: bool,
    pub running: bool,
}

/// What editing a partition asks for.
#[derive(Debug, Clone, PartialEq, Eq)]
pub struct EditPartitionRequest {
    pub device: String,
    pub partition_type: String,
    pub name: String,
    pub legacy_bios_bootable: bool,
    pub system_partition: bool,
    pub hidden: bool,
}

pub open spec fn edit_step_number(s: EditPartitionStep) -> int {
    match s {
        EditPartitionStep::Basics => 1,
        EditPartitionStep::Flags => 2,
        EditPartitionStep::Review => 3,
    }
}

pub open spec fn edit_step_after(s: EditPartitionStep) -> EditPartitionStep {
    match s {
        EditPartitionStep::Basics => EditPartitionStep::Flags,
        EditPartitionStep::Flags => EditPartitionStep::Review,
        EditPartitionStep::Review => EditPartitionStep::Review,
    }
}

pub open spec fn edit_step_before(s: EditPartitionStep) -> EditPartitionStep {
    match s {
        EditPartitionStep::Basics => EditPartitionStep::Basics,
        EditPartitionStep::Flags => EditPartitionStep::Basics,
        EditPartitionStep::Review => EditPartitionStep::Flags,
    }
}

impl EditPartitionDialog {
    /// Goes back one step, unless an edit runs.
    pub fn prev_step(&mut self)
        ensures
            *final(self) == if old(self).running {
                *old(self)
            } else {
                EditPartitionDialog { step: edit_step_before(old(self).step), ..*old(self) }
            },
    {
        if self.running {
            return;
        }
        self.step = match self.step {
            EditPartitionStep::Basics => EditPartitionStep::Basics,
            EditPartitionStep::Flags => EditPartitionStep::Basics,
            EditPartitionStep::Review => EditPartitionStep::Flags,
        };
    }

    /// Goes forward one step, unless an edit runs.
    pub fn next_step(&mut self)
        ensures
            *final(self) == if old(self).running {
                *old(self)
            } else {
                EditPartitionDialog { step: edit_step_after(old(self).step), ..*old(self) }
            },
    {
        if self.running {
            return;
        }
        self.step = match self.step {
            EditPartitionStep::Basics => EditPartitionStep::Flags,
            EditPartitionStep::Flags => EditPartitionStep::Review,
            EditPartitionStep::Review => EditPartitionStep::Review,
        };
    }

    /// Jumps back to an earlier step (or stays).
    pub fn set_step(&mut self, step: EditPartitionStep)
        ensures
            *final(self) == if !old(self).running && edit_step_number(step) <= edit_step_number(old(self).step) {
                EditPartitionDialog { step, ..*old(self) }
            } else {
                *old(self)
            },
    {
        if self.running {
            return;
        }
        if step.number() <= self.step.number() {
            self.step = step;
        }
    }

    /// Starts the edit, unless one runs or the chosen type is not in the list: the dialog is
    /// marked running and the request is given back, or the error when the partition has no
    /// device path.
    pub fn confirm(&mut self) -> (r: Option<Result<EditPartitionRequest, String>>)
        ensures
            (old(self).running || old(self).selected_type_index >= old(self).partition_types@.len())
                ==> r is None && *final(self) == *old(self),
            !(old(self).running || old(self).selected_type_index >= old(self).partition_types@.len()) ==> {
                &&& *final(self) == (EditPartitionDialog { running: true, ..*old(self) })
                &&& r is Some
                &&& match r->0 {
                    Ok(req) => {
                        &&& opt_text(old(self).device_path) == Some(req.device@)
                        &&& req.partition_type@ == old(self).partition_types@[old(self).selected_type_index as int]@
                        &&& req.name@ == old(self).name@
                        &&& req.legacy_bios_bootable == old(self).legacy_bios_bootable
                        &&& req.system_partition == old(self).system_partition
                        &&& req.hidden == old(self).hidden
                    },
                    Err(e) => old(self).device_path is None && e@ == "Partition has no device path"@,
                }
            },
    {
        if self.running {
            return None;
        }
        if self.selected_type_index >= self.partition_types.len() {
            return None;
        }
        let partition_type = self.partition_types[self.selected_type_index].clone();
        self.running = true;
        let device = match &self.device_path {
            Some(d) => d.clone(),
            None => { return Some(Err(String::from_str("Partition has no device path"))); },
        };
        Some(Ok(EditPartitionRequest {
            device,
            partition_type,
            name: self.name.clone(),
            legacy_bios_bootable: self.legacy_bios_bootable,
            system_partition: self.system_partition,
            hidden: self.hidden,
        }))
    }
}

/// The dialog that changes the passphrase of an encrypted volume.
#[derive(Debug, Clone)]
pub struct ChangePassphraseDialog {
    /// The device path of the volume, if it has one.
    pub device_path: Option<String>,
    pub current_passphrase: String,
    pub new_passphrase: String,
    pub confirm_passphrase: String,
    pub error: Option<String>,
    pub running: bool,
}

/// What changing a passphrase asks for.
#[derive(Debug, Clone, PartialEq, Eq)]
pub struct ChangePassphraseRequest {
    pub device: String,
    pub current: String,
    pub new: String,
}

impl ChangePassphraseDialog {
    /// Starts the change, unless one runs. The new passphrase must not be empty and must equal
    /// its confirmation; otherwise `mismatch` is shown. Then the dialog is marked running and
    /// the request is given back, or the error when the volume has no device path.
    pub fn confirm(&mut self, mismatch: &str) -> (r: Option<Result<ChangePassphraseRequest, String>>)
        ensures
            old(self).running ==> r is None && *final(self) == *old(self),
            !old(self).running && (old(self).new_passphrase@.len() == 0
                || old(self).new_passphrase@ != old(self).confirm_passphrase@) ==> {
                &&& r is None
                &&& *final(self) == (ChangePassphraseDialog { error: final(self).error, ..*old(self) })
                &&& opt_text(final(self).error) == Some(mismatch@)
            },
            !old(self).running && old(self).new_passphrase@.len() > 0
                && old(self).new_passphrase@ == old(self).confirm_passphrase@ ==> {
                &&& *final(self) == (ChangePassphraseDialog { running: true, ..*old(self) })
                &&& r is Some
                &&& match r->0 {
                    Ok(req) => {
                        &&& opt_text(old(self).device_path) == Some(req.device@)
                        &&& req.current@ == old(self).current_passphrase@
                        &&& req.new@ == old(self).new_passphrase@
                    },
                    Err(e) => old(self).device_path is None && e@ == "Volume has no device path"@,
                }
            },
    {
        if self.running {
            return None;
        }
        if self.new_passphrase.as_str().unicode_len() == 0
            || !str_equals(self.new_passphrase.as_str(), self.confirm_passphrase.as_str()) {
            self.error = Some(String::from_str(mismatch));
            return None;
        }
        self.running = true;
        let device = match &self.device_path {
            Some(d) => d.clone(),
            None => { return Some(Err(String::from_str("Volume has no device path"))); },
        };
        Some(Ok(ChangePassphraseRequest {
            device,
            current: self.current_passphrase.clone(),
            new: self.new_passphrase.clone(),
        }))
    }
}

/// The dialog that edits how an encrypted volume is unlocked.
#[derive(Debug, Clone)]
pub struct EditEncryptionOptionsDialog {
    /// The device path of the volume, if it has one.
    pub device_path: Option<String>,
    pub step: EditEncryptionOptionsStep,
    pub use_defaults: bool,
    pub unlock_at_startup: bool,
    pub require_auth: bool,
    pub other_options: String,
    pub name: String,
    pub passphrase: String,
    pub show_passphrase: bool,
    pub error: Option<String>,
    pub running: bool,
}

/// What editing the encryption options asks for.
#[derive(Debug, Clone, PartialEq, Eq)]
pub enum EncryptionOptionsRequest {
    /// Clear the options, going back to the defaults.
    UseDefaults { device: String },
    /// Write these options; an empty passphrase field stores no passphrase.
    Custom {
        device: String,
        name: String,
        unlock_at_startup: bool,
        require_auth: bool,
        other_options: String,
        passphrase: Option<String>,
    },
}

pub open spec fn encryption_step_number(s: EditEncryptionOptionsStep) -> int {
    match s {
        EditEncryptionOptionsStep::Behavior => 1,
        EditEncryptionOptionsStep::Credentials => 2,
        EditEncryptionOptionsStep::Review => 3,
    }
}

pub open spec fn encryption_step_after(s: EditEncryptionOptionsStep) -> EditEncryptionOptionsStep {
    match s {
        EditEncryptionOptionsStep::Behavior => EditEncryptionOptionsStep::Credentials,
        EditEncryptionOptionsStep::Credentials => EditEncryptionOptionsStep::Review,
        EditEncryptionOptionsStep::Review => EditEncryptionOptionsStep::Review,
    }
}

pub open spec fn encryption_step_before(s: EditEncryptionOptionsStep) -> EditEncryptionOptionsStep {
    match s {
        EditEncryptionOptionsStep::Behavior => EditEncryptionOptionsStep::Behavior,
        EditEncryptionOptionsStep::Credentials => EditEncryptionOptionsStep::Behavior,
        EditEncryptionOptionsStep::Review => EditEncryptionOptionsStep::Credentials,
    }
}

/// The device that the encryption options are written for: the volume's, or a placeholder
/// path when it has none.
pub open spec fn encryption_device(device_path: Option<String>) -> Seq<char> {
    match device_path {
        Some(d) => d@,
        None => "/dev/unknown"@,
    }
}

impl EditEncryptionOptionsDialog {
    /// Goes back one step, clearing the error, unless a change runs.
    pub fn prev_step(&mut self)
        ensures
            *final(self) == if old(self).running {
                *old(self)
            } else {
                EditEncryptionOptionsDialog { step: encryption_step_before(old(self).step), error: None, ..*old(self) }
            },
    {
        if self.running {
            return;
        }
        self.step = match self.step {
            EditEncryptionOptionsStep::Behavior => EditEncryptionOptionsStep::Behavior,
            EditEncryptionOptionsStep::Credentials => EditEncryptionOptionsStep::Behavior,
            EditEncryptionOptionsStep::Review => EditEncryptionOptionsStep::Credentials,
        };
        self.error = None;
    }

    /// Goes forward one step, clearing the error, unless a change runs.
    pub fn next_step(&mut self)
        ensures
            *final(self) == if old(self).running {
                *old(self)
            } else {
                EditEncryptionOptionsDialog { step: encryption_step_after(old(self).step), error: None, ..*old(self) }
            },
    {
        if self.running {
            return;
        }
        self.step = match self.step {
            EditEncryptionOptionsStep::Behavior => EditEncryptionOptionsStep::Credentials,
            EditEncryptionOptionsStep::Credentials => EditEncryptionOptionsStep::Review,
            EditEncryptionOptionsStep::Review => EditEncryptionOptionsStep::Review,
        };
        self.error = None;
    }

    /// Jumps back to an earlier step (or stays), clearing the error.
    pub fn set_step(&mut self, step: EditEncryptionOptionsStep)
        ensures
            *final(self) == if !old(self).running && encryption_step_number(step) <= encryption_step_number(old(self).step) {
                EditEncryptionOptionsDialog { step, error: None, ..*old(self) }
            } else {
                *old(self)
            },
    {
        if self.running {
            return;
        }
        if step.number() <= self.step.number() {
            self.step = step;
            self.error = None;
        }
    }

    /// Starts writing the options, unless a change runs: the dialog is marked running and the
    /// request is given back.
    pub fn confirm(&mut self) -> (r: Option<EncryptionOptionsRequest>)
        ensures
            old(self).running ==> r is None && *final(self) == *old(self),
            !old(self).running ==> {
                &&& *final(self) == (EditEncryptionOptionsDialog { running: true, ..*old(self) })
                &&& r is Some
                &&& if old(self).use_defaults {
                    r->0 matches EncryptionOptionsRequest::UseDefaults { device }
                        && device@ == encryption_device(old(self).device_path)
                } else {
                    r->0 matches EncryptionOptionsRequest::Custom { device, name, unlock_at_startup, require_auth, other_options, passphrase }
                        && device@ == encryption_device(old(self).device_path)
                        && name@ == old(self).name@
                        && unlock_at_startup == old(self).unlock_at_startup
                        && require_auth == old(self).require_auth
                        && other_options@ == old(self).other_options@
                        && opt_text(passphrase) == if old(self).passphrase@.len() == 0 {
                            None
                        } else {
                            Some(old(self).passphrase@)
                        }
                }
            },
    {
        if self.running {
            return None;
        }
        self.running = true;
        let device = match &self.device_path {
            Some(d) => d.clone(),
            None => String::from_str("/dev/unknown"),
        };
        if self.use_defaults {
            return Some(EncryptionOptionsRequest::UseDefaults { device });
        }
        let passphrase = if self.passphrase.as_str().unicode_len() == 0 {
            None
        } else {
            Some(self.passphrase.clone())
        };
        Some(EncryptionOptionsRequest::Custom {
            device,
            name: self.name.clone(),
            unlock_at_startup: self.unlock_at_startup,
            require_auth: self.require_auth,
            other_options: self.other_options.clone(),
            passphrase,
        })
    }
}

/// The dialog that unlocks an encrypted partition.
#[derive(Debug, Clone)]
pub struct UnlockEncryptedDialog {
    pub partition_path: String,
    pub partition_name: String,
    pub passphrase: String,
    pub error: Option<String>,
    pub running: bool,
}

/// How confirming the unlock dialog goes on.
#[derive(Debug, Clone, PartialEq, Eq)]
pub enum UnlockStart {
    /// An unlock runs already; nothing happens.
    AlreadyRunning,
    /// The partition is no longer known; the failure is to be reported.
    PartitionMissing,
    /// Unlock the device with the passphrase.
    Unlock { device: String, passphrase: String },
}

impl UnlockEncryptedDialog {
    /// Sets the passphrase and clears the error.
    pub fn set_passphrase(&mut self, passphrase: String)
        ensures
            *final(self) == (UnlockEncryptedDialog { passphrase, error: None, ..*old(self) }),
    {
        self.passphrase = passphrase;
        self.error = None;
    }

    /// Confirms the dialog against the device paths of the known partitions: unless an unlock
    /// runs, the dialog is marked running, and the unlock starts if the partition is known.
    pub fn confirm(&mut self, partitions: &Vec<String>) -> (r: UnlockStart)
        ensures
            old(self).running ==> r == UnlockStart::AlreadyRunning && *final(self) == *old(self),
            !old(self).running ==> {
                &&& *final(self) == (UnlockEncryptedDialog { running: true, ..*old(self) })
                &&& if exists|i: int| 0 <= i < partitions@.len() && (#[trigger] partitions@[i])@ == old(self).partition_path@ {
                    r matches UnlockStart::Unlock { device, passphrase }
                        && device@ == old(self).partition_path@
                        && passphrase@ == old(self).passphrase@
                } else {
                    r == UnlockStart::PartitionMissing
                }
            },
    {
        if self.running {
            return UnlockStart::AlreadyRunning;
        }
        self.running = true;
        let mut i: usize = 0;
        while i < partitions.len()
            invariant
                !old(self).running,
                *self == (UnlockEncryptedDialog { running: true, ..*old(self) }),
                i <= partitions@.len(),
                forall|j: int| 0 <= j < i ==> (#[trigger] partitions@[j])@ != self.partition_path@,
            decreases partitions.len() - i,
        {
            if str_equals(partitions[i].as_str(), self.partition_path.as_str()) {
                return UnlockStart::Unlock { device: partitions[i].clone(), passphrase: self.passphrase.clone() };
            }
            i = i + 1;
        }
        UnlockStart::PartitionMissing
    }

    /// The unlock failed: the dialog comes back, no longer running, with the error.
    pub fn unlock_failed(&mut self, error: String)
        ensures
            *final(self) == (UnlockEncryptedDialog { running: false, error: Some(error), ..*old(self) }),
    {
        self.running = false;
        self.error = Some(error);
    }
}


/// The name suggested for the unlocked device of a volume: its label, or when that is blank
/// the last part of its device path, or `luks` without one.
pub open spec fn suggested_unlock_name(v: VolumeInfo) -> Seq<char> {
    if trimmed(v.label@).len() == 0 {
        match v.device_path {
            Some(d) => after_last_slash(d@),
            None => "luks"@,
        }
    } else {
        v.label@
    }
}

/// The stored unlock options of an encrypted volume.
#[derive(Debug, Clone)]
pub struct EncryptionSettings {
    pub name: String,
    pub unlock_at_startup: bool,
    pub require_auth: bool,
    pub other_options: String,
}

impl EditEncryptionOptionsDialog {
    /// The dialog for an encrypted volume at its first step. With stored options it starts
    /// from them (the suggested name when the stored one is empty); without, from the defaults:
    /// unlocked at startup, `nofail`, no authentication. The passphrase is never filled in.
    pub fn open(volume: &VolumeInfo, settings: Option<EncryptionSettings>) -> (d: Self)
        ensures
            opt_text(d.device_path) == opt_text(volume.device_path),
            d.step == EditEncryptionOptionsStep::Behavior,
            d.passphrase@.len() == 0,
            !d.show_passphrase,
            d.error is None,
            !d.running,
            match settings {
                Some(s) => {
                    &&& !d.use_defaults
                    &&& d.unlock_at_startup == s.unlock_at_startup
                    &&& d.require_auth == s.require_auth
                    &&& d.other_options@ == s.other_options@
                    &&& d.name@ == if s.name@.len() == 0 { suggested_unlock_name(*volume) } else { s.name@ }
                },
                None => {
                    &&& d.use_defaults
                    &&& d.unlock_at_startup
                    &&& !d.require_auth
                    &&& d.other_options@ == "nofail"@
                    &&& d.name@ == suggested_unlock_name(*volume)
                },
            },
    {
        let suggested = if trim(volume.label.as_str()).unicode_len() == 0 {
            match &volume.device_path {
                Some(path) => String::from_str(last_path_part(path.as_str())),
                None => String::from_str("luks"),
            }
        } else {
            volume.label.clone()
        };
        let (use_defaults, unlock_at_startup, require_auth, other_options, name) = match settings {
            Some(s) => {
                let name = if s.name.unicode_len() == 0 { suggested } else { s.name };
                (false, s.unlock_at_startup, s.require_auth, s.other_options, name)
            },
            None => (true, true, false, String::from_str("nofail"), suggested),
        };
        EditEncryptionOptionsDialog {
            device_path: volume.device_path.clone(),
            step: EditEncryptionOptionsStep::Behavior,
            use_defaults,
            unlock_at_startup,
            require_auth,
            other_options,
            name,
            passphrase: String::new(),
            show_passphrase: false,
            error: None,
            running: false,
        }
    }
}

} // verus!
