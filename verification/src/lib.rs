use vstd::prelude::*;

pub mod unit_size;
pub mod segments;
pub mod refresh;
pub mod text;
pub mod dialogs;
pub mod network_wizard;
pub mod harness;
pub mod logical;
pub mod sidebar;
pub mod keyed_map;
pub mod ids;
pub mod network;
pub mod views;
pub mod decimal;
pub mod logical_action;
pub mod partition_dialogs;
pub mod volume_tree;
pub mod volume_dialogs;
pub mod btrfs_state;
pub mod usage;
pub mod image_dialog;
pub mod volumes_control;
pub mod detail_actions;
pub mod nav;
pub mod ordering;
pub mod sidebar_tree;
pub mod logical_sidebar;
pub mod btrfs_dialogs;
pub mod filesystem_dialogs;
pub mod mount_flow;
pub mod smart_dialog;
pub mod logical_display;
pub mod btrfs_tree;
pub mod logical_forms;
pub mod field_names;
pub mod network_form;

verus! {

} // verus!
