# storage_ui

The state, rules and layout logic behind a desktop storage utility (disks, partitions,
LVM/RAID/Btrfs topologies, disk images, usage scans and rclone network mounts), written in
Verus with its behaviour stated as `requires` / `ensures` contracts and proved.

Layout:

- `src/` — the verified library. Each module holds one area of the application: partition
  layout (`segments`, `volumes_control`, `detail_actions`), dialogs and their state machines
  (`dialogs`, `partition_dialogs`, `volume_dialogs`, `btrfs_dialogs`, `image_dialog`, ...),
  the sidebar (`sidebar`, `sidebar_tree`, `logical_sidebar`), logical topologies (`logical`,
  `logical_action`, `logical_forms`, `btrfs_tree`), network remotes (`network`,
  `network_wizard`, `network_form`, `field_names`), and small verified text and number helpers (`text`,
  `decimal`, `unit_size`, `ordering`). Public proof functions state the laws that tie
  several operations together.
- `tests/` — ordinary Rust tests of the library on concrete values.
- `app/` — the unverified edge: floating-point size conversion, fixture and trace files,
  and serde copies of library types.

Calls into outside crates (`sha2`, `base64`, `uuid`) and into std functions that vstd does
not specify go through small trusted wrappers whose doc comments say what is assumed.
