# Backer-Upper

Backs up folders to removable drives with rsync, takes a read-only btrfs
snapshot after each backup, and formats new drives as LUKS-encrypted btrfs.

- `src/` is the verified library: the rsync command lines and their shell
  quoting, the reading of rsync's progress output, the order in which a
  backup runs its jobs, the choice of removable drives from `lsblk`'s JSON,
  the udisks2 object paths, the steps of a format and the safety checks
  before them, and the state behind the screens and commands. `desktop/`
  holds what the desktop program does differently.
- `app/` is the desktop program (egui) and the request handlers of the web
  front end: it runs the commands, talks to udisks2 over D-Bus, reads and
  writes the configuration file, and draws the screens.
- `tests/` runs the library on concrete values.
