# tobi

The TI Out of Box Installer for Sitara starter kits: it presents a terminal
(or serial console) interface, lets the user pick an OS image from an online
catalog or from attached media, streams and decompresses it onto the chosen
storage, checks its size and hashes, patches the boot files of eMMC targets
and reboots into the installed system.

## Layout

- `src/` is the verified library, checked with Verus:
  - `app.rs`: the installer's state machine (screens, cursor, install
    progress, countdown to reboot, proxy entry), stated over `AppView`;
    each step returns the outside work it asks for as an `AppAction`.
  - `console.rs`: key presses and serial-console commands, and the serial
    screen's text.
  - `screen.rs`: every line, tone and list row the terminal interface shows,
    and the waiting game's grid.
  - `manifest.rs`, `catalog_view.rs`, `board.rs`, `custom_image.rs`,
    `device.rs`: the catalog, board detection, attached-media images and
    install targets.
  - `installer.rs`, `resume.rs`, `digest.rs`, `memory.rs`: install requests
    and their events, resumable downloads, SHA-256 tallies, and the memory
    guard.
  - `boot_patch.rs`: the post-flash `uEnv.txt` patch.
  - `network.rs`: the header's address and wired-network state, parsed from
    `ip`, `ifconfig`, `networksetup` and sysfs.
  - `qr.rs`, `runner.rs`, `sort.rs`, `startup.rs`, `text.rs`: QR codes, the
    waiting game, stable sorting, start-up decisions and string helpers.
- `tests/` runs the library on concrete values.
- `app/` is the program around the library: command line, terminal and
  serial loops, file, process and network I/O, the install worker, and the
  JSON form of the catalog.
