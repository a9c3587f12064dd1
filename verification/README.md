# tryfol

The logic of a status bar for the Hyprland compositor, written in Verus:
each public function states what it does in `requires` / `ensures`, and
Verus proves it.

## Layout

- `src/` — the verified library.
  - `hyprland/` — the compositor's event lines (current and older forms),
    workspaces, window addresses, and the splitting of the event socket's
    byte stream into lines.
  - `workspaces.rs` — the workspace strip: which workspaces are shown, in
    order, which is active, and what a window event asks of the bar; the
    Japanese numerals of the workspace names.
  - `ipc/` — the wire format of the bar's IPC (integers, strings, options,
    results, sequences and packets), its laws (a read gives back what was
    written), the bookkeeping of a client's calls, and what a protocol
    declaration says (its arguments, the kind of each method, the names of
    the generated items, and the messages a malformed one gets).
  - `rfkill.rs`, `battery.rs`, `memory.rs`, `network.rs`, `audio.rs`,
    `mpris.rs`, `status_notifier.rs`, `menu.rs`, `title.rs` — what each
    module of the bar shows, decided from plain readings.
  - `text.rs`, `numparse.rs`, `number.rs` — searching, splitting and
    parsing text, and writing numbers, each specified over `Seq<char>`.
- `tests/` — tests of the library on concrete values.
- `app/` — the parts that talk to the system: sockets, D-Bus, netlink,
  sysfs files and the tray watcher. They read, hand plain values to the
  library, and act on what it returns.

## Outside crates

`regex`, `html-escape`, `zbus` (its name checks) and `wl-nl80211` (the
parse of an access point's information elements) are called from the
library through small wrappers whose contracts state what their sources
show. Everything else is used in `app/` only.
