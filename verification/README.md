# keybinder

The core of Keybinder, a desktop manager for the skhd hotkey daemon and its
skhd.zig successor, written in Verus: each public function carries a contract
that Verus proves, and the laws the library keeps are stated as proof functions.

## Layout

- `src/` — the verified library.
  - `text.rs`: character-level scanning used by the parsers (blanks, names, trimming, search).
  - `parser.rs`, `ast.rs`: the skhd configuration grammar and the syntax tree it builds,
    skhd.zig directives included.
  - `models.rs`, `settings.rs`: the variants, the user's preference, and the effective variant.
  - `detect.rs`: variant detection as a sequence of probes.
  - `status.rs`, `control.rs`, `service.rs`: reading the service's status and starting,
    stopping, restarting, reloading, installing or uninstalling it, as sequences of steps,
    and the judgements made on what the commands report.
  - `paths.rs`, `homebrew.rs`: where configuration files and the Homebrew executable are looked for.
- `app/` — the desktop side: it runs the programs, reads the environment and the file
  system, waits, and feeds what happened back to the library's steps; it also holds the
  serialisable copies of the library's types.
- `tests/` — tests of the library on concrete values.
