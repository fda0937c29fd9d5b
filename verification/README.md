# codex-profiles

A profile manager for Codex CLI logins: it saves several logins, switches
between them, ranks them by the usage they have left, keeps reserved profiles
out of automatic switching, migrates profiles between storage directories and
relays a login callback to a local listener.

## Layout

- `src/` is the library, written in Verus. Every function there carries a
  contract that Verus proves: the label map, the profiles index and its
  records, the usage file format, the ranking and its merging by account, the
  switch preview, migration planning, the messages the commands print, the
  configuration file, the relay URL checks, update checks, the Every Code
  account export and import, the IDE reload steps and the desktop demo data. Calls into other crates (base64, serde_json,
  chrono, shlex, colored, supports-color, ureq's URI parser) stand behind
  small trusted wrappers whose contracts say what those crates document.
  Public proof functions state the laws the library keeps, such as reading
  back what was written, that a reserved profile is never recommended, and
  that reserving then unreserving a profile restores its record.
- `tests/` runs the library on concrete values.
- `app/` is the `codex-switcher` program around the library: argument
  parsing, files and locks, HTTP requests, prompts and the terminal, and on
  Windows the process commands of the IDE reload.
