# codex_sound_manager

A Verus-verified library behind the Codex sound manager, a Windows desktop
tool that plays a chosen sound whenever a Codex task finishes. The library
holds the rules that edit the `notify` callback in Codex's `config.toml`
(installing this tool's callback, keeping and later restoring the callback
it replaced, forwarding through the Computer Use wrapper), the settings
model with its validation and normalization, the search for Codex's data
folder, the choice of sound files, and the step-by-step handling of a
finished task.

Layout:

- `src/text.rs`, `src/path.rs`: character-level helpers and a model of
  Windows path text as `std::path` reads it (drive, UNC, device and
  verbatim prefixes, components, file names, extensions, equality, joins).
- `src/json.rs`, `src/config.rs`: the JSON form of command lines and the
  top-level entries of a `toml_edit` document, behind trusted wrappers.
- `src/commands.rs`, `src/notify.rs`: recognizing callbacks; installing and
  removing this tool's callback, with the proofs that removing after
  installing restores the `notify` entry (every other entry keeps its value
  and comments) and that installing twice changes nothing more; installing
  again after the tool was moved points the callback at its new path.
- `src/settings.rs`, `src/sounds.rs`, `src/locations.rs`: settings, sound
  files, and the folders of Codex and of older installations.
- `src/scan.rs`, `src/notification.rs`, `src/window.rs`: what the window
  shows, the finished-task state machine with its lock and log lines, and
  the tray and floating-control decisions.
- `app/main.rs`: the Tauri program that performs the file, process, audio
  and window work and calls the library for every decision.
