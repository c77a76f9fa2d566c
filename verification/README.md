# ShroudForge

ShroudForge loads mods into Enshrouded. This crate holds its rules as a library
verified with Verus, and a small command-line program around it.

- `src/` is the library. Every function there carries a contract. Verus proves the
  functions and the properties stated as proof functions. The library covers mod
  manifests and how they are validated, the order and compatibility of mods, the
  loader's start-up checks, the runtime API, settings and shared state, news and
  notices, logging and the activity feed, diagnostics, catalog installs, system
  updates, and the mod list of the control window.
- `app/` reads and writes files and turns JSON into the library's types, then hands
  the decisions to the library.
- `tests/` runs the library on concrete inputs.

Calls into `semver`, `sha2`, `base64` and `jsonschema`, and a few functions of the standard library,
go through small wrappers. Their contracts are assumed, not proved, and each one
has a doc comment that says what it claims.
