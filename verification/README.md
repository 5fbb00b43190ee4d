# edgetx_cli

Package management and development tooling for EdgeTX radios: installing,
updating and removing Lua script packages on a radio's SD card, checking
package manifests, syncing a package under development to a card, and the
logic behind the radio simulator.

The library in `src/` is verified with Verus; every public function states
what it returns in its contract, and the library's laws are proof functions
(`law_*`). The program around it, in `app/`, does the file, network and
terminal work and hands the library plain values.

Layout of `src/`:

- `manifest/` — the `edgetx.yml` model, its validation and content listing.
- `packages/` — package state on the card, conflicts, install, update,
  remove, outdated checks, file lists and `pkg info`.
- `source/`, `repository/` — package references, version resolution,
  `.gitmodules` and tree listings.
- `radio/`, `radio_catalog/`, `device/` — card detection, firmware versions,
  the simulator's radio catalog, ejecting.
- `sync/` — what a change under a watched package does to the card.
- `simulator/`, `simulator_ui/` — action scripts, framebuffers, SD card
  layout, and the state behind the simulator window.
- `luac.rs` — where the Lua bytecode compiler is kept and what its replies
  mean.
- `scaffold/`, `cli/` — new scripts from templates, and command arguments.
- `text.rs`, `keyed.rs` — text and string-keyed list helpers with their
  specifications.

The program in `app/` has no WebAssembly runtime, so `dev simulator`
prepares the SD card and then stops with an error instead of running the
radio firmware; the simulator's decisions are in `src/simulator/` and
`src/simulator_ui/`.
