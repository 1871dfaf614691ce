# terminal_hell

A terminal co-op shooter's core, written in Verus: the library under
`src/` is verified by Verus, its functions held to `requires`/`ensures`
contracts (the few thin wrappers around the clock and outside crates
carry the contracts those crates document, taken on trust).

- `src/` — the verified library: the tile-grid A* pathfinder, the spatial
  hash, tag interning and the tag-pair interaction rules, the share-code and
  wire formats, the install-server routes and scripts, STUN response
  parsing, the rumble scheduler, the menu, HUD and perf-overlay layouts,
  the content tables (perks, weapons, traversal verbs, gore tiers,
  substances, brands), the vote and wave logic, and the sprite pictures.
  Calls into outside crates (base32, HMAC-SHA256, the OS random source,
  `rand`) sit behind small trusted wrappers whose contracts say what the
  crate documents.
- `app/` — the program around it: argument parsing, terminal and network
  I/O, the gamepad worker, the evdev force-feedback device, the HTTP
  install server and UPnP, and the float-valued tables (substance
  emitters, interaction reactions).
- `tests/` — scenario tests run against the compiled library.
