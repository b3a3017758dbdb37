# game_client

The client-side logic of a browser multiplayer blaster game, as a verified
library, with the browser glue around it.

- `src/` — the library, every function verified:
  - `debug/` — console commands and cvars (`registry`), the console's
    log, history and input line (`shell`), and routing command replies to
    host requests;
  - `mp/` — the multiplayer session: product phases and their transition
    graph (`phase`), the roster and spawn apply paths (`apply`), the remote
    table (`remotes`), the lobby/role/character/bench decisions and status
    line (`lobby`), message queues (`queues`), round-trip send stamps
    (`lag`), ammo wire bytes (`claims`), the display-name cookie
    (`cookie`);
  - `pack` — SGPK asset packs: framing, the asset index and lookup, and the
    size/SHA-256 checks against the manifest;
  - `mesh/` — mip chains, PNG expansion to RGBA8, box face topology, kit
    letters;
  - `keys`, `input` — where key, wheel and pointer events go, and the
    mounted-play input state;
  - `present` — load slots for presented objects;
  - `map`, `glyphs`, `preferences`, `text` — small tables and text helpers.
- `app/` — what the library leaves to the browser: fetching, cookies,
  egui drawing, and the floating-point state (mouse sensitivity, look and
  soft pointer, clock and lag smoothing, foot-patch geometry).
- `tests/` — tests of the library's public API.
