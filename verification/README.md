# tile

The platform-independent logic of Tile, a keyboard-driven window tiler, with
its behaviour stated as Verus contracts and proved.

## Layout

- `src/` — the verified library.
  - `hotkey`, `action`, `text`: hotkeys, key codes and window actions, their
    parsing and rendering (parse inverts render).
  - `config`, `cycle`: bindings, conflicts, defaults, animation settings,
    cycle sizes and the choice of the next cycle step.
  - `mac_keys`, `mac_hotkeys`, `win_keys`, `win_window`, `win_client`,
    `hook`, `native_errors`, `enhanced_ui`: the macOS and Windows backends'
    logic around their native calls, which it reaches through traits or
    takes as plain values, assuming nothing of what they answer.
  - `owner`, `apply`: the Windows hotkey owner's registrations, id
    allocation, cancellation, and the apply request with its rollback, run
    against a native side of which nothing is assumed.
  - `update`, `update_state`, `capability`, `build_kind`: the update
    lifecycle, manifest validation and version decisions (through `semver`),
    and build provenance.
  - `state`: the animated pipeline's decisions as a state machine (commit a
    superseded move before re-planning, retarget the same window, land any
    other first, never stop with a window part-way), and how a run ends.
  - `platform`, `feedback`, `ratelimit`, `pacing`, `dto`, `config_store`:
    errors, reports, rate limiting, frame pacing and the shapes handed to
    the UI.
- `tests/` — executable tests of the library.
- `app/` — the program around it: configuration files on disk, serde
  copies of the library's types, environment lookups, and the floating-point
  window geometry and spring animation.
