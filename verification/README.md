# Codex 键盘额度工具 / Codex keyboard quota

Shows the 5-hour and weekly quota of a Codex account, or the balance of the relay that CCSwitch has
selected, on the 24 × 8 dot matrix of a TICKTYPE DP-104 keyboard.

- `src/` is the library, verified with Verus. `double` has exact binary64 rounding on integers,
  `json` turns JSON texts into plain values, `codex` reads limits and finds the program to start,
  `ccswitch` reads balances and prepares scripts, `consumption` adds up balance samples, `quota`
  decides when a refresh is due and what is stored, `keyboard` renders frames and packs reports,
  `service` plans refreshes and sums them up, `deploy` builds the scheduled task and orders the
  steps of an installation, `window` holds the state behind the window, `clock` and `text` serve the
  rest.
- `tests/` runs the library on concrete values.
- `app/` is the program around it: HID, registry, processes, HTTP, SQLite and the egui window.
