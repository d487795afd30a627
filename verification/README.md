# aic-tools

Memory tools for Alice In Cradle 0.29j (Windows): edit the beginner's cane,
show its radar chart on Noel juice, disable the dynamic mosaic, and unlock the
F7 debug menu.

## Layout

- `src/` — the library, verified with Verus: pattern and pointer scans over
  memory read in chunks, the selection of game objects from scan hits, the
  walk over a PE export directory, the parameter blocks of remote calls, the
  IL and machine-code patches with their checks and backups, the reading of
  the content version from `globalgamemanagers`, and the text of messages and
  log lines. The library never touches the game itself: it says what to read
  and write, and decides from what was read.
- `app/` — the program: Win32 process access, the menu, the log file, and the
  floating-point conversions between displayed radar values and cane fields.
- `tests/` — tests of the library on concrete values.

## Offsets

The field offsets of the supported build are read from the environment, one
variable per field of `GameLayout` (`AIC_NEL_KEY`, `AIC_PE_NEAR_POWER`, …),
in decimal or `0x` hexadecimal.
