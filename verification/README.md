# dota-clock

A Wayland overlay that counts down to upcoming Dota 2 game events (runes,
lotus pools, wisdom shrines, outposts, day/night, tormentor, neutral item
tiers, siege creeps) and to the per-minute pull and stack timings, fed by the
game's Game State Integration reports.

## Layout

- `src/` — the verified library:
  - `events` — event definitions and their flattening into one list, sorted
    by time with ties kept in definition order;
  - `patches` — the timing tables of a patch (`v7_41`);
  - `clock` — the clock that follows the game between reports, and the frames
    of countdowns it produces, with the laws it keeps;
  - `text` — decimal and `M:SS` rendering;
  - `gsi` — the game state as the clock reads it;
  - `config` — overlay placement and its defaults;
  - `icons` — icon file names and picking icon data by name;
  - `pixels` — PNG icons decoded, scaled and laid out as premultiplied
    bottom-up BGRA for bitmap drawing;
  - `layout` — style classes, colours, window geometry and item positions.
- `app/` — the program: configuration file, HTTP endpoint, the GTK
  layer-shell overlay, and on Windows a layered Win32 window.
- `tests/` — tests of the library.

The program reads the icon PNG files at run time from an `icons` directory
beside the executable (or in the working directory).
