# sysmon

A terminal system monitor. The library under `src/` holds what the monitor
computes, verified with Verus:

- `monitor`: the state kept between ticks (CPU, memory and traffic
  histories, selected tab, scroll position), how a tick of readings and a key
  press change it, and when the next tick is due;
- `history`: the sliding sample windows and the scale of their graphs;
- `units`: sizes and uptimes as text, with the `f64` rendering of sizes
  carried out exactly in integers;
- `text`: decimal rendering, padding, and cutting text to a number of UTF-8
  bytes;
- `ranking`: ranking entries by a key, highest first, ties in listing order;
- `layout`: the screen arrangement, solved by ratatui;
- `view`: the texts, figures and colours each screen shows.

`app/main.rs` reads the system (sysinfo), the keyboard (crossterm) and the
clock (chrono), hands the readings to the library and draws the result with
ratatui.
