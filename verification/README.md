# wifi_rssi

A terminal monitor that charts the signal strength (RSSI) of the Wi-Fi access point the adapter
is associated with, sampled as fast as the driver allows.

- `src/` is the verified library: the rolling sample window and the chart bounds, the sampler's
  decisions (when to re-check the association, how targets are numbered, what is reported),
  the application state and its reaction to every event, the keybind legend and its click
  targets, the mapping of terminal input to events, and the parsers for the scanner outputs.
  Every function carries a contract proved by Verus, except the two wrappers
  `legend::new_rect` and `legend::rect_contains`, whose contracts are trusted: they call
  ratatui's `Rect::new` and `Rect::contains`. The `law_*` proof functions state the
  properties that hold across calls.
- `app/` is the program around it: the terminal, the threads and channels, the clock, the
  WLAN calls and the drawing.
- `tests/` runs the library on concrete values.
