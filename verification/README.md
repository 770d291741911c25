# popalarm

A desktop reminder clock: a small always-on-top clock that pops up at
reminder times (`h:m:s,...`, empty fields match anything), runs countdowns,
plays a sound and shows a tip.

- `src/` is the verified library (Verus): text helpers (`text`), colour
  settings (`color`), the time of day in a chosen zone (`clock`), the
  reminder and countdown schedule (`schedule`), the configuration file
  model (`config`), the clock's state and per-frame decisions (`alarm`), and
  properties spanning several operations (`laws`).
- `app/` is the window, tray menu, sound playback and file writing around
  it, using eframe, egui_extras, tray-icon and rodio.
- `tests/` exercises the library on concrete values.
