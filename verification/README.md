# RedLight, verified core

RedLight is a Windows tray utility that applies a full-screen red-only colour
filter (Alt+F11 toggles it). It also holds the pixel work for red-tinted mouse
cursors; the program keeps the cursor module but does not call it.

- `src/` is the library, verified with Verus: the tray icon's `.ico` bytes
  (`icon`), the keyboard hook's decisions (`hotkey`), the cursor pixel
  transforms (`cursor`), the filter's state (`filter`), the settings
  (`config`), the Run-key command (`autostart`) and the tray app's menu state
  (`tray`).
- `app/` is the Windows program around it: the Magnification, GDI, hook and
  registry calls, the settings file, and the tray window.
- `tests/` exercises the library on concrete values.
