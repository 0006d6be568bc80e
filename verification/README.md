# multi-mouse-tool

A Windows tray program that tells connected mice apart and keeps cursor
speed, pointer precision, button swap and wheel scroll lines for each one,
applying a device's settings when input comes from it.

- `src/` is the verified library (Verus): the settings model and lookup
  (`config`), device labels read from Raw Input device paths (`device`),
  the mouse parameter array of `SPI_GETMOUSE`/`SPI_SETMOUSE`
  (`mouse_config`), and the decisions of the main and settings windows
  (`state`), with the laws they keep.
- `app/` is the Windows program around it: the windows and tray
  (native-windows-gui), the Win32 calls (windows), and the JSON settings
  file (serde, serde_json).
- `tests/` runs the library on concrete values.
