# Dialog Cursor Mover

A Windows tray program that moves the mouse cursor onto the OK (or default)
button of a dialog as soon as the dialog appears, optionally gliding there with
a themed cursor, a sound and a ripple where it lands.

## Layout

- `src/` — the library `dialog_cursor_mover`, written in Verus and verified:
  reading and writing `config.ini`, language files, theme paths, the rules that
  decide whether a window is a dialog and which button is its OK button, the
  state kept between events (repeats, throttling, once per dialog), the
  questions asked about a pending dialog and the verdict, the glide decisions,
  the tray menu and what each command changes, the log's lines, the task
  definition for starting with Windows, and the text helpers they rest on.
  Each public function states what it returns in its contract; the laws that
  span several functions are proof functions (for example `config.ini` read
  back gives the settings written, the settings read from any file keep every
  value within its range, and the setting lines written do not depend on the
  language loaded).
- `tests/` — tests of the library on concrete values.
- `app/` — the Windows program around the library: Win32 and UI Automation
  calls, files, timers, the message loop, and the drawing of the ripple.
