# AI Dikte

Dictation for Linux Wayland desktops with Gemini Live: press Meta+Z to start
recording, press it again and the committed transcript is typed into the
focused window (with `kwtype` on KDE Plasma, `wtype` on Hyprland).

## Layout

- `src/` is the library, verified with Verus: the Gemini Live messages and
  the transcript reducer, the settings rules, the recording controller's
  state machine, which ending of a recording yields text to type, the Win+Z
  chord and the status capsule, the managed Hyprland shortcut block and its
  all-or-nothing update, the daemon and service decisions, and the text
  helpers they share. Its laws are public proof functions named `law_*`.
- `app/` is the program around it: the command line, the settings file,
  microphone capture through `pw-record`, the WebSocket session, typing, the
  daemon and the console menu.
- `tests/` exercises the library on concrete values.
