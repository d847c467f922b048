# openconsole

The software of a small game console: a supervisor that starts the
launcher UI and the games, and the logic behind the UI's screens. The logic
is a library verified with Verus; the program around it does the I/O.

## Layout

- `src/` — the verified library.
  - `text` — the string and character toolkit the other modules build on,
    with the specifications of trimming, splitting, lines and numbers.
  - `input`, `action_router` — input tokens, console actions, and the router
    that turns key, button and stick events into pressed, repeated and
    released actions.
  - `event_order` — the proof that the router reports each action as
    pressed and released in turn, along any run of its steps.
  - `controller`, `controller_input`, `controller_setup`, `setup_flow` —
    saved controller profiles, evdev and joystick input decoding, and the
    step-by-step setup that captures a profile.
  - `runtime_mapper` — the table from controller inputs to keyboard keys
    used while a game runs, and the proof that stopping releases every key
    still down.
  - `hotkey` — the failsafe hotkey (both Ctrl keys held for two seconds).
  - `keyboard_input` — raw keyboard devices and their event records.
  - `manifest`, `catalog`, `game_state` — the games, the built-in catalog,
    favourites and recently played games.
  - `supervisor`, `ipc` — the supervisor's decisions (among them how a game
    is launched: its directory, environment and arguments) and its socket.
  - `wifi`, `wifi_password`, `bluetooth`, `audio`, `system_settings`,
    `usb_gamepad_recovery` — system services: what to run and how to read
    what the tools print.
  - `ui_nav`, `ui_sections`, `ui_text` — the screens: navigation, the game
    rows and the texts shown.
- `tests/` — tests of the library on concrete values.
- `app/` — the supervisor program: files, processes, sockets, SDL and
  evdev devices.
