# yappy

A pomodoro timer for the desktop: a tray menu and a window start, pause and
reset a countdown, the status bar shows the remaining time next to the
selected Todoist task, and the settings live in a JSON file.

`src/` is the verified library:

- `lib.rs`: the messages that drive the timer and the `mm:ss` clock text.
- `handling.rs`: what each message does to the state, and each second of a
  countdown, as functions from state and event to the next state and the
  effects to carry out; the laws of the timer.
- `state.rs`: the timer's state and its view.
- `store.rs`: the key-value store of settings and tasks, and its file paths.
- `json.rs`: the JSON text in which stored values are written.
- `todoist.rs`, `firebase.rs`: what the integrations keep and send.
- `commands.rs`: the window's commands, the tray menu and number parsing.
- `text.rs`, `utils.rs`: decimal rendering and random identifiers.

`app/` is the program around it: the window and tray, the D-Bus status bar,
notifications, the HTTP requests, the file I/O and the loops that carry out
the effects that the library asks for.
