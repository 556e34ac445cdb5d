# phaneron_switcher

A web panel for the switcher node (a traditional vision mixer) of a Phaneron
media server.

- `src/` is the verified library:
  - `string_map.rs`: a string-keyed map (entries with distinct keys) and its
    lemmas;
  - `phaneron_ws_message.rs`: the messages exchanged with the server;
  - `snapshot.rs`: how the panel's snapshot (program, preview, transition,
    video sources) is derived from the graph the server reports;
  - `commands.rs`: the switcher state each panel command asks for, and the
    laws that relate commands to what the panel then shows;
  - `registration.rs`: the registration request and the WebSocket URL of its
    answer;
  - `assets.rs`: the static files of the panel's page.
- `app/` is the program: the HTTP server, the WebSocket plumbing, the JSON
  encoding (serde copies of the library's types) and the mix-position
  arithmetic, which is floating point.
- `tests/` runs the library on concrete values.
