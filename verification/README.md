# animer

A terminal client for browsing anime releases and playing their episodes.

- `src/` is the verified library:
  - `api` — the release catalogue and the request bodies sent to the server;
  - `app` — the state shared by the screens, release labels, menu
    navigation and the decisions taken on the user's answers;
  - `menu` — how each menu answers a key, menu titles and the start banner;
  - `player` — the episode request typed by the user, the source picked for
    it and the length-prefixed message sent to the player;
  - `text` — decimal numbers, padding, white space and number parsing.
- `app/` is the program around it: the terminal UI, HTTP requests, the
  configuration file and the player process.
- `tests/` exercise the library on concrete values.
