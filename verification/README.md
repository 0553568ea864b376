# lazy-swagger-tui

A terminal UI for trying out an HTTP API straight from its Swagger/OpenAPI
document: list the endpoints, search them, fill in path and query parameters,
edit a JSON body, set a bearer token and send the request.

## Layout

- `src/` is the library, written in Verus. It holds the application state and
  every rule that changes it: the key handlers (as functions from state and key
  to the next state and an outcome), the body editor, endpoint grouping and
  search, request planning (URL, method, headers, body), reading a response,
  yanking a value from a response line, and the text of every panel and
  dialog as plain styled spans. Each public function states its effect in its
  `ensures`; the properties that span several calls are proof functions named
  `law_*` (see `laws.rs`, `editor_laws.rs`, `actions.rs`, `groups.rs`).
  JSON checking and formatting go through `serde_json`, URL parsing and query
  building through `url`, each behind a small trusted wrapper whose contract
  says what the crate promises.
- `app/` is the program around it: the terminal loop (`crossterm`), drawing
  (`ratatui`), the HTTP calls (`reqwest`, `tokio`), reading and writing the
  configuration file (`dirs`, `toml`, `serde`) and the clipboard (`arboard`).
  It hands plain values to the library and performs the actions it returns.
- `tests/` exercises the library from outside.

## Keys

| Key | Action |
|-----|--------|
| `j`/`k` or arrows | Move in the list or the detail panel |
| `Space` | Send the request |
| `/` | Search (`Esc` clears) |
| `Tab` / `Shift+Tab` | Switch panels and tabs |
| `e` | Edit a parameter |
| `b` | Edit the JSON body (POST/PUT/PATCH) |
| `a` / `A` | Set / clear the auth token |
| `g` | Grouped or flat view |
| `x` | Show or hide the body section of the request tab |
| `,` | Change the Swagger and base URLs |
| `1` / `2` | Jump to the list / the detail panel |
| `Ctrl+R` | Fetch the document again |
| `y` | Copy the value on the selected response line |
| `q` | Quit |
