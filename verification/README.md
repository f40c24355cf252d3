# ghcli

A terminal client for one's GitHub repositories: a profile pane, a searchable list of
repositories, and popups to create, clone, delete a repository, add it as a git remote
or open it in the browser.

The library (`src/`) holds the decisions, each with a contract proved by Verus:

- `app`: the state of the interface and how it moves with each key (`App::handle_key`,
  specified mode by mode in `key_step`) and with the outcome of each outside request
  (`finish_*`); selection movement, search, and the laws about them (Esc closes popups,
  deletion only after the exact full name was typed, outside work only on Enter, ...).
- `field`: the one-line text field, edited through `tui_input`.
- `github`: the text work around GitHub and git: the `Link` header walk, the `git clone`
  invocation, error messages that hide the access token, the editor command.
- `screen`: the text of the panes and popups.
- `text`: character-level string operations with their specifications.
- `model`: users, repositories, credentials.

`app/` is the program around it: arguments, the terminal, HTTP through `reqwest`, git as
a subprocess, files on disk, and the drawing with `ratatui`.
