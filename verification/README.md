# rmus

A terminal music player for MP3 libraries. Point it at a directory of MP3s, browse by artist and
album in two panes, and play.

Everything that can be decided without a terminal, a disk, a database or a sound device lives in
`src/` and is verified with Verus:

- `library`, `order`: grouping songs by artist and sorting them for display
- `tags`, `scan`: finding MP3 files and reading their tags
- `db`: the rows in which songs are stored
- `search`: case-insensitive search, best matches first
- `app`: what each key does; `model` is the state machine that its contracts speak of
- `player`: the player's commands and status
- `ui`: the text of every row on screen
- `laws`: what holds across several keys and reports
- `text`, `time`: strings and spans of time

`app/` is the program around it. It draws with ratatui, plays with rodio, stores with rusqlite, and
does what the library tells it to. `tests/` runs the library on concrete values.

## Keys

| Key         | Action                                          |
|-------------|-------------------------------------------------|
| `j` / `k`   | Move selection down / up                        |
| `g` / `Home`| Jump to first item                              |
| `G` / `End` | Jump to last item                               |
| `h` / `l`   | Focus the artists / songs pane                  |
| `Enter`     | Play the selected artist or song                |
| `c`         | Toggle play/pause                               |
| `x`         | Restart the current track                       |
| `z` / `v`   | Previous / next track of the artist             |
| `↑` / `↓`   | Volume up / down                                |
| `/`         | Search the active pane; `n` / `N` cycle matches |
| `:`         | Enter a command: `add <path>`, `clear`, `quit`  |
| `Esc`       | Cancel input; pressed twice, quit               |
