# nhl-tui

NHL scores, standings, schedule and leaders in the terminal. The library
under `src/` holds the dashboard's state and rules, verified with Verus; the
binary under `app/` reads the keyboard, talks to the NHL web API
(`https://api-web.nhle.com/v1`) and draws the screen with ratatui.

## Layout

- `src/app.rs` — the dashboard state (`App`), what each key does
  (`handle_key`), how a finished fetch lands (`apply_fetch`), the score
  alert for the favourite team, and `dispatch`, which turns each event of
  the loop into the work the loop must do. Laws about these (navigation
  stays on rows, a day forward and back is the same day, an open boxscore
  takes every key, alerts fire once per goal) are proved at the end.
- `src/tabs.rs` — tabs, standings filters and leader categories, and their
  cycling.
- `src/standings.rs` — the stable sort of the standings table.
- `src/leaders.rs` — the leaders response keyed by category.
- `src/view.rs` — everything the screen shows short of drawing it: scroll
  offsets, state labels, standings and score rows, boxscore tallies and goal
  lines, the schedule layout, titles and the status bar.
- `src/api.rs` — endpoint URLs and the preview used in error messages.
- `src/calendar.rs` — days and times of day, with chrono doing the date
  arithmetic and formatting behind small trusted wrappers.
- `src/models.rs`, `src/config.rs`, `src/text.rs` — the API records, the
  settings, and decimal and padding helpers.
- `app/` — `main`, the terminal loop (`tui.rs`), drawing (`ui.rs`), the
  HTTP client (`client.rs`), serde copies of the models (`wire.rs`) and the
  settings file (`config.rs`).

## Keys

| Key | Action |
|-----|--------|
| `1` `2` `3` `4` | Switch tabs |
| `h` `l` / `←` `→` | Previous/next day (Scores, Schedule), or cycle the filter (Standings, Leaders) |
| `j` `k` / `↓` `↑` | Move the selection |
| `g` `G` / `Home` `End` | Jump to first/last row |
| `Enter` | Open game boxscore |
| `r` | Refresh now |
| `Esc` | Close boxscore, or quit |
| `q` / `Ctrl-C` | Quit, whether or not a boxscore is open |
