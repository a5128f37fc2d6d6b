# hncli navigation library

Verified navigation state of a Hacker News terminal client.

- `src/navigation.rs`: the tab bar (tab selection, its wrap-around moves, the
  screen each tab leads to, the width of a row of tabs, input handling).
- `src/router.rs`: the screens the tab bar tells apart.
- `src/history.rs`: the history kept between sessions (items to resume
  reading, last focused top-level comment per thread), its commands, recency
  ordering and the entry limits enforced when it is written.
- `src/clock.rs`: timestamps and the current time.
- `src/breakpoints.rs`, `src/resume.rs`: the layout of the "resume Item
  reading" screen.
- `app/`: the history file on disk (JSON) and drawing the tab bar in the
  terminal, around the library.
