# ludex

A playtime tracker for Linux desktops. It notices when games start and
stop (Steam's content log, KWin foreground windows checked against
`/proc`), keeps one session per game, measures each session's full and
interactive runtime (idle time beyond a per-interval grace is not
interactive), and fills in each application's identity from desktop
entries, PE version resources, GOG info files, the Heroic and Lutris
libraries and Steam app manifests.

## Layout

- `src/` — the library, verified with Verus. Each module states its
  behaviour over spec functions and proves it:
  - `text`, `paths`, `vdf`: strings, path components, Steam's KeyValues.
  - `proc`: parsers for `/proc/<pid>/{environ,maps,fdinfo,stat}`.
  - `gate`: whether a foreground process is a game.
  - `sources::kwin`: the foreground-window state machine;
    `sources::steam`: the content-log and manifest logic.
  - `idle`, `idle_wayland`, `sleep`, `clock`: idle and suspend accounting.
  - `session`, `key`, `config`, `api`: open sessions, game keys, settings.
  - `enrich`: the identity sources and the cascade that merges them.
- `app/` — the daemon around the library: `/proc` and file reads, D-Bus
  (KWin script callback, logind), Wayland idle notifications, the
  inotify-driven log tail, and the event loops.
- `tests/` — tests of the library on concrete values.
