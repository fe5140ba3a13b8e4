# NigerianBot

A Discord bot system (music, Sonarr/Radarr, schedules, downloads), its REST API
and dashboard backend, a download worker, a Telegram surface and a cron
scheduler. The decisions these services make are a library verified with Verus;
the services themselves are ordinary Rust around it.

## Layout

- `src/` — the verified library (`nigerianbot`):
  - `config`, `env`, `num` — each service's configuration read from an
    environment snapshot, with exact integer parsing.
  - `auth`, `identity` — PIN rules and bcrypt hashing, the sign-in and
    PIN-change decisions, HS256 tokens and request authentication, roles and
    how a role is resolved.
  - `downloads`, `worker`, `paths` — the download queue: URL checks, bulk
    imports, playlist expansion, episode naming, the cookies check, reading
    yt-dlp's output and the notifications.
  - `media`, `arr_text` — Sonarr/Radarr paths, lookups, add decisions, manual
    imports and the Discord replies built from what the services report.
  - `commands`, `options`, `library`, `schedules`, `telegram` — slash-command
    routing and options, playback controls, the music library listing,
    schedule drafts and every reply text.
  - `text` — the string primitives (trimming, searching, decimal rendering)
    the rest is specified with.
- `app/` — the executable: actix-web handlers, the serenity bot and songbird
  voice pool, the worker loop, the teloxide bot and the cron scheduler. They do
  the I/O (database, HTTP, gateways, processes, the clock) and hand what they
  read to the library; a few float computations (sizes, progress, volume) and
  the command and route declarations stay there too.
- `tests/` — tests of the library on concrete values.

The library states its behaviour as `requires`/`ensures` contracts and proves
them; the laws that relate several functions are public proof functions (for
instance `auth::changed_pin_signs_in`, `commands::control_id_round_trip`,
`downloads::sanitized_title_is_safe`).
