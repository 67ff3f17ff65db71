# immich_sync

Synchronisation of Apple shared albums with an Immich server.

- `src/` is the verified library:
  - `text`: string helpers (trimming, suffixes, decimal formatting).
  - `http_status`: the success test and status line of HTTP answers (reqwest's `StatusCode`).
  - `clock`: UTC instants, parsed from and formatted as RFC 3339 by chrono.
  - `immich`: Immich connection settings, data, the request that each API
    operation sends, how each operation reads the answer's status, MIME types.
  - `immich_sync`: service settings, the per-album record of which Apple asset
    corresponds to which Immich asset, the decisions of a sync step, and the
    laws that relate them.
  - `app_config`: the settings file of the sync program and its defaults.
- `app/` is the program around it: the HTTP transport (reqwest), the serde
  forms of the data, the plist settings file, and the sync loop, which runs
  against any source of Apple shared albums.
- `tests/` runs the library on concrete values.
