# champ

The core of CHAMP, a local web development stack (Caddy, PHP, MySQL or
MariaDB, PostgreSQL, phpMyAdmin or Adminer), written in Verus. The library's
functions carry contracts that the verifier proves, with a few exceptions
that are believed rather than proved: small wrappers around the SHA-256
digest (`sha2`), Unicode lowercasing, `String::push`, and the display texts
of I/O and JSON errors. Each of them says in its doc comment what it
claims.

## Layout

- `src/` — the verified library.
  - `service`, `manager`: the services, their states and ports, and the
    process manager's state machine (start, stop, health).
  - `ports`, `settings`, `constants`: port selection with fallbacks,
    settings validation, limits and timeouts.
  - `htaccess`, `caddyfile`: `.htaccess` compatibility rules and the
    generated Caddyfile.
  - `packages`, `catalog`, `downloader`: the runtime catalog, its refresh from
    upstream release data, download URLs, checks and installed markers.
  - `locator`, `launch`, `platform`, `php_config`, `db_tool`: where the
    runtimes are, how they are launched and stopped, their configuration
    files, and the database tool set-up.
  - `tunnel`: the HTTPS preview through a Cloudflare quick tunnel.
  - `commands`, `metrics`, `error`, `text`: the command-level checks, traffic
    counters, error messages and text helpers.
- `tests/` — tests of the library on concrete values.
- `app/` — a command-line program around the library: file system,
  processes, network and JSON.

Verify with Verus; build and test with Cargo.
