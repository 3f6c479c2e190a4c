# pslinkb

A bridge that lets a PlayStation 5 broadcast to Bilibili live: the console's
stream and chat are redirected to this machine (DNS redirection, an HTTP
proxy relay, or packet redirection on Windows) and the Bilibili login is kept
valid. The library also holds the live room's state machine (when to start
and stop the room, and what to do after each answer) with its drivers; the
program in `app/` runs the redirection, the login and the status service,
and does not itself receive the console's stream or drive the room from it.

## Layout

- `src/` — the library, verified with Verus. Each module states its
  behaviour in `requires`/`ensures` contracts over mathematical models and
  proves it; relations between calls are stated as `law_*` proof functions.
  - `text` — character-level helpers (trimming, splitting, decimal and hex).
  - `biliapi`, `params` — request building and signing, answers' meaning.
  - `cookie`, `login` — login cookies, the QR login poller, start-up checks.
  - `live`, `monitor` — the live room's state machine and the stream
    confirmation.
  - `dns`, `relay`, `packet`, `helper`, `ip` — DNS answers, the TLS relay's
    parsing, port redirection, the redirect helper's protocol, address choice.
  - `luci`, `ubus` — the router status object and its `ubus` frames.
  - `cli`, `log`, `restart`, `error` — options, log lines, backoff, errors.
- `tests/` — tests of the library on concrete values.
- `app/` — the program around the library: sockets, HTTP, files, the
  terminal, timers, and the Windows packet-filter driver interface.
