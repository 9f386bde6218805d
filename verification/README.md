# prinny_shell

The verified core of the Prinny desktop shell (a Tauri host for a Matrix
client), written in Verus, and the thin application around it.

- `src/` — the library, proved by Verus against its `requires`/`ensures`
  contracts (the two platform no-ops, `taskbar::set_overlay` and
  `rich_presence::pipe::remove_stale`, return nothing and have none):
  - `netguard`: private/reserved address checks (IPv4 inside IPv6 included),
    vetting of resolved addresses, the media-host allowlist;
  - `weburl`, `fetch`: URL parts, the recorded homeserver origin, and the
    per-hop redirect policy and body caps of the two remote fetches;
  - `og`: HTML entity decoding, tag attributes and link-preview fields;
  - `notify_icon`: icon cache keys and file names, image formats, and when
    the access token and the address guard apply;
  - `rich_presence`: Discord-RPC framing, the per-connection protocol, the
    last-write-wins activity list, the SET_ACTIVITY echo, slot search and
    bridge bookkeeping;
  - `capture`, `dropped`, `custom_css`, `shell`, `taskbar`: capture
    permissions, one-read-per-drop, the stylesheet watcher's rounds and
    stop, environment and window decisions, and `.ico` parsing.
- `tests/` — tests of the library on concrete values.
- `app/` — the Tauri application: commands, sockets, files, DNS and HTTP,
  which hand plain values to the library and act on what it returns.
