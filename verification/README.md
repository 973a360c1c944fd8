# alacritty_web

A browser terminal and the WebSocket PTY server it talks to, with the logic
of both verified by Verus.

## Layout

- `src/` — the verified library.
  - `protocol` — the binary WebSocket protocol (data, resize with clamping,
    exit), with round-trip laws.
  - `rate_limit`, `session` — the server's decisions: per-address rate
    limiting, admission, origin allow-list, token authentication (compared in
    constant time through `subtle`), what each client frame asks of the
    session, idle timeout and exit codes.
  - `outbox` — the browser side of the socket: messages that wait for it to
    open, the token sent first, and the PTY output carried by server frames.
  - `colors`, `render`, `runs`, `gpu`, `atlas` — colour resolution and the
    256-colour palette, the layout of a frame (coalesced background, text and
    decoration runs, cursor), the per-cell plan for a GPU renderer and the
    glyph-atlas packer.
  - `events`, `frame`, `input` — terminal events (title, bell, queues), the
    render loop's per-frame decisions, and input encodings (mouse reports,
    bracketed paste, palette entries, colour-query replies).
- `tests/` — tests of the library.
- `app/` — the programs around the library: the PTY server (`server`,
  `server_session`: sockets, PTY, clock) and the wasm32 browser glue (`web`,
  `websocket`: canvas drawing, terminal emulator, JS interop).

The browser terminal draws with Canvas 2D only. The optional wgpu backend is
not built: its frame layout (`gpu::plan_gpu_cells`), glyph cache and atlas
packing are in the library, but the GPU pipeline, surface and texture upload
that would use them are not part of this crate.
