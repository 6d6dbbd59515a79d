# nt61

User-mode and graphics libraries of a small NT-style kernel, written in
Verus: the state machines, tables, parsers and raster algorithms carry
`requires`/`ensures` contracts that Verus proves.

Layout:

- `src/win32k` — GDI objects and handles, device contexts, surfaces and
  pixel drawing (lines, rectangles, ellipses, block transfers, raster
  operations), text, regions, painting, the window manager, clipboard,
  timers and hooks.
- `src/user32` — window handles, the per-thread message queues, menus,
  dialogs, classes, input state and the gdi32 forwarder table.
- `src/rpcrt4` — UUIDs, string bindings, the binding registry, the server
  and client sides of RPC over LPC, and authentication settings.
- `src/sechost` — ACL, security-descriptor, token, service and event-log
  entry points.
- `src/server` — the start-up checks of the system servers.
- `app/` — the global tables under spin locks, the LPC round trips of RPC
  calls, the waiting message loops, dialog procedures, and the drawing
  that computes in floating point.
- `tests/` — scenarios and the library's laws on concrete values.
