# rust_demos

A collection of small programs whose logic lives in a library verified with
Verus (`src/`), and whose input, output, threads, sockets and port accesses
live in `app/`.

- `src/text.rs`: character-level text operations (trimming, splitting,
  searching, lines, decimal numbers, UTF-8) with exact specifications.
- `src/http/`: an HTTP/1.1 server core: a buffered line reader driven by the
  caller's reads, a request reader taking one step at a time, the order of
  steps in serving a connection, header fields,
  responses and their bytes, handlers, and worker-pool bookkeeping.
- `src/minigrep.rs`: the command line and line search of a `grep`-like tool.
- `src/vga.rs`: VGA text cells, frame buffer segment and mode switch plans.
- The other modules hold the small computations of the remaining programs.

`tests/` exercises the library; `app/` holds the programs' entry points.
