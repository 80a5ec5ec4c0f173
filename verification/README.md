# mascot_render

The logic of a desktop mascot server, written in Verus and proved against
its contracts: control requests and their validation, the HTTP control
protocol, the status the server publishes, the skin cache, cached variation
paths, workspace paths and the self-update script, the favorite shuffle,
character resolution, hot reload decisions, ensemble entries, log lines and
the timing traces of control commands.

Layout:

- `src/` — the verified library, one module per concern (`command`,
  `control`, `status`, `skin_cache`, `variation`, `workspace`,
  `favorite_shuffle`, `character`, `reload`, `perf_trace`, `server_log`,
  `skin_state`, `shortcuts`, `cli`, `target`, `ensemble_entries`, `gallery`,
  `scale_persist`, with `text` and `path_text` as shared helpers).
- `tests/` — tests of the library on concrete values.
- `app/` — the binary around the library: command-line parsing, the TCP
  control server, file and process work, JSON forms of the request and
  status types, and the floating-point layout arithmetic.

Paths are handled as text in which both `/` and `\` separate components
and a drive prefix such as `C:\` starts an absolute path; paths are compared
and stripped by their components, as `std::path` does; scales and positions that the
library keeps are stored as the bits of their `f32` values.
