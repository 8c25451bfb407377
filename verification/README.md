# squaremap_server

The rendering backend of squaremap: it talks to the server plugin over an
authenticated, sequenced bridge connection, keeps durable render state,
schedules chunk renders, publishes tiles and JSON views, and serves the web
map over HTTP.

The crate is a Verus project.

- `src/` is the verified library. The backend's decisions that can be held
  apart from the protocol, render and state crates live here with a
  contract: session sequencing, configuration validation and activation,
  control requests, each step of a scheduler-backed control request and the
  render bookkeeping, dirty-chunk replay and world enumeration, the snapshot
  client and its registry generations, job cursors and render dispositions,
  the bridge loop's refusals, message plans and outcomes, path and HTTP
  caching rules, the dev-frontend proxy's URL and websocket rules, the order
  the published views list their entries and which outputs a publication
  drops, the PNG encoder for icons, and the command line.
- `tests/` exercises the library on concrete values.
- `app/` is the program around it: the command line entry point, sockets,
  files, the HTTP server, the asynchronous scheduler and dispatchers, and the
  calls into the protocol, render and state crates, with the bridge loop that
  sequences those calls and the building of the JSON views in the state crate's
  types. It hands plain values to the library and acts on what the library
  decides.

