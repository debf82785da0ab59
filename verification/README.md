# web_preview

Serves the built sites of the bundled web tools on this machine, each on a port of its own.

The library under `src/` decides and does not act. A decision is a function of what is known so
far: it gives its result, or says what to find out next. The code under `app/` looks at the disk,
listens, and carries the decisions out.

- `text`, `percent`, `mime`: operations on text, percent decoding, content types.
- `place`, `facts`: places in a file system, and what is known about them.
- `roots`, `projects`: where the tools lie, and where the built site of a tool is.
- `request`, `serve`, `embedded`: which file, page or asset answers a request.
- `respond`: the replies, and the `tiny_http` and `axum` responses made of them.
- `preview`: the servers started for the tools, and their addresses.
- `root_laws`, `search_laws`: what the searches come to, and that they end.

Public proof functions whose names begin with `law_` state what holds of the library as a whole.
