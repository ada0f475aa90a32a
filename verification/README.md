# haxonite

An API mocking server. A `config.toml` file names requests (method, path,
type) and the responses they are answered with; the server answers each
request with one response, a weighted random one, the next one in turn
(`roundrobin`), the next one until the last (`chain`), or static files.

## Layout

- `src/` is the library, verified with Verus:
  - `config.rs`: the configuration model and its defaults;
  - `error.rs`: the errors a configuration is refused with, and their messages;
  - `headers.rs`: which response headers are kept and how they are split;
  - `handlers/`: single, random and iterating responses;
  - `routes.rs`: from a request configuration to a route;
  - `serve.rs`: where the server listens, the routes of a configuration, and
    when a change of the configuration file reloads it;
  - `utils.rs`: the configuration files of new projects and the rendering of
    response bodies.
- `app/` is the program: command line, file access, the HTTP server, and the
  weighted random draw.
- `tests/` runs the library on concrete values.
