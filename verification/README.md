# api2cli

A lightweight server that accepts any HTTP request and forwards it to a CLI application or shell
pipe. Its logic is a library verified with Verus; the program around it is ordinary Rust.

- `src/`: the verified library. What is written for a request, how a request is forwarded and
  answered, which options are in force, how the port is bound.
- `app/`: the program. Command line, files, processes, logging and HTTP.
- `tests/`: tests of the library on concrete values.

## Modes

| `--passthrough` | What is written |
|---|---|
| `body` (default) | the raw request body, followed by a newline |
| `full` | a JSON object with `method`, `path`, `headers` and `body`, on one line |

Without `--command` requests go to stdout; with it they go to the stdin of `sh -c <CMD>`. Without
`--persistent` the server ends when one request has been forwarded. Every request is answered at
once with `200 OK`; the answer does not wait for the program downstream.

Options come from the command line, then from `~/.config/api2cli/config.toml`, then from the
defaults (port 1337, one request, body, log level `info`).

## What is trusted

The library calls `serde_json`, `toml`, `tracing-subscriber`, the header map of `axum`, and two
functions of std. Each call stands behind one item whose doc comment says what is claimed of it.
JSON and TOML are named functions of their input. Of JSON text it is also claimed that it holds no
control characters and that it reads back. A log level that could make `tracing-subscriber` panic
is left out by a condition that the program tests.

`serde_json` is used without its features `raw_value` and `arbitrary_precision`, under which it
takes some member names for marks of its own. This is why `axum` is used without its feature `json`.
