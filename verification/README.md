# flashwright

Fast Chromium automation from the command line. The first command starts a
daemon, which starts a browser and drives it over the DevTools protocol; later
commands talk to the same daemon.

- `src/` is the verified library. It says how the command line, the scripts, the
  requests and the messages of the browser are read, what is sent, what is
  waited for, and what is answered. It does no input or output: where something
  has to happen outside, a function says what, and takes what came of it.
- `app/` is the program around it: the terminal, sockets, files and processes.
- `tests/` runs the library on concrete values.

The contracts speak of documents, texts and bytes by their views. What
`serde_json` and `base64` compute is named in `src/json.rs` and `src/codec.rs`,
next to the functions that call them.
