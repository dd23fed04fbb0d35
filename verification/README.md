# rye

The logic of a small app framework, written in Verus: a developer console, frame capture,
frame pacing, the event loop's decisions, and the messages between a web page and the
worker that renders for it. Every function of the library carries a contract that Verus
proves.

- `src/` is the library. `console` and `capture` are the two large parts; `runner` decides
  what a frame does; `wasm` holds the page and worker protocol. The files named `laws`
  state what holds of several operations together.
- `app/` is the program around it: the window, the device, files, threads, the browser.
  It performs what the library decides and hands back what happened.
- `tests/` run the library on concrete values.

Times are nanoseconds. Floating-point numbers stay in `app/`, which hands them to the
library as integers or as text; where the library shows a decimal fraction it rounds as
double precision does, on whole numbers (`src/quotient.rs`).

Trusted, not proved: color quantization and resampling by the `color_quant`, `gif` and
`image` crates and `Arc::clone` (`src/capture/palette.rs`), `String::push` (`src/text.rs`)
and `str::parse` (`src/args.rs`).

Paths are text with `/` between their parts; `app/` hands them over so on every system.
