# pi_gui

The verified core of the pi desktop GUI backend, written in Verus.

- `src/` is the library. Its functions carry contracts that Verus proves,
  except a handful of small trusted wrappers (see below). It covers session
  bookkeeping and the working-directory decision, the composer and its queue, the JSON UI document and its commands, custom
  provider records, runtime and model listings, extension and skill
  catalogues, settings changes, state persistence, transcript shaping from
  agent events and saved entries, git output parsing, worktrees, file
  completion ranking and the session timeline.
- `src/json.rs` models JSON values exactly (numbers as their decimal text);
  most contracts are stated over its view `JsonV`.
- Calls into std, chrono and uuid that the proofs do not cover sit behind
  small trusted wrappers (`#[verifier::external_body]`): their contracts are
  assumed, not proved, and their doc comments say what is assumed. Two of
  them (the clock readings) state little or nothing of their result.
- `tests/` runs the library on concrete values.
- `app/` is the ordinary Rust around it: file and process I/O, the git and
  pseudo-terminal calls, serde conversions and the state store's locking.
