# eclipse-core

The native core of an editor plug-in that drives a command line assistant: chat turns that run the
assistant once per message, terminal sessions on a pseudo-terminal, and the native entry points of
the plug-in.

- `src/` is the library. It holds the decisions, with contracts proved by Verus: which message
  starts a turn, what the turn's command and environment are, how the assistant's event stream
  becomes callbacks, in which stages a terminal is launched, how its output is read, and how it is
  resized and ended. What the assistant is called in messages is up to the caller.
- `app/` is ordinary Rust around it: the JNI entry points, child processes, pseudo-terminals and
  threads. The tool server, lock files, console embedding, login shell environment and virtual
  terminal are linked in through `app/modules.rs`.
- `tests/` runs the library with the real `serde_json`.

JSON is parsed by `serde_json`. What its parser reads from a text is not spelled out in contracts;
it has a name, `json_text`, and everything that follows is stated of the document that it gives.
