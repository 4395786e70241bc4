# FocusCapture

A plugin that mixes the sound of the application in the foreground into a
microphone stream: one press of a global hotkey starts it, the next stops it.

- `src/` is the library `focus_capture`: everything that decides and computes,
  verified with Verus. It makes no system call and no host call; `serde_json` is
  the only crate that it calls, behind a few declared contracts in `src/json.rs`.
- `app/` is the plugin around it: the C entry points, the threads, the lock-free
  memory of the ring, the arithmetic on samples, and the capture backends for
  Windows (WASAPI process loopback), Linux (PipeWire and X11) and macOS (process
  taps).
- `tests/` runs the library.

## What is proved

- Hotkey combinations are read exactly as documented, each refusal with its
  text.
- The session is a state machine whose every step is stated as a function of its
  state and of what was observed. Every step keeps it consistent; the mixing
  begins only with an open stream, and a session that ends silences it in the
  same step.
- The ring hands every sample over once and in order, drops the newest when it
  is full and the oldest beyond its backlog.
- The rate converter's output does not depend on how its input is cut into
  chunks.
- Format descriptions that are written are read back; a worker lets go of what
  it holds in a safe order, whichever call fails.
