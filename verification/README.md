# CLAP-Host-RS

A standalone CLAP host: load a plugin file, drive the plugin with MIDI, hear it on
an audio device, on the console or in a window.

- `src/` is the library `clap_host`: everything the host decides and computes,
  written in Verus with contracts that are proved.
- `app/` is the program around it: the C interface of plugins, audio and MIDI
  devices, files, threads and the window.
- `tests/` runs the library.

## How the library and the program share the work

The library never touches a device, a file or a plugin. Where an operation
alternates between decisions and outside calls (opening a session, embedding an
editor, listing presets), it is a state machine: `call` says what to do next, the
program does it and hands the answer to `reply`, or to a function that takes the
answer and returns the next call. Each has a law about all runs that can happen, for
example that a session that could not be opened leaves the plugin deactivated, or that
a pump delivers the callback, every due timer and every ready descriptor in this order.

Parameter values and samples travel as bit patterns, addresses as numbers. The
library passes them on and never computes with them.

## Modules

| Module | Subject |
| --- | --- |
| `events`, `queue` | messages to the audio thread, note dialects, output events |
| `audio`, `session` | blocks, channels, devices, rates, opening and closing a stream |
| `loader`, `remote_controls`, `preset`, `state` | what plugins say and keep |
| `host`, `timers`, `posix_fd`, `thread_pool` | what plugins ask of their host |
| `plugin_gui`, `win32_embed`, `gui` | the plugin's window and the host's |
| `scan`, `picker`, `cli`, `report` | finding plugins, arguments, printed lines |
| `text`, `order` | texts, numbers, lexicographic order |

Proof functions whose doc comment begins with "Law" state what holds of several
functions together.

## What is trusted

`queue` rests on the contracts of `crossbeam_queue::ArrayQueue`, used with exclusive
access. Between two threads the program has queues of the same crate, and either side
moves messages from or to a queue of its own, so nobody waits. `text` rests on
`char::is_whitespace`, whose characters it lists, and names the results of three more
functions of the standard library. `events` uses the sizes of four structs of
`clap_sys`.
