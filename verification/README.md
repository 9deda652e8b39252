# MultiPlex

Synchronised video shows over many screens. A controller holds a show, a list of
cues, and sends each cue to its clients; a client plays it on a picture made of
two layers, so that the next cue can be loaded unseen and faded in at an agreed
moment.

The library holds the rules of two systems, written in [Verus](https://github.com/verus-lang/verus):
every function in `src/` carries a contract that the verifier proves.

- **MultiPlex** (`src/`) aims cues: a cue can reach all clients, only some, or all
  but some, and says what the others do meanwhile. The controller keeps the layer
  state of each client separately.
- **CueMesh2** (`src/cuemesh/`) is the smaller system in which every cue reaches
  every client. Its client and media pipeline are here too.

## Layout

| Modules | What they hold |
| --- | --- |
| `show`, `show_file`, `color` | shows, what makes one valid, its file format |
| `document` | TOML documents as trees, around the `toml` crate |
| `state`, `protocol`, `dispatch` | the controller's state, its messages, GO and STANDBY per client |
| `console`, `panel`, `picker`, `editing` | what the operator does and sees |
| `identity`, `client_setup`, `known_clients` | who a client is, and whom the controller knows |
| `clock`, `logbook`, `paths`, `text` | time, bounded logs, paths and text |
| `cuemesh::{show, protocol}` | shows and messages of CueMesh2 |
| `cuemesh::{controller, server, console}` | its controller |
| `cuemesh::{client, connection, media, window}` | its client |

Operations take the state and an event and return the messages or commands that
follow, so none of them waits, reads a file or opens a socket. A time is an
argument of the functions whose names end in `_at`; their namesakes read the
clock. Public proof functions whose names begin with `law_` state what holds
across operations.

What is trusted rather than proved: the `toml` crate's reading and writing, with
`serde_json`'s values in between (`document`), `uuid`'s random ids (`identity`) and the system clock (`clock`).
Each stands behind one small function whose contract says what is relied on.

`app/` is the program around the library: files, sockets, windows and the
GStreamer pipeline. `tests/` runs the library on concrete values.
