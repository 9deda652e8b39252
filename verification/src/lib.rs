//! Synchronised video shows over many screens: a controller sends cues to
//! clients, each of which plays them on a two-layer picture.
//!
//! MultiPlex aims each cue at some of the clients, so its controller keeps the
//! crossfade state of every client. The [`cuemesh`] module holds CueMesh2, its
//! smaller sibling, in which every cue goes to every client.
//!
//! Every operation is a function from state and event to next state and
//! messages; files, sockets, windows and the media pipeline are outside.

use vstd::prelude::*;

pub mod client_setup;
pub mod clock;
pub mod color;
pub mod console;
pub mod cuemesh;
pub mod dispatch;
pub mod document;
pub mod editing;
pub mod identity;
pub mod known_clients;
pub mod logbook;
pub mod panel;
pub mod paths;
pub mod picker;
pub mod protocol;
pub mod show;
pub mod show_file;
pub mod state;
pub mod text;

verus! {

} // verus!
