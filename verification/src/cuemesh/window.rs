//! What a CueMesh2 client's window shows.

use vstd::prelude::*;

use super::client::{AppState, ClientModel};
use crate::logbook;
use crate::logbook::log_tail;
use crate::text;
use crate::text::u64_text;

verus! {

/// How many log lines the window shows.
pub const SHOWN_LINES: usize = 80;

/// The lines of a client's window. How opaque the layers are is shown besides.
#[derive(Debug, PartialEq, Eq)]
pub struct WindowText {
    pub who: String,
    pub controller: String,
    pub state: String,
    pub cue: String,
    pub position: String,
    /// The newest log lines, newest first.
    pub log: Vec<String>,
}

/// The line that says where the controller is and whether it is there.
pub open spec fn controller_line(s: ClientModel) -> Seq<char> {
    "controller: "@ + s.controller_addr + "   "@ + if s.connected {
        "● online"@
    } else {
        "○ offline"@
    }
}

/// The line that says which cue is loaded.
pub open spec fn cue_line(s: ClientModel) -> Seq<char> {
    "cue:     "@ + match s.playback.current_cue_id {
        Some(id) => id,
        None => "(none)"@,
    }
}

/// The lines of a client's window.
pub fn window_text(state: &AppState) -> (r: WindowText)
    ensures
        r.who@ == state@.name + "  ("@ + state@.client_id + ")"@,
        r.controller@ == controller_line(state@),
        r.controller@ == "controller: "@ + state.controller_addr@ + "   "@ + if state.connected {
            "● online"@
        } else {
            "○ offline"@
        },
        r.state@ == "state:   "@ + state@.playback.state.label(),
        r.cue@ == cue_line(state@),
        r.cue@ == "cue:     "@ + match state.playback.current_cue_id {
            Some(id) => id@,
            None => "(none)"@,
        },
        r.position@ == "pos:     "@ + text::decimal(state@.playback.position_ms as nat) + " ms"@,
        r.log.deep_view() == logbook::tail_reversed(state@.log_lines, SHOWN_LINES as nat),
{
    WindowText {
        who: state.name.clone().concat("  (").concat(state.client_id.as_str()).concat(")"),
        controller: "controller: ".to_owned().concat(state.controller_addr.as_str()).concat(
            "   ",
        ).concat(
            if state.connected {
                "● online"
            } else {
                "○ offline"
            },
        ),
        state: "state:   ".to_owned().concat(state.playback.state.name()),
        cue: "cue:     ".to_owned().concat(
            match &state.playback.current_cue_id {
                Some(id) => id.as_str(),
                None => "(none)",
            },
        ),
        position: "pos:     ".to_owned().concat(
            u64_text(state.playback.position_ms).as_str(),
        ).concat(" ms"),
        log: log_tail(&state.log_lines, SHOWN_LINES),
    }
}

} // verus!
