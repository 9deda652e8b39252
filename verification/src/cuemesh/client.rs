//! What a CueMesh2 client keeps: its connection, its playback and its log.

use vstd::prelude::*;

use super::protocol::ClientState;
use crate::logbook;
use crate::logbook::push_bounded;

verus! {

/// How many log lines a client keeps.
pub const LOG_CAP: usize = 200;

/// What the client's player is doing.
#[derive(Debug, Clone, Copy, PartialEq, Eq, Structural)]
pub enum PlaybackState {
    Idle,
    Loading,
    Ready,
    Playing,
    Paused,
    Error,
    Black,
}

impl Default for PlaybackState {
    fn default() -> (r: Self)
        ensures
            r == PlaybackState::Idle,
    {
        PlaybackState::Idle
    }
}

impl PlaybackState {
    /// The state as the controller is told of it.
    pub open spec fn reported(self) -> ClientState {
        match self {
            PlaybackState::Idle => ClientState::Idle,
            PlaybackState::Loading => ClientState::Loading,
            PlaybackState::Ready => ClientState::Ready,
            PlaybackState::Playing => ClientState::Playing,
            PlaybackState::Paused => ClientState::Paused,
            PlaybackState::Error => ClientState::Error,
            PlaybackState::Black => ClientState::Black,
        }
    }

    /// The state's name.
    pub open spec fn label(self) -> Seq<char> {
        match self {
            PlaybackState::Idle => "Idle"@,
            PlaybackState::Loading => "Loading"@,
            PlaybackState::Ready => "Ready"@,
            PlaybackState::Playing => "Playing"@,
            PlaybackState::Paused => "Paused"@,
            PlaybackState::Error => "Error"@,
            PlaybackState::Black => "Black"@,
        }
    }

    /// The state's name.
    pub fn name(self) -> (r: &'static str)
        ensures
            r@ == self.label(),
            match self {
                PlaybackState::Idle => r@ == "Idle"@,
                PlaybackState::Loading => r@ == "Loading"@,
                PlaybackState::Ready => r@ == "Ready"@,
                PlaybackState::Playing => r@ == "Playing"@,
                PlaybackState::Paused => r@ == "Paused"@,
                PlaybackState::Error => r@ == "Error"@,
                PlaybackState::Black => r@ == "Black"@,
            },
    {
        match self {
            PlaybackState::Idle => "Idle",
            PlaybackState::Loading => "Loading",
            PlaybackState::Ready => "Ready",
            PlaybackState::Playing => "Playing",
            PlaybackState::Paused => "Paused",
            PlaybackState::Error => "Error",
            PlaybackState::Black => "Black",
        }
    }
}

impl From<PlaybackState> for ClientState {
    fn from(v: PlaybackState) -> (r: Self) {
        match v {
            PlaybackState::Idle => ClientState::Idle,
            PlaybackState::Loading => ClientState::Loading,
            PlaybackState::Ready => ClientState::Ready,
            PlaybackState::Playing => ClientState::Playing,
            PlaybackState::Paused => ClientState::Paused,
            PlaybackState::Error => ClientState::Error,
            PlaybackState::Black => ClientState::Black,
        }
    }
}

impl vstd::std_specs::convert::FromSpecImpl<PlaybackState> for ClientState {
    open spec fn obeys_from_spec() -> bool {
        true
    }

    open spec fn from_spec(v: PlaybackState) -> ClientState {
        v.reported()
    }
}

/// What the client is playing.
#[derive(Debug, PartialEq, Eq)]
pub struct ClientPlayback {
    pub state: PlaybackState,
    pub current_cue_id: Option<String>,
    pub position_ms: u64,
    /// How opaque each layer is, by the bit pattern of the 32-bit number.
    pub layer_a_alpha_bits: u32,
    pub layer_b_alpha_bits: u32,
    /// The fade-in that a loaded cue set aside for when it starts. Holds one
    /// cue's: only one is loaded at a time.
    pub pending_fade_in_ms: u32,
}

/// The model of a [`ClientPlayback`].
#[verifier::ext_equal]
pub struct PlaybackModel {
    pub state: PlaybackState,
    pub current_cue_id: Option<Seq<char>>,
    pub position_ms: u64,
    pub layer_a_alpha_bits: u32,
    pub layer_b_alpha_bits: u32,
    pub pending_fade_in_ms: u32,
}

impl View for ClientPlayback {
    type V = PlaybackModel;

    open spec fn view(&self) -> PlaybackModel {
        PlaybackModel {
            state: self.state,
            current_cue_id: self.current_cue_id.deep_view(),
            position_ms: self.position_ms,
            layer_a_alpha_bits: self.layer_a_alpha_bits,
            layer_b_alpha_bits: self.layer_b_alpha_bits,
            pending_fade_in_ms: self.pending_fade_in_ms,
        }
    }
}

impl PlaybackModel {
    /// Nothing loaded and nothing shown.
    pub open spec fn idle() -> PlaybackModel {
        PlaybackModel {
            state: PlaybackState::Idle,
            current_cue_id: None,
            position_ms: 0,
            layer_a_alpha_bits: 0,
            layer_b_alpha_bits: 0,
            pending_fade_in_ms: 0,
        }
    }
}

/// Everything a client keeps.
#[derive(Debug)]
pub struct AppState {
    pub client_id: String,
    pub name: String,
    pub controller_addr: String,
    pub connected: bool,
    pub playback: ClientPlayback,
    /// Log lines shown in the window. Bounded: the oldest entries drop.
    pub log_lines: Vec<String>,
}

/// The model of an [`AppState`].
#[verifier::ext_equal]
pub struct ClientModel {
    pub client_id: Seq<char>,
    pub name: Seq<char>,
    pub controller_addr: Seq<char>,
    pub connected: bool,
    pub playback: PlaybackModel,
    pub log_lines: Seq<Seq<char>>,
}

impl View for AppState {
    type V = ClientModel;

    open spec fn view(&self) -> ClientModel {
        ClientModel {
            client_id: self.client_id@,
            name: self.name@,
            controller_addr: self.controller_addr@,
            connected: self.connected,
            playback: self.playback@,
            log_lines: self.log_lines.deep_view(),
        }
    }
}

impl ClientModel {
    /// The state of a client that has just started.
    pub open spec fn fresh() -> ClientModel {
        ClientModel {
            client_id: Seq::empty(),
            name: Seq::empty(),
            controller_addr: Seq::empty(),
            connected: false,
            playback: PlaybackModel::idle(),
            log_lines: Seq::empty(),
        }
    }

    /// The state after one more log line.
    pub open spec fn with_log(self, line: Seq<char>) -> ClientModel {
        ClientModel { log_lines: logbook::logged(self.log_lines, line, LOG_CAP as nat), ..self }
    }

    /// The state with the player in another state.
    pub open spec fn with_state(self, state: PlaybackState) -> ClientModel {
        ClientModel { playback: PlaybackModel { state, ..self.playback }, ..self }
    }
}

impl Default for AppState {
    fn default() -> (r: Self)
        ensures
            r@ == ClientModel::fresh(),
            r.client_id@.len() == 0,
            r.name@.len() == 0,
            r.controller_addr@.len() == 0,
            !r.connected,
            r.playback.state == PlaybackState::Idle,
            r.playback.current_cue_id is None,
            r.playback.position_ms == 0,
            r.playback.layer_a_alpha_bits == 0,
            r.playback.layer_b_alpha_bits == 0,
            r.playback.pending_fade_in_ms == 0,
            r.log_lines@.len() == 0,
    {
        let r = AppState {
            client_id: String::new(),
            name: String::new(),
            controller_addr: String::new(),
            connected: false,
            playback: ClientPlayback {
                state: PlaybackState::Idle,
                current_cue_id: None,
                position_ms: 0,
                layer_a_alpha_bits: 0,
                layer_b_alpha_bits: 0,
                pending_fade_in_ms: 0,
            },
            log_lines: Vec::new(),
        };
        assert(r@ =~= ClientModel::fresh());
        r
    }
}

impl AppState {
    /// Add a line to the log.
    pub fn push_log(&mut self, line: String)
        ensures
            final(self)@ == old(self)@.with_log(line@),
    {
        push_bounded(&mut self.log_lines, line, LOG_CAP);
    }
}

/// A client reports the state its player is in, by the same name.
pub proof fn law_reported_state(state: PlaybackState)
    ensures
        state.reported() == match state {
            PlaybackState::Idle => ClientState::Idle,
            PlaybackState::Loading => ClientState::Loading,
            PlaybackState::Ready => ClientState::Ready,
            PlaybackState::Playing => ClientState::Playing,
            PlaybackState::Paused => ClientState::Paused,
            PlaybackState::Error => ClientState::Error,
            PlaybackState::Black => ClientState::Black,
        },
        state.label() == state.reported().label(),
{
}

/// The log holds the last 200 lines: a line more drops none until there are that
/// many, and then the oldest.
pub proof fn law_log_holds_its_lines(s: ClientModel, line: Seq<char>)
    ensures
        s.log_lines.len() < 200 ==> s.with_log(line).log_lines == s.log_lines.push(line),
        s.log_lines.len() == 200 ==> s.with_log(line).log_lines == s.log_lines.skip(1).push(line),
        s.with_log(line) == (ClientModel { log_lines: s.with_log(line).log_lines, ..s }),
{
    if s.log_lines.len() == 200 {
        assert(s.log_lines.push(line).skip(1) =~= s.log_lines.skip(1).push(line));
    }
}

} // verus!
