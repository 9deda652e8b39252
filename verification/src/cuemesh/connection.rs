//! A CueMesh2 client's connection: how it greets the controller, what it does
//! on each message, and when it tries again.
//!
//! The network and the media engine are outside. A message turns into commands
//! that are to be carried out in order; each command that can fail is answered
//! by an [`Outcome`], which turns into further commands.

use vstd::prelude::*;

use super::client::{AppState, ClientModel, PlaybackModel, PlaybackState};
use super::protocol::{
    ClientMsg, ClientMsgModel, ClientState, ControllerMsg, ControllerMsgModel, Hello, Layer,
    LoadCue, Status, StatusModel, SyncReply, NORMAL_RATE_BITS,
};
use crate::text;
use crate::text::{copy_option, u64_text};

verus! {

/// Where a client connects, and as whom.
#[derive(Debug, PartialEq, Eq)]
pub struct ConnectionConfig {
    pub controller_url: String,
    pub client_id: String,
    pub name: String,
}

impl ConnectionConfig {
    /// The greeting that opens a connection.
    pub fn hello(&self, protocol_version: u32) -> (r: ClientMsg)
        ensures
            r@ == (ClientMsgModel::Hello {
                client_id: self.client_id@,
                name: self.name@,
                protocol_version,
            }),
    {
        ClientMsg::Hello(
            Hello { client_id: self.client_id.clone(), name: self.name.clone(), protocol_version },
        )
    }
}

/// The shortest and the longest wait (ms) between two attempts to connect.
pub const BACKOFF_START_MS: u64 = 500;

pub const BACKOFF_MAX_MS: u64 = 10_000;

/// The wait after an attempt to connect: what it was grown to, or the shortest
/// after a connection that closed cleanly.
pub open spec fn wait_after(backoff_ms: u64, clean: bool) -> u64 {
    if clean {
        BACKOFF_START_MS
    } else {
        backoff_ms
    }
}

/// The wait grown for the next attempt: doubled, up to the longest.
pub open spec fn grown(wait_ms: u64) -> u64 {
    if wait_ms * 2 < BACKOFF_MAX_MS {
        (wait_ms * 2) as u64
    } else {
        BACKOFF_MAX_MS
    }
}

/// How long to wait after an attempt to connect. Returns the wait and grows
/// `backoff_ms` for the next one.
pub fn next_wait(backoff_ms: &mut u64, clean: bool) -> (r: u64)
    requires
        *old(backoff_ms) <= BACKOFF_MAX_MS,
    ensures
        r == wait_after(*old(backoff_ms), clean),
        *final(backoff_ms) == grown(r),
        *final(backoff_ms) <= BACKOFF_MAX_MS,
{
    let wait_ms: u64 = if clean {
        BACKOFF_START_MS
    } else {
        *backoff_ms
    };
    *backoff_ms =
    if wait_ms * 2 < BACKOFF_MAX_MS {
        wait_ms * 2
    } else {
        BACKOFF_MAX_MS
    };
    wait_ms
}

/// The wait after `failures` failed attempts in a row.
pub open spec fn wait_after_failures(failures: nat) -> u64
    decreases failures,
{
    if failures == 0 {
        BACKOFF_START_MS
    } else {
        grown(wait_after_failures((failures - 1) as nat))
    }
}

/// However often connecting fails, the wait never shrinks and stays between the
/// shortest and the longest.
pub proof fn law_backoff_bounded(failures: nat)
    ensures
        BACKOFF_START_MS <= wait_after_failures(failures) <= BACKOFF_MAX_MS,
        wait_after_failures(failures) <= wait_after_failures(failures + 1),
    decreases failures,
{
    if failures > 0 {
        law_backoff_bounded((failures - 1) as nat);
    }
}

/// Note that the client is about to connect.
pub fn connecting(state: &mut AppState, cfg: &ConnectionConfig)
    ensures
        final(state)@ == old(state)@.with_log("connecting to "@ + cfg.controller_url@),
{
    state.push_log("connecting to ".to_owned().concat(cfg.controller_url.as_str()));
}

/// Note that the client is connected.
pub fn connected(state: &mut AppState)
    ensures
        final(state)@ == (ClientModel { connected: true, ..old(state)@ }).with_log("connected"@),
{
    let ghost before = state@;
    state.connected = true;
    assert(state@ =~= ClientModel { connected: true, ..before });
    state.push_log("connected".to_owned());
}

/// The line that an ended connection leaves in the log.
pub open spec fn ended_line(error: Option<Seq<char>>) -> Seq<char> {
    match error {
        None => "connection closed cleanly"@,
        Some(e) => "connection error: "@ + e,
    }
}

/// Note that the connection has ended, cleanly or by an error.
pub fn disconnected(state: &mut AppState, error: &Option<String>)
    ensures
        final(state)@ == (ClientModel {
            connected: false,
            ..old(state)@.with_log(ended_line(error.deep_view()))
        }),
{
    match error {
        None => {
            state.push_log("connection closed cleanly".to_owned());
        },
        Some(e) => {
            state.push_log("connection error: ".to_owned().concat(e.as_str()));
        },
    }
    let ghost logged = state@;
    state.connected = false;
    assert(state@ =~= ClientModel { connected: false, ..logged });
}

/// What the client's surroundings are to do.
#[derive(Debug, PartialEq, Eq)]
pub enum Command {
    SetVolume { layer: Layer, volume: u8 },
    /// Show a layer fully, or not at all, at once.
    SetAlpha { layer: Layer, opaque: bool },
    /// Point a layer at a media file.
    Load { layer: Layer, file: String, cue_id: String, fade_in_ms: u32 },
    /// Do nothing for this long.
    Wait { ms: u64 },
    Play { layer: Layer },
    Seek { position_ms: u64 },
    SetRate { rate_bits: u32 },
    Pause,
    /// Start to fade a layer in or out, and go on.
    Fade { layer: Layer, opaque: bool, duration_ms: u32 },
    /// Stop once this much time has passed, and go on.
    StopAfter { duration_ms: u32 },
    Stop,
    Send(ClientMsg),
}

/// The model of a [`Command`].
#[verifier::ext_equal]
pub enum CommandModel {
    SetVolume { layer: Layer, volume: u8 },
    SetAlpha { layer: Layer, opaque: bool },
    Load { layer: Layer, file: Seq<char>, cue_id: Seq<char>, fade_in_ms: u32 },
    Wait { ms: u64 },
    Play { layer: Layer },
    Seek { position_ms: u64 },
    SetRate { rate_bits: u32 },
    Pause,
    Fade { layer: Layer, opaque: bool, duration_ms: u32 },
    StopAfter { duration_ms: u32 },
    Stop,
    Send(ClientMsgModel),
}

impl DeepView for Command {
    type V = CommandModel;

    open spec fn deep_view(&self) -> CommandModel {
        match self {
            Command::SetVolume { layer, volume } => CommandModel::SetVolume {
                layer: *layer,
                volume: *volume,
            },
            Command::SetAlpha { layer, opaque } => CommandModel::SetAlpha {
                layer: *layer,
                opaque: *opaque,
            },
            Command::Load { layer, file, cue_id, fade_in_ms } => CommandModel::Load {
                layer: *layer,
                file: file@,
                cue_id: cue_id@,
                fade_in_ms: *fade_in_ms,
            },
            Command::Wait { ms } => CommandModel::Wait { ms: *ms },
            Command::Play { layer } => CommandModel::Play { layer: *layer },
            Command::Seek { position_ms } => CommandModel::Seek { position_ms: *position_ms },
            Command::SetRate { rate_bits } => CommandModel::SetRate { rate_bits: *rate_bits },
            Command::Pause => CommandModel::Pause,
            Command::Fade { layer, opaque, duration_ms } => CommandModel::Fade {
                layer: *layer,
                opaque: *opaque,
                duration_ms: *duration_ms,
            },
            Command::StopAfter { duration_ms } => CommandModel::StopAfter {
                duration_ms: *duration_ms,
            },
            Command::Stop => CommandModel::Stop,
            Command::Send(m) => CommandModel::Send(m@),
        }
    }
}

/// What came of a command; an error in words where it failed.
#[derive(Debug, PartialEq, Eq)]
pub enum Outcome {
    Loaded { layer: Layer, cue_id: String, fade_in_ms: u32, error: Option<String> },
    Played { layer: Layer, error: Option<String> },
    Sought { error: Option<String> },
    RateSet { error: Option<String> },
    Paused { error: Option<String> },
    /// The stop after a fade.
    FadedOut { error: Option<String> },
    Stopped { error: Option<String> },
}

/// The model of an [`Outcome`].
#[verifier::ext_equal]
pub enum OutcomeModel {
    Loaded { layer: Layer, cue_id: Seq<char>, fade_in_ms: u32, error: Option<Seq<char>> },
    Played { layer: Layer, error: Option<Seq<char>> },
    Sought { error: Option<Seq<char>> },
    RateSet { error: Option<Seq<char>> },
    Paused { error: Option<Seq<char>> },
    FadedOut { error: Option<Seq<char>> },
    Stopped { error: Option<Seq<char>> },
}

impl View for Outcome {
    type V = OutcomeModel;

    open spec fn view(&self) -> OutcomeModel {
        match self {
            Outcome::Loaded { layer, cue_id, fade_in_ms, error } => OutcomeModel::Loaded {
                layer: *layer,
                cue_id: cue_id@,
                fade_in_ms: *fade_in_ms,
                error: error.deep_view(),
            },
            Outcome::Played { layer, error } => OutcomeModel::Played {
                layer: *layer,
                error: error.deep_view(),
            },
            Outcome::Sought { error } => OutcomeModel::Sought { error: error.deep_view() },
            Outcome::RateSet { error } => OutcomeModel::RateSet { error: error.deep_view() },
            Outcome::Paused { error } => OutcomeModel::Paused { error: error.deep_view() },
            Outcome::FadedOut { error } => OutcomeModel::FadedOut { error: error.deep_view() },
            Outcome::Stopped { error } => OutcomeModel::Stopped { error: error.deep_view() },
        }
    }
}

/// What the client sees around it when a message arrives.
#[derive(Debug, Clone, Copy, PartialEq, Eq, Structural)]
pub struct Surroundings {
    /// Does the file that the message names exist?
    pub file_exists: bool,
    /// The time at which the message is taken up.
    pub now_ms: u64,
    /// The time at which it is answered.
    pub answered_ms: u64,
}

/// A truth value in words.
pub open spec fn truth(b: bool) -> Seq<char> {
    if b {
        "true"@
    } else {
        "false"@
    }
}

/// The log line of a message, if it leaves one.
pub open spec fn message_line(msg: ControllerMsgModel, around: Surroundings) -> Option<Seq<char>> {
    match msg {
        ControllerMsgModel::HelloAck { controller_name, protocol_version } => Some(
            "controller: "@ + controller_name + " (v"@ + text::decimal(protocol_version as nat)
                + ")"@,
        ),
        ControllerMsgModel::LoadCue(c) => Some(
            "LOAD_CUE "@ + c.cue_id + " → layer "@ + c.layer.label() + "  file="@ + c.file
                + "  exists="@ + truth(around.file_exists) + "  vol="@ + text::decimal(
                c.volume as nat,
            ) + "  fade_in="@ + text::decimal(c.fade_in_ms as nat) + "ms"@,
        ),
        ControllerMsgModel::Crossfade { to_cue_id, duration_ms } => Some(
            "(unimplemented) manual crossfade to "@ + to_cue_id + " in "@ + text::decimal(
                duration_ms as nat,
            ) + "ms"@,
        ),
        ControllerMsgModel::ShowTestscreen => Some("(unimplemented) show testscreen"@),
        _ => None,
    }
}

/// The client's state after a message: it changes by no more than a log line.
/// Everything else waits for the outcome of the commands.
pub open spec fn after_message(
    s: ClientModel,
    msg: ControllerMsgModel,
    around: Surroundings,
) -> ClientModel {
    match message_line(msg, around) {
        Some(line) => s.with_log(line),
        None => s,
    }
}

/// What a message has the client do.
pub open spec fn message_commands(msg: ControllerMsgModel, around: Surroundings) -> Seq<
    CommandModel,
> {
    match msg {
        ControllerMsgModel::LoadCue(c) => seq![
            CommandModel::SetVolume { layer: c.layer, volume: c.volume },
            CommandModel::SetAlpha { layer: c.layer, opaque: c.fade_in_ms == 0 },
            CommandModel::Load {
                layer: c.layer,
                file: c.file,
                cue_id: c.cue_id,
                fade_in_ms: c.fade_in_ms,
            },
        ],
        ControllerMsgModel::PlayAt(p) => if p.master_start_utc_ms > around.now_ms {
            seq![
                CommandModel::Wait { ms: (p.master_start_utc_ms - around.now_ms) as u64 },
                CommandModel::Play { layer: p.layer },
            ]
        } else {
            seq![CommandModel::Play { layer: p.layer }]
        },
        ControllerMsgModel::SeekTo { position_ms } => seq![CommandModel::Seek { position_ms }],
        ControllerMsgModel::SetRate { rate_bits } => seq![CommandModel::SetRate { rate_bits }],
        ControllerMsgModel::SetVolume { layer, volume } => seq![
            CommandModel::SetVolume { layer, volume },
        ],
        ControllerMsgModel::Pause => seq![CommandModel::Pause],
        ControllerMsgModel::Fade { duration_ms } => seq![
            CommandModel::Fade { layer: Layer::A, opaque: false, duration_ms },
            CommandModel::Fade { layer: Layer::B, opaque: false, duration_ms },
            CommandModel::StopAfter { duration_ms },
        ],
        ControllerMsgModel::Stop => seq![CommandModel::Stop],
        ControllerMsgModel::Sync(ping) => seq![
            CommandModel::Send(
                ClientMsgModel::SyncReply(
                    SyncReply {
                        token: ping.token,
                        t1_utc_ms: ping.t1_utc_ms,
                        t2_local_ms: around.now_ms,
                        t3_local_ms: around.answered_ms,
                    },
                ),
            ),
        ],
        _ => Seq::empty(),
    }
}

fn load_line(c: &LoadCue, file_exists: bool) -> (r: String)
    ensures
        Some(r@) == message_line(
            ControllerMsgModel::LoadCue(c@),
            (Surroundings { file_exists, now_ms: 0, answered_ms: 0 }),
        ),
{
    "LOAD_CUE ".to_owned().concat(c.cue_id.as_str()).concat(" → layer ").concat(
        c.layer.name(),
    ).concat("  file=").concat(c.file.as_str()).concat("  exists=").concat(
        if file_exists {
            "true"
        } else {
            "false"
        },
    ).concat("  vol=").concat(u64_text(c.volume as u64).as_str()).concat("  fade_in=").concat(
        u64_text(c.fade_in_ms as u64).as_str(),
    ).concat("ms")
}

/// Take up a message of the controller.
pub fn handle_controller_msg(
    state: &mut AppState,
    msg: &ControllerMsg,
    around: Surroundings,
) -> (r: Vec<Command>)
    ensures
        final(state)@ == after_message(old(state)@, msg@, around),
        r.deep_view() == message_commands(msg@, around),
{
    let mut out: Vec<Command> = Vec::new();
    match msg {
        ControllerMsg::HelloAck(a) => {
            state.push_log(
                "controller: ".to_owned().concat(a.controller_name.as_str()).concat(" (v").concat(
                    u64_text(a.protocol_version as u64).as_str(),
                ).concat(")"),
            );
        },
        ControllerMsg::LoadCue(c) => {
            state.push_log(load_line(c, around.file_exists));
            out.push(Command::SetVolume { layer: c.layer, volume: c.volume });
            out.push(Command::SetAlpha { layer: c.layer, opaque: c.fade_in_ms == 0 });
            out.push(
                Command::Load {
                    layer: c.layer,
                    file: c.file.clone(),
                    cue_id: c.cue_id.clone(),
                    fade_in_ms: c.fade_in_ms,
                },
            );
        },
        ControllerMsg::PlayAt(p) => {
            if p.master_start_utc_ms > around.now_ms {
                out.push(Command::Wait { ms: p.master_start_utc_ms - around.now_ms });
            }
            out.push(Command::Play { layer: p.layer });
        },
        ControllerMsg::SeekTo { position_ms } => {
            out.push(Command::Seek { position_ms: *position_ms });
        },
        ControllerMsg::SetRate { rate_bits } => {
            out.push(Command::SetRate { rate_bits: *rate_bits });
        },
        ControllerMsg::SetVolume { layer, volume } => {
            out.push(Command::SetVolume { layer: *layer, volume: *volume });
        },
        ControllerMsg::Pause => {
            out.push(Command::Pause);
        },
        ControllerMsg::Fade { duration_ms } => {
            out.push(
                Command::Fade { layer: Layer::A, opaque: false, duration_ms: *duration_ms },
            );
            out.push(
                Command::Fade { layer: Layer::B, opaque: false, duration_ms: *duration_ms },
            );
            out.push(Command::StopAfter { duration_ms: *duration_ms });
        },
        ControllerMsg::Stop => {
            out.push(Command::Stop);
        },
        ControllerMsg::Crossfade { to_cue_id, duration_ms } => {
            state.push_log(
                "(unimplemented) manual crossfade to ".to_owned().concat(
                    to_cue_id.as_str(),
                ).concat(" in ").concat(u64_text(*duration_ms as u64).as_str()).concat("ms"),
            );
        },
        ControllerMsg::ShowTestscreen => {
            state.push_log("(unimplemented) show testscreen".to_owned());
        },
        ControllerMsg::RequestStatus => {},
        ControllerMsg::ReadyCheck => {},
        ControllerMsg::Sync(ping) => {
            out.push(
                Command::Send(
                    ClientMsg::SyncReply(
                        SyncReply {
                            token: ping.token,
                            t1_utc_ms: ping.t1_utc_ms,
                            t2_local_ms: around.now_ms,
                            t3_local_ms: around.answered_ms,
                        },
                    ),
                ),
            );
        },
    }
    assert(out.deep_view() =~= message_commands(msg@, around));
    out
}

/// The state with a failure in the log, or else as it was.
pub open spec fn with_failure(s: ClientModel, what: Seq<char>, error: Option<Seq<char>>) -> ClientModel {
    match error {
        Some(e) => s.with_log(what + e),
        None => s,
    }
}

/// The client's state after a command was carried out or failed.
pub open spec fn after_outcome(s: ClientModel, outcome: OutcomeModel) -> ClientModel {
    match outcome {
        OutcomeModel::Loaded { layer, cue_id, fade_in_ms, error: None } => ClientModel {
            playback: PlaybackModel {
                current_cue_id: Some(cue_id),
                state: PlaybackState::Ready,
                pending_fade_in_ms: fade_in_ms,
                ..s.playback
            },
            ..s
        },
        OutcomeModel::Loaded { layer, cue_id, fade_in_ms, error: Some(e) } => s.with_log(
            "load failed: "@ + e,
        ).with_state(PlaybackState::Error),
        OutcomeModel::Played { layer, error: None } => ClientModel {
            playback: PlaybackModel {
                state: PlaybackState::Playing,
                pending_fade_in_ms: 0,
                ..s.playback
            },
            ..s
        },
        OutcomeModel::Played { layer, error: Some(e) } => s.with_log("play failed: "@ + e),
        OutcomeModel::Sought { error } => with_failure(s, "seek failed: "@, error),
        OutcomeModel::RateSet { error } => with_failure(s, "set_rate failed: "@, error),
        OutcomeModel::Paused { error: None } => s.with_state(PlaybackState::Paused),
        OutcomeModel::Paused { error: Some(e) } => s.with_log("pause failed: "@ + e),
        OutcomeModel::FadedOut { error } => with_failure(
            s,
            "post-fade stop failed: "@,
            error,
        ).with_state(PlaybackState::Black),
        OutcomeModel::Stopped { error } => {
            let t = with_failure(s, "stop failed: "@, error).with_state(PlaybackState::Black);
            ClientModel { playback: PlaybackModel { current_cue_id: None, ..t.playback }, ..t }
        },
    }
}

/// What an outcome has the client do.
pub open spec fn outcome_commands(s: ClientModel, outcome: OutcomeModel) -> Seq<CommandModel> {
    match outcome {
        OutcomeModel::Loaded { layer, cue_id, fade_in_ms, error: None } => seq![
            CommandModel::Send(ClientMsgModel::Ready { cue_id, layer }),
        ],
        OutcomeModel::Played { layer, error: None } => if s.playback.pending_fade_in_ms > 0 {
            seq![
                CommandModel::Fade {
                    layer,
                    opaque: true,
                    duration_ms: s.playback.pending_fade_in_ms,
                },
            ]
        } else {
            seq![CommandModel::SetAlpha { layer, opaque: true }]
        },
        _ => Seq::empty(),
    }
}

fn note_failure(state: &mut AppState, what: &str, error: &Option<String>)
    ensures
        final(state)@ == with_failure(old(state)@, what@, error.deep_view()),
{
    if let Some(e) = error {
        state.push_log(what.to_owned().concat(e.as_str()));
    }
}

fn set_state(state: &mut AppState, playback: PlaybackState)
    ensures
        final(state)@ == old(state)@.with_state(playback),
{
    let ghost before = state@;
    state.playback.state = playback;
    assert(state@ =~= before.with_state(playback));
}

/// Take up what came of a command.
pub fn handle_outcome(state: &mut AppState, outcome: &Outcome) -> (r: Vec<Command>)
    ensures
        final(state)@ == after_outcome(old(state)@, outcome@),
        r.deep_view() == outcome_commands(old(state)@, outcome@),
{
    let ghost before = state@;
    let mut out: Vec<Command> = Vec::new();
    match outcome {
        Outcome::Loaded { layer, cue_id, fade_in_ms, error } => {
            match error {
                None => {
                    state.playback.current_cue_id = Some(cue_id.clone());
                    state.playback.state = PlaybackState::Ready;
                    state.playback.pending_fade_in_ms = *fade_in_ms;
                    out.push(
                        Command::Send(ClientMsg::Ready { cue_id: cue_id.clone(), layer: *layer }),
                    );
                },
                Some(e) => {
                    state.push_log("load failed: ".to_owned().concat(e.as_str()));
                    set_state(state, PlaybackState::Error);
                },
            }
        },
        Outcome::Played { layer, error } => {
            match error {
                None => {
                    let fade_in_ms: u32 = state.playback.pending_fade_in_ms;
                    state.playback.state = PlaybackState::Playing;
                    state.playback.pending_fade_in_ms = 0;
                    if fade_in_ms > 0 {
                        out.push(
                            Command::Fade { layer: *layer, opaque: true, duration_ms: fade_in_ms },
                        );
                    } else {
                        out.push(Command::SetAlpha { layer: *layer, opaque: true });
                    }
                },
                Some(e) => {
                    state.push_log("play failed: ".to_owned().concat(e.as_str()));
                },
            }
        },
        Outcome::Sought { error } => {
            note_failure(state, "seek failed: ", error);
        },
        Outcome::RateSet { error } => {
            note_failure(state, "set_rate failed: ", error);
        },
        Outcome::Paused { error } => {
            match error {
                None => {
                    set_state(state, PlaybackState::Paused);
                },
                Some(e) => {
                    state.push_log("pause failed: ".to_owned().concat(e.as_str()));
                },
            }
        },
        Outcome::FadedOut { error } => {
            note_failure(state, "post-fade stop failed: ", error);
            set_state(state, PlaybackState::Black);
        },
        Outcome::Stopped { error } => {
            note_failure(state, "stop failed: ", error);
            set_state(state, PlaybackState::Black);
            state.playback.current_cue_id = None;
        },
    }
    assert(state@ =~= after_outcome(before, outcome@));
    assert(out.deep_view() =~= outcome_commands(before, outcome@));
    out
}

/// What arrived on the connection.
#[derive(Debug, PartialEq, Eq)]
pub enum Frame {
    /// A text, as a message or as the complaint about it.
    Text(Result<ControllerMsg, String>),
    Close,
    /// Reading failed.
    Broken(String),
    Other,
}

/// What to do about a frame.
#[derive(Debug, PartialEq, Eq)]
pub enum Reading {
    /// Take up this message, then read on.
    Handle(ControllerMsg),
    /// Read on.
    Skip,
    /// Read no more.
    Done,
}

/// Decide about a frame, noting in the log what cannot be read.
pub fn read_frame(state: &mut AppState, frame: Frame) -> (r: Reading)
    ensures
        match frame {
            Frame::Text(Ok(m)) => final(state)@ == old(state)@ && r == Reading::Handle(m),
            Frame::Text(Err(e)) => final(state)@ == old(state)@.with_log("bad json: "@ + e@)
                && r == Reading::Skip,
            Frame::Close => final(state)@ == old(state)@ && r == Reading::Done,
            Frame::Broken(e) => final(state)@ == old(state)@.with_log("read error: "@ + e@)
                && r == Reading::Done,
            Frame::Other => final(state)@ == old(state)@ && r == Reading::Skip,
        },
{
    match frame {
        Frame::Text(Ok(m)) => Reading::Handle(m),
        Frame::Text(Err(e)) => {
            state.push_log("bad json: ".to_owned().concat(e.as_str()));
            Reading::Skip
        },
        Frame::Close => Reading::Done,
        Frame::Broken(e) => {
            state.push_log("read error: ".to_owned().concat(e.as_str()));
            Reading::Done
        },
        Frame::Other => Reading::Skip,
    }
}

/// What the media engine shows of itself.
#[derive(Debug, Clone, Copy, PartialEq, Eq, Structural)]
pub struct EngineReading {
    /// Where playback is, if the engine can tell.
    pub position_ms: Option<u64>,
    pub layer_a_alpha_bits: u32,
    pub layer_b_alpha_bits: u32,
}

/// The playback with the engine's reading in it.
pub open spec fn refreshed(p: PlaybackModel, reading: EngineReading) -> PlaybackModel {
    PlaybackModel {
        position_ms: match reading.position_ms {
            Some(ms) => ms,
            None => 0,
        },
        layer_a_alpha_bits: reading.layer_a_alpha_bits,
        layer_b_alpha_bits: reading.layer_b_alpha_bits,
        ..p
    }
}

/// The status that a playback is reported as.
pub open spec fn status_of(p: PlaybackModel) -> StatusModel {
    StatusModel {
        state: p.state.reported(),
        current_cue_id: p.current_cue_id,
        position_ms: p.position_ms,
        rate_bits: NORMAL_RATE_BITS,
        volume: 100,
        layer_a_alpha_bits: p.layer_a_alpha_bits,
        layer_b_alpha_bits: p.layer_b_alpha_bits,
    }
}

/// Note the engine's reading and say what is reported: the status, then a sign
/// of life.
pub fn report(state: &mut AppState, reading: EngineReading) -> (r: (ClientMsg, ClientMsg))
    ensures
        final(state)@ == (ClientModel {
            playback: refreshed(old(state)@.playback, reading),
            ..old(state)@
        }),
        r.0@ == ClientMsgModel::Status(status_of(refreshed(old(state)@.playback, reading))),
        r.1@ == ClientMsgModel::Heartbeat,
{
    let ghost before = state@;
    state.playback.position_ms =
    match reading.position_ms {
        Some(ms) => ms,
        None => 0,
    };
    state.playback.layer_a_alpha_bits = reading.layer_a_alpha_bits;
    state.playback.layer_b_alpha_bits = reading.layer_b_alpha_bits;
    assert(state@ =~= ClientModel {
        playback: refreshed(before.playback, reading),
        ..before
    });
    let status = Status {
        state: ClientState::from(state.playback.state),
        current_cue_id: copy_option(&state.playback.current_cue_id),
        position_ms: state.playback.position_ms,
        rate_bits: NORMAL_RATE_BITS,
        volume: 100,
        layer_a_alpha_bits: state.playback.layer_a_alpha_bits,
        layer_b_alpha_bits: state.playback.layer_b_alpha_bits,
    };
    (ClientMsg::Status(status), ClientMsg::Heartbeat)
}

/// A cue's fade-in is used once: the start right after its load fades it in
/// over that time, and a further start does not fade again.
pub proof fn law_fade_in_used_once(
    s: ClientModel,
    layer: Layer,
    cue_id: Seq<char>,
    fade_in_ms: u32,
)
    ensures
        ({
            let loaded = after_outcome(
                s,
                OutcomeModel::Loaded { layer, cue_id, fade_in_ms, error: None },
            );
            let start = OutcomeModel::Played { layer, error: None };
            let playing = after_outcome(loaded, start);
            &&& fade_in_ms > 0 ==> outcome_commands(loaded, start) =~= seq![
                CommandModel::Fade { layer, opaque: true, duration_ms: fade_in_ms },
            ]
            &&& fade_in_ms == 0 ==> outcome_commands(loaded, start) =~= seq![
                CommandModel::SetAlpha { layer, opaque: true },
            ]
            &&& outcome_commands(playing, start) =~= seq![
                CommandModel::SetAlpha { layer, opaque: true },
            ]
            &&& playing.playback.current_cue_id == Some(cue_id)
            &&& playing.playback.state == PlaybackState::Playing
        }),
{
}

/// After a stop the client is black with no cue, whether or not the engine
/// obeyed.
pub proof fn law_stop_is_black(s: ClientModel, error: Option<Seq<char>>)
    ensures
        after_outcome(s, OutcomeModel::Stopped { error }).playback.state == PlaybackState::Black,
        after_outcome(s, OutcomeModel::Stopped { error }).playback.current_cue_id is None,
{
}

/// A client never starts before the agreed moment, and starts at once when that
/// has passed.
pub proof fn law_play_waits_for_start(play: super::protocol::PlayAt, around: Surroundings)
    ensures
        ({
            let commands = message_commands(ControllerMsgModel::PlayAt(play), around);
            &&& commands.last() == (CommandModel::Play { layer: play.layer })
            &&& play.master_start_utc_ms > around.now_ms ==> commands.len() == 2 && commands[0] == (
            CommandModel::Wait { ms: (play.master_start_utc_ms - around.now_ms) as u64 })
            &&& play.master_start_utc_ms <= around.now_ms ==> commands.len() == 1
        }),
{
}

/// Each failed attempt doubles the wait, up to ten seconds; the first is half a
/// second, and so is the one after a connection that closed cleanly.
pub proof fn law_backoff_doubles(wait_ms: u64, failures: nat)
    requires
        wait_ms <= BACKOFF_MAX_MS,
    ensures
        wait_ms <= 5000 ==> grown(wait_ms) == 2 * wait_ms,
        wait_ms > 5000 ==> grown(wait_ms) == 10_000,
        wait_after(wait_ms, true) == 500,
        wait_after(wait_ms, false) == wait_ms,
        wait_after_failures(0) == 500,
        wait_after_failures(failures + 1) == grown(wait_after_failures(failures)),
{
}

/// A cue that is to be loaded sets its layer's volume, hides the layer if it is
/// to fade in and shows it if it is not, and loads its file there; nothing else.
pub proof fn law_load_prepares_the_layer(c: super::protocol::LoadCueModel, around: Surroundings)
    ensures
        ({
            let commands = message_commands(ControllerMsgModel::LoadCue(c), around);
            &&& commands.len() == 3
            &&& commands[0] == (CommandModel::SetVolume { layer: c.layer, volume: c.volume })
            &&& c.fade_in_ms > 0 ==> commands[1] == (CommandModel::SetAlpha {
                layer: c.layer,
                opaque: false,
            })
            &&& c.fade_in_ms == 0 ==> commands[1] == (CommandModel::SetAlpha {
                layer: c.layer,
                opaque: true,
            })
            &&& commands[2] matches CommandModel::Load { layer, file, cue_id, fade_in_ms }
            &&& layer == c.layer
            &&& file == c.file
            &&& cue_id == c.cue_id
            &&& fade_in_ms == c.fade_in_ms
        }),
{
}

/// A fade takes both layers out over its time, and stops once that has passed.
pub proof fn law_fade_takes_both_layers_out(duration_ms: u32, around: Surroundings, layer: Layer)
    ensures
        ({
            let commands = message_commands(ControllerMsgModel::Fade { duration_ms }, around);
            &&& commands.len() == 3
            &&& exists|k: int|
                0 <= k < 2 && #[trigger] commands[k] == (CommandModel::Fade {
                    layer,
                    opaque: false,
                    duration_ms,
                })
            &&& commands[2] == CommandModel::StopAfter { duration_ms }
        }),
{
    let commands = message_commands(ControllerMsgModel::Fade { duration_ms }, around);
    match layer {
        Layer::A => {
            assert(commands[0] == (CommandModel::Fade { layer, opaque: false, duration_ms }));
        },
        Layer::B => {
            assert(commands[1] == (CommandModel::Fade { layer, opaque: false, duration_ms }));
        },
    }
}

/// A ping is answered with its own token and time, the time it was taken up and
/// the time it is answered.
pub proof fn law_ping_is_answered(ping: super::protocol::SyncPing, around: Surroundings)
    ensures
        ({
            let commands = message_commands(ControllerMsgModel::Sync(ping), around);
            &&& commands.len() == 1
            &&& commands[0] matches CommandModel::Send(ClientMsgModel::SyncReply(reply))
            &&& reply.token == ping.token
            &&& reply.t1_utc_ms == ping.t1_utc_ms
            &&& reply.t2_local_ms == around.now_ms
            &&& reply.t3_local_ms == around.answered_ms
        }),
{
}

/// Seeking, setting the rate or a layer's volume, pausing and stopping each have
/// the client do just that. What only asks or announces has it do nothing.
pub proof fn law_plain_messages(
    around: Surroundings,
    position_ms: u64,
    rate_bits: u32,
    layer: Layer,
    volume: u8,
    name: Seq<char>,
    number: u32,
)
    ensures
        message_commands(ControllerMsgModel::SeekTo { position_ms }, around) =~= seq![
            CommandModel::Seek { position_ms },
        ],
        message_commands(ControllerMsgModel::SetRate { rate_bits }, around) =~= seq![
            CommandModel::SetRate { rate_bits },
        ],
        message_commands(ControllerMsgModel::SetVolume { layer, volume }, around) =~= seq![
            CommandModel::SetVolume { layer, volume },
        ],
        message_commands(ControllerMsgModel::Pause, around) =~= seq![CommandModel::Pause],
        message_commands(ControllerMsgModel::Stop, around) =~= seq![CommandModel::Stop],
        message_commands(
            ControllerMsgModel::HelloAck { controller_name: name, protocol_version: number },
            around,
        ).len() == 0,
        message_commands(
            ControllerMsgModel::Crossfade { to_cue_id: name, duration_ms: number },
            around,
        ).len() == 0,
        message_commands(ControllerMsgModel::ShowTestscreen, around).len() == 0,
        message_commands(ControllerMsgModel::RequestStatus, around).len() == 0,
        message_commands(ControllerMsgModel::ReadyCheck, around).len() == 0,
{
}

/// A message changes nothing of the client but its log, and most not even that.
/// The lines say who the controller is, what is loaded, and what the client does
/// not do.
pub proof fn law_message_leaves_a_line_at_most(
    s: ClientModel,
    msg: ControllerMsgModel,
    around: Surroundings,
)
    ensures
        ({
            let t = after_message(s, msg, around);
            let line = match msg {
                ControllerMsgModel::HelloAck { controller_name, protocol_version } => Some(
                    "controller: "@ + controller_name + " (v"@ + text::decimal(
                        protocol_version as nat,
                    ) + ")"@,
                ),
                ControllerMsgModel::LoadCue(c) => Some(
                    "LOAD_CUE "@ + c.cue_id + " → layer "@ + (if c.layer == Layer::A {
                        "A"@
                    } else {
                        "B"@
                    }) + "  file="@ + c.file + "  exists="@ + (if around.file_exists {
                        "true"@
                    } else {
                        "false"@
                    }) + "  vol="@ + text::decimal(c.volume as nat) + "  fade_in="@ + text::decimal(
                        c.fade_in_ms as nat,
                    ) + "ms"@,
                ),
                ControllerMsgModel::Crossfade { to_cue_id, duration_ms } => Some(
                    "(unimplemented) manual crossfade to "@ + to_cue_id + " in "@ + text::decimal(
                        duration_ms as nat,
                    ) + "ms"@,
                ),
                ControllerMsgModel::ShowTestscreen => Some("(unimplemented) show testscreen"@),
                _ => None,
            };
            &&& t == (ClientModel { log_lines: t.log_lines, ..s })
            &&& line is None ==> t.log_lines == s.log_lines
            &&& line is Some ==> t.log_lines.len() > 0 && t.log_lines.last() == line->0
        }),
{
}

/// A loaded cue is the current one, ready, with its fade-in set aside, and the
/// controller is told that it is ready on its layer. A load that failed leaves
/// the client in error and says nothing to the controller.
pub proof fn law_what_a_load_gives(
    s: ClientModel,
    layer: Layer,
    cue_id: Seq<char>,
    fade_in_ms: u32,
    error: Option<Seq<char>>,
)
    ensures
        ({
            let outcome = OutcomeModel::Loaded { layer, cue_id, fade_in_ms, error };
            let t = after_outcome(s, outcome);
            let commands = outcome_commands(s, outcome);
            &&& t == (ClientModel { playback: t.playback, log_lines: t.log_lines, ..s })
            &&& t.playback.position_ms == s.playback.position_ms
            &&& t.playback.layer_a_alpha_bits == s.playback.layer_a_alpha_bits
            &&& t.playback.layer_b_alpha_bits == s.playback.layer_b_alpha_bits
            &&& error is None ==> {
                &&& t.playback.current_cue_id == Some(cue_id)
                &&& t.playback.state == PlaybackState::Ready
                &&& t.playback.pending_fade_in_ms == fade_in_ms
                &&& t.log_lines == s.log_lines
                &&& commands =~= seq![CommandModel::Send(ClientMsgModel::Ready { cue_id, layer })]
            }
            &&& error is Some ==> {
                &&& t.playback.current_cue_id == s.playback.current_cue_id
                &&& t.playback.state == PlaybackState::Error
                &&& t.playback.pending_fade_in_ms == s.playback.pending_fade_in_ms
                &&& t.log_lines.len() > 0
                &&& t.log_lines.last() == "load failed: "@ + error->0
                &&& commands.len() == 0
            }
        }),
{
}

/// A cue that started is playing, and fades in over the time set aside, once, or
/// is shown at once where there is none; one that could not start changes
/// nothing.
pub proof fn law_what_a_start_gives(s: ClientModel, layer: Layer, error: Option<Seq<char>>)
    ensures
        ({
            let outcome = OutcomeModel::Played { layer, error };
            let t = after_outcome(s, outcome);
            let commands = outcome_commands(s, outcome);
            let fade = s.playback.pending_fade_in_ms;
            &&& t == (ClientModel { playback: t.playback, log_lines: t.log_lines, ..s })
            &&& t.playback.current_cue_id == s.playback.current_cue_id
            &&& t.playback.position_ms == s.playback.position_ms
            &&& error is None ==> {
                &&& t.playback.state == PlaybackState::Playing
                &&& t.playback.pending_fade_in_ms == 0
                &&& t.log_lines == s.log_lines
                &&& commands.len() == 1
                &&& fade > 0 ==> commands[0] == (CommandModel::Fade {
                    layer,
                    opaque: true,
                    duration_ms: fade,
                })
                &&& fade == 0 ==> commands[0] == (CommandModel::SetAlpha { layer, opaque: true })
            }
            &&& error is Some ==> {
                &&& t.playback == s.playback
                &&& t.log_lines.len() > 0
                &&& t.log_lines.last() == "play failed: "@ + error->0
                &&& commands.len() == 0
            }
        }),
{
}

/// What the other commands leave behind: a pause that worked a paused client; a
/// stop, worked or not, a black one, without a cue unless it came after a fade;
/// a seek or a rate nothing. Each that failed leaves a line, and none has the
/// client do anything.
pub proof fn law_what_other_commands_give(s: ClientModel, error: Option<Seq<char>>)
    ensures
        ({
            let sought = after_outcome(s, OutcomeModel::Sought { error });
            let rated = after_outcome(s, OutcomeModel::RateSet { error });
            let paused = after_outcome(s, OutcomeModel::Paused { error });
            let faded = after_outcome(s, OutcomeModel::FadedOut { error });
            let stopped = after_outcome(s, OutcomeModel::Stopped { error });
            &&& sought.playback == s.playback
            &&& rated.playback == s.playback
            &&& paused.playback == if error is None {
                PlaybackModel { state: PlaybackState::Paused, ..s.playback }
            } else {
                s.playback
            }
            &&& faded.playback == PlaybackModel { state: PlaybackState::Black, ..s.playback }
            &&& stopped.playback == PlaybackModel {
                state: PlaybackState::Black,
                current_cue_id: None,
                ..s.playback
            }
            &&& error is None ==> {
                &&& sought == s
                &&& rated == s
                &&& paused.log_lines == s.log_lines
                &&& faded.log_lines == s.log_lines
                &&& stopped.log_lines == s.log_lines
            }
            &&& error is Some ==> {
                &&& sought.log_lines.last() == "seek failed: "@ + error->0
                &&& rated.log_lines.last() == "set_rate failed: "@ + error->0
                &&& paused.log_lines.last() == "pause failed: "@ + error->0
                &&& faded.log_lines.last() == "post-fade stop failed: "@ + error->0
                &&& stopped.log_lines.last() == "stop failed: "@ + error->0
            }
        }),
        outcome_commands(s, OutcomeModel::Sought { error }).len() == 0,
        outcome_commands(s, OutcomeModel::RateSet { error }).len() == 0,
        outcome_commands(s, OutcomeModel::Paused { error }).len() == 0,
        outcome_commands(s, OutcomeModel::FadedOut { error }).len() == 0,
        outcome_commands(s, OutcomeModel::Stopped { error }).len() == 0,
{
}

/// What is reported is what the player does and where it is, by the engine's
/// reading (the start, where it cannot tell), at normal rate and full volume.
/// Nothing else of the playback changes.
pub proof fn law_what_is_reported(p: PlaybackModel, reading: EngineReading)
    ensures
        ({
            let q = refreshed(p, reading);
            let status = status_of(q);
            &&& q.position_ms == if reading.position_ms is Some {
                reading.position_ms->0
            } else {
                0
            }
            &&& q.layer_a_alpha_bits == reading.layer_a_alpha_bits
            &&& q.layer_b_alpha_bits == reading.layer_b_alpha_bits
            &&& q.state == p.state
            &&& q.current_cue_id == p.current_cue_id
            &&& q.pending_fade_in_ms == p.pending_fade_in_ms
            &&& status.state == p.state.reported()
            &&& status.current_cue_id == p.current_cue_id
            &&& status.position_ms == q.position_ms
            &&& status.rate_bits == 0x3F80_0000
            &&& status.volume == 100
            &&& status.layer_a_alpha_bits == reading.layer_a_alpha_bits
            &&& status.layer_b_alpha_bits == reading.layer_b_alpha_bits
        }),
{
}

/// The line of a connection that ended says whether it closed cleanly, and else
/// why not.
pub proof fn law_ended_line(error: Seq<char>)
    ensures
        ended_line(None) == "connection closed cleanly"@,
        ended_line(Some(error)) == "connection error: "@ + error,
{
}

} // verus!
