//! The messages that a CueMesh2 controller and its clients exchange.
//!
//! Playback rates and layer alphas are floating-point numbers on the wire; here
//! each is held by the bit pattern of its 32-bit form.

use vstd::prelude::*;

pub use crate::protocol::{ClientState, Layer};

verus! {

/// The bit pattern of the rate 1.0: normal speed.
pub const NORMAL_RATE_BITS: u32 = 0x3F80_0000;

/// The controller's answer to a client's greeting.
#[derive(Debug, PartialEq, Eq)]
pub struct HelloAck {
    pub controller_name: String,
    pub protocol_version: u32,
}

/// Have a cue decoded and ready on a layer.
#[derive(Debug, PartialEq, Eq)]
pub struct LoadCue {
    pub cue_id: String,
    pub layer: Layer,
    pub file: String,
    pub start_ms: Option<u64>,
    pub end_ms: Option<u64>,
    pub volume: u8,
    pub fade_in_ms: u32,
    pub fade_out_ms: u32,
    pub crossfade_to_next_ms: u32,
}

/// The model of a [`LoadCue`].
#[verifier::ext_equal]
pub struct LoadCueModel {
    pub cue_id: Seq<char>,
    pub layer: Layer,
    pub file: Seq<char>,
    pub start_ms: Option<u64>,
    pub end_ms: Option<u64>,
    pub volume: u8,
    pub fade_in_ms: u32,
    pub fade_out_ms: u32,
    pub crossfade_to_next_ms: u32,
}

impl View for LoadCue {
    type V = LoadCueModel;

    open spec fn view(&self) -> LoadCueModel {
        LoadCueModel {
            cue_id: self.cue_id@,
            layer: self.layer,
            file: self.file@,
            start_ms: self.start_ms,
            end_ms: self.end_ms,
            volume: self.volume,
            fade_in_ms: self.fade_in_ms,
            fade_out_ms: self.fade_out_ms,
            crossfade_to_next_ms: self.crossfade_to_next_ms,
        }
    }
}

impl Clone for LoadCue {
    fn clone(&self) -> (r: Self)
        ensures
            r@ == self@,
    {
        LoadCue {
            cue_id: self.cue_id.clone(),
            layer: self.layer,
            file: self.file.clone(),
            start_ms: self.start_ms,
            end_ms: self.end_ms,
            volume: self.volume,
            fade_in_ms: self.fade_in_ms,
            fade_out_ms: self.fade_out_ms,
            crossfade_to_next_ms: self.crossfade_to_next_ms,
        }
    }
}

/// Start a loaded layer at an agreed moment.
#[derive(Debug, Clone, Copy, PartialEq, Eq, Structural)]
pub struct PlayAt {
    pub layer: Layer,
    pub master_start_utc_ms: u64,
}

/// One ping of the clock measurement.
#[derive(Debug, Clone, Copy, PartialEq, Eq, Structural)]
pub struct SyncPing {
    pub t1_utc_ms: u64,
    pub token: u64,
}

/// A message from the controller to a client.
#[derive(Debug, PartialEq, Eq)]
pub enum ControllerMsg {
    HelloAck(HelloAck),
    LoadCue(LoadCue),
    PlayAt(PlayAt),
    SeekTo { position_ms: u64 },
    SetRate { rate_bits: u32 },
    SetVolume { layer: Layer, volume: u8 },
    Pause,
    Fade { duration_ms: u32 },
    Stop,
    Crossfade { to_cue_id: String, duration_ms: u32 },
    ShowTestscreen,
    RequestStatus,
    ReadyCheck,
    Sync(SyncPing),
}

/// The model of a [`ControllerMsg`].
#[verifier::ext_equal]
pub enum ControllerMsgModel {
    HelloAck { controller_name: Seq<char>, protocol_version: u32 },
    LoadCue(LoadCueModel),
    PlayAt(PlayAt),
    SeekTo { position_ms: u64 },
    SetRate { rate_bits: u32 },
    SetVolume { layer: Layer, volume: u8 },
    Pause,
    Fade { duration_ms: u32 },
    Stop,
    Crossfade { to_cue_id: Seq<char>, duration_ms: u32 },
    ShowTestscreen,
    RequestStatus,
    ReadyCheck,
    Sync(SyncPing),
}

impl View for ControllerMsg {
    type V = ControllerMsgModel;

    open spec fn view(&self) -> ControllerMsgModel {
        match self {
            ControllerMsg::HelloAck(a) => ControllerMsgModel::HelloAck {
                controller_name: a.controller_name@,
                protocol_version: a.protocol_version,
            },
            ControllerMsg::LoadCue(l) => ControllerMsgModel::LoadCue(l@),
            ControllerMsg::PlayAt(p) => ControllerMsgModel::PlayAt(*p),
            ControllerMsg::SeekTo { position_ms } => ControllerMsgModel::SeekTo {
                position_ms: *position_ms,
            },
            ControllerMsg::SetRate { rate_bits } => ControllerMsgModel::SetRate {
                rate_bits: *rate_bits,
            },
            ControllerMsg::SetVolume { layer, volume } => ControllerMsgModel::SetVolume {
                layer: *layer,
                volume: *volume,
            },
            ControllerMsg::Pause => ControllerMsgModel::Pause,
            ControllerMsg::Fade { duration_ms } => ControllerMsgModel::Fade {
                duration_ms: *duration_ms,
            },
            ControllerMsg::Stop => ControllerMsgModel::Stop,
            ControllerMsg::Crossfade { to_cue_id, duration_ms } => ControllerMsgModel::Crossfade {
                to_cue_id: to_cue_id@,
                duration_ms: *duration_ms,
            },
            ControllerMsg::ShowTestscreen => ControllerMsgModel::ShowTestscreen,
            ControllerMsg::RequestStatus => ControllerMsgModel::RequestStatus,
            ControllerMsg::ReadyCheck => ControllerMsgModel::ReadyCheck,
            ControllerMsg::Sync(p) => ControllerMsgModel::Sync(*p),
        }
    }
}

impl Clone for ControllerMsg {
    fn clone(&self) -> (r: Self)
        ensures
            r@ == self@,
    {
        match self {
            ControllerMsg::HelloAck(a) => ControllerMsg::HelloAck(
                HelloAck {
                    controller_name: a.controller_name.clone(),
                    protocol_version: a.protocol_version,
                },
            ),
            ControllerMsg::LoadCue(l) => ControllerMsg::LoadCue(l.clone()),
            ControllerMsg::PlayAt(p) => ControllerMsg::PlayAt(*p),
            ControllerMsg::SeekTo { position_ms } => ControllerMsg::SeekTo {
                position_ms: *position_ms,
            },
            ControllerMsg::SetRate { rate_bits } => ControllerMsg::SetRate {
                rate_bits: *rate_bits,
            },
            ControllerMsg::SetVolume { layer, volume } => ControllerMsg::SetVolume {
                layer: *layer,
                volume: *volume,
            },
            ControllerMsg::Pause => ControllerMsg::Pause,
            ControllerMsg::Fade { duration_ms } => ControllerMsg::Fade {
                duration_ms: *duration_ms,
            },
            ControllerMsg::Stop => ControllerMsg::Stop,
            ControllerMsg::Crossfade { to_cue_id, duration_ms } => ControllerMsg::Crossfade {
                to_cue_id: to_cue_id.clone(),
                duration_ms: *duration_ms,
            },
            ControllerMsg::ShowTestscreen => ControllerMsg::ShowTestscreen,
            ControllerMsg::RequestStatus => ControllerMsg::RequestStatus,
            ControllerMsg::ReadyCheck => ControllerMsg::ReadyCheck,
            ControllerMsg::Sync(p) => ControllerMsg::Sync(*p),
        }
    }
}

/// A client's greeting.
#[derive(Debug, PartialEq, Eq)]
pub struct Hello {
    pub client_id: String,
    pub name: String,
    pub protocol_version: u32,
}

/// What a client is doing.
#[derive(Debug, PartialEq, Eq)]
pub struct Status {
    pub state: ClientState,
    pub current_cue_id: Option<String>,
    pub position_ms: u64,
    pub rate_bits: u32,
    pub volume: u8,
    pub layer_a_alpha_bits: u32,
    pub layer_b_alpha_bits: u32,
}

/// The model of a [`Status`].
#[verifier::ext_equal]
pub struct StatusModel {
    pub state: ClientState,
    pub current_cue_id: Option<Seq<char>>,
    pub position_ms: u64,
    pub rate_bits: u32,
    pub volume: u8,
    pub layer_a_alpha_bits: u32,
    pub layer_b_alpha_bits: u32,
}

impl View for Status {
    type V = StatusModel;

    open spec fn view(&self) -> StatusModel {
        StatusModel {
            state: self.state,
            current_cue_id: self.current_cue_id.deep_view(),
            position_ms: self.position_ms,
            rate_bits: self.rate_bits,
            volume: self.volume,
            layer_a_alpha_bits: self.layer_a_alpha_bits,
            layer_b_alpha_bits: self.layer_b_alpha_bits,
        }
    }
}

/// A client's answer to a [`SyncPing`].
#[derive(Debug, Clone, Copy, PartialEq, Eq, Structural)]
pub struct SyncReply {
    pub token: u64,
    pub t1_utc_ms: u64,
    pub t2_local_ms: u64,
    pub t3_local_ms: u64,
}

/// How grave a client's log line is.
#[derive(Debug, Clone, Copy, PartialEq, Eq, Structural)]
pub enum LogLevel {
    Trace,
    Debug,
    Info,
    Warn,
    Error,
}

impl LogLevel {
    /// The level's name.
    pub open spec fn label(self) -> Seq<char> {
        match self {
            LogLevel::Trace => "Trace"@,
            LogLevel::Debug => "Debug"@,
            LogLevel::Info => "Info"@,
            LogLevel::Warn => "Warn"@,
            LogLevel::Error => "Error"@,
        }
    }

    /// The level's name.
    pub fn name(self) -> (r: &'static str)
        ensures
            r@ == self.label(),
            match self {
                LogLevel::Trace => r@ == "Trace"@,
                LogLevel::Debug => r@ == "Debug"@,
                LogLevel::Info => r@ == "Info"@,
                LogLevel::Warn => r@ == "Warn"@,
                LogLevel::Error => r@ == "Error"@,
            },
    {
        match self {
            LogLevel::Trace => "Trace",
            LogLevel::Debug => "Debug",
            LogLevel::Info => "Info",
            LogLevel::Warn => "Warn",
            LogLevel::Error => "Error",
        }
    }
}

/// A line of a client's log.
#[derive(Debug, PartialEq, Eq)]
pub struct LogLine {
    pub level: LogLevel,
    pub source: String,
    pub message: String,
}

/// A message from a client to the controller.
#[derive(Debug, PartialEq, Eq)]
pub enum ClientMsg {
    Hello(Hello),
    Status(Status),
    Heartbeat,
    Ready { cue_id: String, layer: Layer },
    SyncReply(SyncReply),
    Drift { drift_ms: i64 },
    Log(LogLine),
}

/// The model of a [`ClientMsg`].
#[verifier::ext_equal]
pub enum ClientMsgModel {
    Hello { client_id: Seq<char>, name: Seq<char>, protocol_version: u32 },
    Status(StatusModel),
    Heartbeat,
    Ready { cue_id: Seq<char>, layer: Layer },
    SyncReply(SyncReply),
    Drift { drift_ms: i64 },
    Log { level: LogLevel, source: Seq<char>, message: Seq<char> },
}

impl View for ClientMsg {
    type V = ClientMsgModel;

    open spec fn view(&self) -> ClientMsgModel {
        match self {
            ClientMsg::Hello(h) => ClientMsgModel::Hello {
                client_id: h.client_id@,
                name: h.name@,
                protocol_version: h.protocol_version,
            },
            ClientMsg::Status(s) => ClientMsgModel::Status(s@),
            ClientMsg::Heartbeat => ClientMsgModel::Heartbeat,
            ClientMsg::Ready { cue_id, layer } => ClientMsgModel::Ready {
                cue_id: cue_id@,
                layer: *layer,
            },
            ClientMsg::SyncReply(r) => ClientMsgModel::SyncReply(*r),
            ClientMsg::Drift { drift_ms } => ClientMsgModel::Drift { drift_ms: *drift_ms },
            ClientMsg::Log(l) => ClientMsgModel::Log {
                level: l.level,
                source: l.source@,
                message: l.message@,
            },
        }
    }
}

} // verus!
