//! The messages that the controller and its clients exchange.

use vstd::prelude::*;

use crate::show::{Cue, CueKind, CueModel, EndAction, ShowFile, ShowFileModel};
use crate::text::copy_option;

verus! {

/// One of the two layers a client composes its picture from.
#[derive(Debug, Clone, Copy, PartialEq, Eq, Structural)]
pub enum Layer {
    A,
    B,
}

impl Layer {
    /// The layer's name.
    pub open spec fn label(self) -> Seq<char> {
        match self {
            Layer::A => "A"@,
            Layer::B => "B"@,
        }
    }

    /// The layer's name.
    pub fn name(self) -> (r: &'static str)
        ensures
            r@ == self.label(),
            match self {
                Layer::A => r@ == "A"@,
                Layer::B => r@ == "B"@,
            },
    {
        match self {
            Layer::A => "A",
            Layer::B => "B",
        }
    }

    /// The other of the two layers.
    pub open spec fn opposite(self) -> Layer {
        match self {
            Layer::A => Layer::B,
            Layer::B => Layer::A,
        }
    }

    /// The other of the two layers.
    pub fn other(self) -> (r: Layer)
        ensures
            r == self.opposite(),
    {
        match self {
            Layer::A => Layer::B,
            Layer::B => Layer::A,
        }
    }
}

/// What a client reports it is doing.
#[derive(Debug, Clone, Copy, PartialEq, Eq, Structural)]
pub enum ClientState {
    Idle,
    Loading,
    Ready,
    Playing,
    Paused,
    Error,
    Black,
}

impl ClientState {
    /// The state's name.
    pub open spec fn label(self) -> Seq<char> {
        match self {
            ClientState::Idle => "Idle"@,
            ClientState::Loading => "Loading"@,
            ClientState::Ready => "Ready"@,
            ClientState::Playing => "Playing"@,
            ClientState::Paused => "Paused"@,
            ClientState::Error => "Error"@,
            ClientState::Black => "Black"@,
        }
    }

    /// The state's name.
    pub fn name(self) -> (r: &'static str)
        ensures
            r@ == self.label(),
            match self {
                ClientState::Idle => r@ == "Idle"@,
                ClientState::Loading => r@ == "Loading"@,
                ClientState::Ready => r@ == "Ready"@,
                ClientState::Playing => r@ == "Playing"@,
                ClientState::Paused => r@ == "Paused"@,
                ClientState::Error => r@ == "Error"@,
                ClientState::Black => r@ == "Black"@,
            },
    {
        match self {
            ClientState::Idle => "Idle",
            ClientState::Loading => "Loading",
            ClientState::Ready => "Ready",
            ClientState::Playing => "Playing",
            ClientState::Paused => "Paused",
            ClientState::Error => "Error",
            ClientState::Black => "Black",
        }
    }
}

/// Have a cue decoded and ready on a layer.
#[derive(Debug, PartialEq, Eq)]
pub struct LoadCue {
    pub cue_id: String,
    pub layer: Layer,
    pub kind: CueKind,
    pub file: String,
    pub color: Option<String>,
    pub fade_in_ms: u32,
    pub in_ms: u32,
    pub out_ms: Option<u32>,
    pub loops: bool,
    pub on_end: EndAction,
}

/// The model of a [`LoadCue`].
#[verifier::ext_equal]
pub struct LoadCueModel {
    pub cue_id: Seq<char>,
    pub layer: Layer,
    pub kind: CueKind,
    pub file: Seq<char>,
    pub color: Option<Seq<char>>,
    pub fade_in_ms: u32,
    pub in_ms: u32,
    pub out_ms: Option<u32>,
    pub loops: bool,
    pub on_end: EndAction,
}

impl View for LoadCue {
    type V = LoadCueModel;

    open spec fn view(&self) -> LoadCueModel {
        LoadCueModel {
            cue_id: self.cue_id@,
            layer: self.layer,
            kind: self.kind,
            file: self.file@,
            color: self.color.deep_view(),
            fade_in_ms: self.fade_in_ms,
            in_ms: self.in_ms,
            out_ms: self.out_ms,
            loops: self.loops,
            on_end: self.on_end,
        }
    }
}

impl Clone for LoadCue {
    fn clone(&self) -> (r: Self)
        ensures
            r@ == self@,
    {
        LoadCue {
            cue_id: self.cue_id.clone(),
            layer: self.layer,
            kind: self.kind,
            file: self.file.clone(),
            color: copy_option(&self.color),
            fade_in_ms: self.fade_in_ms,
            in_ms: self.in_ms,
            out_ms: self.out_ms,
            loops: self.loops,
            on_end: self.on_end,
        }
    }
}

/// What a client is told of a cue that it is to have on `layer`.
pub open spec fn load_of(cue: CueModel, layer: Layer) -> LoadCueModel {
    LoadCueModel {
        cue_id: cue.id,
        layer,
        kind: cue.kind,
        file: cue.file,
        color: cue.color,
        fade_in_ms: cue.fade_in_ms,
        in_ms: cue.in_ms,
        out_ms: cue.out_ms,
        loops: cue.loops,
        on_end: cue.on_end,
    }
}

/// What a client is told of a cue that it is to have on `layer`.
pub fn load_cue_for(cue: &Cue, layer: Layer) -> (r: LoadCue)
    ensures
        r@ == load_of(cue@, layer),
        r.cue_id@ == cue.id@,
        r.layer == layer,
        r.kind == cue.kind,
        r.file@ == cue.file@,
        r.color.deep_view() == cue.color.deep_view(),
        r.fade_in_ms == cue.fade_in_ms,
        r.in_ms == cue.in_ms,
        r.out_ms == cue.out_ms,
        r.loops == cue.loops,
        r.on_end == cue.on_end,
{
    LoadCue {
        cue_id: cue.id.clone(),
        layer,
        kind: cue.kind,
        file: cue.file.clone(),
        color: copy_option(&cue.color),
        fade_in_ms: cue.fade_in_ms,
        in_ms: cue.in_ms,
        out_ms: cue.out_ms,
        loops: cue.loops,
        on_end: cue.on_end,
    }
}

/// Start a loaded layer at an agreed moment.
#[derive(Debug, Clone, Copy, PartialEq, Eq, Structural)]
pub struct PlayAt {
    pub layer: Layer,
    pub master_start_utc_ms: u64,
    pub fade_in_ms: u32,
    /// Crossfade from the other layer over this long; `None` when nothing is
    /// on air there.
    pub crossfade_ms: Option<u32>,
}

/// Fade everything to the idle picture.
#[derive(Debug, Clone, Copy, PartialEq, Eq, Structural)]
pub struct FadeCmd {
    pub duration_ms: u32,
}

/// Give a client a new display name.
#[derive(Debug, PartialEq, Eq)]
pub struct AssignName {
    pub client_id: String,
    pub name: String,
}

/// A message from the controller to a client.
#[derive(Debug)]
pub enum ControllerMsg {
    AssignName(AssignName),
    LoadCue(LoadCue),
    /// Preload a cue that is likely to be next.
    Standby(LoadCue),
    PlayAt(PlayAt),
    Fade(FadeCmd),
    Stop,
    Pause,
    Resume,
    ShowTestscreen,
    HideTestscreen,
    /// The show that is now running.
    ShowSync(ShowFile),
}

/// The model of a [`ControllerMsg`].
#[verifier::ext_equal]
pub enum ControllerMsgModel {
    AssignName { client_id: Seq<char>, name: Seq<char> },
    LoadCue(LoadCueModel),
    Standby(LoadCueModel),
    PlayAt(PlayAt),
    Fade(FadeCmd),
    Stop,
    Pause,
    Resume,
    ShowTestscreen,
    HideTestscreen,
    ShowSync(ShowFileModel),
}

impl View for ControllerMsg {
    type V = ControllerMsgModel;

    open spec fn view(&self) -> ControllerMsgModel {
        match self {
            ControllerMsg::AssignName(a) => ControllerMsgModel::AssignName {
                client_id: a.client_id@,
                name: a.name@,
            },
            ControllerMsg::LoadCue(l) => ControllerMsgModel::LoadCue(l@),
            ControllerMsg::Standby(l) => ControllerMsgModel::Standby(l@),
            ControllerMsg::PlayAt(p) => ControllerMsgModel::PlayAt(*p),
            ControllerMsg::Fade(f) => ControllerMsgModel::Fade(*f),
            ControllerMsg::Stop => ControllerMsgModel::Stop,
            ControllerMsg::Pause => ControllerMsgModel::Pause,
            ControllerMsg::Resume => ControllerMsgModel::Resume,
            ControllerMsg::ShowTestscreen => ControllerMsgModel::ShowTestscreen,
            ControllerMsg::HideTestscreen => ControllerMsgModel::HideTestscreen,
            ControllerMsg::ShowSync(s) => ControllerMsgModel::ShowSync(s@),
        }
    }
}

impl Clone for ControllerMsg {
    fn clone(&self) -> (r: Self)
        ensures
            r@ == self@,
    {
        match self {
            ControllerMsg::AssignName(a) => ControllerMsg::AssignName(
                AssignName { client_id: a.client_id.clone(), name: a.name.clone() },
            ),
            ControllerMsg::LoadCue(l) => ControllerMsg::LoadCue(l.clone()),
            ControllerMsg::Standby(l) => ControllerMsg::Standby(l.clone()),
            ControllerMsg::PlayAt(p) => ControllerMsg::PlayAt(*p),
            ControllerMsg::Fade(f) => ControllerMsg::Fade(*f),
            ControllerMsg::Stop => ControllerMsg::Stop,
            ControllerMsg::Pause => ControllerMsg::Pause,
            ControllerMsg::Resume => ControllerMsg::Resume,
            ControllerMsg::ShowTestscreen => ControllerMsg::ShowTestscreen,
            ControllerMsg::HideTestscreen => ControllerMsg::HideTestscreen,
            ControllerMsg::ShowSync(s) => ControllerMsg::ShowSync(s.clone()),
        }
    }
}

/// A message and the client it goes to.
#[derive(Debug)]
pub struct Outgoing {
    pub client_id: String,
    pub msg: ControllerMsg,
}

/// The model of an [`Outgoing`].
#[verifier::ext_equal]
pub struct OutgoingModel {
    pub client_id: Seq<char>,
    pub msg: ControllerMsgModel,
}

impl DeepView for Outgoing {
    type V = OutgoingModel;

    open spec fn deep_view(&self) -> OutgoingModel {
        OutgoingModel { client_id: self.client_id@, msg: self.msg@ }
    }
}

/// There are two layers, and each is the other's opposite.
pub proof fn law_two_layers(layer: Layer, other: Layer)
    ensures
        layer.opposite() != layer,
        layer.opposite().opposite() == layer,
        other == layer || other == layer.opposite(),
{
}

} // verus!
