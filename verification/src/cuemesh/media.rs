//! The decisions of the two-layer media engine.
//!
//! Each layer decodes a file and converts it for the compositor; the engine
//! itself is outside. What is decided here: how the pipeline is put together,
//! where a decoder's streams go, what a bus message means, and how a load goes.

use vstd::prelude::*;

use super::client::AppState;
use super::protocol::Layer;
use crate::text;
use crate::text::{chars_of, u64_text};

verus! {

/// The state of a pipeline.
#[derive(Debug, Clone, Copy, PartialEq, Eq, Structural)]
pub enum EngineState {
    VoidPending,
    Null,
    Ready,
    Paused,
    Playing,
}

impl EngineState {
    /// The state's name.
    pub open spec fn label(self) -> Seq<char> {
        match self {
            EngineState::VoidPending => "VoidPending"@,
            EngineState::Null => "Null"@,
            EngineState::Ready => "Ready"@,
            EngineState::Paused => "Paused"@,
            EngineState::Playing => "Playing"@,
        }
    }

    /// The state's name.
    pub fn name(self) -> (r: &'static str)
        ensures
            r@ == self.label(),
            match self {
                EngineState::VoidPending => r@ == "VoidPending"@,
                EngineState::Null => r@ == "Null"@,
                EngineState::Ready => r@ == "Ready"@,
                EngineState::Paused => r@ == "Paused"@,
                EngineState::Playing => r@ == "Playing"@,
            },
    {
        match self {
            EngineState::VoidPending => "VoidPending",
            EngineState::Null => "Null",
            EngineState::Ready => "Ready",
            EngineState::Paused => "Paused",
            EngineState::Playing => "Playing",
        }
    }
}

/// What can go wrong in the media engine.
#[derive(Debug, PartialEq, Eq)]
pub enum MediaError {
    Init(String),
    ElementFactory(String),
    Link(String),
    LinkElements(String),
    StateChange(String),
    Bus(String),
    BadPath(String),
    AddMany(String),
}

/// The model of a [`MediaError`].
#[verifier::ext_equal]
pub enum MediaErrorModel {
    Init(Seq<char>),
    ElementFactory(Seq<char>),
    Link(Seq<char>),
    LinkElements(Seq<char>),
    StateChange(Seq<char>),
    Bus(Seq<char>),
    BadPath(Seq<char>),
    AddMany(Seq<char>),
}

impl View for MediaError {
    type V = MediaErrorModel;

    open spec fn view(&self) -> MediaErrorModel {
        match self {
            MediaError::Init(s) => MediaErrorModel::Init(s@),
            MediaError::ElementFactory(s) => MediaErrorModel::ElementFactory(s@),
            MediaError::Link(s) => MediaErrorModel::Link(s@),
            MediaError::LinkElements(s) => MediaErrorModel::LinkElements(s@),
            MediaError::StateChange(s) => MediaErrorModel::StateChange(s@),
            MediaError::Bus(s) => MediaErrorModel::Bus(s@),
            MediaError::BadPath(s) => MediaErrorModel::BadPath(s@),
            MediaError::AddMany(s) => MediaErrorModel::AddMany(s@),
        }
    }
}

impl MediaErrorModel {
    /// The error in words.
    pub open spec fn message(self) -> Seq<char> {
        match self {
            MediaErrorModel::Init(s) => "gstreamer init failed: "@ + s,
            MediaErrorModel::ElementFactory(s) => "gstreamer element creation failed: "@ + s,
            MediaErrorModel::Link(s) => "gstreamer link failed: "@ + s,
            MediaErrorModel::LinkElements(s) => "gstreamer element link failed: "@ + s,
            MediaErrorModel::StateChange(s) => "gstreamer state change failed: "@ + s,
            MediaErrorModel::Bus(s) => "gstreamer bus message: "@ + s,
            MediaErrorModel::BadPath(s) => "invalid file path: "@ + s,
            MediaErrorModel::AddMany(s) => "gstreamer add-many failed: "@ + s,
        }
    }
}

impl MediaError {
    /// The error in words.
    pub fn message(&self) -> (r: String)
        ensures
            r@ == self@.message(),
            match self {
                MediaError::Init(s) => r@ == "gstreamer init failed: "@ + s@,
                MediaError::ElementFactory(s) => r@ == "gstreamer element creation failed: "@ + s@,
                MediaError::Link(s) => r@ == "gstreamer link failed: "@ + s@,
                MediaError::LinkElements(s) => r@ == "gstreamer element link failed: "@ + s@,
                MediaError::StateChange(s) => r@ == "gstreamer state change failed: "@ + s@,
                MediaError::Bus(s) => r@ == "gstreamer bus message: "@ + s@,
                MediaError::BadPath(s) => r@ == "invalid file path: "@ + s@,
                MediaError::AddMany(s) => r@ == "gstreamer add-many failed: "@ + s@,
            },
    {
        match self {
            MediaError::Init(s) => "gstreamer init failed: ".to_owned().concat(s.as_str()),
            MediaError::ElementFactory(s) => "gstreamer element creation failed: ".to_owned().concat(
                s.as_str(),
            ),
            MediaError::Link(s) => "gstreamer link failed: ".to_owned().concat(s.as_str()),
            MediaError::LinkElements(s) => "gstreamer element link failed: ".to_owned().concat(
                s.as_str(),
            ),
            MediaError::StateChange(s) => "gstreamer state change failed: ".to_owned().concat(
                s.as_str(),
            ),
            MediaError::Bus(s) => "gstreamer bus message: ".to_owned().concat(s.as_str()),
            MediaError::BadPath(s) => "invalid file path: ".to_owned().concat(s.as_str()),
            MediaError::AddMany(s) => "gstreamer add-many failed: ".to_owned().concat(s.as_str()),
        }
    }
}

/// What the engine tells its listeners.
#[derive(Debug, Clone, PartialEq, Eq)]
pub enum MediaEvent {
    /// A layer reached end-of-stream.
    Eos(Layer),
    /// The engine failed (usually fatal for one pipeline run).
    Error { source: String, message: String },
    /// State changed on the overall pipeline.
    State(EngineState),
}

/// The model of a [`MediaEvent`].
#[verifier::ext_equal]
pub enum MediaEventModel {
    Eos(Layer),
    Error { source: Seq<char>, message: Seq<char> },
    State(EngineState),
}

impl DeepView for MediaEvent {
    type V = MediaEventModel;

    open spec fn deep_view(&self) -> MediaEventModel {
        match self {
            MediaEvent::Eos(layer) => MediaEventModel::Eos(*layer),
            MediaEvent::Error { source, message } => MediaEventModel::Error {
                source: source@,
                message: message@,
            },
            MediaEvent::State(s) => MediaEventModel::State(*s),
        }
    }
}

/// The line that an event leaves in a client's log.
pub open spec fn event_line(event: MediaEventModel) -> Seq<char> {
    match event {
        MediaEventModel::Eos(layer) => "engine: EOS on layer "@ + layer.label(),
        MediaEventModel::Error { source, message } => "engine ERROR ["@ + source + "]: "@ + message,
        MediaEventModel::State(s) => "engine state → "@ + s.label(),
    }
}

/// What a listener of the engine received.
#[derive(Debug, PartialEq, Eq)]
pub enum Received {
    Event(MediaEvent),
    /// The listener was too slow, and this many events were dropped.
    Lagged(u64),
    Closed,
}

/// Note in a client's log what a listener received. Returns whether more can
/// come.
pub fn note_event(state: &mut AppState, received: &Received) -> (r: bool)
    ensures
        r == !(received is Closed),
        final(state)@ == match received {
            Received::Event(event) => old(state)@.with_log(event_line(event.deep_view())),
            Received::Lagged(n) => old(state)@.with_log(
                "engine event stream lagged, dropped "@ + text::decimal(*n as nat),
            ),
            Received::Closed => old(state)@,
        },
{
    match received {
        Received::Event(MediaEvent::Eos(layer)) => {
            state.push_log("engine: EOS on layer ".to_owned().concat(layer.name()));
            true
        },
        Received::Event(MediaEvent::Error { source, message }) => {
            state.push_log(
                "engine ERROR [".to_owned().concat(source.as_str()).concat("]: ").concat(
                    message.as_str(),
                ),
            );
            true
        },
        Received::Event(MediaEvent::State(s)) => {
            state.push_log("engine state → ".to_owned().concat(s.name()));
            true
        },
        Received::Lagged(n) => {
            state.push_log(
                "engine event stream lagged, dropped ".to_owned().concat(u64_text(*n).as_str()),
            );
            true
        },
        Received::Closed => false,
    }
}

/// A message on the pipeline's bus.
#[derive(Debug, PartialEq, Eq)]
pub enum BusMessage {
    Eos,
    Error { source: Option<String>, error: String, debug: Option<String> },
    /// Something changed its state: the pipeline itself, or a part of it.
    StateChanged { from_pipeline: bool, current: EngineState },
    /// Anything that is only worth tracing.
    Trace,
}

/// The model of a [`BusMessage`].
#[verifier::ext_equal]
pub enum BusModel {
    Eos,
    Error { source: Option<Seq<char>>, error: Seq<char>, debug: Option<Seq<char>> },
    StateChanged { from_pipeline: bool, current: EngineState },
    Trace,
}

impl View for BusMessage {
    type V = BusModel;

    open spec fn view(&self) -> BusModel {
        match self {
            BusMessage::Eos => BusModel::Eos,
            BusMessage::Error { source, error, debug } => BusModel::Error {
                source: source.deep_view(),
                error: error@,
                debug: debug.deep_view(),
            },
            BusMessage::StateChanged { from_pipeline, current } => BusModel::StateChanged {
                from_pipeline: *from_pipeline,
                current: *current,
            },
            BusMessage::Trace => BusModel::Trace,
        }
    }
}

/// The event that a bus message is published as, if any. The end of the stream
/// counts as that of layer A; a state counts only when it is the pipeline's.
pub open spec fn published(msg: BusModel) -> Option<MediaEventModel> {
    match msg {
        BusModel::Eos => Some(MediaEventModel::Eos(Layer::A)),
        BusModel::Error { source, error, debug } => Some(
            MediaEventModel::Error {
                source: match source {
                    Some(s) => s,
                    None => "unknown"@,
                },
                message: error + " — "@ + match debug {
                    Some(d) => d,
                    None => Seq::empty(),
                },
            },
        ),
        BusModel::StateChanged { from_pipeline: true, current } => Some(
            MediaEventModel::State(current),
        ),
        _ => None,
    }
}

/// The event that a bus message is published as, if any.
pub fn bus_event(msg: &BusMessage) -> (r: Option<MediaEvent>)
    ensures
        r.deep_view() == published(msg@),
{
    match msg {
        BusMessage::Eos => Some(MediaEvent::Eos(Layer::A)),
        BusMessage::Error { source, error, debug } => {
            let source: String = match source {
                Some(s) => s.clone(),
                None => "unknown".to_owned(),
            };
            let mut message: String = error.clone().concat(" — ");
            if let Some(d) = debug {
                message.append(d.as_str());
            } else {
                assert(message@ =~= error@ + " — "@ + Seq::<char>::empty());
            }
            Some(MediaEvent::Error { source, message })
        },
        BusMessage::StateChanged { from_pipeline, current } => if *from_pipeline {
            Some(MediaEvent::State(*current))
        } else {
            None
        },
        BusMessage::Trace => None,
    }
}

/// A part of the pipeline: the factory that makes it, and its name.
#[derive(Debug, PartialEq, Eq)]
pub struct Element {
    pub factory: String,
    pub name: String,
}

/// The model of an [`Element`].
#[verifier::ext_equal]
pub struct ElementModel {
    pub factory: Seq<char>,
    pub name: Seq<char>,
}

impl DeepView for Element {
    type V = ElementModel;

    open spec fn deep_view(&self) -> ElementModel {
        ElementModel { factory: self.factory@, name: self.name@ }
    }
}

fn element(factory: &str, name: String) -> (r: Element)
    ensures
        r.deep_view() == (ElementModel { factory: factory@, name: name@ }),
{
    Element { factory: factory.to_owned(), name }
}

/// The suffix that a layer's parts carry in their names.
pub open spec fn suffix(layer: Layer) -> Seq<char> {
    match layer {
        Layer::A => "a"@,
        Layer::B => "b"@,
    }
}

/// The parts of a layer: its decoder, then the chain that leads from it to the
/// compositor.
pub open spec fn layer_chain(layer: Layer) -> Seq<ElementModel> {
    seq![
        ElementModel { factory: "uridecodebin"@, name: "src_"@ + suffix(layer) },
        ElementModel { factory: "videoconvert"@, name: "vconv_"@ + suffix(layer) },
        ElementModel { factory: "videoscale"@, name: "vscale_"@ + suffix(layer) },
    ]
}

/// The parts of a layer, in order. The first is not linked to the second: a
/// decoder shows its streams only once it runs.
pub fn layer_elements(layer: Layer) -> (r: Vec<Element>)
    ensures
        r.deep_view() == layer_chain(layer),
{
    let suffix: &'static str = match layer {
        Layer::A => "a",
        Layer::B => "b",
    };
    let mut r: Vec<Element> = Vec::new();
    r.push(element("uridecodebin", "src_".to_owned().concat(suffix)));
    r.push(element("videoconvert", "vconv_".to_owned().concat(suffix)));
    r.push(element("videoscale", "vscale_".to_owned().concat(suffix)));
    assert(r.deep_view() =~= layer_chain(layer));
    r
}

/// The parts behind the layers: compositor, pinned format, conversion and sink.
pub open spec fn output_chain(sink: Seq<char>) -> Seq<ElementModel> {
    seq![
        ElementModel { factory: "compositor"@, name: "comp"@ },
        ElementModel { factory: "capsfilter"@, name: "comp_caps"@ },
        ElementModel { factory: "videoconvert"@, name: "vout_convert"@ },
        ElementModel { factory: sink, name: "vsink"@ },
    ]
}

/// The parts behind the layers, each linked to the next.
pub fn output_elements(sink: &str) -> (r: Vec<Element>)
    ensures
        r.deep_view() == output_chain(sink@),
{
    let mut r: Vec<Element> = Vec::new();
    r.push(element("compositor", "comp".to_owned()));
    r.push(element("capsfilter", "comp_caps".to_owned()));
    r.push(element("videoconvert", "vout_convert".to_owned()));
    r.push(element(sink, "vsink".to_owned()));
    assert(r.deep_view() =~= output_chain(sink@));
    r
}

/// The video sink to use. The first scales and converts on the GPU; the second
/// is the fallback where that is not available.
pub fn choose_sink(gl_available: bool, auto_available: bool) -> (r: Result<
    &'static str,
    MediaError,
>)
    ensures
        match r {
            Ok(sink) => {
                &&& gl_available || auto_available
                &&& gl_available ==> sink@ == "glimagesink"@
                &&& !gl_available ==> sink@ == "autovideosink"@
            },
            Err(e) => {
                &&& !gl_available && !auto_available
                &&& e@ == MediaErrorModel::ElementFactory("no usable video sink"@)
            },
        },
{
    if gl_available {
        Ok("glimagesink")
    } else if auto_available {
        Ok("autovideosink")
    } else {
        Err(MediaError::ElementFactory("no usable video sink".to_owned()))
    }
}

/// How a layer stands in the picture before anything is loaded.
#[derive(Debug, Clone, Copy, PartialEq, Eq, Structural)]
pub struct Placement {
    pub zorder: u32,
    /// Fully visible, or not at all.
    pub opaque: bool,
}

/// How a layer stands in the picture before anything is loaded: A lies below B
/// and is visible, B is not.
pub open spec fn placement_of(layer: Layer) -> Placement {
    match layer {
        Layer::A => Placement { zorder: 0, opaque: true },
        Layer::B => Placement { zorder: 1, opaque: false },
    }
}

/// How a layer stands in the picture before anything is loaded.
pub fn placement(layer: Layer) -> (r: Placement)
    ensures
        r == placement_of(layer),
{
    match layer {
        Layer::A => Placement { zorder: 0, opaque: true },
        Layer::B => Placement { zorder: 1, opaque: false },
    }
}

/// A stream that a decoder shows.
#[derive(Debug, PartialEq, Eq)]
pub struct Stream {
    /// Does it say nothing of what it carries?
    pub caps_empty: bool,
    /// The media type it carries, if it says.
    pub media_type: Option<String>,
}

/// Where a decoder's stream goes.
#[derive(Debug, Clone, Copy, PartialEq, Eq, Structural)]
pub enum PadRoute {
    /// Nowhere: it cannot be told what it is.
    Leave,
    /// Into the layer's chain.
    Show,
    /// Into a sink that throws it away. A stream that is linked to nothing would
    /// stop the pipeline.
    Discard,
}

/// Does `s` begin with `prefix`?
pub open spec fn begins(s: Seq<char>, prefix: Seq<char>) -> bool {
    s.len() >= prefix.len() && s.take(prefix.len() as int) == prefix
}

/// Does `s` begin with `prefix`?
pub fn begins_with(s: &str, prefix: &str) -> (r: bool)
    ensures
        r == begins(s@, prefix@),
{
    let v: Vec<char> = chars_of(s);
    let p: Vec<char> = chars_of(prefix);
    if v.len() < p.len() {
        return false;
    }
    let mut i: usize = 0;
    while i < p.len()
        invariant
            0 <= i <= p.len() <= v.len(),
            v@ == s@,
            p@ == prefix@,
            forall|k: int| 0 <= k < i ==> v@[k] == p@[k],
        decreases p.len() - i,
    {
        if v[i] != p[i] {
            assert(s@.take(prefix@.len() as int)[i as int] != prefix@[i as int]);
            return false;
        }
        i = i + 1;
    }
    assert(s@.take(prefix@.len() as int) =~= prefix@);
    true
}

/// Where a decoder's stream goes: the first video stream is shown, anything else
/// is thrown away.
pub open spec fn route_of(
    caps_empty: bool,
    media_type: Option<Seq<char>>,
    chain_free: bool,
) -> PadRoute {
    match media_type {
        Some(t) if !caps_empty => if begins(t, "video/"@) && chain_free {
            PadRoute::Show
        } else {
            PadRoute::Discard
        },
        _ => PadRoute::Leave,
    }
}

/// Where a decoder's stream goes. `chain_free` says whether the layer's chain is
/// there and has nothing linked to it yet.
pub fn route_stream(stream: &Stream, chain_free: bool) -> (r: PadRoute)
    ensures
        r == route_of(stream.caps_empty, stream.media_type.deep_view(), chain_free),
{
    if stream.caps_empty {
        return PadRoute::Leave;
    }
    match &stream.media_type {
        Some(t) => if begins_with(t.as_str(), "video/") && chain_free {
            PadRoute::Show
        } else {
            PadRoute::Discard
        },
        None => PadRoute::Leave,
    }
}

/// Which layers have been given media.
#[derive(Debug, Clone, Copy, PartialEq, Eq, Structural)]
pub struct Loaded {
    pub a: bool,
    pub b: bool,
}

impl Loaded {
    /// Has the layer been given media?
    pub open spec fn on(self, layer: Layer) -> bool {
        match layer {
            Layer::A => self.a,
            Layer::B => self.b,
        }
    }

    /// The same with the layer given media.
    pub open spec fn with(self, layer: Layer) -> Loaded {
        match layer {
            Layer::A => Loaded { a: true, b: self.b },
            Layer::B => Loaded { a: self.a, b: true },
        }
    }

    /// Has the layer been given media?
    pub fn has_media(&self, layer: Layer) -> (r: bool)
        ensures
            r == self.on(layer),
            layer == Layer::A ==> r == self.a,
            layer == Layer::B ==> r == self.b,
    {
        match layer {
            Layer::A => self.a,
            Layer::B => self.b,
        }
    }

    /// Note that the layer has been given media.
    pub fn give(&mut self, layer: Layer)
        ensures
            *final(self) == old(self).with(layer),
            final(self).a == (layer == Layer::A || old(self).a),
            final(self).b == (layer == Layer::B || old(self).b),
    {
        match layer {
            Layer::A => {
                self.a = true;
            },
            Layer::B => {
                self.b = true;
            },
        }
    }
}

/// Must the end of the stream be sent into a layer's chain? The compositor waits
/// for every layer, so one that has no media, and nothing linked to it, is told
/// that nothing will come.
pub fn ends_idle_layer(loaded: &Loaded, layer: Layer, chain_free: bool) -> (r: bool)
    ensures
        r == (!loaded.on(layer) && chain_free),
{
    !loaded.has_media(layer) && chain_free
}

/// How far loading a file has come.
#[derive(Debug, PartialEq, Eq)]
pub enum LoadEvent {
    /// The file was looked for.
    Looked { exists: bool },
    /// Its full path was worked out, or could not be.
    Resolved { error: Option<String> },
    /// Its address was worked out, or could not be.
    Addressed { error: Option<String> },
    /// The pipeline was asked to pause.
    Asked { error: Option<String> },
    /// The pipeline was given time to get ready.
    Prerolled { failed: bool, current: EngineState, pending: EngineState },
}

/// What loading a file does next.
#[derive(Debug, Clone, Copy, PartialEq, Eq, Structural)]
pub enum LoadStep {
    /// Work out the full path.
    Resolve,
    /// Work out the address.
    Address,
    /// Hand the address to the layer's decoder, let the decoder follow the
    /// pipeline, and ask the pipeline to pause.
    Start,
    /// Send the end of the stream into the other layer, if that has no media,
    /// then give the pipeline time to get ready.
    Preroll { idle: Layer },
    Finished,
}

/// The next step of a load, or why it failed.
pub open spec fn next_load(
    path: Seq<char>,
    layer: Layer,
    event: LoadEvent,
) -> Result<LoadStep, MediaErrorModel> {
    match event {
        LoadEvent::Looked { exists } => if exists {
            Ok(LoadStep::Resolve)
        } else {
            Err(MediaErrorModel::BadPath("file not found: "@ + path))
        },
        LoadEvent::Resolved { error } => match error {
            None => Ok(LoadStep::Address),
            Some(e) => Err(MediaErrorModel::BadPath(path + ": "@ + e@)),
        },
        LoadEvent::Addressed { error } => match error {
            None => Ok(LoadStep::Start),
            Some(e) => Err(MediaErrorModel::BadPath(e@)),
        },
        LoadEvent::Asked { error } => match error {
            None => Ok(LoadStep::Preroll { idle: layer.opposite() }),
            Some(e) => Err(
                MediaErrorModel::StateChange(
                    "set_state(Paused) rejected: "@ + e@ + " — see bus errors above"@,
                ),
            ),
        },
        LoadEvent::Prerolled { failed, current, pending } => if failed {
            Err(
                MediaErrorModel::StateChange(
                    "preroll failed (state="@ + current.label() + ", pending="@ + pending.label()
                        + ") — see bus errors above"@,
                ),
            )
        } else {
            Ok(LoadStep::Finished)
        },
    }
}

/// Decide the next step of loading `path` onto a layer. Once its address is
/// known the layer counts as having media.
pub fn load(path: &str, layer: Layer, event: &LoadEvent, loaded: &mut Loaded) -> (r: Result<
    LoadStep,
    MediaError,
>)
    ensures
        match r {
            Ok(step) => next_load(path@, layer, *event) == Ok::<LoadStep, MediaErrorModel>(step),
            Err(e) => next_load(path@, layer, *event) == Err::<LoadStep, MediaErrorModel>(e@),
        },
        *final(loaded) == if r == Ok::<LoadStep, MediaError>(LoadStep::Start) {
            old(loaded).with(layer)
        } else {
            *old(loaded)
        },
{
    match event {
        LoadEvent::Looked { exists } => if *exists {
            Ok(LoadStep::Resolve)
        } else {
            Err(MediaError::BadPath("file not found: ".to_owned().concat(path)))
        },
        LoadEvent::Resolved { error } => match error {
            None => Ok(LoadStep::Address),
            Some(e) => Err(MediaError::BadPath(path.to_owned().concat(": ").concat(e.as_str()))),
        },
        LoadEvent::Addressed { error } => match error {
            None => {
                loaded.give(layer);
                Ok(LoadStep::Start)
            },
            Some(e) => Err(MediaError::BadPath(e.clone())),
        },
        LoadEvent::Asked { error } => match error {
            None => Ok(LoadStep::Preroll { idle: layer.other() }),
            Some(e) => Err(
                MediaError::StateChange(
                    "set_state(Paused) rejected: ".to_owned().concat(e.as_str()).concat(
                        " — see bus errors above",
                    ),
                ),
            ),
        },
        LoadEvent::Prerolled { failed, current, pending } => if *failed {
            Err(
                MediaError::StateChange(
                    "preroll failed (state=".to_owned().concat(current.name()).concat(
                        ", pending=",
                    ).concat(pending.name()).concat(") — see bus errors above"),
                ),
            )
        } else {
            Ok(LoadStep::Finished)
        },
    }
}

/// What came of asking the pipeline to play.
pub fn play_result(error: &Option<String>) -> (r: Result<(), MediaError>)
    ensures
        match r {
            Ok(()) => error is None,
            Err(e) => error is Some && e@ == MediaErrorModel::StateChange(
                "set_state(Playing) rejected: "@ + error->0@ + " — see bus errors above"@,
            ),
        },
{
    match error {
        None => Ok(()),
        Some(e) => Err(
            MediaError::StateChange(
                "set_state(Playing) rejected: ".to_owned().concat(e.as_str()).concat(
                    " — see bus errors above",
                ),
            ),
        ),
    }
}

/// What came of asking the pipeline to pause, to stop or to seek.
pub fn change_result(error: &Option<String>) -> (r: Result<(), MediaError>)
    ensures
        match r {
            Ok(()) => error is None,
            Err(e) => error is Some && e@ == MediaErrorModel::StateChange(error->0@),
        },
{
    match error {
        None => Ok(()),
        Some(e) => Err(MediaError::StateChange(e.clone())),
    }
}

/// Is the rate of this 32-bit pattern at least zero? A pattern with the sign bit
/// set is below zero unless it is minus zero; patterns above infinity are no
/// number.
pub open spec fn rate_playable(bits: u32) -> bool {
    bits <= 0x7F80_0000 || bits == 0x8000_0000
}

/// Is the rate of this 32-bit pattern at least zero? Only such a rate is
/// applied; any other is passed over.
pub fn is_playable_rate(bits: u32) -> (r: bool)
    ensures
        r == rate_playable(bits),
{
    bits <= 0x7F80_0000 || bits == 0x8000_0000
}

/// Of the streams of one decoder, the first video stream is shown and no second
/// one: once the chain is taken, everything else is thrown away.
pub proof fn law_one_video_stream(caps_empty: bool, media_type: Option<Seq<char>>)
    ensures
        route_of(caps_empty, media_type, false) != PadRoute::Show,
        route_of(caps_empty, media_type, true) == PadRoute::Show ==> route_of(
            caps_empty,
            media_type,
            false,
        ) == PadRoute::Discard,
{
}

/// A layer that was given media keeps it, and giving media to one layer leaves
/// the other alone.
pub proof fn law_media_stays(loaded: Loaded, layer: Layer)
    ensures
        loaded.with(layer).on(layer),
        loaded.with(layer).on(layer.opposite()) == loaded.on(layer.opposite()),
{
}

/// Every event of the engine leaves a line that says what it was: where a stream
/// ended, where an error came from and what it says, or which state was reached.
pub proof fn law_event_lines(
    layer: Layer,
    source: Seq<char>,
    message: Seq<char>,
    state: EngineState,
)
    ensures
        event_line(MediaEventModel::Eos(layer)) == "engine: EOS on layer "@ + (if layer
            == Layer::A {
            "A"@
        } else {
            "B"@
        }),
        event_line(MediaEventModel::Error { source, message }) == "engine ERROR ["@ + source
            + "]: "@ + message,
        event_line(MediaEventModel::State(state)) == "engine state → "@ + state.label(),
{
}

/// What is published of the bus: the end of the stream as that of layer A; every
/// error, with where it came from, `unknown` where that is not told, and its text
/// followed by the details; and a state of the pipeline itself. Nothing is
/// published of a part's state or of what is only traced.
pub proof fn law_what_is_published(
    source: Option<Seq<char>>,
    error: Seq<char>,
    details: Seq<char>,
    current: EngineState,
)
    ensures
        published(BusModel::Eos) == Some(MediaEventModel::Eos(Layer::A)),
        ({
            let told = if source is Some {
                source->0
            } else {
                "unknown"@
            };
            &&& published(BusModel::Error { source, error, debug: Some(details) }) == Some(
                MediaEventModel::Error { source: told, message: error + " — "@ + details },
            )
            &&& published(BusModel::Error { source, error, debug: None }) == Some(
                MediaEventModel::Error { source: told, message: error + " — "@ },
            )
        }),
        published(BusModel::StateChanged { from_pipeline: true, current }) == Some(
            MediaEventModel::State(current),
        ),
        published(BusModel::StateChanged { from_pipeline: false, current }) is None,
        published(BusModel::Trace) is None,
{
    assert(error + " — "@ + Seq::<char>::empty() =~= error + " — "@);
}

/// Each layer has a decoder and then what converts and scales its picture, under
/// names of its own; behind both come the compositor, the format, a conversion
/// and the sink.
pub proof fn law_parts_of_the_pipeline(layer: Layer, sink: Seq<char>)
    ensures
        ({
            let own = if layer == Layer::A {
                "a"@
            } else {
                "b"@
            };
            let parts = layer_chain(layer);
            let shared = output_chain(sink);
            &&& parts.len() == 3
            &&& parts[0] == (ElementModel { factory: "uridecodebin"@, name: "src_"@ + own })
            &&& parts[1] == (ElementModel { factory: "videoconvert"@, name: "vconv_"@ + own })
            &&& parts[2] == (ElementModel { factory: "videoscale"@, name: "vscale_"@ + own })
            &&& shared.len() == 4
            &&& shared[0] == (ElementModel { factory: "compositor"@, name: "comp"@ })
            &&& shared[1] == (ElementModel { factory: "capsfilter"@, name: "comp_caps"@ })
            &&& shared[2] == (ElementModel { factory: "videoconvert"@, name: "vout_convert"@ })
            &&& shared[3] == (ElementModel { factory: sink, name: "vsink"@ })
        }),
{
}

/// Layer A lies below and is seen before anything is loaded; layer B lies above
/// and is not.
pub proof fn law_layers_lie_apart()
    ensures
        placement_of(Layer::A).zorder < placement_of(Layer::B).zorder,
        placement_of(Layer::A).opaque,
        !placement_of(Layer::B).opaque,
{
}

/// A stream that does not say what it carries is left alone. A video stream is
/// shown while the chain is free. Every other stream is thrown away.
pub proof fn law_where_streams_go(kind: Seq<char>, media_type: Seq<char>, chain_free: bool)
    ensures
        route_of(true, Some(media_type), chain_free) == PadRoute::Leave,
        route_of(false, None, chain_free) == PadRoute::Leave,
        route_of(true, None, chain_free) == PadRoute::Leave,
        route_of(false, Some("video/"@ + kind), true) == PadRoute::Show,
        route_of(false, Some(media_type), false) == PadRoute::Discard,
        (exists|k: int|
            0 <= k < 6 && (media_type.len() <= k || #[trigger] media_type[k] != "video/"@[k]))
            ==> route_of(false, Some(media_type), chain_free) == PadRoute::Discard,
{
    reveal_strlit("video/");
    assert("video/"@.len() == 6);
    let t = "video/"@ + kind;
    assert(t.take(6) =~= "video/"@);
    if begins(media_type, "video/"@) {
        assert forall|k: int| 0 <= k < 6 implies media_type.len() > k && #[trigger] media_type[k]
            == "video/"@[k] by {
            assert(media_type.take(6)[k] == media_type[k]);
        }
    }
}

/// Loading goes on step by step: look for the file, resolve its path, work out
/// its address, start, let the pipeline get ready while the other layer is told
/// that nothing comes, and finish. Each step that fails ends the load with an
/// error that says why.
pub proof fn law_load_step_by_step(
    path: Seq<char>,
    layer: Layer,
    error: String,
    current: EngineState,
    pending: EngineState,
)
    ensures
        next_load(path, layer, LoadEvent::Looked { exists: true }) == Ok::<
            LoadStep,
            MediaErrorModel,
        >(LoadStep::Resolve),
        next_load(path, layer, LoadEvent::Resolved { error: None }) == Ok::<
            LoadStep,
            MediaErrorModel,
        >(LoadStep::Address),
        next_load(path, layer, LoadEvent::Addressed { error: None }) == Ok::<
            LoadStep,
            MediaErrorModel,
        >(LoadStep::Start),
        ({
            let step = next_load(path, layer, LoadEvent::Asked { error: None });
            &&& step is Ok
            &&& step->Ok_0 matches LoadStep::Preroll { idle }
            &&& idle != layer
        }),
        next_load(path, layer, LoadEvent::Prerolled { failed: false, current, pending }) == Ok::<
            LoadStep,
            MediaErrorModel,
        >(LoadStep::Finished),
        next_load(path, layer, LoadEvent::Looked { exists: false }) == Err::<
            LoadStep,
            MediaErrorModel,
        >(MediaErrorModel::BadPath("file not found: "@ + path)),
        next_load(path, layer, LoadEvent::Resolved { error: Some(error) }) == Err::<
            LoadStep,
            MediaErrorModel,
        >(MediaErrorModel::BadPath(path + ": "@ + error@)),
        next_load(path, layer, LoadEvent::Addressed { error: Some(error) }) == Err::<
            LoadStep,
            MediaErrorModel,
        >(MediaErrorModel::BadPath(error@)),
        next_load(path, layer, LoadEvent::Asked { error: Some(error) }) == Err::<
            LoadStep,
            MediaErrorModel,
        >(
            MediaErrorModel::StateChange(
                "set_state(Paused) rejected: "@ + error@ + " — see bus errors above"@,
            ),
        ),
        next_load(path, layer, LoadEvent::Prerolled { failed: true, current, pending }) == Err::<
            LoadStep,
            MediaErrorModel,
        >(
            MediaErrorModel::StateChange(
                "preroll failed (state="@ + current.label() + ", pending="@ + pending.label()
                    + ") — see bus errors above"@,
            ),
        ),
{
}

/// A rate is applied exactly where its 32-bit pattern has no sign bit and is not
/// above that of infinity, or is minus zero.
pub proof fn law_playable_rates(bits: u32)
    ensures
        bits >= 0x8000_0001 ==> !rate_playable(bits),
        rate_playable(0x8000_0000),
        0x7F80_0000 < bits < 0x8000_0000 ==> !rate_playable(bits),
        bits <= 0x7F80_0000 ==> rate_playable(bits),
{
}

} // verus!
