//! Shows: cues, their targeting, and validation.
//!
//! A show is a title, some playback settings and a list of cues. Types that
//! hold text have a model over `Seq<char>`, which their view gives; contracts
//! are stated over the models.

use vstd::prelude::*;

use crate::paths;
use crate::paths::{is_rooted, join_path};
use crate::text;
use crate::text::{contains_text, copy_option, copy_texts, same_text, trim};

pub use crate::color::{format_hex_color, parse_hex_color};

verus! {

/// Duration (ms) used by the operator BLACKOUT command and the `black` dropout
/// policy. Per-cue colour cues cover deliberate fades to black or white.
pub const DEFAULT_FADE_MS: u32 = 1500;

/// What a client should do if it loses its controller mid-cue.
#[derive(Debug, Clone, Copy, PartialEq, Eq, Structural)]
pub enum DropoutPolicy {
    /// Keep playing to the natural end of the current cue.
    Continue,
    /// Freeze at the current frame.
    Freeze,
    /// Cut to black.
    Black,
}

impl Default for DropoutPolicy {
    fn default() -> (r: Self)
        ensures
            r == DropoutPolicy::Continue,
    {
        DropoutPolicy::Continue
    }
}

/// What a cue shows.
#[derive(Debug, Clone, Copy, PartialEq, Eq, Structural)]
pub enum CueKind {
    Video,
    Image,
    /// A solid colour, used for fades to black or white.
    Color,
}

impl Default for CueKind {
    fn default() -> (r: Self)
        ensures
            r == CueKind::Video,
    {
        CueKind::Video
    }
}

/// What a cue does when it reaches its out-point or the media's natural end.
#[derive(Debug, Clone, Copy, PartialEq, Eq, Structural)]
pub enum EndAction {
    /// Drop the layer immediately, which reveals the poster or black.
    Cut,
    /// Hold the final frame until the operator acts.
    Freeze,
    /// Fade the layer out over the cue's `fade_in_ms`, then stop.
    Fade,
}

impl Default for EndAction {
    fn default() -> (r: Self)
        ensures
            r == EndAction::Cut,
    {
        EndAction::Cut
    }
}

/// What an excluded client does when a cue plays.
#[derive(Debug, Clone, Copy, PartialEq, Eq, Structural)]
pub enum ExcludeAction {
    /// Keep showing whatever was already on air; the cue simply isn't sent.
    Ignore,
    /// Go to the show's idle poster.
    Poster,
    /// Show a solid colour (see [`Cue::exclude_color`]).
    Color,
}

impl Default for ExcludeAction {
    fn default() -> (r: Self)
        ensures
            r == ExcludeAction::Ignore,
    {
        ExcludeAction::Ignore
    }
}

/// Which clients a cue plays on.
#[derive(Debug, PartialEq, Eq)]
pub enum CueTarget {
    /// Every connected client.
    All,
    /// Only these client ids.
    Whitelist { clients: Vec<String> },
    /// Every connected client except these ids.
    Blacklist { clients: Vec<String> },
}

/// The model of a [`CueTarget`].
#[verifier::ext_equal]
pub enum TargetModel {
    All,
    Whitelist { clients: Seq<Seq<char>> },
    Blacklist { clients: Seq<Seq<char>> },
}

impl TargetModel {
    /// Does the target take in the client of this id?
    pub open spec fn includes(self, client_id: Seq<char>) -> bool {
        match self {
            TargetModel::All => true,
            TargetModel::Whitelist { clients } => clients.contains(client_id),
            TargetModel::Blacklist { clients } => !clients.contains(client_id),
        }
    }
}

impl View for CueTarget {
    type V = TargetModel;

    open spec fn view(&self) -> TargetModel {
        match self {
            CueTarget::All => TargetModel::All,
            CueTarget::Whitelist { clients } => TargetModel::Whitelist {
                clients: clients.deep_view(),
            },
            CueTarget::Blacklist { clients } => TargetModel::Blacklist {
                clients: clients.deep_view(),
            },
        }
    }
}

impl Default for CueTarget {
    fn default() -> (r: Self)
        ensures
            r@ == TargetModel::All,
    {
        CueTarget::All
    }
}

impl Clone for CueTarget {
    fn clone(&self) -> (r: Self)
        ensures
            r@ == self@,
    {
        match self {
            CueTarget::All => CueTarget::All,
            CueTarget::Whitelist { clients } => CueTarget::Whitelist { clients: copy_texts(clients) },
            CueTarget::Blacklist { clients } => CueTarget::Blacklist { clients: copy_texts(clients) },
        }
    }
}

/// One cue of a show.
#[derive(Debug)]
pub struct Cue {
    pub id: String,
    pub name: String,
    pub kind: CueKind,
    /// Media file, relative to the show's `media_root`. Empty for colour cues.
    pub file: String,
    /// Solid colour for colour cues, as `#RRGGBB`. Ignored otherwise.
    pub color: Option<String>,
    /// Fade time. When nothing is on air this is the fade-from-black duration;
    /// when a cue is already playing it is the crossfade duration into this
    /// cue. `0` means a hard cut.
    pub fade_in_ms: u32,
    /// In-point: start playback this many ms into the file. `0` = the start.
    pub in_ms: u32,
    /// Out-point: end the cue at this many ms into the file. `None` = play to
    /// the natural end of the media.
    pub out_ms: Option<u32>,
    /// Loop the clip (between `in_ms` and `out_ms` or its end) until replaced.
    pub loops: bool,
    /// What to do when the cue reaches its out-point or natural end.
    pub on_end: EndAction,
    pub notes: Option<String>,
    /// Which clients this cue plays on.
    pub target: CueTarget,
    /// What a client excluded by `target` should do instead of loading or
    /// playing this cue.
    pub exclude_action: ExcludeAction,
    /// Solid colour excluded clients show when `exclude_action` is `Color`, as
    /// `#RRGGBB`. Falls back to black if unset.
    pub exclude_color: Option<String>,
}

/// The model of a [`Cue`].
#[verifier::ext_equal]
pub struct CueModel {
    pub id: Seq<char>,
    pub name: Seq<char>,
    pub kind: CueKind,
    pub file: Seq<char>,
    pub color: Option<Seq<char>>,
    pub fade_in_ms: u32,
    pub in_ms: u32,
    pub out_ms: Option<u32>,
    pub loops: bool,
    pub on_end: EndAction,
    pub notes: Option<Seq<char>>,
    pub target: TargetModel,
    pub exclude_action: ExcludeAction,
    pub exclude_color: Option<Seq<char>>,
}

impl CueModel {
    /// A cue with nothing filled in.
    pub open spec fn blank() -> CueModel {
        CueModel {
            id: Seq::empty(),
            name: Seq::empty(),
            kind: CueKind::Video,
            file: Seq::empty(),
            color: None,
            fade_in_ms: 0,
            in_ms: 0,
            out_ms: None,
            loops: false,
            on_end: EndAction::Cut,
            notes: None,
            target: TargetModel::All,
            exclude_action: ExcludeAction::Ignore,
            exclude_color: None,
        }
    }
}

impl View for Cue {
    type V = CueModel;

    open spec fn view(&self) -> CueModel {
        CueModel {
            id: self.id@,
            name: self.name@,
            kind: self.kind,
            file: self.file@,
            color: self.color.deep_view(),
            fade_in_ms: self.fade_in_ms,
            in_ms: self.in_ms,
            out_ms: self.out_ms,
            loops: self.loops,
            on_end: self.on_end,
            notes: self.notes.deep_view(),
            target: self.target@,
            exclude_action: self.exclude_action,
            exclude_color: self.exclude_color.deep_view(),
        }
    }
}

impl DeepView for Cue {
    type V = CueModel;

    open spec fn deep_view(&self) -> CueModel {
        self@
    }
}

impl Default for Cue {
    fn default() -> (r: Self)
        ensures
            r@ == CueModel::blank(),
            r.id@.len() == 0,
            r.name@.len() == 0,
            r.kind == CueKind::Video,
            r.file@.len() == 0,
            r.color is None,
            r.fade_in_ms == 0,
            r.in_ms == 0,
            r.out_ms is None,
            !r.loops,
            r.on_end == EndAction::Cut,
            r.notes is None,
            r.target is All,
            r.exclude_action == ExcludeAction::Ignore,
            r.exclude_color is None,
    {
        Cue {
            id: String::new(),
            name: String::new(),
            kind: CueKind::Video,
            file: String::new(),
            color: None,
            fade_in_ms: 0,
            in_ms: 0,
            out_ms: None,
            loops: false,
            on_end: EndAction::Cut,
            notes: None,
            target: CueTarget::All,
            exclude_action: ExcludeAction::Ignore,
            exclude_color: None,
        }
    }
}

impl Clone for Cue {
    fn clone(&self) -> (r: Self)
        ensures
            r@ == self@,
    {
        Cue {
            id: self.id.clone(),
            name: self.name.clone(),
            kind: self.kind,
            file: self.file.clone(),
            color: copy_option(&self.color),
            fade_in_ms: self.fade_in_ms,
            in_ms: self.in_ms,
            out_ms: self.out_ms,
            loops: self.loops,
            on_end: self.on_end,
            notes: copy_option(&self.notes),
            target: self.target.clone(),
            exclude_action: self.exclude_action,
            exclude_color: copy_option(&self.exclude_color),
        }
    }
}

impl Cue {
    /// Does this cue target `client_id`, per its [`CueTarget`]?
    pub fn targets(&self, client_id: &str) -> (r: bool)
        ensures
            r == self@.target.includes(client_id@),
            match self.target {
                CueTarget::All => r,
                CueTarget::Whitelist { clients } => r == clients.deep_view().contains(client_id@),
                CueTarget::Blacklist { clients } => r == !clients.deep_view().contains(client_id@),
            },
    {
        match &self.target {
            CueTarget::All => true,
            CueTarget::Whitelist { clients } => contains_text(clients, client_id),
            CueTarget::Blacklist { clients } => !contains_text(clients, client_id),
        }
    }
}

/// Split `all_ids` into (included, excluded) per `cue`'s targeting.
pub fn partition_clients(cue: &Cue, all_ids: &Vec<String>) -> (r: (Vec<String>, Vec<String>))
    ensures
        r.0.deep_view() == all_ids.deep_view().filter(|id: Seq<char>| cue@.target.includes(id)),
        r.1.deep_view() == all_ids.deep_view().filter(|id: Seq<char>| !cue@.target.includes(id)),
{
    let mut included: Vec<String> = Vec::new();
    let mut excluded: Vec<String> = Vec::new();
    let ghost ids = all_ids.deep_view();
    let ghost is_in = |id: Seq<char>| cue@.target.includes(id);
    let ghost is_out = |id: Seq<char>| !cue@.target.includes(id);
    let mut i: usize = 0;
    proof {
        assert(ids.take(0) =~= Seq::<Seq<char>>::empty());
        reveal(Seq::filter);
        assert(included.deep_view() =~= ids.take(0).filter(is_in));
        assert(excluded.deep_view() =~= ids.take(0).filter(is_out));
    }
    while i < all_ids.len()
        invariant
            0 <= i <= all_ids.len(),
            ids == all_ids.deep_view(),
            is_in == (|id: Seq<char>| cue@.target.includes(id)),
            is_out == (|id: Seq<char>| !cue@.target.includes(id)),
            included.deep_view() == ids.take(i as int).filter(is_in),
            excluded.deep_view() == ids.take(i as int).filter(is_out),
        decreases all_ids.len() - i,
    {
        let id: &String = &all_ids[i];
        let ghost before_in = included.deep_view();
        let ghost before_out = excluded.deep_view();
        if cue.targets(id.as_str()) {
            included.push(id.clone());
            assert(included.deep_view() =~= before_in.push(id@));
        } else {
            excluded.push(id.clone());
            assert(excluded.deep_view() =~= before_out.push(id@));
        }
        proof {
            reveal(Seq::filter);
            assert(ids.take(i + 1).drop_last() =~= ids.take(i as int));
            assert(ids.take(i + 1).last() == id@);
        }
        i = i + 1;
    }
    assert(ids.take(i as int) =~= ids);
    (included, excluded)
}

/// How far a client may bend its playback rate to catch up, and when it seeks
/// instead.
#[derive(Debug, PartialEq, Eq)]
pub struct SyncCorrection {
    /// The slowest playback rate, in decimal.
    pub rate_min: String,
    /// The fastest playback rate, in decimal.
    pub rate_max: String,
    pub hard_seek_threshold_ms: u32,
    pub sync_interval_ms: u32,
}

/// The model of a [`SyncCorrection`].
#[verifier::ext_equal]
pub struct CorrectionModel {
    pub rate_min: Seq<char>,
    pub rate_max: Seq<char>,
    pub hard_seek_threshold_ms: u32,
    pub sync_interval_ms: u32,
}

impl CorrectionModel {
    /// The settings of a show that names none.
    pub open spec fn standard() -> CorrectionModel {
        CorrectionModel {
            rate_min: "0.95"@,
            rate_max: "1.05"@,
            hard_seek_threshold_ms: 300,
            sync_interval_ms: 1000,
        }
    }
}

impl View for SyncCorrection {
    type V = CorrectionModel;

    open spec fn view(&self) -> CorrectionModel {
        CorrectionModel {
            rate_min: self.rate_min@,
            rate_max: self.rate_max@,
            hard_seek_threshold_ms: self.hard_seek_threshold_ms,
            sync_interval_ms: self.sync_interval_ms,
        }
    }
}

impl Default for SyncCorrection {
    fn default() -> (r: Self)
        ensures
            r@ == CorrectionModel::standard(),
            r.rate_min@ == "0.95"@,
            r.rate_max@ == "1.05"@,
            r.hard_seek_threshold_ms == 300,
            r.sync_interval_ms == 1000,
    {
        SyncCorrection {
            rate_min: "0.95".to_owned(),
            rate_max: "1.05".to_owned(),
            hard_seek_threshold_ms: 300,
            sync_interval_ms: 1000,
        }
    }
}

impl Clone for SyncCorrection {
    fn clone(&self) -> (r: Self)
        ensures
            r@ == self@,
    {
        SyncCorrection {
            rate_min: self.rate_min.clone(),
            rate_max: self.rate_max.clone(),
            hard_seek_threshold_ms: self.hard_seek_threshold_ms,
            sync_interval_ms: self.sync_interval_ms,
        }
    }
}

/// Clock-sync settings of a show.
#[derive(Debug, PartialEq, Eq)]
pub struct SyncConfig {
    pub max_drift_ms: u32,
    pub start_lead_ms: u32,
    pub correction: SyncCorrection,
}

/// The model of a [`SyncConfig`].
#[verifier::ext_equal]
pub struct SyncModel {
    pub max_drift_ms: u32,
    pub start_lead_ms: u32,
    pub correction: CorrectionModel,
}

impl SyncModel {
    /// The settings of a show that names none.
    pub open spec fn standard() -> SyncModel {
        SyncModel {
            max_drift_ms: 150,
            start_lead_ms: 250,
            correction: CorrectionModel::standard(),
        }
    }
}

impl View for SyncConfig {
    type V = SyncModel;

    open spec fn view(&self) -> SyncModel {
        SyncModel {
            max_drift_ms: self.max_drift_ms,
            start_lead_ms: self.start_lead_ms,
            correction: self.correction@,
        }
    }
}

impl Default for SyncConfig {
    fn default() -> (r: Self)
        ensures
            r@ == SyncModel::standard(),
            r.max_drift_ms == 150,
            r.start_lead_ms == 250,
    {
        SyncConfig { max_drift_ms: 150, start_lead_ms: 250, correction: SyncCorrection::default() }
    }
}

impl Clone for SyncConfig {
    fn clone(&self) -> (r: Self)
        ensures
            r@ == self@,
    {
        SyncConfig {
            max_drift_ms: self.max_drift_ms,
            start_lead_ms: self.start_lead_ms,
            correction: self.correction.clone(),
        }
    }
}

/// A show-level poster: an image or looping video every client shows on
/// connect and drops back to when no cue is on air. `file` is relative to
/// `media_root`.
#[derive(Debug, PartialEq, Eq)]
pub struct Poster {
    /// `Video` (looped) or `Image`.
    pub kind: CueKind,
    pub file: String,
}

/// The model of a [`Poster`].
#[verifier::ext_equal]
pub struct PosterModel {
    pub kind: CueKind,
    pub file: Seq<char>,
}

impl View for Poster {
    type V = PosterModel;

    open spec fn view(&self) -> PosterModel {
        PosterModel { kind: self.kind, file: self.file@ }
    }
}

impl DeepView for Poster {
    type V = PosterModel;

    open spec fn deep_view(&self) -> PosterModel {
        self@
    }
}

impl Clone for Poster {
    fn clone(&self) -> (r: Self)
        ensures
            r@ == self@,
    {
        Poster { kind: self.kind, file: self.file.clone() }
    }
}

/// The settings of a show.
#[derive(Debug)]
pub struct Show {
    pub title: String,
    pub version: u32,
    pub media_root: String,
    pub dropout_policy: DropoutPolicy,
    pub sync: SyncConfig,
    /// Optional idle poster (shown on connect and between cues).
    pub poster: Option<Poster>,
}

/// The model of a [`Show`].
#[verifier::ext_equal]
pub struct ShowModel {
    pub title: Seq<char>,
    pub version: u32,
    pub media_root: Seq<char>,
    pub dropout_policy: DropoutPolicy,
    pub sync: SyncModel,
    pub poster: Option<PosterModel>,
}

impl View for Show {
    type V = ShowModel;

    open spec fn view(&self) -> ShowModel {
        ShowModel {
            title: self.title@,
            version: self.version,
            media_root: self.media_root@,
            dropout_policy: self.dropout_policy,
            sync: self.sync@,
            poster: self.poster.deep_view(),
        }
    }
}

impl Clone for Show {
    fn clone(&self) -> (r: Self)
        ensures
            r@ == self@,
    {
        Show {
            title: self.title.clone(),
            version: self.version,
            media_root: self.media_root.clone(),
            dropout_policy: self.dropout_policy,
            sync: self.sync.clone(),
            poster: match &self.poster {
                Some(p) => Some(p.clone()),
                None => None,
            },
        }
    }
}

/// A whole show: its settings and its cues.
#[derive(Debug)]
pub struct ShowFile {
    pub show: Show,
    pub cues: Vec<Cue>,
}

/// The model of a [`ShowFile`].
#[verifier::ext_equal]
pub struct ShowFileModel {
    pub show: ShowModel,
    pub cues: Seq<CueModel>,
}

impl View for ShowFile {
    type V = ShowFileModel;

    open spec fn view(&self) -> ShowFileModel {
        ShowFileModel { show: self.show@, cues: self.cues.deep_view() }
    }
}

impl DeepView for ShowFile {
    type V = ShowFileModel;

    open spec fn deep_view(&self) -> ShowFileModel {
        self@
    }
}

/// A copy of a list of cues.
pub fn copy_cues(v: &Vec<Cue>) -> (r: Vec<Cue>)
    ensures
        r.deep_view() == v.deep_view(),
{
    let mut r: Vec<Cue> = Vec::new();
    let mut i: usize = 0;
    while i < v.len()
        invariant
            0 <= i <= v.len(),
            r@.len() == i,
            forall|k: int| 0 <= k < i ==> (#[trigger] r@[k])@ == v@[k]@,
        decreases v.len() - i,
    {
        r.push(v[i].clone());
        i = i + 1;
    }
    assert(r.deep_view() =~= v.deep_view());
    r
}

impl Clone for ShowFile {
    fn clone(&self) -> (r: Self)
        ensures
            r@ == self@,
    {
        ShowFile { show: self.show.clone(), cues: copy_cues(&self.cues) }
    }
}

/// What can be wrong with a show or its file.
#[derive(Debug, PartialEq, Eq)]
pub enum ShowError {
    /// The file could not be read or written.
    Io(String),
    /// The file is not TOML, or not the TOML of a show.
    Toml(String),
    DuplicateCueId(String),
    MediaMissing { cue_id: String, path: String },
    InvalidCue { cue_id: String, problem: String },
    /// The show could not be written as TOML.
    Serialize(String),
}

/// The model of a [`ShowError`].
#[verifier::ext_equal]
pub enum ShowErrorModel {
    Io(Seq<char>),
    Toml(Seq<char>),
    DuplicateCueId(Seq<char>),
    MediaMissing { cue_id: Seq<char>, path: Seq<char> },
    InvalidCue { cue_id: Seq<char>, problem: Seq<char> },
    Serialize(Seq<char>),
}

impl View for ShowError {
    type V = ShowErrorModel;

    open spec fn view(&self) -> ShowErrorModel {
        match self {
            ShowError::Io(s) => ShowErrorModel::Io(s@),
            ShowError::Toml(s) => ShowErrorModel::Toml(s@),
            ShowError::DuplicateCueId(s) => ShowErrorModel::DuplicateCueId(s@),
            ShowError::MediaMissing { cue_id, path } => ShowErrorModel::MediaMissing {
                cue_id: cue_id@,
                path: path@,
            },
            ShowError::InvalidCue { cue_id, problem } => ShowErrorModel::InvalidCue {
                cue_id: cue_id@,
                problem: problem@,
            },
            ShowError::Serialize(s) => ShowErrorModel::Serialize(s@),
        }
    }
}

impl ShowErrorModel {
    /// The error in words.
    pub open spec fn message(self) -> Seq<char> {
        match self {
            ShowErrorModel::Io(s) => "failed to read show file: "@ + s,
            ShowErrorModel::Toml(s) => "failed to parse TOML: "@ + s,
            ShowErrorModel::DuplicateCueId(s) => "duplicate cue id: "@ + s,
            ShowErrorModel::MediaMissing { cue_id, path } => "cue "@ + cue_id
                + ": media file not found at "@ + path,
            ShowErrorModel::InvalidCue { cue_id, problem } => "cue "@ + cue_id + ": "@ + problem,
            ShowErrorModel::Serialize(s) => "failed to serialize show: "@ + s,
        }
    }
}

impl ShowError {
    /// The error in words.
    pub fn message(&self) -> (r: String)
        ensures
            r@ == self@.message(),
            match self {
                ShowError::Io(s) => r@ == "failed to read show file: "@ + s@,
                ShowError::Toml(s) => r@ == "failed to parse TOML: "@ + s@,
                ShowError::DuplicateCueId(s) => r@ == "duplicate cue id: "@ + s@,
                ShowError::MediaMissing { cue_id, path } => r@ == "cue "@ + cue_id@
                    + ": media file not found at "@ + path@,
                ShowError::InvalidCue { cue_id, problem } => r@ == "cue "@ + cue_id@ + ": "@ + problem@,
                ShowError::Serialize(s) => r@ == "failed to serialize show: "@ + s@,
            },
    {
        match self {
            ShowError::Io(s) => "failed to read show file: ".to_owned().concat(s.as_str()),
            ShowError::Toml(s) => "failed to parse TOML: ".to_owned().concat(s.as_str()),
            ShowError::DuplicateCueId(s) => "duplicate cue id: ".to_owned().concat(s.as_str()),
            ShowError::MediaMissing { cue_id, path } => "cue ".to_owned().concat(
                cue_id.as_str(),
            ).concat(": media file not found at ").concat(path.as_str()),
            ShowError::InvalidCue { cue_id, problem } => "cue ".to_owned().concat(
                cue_id.as_str(),
            ).concat(": ").concat(problem.as_str()),
            ShowError::Serialize(s) => "failed to serialize show: ".to_owned().concat(s.as_str()),
        }
    }
}

/// Does one of the first `n` cues have this id?
pub open spec fn id_taken(cues: Seq<CueModel>, n: int, id: Seq<char>) -> bool {
    exists|j: int| 0 <= j < n && (#[trigger] cues[j]).id == id
}

/// What is wrong with cue `i` of a show, given the cues before it.
pub open spec fn cue_fault(cues: Seq<CueModel>, i: int) -> Option<ShowErrorModel> {
    let cue = cues[i];
    if text::blank(cue.id) {
        Some(
            ShowErrorModel::InvalidCue {
                cue_id: cue.id,
                problem: "cue id must not be empty"@,
            },
        )
    } else if id_taken(cues, i, cue.id) {
        Some(ShowErrorModel::DuplicateCueId(cue.id))
    } else if cue.kind != CueKind::Color && cue.file.len() == 0 {
        Some(ShowErrorModel::InvalidCue { cue_id: cue.id, problem: "file must not be empty"@ })
    } else if cue.kind != CueKind::Color && paths::rooted(cue.file) {
        Some(
            ShowErrorModel::InvalidCue {
                cue_id: cue.id,
                problem: "file must be relative to media_root, got "@ + cue.file,
            },
        )
    } else {
        None
    }
}

/// The fault of the first faulty cue from index `i` on.
pub open spec fn fault_from(cues: Seq<CueModel>, i: int) -> Option<ShowErrorModel>
    decreases cues.len() - i,
{
    if i >= cues.len() {
        None
    } else {
        match cue_fault(cues, i) {
            Some(e) => Some(e),
            None => fault_from(cues, i + 1),
        }
    }
}

/// A media file that a show needs, by the cue that needs it and its full path.
#[derive(Debug, PartialEq, Eq)]
pub struct MediaNeed {
    pub cue_id: String,
    pub path: String,
}

/// The model of a [`MediaNeed`].
#[verifier::ext_equal]
pub struct MediaNeedModel {
    pub cue_id: Seq<char>,
    pub path: Seq<char>,
}

impl DeepView for MediaNeed {
    type V = MediaNeedModel;

    open spec fn deep_view(&self) -> MediaNeedModel {
        MediaNeedModel { cue_id: self.cue_id@, path: self.path@ }
    }
}

/// The media files that the cues need, in cue order. Colour cues need none.
pub open spec fn cue_media(cues: Seq<CueModel>, media_root: Seq<char>) -> Seq<MediaNeedModel>
    decreases cues.len(),
{
    if cues.len() == 0 {
        Seq::empty()
    } else {
        let before = cue_media(cues.drop_last(), media_root);
        let cue = cues.last();
        if cue.kind == CueKind::Color {
            before
        } else {
            before.push(
                MediaNeedModel { cue_id: cue.id, path: paths::joined(media_root, cue.file) },
            )
        }
    }
}

impl ShowFileModel {
    /// The first structural fault of the show, if it has one.
    pub open spec fn fault(self) -> Option<ShowErrorModel> {
        fault_from(self.cues, 0)
    }

    /// The media files that the show needs: those of its cues, then its poster.
    pub open spec fn media(self, media_root: Seq<char>) -> Seq<MediaNeedModel> {
        let cues = cue_media(self.cues, media_root);
        match self.show.poster {
            Some(p) => cues.push(
                MediaNeedModel { cue_id: "poster"@, path: paths::joined(media_root, p.file) },
            ),
            None => cues,
        }
    }

    /// An empty show of the given title.
    pub open spec fn empty(title: Seq<char>) -> ShowFileModel {
        ShowFileModel {
            show: ShowModel {
                title,
                version: 1,
                media_root: "~/multiplex_media"@,
                dropout_policy: DropoutPolicy::Continue,
                sync: SyncModel::standard(),
                poster: None,
            },
            cues: Seq::empty(),
        }
    }
}

/// The first media file that is not among those present, from index `i` on.
pub open spec fn missing_from(
    needs: Seq<MediaNeedModel>,
    present: Seq<Seq<char>>,
    i: int,
) -> Option<ShowErrorModel>
    decreases needs.len() - i,
{
    if i >= needs.len() {
        None
    } else if present.contains(needs[i].path) {
        missing_from(needs, present, i + 1)
    } else {
        Some(ShowErrorModel::MediaMissing { cue_id: needs[i].cue_id, path: needs[i].path })
    }
}

impl ShowFile {
    /// A minimal empty show, the starting point for the editor's "New show".
    pub fn new_empty(title: &str) -> (r: Self)
        ensures
            r@ == ShowFileModel::empty(title@),
            r.show.title@ == title@,
            r.show.version == 1,
            r.show.media_root@ == "~/multiplex_media"@,
            r.show.dropout_policy == DropoutPolicy::Continue,
            r.show.sync.max_drift_ms == 150,
            r.show.sync.start_lead_ms == 250,
            r.show.poster is None,
            r.cues@.len() == 0,
    {
        let r = ShowFile {
            show: Show {
                title: title.to_owned(),
                version: 1,
                media_root: "~/multiplex_media".to_owned(),
                dropout_policy: DropoutPolicy::default(),
                sync: SyncConfig::default(),
                poster: None,
            },
            cues: Vec::new(),
        };
        assert(r@.cues =~= Seq::<CueModel>::empty());
        r
    }

    /// Structural validation. Does *not* look for media files: see
    /// [`Self::validate_media`] for that.
    pub fn validate(&self) -> (r: Result<(), ShowError>)
        ensures
            match r {
                Ok(()) => self@.fault() is None,
                Err(e) => self@.fault() == Some(e@),
            },
    {
        let ghost cues = self@.cues;
        let mut i: usize = 0;
        while i < self.cues.len()
            invariant
                0 <= i <= self.cues.len(),
                cues == self@.cues,
                fault_from(cues, 0) == fault_from(cues, i as int),
            decreases self.cues.len() - i,
        {
            let cue: &Cue = &self.cues[i];
            assert(cues[i as int] == cue@);
            proof {
                text::lemma_blank_trimmed(cue.id@);
            }
            if trim(cue.id.as_str()).is_empty() {
                return Err(
                    ShowError::InvalidCue {
                        cue_id: cue.id.clone(),
                        problem: "cue id must not be empty".to_owned(),
                    },
                );
            }
            let mut j: usize = 0;
            while j < i
                invariant
                    0 <= j <= i < self.cues.len(),
                    cues == self@.cues,
                    cue@ == cues[i as int],
                    !text::blank(cue@.id),
                    fault_from(cues, 0) == fault_from(cues, i as int),
                    forall|k: int| 0 <= k < j ==> (#[trigger] cues[k]).id != cue@.id,
                decreases i - j,
            {
                if same_text(self.cues[j].id.as_str(), cue.id.as_str()) {
                    assert(cues[j as int].id == cue@.id);
                    return Err(ShowError::DuplicateCueId(cue.id.clone()));
                }
                assert(cues[j as int].id == self.cues@[j as int].id@);
                j = j + 1;
            }
            // Colour cues carry no media file; every other kind needs a
            // relative path.
            if cue.kind != CueKind::Color {
                if cue.file.as_str().is_empty() {
                    return Err(
                        ShowError::InvalidCue {
                            cue_id: cue.id.clone(),
                            problem: "file must not be empty".to_owned(),
                        },
                    );
                }
                if is_rooted(cue.file.as_str()) {
                    return Err(
                        ShowError::InvalidCue {
                            cue_id: cue.id.clone(),
                            problem: "file must be relative to media_root, got ".to_owned().concat(
                                cue.file.as_str(),
                            ),
                        },
                    );
                }
            }
            i = i + 1;
        }
        Ok(())
    }

    /// The media files that the show needs under `media_root`: those of its
    /// cues in order, then the poster's. Colour cues have no file.
    pub fn media_needs(&self, media_root: &str) -> (r: Vec<MediaNeed>)
        ensures
            r.deep_view() == self@.media(media_root@),
            forall|i: int|
                0 <= i < self.cues@.len() && (#[trigger] self.cues@[i]).kind != CueKind::Color
                    ==> exists|k: int|
                    0 <= k < r@.len() && (#[trigger] r@[k]).cue_id@ == self.cues@[i].id@
                        && r@[k].path@ == paths::joined(media_root@, self.cues@[i].file@),
    {
        let ghost cues = self@.cues;
        let mut r: Vec<MediaNeed> = Vec::new();
        let mut i: usize = 0;
        assert(cues.take(0) =~= Seq::<CueModel>::empty());
        assert(r.deep_view() =~= cue_media(cues.take(0), media_root@));
        while i < self.cues.len()
            invariant
                0 <= i <= self.cues.len(),
                cues == self@.cues,
                r.deep_view() == cue_media(cues.take(i as int), media_root@),
            decreases self.cues.len() - i,
        {
            let cue: &Cue = &self.cues[i];
            let ghost before = r.deep_view();
            assert(cues.take(i + 1).drop_last() =~= cues.take(i as int));
            assert(cues.take(i + 1).last() == cue@);
            if cue.kind != CueKind::Color {
                let need = MediaNeed {
                    cue_id: cue.id.clone(),
                    path: join_path(media_root, cue.file.as_str()),
                };
                let ghost model = need.deep_view();
                r.push(need);
                assert(r.deep_view() =~= before.push(model));
            }
            i = i + 1;
        }
        assert(cues.take(i as int) =~= cues);
        if let Some(poster) = &self.show.poster {
            let ghost before = r.deep_view();
            let need = MediaNeed {
                cue_id: "poster".to_owned(),
                path: join_path(media_root, poster.file.as_str()),
            };
            let ghost model = need.deep_view();
            r.push(need);
            assert(r.deep_view() =~= before.push(model));
        }
        proof {
            let all = self@.media(media_root@);
            assert forall|i: int|
                0 <= i < self.cues@.len() && (#[trigger] self.cues@[i]).kind
                    != CueKind::Color implies exists|k: int|
                0 <= k < r@.len() && (#[trigger] r@[k]).cue_id@ == self.cues@[i].id@ && r@[k].path@
                    == paths::joined(media_root@, self.cues@[i].file@) by {
                assert(cues[i] == self.cues@[i]@);
                let k = law_every_cue_file_is_needed(self@, media_root@, i);
                assert(all[k] == r@[k].deep_view());
            }
        }
        r
    }

    /// Check that every media file the show needs under the (already expanded)
    /// `media_root` is among the files `present`.
    pub fn validate_media(&self, media_root: &str, present: &Vec<String>) -> (r: Result<
        (),
        ShowError,
    >)
        ensures
            match r {
                Ok(()) => missing_from(self@.media(media_root@), present.deep_view(), 0) is None,
                Err(e) => missing_from(self@.media(media_root@), present.deep_view(), 0) == Some(
                    e@,
                ),
            },
            r is Ok ==> forall|i: int|
                0 <= i < self.cues@.len() && (#[trigger] self.cues@[i]).kind != CueKind::Color
                    ==> present.deep_view().contains(
                    paths::joined(media_root@, self.cues@[i].file@),
                ),
            r is Ok && self.show.poster is Some ==> present.deep_view().contains(
                paths::joined(media_root@, self.show.poster->0.file@),
            ),
            match r {
                Ok(()) => true,
                Err(ShowError::MediaMissing { cue_id, path }) => !present.deep_view().contains(
                    path@,
                ),
                Err(_) => false,
            },
    {
        let needs: Vec<MediaNeed> = self.media_needs(media_root);
        let ghost model = self@.media(media_root@);
        proof {
            law_media_ok_means_present(self@, media_root@, present.deep_view());
            assert forall|i: int|
                0 <= i < self.cues@.len() && (#[trigger] self.cues@[i]).kind != CueKind::Color
                    && missing_from(model, present.deep_view(), 0) is None implies present
                .deep_view().contains(paths::joined(media_root@, self.cues@[i].file@)) by {
                assert(self@.cues[i].kind != CueKind::Color);
            }
        }
        let mut i: usize = 0;
        while i < needs.len()
            invariant
                0 <= i <= needs.len(),
                needs.deep_view() == model,
                model == self@.media(media_root@),
                missing_from(model, present.deep_view(), 0) == missing_from(
                    model,
                    present.deep_view(),
                    i as int,
                ),
            decreases needs.len() - i,
        {
            let need: &MediaNeed = &needs[i];
            assert(model[i as int] == need.deep_view());
            if !contains_text(present, need.path.as_str()) {
                return Err(
                    ShowError::MediaMissing {
                        cue_id: need.cue_id.clone(),
                        path: need.path.clone(),
                    },
                );
            }
            i = i + 1;
        }
        Ok(())
    }
}

/// Is this cue fine on its own: an id that is not blank and, unless it is a
/// colour cue, a file path that is neither empty nor from the root?
pub open spec fn cue_sound(cue: CueModel) -> bool {
    &&& !text::blank(cue.id)
    &&& cue.kind != CueKind::Color ==> cue.file.len() > 0 && !paths::rooted(cue.file)
}

proof fn lemma_fault_from(cues: Seq<CueModel>, i: int)
    requires
        0 <= i <= cues.len(),
    ensures
        fault_from(cues, i) is None <==> (forall|k: int|
            i <= k < cues.len() ==> (#[trigger] cue_fault(cues, k)) is None),
    decreases cues.len() - i,
{
    if i < cues.len() {
        lemma_fault_from(cues, i + 1);
    }
}

/// A show passes validation exactly when every cue is sound and no two cues
/// share an id.
pub proof fn law_valid_show(show: ShowFileModel)
    ensures
        show.fault() is None <==> {
            &&& forall|i: int| 0 <= i < show.cues.len() ==> cue_sound(#[trigger] show.cues[i])
            &&& forall|i: int, j: int|
                0 <= i < j < show.cues.len() ==> (#[trigger] show.cues[i]).id != (
                #[trigger] show.cues[j]).id
        },
{
    let cues = show.cues;
    lemma_fault_from(cues, 0);
    if show.fault() is None {
        assert forall|i: int| 0 <= i < cues.len() implies cue_sound(#[trigger] cues[i]) by {
            assert(cue_fault(cues, i) is None);
        }
        assert forall|i: int, j: int| 0 <= i < j < cues.len() implies (#[trigger] cues[i]).id != (
        #[trigger] cues[j]).id by {
            assert(cue_fault(cues, j) is None);
        }
    } else if (forall|i: int| 0 <= i < cues.len() ==> cue_sound(#[trigger] cues[i])) && (forall|
        i: int,
        j: int,
    |
        0 <= i < j < cues.len() ==> (#[trigger] cues[i]).id != (#[trigger] cues[j]).id) {
        assert forall|k: int| 0 <= k < cues.len() implies (#[trigger] cue_fault(
            cues,
            k,
        )) is None by {
            assert(cue_sound(cues[k]));
        }
    }
}

/// Media validation passes exactly when every file that the show needs is
/// present.
pub proof fn law_media_present(
    show: ShowFileModel,
    media_root: Seq<char>,
    present: Seq<Seq<char>>,
)
    ensures
        missing_from(show.media(media_root), present, 0) is None <==> (forall|i: int|
            0 <= i < show.media(media_root).len() ==> present.contains(
                (#[trigger] show.media(media_root)[i]).path,
            )),
{
    lemma_missing_from(show.media(media_root), present, 0);
}

proof fn lemma_missing_from(needs: Seq<MediaNeedModel>, present: Seq<Seq<char>>, i: int)
    requires
        0 <= i <= needs.len(),
    ensures
        missing_from(needs, present, i) is None <==> (forall|k: int|
            i <= k < needs.len() ==> present.contains((#[trigger] needs[k]).path)),
    decreases needs.len() - i,
{
    if i < needs.len() {
        lemma_missing_from(needs, present, i + 1);
    }
}

/// A show of colour cues and no poster needs no media at all.
pub proof fn law_color_cues_need_no_media(show: ShowFileModel, media_root: Seq<char>)
    requires
        show.show.poster is None,
        forall|i: int| 0 <= i < show.cues.len() ==> (#[trigger] show.cues[i]).kind == CueKind::Color,
    ensures
        show.media(media_root).len() == 0,
    decreases show.cues.len(),
{
    if show.cues.len() > 0 {
        let shorter = ShowFileModel { show: show.show, cues: show.cues.drop_last() };
        assert(show.cues[show.cues.len() - 1].kind == CueKind::Color);
        law_color_cues_need_no_media(shorter, media_root);
    }
}

/// Splitting a list of clients by a cue's target loses no client and invents
/// none: each given id is on exactly one side, and no other id is on either.
pub proof fn law_partition(target: TargetModel, ids: Seq<Seq<char>>, id: Seq<char>)
    ensures
        ({
            let included = ids.filter(|i: Seq<char>| target.includes(i));
            let excluded = ids.filter(|i: Seq<char>| !target.includes(i));
            &&& included.len() + excluded.len() == ids.len()
            &&& included.contains(id) <==> ids.contains(id) && target.includes(id)
            &&& excluded.contains(id) <==> ids.contains(id) && !target.includes(id)
        }),
    decreases ids.len(),
{
    reveal(Seq::filter);
    let p = |i: Seq<char>| target.includes(i);
    let q = |i: Seq<char>| !target.includes(i);
    if ids.len() > 0 {
        let front = ids.drop_last();
        law_partition(target, front, id);
        assert(ids =~= front.push(ids.last()));
        lemma_push_contains(front, ids.last(), id);
        lemma_push_contains(front.filter(p), ids.last(), id);
        lemma_push_contains(front.filter(q), ids.last(), id);
    }
}

proof fn lemma_push_contains(s: Seq<Seq<char>>, x: Seq<char>, y: Seq<char>)
    ensures
        s.push(x).contains(y) <==> s.contains(y) || x == y,
{
    if s.contains(y) {
        let k = choose|k: int| 0 <= k < s.len() && s[k] == y;
        assert(s.push(x)[k] == y);
    }
    assert(s.push(x)[s.len() as int] == x);
    if s.push(x).contains(y) {
        let k = choose|k: int| 0 <= k < s.push(x).len() && s.push(x)[k] == y;
        if k < s.len() {
            assert(s[k] == y);
        }
    }
}

/// A cue that targets everyone excludes no one, and one with an empty
/// whitelist excludes everyone.
pub proof fn law_target_extremes(ids: Seq<Seq<char>>)
    ensures
        ids.filter(|i: Seq<char>| TargetModel::All.includes(i)) == ids,
        ids.filter(
            |i: Seq<char>| !(TargetModel::Whitelist { clients: Seq::empty() }).includes(i),
        ) == ids,
    decreases ids.len(),
{
    reveal(Seq::filter);
    if ids.len() > 0 {
        law_target_extremes(ids.drop_last());
        assert(ids.drop_last().push(ids.last()) =~= ids);
    }
}

/// Every cue that is not a colour has its file on the list of needed media, with
/// the cue's id and the path of the file under the media root; the law gives its
/// place there.
pub proof fn law_every_cue_file_is_needed(
    show: ShowFileModel,
    media_root: Seq<char>,
    i: int,
) -> (k: int)
    requires
        0 <= i < show.cues.len(),
        show.cues[i].kind != CueKind::Color,
    ensures
        0 <= k < show.media(media_root).len(),
        show.media(media_root)[k].cue_id == show.cues[i].id,
        show.media(media_root)[k].path == paths::joined(media_root, show.cues[i].file),
{
    let k = lemma_cue_media_has(show.cues, media_root, i);
    assert(show.media(media_root)[k] == cue_media(show.cues, media_root)[k]);
    k
}

proof fn lemma_cue_media_has(cues: Seq<CueModel>, media_root: Seq<char>, i: int) -> (k: int)
    requires
        0 <= i < cues.len(),
        cues[i].kind != CueKind::Color,
    ensures
        0 <= k < cue_media(cues, media_root).len(),
        cue_media(cues, media_root)[k].cue_id == cues[i].id,
        cue_media(cues, media_root)[k].path == paths::joined(media_root, cues[i].file),
    decreases cues.len(),
{
    let front = cues.drop_last();
    if i == front.len() {
        cue_media(cues, media_root).len() - 1
    } else {
        let k = lemma_cue_media_has(front, media_root, i);
        assert(cue_media(cues, media_root)[k] == cue_media(front, media_root)[k]);
        k
    }
}

/// The needed media are the files of the cues that are not colours, in cue order
/// and one for each, and then the poster's file, if the show has a poster;
/// nothing else.
pub proof fn law_needed_media_in_cue_order(show: ShowFileModel, media_root: Seq<char>)
    ensures
        ({
            let files = show.cues.filter(|c: CueModel| c.kind != CueKind::Color).map_values(
                |c: CueModel|
                    MediaNeedModel { cue_id: c.id, path: paths::joined(media_root, c.file) },
            );
            show.media(media_root) =~= match show.show.poster {
                Some(p) => files + seq![
                    MediaNeedModel { cue_id: "poster"@, path: paths::joined(media_root, p.file) },
                ],
                None => files,
            }
        }),
{
    lemma_cue_media_filtered(show.cues, media_root);
}

proof fn lemma_cue_media_filtered(cues: Seq<CueModel>, media_root: Seq<char>)
    ensures
        cue_media(cues, media_root) =~= cues.filter(
            |c: CueModel| c.kind != CueKind::Color,
        ).map_values(
            |c: CueModel|
                MediaNeedModel { cue_id: c.id, path: paths::joined(media_root, c.file) },
        ),
    decreases cues.len(),
{
    reveal(Seq::filter);
    if cues.len() > 0 {
        lemma_cue_media_filtered(cues.drop_last(), media_root);
    }
}

/// Media validation passes only if the file of every cue that is not a colour,
/// and of the poster, is present; and passes whenever they all are.
pub proof fn law_media_ok_means_present(
    show: ShowFileModel,
    media_root: Seq<char>,
    present: Seq<Seq<char>>,
)
    ensures
        missing_from(show.media(media_root), present, 0) is None <==> {
            &&& forall|i: int|
                0 <= i < show.cues.len() && (#[trigger] show.cues[i]).kind != CueKind::Color
                    ==> present.contains(paths::joined(media_root, show.cues[i].file))
            &&& show.show.poster is Some ==> present.contains(
                paths::joined(media_root, show.show.poster->0.file),
            )
        },
{
    let needs = show.media(media_root);
    let cues = cue_media(show.cues, media_root);
    law_media_present(show, media_root, present);
    if missing_from(needs, present, 0) is None {
        assert forall|i: int|
            0 <= i < show.cues.len() && (#[trigger] show.cues[i]).kind
                != CueKind::Color implies present.contains(
            paths::joined(media_root, show.cues[i].file),
        ) by {
            let k = law_every_cue_file_is_needed(show, media_root, i);
            assert(present.contains(needs[k].path));
        }
        if show.show.poster is Some {
            assert(present.contains(needs[needs.len() - 1].path));
        }
    } else if (forall|i: int|
        0 <= i < show.cues.len() && (#[trigger] show.cues[i]).kind != CueKind::Color
            ==> present.contains(paths::joined(media_root, show.cues[i].file))) && (
    show.show.poster is Some ==> present.contains(
        paths::joined(media_root, show.show.poster->0.file),
    )) {
        assert forall|k: int| 0 <= k < needs.len() implies present.contains(
            (#[trigger] needs[k]).path,
        ) by {
            if k < cues.len() {
                let i = lemma_cue_media_from(show.cues, media_root, k);
                assert(needs[k] == cues[k]);
                assert(show.cues[i].kind != CueKind::Color);
            }
        }
    }
}

proof fn lemma_cue_media_from(cues: Seq<CueModel>, media_root: Seq<char>, k: int) -> (i: int)
    requires
        0 <= k < cue_media(cues, media_root).len(),
    ensures
        0 <= i < cues.len(),
        cues[i].kind != CueKind::Color,
        cue_media(cues, media_root)[k].path == paths::joined(media_root, cues[i].file),
    decreases cues.len(),
{
    let front = cues.drop_last();
    if k < cue_media(front, media_root).len() {
        let i = lemma_cue_media_from(front, media_root, k);
        assert(cue_media(cues, media_root)[k] == cue_media(front, media_root)[k]);
        i
    } else {
        cues.len() - 1
    }
}

/// What media validation complains of is the first needed file that is not
/// present, under the id of the cue that needs it.
pub proof fn law_first_missing_file_is_named(
    needs: Seq<MediaNeedModel>,
    present: Seq<Seq<char>>,
    from: int,
)
    requires
        0 <= from <= needs.len(),
        missing_from(needs, present, from) is Some,
    ensures
        exists|k: int|
            from <= k < needs.len() && !present.contains((#[trigger] needs[k]).path) && (forall|
                j: int,
            |
                from <= j < k ==> present.contains((#[trigger] needs[j]).path)) && missing_from(
                needs,
                present,
                from,
            ) == Some(
                ShowErrorModel::MediaMissing { cue_id: needs[k].cue_id, path: needs[k].path },
            ),
    decreases needs.len() - from,
{
    if present.contains(needs[from].path) {
        law_first_missing_file_is_named(needs, present, from + 1);
    } else {
        assert(!present.contains(needs[from].path));
    }
}

/// A show passes validation exactly when every cue has an id with something in
/// it besides white space, no two cues share an id, and every cue that is not a
/// colour names a file by a path that is neither empty nor starts with a slash.
pub proof fn law_what_a_valid_show_is(show: ShowFileModel)
    ensures
        show.fault() is None <==> {
            &&& forall|i: int|
                0 <= i < show.cues.len() ==> {
                    let cue = #[trigger] show.cues[i];
                    &&& exists|k: int| 0 <= k < cue.id.len() && !text::white_space(#[trigger] cue.id[k])
                    &&& cue.kind != CueKind::Color ==> cue.file.len() > 0 && cue.file[0] != '/'
                }
            &&& forall|i: int, j: int|
                0 <= i < j < show.cues.len() ==> (#[trigger] show.cues[i]).id != (
                #[trigger] show.cues[j]).id
        },
{
    law_valid_show(show);
    assert forall|i: int| 0 <= i < show.cues.len() implies (cue_sound(#[trigger] show.cues[i]) <==> {
        let cue = show.cues[i];
        &&& exists|k: int| 0 <= k < cue.id.len() && !text::white_space(#[trigger] cue.id[k])
        &&& cue.kind != CueKind::Color ==> cue.file.len() > 0 && cue.file[0] != '/'
    }) by {}
}

/// What validation complains of is the first faulty cue: all cues before it are
/// in order. The complaint names that cue, and says what is wrong with it: an id
/// of nothing but white space, an id that an earlier cue has, or, unless it is a
/// colour, a file path that is empty or that starts with a slash.
pub proof fn law_first_faulty_cue_is_named(show: ShowFileModel)
    requires
        show.fault() is Some,
    ensures
        exists|i: int|
            #![trigger show.cues[i]]
            0 <= i < show.cues.len() && (forall|j: int|
                0 <= j < i ==> (#[trigger] cue_fault(show.cues, j)) is None) && {
                let cue = show.cues[i];
                let blank = forall|k: int|
                    0 <= k < cue.id.len() ==> text::white_space(#[trigger] cue.id[k]);
                let taken = exists|j: int| 0 <= j < i && (#[trigger] show.cues[j]).id == cue.id;
                match show.fault()->0 {
                    ShowErrorModel::DuplicateCueId(id) => id == cue.id && !blank && taken,
                    ShowErrorModel::InvalidCue { cue_id, problem } => cue_id == cue.id && (if blank {
                        problem == "cue id must not be empty"@
                    } else if cue.file.len() == 0 {
                        problem == "file must not be empty"@ && !taken && cue.kind != CueKind::Color
                    } else {
                        problem == "file must be relative to media_root, got "@ + cue.file && !taken
                            && cue.kind != CueKind::Color && cue.file[0] == '/'
                    }),
                    _ => false,
                }
            },
{
    let i = lemma_fault_at(show.cues, 0);
    assert(show.cues[i] == show.cues[i]);
    assert(text::blank(show.cues[i].id) == (forall|k: int|
        0 <= k < show.cues[i].id.len() ==> text::white_space(#[trigger] show.cues[i].id[k])));
    assert(id_taken(show.cues, i, show.cues[i].id) == (exists|j: int|
        0 <= j < i && (#[trigger] show.cues[j]).id == show.cues[i].id));
}

proof fn lemma_fault_at(cues: Seq<CueModel>, from: int) -> (i: int)
    requires
        0 <= from <= cues.len(),
        fault_from(cues, from) is Some,
    ensures
        from <= i < cues.len(),
        cue_fault(cues, i) is Some,
        fault_from(cues, from) == cue_fault(cues, i),
        forall|j: int| from <= j < i ==> (#[trigger] cue_fault(cues, j)) is None,
    decreases cues.len() - from,
{
    if cue_fault(cues, from) is Some {
        from
    } else {
        lemma_fault_at(cues, from + 1)
    }
}

/// A whitelist takes in exactly the clients on it, a blacklist exactly those not
/// on it, and a cue without either takes in everyone.
pub proof fn law_target_lists(clients: Seq<Seq<char>>, id: Seq<char>)
    ensures
        (TargetModel::Whitelist { clients }).includes(id) <==> clients.contains(id),
        (TargetModel::Blacklist { clients }).includes(id) <==> !clients.contains(id),
        TargetModel::All.includes(id),
{
}

} // verus!
